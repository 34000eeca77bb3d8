//! The stack of a fiber that has not run yet.
//!
//! The routine that switches stacks saves every callee-saved register below the
//! stack pointer and restores them from the other stack. Relative to the stack
//! pointer after it has allocated the save area:
//!
//! ```text
//!   0x000..0x0b0   v20-v31   (16 bytes each)
//!   0x0c0..0x148   f14-f31
//!   0x150..0x1d8   r14-r31
//!   0x1e0          CR
//!   0x1e8          LR
//! ```
//!
//! and above that, at the very top of the stack, two reserved words: the saved
//! stack pointer at top - 0x10, and the run result at top - 0x8.
use vstd::prelude::*;

verus! {

/// The size of the save area.
pub const SAVE_AREA_SIZE: u64 = 0x1F0;

/// The size of the initial image of a stack: the save area and the two reserved
/// words.
pub const INITIAL_STACK_SIZE: u64 = 0x200;

/// The offset of vector register `n` in the save area.
pub open spec fn vr_slot(n: int) -> int {
    0x10 * (n - 20)
}

/// The offset of floating-point register `n` in the save area.
pub open spec fn fpr_slot(n: int) -> int {
    0xC0 + 8 * (n - 14)
}

/// The offset of general-purpose register `n` in the save area.
pub open spec fn gpr_slot(n: int) -> int {
    0x150 + 8 * (n - 14)
}

/// The offset of the condition register in the save area.
pub const CR_SLOT: u64 = 0x1E0;

/// The offset of the link register in the save area.
pub const LR_SLOT: u64 = 0x1E8;

/// The offset of the saved stack pointer in the initial image.
pub const LAST_SP_SLOT: u64 = 0x1F0;

/// The offset of the run result in the initial image.
pub const RUN_RESULT_SLOT: u64 = 0x1F8;

/// What the first switch to a fiber needs.
#[derive(Clone, Copy, Debug, PartialEq, Eq, Structural)]
pub struct FiberStart {
    /// The top of the stack.
    pub top_of_stack: u64,
    /// The function to run.
    pub entry_point: u64,
    /// Its argument.
    pub entry_arg0: u64,
    /// The routine that switches stacks, for the switch away at the end.
    pub switch: u64,
    /// The trampoline that the first switch returns to.
    pub start: u64,
}

/// The doubleword at an offset of the initial image. The first switch restores
/// r14 (the function), r15 (its argument), r16 (the switch routine), r31 (the top
/// of the stack, doubling as the frame pointer) and LR (the trampoline) from it;
/// everything else is zero.
pub open spec fn image_word(s: FiberStart, offset: int) -> u64 {
    if offset == gpr_slot(14) {
        s.entry_point
    } else if offset == gpr_slot(15) {
        s.entry_arg0
    } else if offset == gpr_slot(16) {
        s.switch
    } else if offset == gpr_slot(31) {
        s.top_of_stack
    } else if offset == LR_SLOT {
        s.start
    } else if offset == LAST_SP_SLOT {
        (s.top_of_stack - INITIAL_STACK_SIZE) as u64
    } else {
        0
    }
}

/// Where the initial image goes.
pub fn initial_stack_address(s: &FiberStart) -> (a: u64)
    requires
        s.top_of_stack >= INITIAL_STACK_SIZE,
    ensures
        a == s.top_of_stack - INITIAL_STACK_SIZE,
{
    s.top_of_stack - INITIAL_STACK_SIZE
}

/// The initial image of a stack, as doublewords from its address up.
pub fn initial_stack(s: &FiberStart) -> (image: Vec<u64>)
    requires
        s.top_of_stack >= INITIAL_STACK_SIZE,
    ensures
        image@.len() * 8 == INITIAL_STACK_SIZE,
        forall|k: int| 0 <= k < image@.len() ==> #[trigger] image@[k] == image_word(*s, 8 * k),
{
    let mut image: Vec<u64> = Vec::new();
    let mut k: usize = 0;
    while k < 64
        invariant
            k <= 64,
            image@.len() == k,
            s.top_of_stack >= INITIAL_STACK_SIZE,
            forall|j: int| 0 <= j < k ==> #[trigger] image@[j] == image_word(*s, 8 * j),
        decreases 64 - k,
    {
        let offset: u64 = 8 * (k as u64);
        let w: u64 = if offset == 0x150 {
            s.entry_point
        } else if offset == 0x158 {
            s.entry_arg0
        } else if offset == 0x160 {
            s.switch
        } else if offset == 0x1D8 {
            s.top_of_stack
        } else if offset == LR_SLOT {
            s.start
        } else if offset == LAST_SP_SLOT {
            initial_stack_address(s)
        } else {
            0
        };
        image.push(w);
        k = k + 1;
    }
    image
}

/// The slots of the save area follow each other without a gap or an overlap, from
/// its bottom to its top: vector registers, floating-point registers,
/// general-purpose registers, CR, LR.
pub proof fn law_save_area_is_tiled(n: int)
    ensures
        vr_slot(20) == 0,
        vr_slot(31) + 16 == fpr_slot(14),
        fpr_slot(31) + 8 == gpr_slot(14),
        gpr_slot(31) + 8 == CR_SLOT,
        CR_SLOT + 8 == LR_SLOT,
        LR_SLOT + 8 == SAVE_AREA_SIZE,
        20 <= n < 31 ==> vr_slot(n) + 16 == vr_slot(n + 1) && vr_slot(n) % 16 == 0,
        14 <= n < 31 ==> fpr_slot(n) + 8 == fpr_slot(n + 1),
        14 <= n < 31 ==> gpr_slot(n) + 8 == gpr_slot(n + 1),
        SAVE_AREA_SIZE == LAST_SP_SLOT,
        RUN_RESULT_SLOT + 8 == INITIAL_STACK_SIZE,
{
}

/// The first switch to a fresh fiber finds its image: the saved stack pointer, at
/// sixteen bytes below the top, points at the image, and freeing the save area
/// from there leaves the stack pointer at the reserved words.
pub proof fn law_first_switch_finds_the_image(s: FiberStart)
    requires
        s.top_of_stack >= INITIAL_STACK_SIZE,
    ensures
        image_word(s, INITIAL_STACK_SIZE - 0x10) == s.top_of_stack - INITIAL_STACK_SIZE,
        image_word(s, INITIAL_STACK_SIZE - 0x10) + SAVE_AREA_SIZE == s.top_of_stack - 0x10,
        s.top_of_stack % 16 == 0 ==> image_word(s, INITIAL_STACK_SIZE - 0x10) % 16 == 0,
        image_word(s, gpr_slot(14)) == s.entry_point,
        image_word(s, gpr_slot(15)) == s.entry_arg0,
        image_word(s, gpr_slot(16)) == s.switch,
        image_word(s, gpr_slot(31)) == s.top_of_stack,
        image_word(s, LR_SLOT as int) == s.start,
{
}

} // verus!
