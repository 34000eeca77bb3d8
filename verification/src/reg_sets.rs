//! The sets of registers that the calling convention speaks of.
use vstd::prelude::*;
use crate::preg_set;
use crate::preg_set::{empty_set, set_with};
use crate::regs;
use crate::regs::{pfpr, pgpr, pvr, RegClass};

verus! {

/// Whether an index is that of a register of a class with a number in a range.
pub open spec fn in_range(i: nat, class: RegClass, lo: nat, hi: nat) -> bool {
    regs::reg_index(lo, class) <= i <= regs::reg_index(hi, class)
}

/// The set with the registers of a class from `lo` to `hi` added.
fn with_range(
    s: regalloc2::PRegSet,
    class: RegClass,
    lo: usize,
    hi: usize,
) -> (t: regalloc2::PRegSet)
    requires
        lo <= hi < 32,
    ensures
        forall|i: nat| #[trigger]
            preg_set::members(t).contains(i) <==> preg_set::members(s).contains(i) || in_range(
                i,
                class,
                lo as nat,
                hi as nat,
            ),
{
    let mut t = s;
    let mut k: usize = lo;
    while k <= hi
        invariant
            lo <= k <= hi + 1,
            hi < 32,
            forall|i: nat| #[trigger]
                preg_set::members(t).contains(i) <==> preg_set::members(s).contains(i) || (
                regs::reg_index(lo as nat, class) <= i < regs::reg_index(k as nat, class)),
        decreases hi + 1 - k,
    {
        let reg = match class {
            RegClass::Int => pgpr(k),
            RegClass::Float => pfpr(k),
            RegClass::Vector => pvr(k),
        };
        t = set_with(t, reg);
        k = k + 1;
    }
    t
}

/// Whether a register is one that a callee preserves, per ELFv2: r14-r31, f14-f31
/// and v20-v31. r2 (TOC) and r13 (thread pointer) are dedicated registers that
/// are never written, so they are preserved for free and deliberately not listed.
pub open spec fn is_callee_save(i: nat) -> bool {
    ||| in_range(i, RegClass::Int, 14, 31)
    ||| in_range(i, RegClass::Float, 14, 31)
    ||| in_range(i, RegClass::Vector, 20, 31)
}

/// The registers that a callee preserves.
pub fn default_callee_saves() -> (s: regalloc2::PRegSet)
    ensures
        forall|i: nat| #[trigger] preg_set::members(s).contains(i) <==> is_callee_save(i),
{
    let s = with_range(empty_set(), RegClass::Int, 14, 31);
    let s = with_range(s, RegClass::Float, 14, 31);
    with_range(s, RegClass::Vector, 20, 31)
}

/// Whether a register is volatile, per ELFv2: r0, r3-r12, f0-f13, v0-v19. LR and
/// CTR are volatile too, but are not allocatable and so do not appear.
pub open spec fn is_default_clobber(i: nat) -> bool {
    ||| in_range(i, RegClass::Int, 0, 0)
    ||| in_range(i, RegClass::Int, 3, 12)
    ||| in_range(i, RegClass::Float, 0, 13)
    ||| in_range(i, RegClass::Vector, 0, 19)
}

/// The registers that a call clobbers.
pub fn default_clobbers() -> (s: regalloc2::PRegSet)
    ensures
        forall|i: nat| #[trigger] preg_set::members(s).contains(i) <==> is_default_clobber(i),
{
    let s = with_range(empty_set(), RegClass::Int, 0, 0);
    let s = with_range(s, RegClass::Int, 3, 12);
    let s = with_range(s, RegClass::Float, 0, 13);
    with_range(s, RegClass::Vector, 0, 19)
}

/// Whether a register is any but the stack pointer (r1), the TOC (r2) and the
/// thread pointer (r13).
pub open spec fn is_any_clobber(i: nat) -> bool {
    ||| in_range(i, RegClass::Int, 0, 0)
    ||| in_range(i, RegClass::Int, 3, 12)
    ||| in_range(i, RegClass::Int, 14, 31)
    ||| in_range(i, RegClass::Float, 0, 31)
    ||| in_range(i, RegClass::Vector, 0, 31)
}

/// Every register but the stack pointer, the TOC and the thread pointer.
pub fn all_clobbers() -> (s: regalloc2::PRegSet)
    ensures
        forall|i: nat| #[trigger] preg_set::members(s).contains(i) <==> is_any_clobber(i),
{
    let s = with_range(empty_set(), RegClass::Int, 0, 0);
    let s = with_range(s, RegClass::Int, 3, 12);
    let s = with_range(s, RegClass::Int, 14, 31);
    let s = with_range(s, RegClass::Float, 0, 31);
    with_range(s, RegClass::Vector, 0, 31)
}

/// No register.
pub fn no_clobbers() -> (s: regalloc2::PRegSet)
    ensures
        preg_set::members(s) == Set::<nat>::empty(),
{
    empty_set()
}

/// A set of registers for each class.
#[derive(Clone, Copy, Debug)]
pub struct ClassSets {
    pub int: regalloc2::PRegSet,
    pub float: regalloc2::PRegSet,
    pub vector: regalloc2::PRegSet,
}

/// The registers that the allocator may use.
#[derive(Clone, Copy, Debug)]
pub struct MachineEnv {
    /// Those to use first: the volatile ones, which cost no save and restore.
    pub preferred: ClassSets,
    /// Those to fall back to: the callee-saved ones.
    pub non_preferred: ClassSets,
}

/// Whether a register is one to use first.
pub open spec fn is_preferred(i: nat, class: RegClass) -> bool {
    match class {
        RegClass::Int => in_range(i, class, 3, 10) || in_range(i, class, 12, 12),
        RegClass::Float => in_range(i, class, 0, 13),
        RegClass::Vector => in_range(i, class, 1, 19),
    }
}

/// Whether a register is one to fall back to.
pub open spec fn is_non_preferred(i: nat, class: RegClass) -> bool {
    match class {
        RegClass::Int => in_range(i, class, 14, 30),
        RegClass::Float => in_range(i, class, 14, 31),
        RegClass::Vector => in_range(i, class, 20, 31),
    }
}

/// The registers that the allocator may use. Not allocatable: r0 (reads as zero,
/// emission scratch), r1 (stack pointer), r2 (TOC), r11 (scratch), r13 (thread
/// pointer), r31 (frame pointer), v0 (vector emission scratch). r12 is
/// allocatable but is also where the target of an indirect call goes.
pub fn create_reg_environment() -> (env: MachineEnv)
    ensures
        forall|i: nat| #[trigger]
            preg_set::members(env.preferred.int).contains(i) <==> is_preferred(i, RegClass::Int),
        forall|i: nat| #[trigger]
            preg_set::members(env.preferred.float).contains(i) <==> is_preferred(
                i,
                RegClass::Float,
            ),
        forall|i: nat| #[trigger]
            preg_set::members(env.preferred.vector).contains(i) <==> is_preferred(
                i,
                RegClass::Vector,
            ),
        forall|i: nat| #[trigger]
            preg_set::members(env.non_preferred.int).contains(i) <==> is_non_preferred(
                i,
                RegClass::Int,
            ),
        forall|i: nat| #[trigger]
            preg_set::members(env.non_preferred.float).contains(i) <==> is_non_preferred(
                i,
                RegClass::Float,
            ),
        forall|i: nat| #[trigger]
            preg_set::members(env.non_preferred.vector).contains(i) <==> is_non_preferred(
                i,
                RegClass::Vector,
            ),
{
    MachineEnv {
        preferred: ClassSets {
            int: with_range(with_range(empty_set(), RegClass::Int, 3, 10), RegClass::Int, 12, 12),
            float: with_range(empty_set(), RegClass::Float, 0, 13),
            vector: with_range(empty_set(), RegClass::Vector, 1, 19),
        },
        non_preferred: ClassSets {
            int: with_range(empty_set(), RegClass::Int, 14, 30),
            float: with_range(empty_set(), RegClass::Float, 14, 31),
            vector: with_range(empty_set(), RegClass::Vector, 20, 31),
        },
    }
}

/// Every register is clobbered by a call or preserved by it, and none is both,
/// but for the stack pointer, the TOC and the thread pointer, which are neither.
pub proof fn law_clobbers_and_saves_partition(i: nat)
    ensures
        is_any_clobber(i) <==> is_default_clobber(i) || is_callee_save(i),
        !(is_default_clobber(i) && is_callee_save(i)),
        is_any_clobber(i) <==> (in_range(i, RegClass::Int, 0, 31) && i != 1 && i != 2 && i != 13)
            || in_range(i, RegClass::Float, 0, 31) || in_range(i, RegClass::Vector, 0, 31),
{
}

/// A register that the allocator may use belongs to one class and one list; those
/// to use first are volatile, those to fall back to are callee-saved, and the
/// reserved registers r0, r1, r2, r11, r13, r31 and v0 are in neither list.
pub proof fn law_allocatable_registers(i: nat, class: RegClass)
    ensures
        is_preferred(i, class) ==> is_default_clobber(i) && in_range(i, class, 0, 31),
        is_non_preferred(i, class) ==> is_callee_save(i) && in_range(i, class, 0, 31),
        !(is_preferred(i, class) && is_non_preferred(i, class)),
        is_preferred(i, class) || is_non_preferred(i, class) ==> i != 0 && i != 1 && i != 2 && i
            != 11 && i != 13 && i != 31 && i != regs::reg_index(0, RegClass::Vector),
        in_range(i, class, 0, 31) && !is_preferred(i, class) && !is_non_preferred(i, class) ==> i
            == 0 || i == 1 || i == 2 || i == 11 || i == 13 || i == 31 || i == regs::reg_index(
            0,
            RegClass::Vector,
        ),
{
}

} // verus!
