//! The layout of a stack frame.
//!
//! ```text
//!   (high addresses)
//!   +---------------------------+
//!   | caller's frame            |
//!   |  ... incoming stack args  | <- entry SP + 32 + n
//!   |  32-byte reserved header  | <- entry SP (both conventions keep the
//!   +---------------------------+    ELFv2 header in the argument area)
//!   | return address (from LR)  | <- FP + 8
//!   | previous FP               | <- FP = entry SP - 16
//!   +---------------------------+
//!   | clobbered callee-saves    |
//!   +---------------------------+
//!   | spill slots, stack slots  |
//!   +---------------------------+
//!   | outgoing args             |
//!   +---------------------------+ <- SP (16-aligned, per ELFv2)
//!   (low addresses)
//! ```
//!
//! The pair of previous FP and return address is the frame record that a stack
//! walker follows: at FP the previous FP, at FP + 8 the return address, and the
//! caller's SP is FP + 16.
use vstd::prelude::*;
use crate::ir::FunctionCalls;
use crate::regs::{RealReg, Writable};

verus! {

/// The layout of a stack frame.
#[derive(Debug)]
pub struct FrameLayout {
    /// The size of a word.
    pub word_bytes: u32,
    /// The size of the incoming arguments on the stack.
    pub incoming_args_size: u32,
    /// The size of the incoming argument area, grown for tail calls.
    pub tail_args_size: u32,
    /// The size of the frame record, or nothing.
    pub setup_area_size: u32,
    /// The size of the area for clobbered callee-saved registers.
    pub clobber_size: u32,
    /// The size of the spill and stack slots.
    pub fixed_frame_storage_size: u32,
    /// The size of the stack slots alone.
    pub stackslots_size: u32,
    /// The size of the outgoing argument area.
    pub outgoing_args_size: u32,
    /// The callee-saved registers that the function writes, in order.
    pub clobbered_callee_saves: Vec<Writable<RealReg>>,
    /// The calls that the function makes.
    pub function_calls: FunctionCalls,
}

impl FrameLayout {
    /// The distance from the stack pointer to the frame record.
    pub open spec fn spec_sp_to_fp(self) -> int {
        self.clobber_size + self.fixed_frame_storage_size + self.outgoing_args_size
    }

    /// The distance from the stack pointer to the end of the incoming argument
    /// area.
    pub open spec fn whole(self) -> int {
        self.tail_args_size + self.setup_area_size + self.spec_sp_to_fp()
    }

    /// A frame that fits a 32-bit size.
    pub open spec fn wf(self) -> bool {
        self.whole() <= u32::MAX
    }

    /// The distance from the stack pointer to the frame record.
    pub fn sp_to_fp(&self) -> (n: u32)
        requires
            self.spec_sp_to_fp() <= u32::MAX,
        ensures
            n == self.spec_sp_to_fp(),
    {
        self.clobber_size + self.fixed_frame_storage_size + self.outgoing_args_size
    }
}

} // verus!
