//! The frame record, as a stack walker sees it.
//!
//! The prologue establishes the frame record: at FP the previous FP, at FP + 8 the
//! return address, with r31 as the frame pointer and the caller's SP at FP + 16;
//! deliberately not the back-chain layout of native frames.
use vstd::prelude::*;

verus! {

/// The frame pointer points to the next older frame pointer.
pub const NEXT_OLDER_FP_FROM_FP_OFFSET: usize = 0;

/// The return address lives directly above the saved frame pointer.
pub const NEXT_OLDER_PC_FROM_FP_OFFSET: usize = 8;

/// The caller's stack pointer is the callee's frame pointer plus the size of the
/// pair of frame pointer and return address.
pub const NEXT_OLDER_SP_FROM_FP_OFFSET: usize = 16;

/// Whether a frame pointer is aligned as the stack always is.
pub fn fp_is_aligned(fp: usize) -> (b: bool)
    ensures
        b == (fp % 16 == 0),
{
    fp % 16 == 0
}

/// Insist that a frame pointer is aligned as the stack always is; `fp_is_aligned`
/// tells beforehand.
pub fn assert_fp_is_aligned(fp: usize)
    requires
        fp % 16 == 0,
{
}

/// The doubleword index of the return address in the frame record.
pub fn next_older_pc_index() -> (i: usize)
    ensures
        i * 8 == NEXT_OLDER_PC_FROM_FP_OFFSET,
{
    1
}

} // verus!
