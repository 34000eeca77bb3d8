//! Emission of atomic accesses.
use vstd::prelude::*;
use crate::args::{CR0_EQ, CR0_GT, CR0_LT};
use crate::buffer::{BufferView, MachBuffer};
use crate::emit_int;
use crate::emit_int::emit_bc_to_label;
use crate::encode::{
    bo_for, enc_bc, enc_cmp, enc_isel, enc_x, enc_x_logic, enc_xo, ISYNC, SYNC,
};
use crate::ir::{AtomicRmwOp, Type};
use crate::mnem;

verus! {

/// The types of atomic accesses of at most a doubleword.
pub open spec fn is_atomic_type(ty: Type) -> bool {
    match ty {
        Type::I8 | Type::I16 | Type::I32 | Type::I64 => true,
        _ => false,
    }
}

/// The extended opcodes of the load with reservation and the conditional store
/// of an access size.
pub open spec fn spec_larx_stcx_xo(ty: Type) -> (u32, u32) {
    match ty {
        Type::I8 => (52, 694),
        Type::I16 => (116, 726),
        Type::I32 => (20, 150),
        _ => (84, 214),
    }
}

/// The extended opcodes of the load with reservation and the conditional store
/// of an access size.
pub fn larx_stcx_xo(ty: Type) -> (r: (u32, u32))
    requires
        is_atomic_type(ty),
    ensures
        r == spec_larx_stcx_xo(ty),
        r.0 < 1024,
        r.1 < 1024,
{
    match ty {
        Type::I8 => (52, 694),
        Type::I16 => (116, 726),
        Type::I32 => (20, 150),
        _ => (84, 214),
    }
}

/// The indexed load of an access size.
pub open spec fn atomic_load_xo(ty: Type) -> u32 {
    match ty {
        Type::I8 => 87,
        Type::I16 => 279,
        Type::I32 => 23,
        _ => 21,
    }
}

/// The log with an atomic load: a barrier before it, and after it a branch that
/// depends on the loaded value and an `isync`, which orders it before what
/// follows.
pub open spec fn atomic_load(b: BufferView, rd: u32, addr: u32, ty: Type) -> BufferView {
    b.word(SYNC).word(mnem::x_access(rd, 0, addr, atomic_load_xo(ty))).word(
        mnem::compare(1, rd, rd),
    ).word(mnem::bc(false, CR0_EQ, 4)).word(ISYNC)
}

/// Emit an atomic load.
pub(crate) fn emit_atomic_load(sink: &mut MachBuffer, rd: u32, addr: u32, ty: Type)
    requires
        rd < 32,
        addr < 32,
        is_atomic_type(ty),
        old(sink)@.size + 20 <= u32::MAX,
    ensures
        final(sink)@ == atomic_load(old(sink)@, rd, addr, ty),
{
    // lbzx, lhzx, lwzx, ldx
    let load_xo: u32 = match ty {
        Type::I8 => 87,
        Type::I16 => 279,
        Type::I32 => 23,
        _ => 21,
    };
    sink.put4(SYNC);
    sink.put4(enc_x(rd, 0, addr, load_xo));
    sink.put4(enc_cmp(0, 1, rd, rd, 0));
    sink.put4(enc_bc(bo_for(false), CR0_EQ, 4, false));
    sink.put4(ISYNC);
}

/// The indexed store of an access size.
pub open spec fn atomic_store_xo(ty: Type) -> u32 {
    match ty {
        Type::I8 => 215,
        Type::I16 => 407,
        Type::I32 => 151,
        _ => 149,
    }
}

/// The log with an atomic store: a barrier before it.
pub open spec fn atomic_store(b: BufferView, src: u32, addr: u32, ty: Type) -> BufferView {
    b.word(SYNC).word(mnem::x_access(src, 0, addr, atomic_store_xo(ty)))
}

/// Emit an atomic store.
pub(crate) fn emit_atomic_store(sink: &mut MachBuffer, src: u32, addr: u32, ty: Type)
    requires
        src < 32,
        addr < 32,
        is_atomic_type(ty),
        old(sink)@.size + 8 <= u32::MAX,
    ensures
        final(sink)@ == atomic_store(old(sink)@, src, addr, ty),
{
    // stbx, sthx, stwx, stdx
    let store_xo: u32 = match ty {
        Type::I8 => 215,
        Type::I16 => 407,
        Type::I32 => 151,
        _ => 149,
    };
    sink.put4(SYNC);
    sink.put4(enc_x(src, 0, addr, store_xo));
}

/// Whether an operation keeps the lesser or the greater operand.
pub open spec fn is_min_max(op: AtomicRmwOp) -> bool {
    match op {
        AtomicRmwOp::Umin | AtomicRmwOp::Umax | AtomicRmwOp::Smin | AtomicRmwOp::Smax => true,
        _ => false,
    }
}

/// Whether an operation compares signed numbers.
pub open spec fn is_signed_min_max(op: AtomicRmwOp) -> bool {
    op == AtomicRmwOp::Smin || op == AtomicRmwOp::Smax
}

/// Whether an operation keeps the lesser operand.
pub open spec fn keeps_lesser(op: AtomicRmwOp) -> bool {
    op == AtomicRmwOp::Umin || op == AtomicRmwOp::Smin
}

/// The sign extension of a width below a doubleword.
pub open spec fn sign_extend(ty: Type, rd: u32, rn: u32) -> u32 {
    match ty {
        Type::I8 => mnem::extsb(rd, rn),
        Type::I16 => mnem::extsh(rd, rn),
        _ => mnem::extsw(rd, rn),
    }
}

/// The log with the choice of the lesser or greater of the loaded value and the
/// operand, in r0. The load zero-extends and the operand comes extended, so an
/// unsigned compare works at full width; a signed one of a narrow type first
/// sign-extends the loaded value.
pub open spec fn rmw_min_max(
    b: BufferView,
    op: AtomicRmwOp,
    rd: u32,
    src: u32,
    ty: Type,
) -> BufferView {
    let b = if is_signed_min_max(op) {
        if ty != Type::I64 {
            b.word(sign_extend(ty, 0, rd)).word(mnem::compare(1, 0, src))
        } else {
            b.word(mnem::compare(1, rd, src))
        }
    } else {
        b.word(mnem::compare_logical(1, rd, src))
    };
    if keeps_lesser(op) {
        b.word(mnem::isel(0, rd, src, CR0_LT))
    } else {
        b.word(mnem::isel(0, src, rd, CR0_LT))
    }
}

/// The log with the replacement value: in r0, save that an exchange stores the
/// operand itself.
pub open spec fn rmw_value(
    b: BufferView,
    op: AtomicRmwOp,
    rd: u32,
    src: u32,
    ty: Type,
) -> BufferView {
    match op {
        AtomicRmwOp::Xchg => b,
        AtomicRmwOp::Add => b.word(mnem::add_d(0, rd, src)),
        AtomicRmwOp::Sub => b.word(mnem::subf(0, src, rd)),
        AtomicRmwOp::And => b.word(mnem::and_x(0, rd, src)),
        AtomicRmwOp::Or => b.word(mnem::or_x(0, rd, src)),
        AtomicRmwOp::Xor => b.word(mnem::xor_x(0, rd, src)),
        AtomicRmwOp::Nand => b.word(mnem::nand(0, rd, src)),
        _ => rmw_min_max(b, op, rd, src, ty),
    }
}

/// The register that the conditional store stores.
pub open spec fn rmw_store_reg(op: AtomicRmwOp, src: u32) -> u32 {
    if op == AtomicRmwOp::Xchg {
        src
    } else {
        0
    }
}

/// The log with an atomic read-modify-write: a barrier, and a loop of a load
/// with reservation, the operation, and a conditional store that goes back when
/// the reservation was lost.
pub open spec fn atomic_rmw(
    b: BufferView,
    op: AtomicRmwOp,
    rd: u32,
    addr: u32,
    src: u32,
    ty: Type,
) -> BufferView {
    let (larx, stcx) = spec_larx_stcx_xo(ty);
    let b = b.word(SYNC);
    let top = b.fresh();
    let b = b.with_label().bind(top).word(mnem::x_access(rd, 0, addr, larx));
    let b = rmw_value(b, op, rd, src, ty).word(
        mnem::x_access_record(rmw_store_reg(op, src), 0, addr, stcx),
    );
    emit_int::bc_to(b, top, CR0_EQ, false).word(ISYNC)
}

fn emit_rmw_min_max(sink: &mut MachBuffer, op: AtomicRmwOp, rd: u32, src: u32, ty: Type)
    requires
        is_min_max(op),
        is_atomic_type(ty),
        rd != 0,
        src != 0,
        old(sink)@.size + 12 <= u32::MAX,
    ensures
        final(sink)@ == rmw_min_max(old(sink)@, op, rd, src, ty),
        final(sink)@.size <= old(sink)@.size + 12,
{
    let signed: bool = match op {
        AtomicRmwOp::Smin | AtomicRmwOp::Smax => true,
        _ => false,
    };
    let lhs: u32 = if signed {
        match ty {
            Type::I8 => {
                sink.put4(enc_x_logic(rd, 0, 0, 954));
                0
            },
            Type::I16 => {
                sink.put4(enc_x_logic(rd, 0, 0, 922));
                0
            },
            Type::I32 => {
                sink.put4(enc_x_logic(rd, 0, 0, 986));
                0
            },
            _ => rd,
        }
    } else {
        rd
    };
    let xo: u32 = if signed {
        0
    } else {
        32
    };
    sink.put4(enc_cmp(0, 1, lhs, src, xo));
    // Keep the loaded value when it is already the lesser or greater one,
    // otherwise take src.
    match op {
        AtomicRmwOp::Umin | AtomicRmwOp::Smin => sink.put4(enc_isel(0, rd, src, CR0_LT)),
        _ => sink.put4(enc_isel(0, src, rd, CR0_LT)),
    }
}

/// Emit an atomic read-modify-write.
pub(crate) fn emit_atomic_rmw(
    sink: &mut MachBuffer,
    op: AtomicRmwOp,
    rd: u32,
    addr: u32,
    src: u32,
    ty: Type,
)
    requires
        rd < 32,
        addr < 32,
        src < 32,
        is_atomic_type(ty),
        is_min_max(op) ==> rd != 0 && src != 0,
        old(sink)@.room(32, 1),
    ensures
        final(sink)@ == atomic_rmw(old(sink)@, op, rd, addr, src, ty),
{
    let (larx_xo, stcx_xo) = larx_stcx_xo(ty);
    sink.put4(SYNC);
    let loop_top = sink.get_label();
    sink.bind_label(loop_top);
    sink.put4(enc_x(rd, 0, addr, larx_xo));

    // Compute the replacement value into r0, or use src directly for an
    // exchange.
    let store_reg: u32 = match op {
        AtomicRmwOp::Xchg => src,
        AtomicRmwOp::Add => {
            sink.put4(enc_xo(0, rd, src, 266));
            0
        },
        AtomicRmwOp::Sub => {
            sink.put4(enc_xo(0, src, rd, 40));
            0
        },
        AtomicRmwOp::And => {
            sink.put4(enc_x_logic(rd, 0, src, 28));
            0
        },
        AtomicRmwOp::Or => {
            sink.put4(enc_x_logic(rd, 0, src, 444));
            0
        },
        AtomicRmwOp::Xor => {
            sink.put4(enc_x_logic(rd, 0, src, 316));
            0
        },
        AtomicRmwOp::Nand => {
            sink.put4(enc_x_logic(rd, 0, src, 476));
            0
        },
        _ => {
            emit_rmw_min_max(sink, op, rd, src, ty);
            0
        },
    };

    sink.put4(enc_x(store_reg, 0, addr, stcx_xo) | 1);
    emit_bc_to_label(sink, loop_top, CR0_EQ, false);
    sink.put4(ISYNC);
}

/// The log with an atomic compare-and-swap. The load zero-extends and the
/// expected value comes zero-extended, so a full-width logical compare works for
/// every type.
pub open spec fn atomic_cas(
    b: BufferView,
    rd: u32,
    addr: u32,
    expected: u32,
    new: u32,
    ty: Type,
) -> BufferView {
    let (larx, stcx) = spec_larx_stcx_xo(ty);
    let b = b.word(SYNC);
    let top = b.fresh();
    let done = b.with_label().fresh();
    let b = b.with_label().with_label().bind(top).word(mnem::x_access(rd, 0, addr, larx)).word(
        mnem::compare_logical(1, rd, expected),
    );
    let b = emit_int::bc_to(b, done, CR0_EQ, false).word(
        mnem::x_access_record(new, 0, addr, stcx),
    );
    emit_int::bc_to(b, top, CR0_EQ, false).bind(done).word(ISYNC)
}

/// Emit an atomic compare-and-swap.
pub(crate) fn emit_atomic_cas(
    sink: &mut MachBuffer,
    rd: u32,
    addr: u32,
    expected: u32,
    new: u32,
    ty: Type,
)
    requires
        rd < 32,
        addr < 32,
        expected < 32,
        new < 32,
        is_atomic_type(ty),
        old(sink)@.room(28, 2),
    ensures
        final(sink)@ == atomic_cas(old(sink)@, rd, addr, expected, new, ty),
{
    let (larx_xo, stcx_xo) = larx_stcx_xo(ty);
    sink.put4(SYNC);
    let loop_top = sink.get_label();
    let done = sink.get_label();
    sink.bind_label(loop_top);
    sink.put4(enc_x(rd, 0, addr, larx_xo));
    sink.put4(enc_cmp(0, 1, rd, expected, 32));
    emit_bc_to_label(sink, done, CR0_EQ, false);
    sink.put4(enc_x(new, 0, addr, stcx_xo) | 1);
    emit_bc_to_label(sink, loop_top, CR0_EQ, false);
    sink.bind_label(done);
    sink.put4(ISYNC);
}

// Quadwords. The pairs are fixed: address r3, operand r4:r5, replacement of a
// compare-and-swap r6:r7, loaded value r8:r9, new value r10:r11.

/// The load of a quadword with reservation: `lqarx r8, 0, r3`.
pub open spec fn lqarx() -> u32 {
    mnem::x_access(8, 0, 3, 276)
}

/// The conditional store of a quadword: `stqcx. RS, 0, r3`.
pub open spec fn stqcx(rs: u32) -> u32 {
    mnem::x_access_record(rs, 0, 3, 182)
}

/// The log with an atomic load of a quadword. The plain quadword load does not
/// work in little-endian mode before ISA 3.0, so the load with reservation stands
/// in for it; the reservation is simply left behind.
pub open spec fn atomic_load128(b: BufferView) -> BufferView {
    b.word(SYNC).word(lqarx()).word(mnem::compare(1, 8, 8)).word(mnem::bc(false, CR0_EQ, 4)).word(
        ISYNC,
    )
}

/// Emit an atomic load of a quadword.
pub(crate) fn emit_atomic_load128(sink: &mut MachBuffer)
    requires
        old(sink)@.size + 20 <= u32::MAX,
    ensures
        final(sink)@ == atomic_load128(old(sink)@),
{
    sink.put4(SYNC);
    sink.put4(enc_x(8, 0, 3, 276));
    sink.put4(enc_cmp(0, 1, 8, 8, 0));
    sink.put4(enc_bc(bo_for(false), CR0_EQ, 4, false));
    sink.put4(ISYNC);
}

/// The log with an atomic store of a quadword.
pub open spec fn atomic_store128(b: BufferView) -> BufferView {
    let b = b.word(SYNC);
    let top = b.fresh();
    emit_int::bc_to(b.with_label().bind(top).word(lqarx()).word(stqcx(4)), top, CR0_EQ, false)
}

/// Emit an atomic store of a quadword.
pub(crate) fn emit_atomic_store128(sink: &mut MachBuffer)
    requires
        old(sink)@.room(16, 1),
    ensures
        final(sink)@ == atomic_store128(old(sink)@),
{
    sink.put4(SYNC);
    let loop_top = sink.get_label();
    sink.bind_label(loop_top);
    sink.put4(enc_x(8, 0, 3, 276));
    sink.put4(enc_x(4, 0, 3, 182) | 1);
    emit_bc_to_label(sink, loop_top, CR0_EQ, false);
}

/// The log with the new value of a quadword in r10:r11. A minimum or maximum
/// goes by the high halves, and only where they are equal by the low halves,
/// which carry no sign; each half of the winner is then picked by the one
/// surviving cr0 bit.
pub open spec fn rmw128_value(b: BufferView, op: AtomicRmwOp) -> BufferView {
    match op {
        AtomicRmwOp::Xchg => b.word(mnem::mr(10, 4)).word(mnem::mr(11, 5)),
        AtomicRmwOp::Add => b.word(mnem::addc(11, 9, 5)).word(mnem::adde(10, 8, 4)),
        AtomicRmwOp::Sub => b.word(mnem::subfc(11, 5, 9)).word(mnem::subfe(10, 4, 8)),
        AtomicRmwOp::And => b.word(mnem::and_x(11, 9, 5)).word(mnem::and_x(10, 8, 4)),
        AtomicRmwOp::Or => b.word(mnem::or_x(11, 9, 5)).word(mnem::or_x(10, 8, 4)),
        AtomicRmwOp::Xor => b.word(mnem::xor_x(11, 9, 5)).word(mnem::xor_x(10, 8, 4)),
        AtomicRmwOp::Nand => b.word(mnem::nand(11, 9, 5)).word(mnem::nand(10, 8, 4)),
        _ => {
            let want = if keeps_lesser(op) {
                CR0_LT
            } else {
                CR0_GT
            };
            let b = if is_signed_min_max(op) {
                b.word(mnem::compare(1, 8, 4))
            } else {
                b.word(mnem::compare_logical(1, 8, 4))
            };
            b.word(mnem::bc(false, CR0_EQ, 8)).word(mnem::compare_logical(1, 9, 5)).word(
                mnem::isel(10, 8, 4, want),
            ).word(mnem::isel(11, 9, 5, want))
        },
    }
}

/// The log with an atomic read-modify-write of a quadword.
pub open spec fn atomic_rmw128(b: BufferView, op: AtomicRmwOp) -> BufferView {
    let b = b.word(SYNC);
    let top = b.fresh();
    let b = rmw128_value(b.with_label().bind(top).word(lqarx()), op).word(stqcx(10));
    emit_int::bc_to(b, top, CR0_EQ, false).word(ISYNC)
}

fn emit_rmw128_value(sink: &mut MachBuffer, op: AtomicRmwOp)
    requires
        old(sink)@.size + 20 <= u32::MAX,
    ensures
        final(sink)@ == rmw128_value(old(sink)@, op),
        final(sink)@.size <= old(sink)@.size + 20,
{
    match op {
        AtomicRmwOp::Xchg => {
            sink.put4(enc_x_logic(4, 10, 4, 444));
            sink.put4(enc_x_logic(5, 11, 5, 444));
        },
        AtomicRmwOp::Add => {
            sink.put4(enc_xo(11, 9, 5, 10));
            sink.put4(enc_xo(10, 8, 4, 138));
        },
        AtomicRmwOp::Sub => {
            sink.put4(enc_xo(11, 5, 9, 8));
            sink.put4(enc_xo(10, 4, 8, 136));
        },
        AtomicRmwOp::And => {
            sink.put4(enc_x_logic(9, 11, 5, 28));
            sink.put4(enc_x_logic(8, 10, 4, 28));
        },
        AtomicRmwOp::Or => {
            sink.put4(enc_x_logic(9, 11, 5, 444));
            sink.put4(enc_x_logic(8, 10, 4, 444));
        },
        AtomicRmwOp::Xor => {
            sink.put4(enc_x_logic(9, 11, 5, 316));
            sink.put4(enc_x_logic(8, 10, 4, 316));
        },
        AtomicRmwOp::Nand => {
            sink.put4(enc_x_logic(9, 11, 5, 476));
            sink.put4(enc_x_logic(8, 10, 4, 476));
        },
        AtomicRmwOp::Smin | AtomicRmwOp::Smax | AtomicRmwOp::Umin | AtomicRmwOp::Umax => {
            let (hi_xo, want): (u32, u32) = match op {
                AtomicRmwOp::Smin => (0, CR0_LT),
                AtomicRmwOp::Smax => (0, CR0_GT),
                AtomicRmwOp::Umin => (32, CR0_LT),
                _ => (32, CR0_GT),
            };
            sink.put4(enc_cmp(0, 1, 8, 4, hi_xo));
            sink.put4(enc_bc(bo_for(false), CR0_EQ, 8, false));
            sink.put4(enc_cmp(0, 1, 9, 5, 32));
            sink.put4(enc_isel(10, 8, 4, want));
            sink.put4(enc_isel(11, 9, 5, want));
        },
    }
}

/// Emit an atomic read-modify-write of a quadword.
pub(crate) fn emit_atomic_rmw128(sink: &mut MachBuffer, op: AtomicRmwOp)
    requires
        old(sink)@.room(40, 1),
    ensures
        final(sink)@ == atomic_rmw128(old(sink)@, op),
{
    sink.put4(SYNC);
    let loop_top = sink.get_label();
    sink.bind_label(loop_top);
    sink.put4(enc_x(8, 0, 3, 276));
    emit_rmw128_value(sink, op);
    sink.put4(enc_x(10, 0, 3, 182) | 1);
    emit_bc_to_label(sink, loop_top, CR0_EQ, false);
    sink.put4(ISYNC);
}

/// The log with an atomic compare-and-swap of a quadword.
pub open spec fn atomic_cas128(b: BufferView) -> BufferView {
    let b = b.word(SYNC);
    let top = b.fresh();
    let done = b.with_label().fresh();
    let b = b.with_label().with_label().bind(top).word(lqarx()).word(
        mnem::compare_logical(1, 8, 4),
    );
    let b = emit_int::bc_to(b, done, CR0_EQ, false).word(mnem::compare_logical(1, 9, 5));
    let b = emit_int::bc_to(b, done, CR0_EQ, false).word(stqcx(6));
    emit_int::bc_to(b, top, CR0_EQ, false).bind(done).word(ISYNC)
}

/// Emit an atomic compare-and-swap of a quadword.
pub(crate) fn emit_atomic_cas128(sink: &mut MachBuffer)
    requires
        old(sink)@.room(36, 2),
    ensures
        final(sink)@ == atomic_cas128(old(sink)@),
{
    sink.put4(SYNC);
    let loop_top = sink.get_label();
    let done = sink.get_label();
    sink.bind_label(loop_top);
    sink.put4(enc_x(8, 0, 3, 276));
    sink.put4(enc_cmp(0, 1, 8, 4, 32));
    emit_bc_to_label(sink, done, CR0_EQ, false);
    sink.put4(enc_cmp(0, 1, 9, 5, 32));
    emit_bc_to_label(sink, done, CR0_EQ, false);
    sink.put4(enc_x(6, 0, 3, 182) | 1);
    emit_bc_to_label(sink, loop_top, CR0_EQ, false);
    sink.bind_label(done);
    sink.put4(ISYNC);
}

} // verus!
