//! Emission of floating-point instructions.
use vstd::prelude::*;
use crate::args::{IntegerCompare, CR0_GT, CR0_LT, CR0_UN};
use crate::buffer::{BufferView, MachBuffer};
use crate::cvt;
use crate::cvt::cvt_to_int_bounds;
use crate::emit_int;
use crate::emit_int::{emit_constant, emit_udf};
use crate::encode::{
    bo_for, enc_a, enc_b, enc_bc, enc_d, enc_ds, enc_fmr, enc_fp_xx2, enc_fp_xx3, enc_isel, enc_x,
    enc_x_opcd, enc_xx1,
};
use crate::inst::{FpuOp1, FpuOp2, FpuRoundMode};
use crate::ir::{TrapCode, Type};
use crate::mnem;

verus! {

/// The primary opcode of arithmetic in a precision. The single forms are what
/// rounds each result to single precision.
pub open spec fn fp_opcode(single: bool) -> u32 {
    if single {
        59
    } else {
        63
    }
}

fn fp_opcd(single: bool) -> (opcd: u32)
    ensures
        opcd == fp_opcode(single),
        opcd < 64,
{
    if single {
        59
    } else {
        63
    }
}

/// The instruction of a floating-point operation on two registers. `fmul` takes
/// its second operand in FRC; `fcpsgn` takes the sign from FRA and the magnitude
/// from FRB and has no single form.
pub open spec fn fpu_rrr(op: FpuOp2, single: bool, rd: u32, ra: u32, rb: u32) -> u32 {
    let opcd = fp_opcode(single);
    match op {
        FpuOp2::Add => mnem::fp_a(opcd, rd, ra, rb, 0, 21),
        FpuOp2::Sub => mnem::fp_a(opcd, rd, ra, rb, 0, 20),
        FpuOp2::Mul => mnem::fp_a(opcd, rd, ra, 0, rb, 25),
        FpuOp2::Div => mnem::fp_a(opcd, rd, ra, rb, 0, 18),
        FpuOp2::CopySign => mnem::fp_x(63, rd, ra, rb, 8),
    }
}

/// The instruction of a floating-point operation on two registers.
pub fn enc_fpu_rrr(op: FpuOp2, single: bool, rd: u32, ra: u32, rb: u32) -> (w: u32)
    requires
        rd < 32,
        ra < 32,
        rb < 32,
    ensures
        w == fpu_rrr(op, single, rd, ra, rb),
{
    let opcd: u32 = fp_opcd(single);
    match op {
        FpuOp2::Add => enc_a(opcd, rd, ra, rb, 0, 21),
        FpuOp2::Sub => enc_a(opcd, rd, ra, rb, 0, 20),
        FpuOp2::Mul => enc_a(opcd, rd, ra, 0, rb, 25),
        FpuOp2::Div => enc_a(opcd, rd, ra, rb, 0, 18),
        FpuOp2::CopySign => enc_x_opcd(63, rd, ra, rb, 8),
    }
}

/// The instruction of a floating-point operation on one register.
pub open spec fn fpu_rr(op: FpuOp1, single: bool, rd: u32, rn: u32) -> u32 {
    match op {
        FpuOp1::Neg => mnem::fp_x(63, rd, 0, rn, 40),
        FpuOp1::Abs => mnem::fp_x(63, rd, 0, rn, 264),
        FpuOp1::Sqrt => mnem::fp_a(fp_opcode(single), rd, 0, rn, 0, 22),
        FpuOp1::Mov => mnem::fmr(rd, rn),
        FpuOp1::Demote => mnem::fp_x(63, rd, 0, rn, 12),
        FpuOp1::CvtToSingleBits => mnem::fp_xx2(rd, rn, 267),
        FpuOp1::CvtFromSingleBits => mnem::fp_xx2(rd, rn, 331),
    }
}

/// The instruction of a floating-point operation on one register.
pub fn enc_fpu_rr(op: FpuOp1, single: bool, rd: u32, rn: u32) -> (w: u32)
    requires
        rd < 32,
        rn < 32,
    ensures
        w == fpu_rr(op, single, rd, rn),
{
    match op {
        FpuOp1::Neg => enc_x_opcd(63, rd, 0, rn, 40),
        FpuOp1::Abs => enc_x_opcd(63, rd, 0, rn, 264),
        FpuOp1::Sqrt => enc_a(fp_opcd(single), rd, 0, rn, 0, 22),
        FpuOp1::Mov => enc_fmr(rd, rn),
        // frsp
        FpuOp1::Demote => enc_x_opcd(63, rd, 0, rn, 12),
        // xscvdpspn and xscvspdpn
        FpuOp1::CvtToSingleBits => enc_fp_xx2(rd, rn, 267),
        FpuOp1::CvtFromSingleBits => enc_fp_xx2(rd, rn, 331),
    }
}

/// The instruction of a fused multiply-add: `ra * rc + rb`.
pub open spec fn fpu_fma(single: bool, rd: u32, ra: u32, rc: u32, rb: u32) -> u32 {
    mnem::fp_a(fp_opcode(single), rd, ra, rb, rc, 29)
}

/// The instruction of a fused multiply-add.
pub fn enc_fpu_fma(single: bool, rd: u32, ra: u32, rc: u32, rb: u32) -> (w: u32)
    requires
        rd < 32,
        ra < 32,
        rb < 32,
        rc < 32,
    ensures
        w == fpu_fma(single, rd, ra, rc, rb),
{
    enc_a(fp_opcd(single), rd, ra, rb, rc, 29)
}

/// The instruction of a conversion from an integer in a floating-point register.
pub open spec fn int_to_fpu(single: bool, signed: bool, rd: u32, rn: u32) -> u32 {
    mnem::fp_x(
        fp_opcode(single),
        rd,
        0,
        rn,
        if signed {
            846
        } else {
            974
        },
    )
}

/// The instruction of a conversion from an integer in a floating-point register.
pub fn enc_int_to_fpu(single: bool, signed: bool, rd: u32, rn: u32) -> (w: u32)
    requires
        rd < 32,
        rn < 32,
    ensures
        w == int_to_fpu(single, signed, rd, rn),
{
    let xo: u32 = if signed {
        846
    } else {
        974
    };
    enc_x_opcd(fp_opcd(single), rd, 0, rn, xo)
}

/// The instruction of a rounding: `frim`, `frip`, `friz`, and `xsrdpic`, which
/// rounds by the current mode, ties to even by default.
pub open spec fn fpu_round(mode: FpuRoundMode, rd: u32, rn: u32) -> u32 {
    match mode {
        FpuRoundMode::Floor => mnem::fp_x(63, rd, 0, rn, 488),
        FpuRoundMode::Ceil => mnem::fp_x(63, rd, 0, rn, 456),
        FpuRoundMode::Trunc => mnem::fp_x(63, rd, 0, rn, 424),
        FpuRoundMode::Nearest => mnem::fp_xx2(rd, rn, 107),
    }
}

/// The instruction of a rounding.
pub fn enc_fpu_round(mode: FpuRoundMode, rd: u32, rn: u32) -> (w: u32)
    requires
        rd < 32,
        rn < 32,
    ensures
        w == fpu_round(mode, rd, rn),
{
    match mode {
        FpuRoundMode::Floor => enc_x_opcd(63, rd, 0, rn, 488),
        FpuRoundMode::Ceil => enc_x_opcd(63, rd, 0, rn, 456),
        FpuRoundMode::Trunc => enc_x_opcd(63, rd, 0, rn, 424),
        FpuRoundMode::Nearest => enc_fp_xx2(rd, rn, 107),
    }
}

/// The log with a choice of two floating-point registers by an integer
/// comparison, through r11 and r0. r11 always holds whichever value the set bit
/// selects, because `isel` reads r0 in that position as a literal zero.
pub open spec fn fpu_select(
    b: BufferView,
    rd: u32,
    kind: IntegerCompare,
    rt: u32,
    rf: u32,
) -> BufferView {
    let (bit, polarity) = kind.spec_bit_and_polarity();
    let (if_set, if_clear) = if polarity {
        (rt, rf)
    } else {
        (rf, rt)
    };
    b.word(mnem::mfvsrd_f(11, if_set)).word(mnem::mfvsrd_f(0, if_clear)).word(
        kind.compare_word(),
    ).word(mnem::isel(11, 11, 0, bit)).word(mnem::mtvsrd_f(rd, 11))
}

/// Emit a choice of two floating-point registers by an integer comparison.
pub(crate) fn emit_fpu_select(
    sink: &mut MachBuffer,
    rd: u32,
    kind: IntegerCompare,
    rt: u32,
    rf: u32,
)
    requires
        rd < 32,
        rt < 32,
        rf < 32,
        kind.real_regs(),
        old(sink)@.size + 20 <= u32::MAX,
    ensures
        final(sink)@ == fpu_select(old(sink)@, rd, kind, rt, rf),
{
    let (bit, polarity) = kind.bit_and_polarity();
    let (if_set, if_clear) = if polarity {
        (rt, rf)
    } else {
        (rf, rt)
    };
    sink.put4(enc_xx1(if_set, 11, 51));
    sink.put4(enc_xx1(if_clear, 0, 51));
    kind.emit_cmp(sink);
    sink.put4(enc_isel(11, 11, 0, bit));
    sink.put4(enc_xx1(rd, 11, 179));
}

/// The convert instruction: truncating, and saturating on inputs out of range.
pub open spec fn convert(signed: bool, out_64: bool, frt: u32, frb: u32) -> u32 {
    mnem::fp_x(
        63,
        frt,
        0,
        frb,
        if signed {
            if out_64 {
                815
            } else {
                15
            }
        } else if out_64 {
            943
        } else {
            143
        },
    )
}

fn enc_convert(signed: bool, out_64: bool, frt: u32, frb: u32) -> (w: u32)
    requires
        frt < 32,
        frb < 32,
    ensures
        w == convert(signed, out_64, frt, frb),
{
    // fctidz, fctiduz, fctiwz, fctiwuz
    let xo: u32 = match (signed, out_64) {
        (true, true) => 815,
        (false, true) => 943,
        (true, false) => 15,
        (false, false) => 143,
    };
    enc_x_opcd(63, frt, 0, frb, xo)
}

/// The log with a saturating conversion: zero for not-a-number, which alone is
/// unordered with itself, and else what the hardware gives.
pub open spec fn fpu_to_int_sat(
    b: BufferView,
    rd: u32,
    tmp: u32,
    rn: u32,
    signed: bool,
    out_64: bool,
) -> BufferView {
    b.word(mnem::compare_fp(rn, rn)).word(mnem::bc(false, CR0_UN, 12)).word(mnem::li(rd, 0)).word(
        mnem::b(12),
    ).word(convert(signed, out_64, tmp, rn)).word(mnem::mfvsrd_f(rd, tmp))
}

/// The log with a check of the input against one exclusive bound: a trap unless
/// the compare sets the given bit.
pub open spec fn bound_check(
    b: BufferView,
    rd: u32,
    tmp: u32,
    rn: u32,
    bound: u64,
    bit: u32,
) -> BufferView {
    emit_int::udf(
        b.words(emit_int::load_constant(rd, bound)).word(mnem::mtvsrd_f(tmp, rd)).word(
            mnem::compare_fp(rn, tmp),
        ).word(mnem::bc(true, bit, 8)),
        TrapCode::IntegerOverflow,
    )
}

/// The log with a trapping conversion: a trap for not-a-number, one for each
/// bound that the input does not lie strictly inside, and then the conversion.
pub open spec fn fpu_to_int_trap(
    b: BufferView,
    rd: u32,
    tmp: u32,
    rn: u32,
    signed: bool,
    single: bool,
    out_bits: u32,
) -> BufferView {
    let (lo, hi) = cvt::spec_bounds(single, signed, out_bits);
    let b = emit_int::udf(
        b.word(mnem::compare_fp(rn, rn)).word(mnem::bc(false, CR0_UN, 8)),
        TrapCode::BadConversionToInteger,
    );
    let b = bound_check(b, rd, tmp, rn, lo, CR0_GT);
    let b = bound_check(b, rd, tmp, rn, hi, CR0_LT);
    b.word(convert(signed, out_bits == 64, tmp, rn)).word(mnem::mfvsrd_f(rd, tmp))
}

fn emit_bound_check(sink: &mut MachBuffer, rd: u32, tmp: u32, rn: u32, bound: u64, bit: u32)
    requires
        rd < 32,
        tmp < 32,
        rn < 32,
        bit < 32,
        old(sink)@.size + 36 <= u32::MAX,
    ensures
        final(sink)@ == bound_check(old(sink)@, rd, tmp, rn, bound, bit),
        final(sink)@.size <= old(sink)@.size + 36,
{
    emit_constant(sink, rd, bound);
    sink.put4(enc_xx1(tmp, rd, 179));
    sink.put4(enc_x_opcd(63, 0, rn, tmp, 0));
    sink.put4(enc_bc(bo_for(true), bit, 8, false));
    emit_udf(sink, TrapCode::IntegerOverflow);
}

/// Emit a saturating conversion to an integer.
pub(crate) fn emit_fpu_to_int_sat(
    sink: &mut MachBuffer,
    rd: u32,
    tmp: u32,
    rn: u32,
    signed: bool,
    out_64: bool,
)
    requires
        rd < 32,
        tmp < 32,
        rn < 32,
        old(sink)@.size + 24 <= u32::MAX,
    ensures
        final(sink)@ == fpu_to_int_sat(old(sink)@, rd, tmp, rn, signed, out_64),
{
    sink.put4(enc_x_opcd(63, 0, rn, rn, 0));
    // Ordered: skip the zero-result path.
    sink.put4(enc_bc(bo_for(false), CR0_UN, 12, false));
    sink.put4(enc_d(14, rd, 0, 0));
    // Past the conversion.
    sink.put4(enc_b(12, false));
    sink.put4(enc_convert(signed, out_64, tmp, rn));
    sink.put4(enc_xx1(tmp, rd, 51));
}

/// Emit a trapping conversion to an integer. A single is held widened to
/// double, so its bounds are compared in the double domain too, which is exact.
pub(crate) fn emit_fpu_to_int_trap(
    sink: &mut MachBuffer,
    rd: u32,
    tmp: u32,
    rn: u32,
    signed: bool,
    single: bool,
    out_bits: u32,
)
    requires
        rd < 32,
        tmp < 32,
        rn < 32,
        out_bits == 8 || out_bits == 16 || out_bits == 32 || out_bits == 64,
        old(sink)@.size + 92 <= u32::MAX,
    ensures
        final(sink)@ == fpu_to_int_trap(old(sink)@, rd, tmp, rn, signed, single, out_bits),
        final(sink)@.size <= old(sink)@.size + 92,
{
    sink.put4(enc_x_opcd(63, 0, rn, rn, 0));
    // Trap on not-a-number.
    sink.put4(enc_bc(bo_for(false), CR0_UN, 8, false));
    emit_udf(sink, TrapCode::BadConversionToInteger);

    // The input must lie strictly between the exclusive bounds.
    let (lo, hi) = cvt_to_int_bounds(single, signed, out_bits);
    emit_bound_check(sink, rd, tmp, rn, lo, CR0_GT);
    emit_bound_check(sink, rd, tmp, rn, hi, CR0_LT);

    sink.put4(enc_convert(signed, out_bits == 64, tmp, rn));
    sink.put4(enc_xx1(tmp, rd, 51));
}

/// The log with a minimum or maximum. The hardware's handles signed zeros but
/// gives the number when one operand is not a number; adding the operands gives
/// a quiet not-a-number instead.
pub open spec fn fpu_min_max(b: BufferView, rd: u32, ra: u32, rb: u32, is_max: bool) -> BufferView {
    b.word(mnem::compare_fp(ra, rb)).word(
        mnem::fp_xx3(
            rd,
            ra,
            rb,
            if is_max {
                160
            } else {
                168
            },
        ),
    ).word(mnem::bc(false, CR0_UN, 8)).word(mnem::fadd(rd, ra, rb))
}

/// Emit a minimum or maximum. The destination must not alias the inputs, which
/// the `fadd` reads again.
pub(crate) fn emit_fpu_min_max(sink: &mut MachBuffer, rd: u32, ra: u32, rb: u32, is_max: bool)
    requires
        rd < 32,
        ra < 32,
        rb < 32,
        old(sink)@.size + 16 <= u32::MAX,
    ensures
        final(sink)@ == fpu_min_max(old(sink)@, rd, ra, rb, is_max),
{
    let xo: u32 = if is_max {
        160
    } else {
        168
    };
    sink.put4(enc_x_opcd(63, 0, ra, rb, 0));
    sink.put4(enc_fp_xx3(rd, ra, rb, xo));
    // Ordered: skip.
    sink.put4(enc_bc(bo_for(false), CR0_UN, 8, false));
    sink.put4(enc_a(63, rd, ra, rb, 0, 21));
}

/// The log with a byte swap, through the red zone below the stack pointer: a
/// store of the width and a byte-reversed load, which exists in indexed form
/// only and takes its address from r0.
pub open spec fn bswap(b: BufferView, rd: u32, rn: u32, ty: Type) -> BufferView {
    let b = b.word(mnem::addi(0, 1, 0xFFF0));
    match ty {
        Type::I16 => b.word(mnem::d_access(44, rn, 1, 0xFFF0)).word(mnem::x_access(rd, 0, 0, 790)),
        Type::I32 => b.word(mnem::d_access(36, rn, 1, 0xFFF0)).word(mnem::x_access(rd, 0, 0, 534)),
        _ => b.word(mnem::std_ds(rn, -16i16, 1)).word(mnem::x_access(rd, 0, 0, 532)),
    }
}

/// Emit a byte swap.
pub(crate) fn emit_bswap(sink: &mut MachBuffer, rd: u32, rn: u32, ty: Type)
    requires
        rd < 32,
        rn < 32,
        ty == Type::I16 || ty == Type::I32 || ty == Type::I64,
        old(sink)@.size + 12 <= u32::MAX,
    ensures
        final(sink)@ == bswap(old(sink)@, rd, rn, ty),
{
    sink.put4(enc_d(14, 0, 1, 0xFFF0));
    match ty {
        Type::I16 => {
            sink.put4(enc_d(44, rn, 1, 0xFFF0));
            sink.put4(enc_x(rd, 0, 0, 790));
        },
        Type::I32 => {
            sink.put4(enc_d(36, rn, 1, 0xFFF0));
            sink.put4(enc_x(rd, 0, 0, 534));
        },
        _ => {
            sink.put4(enc_ds(62, rn, 1, -16, 0));
            sink.put4(enc_x(rd, 0, 0, 532));
        },
    }
}

} // verus!
