//! Emission of vector instructions.
//!
//! Lane 0 lives in the least significant bits of a register, as it does in
//! memory. The instructions number elements from the other end, so lane-indexed
//! ones translate the index; nothing else sees the difference. The scratch
//! register is v0, as a vector-scalar register number.
use vstd::prelude::*;
use crate::args::{CR6_EQ, CR6_LT};
use crate::buffer::{BufferView, MachBuffer};
use crate::emit_mem;
use crate::emit_mem::{emit_vec_load_words, emit_vec_store_words};
use crate::encode::{
    enc_d, enc_ds, enc_isel, enc_mxvsrd, enc_va, enc_vx, enc_xx2, enc_xx3, enc_xxpermdi,
    enc_xxspltw, VEC_SCRATCH,
};
use crate::inst::{
    FpuRoundMode, VecAluOp, VecAluOp4, VecCvtOp, VecFpuOp1, VecFpuOp2, VecUnaryOp,
};
use crate::mnem;

verus! {

/// The position of a lane width in a table by width.
pub open spec fn width_index(lane_bits: u32) -> int {
    if lane_bits == 8 {
        0
    } else if lane_bits == 16 {
        1
    } else if lane_bits == 32 {
        2
    } else {
        3
    }
}

/// The extended opcodes of an operation by lane width: bytes, halfwords, words,
/// doublewords. The doubleword compares sit one above their siblings' stride
/// rather than continuing it. Packs and merges are indexed by the source width.
/// A width that an operation does not have is zero.
pub open spec fn vx_table(op: VecAluOp) -> Seq<u32> {
    match op {
        VecAluOp::Add => seq![0, 64, 128, 192],
        VecAluOp::Sub => seq![1024, 1088, 1152, 1216],
        VecAluOp::CmpEq => seq![6, 70, 134, 199],
        VecAluOp::CmpGtS => seq![774, 838, 902, 967],
        VecAluOp::CmpGtU => seq![518, 582, 646, 711],
        VecAluOp::MinS => seq![770, 834, 898, 962],
        VecAluOp::MinU => seq![514, 578, 642, 706],
        VecAluOp::MaxS => seq![258, 322, 386, 450],
        VecAluOp::MaxU => seq![2, 66, 130, 194],
        VecAluOp::Shl => seq![260, 324, 388, 1476],
        VecAluOp::ShrU => seq![516, 580, 644, 1732],
        VecAluOp::ShrS => seq![772, 836, 900, 964],
        VecAluOp::AvgRoundS => seq![1282, 1346, 1410, 0],
        VecAluOp::AvgRoundU => seq![1026, 1090, 1154, 0],
        VecAluOp::SAddSat => seq![768, 832, 896, 0],
        VecAluOp::UAddSat => seq![512, 576, 640, 0],
        VecAluOp::SSubSat => seq![1792, 1856, 1920, 0],
        VecAluOp::USubSat => seq![1536, 1600, 1664, 0],
        VecAluOp::MergeLow => seq![268, 332, 396, 0],
        VecAluOp::MergeHigh => seq![12, 76, 140, 0],
        VecAluOp::PackSS => seq![0, 398, 462, 1486],
        VecAluOp::PackSU => seq![0, 270, 334, 1358],
        VecAluOp::PackUU => seq![0, 142, 206, 1230],
        VecAluOp::MulWord => seq![0, 0, 137, 0],
        VecAluOp::MulEvenS => seq![776, 840, 904, 0],
        VecAluOp::MulOddS => seq![264, 328, 392, 0],
        VecAluOp::MulEvenU => seq![520, 584, 648, 0],
        VecAluOp::MulOddU => seq![8, 72, 136, 0],
        VecAluOp::PackMod => seq![0, 14, 78, 1102],
        VecAluOp::MergeEvenWord => seq![0, 0, 1932, 0],
        VecAluOp::Rotl => seq![4, 68, 132, 196],
        _ => seq![0, 0, 0, 0],
    }
}

/// Whether an operation exists on lanes of a width. Averages, saturating
/// arithmetic, merges and even or odd products have no doubleword form; packs
/// have no byte source; two operations have one width only.
pub open spec fn has_width(op: VecAluOp, lane_bits: u32) -> bool {
    &&& lane_bits == 8 || lane_bits == 16 || lane_bits == 32 || lane_bits == 64
    &&& match op {
        VecAluOp::MergeEvenWord | VecAluOp::MulWord => lane_bits == 32,
        VecAluOp::MulEvenS | VecAluOp::MulOddS | VecAluOp::MulEvenU | VecAluOp::MulOddU
        | VecAluOp::MergeLow | VecAluOp::MergeHigh | VecAluOp::AvgRoundS | VecAluOp::AvgRoundU
        | VecAluOp::SAddSat | VecAluOp::UAddSat | VecAluOp::SSubSat | VecAluOp::USubSat =>
            lane_bits != 64,
        VecAluOp::PackMod | VecAluOp::PackSS | VecAluOp::PackSU | VecAluOp::PackUU => lane_bits
            != 8,
        _ => true,
    }
}

/// The extended opcode of an operation on lanes of a width.
pub open spec fn spec_vx_xo(op: VecAluOp, lane_bits: u32) -> u32 {
    vx_table(op)[width_index(lane_bits)]
}

/// The entry of a table by lane width.
fn by_width(lane_bits: u32, b: u32, h: u32, w: u32, d: u32) -> (xo: u32)
    ensures
        xo == seq![b, h, w, d][width_index(lane_bits)],
        xo == b || xo == h || xo == w || xo == d,
{
    if lane_bits == 8 {
        b
    } else if lane_bits == 16 {
        h
    } else if lane_bits == 32 {
        w
    } else {
        d
    }
}

/// The VX-form extended opcode for an operation selected by lane width.
pub fn vx_xo(op: VecAluOp, lane_bits: u32) -> (xo: u32)
    requires
        !op.is_bitwise(),
        has_width(op, lane_bits),
    ensures
        xo == spec_vx_xo(op, lane_bits),
        xo < 2048,
        op == VecAluOp::CmpEq ==> xo < 1024,
{
    match op {
        VecAluOp::Add => by_width(lane_bits, 0, 64, 128, 192),
        VecAluOp::Sub => by_width(lane_bits, 1024, 1088, 1152, 1216),
        VecAluOp::CmpEq => by_width(lane_bits, 6, 70, 134, 199),
        VecAluOp::CmpGtS => by_width(lane_bits, 774, 838, 902, 967),
        VecAluOp::CmpGtU => by_width(lane_bits, 518, 582, 646, 711),
        VecAluOp::MinS => by_width(lane_bits, 770, 834, 898, 962),
        VecAluOp::MinU => by_width(lane_bits, 514, 578, 642, 706),
        VecAluOp::MaxS => by_width(lane_bits, 258, 322, 386, 450),
        VecAluOp::MaxU => by_width(lane_bits, 2, 66, 130, 194),
        VecAluOp::Shl => by_width(lane_bits, 260, 324, 388, 1476),
        VecAluOp::ShrU => by_width(lane_bits, 516, 580, 644, 1732),
        VecAluOp::ShrS => by_width(lane_bits, 772, 836, 900, 964),
        // No doubleword average exists.
        VecAluOp::AvgRoundS => by_width(lane_bits, 1282, 1346, 1410, 0),
        VecAluOp::AvgRoundU => by_width(lane_bits, 1026, 1090, 1154, 0),
        // Likewise no doubleword saturating arithmetic.
        VecAluOp::SAddSat => by_width(lane_bits, 768, 832, 896, 0),
        VecAluOp::UAddSat => by_width(lane_bits, 512, 576, 640, 0),
        VecAluOp::SSubSat => by_width(lane_bits, 1792, 1856, 1920, 0),
        VecAluOp::USubSat => by_width(lane_bits, 1536, 1600, 1664, 0),
        // Nothing widens a doubleword lane.
        VecAluOp::MergeLow => by_width(lane_bits, 268, 332, 396, 0),
        VecAluOp::MergeHigh => by_width(lane_bits, 12, 76, 140, 0),
        // Nothing packs bytes into a narrower lane.
        VecAluOp::PackSS => by_width(lane_bits, 0, 398, 462, 1486),
        VecAluOp::PackSU => by_width(lane_bits, 0, 270, 334, 1358),
        VecAluOp::PackUU => by_width(lane_bits, 0, 142, 206, 1230),
        // `vmuluwm` is word-only.
        VecAluOp::MulWord => by_width(lane_bits, 0, 0, 137, 0),
        // A doubleword product would not fit.
        VecAluOp::MulEvenS => by_width(lane_bits, 776, 840, 904, 0),
        VecAluOp::MulOddS => by_width(lane_bits, 264, 328, 392, 0),
        VecAluOp::MulEvenU => by_width(lane_bits, 520, 584, 648, 0),
        VecAluOp::MulOddU => by_width(lane_bits, 8, 72, 136, 0),
        VecAluOp::PackMod => by_width(lane_bits, 0, 14, 78, 1102),
        VecAluOp::MergeEvenWord => by_width(lane_bits, 0, 0, 1932, 0),
        VecAluOp::Rotl => by_width(lane_bits, 4, 68, 132, 196),
        _ => by_width(lane_bits, 0, 0, 0, 0),
    }
}

/// The instruction of a vector operation on two registers, given as
/// vector-scalar register numbers. The logical operations reach every such
/// register; the others take vector registers only.
pub open spec fn vec_alu_rrr(op: VecAluOp, d: u32, a: u32, b: u32, lane_bits: u32) -> u32 {
    match op {
        VecAluOp::And => mnem::xx3(d, a, b, 130),
        VecAluOp::Or => mnem::xx3(d, a, b, 146),
        VecAluOp::Xor => mnem::xx3(d, a, b, 154),
        VecAluOp::Nor => mnem::xx3(d, a, b, 162),
        VecAluOp::AndC => mnem::xx3(d, a, b, 138),
        _ => mnem::vx(
            (d - 32) as u32,
            (a - 32) as u32,
            (b - 32) as u32,
            spec_vx_xo(op, lane_bits),
        ),
    }
}

/// The instruction of a vector operation on two registers.
pub fn enc_vec_alu_rrr(op: VecAluOp, d: u32, a: u32, b: u32, lane_bits: u32) -> (w: u32)
    requires
        d < 64,
        a < 64,
        b < 64,
        !op.is_bitwise() ==> d >= 32 && a >= 32 && b >= 32 && has_width(op, lane_bits),
    ensures
        w == vec_alu_rrr(op, d, a, b, lane_bits),
{
    match op {
        VecAluOp::And => enc_xx3(d, a, b, 130),
        VecAluOp::Or => enc_xx3(d, a, b, 146),
        VecAluOp::Xor => enc_xx3(d, a, b, 154),
        VecAluOp::Nor => enc_xx3(d, a, b, 162),
        VecAluOp::AndC => enc_xx3(d, a, b, 138),
        _ => enc_vx(d - 32, a - 32, b - 32, vx_xo(op, lane_bits)),
    }
}

/// The log with the move of a lane into a general-purpose register: the lane is
/// splatted across the scratch register, whose first doubleword is then read.
/// Lane 1 of a doubleword vector is there already.
pub open spec fn vec_extract_lane_int(
    b: BufferView,
    rd: u32,
    src: u32,
    lane_bits: u32,
    lane: u32,
) -> BufferView {
    if lane_bits == 8 {
        b.word(mnem::vspltb(0, (src - 32) as u32, (15 - lane) as u32)).word(
            mnem::mfvsrd(rd, VEC_SCRATCH),
        )
    } else if lane_bits == 16 {
        b.word(mnem::vsplth(0, (src - 32) as u32, (7 - lane) as u32)).word(
            mnem::mfvsrd(rd, VEC_SCRATCH),
        )
    } else if lane_bits == 32 {
        b.word(mnem::vspltw(0, (src - 32) as u32, (3 - lane) as u32)).word(
            mnem::mfvsrd(rd, VEC_SCRATCH),
        )
    } else if lane == 1 {
        b.word(mnem::mfvsrd(rd, src))
    } else {
        b.word(mnem::xxswapd(VEC_SCRATCH, src)).word(mnem::mfvsrd(rd, VEC_SCRATCH))
    }
}

/// Emit the move of a lane into a general-purpose register.
pub(crate) fn emit_vec_extract_lane_int(
    sink: &mut MachBuffer,
    rd: u32,
    src: u32,
    lane_bits: u32,
    lane: u32,
)
    requires
        rd < 32,
        32 <= src < 64,
        lane_bits == 8 || lane_bits == 16 || lane_bits == 32 || lane_bits == 64,
        lane_bits == 8 ==> lane < 16,
        lane_bits == 16 ==> lane < 8,
        lane_bits == 32 ==> lane < 4,
        old(sink)@.size + 8 <= u32::MAX,
    ensures
        final(sink)@ == vec_extract_lane_int(old(sink)@, rd, src, lane_bits, lane),
{
    let read_from: u32 = if lane_bits == 8 {
        sink.put4(enc_vx(0, 15 - lane, src - 32, 524));
        VEC_SCRATCH
    } else if lane_bits == 16 {
        sink.put4(enc_vx(0, 7 - lane, src - 32, 588));
        VEC_SCRATCH
    } else if lane_bits == 32 {
        sink.put4(enc_vx(0, 3 - lane, src - 32, 652));
        VEC_SCRATCH
    } else if lane == 1 {
        src
    } else {
        sink.put4(enc_xxpermdi(VEC_SCRATCH, src, src, 2));
        VEC_SCRATCH
    };
    sink.put4(enc_mxvsrd(read_from, rd, 51));
}

/// The log with the move of a lane into a floating-point register. A single is
/// splatted and then widened to the double that the register holds.
pub open spec fn vec_extract_lane_fpu(
    b: BufferView,
    dst: u32,
    src: u32,
    lane_bits: u32,
    lane: u32,
) -> BufferView {
    if lane_bits == 32 {
        b.word(mnem::xxspltw(VEC_SCRATCH, src, (3 - lane) as u32)).word(
            mnem::xscvspdpn(dst, VEC_SCRATCH),
        )
    } else if lane == 0 {
        b.word(mnem::xxswapd(dst, src))
    } else {
        b.word(mnem::xxspltd_high(dst, src))
    }
}

/// Emit the move of a lane into a floating-point register.
pub(crate) fn emit_vec_extract_lane_fpu(
    sink: &mut MachBuffer,
    dst: u32,
    src: u32,
    lane_bits: u32,
    lane: u32,
)
    requires
        dst < 64,
        src < 64,
        lane_bits == 32 || lane_bits == 64,
        lane_bits == 32 ==> lane < 4,
        old(sink)@.size + 8 <= u32::MAX,
    ensures
        final(sink)@ == vec_extract_lane_fpu(old(sink)@, dst, src, lane_bits, lane),
{
    if lane_bits == 32 {
        sink.put4(enc_xxspltw(VEC_SCRATCH, src, 3 - lane));
        sink.put4(enc_xx2(dst, VEC_SCRATCH, 331));
    } else {
        let dm: u32 = if lane == 0 {
            2
        } else {
            0
        };
        sink.put4(enc_xxpermdi(dst, src, src, dm));
    }
}

/// The displacement of a lane of the vector that is stored sixteen bytes below
/// the stack pointer.
pub open spec fn lane_slot(lane_bits: u32, lane: u8) -> i16 {
    (lane * (lane_bits / 8) - 16) as i16
}

/// The store of a lane into the vector below the stack pointer.
pub open spec fn lane_store(is_float: bool, lane_bits: u32, s: u32, off: i16) -> u32 {
    if is_float {
        if lane_bits == 32 {
            mnem::d_access(52, s, 1, off as u16)
        } else {
            mnem::d_access(54, s, 1, off as u16)
        }
    } else if lane_bits == 8 {
        mnem::d_access(38, s, 1, off as u16)
    } else if lane_bits == 16 {
        mnem::d_access(44, s, 1, off as u16)
    } else if lane_bits == 32 {
        mnem::d_access(36, s, 1, off as u16)
    } else {
        mnem::std_ds(s, off, 1)
    }
}

/// The log with the replacement of a lane, through the red zone: the vector is
/// stored, the lane's bytes are overwritten, and the vector is loaded again.
pub open spec fn vec_insert_lane(
    b: BufferView,
    dst: u32,
    vec: u32,
    s: u32,
    is_float: bool,
    lane_bits: u32,
    lane: u8,
    isa_3_0: bool,
) -> BufferView {
    let b = emit_mem::vec_store_words(b.word(mnem::addi(0, 1, 0xFFF0)), vec, 0, 0, isa_3_0);
    let b = b.word(lane_store(is_float, lane_bits, s, lane_slot(lane_bits, lane)));
    emit_mem::vec_load_words(b, dst, 0, 0, isa_3_0)
}

/// Emit the replacement of a lane.
pub(crate) fn emit_vec_insert_lane(
    sink: &mut MachBuffer,
    dst: u32,
    vec: u32,
    s: u32,
    is_float: bool,
    lane_bits: u32,
    lane: u8,
    isa_3_0: bool,
)
    requires
        dst < 64,
        vec < 64,
        s < 32,
        lane_bits == 8 || lane_bits == 16 || lane_bits == 32 || lane_bits == 64,
        is_float ==> lane_bits >= 32,
        old(sink)@.size + 24 <= u32::MAX,
    ensures
        final(sink)@ == vec_insert_lane(
            old(sink)@,
            dst,
            vec,
            s,
            is_float,
            lane_bits,
            lane,
            isa_3_0,
        ),
{
    let lane_bytes: u32 = lane_bits / 8;
    let distance: u32 = if lane_bytes == 1 {
        lane as u32
    } else if lane_bytes == 2 {
        2 * (lane as u32)
    } else if lane_bytes == 4 {
        4 * (lane as u32)
    } else {
        8 * (lane as u32)
    };
    let off: i16 = distance as i16 - 16;
    sink.put4(enc_d(14, 0, 1, 0xFFF0));
    emit_vec_store_words(sink, vec, 0, 0, isa_3_0);
    let word: u32 = if is_float {
        if lane_bits == 32 {
            enc_d(52, s, 1, off as u16)
        } else {
            enc_d(54, s, 1, off as u16)
        }
    } else if lane_bits == 8 {
        enc_d(38, s, 1, off as u16)
    } else if lane_bits == 16 {
        enc_d(44, s, 1, off as u16)
    } else if lane_bits == 32 {
        enc_d(36, s, 1, off as u16)
    } else {
        enc_ds(62, s, 1, off, 0)
    };
    sink.put4(word);
    emit_vec_load_words(sink, dst, 0, 0, isa_3_0);
}

/// The instruction of a vector operation on three registers.
pub open spec fn vec_alu_rrrr(op: VecAluOp4, d: u32, a: u32, b: u32, c: u32) -> u32 {
    mnem::va(
        (d - 32) as u32,
        (a - 32) as u32,
        (b - 32) as u32,
        (c - 32) as u32,
        match op {
            VecAluOp4::MulAddUH => 34,
            VecAluOp4::MulHiRoundAddSHS => 33,
            VecAluOp4::Perm => 43,
        },
    )
}

/// The instruction of a vector operation on three registers.
pub fn enc_vec_alu_rrrr(op: VecAluOp4, d: u32, a: u32, b: u32, c: u32) -> (w: u32)
    requires
        32 <= d < 64,
        32 <= a < 64,
        32 <= b < 64,
        32 <= c < 64,
    ensures
        w == vec_alu_rrrr(op, d, a, b, c),
{
    let xo: u32 = match op {
        VecAluOp4::MulAddUH => 34,
        VecAluOp4::MulHiRoundAddSHS => 33,
        VecAluOp4::Perm => 43,
    };
    enc_va(d - 32, a - 32, b - 32, c - 32, xo)
}

/// The extended opcode of a conversion of lanes.
pub open spec fn vec_cvt_xo(op: VecCvtOp) -> u32 {
    match op {
        VecCvtOp::F32ToI32S => 152,
        VecCvtOp::F32ToI32U => 136,
        VecCvtOp::I32ToF32S => 184,
        VecCvtOp::I32ToF32U => 168,
        VecCvtOp::F64ToI64S => 472,
        VecCvtOp::F64ToI64U => 456,
        VecCvtOp::I64ToF64S => 504,
        VecCvtOp::I64ToF64U => 488,
        VecCvtOp::F64ToF32 => 393,
        VecCvtOp::F32ToF64 => 457,
    }
}

/// The instruction of a conversion of lanes.
pub fn enc_vec_cvt(op: VecCvtOp, d: u32, n: u32) -> (w: u32)
    requires
        d < 64,
        n < 64,
    ensures
        w == mnem::xx2(d, n, vec_cvt_xo(op)),
{
    let xo: u32 = match op {
        // xvcvspsxws, xvcvspuxws, xvcvsxwsp, xvcvuxwsp
        VecCvtOp::F32ToI32S => 152,
        VecCvtOp::F32ToI32U => 136,
        VecCvtOp::I32ToF32S => 184,
        VecCvtOp::I32ToF32U => 168,
        // xvcvdpsxds, xvcvdpuxds, xvcvsxddp, xvcvuxddp
        VecCvtOp::F64ToI64S => 472,
        VecCvtOp::F64ToI64U => 456,
        VecCvtOp::I64ToF64S => 504,
        VecCvtOp::I64ToF64U => 488,
        // xvcvdpsp, xvcvspdp
        VecCvtOp::F64ToF32 => 393,
        VecCvtOp::F32ToF64 => 457,
    };
    enc_xx2(d, n, xo)
}

/// The instruction of a splat of a small signed constant. There is none for
/// doublewords.
pub open spec fn vec_splt_imm(d: u32, imm: i8, lane_bits: u32) -> u32 {
    mnem::vx(
        (d - 32) as u32,
        (imm as u32) & 0x1F,
        0,
        if lane_bits == 8 {
            780
        } else if lane_bits == 16 {
            844
        } else {
            908
        },
    )
}

/// The instruction of a splat of a small signed constant.
pub fn enc_vec_splt_imm(d: u32, imm: i8, lane_bits: u32) -> (w: u32)
    requires
        32 <= d < 64,
        lane_bits == 8 || lane_bits == 16 || lane_bits == 32,
    ensures
        w == vec_splt_imm(d, imm, lane_bits),
{
    // vspltisb, vspltish, vspltisw
    let xo: u32 = if lane_bits == 8 {
        780
    } else if lane_bits == 16 {
        844
    } else {
        908
    };
    let field: u32 = (imm as u32) & 0x1F;
    assert((imm as u32) & 0x1F < 32) by (bit_vector);
    enc_vx(d - 32, field, 0, xo)
}

/// The extended opcode of a vector operation on one register: by the lane width,
/// or the source lane width of a widening.
pub open spec fn vec_unary_xo(op: VecUnaryOp, lane_bits: u32) -> u32 {
    match op {
        VecUnaryOp::Popcnt => seq![1795u32, 1859, 1923, 1987][width_index(lane_bits)],
        VecUnaryOp::WidenSLow => seq![654u32, 718, 1742, 0][width_index(lane_bits)],
        VecUnaryOp::WidenSHigh => seq![526u32, 590, 1614, 0][width_index(lane_bits)],
    }
}

/// The instruction of a vector operation on one register. Nothing widens a
/// doubleword.
pub fn enc_vec_unary(op: VecUnaryOp, d: u32, n: u32, lane_bits: u32) -> (w: u32)
    requires
        32 <= d < 64,
        32 <= n < 64,
        lane_bits == 8 || lane_bits == 16 || lane_bits == 32 || lane_bits == 64,
        op != VecUnaryOp::Popcnt ==> lane_bits != 64,
    ensures
        w == mnem::vx((d - 32) as u32, 0, (n - 32) as u32, vec_unary_xo(op, lane_bits)),
{
    let xo: u32 = match op {
        VecUnaryOp::Popcnt => by_width(lane_bits, 1795, 1859, 1923, 1987),
        // vupklsb, vupklsh, vupklsw
        VecUnaryOp::WidenSLow => by_width(lane_bits, 654, 718, 1742, 0),
        // vupkhsb, vupkhsh, vupkhsw
        VecUnaryOp::WidenSHigh => by_width(lane_bits, 526, 590, 1614, 0),
    };
    enc_vx(d - 32, 0, n - 32, xo)
}

/// The extended opcode of a rounding of lanes.
pub open spec fn vec_round_xo(mode: FpuRoundMode, single: bool) -> u32 {
    match mode {
        FpuRoundMode::Ceil => if single {
            169
        } else {
            233
        },
        FpuRoundMode::Floor => if single {
            185
        } else {
            249
        },
        FpuRoundMode::Trunc => if single {
            153
        } else {
            217
        },
        FpuRoundMode::Nearest => if single {
            171
        } else {
            235
        },
    }
}

/// The instruction of a rounding of lanes.
pub fn enc_vec_round(mode: FpuRoundMode, single: bool, d: u32, n: u32) -> (w: u32)
    requires
        d < 64,
        n < 64,
    ensures
        w == mnem::xx2(d, n, vec_round_xo(mode, single)),
{
    let xo: u32 = match (mode, single) {
        (FpuRoundMode::Ceil, true) => 169,
        (FpuRoundMode::Ceil, false) => 233,
        (FpuRoundMode::Floor, true) => 185,
        (FpuRoundMode::Floor, false) => 249,
        (FpuRoundMode::Trunc, true) => 153,
        (FpuRoundMode::Trunc, false) => 217,
        (FpuRoundMode::Nearest, true) => 171,
        (FpuRoundMode::Nearest, false) => 235,
    };
    enc_xx2(d, n, xo)
}

/// The log with a test of lanes: whether all are nonzero, or any is. The lanes
/// are compared with zero; the recording compare reports in cr6 whether it held
/// of every lane or of none.
pub open spec fn vec_test_lanes(
    b: BufferView,
    rd: u32,
    n: u32,
    lane_bits: u32,
    all: bool,
) -> BufferView {
    let b = b.word(mnem::xxlxor(VEC_SCRATCH, VEC_SCRATCH, VEC_SCRATCH)).word(
        mnem::vx(0, (n - 32) as u32, 0, (spec_vx_xo(VecAluOp::CmpEq, lane_bits) + 1024) as u32),
    ).word(mnem::li(rd, 1));
    if all {
        b.word(mnem::li(0, 0)).word(mnem::isel(rd, rd, 0, CR6_EQ))
    } else {
        b.word(mnem::isel(rd, 0, rd, CR6_LT))
    }
}

/// Emit a test of lanes.
pub(crate) fn emit_vec_test_lanes(sink: &mut MachBuffer, rd: u32, n: u32, lane_bits: u32, all: bool)
    requires
        rd < 32,
        32 <= n < 64,
        lane_bits == 8 || lane_bits == 16 || lane_bits == 32 || lane_bits == 64,
        old(sink)@.size + 20 <= u32::MAX,
    ensures
        final(sink)@ == vec_test_lanes(old(sink)@, rd, n, lane_bits, all),
{
    sink.put4(enc_xx3(VEC_SCRATCH, VEC_SCRATCH, VEC_SCRATCH, 154));
    // The record form is the plain opcode plus 1024.
    let xo: u32 = vx_xo(VecAluOp::CmpEq, lane_bits) + 1024;
    sink.put4(enc_vx(0, n - 32, 0, xo));
    sink.put4(enc_d(14, rd, 0, 1));
    if all {
        sink.put4(enc_d(14, 0, 0, 0));
        sink.put4(enc_isel(rd, rd, 0, CR6_EQ));
    } else {
        sink.put4(enc_isel(rd, 0, rd, CR6_LT));
    }
}

/// The extended opcode of a floating-point lane operation on two registers.
pub open spec fn vec_fpu_rrr_xo(op: VecFpuOp2, single: bool) -> u32 {
    match op {
        VecFpuOp2::Add => if single {
            64
        } else {
            96
        },
        VecFpuOp2::Sub => if single {
            72
        } else {
            104
        },
        VecFpuOp2::Mul => if single {
            80
        } else {
            112
        },
        VecFpuOp2::Div => if single {
            88
        } else {
            120
        },
        VecFpuOp2::CmpEq => if single {
            67
        } else {
            99
        },
        VecFpuOp2::CmpGt => if single {
            75
        } else {
            107
        },
        VecFpuOp2::CmpGe => if single {
            83
        } else {
            115
        },
        VecFpuOp2::Min => if single {
            200
        } else {
            232
        },
        VecFpuOp2::Max => if single {
            192
        } else {
            224
        },
    }
}

/// The instruction of a floating-point lane operation on two registers.
pub fn enc_vec_fpu_rrr(op: VecFpuOp2, single: bool, d: u32, a: u32, b: u32) -> (w: u32)
    requires
        d < 64,
        a < 64,
        b < 64,
    ensures
        w == mnem::xx3(d, a, b, vec_fpu_rrr_xo(op, single)),
{
    let xo: u32 = match (op, single) {
        (VecFpuOp2::Add, true) => 64,
        (VecFpuOp2::Add, false) => 96,
        (VecFpuOp2::Sub, true) => 72,
        (VecFpuOp2::Sub, false) => 104,
        (VecFpuOp2::Mul, true) => 80,
        (VecFpuOp2::Mul, false) => 112,
        (VecFpuOp2::Div, true) => 88,
        (VecFpuOp2::Div, false) => 120,
        (VecFpuOp2::CmpEq, true) => 67,
        (VecFpuOp2::CmpEq, false) => 99,
        (VecFpuOp2::CmpGt, true) => 75,
        (VecFpuOp2::CmpGt, false) => 107,
        (VecFpuOp2::CmpGe, true) => 83,
        (VecFpuOp2::CmpGe, false) => 115,
        (VecFpuOp2::Min, true) => 200,
        (VecFpuOp2::Min, false) => 232,
        (VecFpuOp2::Max, true) => 192,
        (VecFpuOp2::Max, false) => 224,
    };
    enc_xx3(d, a, b, xo)
}

/// The extended opcode of a floating-point lane operation on one register.
pub open spec fn vec_fpu_rr_xo(op: VecFpuOp1, single: bool) -> u32 {
    match op {
        VecFpuOp1::Sqrt => if single {
            139
        } else {
            203
        },
        VecFpuOp1::Neg => if single {
            441
        } else {
            505
        },
        VecFpuOp1::Abs => if single {
            409
        } else {
            473
        },
    }
}

/// The instruction of a floating-point lane operation on one register.
pub fn enc_vec_fpu_rr(op: VecFpuOp1, single: bool, d: u32, n: u32) -> (w: u32)
    requires
        d < 64,
        n < 64,
    ensures
        w == mnem::xx2(d, n, vec_fpu_rr_xo(op, single)),
{
    let xo: u32 = match (op, single) {
        (VecFpuOp1::Sqrt, true) => 139,
        (VecFpuOp1::Sqrt, false) => 203,
        (VecFpuOp1::Neg, true) => 441,
        (VecFpuOp1::Neg, false) => 505,
        (VecFpuOp1::Abs, true) => 409,
        (VecFpuOp1::Abs, false) => 473,
    };
    enc_xx2(d, n, xo)
}

/// The instruction of a splat of the scalar at the low end of the first
/// doubleword.
pub open spec fn vec_splat_lane(d: u32, n: u32, lane_bits: u32) -> u32 {
    if lane_bits == 8 {
        mnem::vspltb((d - 32) as u32, (n - 32) as u32, 7)
    } else if lane_bits == 16 {
        mnem::vsplth((d - 32) as u32, (n - 32) as u32, 3)
    } else if lane_bits == 32 {
        mnem::vspltw((d - 32) as u32, (n - 32) as u32, 1)
    } else {
        mnem::xxspltd_high(d, n)
    }
}

/// The instruction of a splat of the scalar at the low end of the first
/// doubleword.
pub fn enc_vec_splat_lane(d: u32, n: u32, lane_bits: u32) -> (w: u32)
    requires
        d < 64,
        n < 64,
        lane_bits == 8 || lane_bits == 16 || lane_bits == 32 || lane_bits == 64,
        lane_bits != 64 ==> d >= 32 && n >= 32,
    ensures
        w == vec_splat_lane(d, n, lane_bits),
{
    if lane_bits == 8 {
        enc_vx(d - 32, 7, n - 32, 524)
    } else if lane_bits == 16 {
        enc_vx(d - 32, 3, n - 32, 588)
    } else if lane_bits == 32 {
        enc_vx(d - 32, 1, n - 32, 652)
    } else {
        enc_xxpermdi(d, n, n, 0)
    }
}

/// The instruction of a splat of a floating-point register, whose single is
/// already in single format.
pub open spec fn vec_splat_fpr(d: u32, n: u32, is_f32: bool) -> u32 {
    if is_f32 {
        mnem::xxspltw(d, n, 0)
    } else {
        mnem::xxspltd_high(d, n)
    }
}

/// The instruction of a splat of a floating-point register.
pub fn enc_vec_splat_fpr(d: u32, n: u32, is_f32: bool) -> (w: u32)
    requires
        d < 64,
        n < 64,
    ensures
        w == vec_splat_fpr(d, n, is_f32),
{
    if is_f32 {
        enc_xxspltw(d, n, 0)
    } else {
        enc_xxpermdi(d, n, n, 0)
    }
}

} // verus!
