//! The names of types, conditions and operations in the listing of
//! instructions.
use vstd::prelude::*;
use crate::args::{LoadOP, StoreOP};
use crate::inst::{
    AluOp, BitOp, DivOp, FpuOp1, FpuOp2, FpuRoundMode, ShiftOp, UnaryOp, VecAluOp, VecAluOp4,
    VecCvtOp, VecFpuOp1, VecFpuOp2, VecUnaryOp,
};
use crate::ir::{AtomicRmwOp, FloatCC, IntCC, LibCall, Type};

verus! {

/// The name of a type.
pub open spec fn spec_ty_name(ty: Type) -> Seq<char> {
    match ty {
        Type::I8 => "i8"@,
        Type::I16 => "i16"@,
        Type::I32 => "i32"@,
        Type::I64 => "i64"@,
        Type::I128 => "i128"@,
        Type::F16 => "f16"@,
        Type::F32 => "f32"@,
        Type::F64 => "f64"@,
        Type::F128 => "f128"@,
        Type::I8X8 => "i8x8"@,
        Type::I16X4 => "i16x4"@,
        Type::I32X2 => "i32x2"@,
        Type::F16X4 => "f16x4"@,
        Type::F32X2 => "f32x2"@,
        Type::I8X16 => "i8x16"@,
        Type::I16X8 => "i16x8"@,
        Type::I32X4 => "i32x4"@,
        Type::I64X2 => "i64x2"@,
        Type::F16X8 => "f16x8"@,
        Type::F32X4 => "f32x4"@,
        Type::F64X2 => "f64x2"@,
    }
}

/// The name of a type.
pub fn ty_name(ty: Type) -> (s: &'static str)
    ensures
        s@ == spec_ty_name(ty),
{
    match ty {
        Type::I8 => "i8",
        Type::I16 => "i16",
        Type::I32 => "i32",
        Type::I64 => "i64",
        Type::I128 => "i128",
        Type::F16 => "f16",
        Type::F32 => "f32",
        Type::F64 => "f64",
        Type::F128 => "f128",
        Type::I8X8 => "i8x8",
        Type::I16X4 => "i16x4",
        Type::I32X2 => "i32x2",
        Type::F16X4 => "f16x4",
        Type::F32X2 => "f32x2",
        Type::I8X16 => "i8x16",
        Type::I16X8 => "i16x8",
        Type::I32X4 => "i32x4",
        Type::I64X2 => "i64x2",
        Type::F16X8 => "f16x8",
        Type::F32X4 => "f32x4",
        Type::F64X2 => "f64x2",
    }
}

/// The name of an integer condition.
pub open spec fn spec_int_cc_name(cc: IntCC) -> Seq<char> {
    match cc {
        IntCC::Equal => "eq"@,
        IntCC::NotEqual => "ne"@,
        IntCC::SignedLessThan => "slt"@,
        IntCC::SignedGreaterThanOrEqual => "sge"@,
        IntCC::SignedGreaterThan => "sgt"@,
        IntCC::SignedLessThanOrEqual => "sle"@,
        IntCC::UnsignedLessThan => "ult"@,
        IntCC::UnsignedGreaterThanOrEqual => "uge"@,
        IntCC::UnsignedGreaterThan => "ugt"@,
        IntCC::UnsignedLessThanOrEqual => "ule"@,
    }
}

/// The name of an integer condition.
pub fn int_cc_name(cc: IntCC) -> (s: &'static str)
    ensures
        s@ == spec_int_cc_name(cc),
{
    match cc {
        IntCC::Equal => "eq",
        IntCC::NotEqual => "ne",
        IntCC::SignedLessThan => "slt",
        IntCC::SignedGreaterThanOrEqual => "sge",
        IntCC::SignedGreaterThan => "sgt",
        IntCC::SignedLessThanOrEqual => "sle",
        IntCC::UnsignedLessThan => "ult",
        IntCC::UnsignedGreaterThanOrEqual => "uge",
        IntCC::UnsignedGreaterThan => "ugt",
        IntCC::UnsignedLessThanOrEqual => "ule",
    }
}

/// The name of a floating-point condition.
pub open spec fn spec_float_cc_name(cc: FloatCC) -> Seq<char> {
    match cc {
        FloatCC::Ordered => "ord"@,
        FloatCC::Unordered => "uno"@,
        FloatCC::Equal => "eq"@,
        FloatCC::NotEqual => "ne"@,
        FloatCC::OrderedNotEqual => "one"@,
        FloatCC::UnorderedOrEqual => "ueq"@,
        FloatCC::LessThan => "lt"@,
        FloatCC::LessThanOrEqual => "le"@,
        FloatCC::GreaterThan => "gt"@,
        FloatCC::GreaterThanOrEqual => "ge"@,
        FloatCC::UnorderedOrLessThan => "ult"@,
        FloatCC::UnorderedOrLessThanOrEqual => "ule"@,
        FloatCC::UnorderedOrGreaterThan => "ugt"@,
        FloatCC::UnorderedOrGreaterThanOrEqual => "uge"@,
    }
}

/// The name of a floating-point condition.
pub fn float_cc_name(cc: FloatCC) -> (s: &'static str)
    ensures
        s@ == spec_float_cc_name(cc),
{
    match cc {
        FloatCC::Ordered => "ord",
        FloatCC::Unordered => "uno",
        FloatCC::Equal => "eq",
        FloatCC::NotEqual => "ne",
        FloatCC::OrderedNotEqual => "one",
        FloatCC::UnorderedOrEqual => "ueq",
        FloatCC::LessThan => "lt",
        FloatCC::LessThanOrEqual => "le",
        FloatCC::GreaterThan => "gt",
        FloatCC::GreaterThanOrEqual => "ge",
        FloatCC::UnorderedOrLessThan => "ult",
        FloatCC::UnorderedOrLessThanOrEqual => "ule",
        FloatCC::UnorderedOrGreaterThan => "ugt",
        FloatCC::UnorderedOrGreaterThanOrEqual => "uge",
    }
}

/// The name of an operation.
pub open spec fn spec_alu_name(op: AluOp) -> Seq<char> {
    match op {
        AluOp::Add => "add"@,
        AluOp::Sub => "sub"@,
        AluOp::Addc => "addc"@,
        AluOp::Adde => "adde"@,
        AluOp::Subfc => "subfc"@,
        AluOp::Subfe => "subfe"@,
        AluOp::And => "and"@,
        AluOp::Or => "or"@,
        AluOp::Xor => "xor"@,
        AluOp::Mulld => "mulld"@,
        AluOp::Mulhd => "mulhd"@,
        AluOp::Mulhdu => "mulhdu"@,
        AluOp::Mulhw => "mulhw"@,
        AluOp::Mulhwu => "mulhwu"@,
    }
}

/// The name of an operation.
pub fn alu_name(op: AluOp) -> (s: &'static str)
    ensures
        s@ == spec_alu_name(op),
{
    match op {
        AluOp::Add => "add",
        AluOp::Sub => "sub",
        AluOp::Addc => "addc",
        AluOp::Adde => "adde",
        AluOp::Subfc => "subfc",
        AluOp::Subfe => "subfe",
        AluOp::And => "and",
        AluOp::Or => "or",
        AluOp::Xor => "xor",
        AluOp::Mulld => "mulld",
        AluOp::Mulhd => "mulhd",
        AluOp::Mulhdu => "mulhdu",
        AluOp::Mulhw => "mulhw",
        AluOp::Mulhwu => "mulhwu",
    }
}

/// The name of an operation.
pub open spec fn spec_unary_name(op: UnaryOp) -> Seq<char> {
    match op {
        UnaryOp::Neg => "neg"@,
        UnaryOp::Not => "not"@,
    }
}

/// The name of an operation.
pub fn unary_name(op: UnaryOp) -> (s: &'static str)
    ensures
        s@ == spec_unary_name(op),
{
    match op {
        UnaryOp::Neg => "neg",
        UnaryOp::Not => "not",
    }
}

/// The name of a shift.
pub open spec fn spec_shift_name(op: ShiftOp) -> Seq<char> {
    match op {
        ShiftOp::Slw => "slw"@,
        ShiftOp::Srw => "srw"@,
        ShiftOp::Sraw => "sraw"@,
        ShiftOp::Sld => "sld"@,
        ShiftOp::Srd => "srd"@,
        ShiftOp::Srad => "srad"@,
        ShiftOp::Rotlw => "rotlw"@,
        ShiftOp::Rotld => "rotld"@,
    }
}

/// The name of a shift.
pub fn shift_name(op: ShiftOp) -> (s: &'static str)
    ensures
        s@ == spec_shift_name(op),
{
    match op {
        ShiftOp::Slw => "slw",
        ShiftOp::Srw => "srw",
        ShiftOp::Sraw => "sraw",
        ShiftOp::Sld => "sld",
        ShiftOp::Srd => "srd",
        ShiftOp::Srad => "srad",
        ShiftOp::Rotlw => "rotlw",
        ShiftOp::Rotld => "rotld",
    }
}

/// The name of a bit count.
pub open spec fn spec_bit_name(op: BitOp) -> Seq<char> {
    match op {
        BitOp::Clz => "clz"@,
        BitOp::Ctz => "ctz"@,
        BitOp::Popcnt => "popcnt"@,
    }
}

/// The name of a bit count.
pub fn bit_name(op: BitOp) -> (s: &'static str)
    ensures
        s@ == spec_bit_name(op),
{
    match op {
        BitOp::Clz => "clz",
        BitOp::Ctz => "ctz",
        BitOp::Popcnt => "popcnt",
    }
}

/// The name of a division.
pub open spec fn spec_div_name(op: DivOp) -> Seq<char> {
    match op {
        DivOp::SDiv => "sdiv"@,
        DivOp::UDiv => "udiv"@,
        DivOp::SRem => "srem"@,
        DivOp::URem => "urem"@,
    }
}

/// The name of a division.
pub fn div_name(op: DivOp) -> (s: &'static str)
    ensures
        s@ == spec_div_name(op),
{
    match op {
        DivOp::SDiv => "sdiv",
        DivOp::UDiv => "udiv",
        DivOp::SRem => "srem",
        DivOp::URem => "urem",
    }
}

/// The name of an operation.
pub open spec fn spec_fpu2_name(op: FpuOp2) -> Seq<char> {
    match op {
        FpuOp2::Add => "fadd"@,
        FpuOp2::Sub => "fsub"@,
        FpuOp2::Mul => "fmul"@,
        FpuOp2::Div => "fdiv"@,
        FpuOp2::CopySign => "fcpsgn"@,
    }
}

/// The name of an operation.
pub fn fpu2_name(op: FpuOp2) -> (s: &'static str)
    ensures
        s@ == spec_fpu2_name(op),
{
    match op {
        FpuOp2::Add => "fadd",
        FpuOp2::Sub => "fsub",
        FpuOp2::Mul => "fmul",
        FpuOp2::Div => "fdiv",
        FpuOp2::CopySign => "fcpsgn",
    }
}

/// The name of an operation.
pub open spec fn spec_fpu1_name(op: FpuOp1) -> Seq<char> {
    match op {
        FpuOp1::Neg => "fneg"@,
        FpuOp1::Abs => "fabs"@,
        FpuOp1::Sqrt => "fsqrt"@,
        FpuOp1::Mov => "fmr"@,
        FpuOp1::Demote => "frsp"@,
        FpuOp1::CvtToSingleBits => "xscvdpspn"@,
        FpuOp1::CvtFromSingleBits => "xscvspdpn"@,
    }
}

/// The name of an operation.
pub fn fpu1_name(op: FpuOp1) -> (s: &'static str)
    ensures
        s@ == spec_fpu1_name(op),
{
    match op {
        FpuOp1::Neg => "fneg",
        FpuOp1::Abs => "fabs",
        FpuOp1::Sqrt => "fsqrt",
        FpuOp1::Mov => "fmr",
        FpuOp1::Demote => "frsp",
        FpuOp1::CvtToSingleBits => "xscvdpspn",
        FpuOp1::CvtFromSingleBits => "xscvspdpn",
    }
}

/// The name of a rounding.
pub open spec fn spec_round_name(mode: FpuRoundMode) -> Seq<char> {
    match mode {
        FpuRoundMode::Floor => "floor"@,
        FpuRoundMode::Ceil => "ceil"@,
        FpuRoundMode::Trunc => "trunc"@,
        FpuRoundMode::Nearest => "nearest"@,
    }
}

/// The name of a rounding.
pub fn round_name(mode: FpuRoundMode) -> (s: &'static str)
    ensures
        s@ == spec_round_name(mode),
{
    match mode {
        FpuRoundMode::Floor => "floor",
        FpuRoundMode::Ceil => "ceil",
        FpuRoundMode::Trunc => "trunc",
        FpuRoundMode::Nearest => "nearest",
    }
}

/// The name of a load.
pub open spec fn spec_load_name(op: LoadOP) -> Seq<char> {
    match op {
        LoadOP::Lbz => "lbz"@,
        LoadOP::Lhz => "lhz"@,
        LoadOP::Lwz => "lwz"@,
        LoadOP::Ld => "ld"@,
        LoadOP::Lfs => "lfs"@,
        LoadOP::Lfd => "lfd"@,
    }
}

/// The name of a load.
pub fn load_name(op: LoadOP) -> (s: &'static str)
    ensures
        s@ == spec_load_name(op),
{
    match op {
        LoadOP::Lbz => "lbz",
        LoadOP::Lhz => "lhz",
        LoadOP::Lwz => "lwz",
        LoadOP::Ld => "ld",
        LoadOP::Lfs => "lfs",
        LoadOP::Lfd => "lfd",
    }
}

/// The name of a store.
pub open spec fn spec_store_name(op: StoreOP) -> Seq<char> {
    match op {
        StoreOP::Stb => "stb"@,
        StoreOP::Sth => "sth"@,
        StoreOP::Stw => "stw"@,
        StoreOP::Std => "std"@,
        StoreOP::Stfs => "stfs"@,
        StoreOP::Stfd => "stfd"@,
    }
}

/// The name of a store.
pub fn store_name(op: StoreOP) -> (s: &'static str)
    ensures
        s@ == spec_store_name(op),
{
    match op {
        StoreOP::Stb => "stb",
        StoreOP::Sth => "sth",
        StoreOP::Stw => "stw",
        StoreOP::Std => "std",
        StoreOP::Stfs => "stfs",
        StoreOP::Stfd => "stfd",
    }
}

/// The name of an operation.
pub open spec fn spec_rmw_name(op: AtomicRmwOp) -> Seq<char> {
    match op {
        AtomicRmwOp::Add => "add"@,
        AtomicRmwOp::Sub => "sub"@,
        AtomicRmwOp::And => "and"@,
        AtomicRmwOp::Nand => "nand"@,
        AtomicRmwOp::Or => "or"@,
        AtomicRmwOp::Xor => "xor"@,
        AtomicRmwOp::Xchg => "xchg"@,
        AtomicRmwOp::Umin => "umin"@,
        AtomicRmwOp::Umax => "umax"@,
        AtomicRmwOp::Smin => "smin"@,
        AtomicRmwOp::Smax => "smax"@,
    }
}

/// The name of an operation.
pub fn rmw_name(op: AtomicRmwOp) -> (s: &'static str)
    ensures
        s@ == spec_rmw_name(op),
{
    match op {
        AtomicRmwOp::Add => "add",
        AtomicRmwOp::Sub => "sub",
        AtomicRmwOp::And => "and",
        AtomicRmwOp::Nand => "nand",
        AtomicRmwOp::Or => "or",
        AtomicRmwOp::Xor => "xor",
        AtomicRmwOp::Xchg => "xchg",
        AtomicRmwOp::Umin => "umin",
        AtomicRmwOp::Umax => "umax",
        AtomicRmwOp::Smin => "smin",
        AtomicRmwOp::Smax => "smax",
    }
}

/// The name of an operation.
pub open spec fn spec_vec_alu_name(op: VecAluOp) -> Seq<char> {
    match op {
        VecAluOp::Add => "vadd"@,
        VecAluOp::Sub => "vsub"@,
        VecAluOp::CmpEq => "vcmpeq"@,
        VecAluOp::CmpGtS => "vcmpgts"@,
        VecAluOp::CmpGtU => "vcmpgtu"@,
        VecAluOp::MinS => "vmins"@,
        VecAluOp::MinU => "vminu"@,
        VecAluOp::MaxS => "vmaxs"@,
        VecAluOp::MaxU => "vmaxu"@,
        VecAluOp::Shl => "vshl"@,
        VecAluOp::ShrU => "vshru"@,
        VecAluOp::ShrS => "vshrs"@,
        VecAluOp::AvgRoundS => "vavgs"@,
        VecAluOp::AvgRoundU => "vavgu"@,
        VecAluOp::SAddSat => "vsaddsat"@,
        VecAluOp::UAddSat => "vuaddsat"@,
        VecAluOp::SSubSat => "vssubsat"@,
        VecAluOp::USubSat => "vusubsat"@,
        VecAluOp::MergeLow => "vmrgl"@,
        VecAluOp::MergeHigh => "vmrgh"@,
        VecAluOp::PackSS => "vpkss"@,
        VecAluOp::PackSU => "vpksu"@,
        VecAluOp::PackUU => "vpkuu"@,
        VecAluOp::MulWord => "vmuluwm"@,
        VecAluOp::MulEvenS => "vmules"@,
        VecAluOp::MulOddS => "vmulos"@,
        VecAluOp::MulEvenU => "vmuleu"@,
        VecAluOp::MulOddU => "vmulou"@,
        VecAluOp::PackMod => "vpkum"@,
        VecAluOp::MergeEvenWord => "vmrgew"@,
        VecAluOp::Rotl => "vrl"@,
        VecAluOp::And => "xxland"@,
        VecAluOp::Or => "xxlor"@,
        VecAluOp::Xor => "xxlxor"@,
        VecAluOp::Nor => "xxlnor"@,
        VecAluOp::AndC => "xxlandc"@,
    }
}

/// The name of an operation.
pub fn vec_alu_name(op: VecAluOp) -> (s: &'static str)
    ensures
        s@ == spec_vec_alu_name(op),
{
    match op {
        VecAluOp::Add => "vadd",
        VecAluOp::Sub => "vsub",
        VecAluOp::CmpEq => "vcmpeq",
        VecAluOp::CmpGtS => "vcmpgts",
        VecAluOp::CmpGtU => "vcmpgtu",
        VecAluOp::MinS => "vmins",
        VecAluOp::MinU => "vminu",
        VecAluOp::MaxS => "vmaxs",
        VecAluOp::MaxU => "vmaxu",
        VecAluOp::Shl => "vshl",
        VecAluOp::ShrU => "vshru",
        VecAluOp::ShrS => "vshrs",
        VecAluOp::AvgRoundS => "vavgs",
        VecAluOp::AvgRoundU => "vavgu",
        VecAluOp::SAddSat => "vsaddsat",
        VecAluOp::UAddSat => "vuaddsat",
        VecAluOp::SSubSat => "vssubsat",
        VecAluOp::USubSat => "vusubsat",
        VecAluOp::MergeLow => "vmrgl",
        VecAluOp::MergeHigh => "vmrgh",
        VecAluOp::PackSS => "vpkss",
        VecAluOp::PackSU => "vpksu",
        VecAluOp::PackUU => "vpkuu",
        VecAluOp::MulWord => "vmuluwm",
        VecAluOp::MulEvenS => "vmules",
        VecAluOp::MulOddS => "vmulos",
        VecAluOp::MulEvenU => "vmuleu",
        VecAluOp::MulOddU => "vmulou",
        VecAluOp::PackMod => "vpkum",
        VecAluOp::MergeEvenWord => "vmrgew",
        VecAluOp::Rotl => "vrl",
        VecAluOp::And => "xxland",
        VecAluOp::Or => "xxlor",
        VecAluOp::Xor => "xxlxor",
        VecAluOp::Nor => "xxlnor",
        VecAluOp::AndC => "xxlandc",
    }
}

/// The name of an operation.
pub open spec fn spec_vec_alu4_name(op: VecAluOp4) -> Seq<char> {
    match op {
        VecAluOp4::MulAddUH => "vmladduhm"@,
        VecAluOp4::MulHiRoundAddSHS => "vmhraddshs"@,
        VecAluOp4::Perm => "vperm"@,
    }
}

/// The name of an operation.
pub fn vec_alu4_name(op: VecAluOp4) -> (s: &'static str)
    ensures
        s@ == spec_vec_alu4_name(op),
{
    match op {
        VecAluOp4::MulAddUH => "vmladduhm",
        VecAluOp4::MulHiRoundAddSHS => "vmhraddshs",
        VecAluOp4::Perm => "vperm",
    }
}

/// The name of a conversion.
pub open spec fn spec_vec_cvt_name(op: VecCvtOp) -> Seq<char> {
    match op {
        VecCvtOp::F32ToI32S => "xvcvspsxws"@,
        VecCvtOp::F32ToI32U => "xvcvspuxws"@,
        VecCvtOp::I32ToF32S => "xvcvsxwsp"@,
        VecCvtOp::I32ToF32U => "xvcvuxwsp"@,
        VecCvtOp::F64ToI64S => "xvcvdpsxds"@,
        VecCvtOp::F64ToI64U => "xvcvdpuxds"@,
        VecCvtOp::I64ToF64S => "xvcvsxddp"@,
        VecCvtOp::I64ToF64U => "xvcvuxddp"@,
        VecCvtOp::F64ToF32 => "xvcvdpsp"@,
        VecCvtOp::F32ToF64 => "xvcvspdp"@,
    }
}

/// The name of a conversion.
pub fn vec_cvt_name(op: VecCvtOp) -> (s: &'static str)
    ensures
        s@ == spec_vec_cvt_name(op),
{
    match op {
        VecCvtOp::F32ToI32S => "xvcvspsxws",
        VecCvtOp::F32ToI32U => "xvcvspuxws",
        VecCvtOp::I32ToF32S => "xvcvsxwsp",
        VecCvtOp::I32ToF32U => "xvcvuxwsp",
        VecCvtOp::F64ToI64S => "xvcvdpsxds",
        VecCvtOp::F64ToI64U => "xvcvdpuxds",
        VecCvtOp::I64ToF64S => "xvcvsxddp",
        VecCvtOp::I64ToF64U => "xvcvuxddp",
        VecCvtOp::F64ToF32 => "xvcvdpsp",
        VecCvtOp::F32ToF64 => "xvcvspdp",
    }
}

/// The name of an operation.
pub open spec fn spec_vec_unary_name(op: VecUnaryOp) -> Seq<char> {
    match op {
        VecUnaryOp::Popcnt => "vpopcnt"@,
        VecUnaryOp::WidenSLow => "vupkls"@,
        VecUnaryOp::WidenSHigh => "vupkhs"@,
    }
}

/// The name of an operation.
pub fn vec_unary_name(op: VecUnaryOp) -> (s: &'static str)
    ensures
        s@ == spec_vec_unary_name(op),
{
    match op {
        VecUnaryOp::Popcnt => "vpopcnt",
        VecUnaryOp::WidenSLow => "vupkls",
        VecUnaryOp::WidenSHigh => "vupkhs",
    }
}

/// The name of an operation.
pub open spec fn spec_vec_fpu2_name(op: VecFpuOp2) -> Seq<char> {
    match op {
        VecFpuOp2::Add => "xvadd"@,
        VecFpuOp2::Sub => "xvsub"@,
        VecFpuOp2::Mul => "xvmul"@,
        VecFpuOp2::Div => "xvdiv"@,
        VecFpuOp2::CmpEq => "xvcmpeq"@,
        VecFpuOp2::CmpGt => "xvcmpgt"@,
        VecFpuOp2::CmpGe => "xvcmpge"@,
        VecFpuOp2::Min => "xvmin"@,
        VecFpuOp2::Max => "xvmax"@,
    }
}

/// The name of an operation.
pub fn vec_fpu2_name(op: VecFpuOp2) -> (s: &'static str)
    ensures
        s@ == spec_vec_fpu2_name(op),
{
    match op {
        VecFpuOp2::Add => "xvadd",
        VecFpuOp2::Sub => "xvsub",
        VecFpuOp2::Mul => "xvmul",
        VecFpuOp2::Div => "xvdiv",
        VecFpuOp2::CmpEq => "xvcmpeq",
        VecFpuOp2::CmpGt => "xvcmpgt",
        VecFpuOp2::CmpGe => "xvcmpge",
        VecFpuOp2::Min => "xvmin",
        VecFpuOp2::Max => "xvmax",
    }
}

/// The name of an operation.
pub open spec fn spec_vec_fpu1_name(op: VecFpuOp1) -> Seq<char> {
    match op {
        VecFpuOp1::Sqrt => "xvsqrt"@,
        VecFpuOp1::Neg => "xvneg"@,
        VecFpuOp1::Abs => "xvabs"@,
    }
}

/// The name of an operation.
pub fn vec_fpu1_name(op: VecFpuOp1) -> (s: &'static str)
    ensures
        s@ == spec_vec_fpu1_name(op),
{
    match op {
        VecFpuOp1::Sqrt => "xvsqrt",
        VecFpuOp1::Neg => "xvneg",
        VecFpuOp1::Abs => "xvabs",
    }
}

/// The name of a library routine.
pub open spec fn spec_lib_call_name(call: LibCall) -> Seq<char> {
    match call {
        LibCall::Probestack => "Probestack"@,
        LibCall::Memcpy => "Memcpy"@,
    }
}

/// The name of a library routine.
pub fn lib_call_name(call: LibCall) -> (s: &'static str)
    ensures
        s@ == spec_lib_call_name(call),
{
    match call {
        LibCall::Probestack => "Probestack",
        LibCall::Memcpy => "Memcpy",
    }
}

} // verus!
