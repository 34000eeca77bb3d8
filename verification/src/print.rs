//! The listing of instructions.
use vstd::prelude::*;
use crate::args::{AMode, CondBrTarget};
use crate::buffer::{MachLabel, UnwindInst};
use crate::emit;
use crate::emit::Group;
use crate::inst::{AluImmOp, ArgPair, Inst, RetPair};
use crate::ir::{CodegenError, ExternalName, SharedFlags, TrapCode};
use crate::names;
use crate::names::{
    alu_name, bit_name, div_name, float_cc_name, fpu1_name, fpu2_name, int_cc_name, lib_call_name,
    load_name, rmw_name, round_name, shift_name, store_name, ty_name, unary_name, vec_alu4_name,
    vec_alu_name, vec_cvt_name, vec_fpu1_name, vec_fpu2_name, vec_unary_name,
};
use crate::regs;
use crate::regs::{reg_name, RealReg, Reg, RegClass};
use crate::text;
use crate::text::{push_decimal, push_hex, push_signed};

verus! {

// Parts of the listing.

fn push_reg(out: &mut String, r: Reg)
    ensures
        final(out)@ == old(out)@ + regs::reg_text(r),
{
    out.append(reg_name(r).as_str());
}

fn push_u8(out: &mut String, n: u8)
    ensures
        final(out)@ == old(out)@ + text::decimal(n as nat),
{
    push_decimal(out, n as u64);
}

fn push_u32(out: &mut String, n: u32)
    ensures
        final(out)@ == old(out)@ + text::decimal(n as nat),
{
    push_decimal(out, n as u64);
}

fn push_usize(out: &mut String, n: usize)
    ensures
        final(out)@ == old(out)@ + text::decimal(n as nat),
{
    push_decimal(out, n as u64);
}

fn push_i8(out: &mut String, n: i8)
    ensures
        final(out)@ == old(out)@ + text::signed_decimal(n as int),
{
    push_signed(out, n as i64);
}

/// One of two texts.
pub open spec fn pick(c: bool, a: Seq<char>, b: Seq<char>) -> Seq<char> {
    if c {
        a
    } else {
        b
    }
}

fn pick_str(c: bool, a: &'static str, b: &'static str) -> (s: &'static str)
    ensures
        s@ == pick(c, a@, b@),
{
    if c {
        a
    } else {
        b
    }
}

/// An addressing mode: the offset, and what it is from.
pub open spec fn amode_text(mem: AMode) -> Seq<char> {
    match mem {
        AMode::RegOffset(r, off) => text::signed_decimal(off as int) + "("@ + regs::reg_text(r)
            + ")"@,
        AMode::SPOffset(off) => text::signed_decimal(off as int) + "(sp)"@,
        AMode::FPOffset(off) => text::signed_decimal(off as int) + "(fp)"@,
        AMode::SlotOffset(off) => text::signed_decimal(off as int) + "(slot)"@,
        AMode::IncomingArg(off) => text::signed_decimal(off as int) + "(incoming_arg)"@,
    }
}

impl AMode {
    /// The listing of an addressing mode.
    pub fn print(self) -> (s: String)
        ensures
            s@ == amode_text(self),
    {
        let mut out = String::new();
        assert(out@ + amode_text(self) =~= amode_text(self));
        push_amode(&mut out, self);
        out
    }
}

fn push_amode(out: &mut String, mem: AMode)
    ensures
        final(out)@ == old(out)@ + amode_text(mem),
{
    match mem {
        AMode::RegOffset(r, off) => {
            push_signed(out, off);
            out.append("(");
            push_reg(out, r);
            out.append(")");
        },
        AMode::SPOffset(off) => {
            push_signed(out, off);
            out.append("(sp)");
        },
        AMode::FPOffset(off) => {
            push_signed(out, off);
            out.append("(fp)");
        },
        AMode::SlotOffset(off) => {
            push_signed(out, off);
            out.append("(slot)");
        },
        AMode::IncomingArg(off) => {
            push_signed(out, off);
            out.append("(incoming_arg)");
        },
    }
    assert(out@ =~= old(out)@ + amode_text(mem));
}

/// A label.
pub open spec fn label_text(label: MachLabel) -> Seq<char> {
    "MachLabel("@ + text::decimal(label.index as nat) + ")"@
}

fn push_label(out: &mut String, label: MachLabel)
    ensures
        final(out)@ == old(out)@ + label_text(label),
{
    out.append("MachLabel(");
    push_u32(out, label.index);
    out.append(")");
    assert(out@ =~= old(out)@ + label_text(label));
}

/// A branch target; falling through is a zero.
pub open spec fn target_text(target: CondBrTarget) -> Seq<char> {
    match target {
        CondBrTarget::Label(label) => label_text(label),
        CondBrTarget::Fallthrough => "0"@,
    }
}

impl CondBrTarget {
    /// The listing of a branch target.
    pub fn print(self) -> (s: String)
        ensures
            s@ == target_text(self),
    {
        let mut out = String::new();
        assert(out@ + target_text(self) =~= target_text(self));
        push_target(&mut out, self);
        out
    }
}

fn push_target(out: &mut String, target: CondBrTarget)
    ensures
        final(out)@ == old(out)@ + target_text(target),
{
    match target {
        CondBrTarget::Label(label) => push_label(out, label),
        CondBrTarget::Fallthrough => {
            out.append("0");
        },
    }
}

/// A trap code.
pub open spec fn trap_text(code: TrapCode) -> Seq<char> {
    match code {
        TrapCode::StackOverflow => "stk_ovf"@,
        TrapCode::HeapOutOfBounds => "heap_oob"@,
        TrapCode::IntegerOverflow => "int_ovf"@,
        TrapCode::IntegerDivisionByZero => "int_divz"@,
        TrapCode::BadConversionToInteger => "bad_toint"@,
        TrapCode::User(n) => "user"@ + text::decimal(n as nat),
    }
}

fn push_trap(out: &mut String, code: TrapCode)
    ensures
        final(out)@ == old(out)@ + trap_text(code),
{
    match code {
        TrapCode::StackOverflow => {
            out.append("stk_ovf");
        },
        TrapCode::HeapOutOfBounds => {
            out.append("heap_oob");
        },
        TrapCode::IntegerOverflow => {
            out.append("int_ovf");
        },
        TrapCode::IntegerDivisionByZero => {
            out.append("int_divz");
        },
        TrapCode::BadConversionToInteger => {
            out.append("bad_toint");
        },
        TrapCode::User(n) => {
            out.append("user");
            push_u8(out, n);
        },
    }
    assert(out@ =~= old(out)@ + trap_text(code));
}

/// A name outside the function.
pub open spec fn external_text(name: ExternalName) -> Seq<char> {
    match name {
        ExternalName::LibCall(call) => "LibCall("@ + names::spec_lib_call_name(call) + ")"@,
        ExternalName::User(n) => "User(userextname"@ + text::decimal(n as nat) + ")"@,
    }
}

fn push_external(out: &mut String, name: ExternalName)
    ensures
        final(out)@ == old(out)@ + external_text(name),
{
    match name {
        ExternalName::LibCall(call) => {
            out.append("LibCall(");
            out.append(lib_call_name(call));
            out.append(")");
        },
        ExternalName::User(n) => {
            out.append("User(userextname");
            push_u32(out, n);
            out.append(")");
        },
    }
    assert(out@ =~= old(out)@ + external_text(name));
}

/// A physical register: its number, and the letter of its class.
pub open spec fn real_reg_text(reg: RealReg) -> Seq<char> {
    "p"@ + text::decimal(reg.hw_enc as nat) + match reg.class {
        RegClass::Int => "i"@,
        RegClass::Float => "f"@,
        RegClass::Vector => "v"@,
    }
}

fn push_real_reg(out: &mut String, reg: RealReg)
    ensures
        final(out)@ == old(out)@ + real_reg_text(reg),
{
    out.append("p");
    push_u8(out, reg.hw_enc);
    match reg.class {
        RegClass::Int => out.append("i"),
        RegClass::Float => out.append("f"),
        RegClass::Vector => out.append("v"),
    }
    assert(out@ =~= old(out)@ + real_reg_text(reg));
}

/// A record for the unwinder.
pub open spec fn unwind_text(inst: UnwindInst) -> Seq<char> {
    match inst {
        UnwindInst::PushFrameRegs { offset_upward_to_caller_sp } =>
            "PushFrameRegs { offset_upward_to_caller_sp: "@ + text::decimal(
            offset_upward_to_caller_sp as nat,
        ) + " }"@,
        UnwindInst::DefineNewFrame { offset_upward_to_caller_sp, offset_downward_to_clobbers } =>
            "DefineNewFrame { offset_upward_to_caller_sp: "@ + text::decimal(
            offset_upward_to_caller_sp as nat,
        ) + ", offset_downward_to_clobbers: "@ + text::decimal(offset_downward_to_clobbers as nat)
            + " }"@,
        UnwindInst::SaveReg { clobber_offset, reg } => "SaveReg { clobber_offset: "@
            + text::decimal(clobber_offset as nat) + ", reg: "@ + real_reg_text(reg) + " }"@,
    }
}

fn push_unwind(out: &mut String, inst: UnwindInst)
    ensures
        final(out)@ == old(out)@ + unwind_text(inst),
{
    match inst {
        UnwindInst::PushFrameRegs { offset_upward_to_caller_sp } => {
            out.append("PushFrameRegs { offset_upward_to_caller_sp: ");
            push_u32(out, offset_upward_to_caller_sp);
            out.append(" }");
        },
        UnwindInst::DefineNewFrame { offset_upward_to_caller_sp, offset_downward_to_clobbers } => {
            out.append("DefineNewFrame { offset_upward_to_caller_sp: ");
            push_u32(out, offset_upward_to_caller_sp);
            out.append(", offset_downward_to_clobbers: ");
            push_u32(out, offset_downward_to_clobbers);
            out.append(" }");
        },
        UnwindInst::SaveReg { clobber_offset, reg } => {
            out.append("SaveReg { clobber_offset: ");
            push_u32(out, clobber_offset);
            out.append(", reg: ");
            push_real_reg(out, reg);
            out.append(" }");
        },
    }
    assert(out@ =~= old(out)@ + unwind_text(inst));
}

/// The width of an integer comparison.
pub open spec fn width_text(is_64: bool) -> Seq<char> {
    if is_64 {
        ".d"@
    } else {
        ".w"@
    }
}

fn width_str(is_64: bool) -> (s: &'static str)
    ensures
        s@ == width_text(is_64),
{
    if is_64 {
        ".d"
    } else {
        ".w"
    }
}

/// The name of an operation on a register and an immediate.
pub open spec fn alu_imm_name(op: AluImmOp) -> Seq<char> {
    match op {
        AluImmOp::Addi => "addi"@,
        AluImmOp::Andi => "andi."@,
    }
}

fn alu_imm_mnemonic(op: AluImmOp) -> (s: &'static str)
    ensures
        s@ == alu_imm_name(op),
{
    match op {
        AluImmOp::Addi => "addi",
        AluImmOp::Andi => "andi.",
    }
}

/// The immediate of an operation: signed for an addition.
pub open spec fn alu_imm_text(op: AluImmOp, imm: u16) -> Seq<char> {
    match op {
        AluImmOp::Addi => text::signed_decimal(imm as i16 as int),
        AluImmOp::Andi => text::decimal(imm as nat),
    }
}

fn push_alu_imm(out: &mut String, op: AluImmOp, imm: u16)
    ensures
        final(out)@ == old(out)@ + alu_imm_text(op, imm),
{
    match op {
        AluImmOp::Addi => push_signed(out, imm as i16 as i64),
        AluImmOp::Andi => push_decimal(out, imm as u64),
    }
}

/// The arguments and the registers that they arrive in.
pub open spec fn args_text(args: Seq<ArgPair>) -> Seq<char>
    decreases args.len(),
{
    if args.len() == 0 {
        "args"@
    } else {
        args_text(args.drop_last()) + " "@ + regs::reg_text(args.last().vreg.reg) + "="@
            + regs::reg_text(args.last().preg)
    }
}

fn print_args(args: &Vec<ArgPair>) -> (s: String)
    ensures
        s@ == args_text(args@),
{
    let mut out = "args".to_owned();
    let mut i: usize = 0;
    while i < args.len()
        invariant
            i <= args@.len(),
            out@ == args_text(args@.take(i as int)),
        decreases args@.len() - i,
    {
        assert(args@.take(i + 1).drop_last() =~= args@.take(i as int));
        out.append(" ");
        push_reg(&mut out, args[i].vreg.to_reg());
        out.append("=");
        push_reg(&mut out, args[i].preg);
        i = i + 1;
    }
    assert(args@.take(i as int) =~= args@);
    out
}

/// The return values and the registers that they leave in.
pub open spec fn rets_text(rets: Seq<RetPair>) -> Seq<char>
    decreases rets.len(),
{
    if rets.len() == 0 {
        "rets"@
    } else {
        rets_text(rets.drop_last()) + " "@ + regs::reg_text(rets.last().vreg) + "="@
            + regs::reg_text(rets.last().preg)
    }
}

fn print_rets(rets: &Vec<RetPair>) -> (s: String)
    ensures
        s@ == rets_text(rets@),
{
    let mut out = "rets".to_owned();
    let mut i: usize = 0;
    while i < rets.len()
        invariant
            i <= rets@.len(),
            out@ == rets_text(rets@.take(i as int)),
        decreases rets@.len() - i,
    {
        assert(rets@.take(i + 1).drop_last() =~= rets@.take(i as int));
        out.append(" ");
        push_reg(&mut out, rets[i].vreg);
        out.append("=");
        push_reg(&mut out, rets[i].preg);
        i = i + 1;
    }
    assert(rets@.take(i as int) =~= rets@);
    out
}

// Instructions.

/// The listing of an instruction of fixed-point arithmetic, moves and special registers.
#[verifier::opaque]
pub open spec fn text_int(inst: Inst) -> Seq<char> {
    match inst {
        Inst::Nop0 => "##zero length nop"@,
        Inst::Nop4 => "nop"@,
        Inst::LoadConst64 { rd, imm } => {
            "load_const "@ + regs::reg_text(rd.reg) + ", 0x"@ + text::digits(imm as nat, 16)
        },
        Inst::AluRRR { op, rd, ra, rb } => {
            names::spec_alu_name(op) + " "@ + regs::reg_text(rd.reg) + ", "@ + regs::reg_text(ra)
                + ", "@ + regs::reg_text(rb)
        },
        Inst::UnaryRR { op, rd, rn } => {
            names::spec_unary_name(op) + " "@ + regs::reg_text(rd.reg) + ", "@ + regs::reg_text(rn)
        },
        Inst::ShiftRRImm { op, rd, ra, imm } => {
            names::spec_shift_name(op) + "i"@ + " "@ + regs::reg_text(rd.reg) + ", "@
                + regs::reg_text(ra) + ", "@ + text::decimal(imm as nat)
        },
        Inst::ShiftRRR { op, rd, ra, rb } => {
            names::spec_shift_name(op) + " "@ + regs::reg_text(rd.reg) + ", "@ + regs::reg_text(ra)
                + ", "@ + regs::reg_text(rb)
        },
        Inst::BitCount { op, rd, rn, ty } => {
            names::spec_bit_name(op) + "."@ + names::spec_ty_name(ty) + " "@
                + regs::reg_text(rd.reg) + ", "@ + regs::reg_text(rn)
        },
        Inst::DivRem { op, rd, ra, rb, ty } => {
            names::spec_div_name(op) + "."@ + names::spec_ty_name(ty) + " "@
                + regs::reg_text(rd.reg) + ", "@ + regs::reg_text(ra) + ", "@ + regs::reg_text(rb)
        },
        Inst::Select { rd, kind, rt, rf } => {
            "select."@ + names::spec_int_cc_name(kind.kind) + " "@ + regs::reg_text(rd.reg) + ", "@
                + regs::reg_text(rt) + ", "@ + regs::reg_text(rf) + " # cmp "@
                + regs::reg_text(kind.rs1) + ", "@ + regs::reg_text(kind.rs2)
        },
        Inst::Mov { rd, rm, .. } => {
            "mr"@ + " "@ + regs::reg_text(rd.reg) + ", "@ + regs::reg_text(rm)
        },
        Inst::CmpSet { rd, kind } => {
            "cmp_set."@ + names::spec_int_cc_name(kind.kind) + " "@ + regs::reg_text(rd.reg) + ", "@
                + regs::reg_text(kind.rs1) + ", "@ + regs::reg_text(kind.rs2)
        },
        Inst::Mflr { rd } => "mflr "@ + regs::reg_text(rd.reg),
        Inst::Mtlr { rs } => "mtlr "@ + regs::reg_text(rs),
        Inst::AluRRImm16 { op, rd, ra, imm } => {
            alu_imm_name(op) + " "@ + regs::reg_text(rd.reg) + ", "@ + regs::reg_text(ra) + ", "@
                + alu_imm_text(op, imm)
        },
        Inst::Extend { rd, rn, signed, from_bits, to_bits } => {
            pick(signed, "sext"@, "zext"@) + "."@ + text::decimal(from_bits as nat) + "->"@
                + text::decimal(to_bits as nat) + " "@ + regs::reg_text(rd.reg) + ", "@
                + regs::reg_text(rn)
        },
        Inst::MovFromPReg { rd, rm } => {
            "mr "@ + regs::reg_text(rd.reg) + ", "@ + pick(rm == 1, "sp"@, "fp"@)
        },
        _ => Seq::empty(),
    }
}

/// The listing of an instruction of control flow and what has no code of its own.
#[verifier::opaque]
pub open spec fn text_flow(inst: Inst) -> Seq<char> {
    match inst {
        Inst::FpuCondBr { taken, not_taken, kind } => {
            "fbr."@ + names::spec_float_cc_name(kind.kind) + " "@ + regs::reg_text(kind.rs1) + ", "@
                + regs::reg_text(kind.rs2) + " # "@ + target_text(taken) + ", "@
                + target_text(not_taken)
        },
        Inst::BrTable { index, targets, .. } => {
            "br_table "@ + regs::reg_text(index) + " # "@
                + text::decimal((targets@.len() - 1) as nat) + " targets"@
        },
        Inst::EmitIsland { needed_space } => "emit_island "@ + text::decimal(needed_space as nat),
        Inst::Ret => "blr"@,
        Inst::Jump { label } => "b "@ + label_text(label),
        Inst::CondBr { taken, not_taken, kind } => {
            "b"@ + names::spec_int_cc_name(kind.kind) + width_text(kind.is_64) + " "@
                + regs::reg_text(kind.rs1) + ", "@ + regs::reg_text(kind.rs2) + " # "@
                + target_text(taken) + ", "@ + target_text(not_taken)
        },
        Inst::Udf { trap_code } => "trap # "@ + trap_text(trap_code),
        Inst::TrapIf { kind, trap_code } => {
            "trap_if."@ + names::spec_int_cc_name(kind.kind) + " "@ + regs::reg_text(kind.rs1)
                + ", "@ + regs::reg_text(kind.rs2) + " # "@ + trap_text(trap_code)
        },
        Inst::Fence => "sync"@,
        Inst::LoadExtName { rd, name, offset } => {
            "load_ext_name "@ + regs::reg_text(rd.reg) + ", "@ + external_text(name) + "+"@
                + text::signed_decimal(offset as int)
        },
        Inst::LabelAddress { rd, label } => {
            "label_address "@ + regs::reg_text(rd.reg) + ", "@ + label_text(label)
        },
        Inst::Unwind { inst } => "unwind "@ + unwind_text(inst),
        Inst::DummyUse { reg } => "dummy_use "@ + regs::reg_text(reg),
        Inst::Args { args } => args_text(args@),
        Inst::Rets { rets } => rets_text(rets@),
        _ => Seq::empty(),
    }
}

/// The listing of an instruction of scalar floating point.
#[verifier::opaque]
pub open spec fn text_float(inst: Inst) -> Seq<char> {
    match inst {
        Inst::FpuSelect { rd, kind, rt, rf } => {
            "fselect."@ + names::spec_int_cc_name(kind.kind) + " "@ + regs::reg_text(rd.reg) + ", "@
                + regs::reg_text(rt) + ", "@ + regs::reg_text(rf) + " # cmp "@
                + regs::reg_text(kind.rs1) + ", "@ + regs::reg_text(kind.rs2)
        },
        Inst::FpuRRR { op, rd, ra, rb, ty } => {
            names::spec_fpu2_name(op) + "."@ + names::spec_ty_name(ty) + " "@
                + regs::reg_text(rd.reg) + ", "@ + regs::reg_text(ra) + ", "@ + regs::reg_text(rb)
        },
        Inst::FpuRR { op, rd, rn, ty } => {
            names::spec_fpu1_name(op) + "."@ + names::spec_ty_name(ty) + " "@
                + regs::reg_text(rd.reg) + ", "@ + regs::reg_text(rn)
        },
        Inst::FpuFma { rd, ra, rc, rb, ty } => {
            "fmadd."@ + names::spec_ty_name(ty) + " "@ + regs::reg_text(rd.reg) + ", "@
                + regs::reg_text(ra) + ", "@ + regs::reg_text(rc) + ", "@ + regs::reg_text(rb)
        },
        Inst::FpuCmpSet { rd, kind } => {
            "fcmp_set."@ + names::spec_float_cc_name(kind.kind) + " "@ + regs::reg_text(rd.reg)
                + ", "@ + regs::reg_text(kind.rs1) + ", "@ + regs::reg_text(kind.rs2)
        },
        Inst::FpuRound { rd, rn, mode } => {
            "fround_"@ + names::spec_round_name(mode) + " "@ + regs::reg_text(rd.reg) + ", "@
                + regs::reg_text(rn)
        },
        Inst::Bswap { rd, rn, ty } => {
            "bswap."@ + names::spec_ty_name(ty) + " "@ + regs::reg_text(rd.reg) + ", "@
                + regs::reg_text(rn)
        },
        Inst::MovToFpr { rd, rn } => {
            "mtvsrd"@ + " "@ + regs::reg_text(rd.reg) + ", "@ + regs::reg_text(rn)
        },
        Inst::MovFromFpr { rd, rn } => {
            "mfvsrd"@ + " "@ + regs::reg_text(rd.reg) + ", "@ + regs::reg_text(rn)
        },
        Inst::IntToFpu { rd, rn, signed, ty } => {
            pick(signed, "fcfid"@, "fcfidu"@) + "."@ + names::spec_ty_name(ty) + " "@
                + regs::reg_text(rd.reg) + ", "@ + regs::reg_text(rn)
        },
        Inst::FpuToInt { rd, rn, signed, sat, out_ty, .. } => {
            pick(signed, "fcvt_to_sint"@, "fcvt_to_uint"@) + pick(sat, "_sat"@, ""@) + "."@
                + names::spec_ty_name(out_ty) + " "@ + regs::reg_text(rd.reg) + ", "@
                + regs::reg_text(rn)
        },
        Inst::FpuMinMax { rd, ra, rb, is_max } => {
            pick(is_max, "fmax"@, "fmin"@) + " "@ + regs::reg_text(rd.reg) + ", "@
                + regs::reg_text(ra) + ", "@ + regs::reg_text(rb)
        },
        _ => Seq::empty(),
    }
}

/// The listing of an instruction of loads, stores and addresses.
#[verifier::opaque]
pub open spec fn text_memory(inst: Inst) -> Seq<char> {
    match inst {
        Inst::Load { rd, op, from, .. } => {
            names::spec_load_name(op) + " "@ + regs::reg_text(rd.reg) + ", "@ + amode_text(from)
        },
        Inst::Store { to, op, src, .. } => {
            names::spec_store_name(op) + " "@ + regs::reg_text(src) + ", "@ + amode_text(to)
        },
        Inst::LoadAddr { rd, mem } => {
            "load_addr "@ + regs::reg_text(rd.reg) + ", "@ + amode_text(mem)
        },
        Inst::VecLoad { rd, from, .. } => {
            "vload "@ + regs::reg_text(rd.reg) + ", "@ + amode_text(from)
        },
        Inst::VecStore { to, rs, .. } => "vstore "@ + regs::reg_text(rs) + ", "@ + amode_text(to),
        Inst::VecLoad64 { rd, from, .. } => {
            "vload64 "@ + regs::reg_text(rd.reg) + ", "@ + amode_text(from)
        },
        Inst::VecStore64 { to, rs, .. } => {
            "vstore64 "@ + regs::reg_text(rs) + ", "@ + amode_text(to)
        },
        _ => Seq::empty(),
    }
}

/// The listing of an instruction of calls.
#[verifier::opaque]
pub open spec fn text_call(inst: Inst) -> Seq<char> {
    match inst {
        Inst::Call { info } => "bl "@ + external_text(info.dest),
        Inst::CallInd { info } => "mtctr "@ + regs::reg_text(info.dest) + "; bctrl"@,
        Inst::ReturnCall { info } => "return_call "@ + external_text(info.dest),
        Inst::ReturnCallInd { info } => "return_call_ind "@ + regs::reg_text(info.dest),
        _ => Seq::empty(),
    }
}

/// The listing of an instruction of atomic accesses.
#[verifier::opaque]
pub open spec fn text_atomic(inst: Inst) -> Seq<char> {
    match inst {
        Inst::AtomicLoad { rd, addr, ty } => {
            "atomic_load."@ + names::spec_ty_name(ty) + " "@ + regs::reg_text(rd.reg) + ", ("@
                + regs::reg_text(addr) + ")"@
        },
        Inst::AtomicStore { src, addr, ty } => {
            "atomic_store."@ + names::spec_ty_name(ty) + " "@ + regs::reg_text(src) + ", ("@
                + regs::reg_text(addr) + ")"@
        },
        Inst::AtomicRmw { op, rd, addr, src, ty } => {
            "atomic_rmw."@ + names::spec_rmw_name(op) + "."@ + names::spec_ty_name(ty) + " "@
                + regs::reg_text(rd.reg) + ", ("@ + regs::reg_text(addr) + "), "@
                + regs::reg_text(src)
        },
        Inst::AtomicCas { rd, addr, expected, new, ty } => {
            "atomic_cas."@ + names::spec_ty_name(ty) + " "@ + regs::reg_text(rd.reg) + ", ("@
                + regs::reg_text(addr) + "), "@ + regs::reg_text(expected) + ", "@
                + regs::reg_text(new)
        },
        Inst::AtomicLoad128 { rd_lo, rd_hi, addr } => {
            "atomic_load.i128 "@ + regs::reg_text(rd_hi.reg) + ":"@ + regs::reg_text(rd_lo.reg)
                + ", ("@ + regs::reg_text(addr) + ")"@
        },
        Inst::AtomicStore128 { rs_lo, rs_hi, addr, .. } => {
            "atomic_store.i128 "@ + regs::reg_text(rs_hi) + ":"@ + regs::reg_text(rs_lo) + ", ("@
                + regs::reg_text(addr) + ")"@
        },
        Inst::AtomicRmw128 { op, rd_lo, rd_hi, addr, src_lo, src_hi, .. } => {
            "atomic_rmw."@ + names::spec_rmw_name(op) + ".i128 "@ + regs::reg_text(rd_hi.reg) + ":"@
                + regs::reg_text(rd_lo.reg) + ", ("@ + regs::reg_text(addr) + "), "@
                + regs::reg_text(src_hi) + ":"@ + regs::reg_text(src_lo)
        },
        Inst::AtomicCas128 { rd_lo, rd_hi, addr, exp_lo, exp_hi, new_lo, new_hi } => {
            "atomic_cas.i128 "@ + regs::reg_text(rd_hi.reg) + ":"@ + regs::reg_text(rd_lo.reg)
                + ", ("@ + regs::reg_text(addr) + "), "@ + regs::reg_text(exp_hi) + ":"@
                + regs::reg_text(exp_lo) + ", "@ + regs::reg_text(new_hi) + ":"@
                + regs::reg_text(new_lo)
        },
        _ => Seq::empty(),
    }
}

/// The listing of an instruction of vectors lane by lane.
#[verifier::opaque]
pub open spec fn text_lane(inst: Inst) -> Seq<char> {
    match inst {
        Inst::VecAluRRR { op, rd, ra, rb, ty } => {
            names::spec_vec_alu_name(op) + "."@ + names::spec_ty_name(ty) + " "@
                + regs::reg_text(rd.reg) + ", "@ + regs::reg_text(ra) + ", "@ + regs::reg_text(rb)
        },
        Inst::VecExtractLaneInt { rd, rn, ty, lane } => {
            "extract_lane."@ + names::spec_ty_name(ty) + " "@ + regs::reg_text(rd.reg) + ", "@
                + regs::reg_text(rn) + ", "@ + text::decimal(lane as nat)
        },
        Inst::VecExtractLaneFpu { rd, rn, ty, lane } => {
            "extract_lane."@ + names::spec_ty_name(ty) + " "@ + regs::reg_text(rd.reg) + ", "@
                + regs::reg_text(rn) + ", "@ + text::decimal(lane as nat)
        },
        Inst::VecInsertLane { rd, rv, rs, ty, lane } => {
            "insert_lane."@ + names::spec_ty_name(ty) + " "@ + regs::reg_text(rd.reg) + ", "@
                + regs::reg_text(rv) + ", "@ + regs::reg_text(rs) + ", "@
                + text::decimal(lane as nat)
        },
        Inst::VecTestLanes { rd, rn, ty, all } => {
            pick(all, "all_true"@, "any_true"@) + "."@ + names::spec_ty_name(ty) + " "@
                + regs::reg_text(rd.reg) + ", "@ + regs::reg_text(rn)
        },
        _ => Seq::empty(),
    }
}

/// The listing of an instruction of whole vectors.
#[verifier::opaque]
pub open spec fn text_vector(inst: Inst) -> Seq<char> {
    match inst {
        Inst::VecAluRRRR { op, rd, ra, rb, rc } => {
            names::spec_vec_alu4_name(op) + " "@ + regs::reg_text(rd.reg) + ", "@
                + regs::reg_text(ra) + ", "@ + regs::reg_text(rb) + ", "@ + regs::reg_text(rc)
        },
        Inst::VecCvt { op, rd, rn } => {
            names::spec_vec_cvt_name(op) + " "@ + regs::reg_text(rd.reg) + ", "@
                + regs::reg_text(rn)
        },
        Inst::VecSpltImm { rd, imm, ty } => {
            "vsplti."@ + names::spec_ty_name(ty) + " "@ + regs::reg_text(rd.reg) + ", "@
                + text::signed_decimal(imm as int)
        },
        Inst::VecUnary { op, rd, rn, ty } => {
            names::spec_vec_unary_name(op) + "."@ + names::spec_ty_name(ty) + " "@
                + regs::reg_text(rd.reg) + ", "@ + regs::reg_text(rn)
        },
        Inst::VecRound { rd, rn, mode, ty } => {
            "xvround_"@ + names::spec_round_name(mode) + "."@ + names::spec_ty_name(ty) + " "@
                + regs::reg_text(rd.reg) + ", "@ + regs::reg_text(rn)
        },
        Inst::VecSel { rd, if_set, if_clear, mask } => {
            "vsel"@ + " "@ + regs::reg_text(rd.reg) + ", "@ + regs::reg_text(if_set) + ", "@
                + regs::reg_text(if_clear) + ", "@ + regs::reg_text(mask)
        },
        Inst::VecFpuRRR { op, rd, ra, rb, ty } => {
            names::spec_vec_fpu2_name(op) + "."@ + names::spec_ty_name(ty) + " "@
                + regs::reg_text(rd.reg) + ", "@ + regs::reg_text(ra) + ", "@ + regs::reg_text(rb)
        },
        Inst::VecFpuRR { op, rd, rn, ty } => {
            names::spec_vec_fpu1_name(op) + "."@ + names::spec_ty_name(ty) + " "@
                + regs::reg_text(rd.reg) + ", "@ + regs::reg_text(rn)
        },
        Inst::VecZero { rd } => "vzero "@ + regs::reg_text(rd.reg),
        Inst::MovToVec { rd, rn } => {
            "mtvsrd"@ + " "@ + regs::reg_text(rd.reg) + ", "@ + regs::reg_text(rn)
        },
        Inst::VecSplatLane { rd, rn, ty } => {
            "splat."@ + names::spec_ty_name(ty) + " "@ + regs::reg_text(rd.reg) + ", "@
                + regs::reg_text(rn)
        },
        Inst::VecPermDi { rd, ra, rb, dm } => {
            "xxpermdi"@ + " "@ + regs::reg_text(rd.reg) + ", "@ + regs::reg_text(ra) + ", "@
                + regs::reg_text(rb) + ", "@ + text::decimal(dm as nat)
        },
        Inst::VecSplatFpr { rd, rn, is_f32 } => {
            pick(is_f32, "splat.f32"@, "splat.f64"@) + " "@ + regs::reg_text(rd.reg) + ", "@
                + regs::reg_text(rn)
        },
        _ => Seq::empty(),
    }
}

/// The listing of an instruction.
pub open spec fn inst_text(inst: Inst) -> Seq<char> {
    match emit::group(inst) {
        Group::Int => text_int(inst),
        Group::Flow => text_flow(inst),
        Group::Float => text_float(inst),
        Group::Memory => text_memory(inst),
        Group::Call => text_call(inst),
        Group::Atomic => text_atomic(inst),
        Group::Lane => text_lane(inst),
        Group::Vector => text_vector(inst),
    }
}

impl Inst {
    /// The listing of the instruction.
    pub fn print_with_state(&self) -> (s: String)
        requires
            self matches Inst::BrTable { targets, .. } ==> targets@.len() >= 1,
        ensures
            s@ == inst_text(*self),
    {
        match self.group() {
            Group::Int => self.print_int(),
            Group::Flow => self.print_flow(),
            Group::Float => self.print_float(),
            Group::Memory => self.print_memory(),
            Group::Call => self.print_call(),
            Group::Atomic => self.print_atomic(),
            Group::Lane => self.print_lane(),
            Group::Vector => self.print_vector(),
        }
    }

    /// The listing of the instruction.
    pub fn pretty_print_inst(&self) -> (s: String)
        requires
            self matches Inst::BrTable { targets, .. } ==> targets@.len() >= 1,
        ensures
            s@ == inst_text(*self),
    {
        self.print_with_state()
    }

    fn print_int(&self) -> (s: String)
        requires
            emit::group(*self) == Group::Int,
        ensures
            s@ == text_int(*self),
    {
        proof {
            reveal(text_int);
        }
        match self {
            Inst::Nop0 => "##zero length nop".to_owned(),
            Inst::Nop4 => "nop".to_owned(),
            Inst::LoadConst64 { rd, imm } => {
                let mut out = "load_const ".to_owned();
                push_reg(&mut out, rd.to_reg());
                out.append(", 0x");
                push_hex(&mut out, *imm);
                out
            },
            Inst::AluRRR { op, rd, ra, rb } => {
                let mut out = alu_name(*op).to_owned();
                out.append(" ");
                push_reg(&mut out, rd.to_reg());
                out.append(", ");
                push_reg(&mut out, *ra);
                out.append(", ");
                push_reg(&mut out, *rb);
                out
            },
            Inst::UnaryRR { op, rd, rn } => {
                let mut out = unary_name(*op).to_owned();
                out.append(" ");
                push_reg(&mut out, rd.to_reg());
                out.append(", ");
                push_reg(&mut out, *rn);
                out
            },
            Inst::ShiftRRImm { op, rd, ra, imm } => {
                let mut out = shift_name(*op).to_owned();
                out.append("i");
                out.append(" ");
                push_reg(&mut out, rd.to_reg());
                out.append(", ");
                push_reg(&mut out, *ra);
                out.append(", ");
                push_u8(&mut out, *imm);
                out
            },
            Inst::ShiftRRR { op, rd, ra, rb } => {
                let mut out = shift_name(*op).to_owned();
                out.append(" ");
                push_reg(&mut out, rd.to_reg());
                out.append(", ");
                push_reg(&mut out, *ra);
                out.append(", ");
                push_reg(&mut out, *rb);
                out
            },
            Inst::BitCount { op, rd, rn, ty } => {
                let mut out = bit_name(*op).to_owned();
                out.append(".");
                out.append(ty_name(*ty));
                out.append(" ");
                push_reg(&mut out, rd.to_reg());
                out.append(", ");
                push_reg(&mut out, *rn);
                out
            },
            Inst::DivRem { op, rd, ra, rb, ty } => {
                let mut out = div_name(*op).to_owned();
                out.append(".");
                out.append(ty_name(*ty));
                out.append(" ");
                push_reg(&mut out, rd.to_reg());
                out.append(", ");
                push_reg(&mut out, *ra);
                out.append(", ");
                push_reg(&mut out, *rb);
                out
            },
            Inst::Select { rd, kind, rt, rf } => {
                let mut out = "select.".to_owned();
                out.append(int_cc_name(kind.kind));
                out.append(" ");
                push_reg(&mut out, rd.to_reg());
                out.append(", ");
                push_reg(&mut out, *rt);
                out.append(", ");
                push_reg(&mut out, *rf);
                out.append(" # cmp ");
                push_reg(&mut out, kind.rs1);
                out.append(", ");
                push_reg(&mut out, kind.rs2);
                out
            },
            Inst::Mov { rd, rm, .. } => {
                let mut out = "mr".to_owned();
                out.append(" ");
                push_reg(&mut out, rd.to_reg());
                out.append(", ");
                push_reg(&mut out, *rm);
                out
            },
            Inst::CmpSet { rd, kind } => {
                let mut out = "cmp_set.".to_owned();
                out.append(int_cc_name(kind.kind));
                out.append(" ");
                push_reg(&mut out, rd.to_reg());
                out.append(", ");
                push_reg(&mut out, kind.rs1);
                out.append(", ");
                push_reg(&mut out, kind.rs2);
                out
            },
            Inst::Mflr { rd } => {
                let mut out = "mflr ".to_owned();
                push_reg(&mut out, rd.to_reg());
                out
            },
            Inst::Mtlr { rs } => {
                let mut out = "mtlr ".to_owned();
                push_reg(&mut out, *rs);
                out
            },
            Inst::AluRRImm16 { op, rd, ra, imm } => {
                let mut out = alu_imm_mnemonic(*op).to_owned();
                out.append(" ");
                push_reg(&mut out, rd.to_reg());
                out.append(", ");
                push_reg(&mut out, *ra);
                out.append(", ");
                push_alu_imm(&mut out, *op, *imm);
                out
            },
            Inst::Extend { rd, rn, signed, from_bits, to_bits } => {
                let mut out = pick_str(*signed, "sext", "zext").to_owned();
                out.append(".");
                push_u8(&mut out, *from_bits);
                out.append("->");
                push_u8(&mut out, *to_bits);
                out.append(" ");
                push_reg(&mut out, rd.to_reg());
                out.append(", ");
                push_reg(&mut out, *rn);
                out
            },
            Inst::MovFromPReg { rd, rm } => {
                let mut out = "mr ".to_owned();
                push_reg(&mut out, rd.to_reg());
                out.append(", ");
                out.append(pick_str(*rm == 1, "sp", "fp"));
                out
            },
            _ => String::new(),
        }
    }

    fn print_flow(&self) -> (s: String)
        requires
            emit::group(*self) == Group::Flow,
            self matches Inst::BrTable { targets, .. } ==> targets@.len() >= 1,
        ensures
            s@ == text_flow(*self),
    {
        proof {
            reveal(text_flow);
        }
        match self {
            Inst::FpuCondBr { taken, not_taken, kind } => {
                let mut out = "fbr.".to_owned();
                out.append(float_cc_name(kind.kind));
                out.append(" ");
                push_reg(&mut out, kind.rs1);
                out.append(", ");
                push_reg(&mut out, kind.rs2);
                out.append(" # ");
                push_target(&mut out, *taken);
                out.append(", ");
                push_target(&mut out, *not_taken);
                out
            },
            Inst::BrTable { index, targets, .. } => {
                let mut out = "br_table ".to_owned();
                push_reg(&mut out, *index);
                out.append(" # ");
                push_usize(&mut out, targets.len() - 1);
                out.append(" targets");
                out
            },
            Inst::EmitIsland { needed_space } => {
                let mut out = "emit_island ".to_owned();
                push_u32(&mut out, *needed_space);
                out
            },
            Inst::Ret => "blr".to_owned(),
            Inst::Jump { label } => {
                let mut out = "b ".to_owned();
                push_label(&mut out, *label);
                out
            },
            Inst::CondBr { taken, not_taken, kind } => {
                let mut out = "b".to_owned();
                out.append(int_cc_name(kind.kind));
                out.append(width_str(kind.is_64));
                out.append(" ");
                push_reg(&mut out, kind.rs1);
                out.append(", ");
                push_reg(&mut out, kind.rs2);
                out.append(" # ");
                push_target(&mut out, *taken);
                out.append(", ");
                push_target(&mut out, *not_taken);
                out
            },
            Inst::Udf { trap_code } => {
                let mut out = "trap # ".to_owned();
                push_trap(&mut out, *trap_code);
                out
            },
            Inst::TrapIf { kind, trap_code } => {
                let mut out = "trap_if.".to_owned();
                out.append(int_cc_name(kind.kind));
                out.append(" ");
                push_reg(&mut out, kind.rs1);
                out.append(", ");
                push_reg(&mut out, kind.rs2);
                out.append(" # ");
                push_trap(&mut out, *trap_code);
                out
            },
            Inst::Fence => "sync".to_owned(),
            Inst::LoadExtName { rd, name, offset } => {
                let mut out = "load_ext_name ".to_owned();
                push_reg(&mut out, rd.to_reg());
                out.append(", ");
                push_external(&mut out, *name);
                out.append("+");
                push_signed(&mut out, *offset);
                out
            },
            Inst::LabelAddress { rd, label } => {
                let mut out = "label_address ".to_owned();
                push_reg(&mut out, rd.to_reg());
                out.append(", ");
                push_label(&mut out, *label);
                out
            },
            Inst::Unwind { inst } => {
                let mut out = "unwind ".to_owned();
                push_unwind(&mut out, *inst);
                out
            },
            Inst::DummyUse { reg } => {
                let mut out = "dummy_use ".to_owned();
                push_reg(&mut out, *reg);
                out
            },
            Inst::Args { args } => print_args(args),
            Inst::Rets { rets } => print_rets(rets),
            _ => String::new(),
        }
    }

    fn print_float(&self) -> (s: String)
        requires
            emit::group(*self) == Group::Float,
        ensures
            s@ == text_float(*self),
    {
        proof {
            reveal(text_float);
        }
        match self {
            Inst::FpuSelect { rd, kind, rt, rf } => {
                let mut out = "fselect.".to_owned();
                out.append(int_cc_name(kind.kind));
                out.append(" ");
                push_reg(&mut out, rd.to_reg());
                out.append(", ");
                push_reg(&mut out, *rt);
                out.append(", ");
                push_reg(&mut out, *rf);
                out.append(" # cmp ");
                push_reg(&mut out, kind.rs1);
                out.append(", ");
                push_reg(&mut out, kind.rs2);
                out
            },
            Inst::FpuRRR { op, rd, ra, rb, ty } => {
                let mut out = fpu2_name(*op).to_owned();
                out.append(".");
                out.append(ty_name(*ty));
                out.append(" ");
                push_reg(&mut out, rd.to_reg());
                out.append(", ");
                push_reg(&mut out, *ra);
                out.append(", ");
                push_reg(&mut out, *rb);
                out
            },
            Inst::FpuRR { op, rd, rn, ty } => {
                let mut out = fpu1_name(*op).to_owned();
                out.append(".");
                out.append(ty_name(*ty));
                out.append(" ");
                push_reg(&mut out, rd.to_reg());
                out.append(", ");
                push_reg(&mut out, *rn);
                out
            },
            Inst::FpuFma { rd, ra, rc, rb, ty } => {
                let mut out = "fmadd.".to_owned();
                out.append(ty_name(*ty));
                out.append(" ");
                push_reg(&mut out, rd.to_reg());
                out.append(", ");
                push_reg(&mut out, *ra);
                out.append(", ");
                push_reg(&mut out, *rc);
                out.append(", ");
                push_reg(&mut out, *rb);
                out
            },
            Inst::FpuCmpSet { rd, kind } => {
                let mut out = "fcmp_set.".to_owned();
                out.append(float_cc_name(kind.kind));
                out.append(" ");
                push_reg(&mut out, rd.to_reg());
                out.append(", ");
                push_reg(&mut out, kind.rs1);
                out.append(", ");
                push_reg(&mut out, kind.rs2);
                out
            },
            Inst::FpuRound { rd, rn, mode } => {
                let mut out = "fround_".to_owned();
                out.append(round_name(*mode));
                out.append(" ");
                push_reg(&mut out, rd.to_reg());
                out.append(", ");
                push_reg(&mut out, *rn);
                out
            },
            Inst::Bswap { rd, rn, ty } => {
                let mut out = "bswap.".to_owned();
                out.append(ty_name(*ty));
                out.append(" ");
                push_reg(&mut out, rd.to_reg());
                out.append(", ");
                push_reg(&mut out, *rn);
                out
            },
            Inst::MovToFpr { rd, rn } => {
                let mut out = "mtvsrd".to_owned();
                out.append(" ");
                push_reg(&mut out, rd.to_reg());
                out.append(", ");
                push_reg(&mut out, *rn);
                out
            },
            Inst::MovFromFpr { rd, rn } => {
                let mut out = "mfvsrd".to_owned();
                out.append(" ");
                push_reg(&mut out, rd.to_reg());
                out.append(", ");
                push_reg(&mut out, *rn);
                out
            },
            Inst::IntToFpu { rd, rn, signed, ty } => {
                let mut out = pick_str(*signed, "fcfid", "fcfidu").to_owned();
                out.append(".");
                out.append(ty_name(*ty));
                out.append(" ");
                push_reg(&mut out, rd.to_reg());
                out.append(", ");
                push_reg(&mut out, *rn);
                out
            },
            Inst::FpuToInt { rd, rn, signed, sat, out_ty, .. } => {
                let mut out = pick_str(*signed, "fcvt_to_sint", "fcvt_to_uint").to_owned();
                out.append(pick_str(*sat, "_sat", ""));
                out.append(".");
                out.append(ty_name(*out_ty));
                out.append(" ");
                push_reg(&mut out, rd.to_reg());
                out.append(", ");
                push_reg(&mut out, *rn);
                out
            },
            Inst::FpuMinMax { rd, ra, rb, is_max } => {
                let mut out = pick_str(*is_max, "fmax", "fmin").to_owned();
                out.append(" ");
                push_reg(&mut out, rd.to_reg());
                out.append(", ");
                push_reg(&mut out, *ra);
                out.append(", ");
                push_reg(&mut out, *rb);
                out
            },
            _ => String::new(),
        }
    }

    fn print_memory(&self) -> (s: String)
        requires
            emit::group(*self) == Group::Memory,
        ensures
            s@ == text_memory(*self),
    {
        proof {
            reveal(text_memory);
        }
        match self {
            Inst::Load { rd, op, from, .. } => {
                let mut out = load_name(*op).to_owned();
                out.append(" ");
                push_reg(&mut out, rd.to_reg());
                out.append(", ");
                push_amode(&mut out, *from);
                out
            },
            Inst::Store { to, op, src, .. } => {
                let mut out = store_name(*op).to_owned();
                out.append(" ");
                push_reg(&mut out, *src);
                out.append(", ");
                push_amode(&mut out, *to);
                out
            },
            Inst::LoadAddr { rd, mem } => {
                let mut out = "load_addr ".to_owned();
                push_reg(&mut out, rd.to_reg());
                out.append(", ");
                push_amode(&mut out, *mem);
                out
            },
            Inst::VecLoad { rd, from, .. } => {
                let mut out = "vload ".to_owned();
                push_reg(&mut out, rd.to_reg());
                out.append(", ");
                push_amode(&mut out, *from);
                out
            },
            Inst::VecStore { to, rs, .. } => {
                let mut out = "vstore ".to_owned();
                push_reg(&mut out, *rs);
                out.append(", ");
                push_amode(&mut out, *to);
                out
            },
            Inst::VecLoad64 { rd, from, .. } => {
                let mut out = "vload64 ".to_owned();
                push_reg(&mut out, rd.to_reg());
                out.append(", ");
                push_amode(&mut out, *from);
                out
            },
            Inst::VecStore64 { to, rs, .. } => {
                let mut out = "vstore64 ".to_owned();
                push_reg(&mut out, *rs);
                out.append(", ");
                push_amode(&mut out, *to);
                out
            },
            _ => String::new(),
        }
    }

    fn print_call(&self) -> (s: String)
        requires
            emit::group(*self) == Group::Call,
        ensures
            s@ == text_call(*self),
    {
        proof {
            reveal(text_call);
        }
        match self {
            Inst::Call { info } => {
                let mut out = "bl ".to_owned();
                push_external(&mut out, info.dest);
                out
            },
            Inst::CallInd { info } => {
                let mut out = "mtctr ".to_owned();
                push_reg(&mut out, info.dest);
                out.append("; bctrl");
                out
            },
            Inst::ReturnCall { info } => {
                let mut out = "return_call ".to_owned();
                push_external(&mut out, info.dest);
                out
            },
            Inst::ReturnCallInd { info } => {
                let mut out = "return_call_ind ".to_owned();
                push_reg(&mut out, info.dest);
                out
            },
            _ => String::new(),
        }
    }

    fn print_atomic(&self) -> (s: String)
        requires
            emit::group(*self) == Group::Atomic,
        ensures
            s@ == text_atomic(*self),
    {
        proof {
            reveal(text_atomic);
        }
        match self {
            Inst::AtomicLoad { rd, addr, ty } => {
                let mut out = "atomic_load.".to_owned();
                out.append(ty_name(*ty));
                out.append(" ");
                push_reg(&mut out, rd.to_reg());
                out.append(", (");
                push_reg(&mut out, *addr);
                out.append(")");
                out
            },
            Inst::AtomicStore { src, addr, ty } => {
                let mut out = "atomic_store.".to_owned();
                out.append(ty_name(*ty));
                out.append(" ");
                push_reg(&mut out, *src);
                out.append(", (");
                push_reg(&mut out, *addr);
                out.append(")");
                out
            },
            Inst::AtomicRmw { op, rd, addr, src, ty } => {
                let mut out = "atomic_rmw.".to_owned();
                out.append(rmw_name(*op));
                out.append(".");
                out.append(ty_name(*ty));
                out.append(" ");
                push_reg(&mut out, rd.to_reg());
                out.append(", (");
                push_reg(&mut out, *addr);
                out.append("), ");
                push_reg(&mut out, *src);
                out
            },
            Inst::AtomicCas { rd, addr, expected, new, ty } => {
                let mut out = "atomic_cas.".to_owned();
                out.append(ty_name(*ty));
                out.append(" ");
                push_reg(&mut out, rd.to_reg());
                out.append(", (");
                push_reg(&mut out, *addr);
                out.append("), ");
                push_reg(&mut out, *expected);
                out.append(", ");
                push_reg(&mut out, *new);
                out
            },
            Inst::AtomicLoad128 { rd_lo, rd_hi, addr } => {
                let mut out = "atomic_load.i128 ".to_owned();
                push_reg(&mut out, rd_hi.to_reg());
                out.append(":");
                push_reg(&mut out, rd_lo.to_reg());
                out.append(", (");
                push_reg(&mut out, *addr);
                out.append(")");
                out
            },
            Inst::AtomicStore128 { rs_lo, rs_hi, addr, .. } => {
                let mut out = "atomic_store.i128 ".to_owned();
                push_reg(&mut out, *rs_hi);
                out.append(":");
                push_reg(&mut out, *rs_lo);
                out.append(", (");
                push_reg(&mut out, *addr);
                out.append(")");
                out
            },
            Inst::AtomicRmw128 { op, rd_lo, rd_hi, addr, src_lo, src_hi, .. } => {
                let mut out = "atomic_rmw.".to_owned();
                out.append(rmw_name(*op));
                out.append(".i128 ");
                push_reg(&mut out, rd_hi.to_reg());
                out.append(":");
                push_reg(&mut out, rd_lo.to_reg());
                out.append(", (");
                push_reg(&mut out, *addr);
                out.append("), ");
                push_reg(&mut out, *src_hi);
                out.append(":");
                push_reg(&mut out, *src_lo);
                out
            },
            Inst::AtomicCas128 { rd_lo, rd_hi, addr, exp_lo, exp_hi, new_lo, new_hi } => {
                let mut out = "atomic_cas.i128 ".to_owned();
                push_reg(&mut out, rd_hi.to_reg());
                out.append(":");
                push_reg(&mut out, rd_lo.to_reg());
                out.append(", (");
                push_reg(&mut out, *addr);
                out.append("), ");
                push_reg(&mut out, *exp_hi);
                out.append(":");
                push_reg(&mut out, *exp_lo);
                out.append(", ");
                push_reg(&mut out, *new_hi);
                out.append(":");
                push_reg(&mut out, *new_lo);
                out
            },
            _ => String::new(),
        }
    }

    fn print_lane(&self) -> (s: String)
        requires
            emit::group(*self) == Group::Lane,
        ensures
            s@ == text_lane(*self),
    {
        proof {
            reveal(text_lane);
        }
        match self {
            Inst::VecAluRRR { op, rd, ra, rb, ty } => {
                let mut out = vec_alu_name(*op).to_owned();
                out.append(".");
                out.append(ty_name(*ty));
                out.append(" ");
                push_reg(&mut out, rd.to_reg());
                out.append(", ");
                push_reg(&mut out, *ra);
                out.append(", ");
                push_reg(&mut out, *rb);
                out
            },
            Inst::VecExtractLaneInt { rd, rn, ty, lane } => {
                let mut out = "extract_lane.".to_owned();
                out.append(ty_name(*ty));
                out.append(" ");
                push_reg(&mut out, rd.to_reg());
                out.append(", ");
                push_reg(&mut out, *rn);
                out.append(", ");
                push_u8(&mut out, *lane);
                out
            },
            Inst::VecExtractLaneFpu { rd, rn, ty, lane } => {
                let mut out = "extract_lane.".to_owned();
                out.append(ty_name(*ty));
                out.append(" ");
                push_reg(&mut out, rd.to_reg());
                out.append(", ");
                push_reg(&mut out, *rn);
                out.append(", ");
                push_u8(&mut out, *lane);
                out
            },
            Inst::VecInsertLane { rd, rv, rs, ty, lane } => {
                let mut out = "insert_lane.".to_owned();
                out.append(ty_name(*ty));
                out.append(" ");
                push_reg(&mut out, rd.to_reg());
                out.append(", ");
                push_reg(&mut out, *rv);
                out.append(", ");
                push_reg(&mut out, *rs);
                out.append(", ");
                push_u8(&mut out, *lane);
                out
            },
            Inst::VecTestLanes { rd, rn, ty, all } => {
                let mut out = pick_str(*all, "all_true", "any_true").to_owned();
                out.append(".");
                out.append(ty_name(*ty));
                out.append(" ");
                push_reg(&mut out, rd.to_reg());
                out.append(", ");
                push_reg(&mut out, *rn);
                out
            },
            _ => String::new(),
        }
    }

    fn print_vector(&self) -> (s: String)
        requires
            emit::group(*self) == Group::Vector,
        ensures
            s@ == text_vector(*self),
    {
        proof {
            reveal(text_vector);
        }
        match self {
            Inst::VecAluRRRR { op, rd, ra, rb, rc } => {
                let mut out = vec_alu4_name(*op).to_owned();
                out.append(" ");
                push_reg(&mut out, rd.to_reg());
                out.append(", ");
                push_reg(&mut out, *ra);
                out.append(", ");
                push_reg(&mut out, *rb);
                out.append(", ");
                push_reg(&mut out, *rc);
                out
            },
            Inst::VecCvt { op, rd, rn } => {
                let mut out = vec_cvt_name(*op).to_owned();
                out.append(" ");
                push_reg(&mut out, rd.to_reg());
                out.append(", ");
                push_reg(&mut out, *rn);
                out
            },
            Inst::VecSpltImm { rd, imm, ty } => {
                let mut out = "vsplti.".to_owned();
                out.append(ty_name(*ty));
                out.append(" ");
                push_reg(&mut out, rd.to_reg());
                out.append(", ");
                push_i8(&mut out, *imm);
                out
            },
            Inst::VecUnary { op, rd, rn, ty } => {
                let mut out = vec_unary_name(*op).to_owned();
                out.append(".");
                out.append(ty_name(*ty));
                out.append(" ");
                push_reg(&mut out, rd.to_reg());
                out.append(", ");
                push_reg(&mut out, *rn);
                out
            },
            Inst::VecRound { rd, rn, mode, ty } => {
                let mut out = "xvround_".to_owned();
                out.append(round_name(*mode));
                out.append(".");
                out.append(ty_name(*ty));
                out.append(" ");
                push_reg(&mut out, rd.to_reg());
                out.append(", ");
                push_reg(&mut out, *rn);
                out
            },
            Inst::VecSel { rd, if_set, if_clear, mask } => {
                let mut out = "vsel".to_owned();
                out.append(" ");
                push_reg(&mut out, rd.to_reg());
                out.append(", ");
                push_reg(&mut out, *if_set);
                out.append(", ");
                push_reg(&mut out, *if_clear);
                out.append(", ");
                push_reg(&mut out, *mask);
                out
            },
            Inst::VecFpuRRR { op, rd, ra, rb, ty } => {
                let mut out = vec_fpu2_name(*op).to_owned();
                out.append(".");
                out.append(ty_name(*ty));
                out.append(" ");
                push_reg(&mut out, rd.to_reg());
                out.append(", ");
                push_reg(&mut out, *ra);
                out.append(", ");
                push_reg(&mut out, *rb);
                out
            },
            Inst::VecFpuRR { op, rd, rn, ty } => {
                let mut out = vec_fpu1_name(*op).to_owned();
                out.append(".");
                out.append(ty_name(*ty));
                out.append(" ");
                push_reg(&mut out, rd.to_reg());
                out.append(", ");
                push_reg(&mut out, *rn);
                out
            },
            Inst::VecZero { rd } => {
                let mut out = "vzero ".to_owned();
                push_reg(&mut out, rd.to_reg());
                out
            },
            Inst::MovToVec { rd, rn } => {
                let mut out = "mtvsrd".to_owned();
                out.append(" ");
                push_reg(&mut out, rd.to_reg());
                out.append(", ");
                push_reg(&mut out, *rn);
                out
            },
            Inst::VecSplatLane { rd, rn, ty } => {
                let mut out = "splat.".to_owned();
                out.append(ty_name(*ty));
                out.append(" ");
                push_reg(&mut out, rd.to_reg());
                out.append(", ");
                push_reg(&mut out, *rn);
                out
            },
            Inst::VecPermDi { rd, ra, rb, dm } => {
                let mut out = "xxpermdi".to_owned();
                out.append(" ");
                push_reg(&mut out, rd.to_reg());
                out.append(", ");
                push_reg(&mut out, *ra);
                out.append(", ");
                push_reg(&mut out, *rb);
                out.append(", ");
                push_u8(&mut out, *dm);
                out
            },
            Inst::VecSplatFpr { rd, rn, is_f32 } => {
                let mut out = pick_str(*is_f32, "splat.f32", "splat.f64").to_owned();
                out.append(" ");
                push_reg(&mut out, rd.to_reg());
                out.append(", ");
                push_reg(&mut out, *rn);
                out
            },
            _ => String::new(),
        }
    }
}

// Errors and settings.

impl CodegenError {
    /// What the error says.
    pub open spec fn spec_message(self) -> Seq<char> {
        match self {
            CodegenError::UnsupportedType(ty) => "type not yet supported by the ppc64 backend: "@
                + names::spec_ty_name(ty),
            CodegenError::TooManyReturnValues =>
                "Too many return values to fit in registers. Use a StructReturn argument instead. (#9510)"@,
        }
    }

    /// What the error says.
    pub fn message(self) -> (s: String)
        ensures
            s@ == self.spec_message(),
    {
        let mut out = String::new();
        match self {
            CodegenError::UnsupportedType(ty) => {
                out.append("type not yet supported by the ppc64 backend: ");
                out.append(ty_name(ty));
            },
            CodegenError::TooManyReturnValues => out.append(
                "Too many return values to fit in registers. Use a StructReturn argument instead. (#9510)",
            ),
        }
        assert(out@ =~= self.spec_message());
        out
    }
}

/// The line of a flag.
pub open spec fn flag_line(name: Seq<char>, value: bool) -> Seq<char> {
    name + " = "@ + pick(value, "true"@, "false"@) + "\n"@
}

fn push_flag(out: &mut String, name: &str, value: bool)
    ensures
        final(out)@ == old(out)@ + flag_line(name@, value),
{
    out.append(name);
    out.append(" = ");
    out.append(if value {
        "true"
    } else {
        "false"
    });
    out.append("\n");
    assert(out@ =~= old(out)@ + flag_line(name@, value));
}

impl SharedFlags {
    /// The flags under the name of their group, a line for each.
    pub open spec fn spec_text(self) -> Seq<char> {
        "[shared]\n"@ + flag_line(
            "enable_multi_ret_implicit_sret"@,
            self.enable_multi_ret_implicit_sret,
        ) + flag_line("unwind_info"@, self.unwind_info) + flag_line(
            "preserve_frame_pointers"@,
            self.preserve_frame_pointers,
        )
    }

    /// The flags under the name of their group, a line for each.
    pub fn text(&self) -> (s: String)
        ensures
            s@ == self.spec_text(),
    {
        let mut out = String::new();
        out.append("[shared]\n");
        push_flag(&mut out, "enable_multi_ret_implicit_sret", self.enable_multi_ret_implicit_sret);
        push_flag(&mut out, "unwind_info", self.unwind_info);
        push_flag(&mut out, "preserve_frame_pointers", self.preserve_frame_pointers);
        assert(out@ =~= self.spec_text());
        out
    }
}

} // verus!
