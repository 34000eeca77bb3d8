//! The operands of instructions, as the register allocator sees them.
use vstd::prelude::*;
use crate::args::AMode;
use crate::emit;
use crate::emit::Group;
use crate::inst::{
    ArgPair, CallArgPair, CallInfo, CallRetPair, Inst, RetLocation, RetPair, TryCallInfo,
};
use crate::regs;
use crate::regs::{call_target_reg, gpr, Reg, RegClass};

verus! {

/// One operand.
#[derive(Clone, Copy, Debug)]
pub enum Operand {
    /// A register that is read.
    Use(Reg),
    /// A register that is written after every read.
    Def(Reg),
    /// A register that may be written before a read, and so must not be one
    /// that is read.
    EarlyDef(Reg),
    /// A register that is read, in a given physical register.
    FixedUse(Reg, Reg),
    /// A register that is written, in a given physical register.
    FixedDef(Reg, Reg),
    /// A value that is written wherever the allocator likes.
    AnyDef(Reg),
    /// Physical registers that lose what they hold.
    Clobbers(regalloc2::PRegSet),
}

/// The operands seen so far.
#[derive(Debug)]
pub struct OperandCollector {
    operands: Vec<Operand>,
}

impl View for OperandCollector {
    type V = Seq<Operand>;

    closed spec fn view(&self) -> Seq<Operand> {
        self.operands@
    }
}

impl OperandCollector {
    /// No operands yet.
    pub fn new() -> (c: OperandCollector)
        ensures
            c@ == Seq::<Operand>::empty(),
    {
        OperandCollector { operands: Vec::new() }
    }

    /// The operands seen so far.
    pub fn operands(&self) -> (v: &Vec<Operand>)
        ensures
            v@ == self@,
    {
        &self.operands
    }

    /// See a register that is read.
    pub fn reg_use(&mut self, reg: Reg)
        ensures
            final(self)@ == old(self)@.push(Operand::Use(reg)),
    {
        self.operands.push(Operand::Use(reg));
    }

    /// See a register that is written.
    pub fn reg_def(&mut self, reg: Reg)
        ensures
            final(self)@ == old(self)@.push(Operand::Def(reg)),
    {
        self.operands.push(Operand::Def(reg));
    }

    /// See a register that is written early.
    pub fn reg_early_def(&mut self, reg: Reg)
        ensures
            final(self)@ == old(self)@.push(Operand::EarlyDef(reg)),
    {
        self.operands.push(Operand::EarlyDef(reg));
    }

    /// See a register that is read in a given physical register.
    pub fn reg_fixed_use(&mut self, reg: Reg, preg: Reg)
        ensures
            final(self)@ == old(self)@.push(Operand::FixedUse(reg, preg)),
    {
        self.operands.push(Operand::FixedUse(reg, preg));
    }

    /// See a register that is written in a given physical register.
    pub fn reg_fixed_def(&mut self, reg: Reg, preg: Reg)
        ensures
            final(self)@ == old(self)@.push(Operand::FixedDef(reg, preg)),
    {
        self.operands.push(Operand::FixedDef(reg, preg));
    }

    /// See a value that is written anywhere.
    pub fn any_def(&mut self, reg: Reg)
        ensures
            final(self)@ == old(self)@.push(Operand::AnyDef(reg)),
    {
        self.operands.push(Operand::AnyDef(reg));
    }

    /// See registers that are clobbered.
    pub fn reg_clobbers(&mut self, regs: regalloc2::PRegSet)
        ensures
            final(self)@ == old(self)@.push(Operand::Clobbers(regs)),
    {
        self.operands.push(Operand::Clobbers(regs));
    }
}

/// The operands of an addressing mode: its base, unless that is a register which
/// is never allocated.
pub open spec fn amode_operands(mem: AMode) -> Seq<Operand> {
    match mem {
        AMode::RegOffset(reg, _) => seq![Operand::Use(reg)],
        _ => seq![],
    }
}

impl AMode {
    /// Add the registers that the mode refers to.
    pub fn get_operands(&self, collector: &mut OperandCollector)
        ensures
            final(collector)@ == old(collector)@ + amode_operands(*self),
    {
        match self {
            AMode::RegOffset(reg, ..) => collector.reg_use(*reg),
            // Registers used in these modes are not allocatable.
            AMode::SPOffset(..) | AMode::FPOffset(..) | AMode::SlotOffset(..)
            | AMode::IncomingArg(..) => {},
        }
        assert(collector@ =~= old(collector)@ + amode_operands(*self));
    }
}

/// The operands of arguments: each arrives in its register.
pub open spec fn arg_operands(args: Seq<ArgPair>) -> Seq<Operand> {
    args.map_values(|a: ArgPair| Operand::FixedDef(a.vreg.reg, a.preg))
}

fn collect_args(collector: &mut OperandCollector, args: &Vec<ArgPair>)
    ensures
        final(collector)@ == old(collector)@ + arg_operands(args@),
{
    let mut i: usize = 0;
    while i < args.len()
        invariant
            i <= args@.len(),
            collector@ =~= old(collector)@ + arg_operands(args@.take(i as int)),
        decreases args@.len() - i,
    {
        collector.reg_fixed_def(args[i].vreg.to_reg(), args[i].preg);
        i = i + 1;
    }
    assert(args@.take(i as int) =~= args@);
}

/// The operands of return values: each leaves in its register.
pub open spec fn ret_operands(rets: Seq<RetPair>) -> Seq<Operand> {
    rets.map_values(|r: RetPair| Operand::FixedUse(r.vreg, r.preg))
}

fn collect_rets(collector: &mut OperandCollector, rets: &Vec<RetPair>)
    ensures
        final(collector)@ == old(collector)@ + ret_operands(rets@),
{
    let mut i: usize = 0;
    while i < rets.len()
        invariant
            i <= rets@.len(),
            collector@ =~= old(collector)@ + ret_operands(rets@.take(i as int)),
        decreases rets@.len() - i,
    {
        collector.reg_fixed_use(rets[i].vreg, rets[i].preg);
        i = i + 1;
    }
    assert(rets@.take(i as int) =~= rets@);
}

/// The operands of the arguments of a call: each goes in its register.
pub open spec fn use_operands(uses: Seq<CallArgPair>) -> Seq<Operand> {
    uses.map_values(|u: CallArgPair| Operand::FixedUse(u.vreg, u.preg))
}

fn collect_uses(collector: &mut OperandCollector, uses: &Vec<CallArgPair>)
    ensures
        final(collector)@ == old(collector)@ + use_operands(uses@),
{
    let mut i: usize = 0;
    while i < uses.len()
        invariant
            i <= uses@.len(),
            collector@ =~= old(collector)@ + use_operands(uses@.take(i as int)),
        decreases uses@.len() - i,
    {
        collector.reg_fixed_use(uses[i].vreg, uses[i].preg);
        i = i + 1;
    }
    assert(uses@.take(i as int) =~= uses@);
}

/// The operand of a result of a call: in its register, or wherever the value
/// that is loaded from the stack goes.
pub open spec fn def_operand(d: CallRetPair) -> Operand {
    match d.location {
        RetLocation::Reg(preg, _) => Operand::FixedDef(d.vreg.reg, preg),
        RetLocation::Stack(_, _) => Operand::AnyDef(d.vreg.reg),
    }
}

/// The operands of the results of a call.
pub open spec fn def_operands(defs: Seq<CallRetPair>) -> Seq<Operand> {
    defs.map_values(|d: CallRetPair| def_operand(d))
}

fn collect_defs(collector: &mut OperandCollector, defs: &Vec<CallRetPair>)
    ensures
        final(collector)@ == old(collector)@ + def_operands(defs@),
{
    let mut i: usize = 0;
    while i < defs.len()
        invariant
            i <= defs@.len(),
            collector@ =~= old(collector)@ + def_operands(defs@.take(i as int)),
        decreases defs@.len() - i,
    {
        match defs[i].location {
            RetLocation::Reg(preg, ..) => {
                collector.reg_fixed_def(defs[i].vreg.to_reg(), preg);
            },
            RetLocation::Stack(..) => collector.any_def(defs[i].vreg.to_reg()),
        }
        i = i + 1;
    }
    assert(defs@.take(i as int) =~= defs@);
}

/// The operands that exception handlers need of a call.
pub open spec fn try_operands(info: Option<TryCallInfo>) -> Seq<Operand> {
    match info {
        Some(t) => t.operands@,
        None => seq![],
    }
}

fn collect_try(collector: &mut OperandCollector, info: &Option<TryCallInfo>)
    ensures
        final(collector)@ == old(collector)@ + try_operands(*info),
{
    if let Some(t) = info {
        let mut i: usize = 0;
        while i < t.operands.len()
            invariant
                i <= t.operands@.len(),
                collector@ =~= old(collector)@ + t.operands@.take(i as int),
            decreases t.operands@.len() - i,
        {
            collector.operands.push(t.operands[i]);
            i = i + 1;
        }
        assert(t.operands@.take(i as int) =~= t.operands@);
    } else {
        assert(old(collector)@ + try_operands(*info) =~= old(collector)@);
    }
}

/// The operands of a call: arguments, results, clobbers, and what its exception
/// handlers need.
pub open spec fn call_operands<T>(info: CallInfo<T>) -> Seq<Operand> {
    use_operands(info.uses@) + def_operands(info.defs@) + seq![Operand::Clobbers(info.clobbers)]
        + try_operands(info.try_call_info)
}

fn collect_call<T>(collector: &mut OperandCollector, info: &CallInfo<T>)
    ensures
        final(collector)@ == old(collector)@ + call_operands(*info),
{
    collect_uses(collector, &info.uses);
    collect_defs(collector, &info.defs);
    collector.reg_clobbers(info.clobbers);
    collect_try(collector, &info.try_call_info);
    assert(collector@ =~= old(collector)@ + call_operands(*info));
}

// Instructions.

/// The operands of an instruction of fixed-point arithmetic, moves and special registers.
#[verifier::opaque]
pub open spec fn operands_int(inst: Inst) -> Seq<Operand> {
    match inst {
        Inst::LoadConst64 { rd, .. } => seq![Operand::Def(rd.reg)],
        Inst::AluRRR { ra, rb, rd, .. } => seq![
            Operand::Use(ra),
            Operand::Use(rb),
            Operand::Def(rd.reg),
        ],
        Inst::AluRRImm16 { ra, rd, .. } => seq![Operand::Use(ra), Operand::Def(rd.reg)],
        Inst::UnaryRR { rn, rd, .. } => seq![Operand::Use(rn), Operand::Def(rd.reg)],
        Inst::ShiftRRImm { ra, rd, .. } => seq![Operand::Use(ra), Operand::Def(rd.reg)],
        Inst::ShiftRRR { ra, rb, rd, .. } => seq![
            Operand::Use(ra),
            Operand::Use(rb),
            Operand::Def(rd.reg),
        ],
        Inst::BitCount { rn, rd, .. } => seq![Operand::Use(rn), Operand::Def(rd.reg)],
        Inst::DivRem { ra, rb, rd, .. } => seq![
            Operand::Use(ra),
            Operand::Use(rb),
            Operand::EarlyDef(rd.reg),
        ],
        Inst::Select { kind, rt, rf, rd, .. } => seq![
            Operand::Use(kind.rs1),
            Operand::Use(kind.rs2),
            Operand::Use(rt),
            Operand::Use(rf),
            Operand::Def(rd.reg),
        ],
        Inst::Extend { rn, rd, .. } => seq![Operand::Use(rn), Operand::Def(rd.reg)],
        Inst::Mov { rm, rd, .. } => seq![Operand::Use(rm), Operand::Def(rd.reg)],
        Inst::CmpSet { kind, rd, .. } => seq![
            Operand::Use(kind.rs1),
            Operand::Use(kind.rs2),
            Operand::Def(rd.reg),
        ],
        Inst::MovFromPReg { rd, .. } => seq![Operand::Def(rd.reg)],
        Inst::Mflr { rd, .. } => seq![Operand::Def(rd.reg)],
        Inst::Mtlr { rs, .. } => seq![Operand::Use(rs)],
        _ => seq![],
    }
}

/// The operands of an instruction of control flow and what has no code of its own.
#[verifier::opaque]
pub open spec fn operands_flow(inst: Inst) -> Seq<Operand> {
    match inst {
        Inst::FpuCondBr { kind, .. } => seq![Operand::Use(kind.rs1), Operand::Use(kind.rs2)],
        Inst::BrTable { index, tmp1, tmp2, .. } => seq![
            Operand::Use(index),
            Operand::EarlyDef(tmp1.reg),
            Operand::EarlyDef(tmp2.reg),
        ],
        Inst::CondBr { kind, .. } => seq![Operand::Use(kind.rs1), Operand::Use(kind.rs2)],
        Inst::TrapIf { kind, .. } => seq![Operand::Use(kind.rs1), Operand::Use(kind.rs2)],
        Inst::LoadExtName { rd, .. } => seq![Operand::Def(rd.reg)],
        Inst::LabelAddress { rd, .. } => seq![Operand::Def(rd.reg)],
        Inst::DummyUse { reg, .. } => seq![Operand::Use(reg)],
        Inst::Args { args } => arg_operands(args@),
        Inst::Rets { rets } => ret_operands(rets@),
        _ => seq![],
    }
}

/// The operands of an instruction of scalar floating point.
#[verifier::opaque]
pub open spec fn operands_float(inst: Inst) -> Seq<Operand> {
    match inst {
        Inst::FpuRRR { ra, rb, rd, .. } => seq![
            Operand::Use(ra),
            Operand::Use(rb),
            Operand::Def(rd.reg),
        ],
        Inst::FpuRR { rn, rd, .. } => seq![Operand::Use(rn), Operand::Def(rd.reg)],
        Inst::FpuFma { ra, rc, rb, rd, .. } => seq![
            Operand::Use(ra),
            Operand::Use(rc),
            Operand::Use(rb),
            Operand::Def(rd.reg),
        ],
        Inst::FpuCmpSet { kind, rd, .. } => seq![
            Operand::Use(kind.rs1),
            Operand::Use(kind.rs2),
            Operand::Def(rd.reg),
        ],
        Inst::IntToFpu { rn, rd, .. } => seq![Operand::Use(rn), Operand::Def(rd.reg)],
        Inst::FpuSelect { kind, rt, rf, rd, .. } => seq![
            Operand::Use(kind.rs1),
            Operand::Use(kind.rs2),
            Operand::Use(rt),
            Operand::Use(rf),
            Operand::Def(rd.reg),
        ],
        Inst::FpuToInt { rn, rd, tmp, .. } => seq![
            Operand::Use(rn),
            Operand::EarlyDef(rd.reg),
            Operand::EarlyDef(tmp.reg),
        ],
        Inst::FpuMinMax { ra, rb, rd, .. } => seq![
            Operand::Use(ra),
            Operand::Use(rb),
            Operand::EarlyDef(rd.reg),
        ],
        Inst::FpuRound { rn, rd, .. } => seq![Operand::Use(rn), Operand::Def(rd.reg)],
        Inst::Bswap { rn, rd, .. } => seq![Operand::Use(rn), Operand::Def(rd.reg)],
        Inst::MovToFpr { rn, rd, .. } => seq![Operand::Use(rn), Operand::Def(rd.reg)],
        Inst::MovFromFpr { rn, rd, .. } => seq![Operand::Use(rn), Operand::Def(rd.reg)],
        _ => seq![],
    }
}

/// The operands of an instruction of loads, stores and addresses.
#[verifier::opaque]
pub open spec fn operands_memory(inst: Inst) -> Seq<Operand> {
    match inst {
        Inst::Load { from, rd, .. } => amode_operands(from) + seq![Operand::Def(rd.reg)],
        Inst::Store { to, src, .. } => amode_operands(to) + seq![Operand::Use(src)],
        Inst::LoadAddr { mem, rd, .. } => amode_operands(mem) + seq![Operand::EarlyDef(rd.reg)],
        Inst::VecLoad { from, rd, .. } => amode_operands(from) + seq![Operand::Def(rd.reg)],
        Inst::VecStore { to, rs, .. } => amode_operands(to) + seq![Operand::Use(rs)],
        Inst::VecLoad64 { from, rd, .. } => amode_operands(from) + seq![Operand::Def(rd.reg)],
        Inst::VecStore64 { to, rs, .. } => amode_operands(to) + seq![Operand::Use(rs)],
        _ => seq![],
    }
}

/// The operands of an instruction of calls.
#[verifier::opaque]
pub open spec fn operands_call(inst: Inst) -> Seq<Operand> {
    match inst {
        Inst::Call { info } => call_operands(*info),
        Inst::CallInd { info } => seq![
            Operand::FixedUse(info.dest, regs::real_reg(12, RegClass::Int)),
        ] + call_operands(*info),
        Inst::ReturnCall { info } => use_operands(info.uses@),
        Inst::ReturnCallInd { info } => seq![
            Operand::FixedUse(info.dest, regs::real_reg(12, RegClass::Int)),
        ] + use_operands(info.uses@),
        _ => seq![],
    }
}

/// The operands of an instruction of atomic accesses.
#[verifier::opaque]
pub open spec fn operands_atomic(inst: Inst) -> Seq<Operand> {
    match inst {
        Inst::AtomicLoad { addr, rd, .. } => seq![Operand::Use(addr), Operand::Def(rd.reg)],
        Inst::AtomicStore { addr, src, .. } => seq![Operand::Use(addr), Operand::Use(src)],
        Inst::AtomicRmw { addr, src, rd, .. } => seq![
            Operand::Use(addr),
            Operand::Use(src),
            Operand::EarlyDef(rd.reg),
        ],
        Inst::AtomicCas { addr, expected, new, rd, .. } => seq![
            Operand::Use(addr),
            Operand::Use(expected),
            Operand::Use(new),
            Operand::EarlyDef(rd.reg),
        ],
        Inst::AtomicLoad128 { addr, rd_hi, rd_lo, .. } => seq![
            Operand::FixedUse(addr, regs::real_reg(3, RegClass::Int)),
            Operand::FixedDef(rd_hi.reg, regs::real_reg(8, RegClass::Int)),
            Operand::FixedDef(rd_lo.reg, regs::real_reg(9, RegClass::Int)),
        ],
        Inst::AtomicStore128 { addr, rs_hi, rs_lo, tmp_hi, tmp_lo, .. } => seq![
            Operand::FixedUse(addr, regs::real_reg(3, RegClass::Int)),
            Operand::FixedUse(rs_hi, regs::real_reg(4, RegClass::Int)),
            Operand::FixedUse(rs_lo, regs::real_reg(5, RegClass::Int)),
            Operand::FixedDef(tmp_hi.reg, regs::real_reg(8, RegClass::Int)),
            Operand::FixedDef(tmp_lo.reg, regs::real_reg(9, RegClass::Int)),
        ],
        Inst::AtomicRmw128 { addr, src_hi, src_lo, rd_hi, rd_lo, tmp_hi, .. } => seq![
            Operand::FixedUse(addr, regs::real_reg(3, RegClass::Int)),
            Operand::FixedUse(src_hi, regs::real_reg(4, RegClass::Int)),
            Operand::FixedUse(src_lo, regs::real_reg(5, RegClass::Int)),
            Operand::FixedDef(rd_hi.reg, regs::real_reg(8, RegClass::Int)),
            Operand::FixedDef(rd_lo.reg, regs::real_reg(9, RegClass::Int)),
            Operand::FixedDef(tmp_hi.reg, regs::real_reg(10, RegClass::Int)),
        ],
        Inst::AtomicCas128 { addr, exp_hi, exp_lo, new_hi, new_lo, rd_hi, rd_lo, .. } => seq![
            Operand::FixedUse(addr, regs::real_reg(3, RegClass::Int)),
            Operand::FixedUse(exp_hi, regs::real_reg(4, RegClass::Int)),
            Operand::FixedUse(exp_lo, regs::real_reg(5, RegClass::Int)),
            Operand::FixedUse(new_hi, regs::real_reg(6, RegClass::Int)),
            Operand::FixedUse(new_lo, regs::real_reg(7, RegClass::Int)),
            Operand::FixedDef(rd_hi.reg, regs::real_reg(8, RegClass::Int)),
            Operand::FixedDef(rd_lo.reg, regs::real_reg(9, RegClass::Int)),
        ],
        _ => seq![],
    }
}

/// The operands of an instruction of vectors lane by lane.
#[verifier::opaque]
pub open spec fn operands_lane(inst: Inst) -> Seq<Operand> {
    match inst {
        Inst::VecAluRRR { ra, rb, rd, .. } => seq![
            Operand::Use(ra),
            Operand::Use(rb),
            Operand::Def(rd.reg),
        ],
        Inst::VecExtractLaneInt { rn, rd, .. } => seq![Operand::Use(rn), Operand::Def(rd.reg)],
        Inst::VecExtractLaneFpu { rn, rd, .. } => seq![Operand::Use(rn), Operand::Def(rd.reg)],
        Inst::VecInsertLane { rv, rs, rd, .. } => seq![
            Operand::Use(rv),
            Operand::Use(rs),
            Operand::Def(rd.reg),
        ],
        Inst::VecTestLanes { rn, rd, .. } => seq![Operand::Use(rn), Operand::Def(rd.reg)],
        _ => seq![],
    }
}

/// The operands of an instruction of whole vectors.
#[verifier::opaque]
pub open spec fn operands_vector(inst: Inst) -> Seq<Operand> {
    match inst {
        Inst::VecAluRRRR { ra, rb, rc, rd, .. } => seq![
            Operand::Use(ra),
            Operand::Use(rb),
            Operand::Use(rc),
            Operand::Def(rd.reg),
        ],
        Inst::VecCvt { rn, rd, .. } => seq![Operand::Use(rn), Operand::Def(rd.reg)],
        Inst::VecSpltImm { rd, .. } => seq![Operand::Def(rd.reg)],
        Inst::VecUnary { rn, rd, .. } => seq![Operand::Use(rn), Operand::Def(rd.reg)],
        Inst::VecRound { rn, rd, .. } => seq![Operand::Use(rn), Operand::Def(rd.reg)],
        Inst::VecSel { if_set, if_clear, mask, rd, .. } => seq![
            Operand::Use(if_set),
            Operand::Use(if_clear),
            Operand::Use(mask),
            Operand::Def(rd.reg),
        ],
        Inst::VecFpuRRR { ra, rb, rd, .. } => seq![
            Operand::Use(ra),
            Operand::Use(rb),
            Operand::Def(rd.reg),
        ],
        Inst::VecFpuRR { rn, rd, .. } => seq![Operand::Use(rn), Operand::Def(rd.reg)],
        Inst::VecZero { rd, .. } => seq![Operand::Def(rd.reg)],
        Inst::MovToVec { rn, rd, .. } => seq![Operand::Use(rn), Operand::Def(rd.reg)],
        Inst::VecSplatLane { rn, rd, .. } => seq![Operand::Use(rn), Operand::Def(rd.reg)],
        Inst::VecSplatFpr { rn, rd, .. } => seq![Operand::Use(rn), Operand::Def(rd.reg)],
        Inst::VecPermDi { ra, rb, rd, .. } => seq![
            Operand::Use(ra),
            Operand::Use(rb),
            Operand::Def(rd.reg),
        ],
        _ => seq![],
    }
}

/// The operands of an instruction, in the order in which they are visited.
pub open spec fn operands(inst: Inst) -> Seq<Operand> {
    match emit::group(inst) {
        Group::Int => operands_int(inst),
        Group::Flow => operands_flow(inst),
        Group::Float => operands_float(inst),
        Group::Memory => operands_memory(inst),
        Group::Call => operands_call(inst),
        Group::Atomic => operands_atomic(inst),
        Group::Lane => operands_lane(inst),
        Group::Vector => operands_vector(inst),
    }
}

/// Add the operands of an instruction to `collector`.
pub fn ppc64_get_operands(inst: &Inst, collector: &mut OperandCollector)
    ensures
        final(collector)@ == old(collector)@ + operands(*inst),
{
    match inst.group() {
        Group::Int => inst.collect_int(collector),
        Group::Flow => inst.collect_flow(collector),
        Group::Float => inst.collect_float(collector),
        Group::Memory => inst.collect_memory(collector),
        Group::Call => inst.collect_call(collector),
        Group::Atomic => inst.collect_atomic(collector),
        Group::Lane => inst.collect_lane(collector),
        Group::Vector => inst.collect_vector(collector),
    }
}

impl Inst {
    /// Add the operands of the instruction to `collector`.
    pub fn get_operands(&self, collector: &mut OperandCollector)
        ensures
            final(collector)@ == old(collector)@ + operands(*self),
    {
        ppc64_get_operands(self, collector);
    }

    fn collect_int(&self, collector: &mut OperandCollector)
        requires
            emit::group(*self) == Group::Int,
        ensures
            final(collector)@ == old(collector)@ + operands_int(*self),
    {
        proof {
            reveal(operands_int);
        }
        match self {
            Inst::LoadConst64 { rd, .. } => {
                collector.reg_def(rd.to_reg());
            },
            Inst::AluRRR { ra, rb, rd, .. } => {
                collector.reg_use(*ra);
                collector.reg_use(*rb);
                collector.reg_def(rd.to_reg());
            },
            Inst::AluRRImm16 { ra, rd, .. } => {
                collector.reg_use(*ra);
                collector.reg_def(rd.to_reg());
            },
            Inst::UnaryRR { rn, rd, .. } => {
                collector.reg_use(*rn);
                collector.reg_def(rd.to_reg());
            },
            Inst::ShiftRRImm { ra, rd, .. } => {
                collector.reg_use(*ra);
                collector.reg_def(rd.to_reg());
            },
            Inst::ShiftRRR { ra, rb, rd, .. } => {
                collector.reg_use(*ra);
                collector.reg_use(*rb);
                collector.reg_def(rd.to_reg());
            },
            Inst::BitCount { rn, rd, .. } => {
                collector.reg_use(*rn);
                collector.reg_def(rd.to_reg());
            },
            Inst::DivRem { ra, rb, rd, .. } => {
                collector.reg_use(*ra);
                collector.reg_use(*rb);
                collector.reg_early_def(rd.to_reg());
            },
            Inst::Select { kind, rt, rf, rd, .. } => {
                collector.reg_use(kind.rs1);
                collector.reg_use(kind.rs2);
                collector.reg_use(*rt);
                collector.reg_use(*rf);
                collector.reg_def(rd.to_reg());
            },
            Inst::Extend { rn, rd, .. } => {
                collector.reg_use(*rn);
                collector.reg_def(rd.to_reg());
            },
            Inst::Mov { rm, rd, .. } => {
                collector.reg_use(*rm);
                collector.reg_def(rd.to_reg());
            },
            Inst::CmpSet { kind, rd, .. } => {
                collector.reg_use(kind.rs1);
                collector.reg_use(kind.rs2);
                collector.reg_def(rd.to_reg());
            },
            Inst::MovFromPReg { rd, .. } => {
                collector.reg_def(rd.to_reg());
            },
            Inst::Mflr { rd, .. } => {
                collector.reg_def(rd.to_reg());
            },
            Inst::Mtlr { rs, .. } => {
                collector.reg_use(*rs);
            },
            _ => {},
        }
        assert(collector@ =~= old(collector)@ + operands_int(*self));
    }

    fn collect_flow(&self, collector: &mut OperandCollector)
        requires
            emit::group(*self) == Group::Flow,
        ensures
            final(collector)@ == old(collector)@ + operands_flow(*self),
    {
        proof {
            reveal(operands_flow);
        }
        match self {
            Inst::FpuCondBr { kind, .. } => {
                collector.reg_use(kind.rs1);
                collector.reg_use(kind.rs2);
            },
            Inst::BrTable { index, tmp1, tmp2, .. } => {
                collector.reg_use(*index);
                collector.reg_early_def(tmp1.to_reg());
                collector.reg_early_def(tmp2.to_reg());
            },
            Inst::CondBr { kind, .. } => {
                collector.reg_use(kind.rs1);
                collector.reg_use(kind.rs2);
            },
            Inst::TrapIf { kind, .. } => {
                collector.reg_use(kind.rs1);
                collector.reg_use(kind.rs2);
            },
            Inst::LoadExtName { rd, .. } => {
                collector.reg_def(rd.to_reg());
            },
            Inst::LabelAddress { rd, .. } => {
                collector.reg_def(rd.to_reg());
            },
            Inst::DummyUse { reg, .. } => {
                collector.reg_use(*reg);
            },
            Inst::Args { args } => collect_args(collector, args),
            Inst::Rets { rets } => collect_rets(collector, rets),
            _ => {},
        }
        assert(collector@ =~= old(collector)@ + operands_flow(*self));
    }

    fn collect_float(&self, collector: &mut OperandCollector)
        requires
            emit::group(*self) == Group::Float,
        ensures
            final(collector)@ == old(collector)@ + operands_float(*self),
    {
        proof {
            reveal(operands_float);
        }
        match self {
            Inst::FpuRRR { ra, rb, rd, .. } => {
                collector.reg_use(*ra);
                collector.reg_use(*rb);
                collector.reg_def(rd.to_reg());
            },
            Inst::FpuRR { rn, rd, .. } => {
                collector.reg_use(*rn);
                collector.reg_def(rd.to_reg());
            },
            Inst::FpuFma { ra, rc, rb, rd, .. } => {
                collector.reg_use(*ra);
                collector.reg_use(*rc);
                collector.reg_use(*rb);
                collector.reg_def(rd.to_reg());
            },
            Inst::FpuCmpSet { kind, rd, .. } => {
                collector.reg_use(kind.rs1);
                collector.reg_use(kind.rs2);
                collector.reg_def(rd.to_reg());
            },
            Inst::IntToFpu { rn, rd, .. } => {
                collector.reg_use(*rn);
                collector.reg_def(rd.to_reg());
            },
            Inst::FpuSelect { kind, rt, rf, rd, .. } => {
                collector.reg_use(kind.rs1);
                collector.reg_use(kind.rs2);
                collector.reg_use(*rt);
                collector.reg_use(*rf);
                collector.reg_def(rd.to_reg());
            },
            Inst::FpuToInt { rn, rd, tmp, .. } => {
                collector.reg_use(*rn);
                collector.reg_early_def(rd.to_reg());
                collector.reg_early_def(tmp.to_reg());
            },
            Inst::FpuMinMax { ra, rb, rd, .. } => {
                collector.reg_use(*ra);
                collector.reg_use(*rb);
                collector.reg_early_def(rd.to_reg());
            },
            Inst::FpuRound { rn, rd, .. } => {
                collector.reg_use(*rn);
                collector.reg_def(rd.to_reg());
            },
            Inst::Bswap { rn, rd, .. } => {
                collector.reg_use(*rn);
                collector.reg_def(rd.to_reg());
            },
            Inst::MovToFpr { rn, rd, .. } => {
                collector.reg_use(*rn);
                collector.reg_def(rd.to_reg());
            },
            Inst::MovFromFpr { rn, rd, .. } => {
                collector.reg_use(*rn);
                collector.reg_def(rd.to_reg());
            },
            _ => {},
        }
        assert(collector@ =~= old(collector)@ + operands_float(*self));
    }

    fn collect_memory(&self, collector: &mut OperandCollector)
        requires
            emit::group(*self) == Group::Memory,
        ensures
            final(collector)@ == old(collector)@ + operands_memory(*self),
    {
        proof {
            reveal(operands_memory);
        }
        match self {
            Inst::Load { from, rd, .. } => {
                from.get_operands(collector);
                collector.reg_def(rd.to_reg());
            },
            Inst::Store { to, src, .. } => {
                to.get_operands(collector);
                collector.reg_use(*src);
            },
            Inst::LoadAddr { mem, rd, .. } => {
                mem.get_operands(collector);
                collector.reg_early_def(rd.to_reg());
            },
            Inst::VecLoad { from, rd, .. } => {
                from.get_operands(collector);
                collector.reg_def(rd.to_reg());
            },
            Inst::VecStore { to, rs, .. } => {
                to.get_operands(collector);
                collector.reg_use(*rs);
            },
            Inst::VecLoad64 { from, rd, .. } => {
                from.get_operands(collector);
                collector.reg_def(rd.to_reg());
            },
            Inst::VecStore64 { to, rs, .. } => {
                to.get_operands(collector);
                collector.reg_use(*rs);
            },
            _ => {},
        }
        assert(collector@ =~= old(collector)@ + operands_memory(*self));
    }

    fn collect_call(&self, collector: &mut OperandCollector)
        requires
            emit::group(*self) == Group::Call,
        ensures
            final(collector)@ == old(collector)@ + operands_call(*self),
    {
        proof {
            reveal(operands_call);
        }
        match self {
            Inst::Call { info } => collect_call(collector, info),
            Inst::CallInd { info } => {
                // The ELFv2 global-entry convention wants the callee's address
                // in r12 at an indirect call.
                collector.reg_fixed_use(info.dest, call_target_reg());
                collect_call(collector, info);
            },
            Inst::ReturnCall { info } => collect_uses(collector, &info.uses),
            Inst::ReturnCallInd { info } => {
                collector.reg_fixed_use(info.dest, call_target_reg());
                collect_uses(collector, &info.uses);
            },
            _ => {},
        }
        assert(collector@ =~= old(collector)@ + operands_call(*self));
    }

    fn collect_atomic(&self, collector: &mut OperandCollector)
        requires
            emit::group(*self) == Group::Atomic,
        ensures
            final(collector)@ == old(collector)@ + operands_atomic(*self),
    {
        proof {
            reveal(operands_atomic);
        }
        match self {
            Inst::AtomicLoad { addr, rd, .. } => {
                collector.reg_use(*addr);
                collector.reg_def(rd.to_reg());
            },
            Inst::AtomicStore { addr, src, .. } => {
                collector.reg_use(*addr);
                collector.reg_use(*src);
            },
            Inst::AtomicRmw { addr, src, rd, .. } => {
                collector.reg_use(*addr);
                collector.reg_use(*src);
                collector.reg_early_def(rd.to_reg());
            },
            Inst::AtomicCas { addr, expected, new, rd, .. } => {
                collector.reg_use(*addr);
                collector.reg_use(*expected);
                collector.reg_use(*new);
                collector.reg_early_def(rd.to_reg());
            },
            Inst::AtomicLoad128 { addr, rd_hi, rd_lo, .. } => {
                collector.reg_fixed_use(*addr, gpr(3));
                collector.reg_fixed_def(rd_hi.to_reg(), gpr(8));
                collector.reg_fixed_def(rd_lo.to_reg(), gpr(9));
            },
            Inst::AtomicStore128 { addr, rs_hi, rs_lo, tmp_hi, tmp_lo, .. } => {
                collector.reg_fixed_use(*addr, gpr(3));
                collector.reg_fixed_use(*rs_hi, gpr(4));
                collector.reg_fixed_use(*rs_lo, gpr(5));
                collector.reg_fixed_def(tmp_hi.to_reg(), gpr(8));
                collector.reg_fixed_def(tmp_lo.to_reg(), gpr(9));
            },
            Inst::AtomicRmw128 { addr, src_hi, src_lo, rd_hi, rd_lo, tmp_hi, .. } => {
                collector.reg_fixed_use(*addr, gpr(3));
                collector.reg_fixed_use(*src_hi, gpr(4));
                collector.reg_fixed_use(*src_lo, gpr(5));
                collector.reg_fixed_def(rd_hi.to_reg(), gpr(8));
                collector.reg_fixed_def(rd_lo.to_reg(), gpr(9));
                collector.reg_fixed_def(tmp_hi.to_reg(), gpr(10));
            },
            Inst::AtomicCas128 { addr, exp_hi, exp_lo, new_hi, new_lo, rd_hi, rd_lo, .. } => {
                collector.reg_fixed_use(*addr, gpr(3));
                collector.reg_fixed_use(*exp_hi, gpr(4));
                collector.reg_fixed_use(*exp_lo, gpr(5));
                collector.reg_fixed_use(*new_hi, gpr(6));
                collector.reg_fixed_use(*new_lo, gpr(7));
                collector.reg_fixed_def(rd_hi.to_reg(), gpr(8));
                collector.reg_fixed_def(rd_lo.to_reg(), gpr(9));
            },
            _ => {},
        }
        assert(collector@ =~= old(collector)@ + operands_atomic(*self));
    }

    fn collect_lane(&self, collector: &mut OperandCollector)
        requires
            emit::group(*self) == Group::Lane,
        ensures
            final(collector)@ == old(collector)@ + operands_lane(*self),
    {
        proof {
            reveal(operands_lane);
        }
        match self {
            Inst::VecAluRRR { ra, rb, rd, .. } => {
                collector.reg_use(*ra);
                collector.reg_use(*rb);
                collector.reg_def(rd.to_reg());
            },
            Inst::VecExtractLaneInt { rn, rd, .. } => {
                collector.reg_use(*rn);
                collector.reg_def(rd.to_reg());
            },
            Inst::VecExtractLaneFpu { rn, rd, .. } => {
                collector.reg_use(*rn);
                collector.reg_def(rd.to_reg());
            },
            Inst::VecInsertLane { rv, rs, rd, .. } => {
                collector.reg_use(*rv);
                collector.reg_use(*rs);
                collector.reg_def(rd.to_reg());
            },
            Inst::VecTestLanes { rn, rd, .. } => {
                collector.reg_use(*rn);
                collector.reg_def(rd.to_reg());
            },
            _ => {},
        }
        assert(collector@ =~= old(collector)@ + operands_lane(*self));
    }

    fn collect_vector(&self, collector: &mut OperandCollector)
        requires
            emit::group(*self) == Group::Vector,
        ensures
            final(collector)@ == old(collector)@ + operands_vector(*self),
    {
        proof {
            reveal(operands_vector);
        }
        match self {
            Inst::VecAluRRRR { ra, rb, rc, rd, .. } => {
                collector.reg_use(*ra);
                collector.reg_use(*rb);
                collector.reg_use(*rc);
                collector.reg_def(rd.to_reg());
            },
            Inst::VecCvt { rn, rd, .. } => {
                collector.reg_use(*rn);
                collector.reg_def(rd.to_reg());
            },
            Inst::VecSpltImm { rd, .. } => {
                collector.reg_def(rd.to_reg());
            },
            Inst::VecUnary { rn, rd, .. } => {
                collector.reg_use(*rn);
                collector.reg_def(rd.to_reg());
            },
            Inst::VecRound { rn, rd, .. } => {
                collector.reg_use(*rn);
                collector.reg_def(rd.to_reg());
            },
            Inst::VecSel { if_set, if_clear, mask, rd, .. } => {
                collector.reg_use(*if_set);
                collector.reg_use(*if_clear);
                collector.reg_use(*mask);
                collector.reg_def(rd.to_reg());
            },
            Inst::VecFpuRRR { ra, rb, rd, .. } => {
                collector.reg_use(*ra);
                collector.reg_use(*rb);
                collector.reg_def(rd.to_reg());
            },
            Inst::VecFpuRR { rn, rd, .. } => {
                collector.reg_use(*rn);
                collector.reg_def(rd.to_reg());
            },
            Inst::VecZero { rd, .. } => {
                collector.reg_def(rd.to_reg());
            },
            Inst::MovToVec { rn, rd, .. } => {
                collector.reg_use(*rn);
                collector.reg_def(rd.to_reg());
            },
            Inst::VecSplatLane { rn, rd, .. } => {
                collector.reg_use(*rn);
                collector.reg_def(rd.to_reg());
            },
            Inst::VecSplatFpr { rn, rd, .. } => {
                collector.reg_use(*rn);
                collector.reg_def(rd.to_reg());
            },
            Inst::VecPermDi { ra, rb, rd, .. } => {
                collector.reg_use(*ra);
                collector.reg_use(*rb);
                collector.reg_def(rd.to_reg());
            },
            _ => {},
        }
        assert(collector@ =~= old(collector)@ + operands_vector(*self));
    }
}

} // verus!
