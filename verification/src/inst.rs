//! The machine instructions.
use vstd::prelude::*;
use crate::args::{AMode, CondBrTarget, FloatCompare, IntegerCompare, LoadOP, StackAMode, StoreOP};
use crate::args;
use crate::buffer::{ExceptionHandler, MachLabel, UnwindInst};
use crate::frame::FrameLayout;
use crate::ir::{
    AtomicRmwOp, CallConv, CodeOffset, CodegenError, ExternalName, MemFlagsData, TrapCode, Type,
};
use crate::operands::Operand;
use crate::regs::{Reg, RegClass, Writable};

verus! {

/// Fixed-point operations on two registers.
#[derive(Clone, Copy, Debug, PartialEq, Eq, Structural)]
pub enum AluOp {
    Add,
    Sub,
    Addc,
    Adde,
    Subfc,
    Subfe,
    Mulld,
    Mulhd,
    Mulhdu,
    Mulhw,
    Mulhwu,
    And,
    Or,
    Xor,
}

/// Fixed-point operations on a register and an immediate.
#[derive(Clone, Copy, Debug, PartialEq, Eq, Structural)]
pub enum AluImmOp {
    Addi,
    Andi,
}

/// Fixed-point operations on one register.
#[derive(Clone, Copy, Debug, PartialEq, Eq, Structural)]
pub enum UnaryOp {
    Neg,
    Not,
}

/// Shifts and rotates.
#[derive(Clone, Copy, Debug, PartialEq, Eq, Structural)]
pub enum ShiftOp {
    Slw,
    Srw,
    Sraw,
    Sld,
    Srd,
    Srad,
    Rotlw,
    Rotld,
}

impl ShiftOp {
    /// Whether the operation is on 64 bits.
    pub open spec fn is_64(self) -> bool {
        match self {
            ShiftOp::Sld | ShiftOp::Srd | ShiftOp::Srad | ShiftOp::Rotld => true,
            _ => false,
        }
    }
}

/// Bit counts.
#[derive(Clone, Copy, Debug, PartialEq, Eq, Structural)]
pub enum BitOp {
    Clz,
    Ctz,
    Popcnt,
}

/// Divisions and remainders.
#[derive(Clone, Copy, Debug, PartialEq, Eq, Structural)]
pub enum DivOp {
    SDiv,
    UDiv,
    SRem,
    URem,
}

/// Floating-point operations on two registers.
#[derive(Clone, Copy, Debug, PartialEq, Eq, Structural)]
pub enum FpuOp2 {
    Add,
    Sub,
    Mul,
    Div,
    CopySign,
}

/// Floating-point operations on one register.
#[derive(Clone, Copy, Debug, PartialEq, Eq, Structural)]
pub enum FpuOp1 {
    Neg,
    Abs,
    Sqrt,
    Mov,
    Demote,
    CvtToSingleBits,
    CvtFromSingleBits,
}

/// Rounding modes.
#[derive(Clone, Copy, Debug, PartialEq, Eq, Structural)]
pub enum FpuRoundMode {
    Floor,
    Ceil,
    Trunc,
    Nearest,
}

/// Vector operations on two registers.
#[derive(Clone, Copy, Debug, PartialEq, Eq, Structural)]
pub enum VecAluOp {
    Add,
    Sub,
    CmpEq,
    CmpGtS,
    CmpGtU,
    MinS,
    MinU,
    MaxS,
    MaxU,
    Shl,
    ShrU,
    ShrS,
    AvgRoundS,
    AvgRoundU,
    SAddSat,
    UAddSat,
    SSubSat,
    USubSat,
    MergeLow,
    MergeHigh,
    PackSS,
    PackSU,
    PackUU,
    MulWord,
    MulEvenS,
    MulOddS,
    MulEvenU,
    MulOddU,
    PackMod,
    MergeEvenWord,
    Rotl,
    And,
    Or,
    Xor,
    Nor,
    AndC,
}

impl VecAluOp {
    /// Whether the operation is on bits, whatever the lanes.
    pub open spec fn is_bitwise(self) -> bool {
        match self {
            VecAluOp::And | VecAluOp::Or | VecAluOp::Xor | VecAluOp::Nor | VecAluOp::AndC => true,
            _ => false,
        }
    }
}

/// Vector operations on three registers.
#[derive(Clone, Copy, Debug, PartialEq, Eq, Structural)]
pub enum VecAluOp4 {
    MulAddUH,
    MulHiRoundAddSHS,
    Perm,
}

/// Conversions of lanes.
#[derive(Clone, Copy, Debug, PartialEq, Eq, Structural)]
pub enum VecCvtOp {
    F32ToI32S,
    F32ToI32U,
    I32ToF32S,
    I32ToF32U,
    F64ToI64S,
    F64ToI64U,
    I64ToF64S,
    I64ToF64U,
    F64ToF32,
    F32ToF64,
}

/// Vector operations on one register.
#[derive(Clone, Copy, Debug, PartialEq, Eq, Structural)]
pub enum VecUnaryOp {
    Popcnt,
    WidenSLow,
    WidenSHigh,
}

/// Floating-point lane operations on two registers.
#[derive(Clone, Copy, Debug, PartialEq, Eq, Structural)]
pub enum VecFpuOp2 {
    Add,
    Sub,
    Mul,
    Div,
    CmpEq,
    CmpGt,
    CmpGe,
    Min,
    Max,
}

/// Floating-point lane operations on one register.
#[derive(Clone, Copy, Debug, PartialEq, Eq, Structural)]
pub enum VecFpuOp1 {
    Sqrt,
    Neg,
    Abs,
}

/// An argument and the register that it arrives in.
#[derive(Clone, Copy, Debug, PartialEq, Eq, Structural)]
pub struct ArgPair {
    pub vreg: Writable<Reg>,
    pub preg: Reg,
}

/// A return value and the register that it leaves in.
#[derive(Clone, Copy, Debug, PartialEq, Eq, Structural)]
pub struct RetPair {
    pub vreg: Reg,
    pub preg: Reg,
}

/// An argument of a call and the register that it goes in.
#[derive(Clone, Copy, Debug, PartialEq, Eq, Structural)]
pub struct CallArgPair {
    pub vreg: Reg,
    pub preg: Reg,
}

/// Where a call leaves a return value.
#[derive(Clone, Copy, Debug, PartialEq, Eq, Structural)]
pub enum RetLocation {
    /// In a register.
    Reg(Reg, Type),
    /// On the stack.
    Stack(StackAMode, Type),
}

/// A return value of a call.
#[derive(Clone, Copy, Debug, PartialEq, Eq, Structural)]
pub struct CallRetPair {
    pub vreg: Writable<Reg>,
    pub location: RetLocation,
}

/// One step of moving return values from the stack to where they belong.
#[derive(Clone, Copy, Debug, PartialEq, Eq, Structural)]
pub enum RetvalMove {
    /// Make sure that so many bytes of code follow without an island.
    Island(u32),
    /// Load into a register.
    Load { mem: StackAMode, into: Writable<Reg>, ty: Type },
    /// Store from a register to a spill slot, so many bytes above the stack slots.
    Spill { slot: u32, from: Reg, ty: Type },
}

/// Where an exception that a call raises goes, before the frame is laid out.
#[derive(Clone, Copy, Debug, PartialEq, Eq, Structural)]
pub enum TryCallHandler {
    /// The handler of one tag.
    Tag(u32, MachLabel),
    /// The handler of every other tag.
    Default(MachLabel),
    /// The handlers after it belong to a context that is in a register.
    ContextReg(Reg),
    /// The handlers after it belong to a context that is in a spill slot, so many
    /// bytes above the stack slots.
    ContextSpill(u32),
}

impl TryCallHandler {
    /// The handler as it is recorded with the code, in a frame: a spilled context is
    /// where it lies from the stack pointer up.
    pub open spec fn placed(self, frame: FrameLayout) -> ExceptionHandler {
        match self {
            TryCallHandler::Tag(tag, label) => ExceptionHandler::Tag(tag, label),
            TryCallHandler::Default(label) => ExceptionHandler::Default(label),
            TryCallHandler::ContextReg(reg) => ExceptionHandler::ContextReg(reg),
            TryCallHandler::ContextSpill(slot) => ExceptionHandler::ContextAt(
                (frame.outgoing_args_size + frame.stackslots_size + slot) as u64,
            ),
        }
    }
}

/// Where control goes after a call that may raise an exception.
#[derive(Debug)]
pub struct TryCallInfo {
    pub continuation: MachLabel,
    pub handlers: Vec<TryCallHandler>,
    /// The operands that the handlers need of the call, besides its own.
    pub operands: Vec<Operand>,
}

impl TryCallInfo {
    /// The handlers as they are recorded with the code, in a frame.
    pub open spec fn placed_handlers(self, frame: FrameLayout) -> Seq<ExceptionHandler> {
        self.handlers@.map_values(|h: TryCallHandler| h.placed(frame))
    }

    /// The handlers as they are recorded with the code, in a frame.
    pub fn exception_handlers(&self, frame: &FrameLayout) -> (v: Vec<ExceptionHandler>)
        ensures
            v@ == self.placed_handlers(*frame),
    {
        let mut v: Vec<ExceptionHandler> = Vec::new();
        let mut i: usize = 0;
        while i < self.handlers.len()
            invariant
                i <= self.handlers@.len(),
                v@ == self.placed_handlers(*frame).take(i as int),
            decreases self.handlers@.len() - i,
        {
            let h = match self.handlers[i] {
                TryCallHandler::Tag(tag, label) => ExceptionHandler::Tag(tag, label),
                TryCallHandler::Default(label) => ExceptionHandler::Default(label),
                TryCallHandler::ContextReg(reg) => ExceptionHandler::ContextReg(reg),
                TryCallHandler::ContextSpill(slot) => ExceptionHandler::ContextAt(
                    frame.outgoing_args_size as u64 + frame.stackslots_size as u64 + slot as u64,
                ),
            };
            v.push(h);
            assert(v@ =~= self.placed_handlers(*frame).take(i + 1));
            i = i + 1;
        }
        assert(v@ =~= self.placed_handlers(*frame));
        v
    }
}

/// What there is to know about a call.
#[derive(Debug)]
pub struct CallInfo<T> {
    pub dest: T,
    pub uses: Vec<CallArgPair>,
    pub defs: Vec<CallRetPair>,
    pub clobbers: regalloc2::PRegSet,
    pub caller_conv: CallConv,
    pub callee_conv: CallConv,
    pub callee_pop_size: u32,
    pub try_call_info: Option<TryCallInfo>,
    pub patchable: bool,
    /// The moves that fetch the return values left on the stack.
    pub retval_moves: Vec<RetvalMove>,
}

impl<T> CallInfo<T> {
    /// A call of `dest` with no arguments, no results and no clobbers.
    pub fn empty(dest: T, call_conv: CallConv) -> (info: CallInfo<T>)
        ensures
            info.dest == dest,
            info.uses@.len() == 0,
            info.defs@.len() == 0,
            crate::preg_set::members(info.clobbers) == Set::<nat>::empty(),
            info.caller_conv == call_conv,
            info.callee_conv == call_conv,
            info.callee_pop_size == 0,
            info.try_call_info is None,
            !info.patchable,
            info.retval_moves@.len() == 0,
    {
        CallInfo {
            dest,
            uses: Vec::new(),
            defs: Vec::new(),
            clobbers: crate::preg_set::empty_set(),
            caller_conv: call_conv,
            callee_conv: call_conv,
            callee_pop_size: 0,
            try_call_info: None,
            patchable: false,
            retval_moves: Vec::new(),
        }
    }
}

/// What there is to know about a tail call.
#[derive(Debug)]
pub struct ReturnCallInfo<T> {
    pub dest: T,
    pub uses: Vec<CallArgPair>,
    pub new_stack_arg_size: u32,
}

/// A machine instruction.
#[allow(inconsistent_fields)]
#[derive(Debug)]
pub enum Inst {
    Nop0,
    Nop4,
    LoadConst64 { rd: Writable<Reg>, imm: u64 },
    AluRRR { op: AluOp, rd: Writable<Reg>, ra: Reg, rb: Reg },
    AluRRImm16 { op: AluImmOp, rd: Writable<Reg>, ra: Reg, imm: u16 },
    UnaryRR { op: UnaryOp, rd: Writable<Reg>, rn: Reg },
    ShiftRRImm { op: ShiftOp, rd: Writable<Reg>, ra: Reg, imm: u8 },
    ShiftRRR { op: ShiftOp, rd: Writable<Reg>, ra: Reg, rb: Reg },
    BitCount { op: BitOp, rd: Writable<Reg>, rn: Reg, ty: Type },
    DivRem { op: DivOp, rd: Writable<Reg>, ra: Reg, rb: Reg, ty: Type },
    Select { rd: Writable<Reg>, kind: IntegerCompare, rt: Reg, rf: Reg },
    FpuRRR { op: FpuOp2, rd: Writable<Reg>, ra: Reg, rb: Reg, ty: Type },
    FpuRR { op: FpuOp1, rd: Writable<Reg>, rn: Reg, ty: Type },
    FpuFma { rd: Writable<Reg>, ra: Reg, rc: Reg, rb: Reg, ty: Type },
    FpuCmpSet { rd: Writable<Reg>, kind: FloatCompare },
    FpuCondBr { taken: CondBrTarget, not_taken: CondBrTarget, kind: FloatCompare },
    IntToFpu { rd: Writable<Reg>, rn: Reg, signed: bool, ty: Type },
    FpuSelect { rd: Writable<Reg>, kind: IntegerCompare, rt: Reg, rf: Reg },
    /// The first target is the default; the rest form the table.
    BrTable { index: Reg, tmp1: Writable<Reg>, tmp2: Writable<Reg>, targets: Vec<MachLabel> },
    EmitIsland { needed_space: u32 },
    FpuToInt {
        rd: Writable<Reg>,
        tmp: Writable<Reg>,
        rn: Reg,
        signed: bool,
        sat: bool,
        in_ty: Type,
        out_ty: Type,
    },
    FpuMinMax { rd: Writable<Reg>, ra: Reg, rb: Reg, is_max: bool },
    FpuRound { rd: Writable<Reg>, rn: Reg, mode: FpuRoundMode },
    Bswap { rd: Writable<Reg>, rn: Reg, ty: Type },
    MovToFpr { rd: Writable<Reg>, rn: Reg },
    MovFromFpr { rd: Writable<Reg>, rn: Reg },
    Extend { rd: Writable<Reg>, rn: Reg, signed: bool, from_bits: u8, to_bits: u8 },
    Load { rd: Writable<Reg>, op: LoadOP, flags: MemFlagsData, from: AMode },
    Store { to: AMode, op: StoreOP, flags: MemFlagsData, src: Reg },
    LoadAddr { rd: Writable<Reg>, mem: AMode },
    Args { args: Vec<ArgPair> },
    Rets { rets: Vec<RetPair> },
    Ret,
    Mov { rd: Writable<Reg>, rm: Reg, ty: Type },
    CmpSet { rd: Writable<Reg>, kind: IntegerCompare },
    Jump { label: MachLabel },
    CondBr { taken: CondBrTarget, not_taken: CondBrTarget, kind: IntegerCompare },
    Udf { trap_code: TrapCode },
    TrapIf { kind: IntegerCompare, trap_code: TrapCode },
    Call { info: Box<CallInfo<ExternalName>> },
    CallInd { info: Box<CallInfo<Reg>> },
    AtomicLoad { rd: Writable<Reg>, addr: Reg, ty: Type },
    AtomicStore { src: Reg, addr: Reg, ty: Type },
    AtomicRmw { op: AtomicRmwOp, rd: Writable<Reg>, addr: Reg, src: Reg, ty: Type },
    AtomicCas { rd: Writable<Reg>, addr: Reg, expected: Reg, new: Reg, ty: Type },
    AtomicLoad128 { rd_lo: Writable<Reg>, rd_hi: Writable<Reg>, addr: Reg },
    AtomicStore128 {
        rs_lo: Reg,
        rs_hi: Reg,
        tmp_lo: Writable<Reg>,
        tmp_hi: Writable<Reg>,
        addr: Reg,
    },
    AtomicRmw128 {
        op: AtomicRmwOp,
        rd_lo: Writable<Reg>,
        rd_hi: Writable<Reg>,
        tmp_hi: Writable<Reg>,
        addr: Reg,
        src_lo: Reg,
        src_hi: Reg,
    },
    AtomicCas128 {
        rd_lo: Writable<Reg>,
        rd_hi: Writable<Reg>,
        addr: Reg,
        exp_lo: Reg,
        exp_hi: Reg,
        new_lo: Reg,
        new_hi: Reg,
    },
    VecLoad { rd: Writable<Reg>, from: AMode, flags: MemFlagsData },
    VecStore { to: AMode, rs: Reg, flags: MemFlagsData },
    /// A load of a vector of 64 bits, into the first half of the register.
    VecLoad64 { rd: Writable<Reg>, from: AMode, flags: MemFlagsData },
    /// A store of a vector of 64 bits, from the first half of the register.
    VecStore64 { to: AMode, rs: Reg, flags: MemFlagsData },
    VecAluRRR { op: VecAluOp, rd: Writable<Reg>, ra: Reg, rb: Reg, ty: Type },
    VecExtractLaneInt { rd: Writable<Reg>, rn: Reg, ty: Type, lane: u8 },
    VecExtractLaneFpu { rd: Writable<Reg>, rn: Reg, ty: Type, lane: u8 },
    VecInsertLane { rd: Writable<Reg>, rv: Reg, rs: Reg, ty: Type, lane: u8 },
    VecAluRRRR { op: VecAluOp4, rd: Writable<Reg>, ra: Reg, rb: Reg, rc: Reg },
    VecCvt { op: VecCvtOp, rd: Writable<Reg>, rn: Reg },
    VecSpltImm { rd: Writable<Reg>, imm: i8, ty: Type },
    VecUnary { op: VecUnaryOp, rd: Writable<Reg>, rn: Reg, ty: Type },
    VecRound { rd: Writable<Reg>, rn: Reg, mode: FpuRoundMode, ty: Type },
    VecSel { rd: Writable<Reg>, if_set: Reg, if_clear: Reg, mask: Reg },
    VecTestLanes { rd: Writable<Reg>, rn: Reg, ty: Type, all: bool },
    VecFpuRRR { op: VecFpuOp2, rd: Writable<Reg>, ra: Reg, rb: Reg, ty: Type },
    VecFpuRR { op: VecFpuOp1, rd: Writable<Reg>, rn: Reg, ty: Type },
    VecZero { rd: Writable<Reg> },
    MovToVec { rd: Writable<Reg>, rn: Reg },
    VecSplatLane { rd: Writable<Reg>, rn: Reg, ty: Type },
    VecSplatFpr { rd: Writable<Reg>, rn: Reg, is_f32: bool },
    VecPermDi { rd: Writable<Reg>, ra: Reg, rb: Reg, dm: u8 },
    Fence,
    ReturnCall { info: Box<ReturnCallInfo<ExternalName>> },
    ReturnCallInd { info: Box<ReturnCallInfo<Reg>> },
    LoadExtName { rd: Writable<Reg>, name: ExternalName, offset: i64 },
    MovFromPReg { rd: Writable<Reg>, rm: u8 },
    LabelAddress { rd: Writable<Reg>, label: MachLabel },
    Mflr { rd: Writable<Reg> },
    Mtlr { rs: Reg },
    Unwind { inst: UnwindInst },
    DummyUse { reg: Reg },
}

/// What kind of call an instruction is.
#[derive(Clone, Copy, Debug, PartialEq, Eq, Structural)]
pub enum CallType {
    /// No call.
    NotACall,
    /// A call that returns.
    Regular,
    /// A call in place of a return.
    TailCall,
}

/// How an instruction ends a block.
#[derive(Clone, Copy, Debug, PartialEq, Eq, Structural)]
pub enum MachTerminator {
    /// Not at all.
    NotATerminator,
    /// By a return.
    Ret,
    /// By a tail call.
    RetCall,
    /// By a branch.
    Branch,
}

/// The alignment of functions.
#[derive(Clone, Copy, Debug, PartialEq, Eq, Structural)]
pub struct FunctionAlignment {
    pub minimum: u32,
    pub preferred: u32,
}

/// The registers that a value of a type is kept in: the class of each and the
/// type that it is stored as. No answer for a type that is not supported: 16-
/// and 128-bit floats, as scalars or lanes.
pub open spec fn reg_parts(ty: Type) -> Option<(Seq<RegClass>, Seq<Type>)> {
    match ty {
        Type::I8 | Type::I16 | Type::I32 | Type::I64 => Some((seq![RegClass::Int], seq![ty])),
        Type::I128 => Some((seq![RegClass::Int, RegClass::Int], seq![Type::I64, Type::I64])),
        Type::F32 => Some((seq![RegClass::Float], seq![Type::F64])),
        Type::F64 => Some((seq![RegClass::Float], seq![Type::F64])),
        Type::F16 | Type::F128 | Type::F16X4 | Type::F16X8 => None,
        _ => Some((seq![RegClass::Vector], seq![ty])),
    }
}

/// Every part of a supported type is moved by one load or store.
pub proof fn law_placed_types_are_loadable(ty: Type)
    ensures
        reg_parts(ty) matches Some((rcs, tys)) ==> rcs.len() == tys.len() && forall|i: int|
            0 <= i < tys.len() ==> Inst::loadable(#[trigger] tys[i]),
{
}

impl Inst {
    /// The instruction that loads a type: a scalar load, zero-extending where
    /// it is narrow, or a vector load.
    pub open spec fn spec_gen_load(
        into_reg: Writable<Reg>,
        mem: AMode,
        ty: Type,
        flags: MemFlagsData,
    ) -> Inst {
        if args::is_scalar_access(ty) {
            Inst::Load { rd: into_reg, op: LoadOP::spec_from_type(ty), flags, from: mem }
        } else if ty.bits() == 64 {
            Inst::VecLoad64 { rd: into_reg, from: mem, flags }
        } else {
            Inst::VecLoad { rd: into_reg, from: mem, flags }
        }
    }

    /// The types that one load or store instruction moves: the scalars of one
    /// register, and the vectors of 64 and 128 bits.
    pub open spec fn loadable(ty: Type) -> bool {
        args::is_scalar_access(ty) || ty.is_vector()
    }

    /// Generic constructor for a load, zero-extending where appropriate.
    pub fn gen_load(into_reg: Writable<Reg>, mem: AMode, ty: Type, flags: MemFlagsData) -> (i: Inst)
        requires
            Inst::loadable(ty),
        ensures
            i == Inst::spec_gen_load(into_reg, mem, ty, flags),
    {
        if ty.is_vector() {
            if ty.bits() == 64 {
                Inst::VecLoad64 { rd: into_reg, from: mem, flags }
            } else {
                Inst::VecLoad { rd: into_reg, from: mem, flags }
            }
        } else {
            Inst::Load { rd: into_reg, op: LoadOP::from_type(ty), flags, from: mem }
        }
    }

    /// The instruction that stores a type.
    pub open spec fn spec_gen_store(
        mem: AMode,
        from_reg: Reg,
        ty: Type,
        flags: MemFlagsData,
    ) -> Inst {
        if args::is_scalar_access(ty) {
            Inst::Store { to: mem, op: StoreOP::spec_from_type(ty), flags, src: from_reg }
        } else if ty.bits() == 64 {
            Inst::VecStore64 { to: mem, rs: from_reg, flags }
        } else {
            Inst::VecStore { to: mem, rs: from_reg, flags }
        }
    }

    /// Generic constructor for a store.
    pub fn gen_store(mem: AMode, from_reg: Reg, ty: Type, flags: MemFlagsData) -> (i: Inst)
        requires
            Inst::loadable(ty),
        ensures
            i == Inst::spec_gen_store(mem, from_reg, ty, flags),
    {
        if ty.is_vector() {
            if ty.bits() == 64 {
                Inst::VecStore64 { to: mem, rs: from_reg, flags }
            } else {
                Inst::VecStore { to: mem, rs: from_reg, flags }
            }
        } else {
            Inst::Store { to: mem, op: StoreOP::from_type(ty), flags, src: from_reg }
        }
    }

    /// An instruction that does nothing but use a register.
    pub fn gen_dummy_use(reg: Reg) -> (i: Inst)
        ensures
            i == (Inst::DummyUse { reg }),
    {
        Inst::DummyUse { reg }
    }

    /// The type that a whole register of a class holds.
    pub open spec fn spec_canonical_type_for_rc(rc: RegClass) -> Type {
        match rc {
            RegClass::Int => Type::I64,
            RegClass::Float => Type::F64,
            RegClass::Vector => Type::I8X16,
        }
    }

    /// The type that a whole register of a class holds.
    pub fn canonical_type_for_rc(rc: RegClass) -> (ty: Type)
        ensures
            ty == Inst::spec_canonical_type_for_rc(rc),
    {
        match rc {
            RegClass::Int => Type::I64,
            RegClass::Float => Type::F64,
            RegClass::Vector => Type::I8X16,
        }
    }

    /// Whether the instruction is a call that returns.
    pub open spec fn is_regular_call(self) -> bool {
        self is Call || self is CallInd
    }

    /// Whether the instruction is a call in place of a return.
    pub open spec fn is_tail_call(self) -> bool {
        self is ReturnCall || self is ReturnCallInd
    }

    /// Whether the instruction is a point where stack maps are taken.
    pub fn is_safepoint(&self) -> (b: bool)
        ensures
            b == self.is_regular_call(),
    {
        match self {
            Inst::Call { .. } | Inst::CallInd { .. } => true,
            _ => false,
        }
    }

    /// The registers of a plain move, destination first.
    pub open spec fn spec_is_move(self) -> Option<(Writable<Reg>, Reg)> {
        match self {
            Inst::Mov { rd, rm, .. } => Some((rd, rm)),
            Inst::FpuRR { op, rd, rn, .. } => if op == FpuOp1::Mov {
                Some((rd, rn))
            } else {
                None
            },
            _ => None,
        }
    }

    /// The registers of a plain move, destination first.
    pub fn is_move(&self) -> (r: Option<(Writable<Reg>, Reg)>)
        ensures
            r == self.spec_is_move(),
    {
        match self {
            Inst::Mov { rd, rm, .. } => Some((*rd, *rm)),
            Inst::FpuRR { op: FpuOp1::Mov, rd, rn, .. } => Some((*rd, *rn)),
            _ => None,
        }
    }

    /// Whether the registers that the instruction writes count as clobbered.
    pub fn is_included_in_clobbers(&self) -> (b: bool)
        ensures
            b == !(self is Args),
    {
        match self {
            Inst::Args { .. } => false,
            _ => true,
        }
    }

    /// Whether the instruction always traps.
    pub fn is_trap(&self) -> (b: bool)
        ensures
            b == (self is Udf),
    {
        match self {
            Inst::Udf { .. } => true,
            _ => false,
        }
    }

    /// Whether the instruction takes the arguments.
    pub fn is_args(&self) -> (b: bool)
        ensures
            b == (self is Args),
    {
        match self {
            Inst::Args { .. } => true,
            _ => false,
        }
    }

    /// What kind of call the instruction is.
    pub fn call_type(&self) -> (c: CallType)
        ensures
            self.is_regular_call() ==> c == CallType::Regular,
            self.is_tail_call() ==> c == CallType::TailCall,
            !self.is_regular_call() && !self.is_tail_call() ==> c == CallType::NotACall,
    {
        match self {
            Inst::Call { .. } | Inst::CallInd { .. } => CallType::Regular,
            Inst::ReturnCall { .. } | Inst::ReturnCallInd { .. } => CallType::TailCall,
            _ => CallType::NotACall,
        }
    }

    /// How the instruction ends a block. A call ends one when it may raise an
    /// exception, for it then goes on at one of several places.
    pub open spec fn spec_is_term(self) -> MachTerminator {
        match self {
            Inst::Jump { .. } | Inst::CondBr { .. } | Inst::FpuCondBr { .. } | Inst::BrTable { .. }
            => MachTerminator::Branch,
            Inst::Rets { .. } => MachTerminator::Ret,
            Inst::ReturnCall { .. } | Inst::ReturnCallInd { .. } => MachTerminator::RetCall,
            Inst::Call { info } => if info.try_call_info is Some {
                MachTerminator::Branch
            } else {
                MachTerminator::NotATerminator
            },
            Inst::CallInd { info } => if info.try_call_info is Some {
                MachTerminator::Branch
            } else {
                MachTerminator::NotATerminator
            },
            _ => MachTerminator::NotATerminator,
        }
    }

    /// How the instruction ends a block.
    pub fn is_term(&self) -> (t: MachTerminator)
        ensures
            t == self.spec_is_term(),
    {
        match self {
            Inst::Jump { .. } | Inst::CondBr { .. } | Inst::FpuCondBr { .. } | Inst::BrTable { .. }
            => MachTerminator::Branch,
            Inst::Rets { .. } => MachTerminator::Ret,
            Inst::ReturnCall { .. } | Inst::ReturnCallInd { .. } => MachTerminator::RetCall,
            Inst::Call { info } => if info.try_call_info.is_some() {
                MachTerminator::Branch
            } else {
                MachTerminator::NotATerminator
            },
            Inst::CallInd { info } => if info.try_call_info.is_some() {
                MachTerminator::Branch
            } else {
                MachTerminator::NotATerminator
            },
            _ => MachTerminator::NotATerminator,
        }
    }

    /// Whether the instruction accesses memory at an address of the program.
    pub fn is_mem_access(&self) -> (b: bool)
        ensures
            b == (self is Load || self is Store),
    {
        match self {
            Inst::Load { .. } | Inst::Store { .. } => true,
            _ => false,
        }
    }

    /// A move between registers of one class.
    pub fn gen_move(to_reg: Writable<Reg>, from_reg: Reg, ty: Type) -> (i: Inst)
        ensures
            i == (Inst::Mov { rd: to_reg, rm: from_reg, ty }),
    {
        Inst::Mov { rd: to_reg, rm: from_reg, ty }
    }

    /// A no-op of at most the preferred size: an empty one, or one instruction.
    pub fn gen_nop(preferred_size: usize) -> (i: Inst)
        requires
            preferred_size == 0 || preferred_size >= 4,
        ensures
            preferred_size == 0 ==> i == Inst::Nop0,
            preferred_size >= 4 ==> i == Inst::Nop4,
    {
        if preferred_size == 0 {
            return Inst::Nop0;
        }
        Inst::Nop4
    }

    /// The no-ops that padding is made of: `ori r0, r0, 0`, as bytes.
    pub fn gen_nop_units() -> (v: Vec<Vec<u8>>)
        ensures
            v@.len() == 1,
            v@[0]@ == crate::buffer::word_bytes(crate::encode::NOP_INSTRUCTION as nat),
    {
        let mut unit: Vec<u8> = Vec::new();
        unit.push(0x00);
        unit.push(0x00);
        unit.push(0x00);
        unit.push(0x60);
        let mut v: Vec<Vec<u8>> = Vec::new();
        v.push(unit);
        v
    }

    /// The registers that a value of a type is kept in.
    ///
    /// An `f32` is held in a floating-point register in double format, because
    /// that is what `lfs` produces and what the arithmetic instructions operate
    /// on. Reporting the stored type as `f64` keeps that consistent everywhere
    /// a value is copied by size rather than by lowering rule: spills and
    /// reloads, and the argument and return slots. The cost is that a
    /// stack-passed `f32` occupies its slot in double format, which deviates
    /// from ELFv2 for calls that run out of floating-point argument registers.
    pub fn rc_for_type(ty: &Type) -> (r: Result<(Vec<RegClass>, Vec<Type>), CodegenError>)
        ensures
            match r {
                Ok(parts) => reg_parts(*ty) == Some((parts.0@, parts.1@)),
                Err(e) => reg_parts(*ty) is None && e == CodegenError::UnsupportedType(*ty),
            },
    {
        let mut classes: Vec<RegClass> = Vec::new();
        let mut types: Vec<Type> = Vec::new();
        match *ty {
            Type::I8 | Type::I16 | Type::I32 | Type::I64 => {
                classes.push(RegClass::Int);
                types.push(*ty);
                assert(classes@ =~= seq![RegClass::Int]);
                assert(types@ =~= seq![*ty]);
                Ok((classes, types))
            },
            Type::I128 => {
                classes.push(RegClass::Int);
                classes.push(RegClass::Int);
                types.push(Type::I64);
                types.push(Type::I64);
                assert(classes@ =~= seq![RegClass::Int, RegClass::Int]);
                assert(types@ =~= seq![Type::I64, Type::I64]);
                Ok((classes, types))
            },
            Type::F32 | Type::F64 => {
                classes.push(RegClass::Float);
                types.push(Type::F64);
                assert(classes@ =~= seq![RegClass::Float]);
                assert(types@ =~= seq![Type::F64]);
                Ok((classes, types))
            },
            Type::F16 | Type::F128 | Type::F16X4 | Type::F16X8 => Err(
                CodegenError::UnsupportedType(*ty),
            ),
            _ => {
                classes.push(RegClass::Vector);
                types.push(*ty);
                assert(classes@ =~= seq![RegClass::Vector]);
                assert(types@ =~= seq![*ty]);
                Ok((classes, types))
            },
        }
    }

    /// An unconditional jump.
    pub fn gen_jump(target: MachLabel) -> (i: Inst)
        ensures
            i == (Inst::Jump { label: target }),
    {
        Inst::Jump { label: target }
    }

    /// The size that no instruction exceeds, save those that ask for islands
    /// themselves. The largest expansion is a trapping float-to-integer
    /// conversion: a check for not-a-number and two bound checks, each of which
    /// materializes a 64-bit constant; there is headroom above that.
    pub fn worst_case_size() -> (n: CodeOffset)
        ensures
            n == 96,
    {
        96
    }

    /// The growth of an island that one instruction may cause: several veneers.
    pub fn worst_case_island_growth() -> (n: CodeOffset)
        ensures
            n == 32,
    {
        32
    }

    /// The alignment of functions.
    pub fn function_alignment() -> (a: FunctionAlignment)
        ensures
            a == (FunctionAlignment { minimum: 4, preferred: 16 }),
    {
        FunctionAlignment { minimum: 4, preferred: 16 }
    }
}

} // verus!
