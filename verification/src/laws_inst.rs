//! What instructions do to the registers that they name.
use vstd::prelude::*;
use crate::args::{CondBrTarget, FloatCompare, IntegerCompare};
use crate::buffer::{BufferView, Emission};
use crate::cvt;
use crate::emit;
use crate::emit::{EmitInfo, EmitState};
use crate::emit_int;
use crate::emit_vec;
use crate::floating;
use crate::floating::Arithmetic;
use crate::inst::{AluImmOp, DivOp, Inst, UnaryOp, VecAluOp};
use crate::ir::{AtomicRmwOp, FloatOrder, TrapCode, Type};
use crate::laws_atomic;
use crate::laws_float;
use crate::laws_flow;
use crate::laws_int;
use crate::laws_mem;
use crate::laws_ops;
use crate::laws_swap;
use crate::laws_swap::Shared;
use crate::laws_vec;
use crate::machine;
use crate::machine::Machine;
use crate::memory;
use crate::memory::State;
use crate::mnem;
use crate::regs::{Reg, RegClass, Writable};

verus! {

/// The words that one log holds behind another.
pub open spec fn appended(b: BufferView, after: BufferView) -> Seq<u32> {
    Seq::new(
        (after.ops.len() - b.ops.len()) as nat,
        |i: int| after.ops[b.ops.len() + i]->Word_0,
    )
}

/// The words behind a log are those that it was extended by.
pub proof fn lemma_appended(b: BufferView, ws: Seq<u32>)
    ensures
        appended(b, b.words(ws)) == ws,
{
    assert(appended(b, b.words(ws)) =~= ws);
}

/// A log of one word more.
pub proof fn lemma_appended_word(b: BufferView, m: Machine, w: u32)
    ensures
        b.word(w) == b.words(seq![w]),
        appended(b, b.word(w)) == seq![w],
        machine::run_words(m, seq![w]) == machine::step(m, w),
{
    assert(b.word(w) =~= b.words(seq![w]));
    lemma_appended(b, seq![w]);
    laws_int::lemma_run_one(m, w);
}

/// The number in a register.
pub open spec fn held(m: Machine, r: Reg) -> u64 {
    m.gpr[r.num() as int]
}

// Integers.

/// Whether an instruction is one on integer registers alone, with operands that it has a
/// result for: a shift by less than the width, and no condition or count in register zero.
pub open spec fn is_integer(inst: Inst, m: Machine) -> bool {
    match inst {
        Inst::Nop0 => true,
        Inst::LoadConst64 { .. } => true,
        Inst::AluRRR { .. } => true,
        Inst::AluRRImm16 { .. } => true,
        Inst::UnaryRR { .. } => true,
        Inst::ShiftRRImm { op, imm, .. } => imm < laws_ops::shift_width(op),
        Inst::ShiftRRR { op, rb, .. } => held(m, rb) < laws_ops::shift_width(op),
        Inst::BitCount { rn, .. } => rn.num() != 0,
        Inst::Select { .. } => true,
        Inst::Extend { .. } => true,
        Inst::CmpSet { rd, .. } => rd.reg.num() != 0,
        Inst::MovFromPReg { rd, rm } => rd.reg.is_real() && rm < 32,
        Inst::Mflr { rd } => rd.reg.is_real(),
        Inst::Mtlr { rs } => rs.is_real(),
        _ => false,
    }
}

/// What such an instruction is to leave.
pub open spec fn integer_result(inst: Inst, m: Machine, n: Machine) -> bool {
    match inst {
        Inst::Nop0 => n == m,
        Inst::LoadConst64 { rd, imm } => n == machine::set(m, rd.reg.num(), imm),
        Inst::AluRRR { op, rd, ra, rb } => {
            let (x, y) = (held(m, ra), held(m, rb));
            &&& laws_ops::alu_gives(op, m.ca, x, y, held(n, rd.reg))
            &&& n == (Machine {
                ca: laws_ops::alu_carry(op, m.ca, x, y),
                ..machine::set(m, rd.reg.num(), held(n, rd.reg))
            })
        },
        Inst::AluRRImm16 { op, rd, ra, imm } => {
            &&& held(n, rd.reg) == (match op {
                AluImmOp::Addi => machine::wrap(held(m, ra) + machine::signed16(imm as u32)),
                AluImmOp::Andi => held(m, ra) & imm as u64,
            })
            &&& machine::same_but(m, n, rd.reg.num(), rd.reg.num())
        },
        Inst::UnaryRR { op, rd, rn } => n == machine::set(
            m,
            rd.reg.num(),
            match op {
                UnaryOp::Neg => machine::wrap(-(held(m, rn) as int)),
                UnaryOp::Not => !held(m, rn),
            },
        ),
        Inst::ShiftRRImm { op, rd, ra, imm } => n == (Machine {
            ca: n.ca,
            ..machine::set(m, rd.reg.num(), laws_ops::shifted(op, held(m, ra), imm as u32))
        }),
        Inst::ShiftRRR { op, rd, ra, rb } => n == (Machine {
            ca: n.ca,
            ..machine::set(
                m,
                rd.reg.num(),
                laws_ops::shifted(op, held(m, ra), held(m, rb) as u32),
            )
        }),
        Inst::BitCount { op, rd, rn, ty } => {
            &&& if ty == Type::I64 {
                held(n, rd.reg) == laws_ops::counted(op, held(m, rn) as int, 64)
            } else {
                machine::low32(held(n, rd.reg)) == laws_ops::counted(
                    op,
                    machine::low32(held(m, rn)),
                    32,
                )
            }
            &&& forall|i: int|
                0 <= i < 32 && i != rd.reg.num() && i != 0 && i != 11 ==> #[trigger] n.gpr[i]
                    == m.gpr[i]
        },
        Inst::Select { rd, kind, rt, rf } => {
            &&& held(n, rd.reg) == (if laws_flow::comparison_holds(kind, m) {
                held(m, rt)
            } else {
                held(m, rf)
            })
            &&& machine::same_but(m, n, rd.reg.num(), rd.reg.num())
        },
        Inst::Extend { rd, rn, signed, from_bits, .. } => n == machine::set(
            m,
            rd.reg.num(),
            machine::wrap(laws_ops::low_bits(signed, held(m, rn), from_bits as nat)),
        ),
        Inst::CmpSet { rd, kind } => {
            &&& held(n, rd.reg) == machine::one_if(laws_flow::comparison_holds(kind, m))
            &&& machine::same_but(m, n, rd.reg.num(), 0)
        },
        Inst::MovFromPReg { rd, rm } => n == machine::set(m, rd.reg.num(), m.gpr[rm as int]),
        Inst::Mflr { rd } => n == machine::set(m, rd.reg.num(), m.lr),
        Inst::Mtlr { rs } => n == (Machine { lr: held(m, rs), ..m }),
        _ => false,
    }
}

/// An instruction on integer registers computes what it is named for, from the registers
/// that it reads into the register that it writes, and leaves the others.
pub proof fn law_integer_instruction(
    b: BufferView,
    m: Machine,
    inst: Inst,
    info: EmitInfo,
    state: EmitState,
)
    requires
        machine::wf(m),
        emit::encodable(inst, state.frame_layout),
        is_integer(inst, m),
    ensures
        ({
            let after = emit::emitted(inst, b, info, state);
            let ws = appended(b, after);
            &&& after == b.words(ws)
            &&& machine::run_words(m, ws) matches Some(n) && integer_result(inst, m, n)
        }),
{
    reveal(emit::emitted_int);
    match inst {
        Inst::AluRRR { op, rd, ra, rb } => {
            let w = emit_int::alu_rrr(op, rd.reg.num(), ra.num(), rb.num());
            lemma_appended_word(b, m, w);
            laws_ops::law_alu(m, op, rd.reg.num(), ra.num(), rb.num());
        },
        Inst::AluRRImm16 { op, rd, ra, imm } => {
            lemma_appended_word(b, m, emit_int::alu_rr_imm16(op, rd.reg.num(), ra.num(), imm));
            laws_ops::law_alu_immediate(m, op, rd.reg.num(), ra.num(), imm);
        },
        Inst::UnaryRR { op, rd, rn } => {
            lemma_appended_word(b, m, emit_int::unary_rr(op, rd.reg.num(), rn.num()));
            laws_ops::law_unary(m, op, rd.reg.num(), rn.num());
        },
        Inst::ShiftRRImm { op, rd, ra, imm } => {
            lemma_appended_word(
                b,
                m,
                emit_int::shift_rr_imm(op, rd.reg.num(), ra.num(), imm as u32),
            );
            laws_ops::law_shift_immediate(m, op, rd.reg.num(), ra.num(), imm as u32);
        },
        Inst::ShiftRRR { op, rd, ra, rb } => {
            lemma_appended_word(b, m, emit_int::shift_rrr(op, rd.reg.num(), ra.num(), rb.num()));
            laws_ops::law_shift_register(m, op, rd.reg.num(), ra.num(), rb.num());
            laws_ops::law_shift_immediate(m, op, rd.reg.num(), ra.num(), held(m, rb) as u32);
        },
        Inst::Extend { rd, rn, signed, from_bits, .. } => {
            lemma_appended_word(
                b,
                m,
                emit_int::extend(signed, rd.reg.num(), rn.num(), from_bits),
            );
            laws_ops::law_extension(m, signed, rd.reg.num(), rn.num(), from_bits);
        },
        _ => {
            lemma_longer(b, m, inst, info, state);
        },
    }
}

/// The instructions of no or several words, and moves.
proof fn lemma_longer(b: BufferView, m: Machine, inst: Inst, info: EmitInfo, state: EmitState)
    requires
        machine::wf(m),
        emit::encodable(inst, state.frame_layout),
        is_integer(inst, m),
        !(inst is AluRRR),
        !(inst is AluRRImm16),
        !(inst is UnaryRR),
        !(inst is ShiftRRImm),
        !(inst is ShiftRRR),
        !(inst is Extend),
    ensures
        ({
            let after = emit::emitted(inst, b, info, state);
            let ws = appended(b, after);
            &&& after == b.words(ws)
            &&& machine::run_words(m, ws) matches Some(n) && integer_result(inst, m, n)
        }),
{
    reveal(emit::emitted_int);
    match inst {
        Inst::LoadConst64 { rd, imm } => {
            lemma_appended(b, emit_int::load_constant(rd.reg.num(), imm));
            laws_int::law_constant_is_materialized(m, rd.reg.num(), imm);
        },
        Inst::BitCount { op, rd, rn, ty } => {
            let (d, x) = (rd.reg.num(), rn.num());
            let isa_3_0 = info.isa_flags.has_isa_3_0;
            laws_ops::law_bit_count(b, m, op, d, x, ty == Type::I64, isa_3_0);
            lemma_appended(b, laws_ops::bit_count_words(op, d, x, ty == Type::I64, isa_3_0));
        },
        Inst::Select { rd, kind, rt, rf } => {
            laws_flow::law_select(b, m, rd.reg.num(), kind, rt.num(), rf.num());
            lemma_appended(b, laws_flow::select_words(rd.reg.num(), kind, rt.num(), rf.num()));
        },
        Inst::CmpSet { rd, kind } => {
            let (bit, polarity) = kind.spec_bit_and_polarity();
            let w = kind.compare_word();
            let more = laws_flow::bit_words(rd.reg.num(), bit, polarity);
            laws_flow::law_comparison_to_register(m, rd.reg.num(), kind);
            laws_flow::law_bit_to_register(b.word(w), m, rd.reg.num(), bit, polarity);
            assert(b.word(w).words(more) =~= b.words(seq![w] + more));
            lemma_appended(b, seq![w] + more);
        },
        Inst::MovFromPReg { rd, rm } => {
            let x = m.gpr[rm as int];
            let w = mnem::ori(rd.reg.num(), rm as u32, 0);
            lemma_appended_word(b, m, w);
            laws_vec::lemma_bits(0, x, 0);
            machine::law_d_fields(24, rm as u32, rd.reg.num(), 0);
            reveal(machine::step);
        },
        Inst::Mflr { rd } => {
            lemma_appended_word(b, m, mnem::mflr(rd.reg.num()));
            reveal(machine::step);
            laws_flow::lemma_link_register();
            machine::law_x_fields(31, rd.reg.num(), 8, 0, 339);
        },
        Inst::Mtlr { rs } => {
            lemma_appended_word(b, m, mnem::mtlr(rs.num()));
            reveal(machine::step);
            laws_flow::lemma_link_register();
            machine::law_x_fields(31, rs.num(), 8, 0, 467);
        },
        _ => {
            assert(b.words(Seq::empty()) =~= b);
            lemma_appended(b, Seq::empty());
        },
    }
}

/// A division traps on a zero divisor and on the one quotient that does not fit, and else
/// leaves the quotient or the remainder of its operands in order.
pub proof fn law_division_instruction(
    b: BufferView,
    m: Machine,
    op: DivOp,
    rd: Writable<Reg>,
    ra: Reg,
    rb: Reg,
    ty: Type,
    info: EmitInfo,
    state: EmitState,
)
    requires
        machine::wf(m),
        emit::encodable(Inst::DivRem { op, rd, ra, rb, ty }, state.frame_layout),
        ra.num() != 0,
        rb.num() != 0,
        b.labels + 4 <= u32::MAX,
    ensures
        ({
            let is_64 = ty == Type::I64;
            let signed = laws_flow::is_signed_division(op);
            let x = laws_flow::reading(signed, is_64, held(m, ra));
            let y = laws_flow::reading(signed, is_64, held(m, rb));
            let out = laws_flow::run(
                emit::emitted(Inst::DivRem { op, rd, ra, rb, ty }, b, info, state).ops,
                b.ops.len() as int,
                m,
            );
            if y == 0 {
                out == (laws_flow::Outcome::Trapped { code: TrapCode::IntegerDivisionByZero })
            } else if op == DivOp::SDiv && x == laws_flow::least(is_64) && y == -1 {
                out == (laws_flow::Outcome::Trapped { code: TrapCode::IntegerOverflow })
            } else {
                out matches laws_flow::Outcome::Done { m: n } && laws_flow::holds_number(
                    is_64,
                    held(n, rd.reg),
                    laws_flow::division_value(op, x, y),
                ) && machine::same_but(m, n, rd.reg.num(), 0)
            }
        }),
{
    reveal(emit::emitted_int);
    laws_flow::law_division(
        b,
        m,
        op,
        rd.reg.num(),
        ra.num(),
        rb.num(),
        ty == Type::I64,
        info.isa_flags.has_isa_3_0,
    );
}

/// A move copies what a register holds, of any class.
pub proof fn law_move_instruction(
    b: BufferView,
    s: State,
    rd: Writable<Reg>,
    rm: Reg,
    ty: Type,
    info: EmitInfo,
    state: EmitState,
)
    requires
        memory::wf(s),
        emit::encodable(Inst::Mov { rd, rm, ty }, state.frame_layout),
    ensures
        ({
            let after = emit::emitted(Inst::Mov { rd, rm, ty }, b, info, state);
            let ws = appended(b, after);
            &&& after == b.words(ws)
            &&& memory::run_words(s, ws) matches Some(t) && laws_vec::contents(t, rd.reg)
                == laws_vec::contents(s, rm) && t.mem == s.mem && (rd.reg.class == RegClass::Int
                ==> machine::same_but(s.cpu, t.cpu, rd.reg.num(), rd.reg.num()))
        }),
{
    reveal(emit::emitted_int);
    laws_vec::law_move_copies(b, s, rd.reg, rm);
    lemma_appended(b, laws_vec::move_words(rd.reg, rm));
}

// Control flow.

/// A branch goes to its taken label where the comparison holds, and else to its other
/// label or on.
pub proof fn law_branch_instruction(
    b: BufferView,
    m: Machine,
    taken: CondBrTarget,
    not_taken: CondBrTarget,
    kind: IntegerCompare,
    info: EmitInfo,
    state: EmitState,
)
    requires
        machine::wf(m),
        emit::encodable(Inst::CondBr { taken, not_taken, kind }, state.frame_layout),
    ensures
        ({
            let out = laws_flow::run(
                emit::emitted(Inst::CondBr { taken, not_taken, kind }, b, info, state).ops,
                b.ops.len() as int,
                m,
            );
            match (if laws_flow::comparison_holds(kind, m) {
                taken
            } else {
                not_taken
            }) {
                CondBrTarget::Label(l) => out matches laws_flow::Outcome::Jumped { label, m: n }
                    && label == l && n.gpr == m.gpr,
                CondBrTarget::Fallthrough => out matches laws_flow::Outcome::Done { m: n } && n.gpr
                    == m.gpr,
            }
        }),
{
    reveal(emit::emitted_flow);
    laws_flow::law_conditional_branch(b, m, taken->Label_0, not_taken, kind);
    laws_flow::law_compare_tells(kind, m);
}

/// A conditional trap traps with its code where the comparison holds, and only there.
pub proof fn law_trap_instruction(
    b: BufferView,
    m: Machine,
    kind: IntegerCompare,
    trap_code: TrapCode,
    info: EmitInfo,
    state: EmitState,
)
    requires
        machine::wf(m),
        emit::encodable(Inst::TrapIf { kind, trap_code }, state.frame_layout),
    ensures
        ({
            let out = laws_flow::run(
                emit::emitted(Inst::TrapIf { kind, trap_code }, b, info, state).ops,
                b.ops.len() as int,
                m,
            );
            if laws_flow::comparison_holds(kind, m) {
                out == (laws_flow::Outcome::Trapped { code: trap_code })
            } else {
                out matches laws_flow::Outcome::Done { m: n } && n == (Machine { cr0: n.cr0, ..m })
            }
        }),
{
    reveal(emit::emitted_flow);
    laws_flow::law_conditional_trap(b, m, kind, trap_code);
}

/// A branch on floating-point numbers goes to its taken label where the comparison holds,
/// and else to its other label or on.
pub proof fn law_float_branch_instruction(
    f: Arithmetic,
    b: BufferView,
    s: State,
    taken: CondBrTarget,
    not_taken: CondBrTarget,
    kind: FloatCompare,
    info: EmitInfo,
    state: EmitState,
)
    requires
        emit::encodable(Inst::FpuCondBr { taken, not_taken, kind }, state.frame_layout),
    ensures
        ({
            let out = floating::run(
                f,
                emit::emitted(Inst::FpuCondBr { taken, not_taken, kind }, b, info, state).ops,
                b.ops.len() as int,
                s,
            );
            match (if kind.kind.holds(laws_float::outcome(f, s, kind)) {
                taken
            } else {
                not_taken
            }) {
                CondBrTarget::Label(l) => out matches floating::Outcome::Jumped { label, s: t }
                    && label == l && t.vsr == s.vsr && t.mem == s.mem,
                CondBrTarget::Fallthrough => out matches floating::Outcome::Done { s: t } && t.vsr
                    == s.vsr && t.mem == s.mem,
            }
        }),
{
    reveal(emit::emitted_flow);
    laws_float::law_float_branch(f, b, s, taken->Label_0, not_taken, kind);
}

// Floating point.

/// A selection between floating-point registers takes the first where the comparison
/// holds, and else the second.
pub proof fn law_float_select_instruction(
    f: Arithmetic,
    b: BufferView,
    s: State,
    rd: Writable<Reg>,
    kind: IntegerCompare,
    rt: Reg,
    rf: Reg,
    info: EmitInfo,
    state: EmitState,
)
    requires
        memory::wf(s),
        emit::encodable(Inst::FpuSelect { rd, kind, rt, rf }, state.frame_layout),
        kind.rs1.num() != 0,
        kind.rs1.num() != 11,
        kind.rs2.num() != 0,
        kind.rs2.num() != 11,
    ensures
        floating::run(
            f,
            emit::emitted(Inst::FpuSelect { rd, kind, rt, rf }, b, info, state).ops,
            b.ops.len() as int,
            s,
        ) matches floating::Outcome::Done { s: t } && floating::fpr(t, rd.reg.num()) == (
        if laws_flow::comparison_holds(kind, s.cpu) {
            floating::fpr(s, rt.num())
        } else {
            floating::fpr(s, rf.num())
        }) && laws_float::same_fpr_but(s, t, rd.reg.num(), rd.reg.num()) && t.mem == s.mem,
{
    reveal(emit::emitted_float);
    laws_float::law_float_select(f, b, s, rd.reg.num(), kind, rt.num(), rf.num());
}

/// A comparison of floating-point numbers leaves one where it holds, and else zero.
pub proof fn law_float_comparison_instruction(
    f: Arithmetic,
    b: BufferView,
    s: State,
    rd: Writable<Reg>,
    kind: FloatCompare,
    info: EmitInfo,
    state: EmitState,
)
    requires
        memory::wf(s),
        emit::encodable(Inst::FpuCmpSet { rd, kind }, state.frame_layout),
        rd.reg.num() != 0,
    ensures
        floating::run(
            f,
            emit::emitted(Inst::FpuCmpSet { rd, kind }, b, info, state).ops,
            b.ops.len() as int,
            s,
        ) matches floating::Outcome::Done { s: t } && held(t.cpu, rd.reg) == machine::one_if(
            kind.kind.holds(laws_float::outcome(f, s, kind)),
        ) && machine::same_but(s.cpu, t.cpu, rd.reg.num(), 0) && t.vsr == s.vsr && t.mem == s.mem,
{
    reveal(emit::emitted_float);
    laws_float::law_float_comparison_to_register(f, b, s, rd.reg.num(), kind);
}

/// The lesser or the greater of two numbers, or their sum where they have no order.
pub proof fn law_extreme_instruction(
    f: Arithmetic,
    b: BufferView,
    s: State,
    rd: Writable<Reg>,
    ra: Reg,
    rb: Reg,
    is_max: bool,
    info: EmitInfo,
    state: EmitState,
)
    requires
        memory::wf(s),
        emit::encodable(Inst::FpuMinMax { rd, ra, rb, is_max }, state.frame_layout),
        rd.reg.num() != ra.num(),
        rd.reg.num() != rb.num(),
    ensures
        ({
            let x = floating::fpr(s, ra.num());
            let y = floating::fpr(s, rb.num());
            floating::run(
                f,
                emit::emitted(Inst::FpuMinMax { rd, ra, rb, is_max }, b, info, state).ops,
                b.ops.len() as int,
                s,
            ) matches floating::Outcome::Done { s: t } && floating::fpr(t, rd.reg.num()) == (if (
            f.order)(x, y) == FloatOrder::Unordered {
                (f.sum)(false, x, y)
            } else if is_max {
                (f.greatest)(x, y)
            } else {
                (f.least)(x, y)
            }) && laws_float::same_fpr_but(s, t, rd.reg.num(), rd.reg.num()) && t.mem == s.mem
        }),
{
    reveal(emit::emitted_float);
    laws_float::law_extreme(f, b, s, rd.reg.num(), ra.num(), rb.num(), is_max);
}

/// A conversion to an integer that saturates leaves zero for what is no number.
pub proof fn law_saturating_instruction(
    f: Arithmetic,
    b: BufferView,
    s: State,
    rd: Writable<Reg>,
    tmp: Writable<Reg>,
    rn: Reg,
    signed: bool,
    in_ty: Type,
    out_ty: Type,
    info: EmitInfo,
    state: EmitState,
)
    requires
        memory::wf(s),
        emit::encodable(
            Inst::FpuToInt { rd, tmp, rn, signed, sat: true, in_ty, out_ty },
            state.frame_layout,
        ),
    ensures
        ({
            let x = floating::fpr(s, rn.num());
            let inst = Inst::FpuToInt { rd, tmp, rn, signed, sat: true, in_ty, out_ty };
            floating::run(
                f,
                emit::emitted(inst, b, info, state).ops,
                b.ops.len() as int,
                s,
            ) matches floating::Outcome::Done { s: t } && held(t.cpu, rd.reg) == (if (f.order)(x, x)
                == FloatOrder::Unordered {
                0
            } else {
                (f.convert)(signed, out_ty == Type::I64, x)
            }) && t.mem == s.mem && machine::same_but(s.cpu, t.cpu, rd.reg.num(), rd.reg.num())
        }),
{
    reveal(emit::emitted_float);
    laws_float::law_saturating_conversion(
        f,
        b,
        s,
        rd.reg.num(),
        tmp.reg.num(),
        rn.num(),
        signed,
        out_ty == Type::I64,
    );
}

/// A conversion to an integer that traps does so on what is no number and on what is not
/// between the bounds of its type, and else leaves the integer.
pub proof fn law_trapping_instruction(
    f: Arithmetic,
    b: BufferView,
    s: State,
    rd: Writable<Reg>,
    tmp: Writable<Reg>,
    rn: Reg,
    signed: bool,
    in_ty: Type,
    out_ty: Type,
    info: EmitInfo,
    state: EmitState,
)
    requires
        memory::wf(s),
        emit::encodable(
            Inst::FpuToInt { rd, tmp, rn, signed, sat: false, in_ty, out_ty },
            state.frame_layout,
        ),
        tmp.reg.num() != rn.num(),
    ensures
        ({
            let x = floating::fpr(s, rn.num());
            let inst = Inst::FpuToInt { rd, tmp, rn, signed, sat: false, in_ty, out_ty };
            let (lo, hi) = cvt::spec_bounds(in_ty == Type::F32, signed, out_ty.bits());
            let out = floating::run(
                f,
                emit::emitted(inst, b, info, state).ops,
                b.ops.len() as int,
                s,
            );
            if (f.order)(x, x) == FloatOrder::Unordered {
                out == (floating::Outcome::Trapped { code: TrapCode::BadConversionToInteger })
            } else if (f.order)(x, lo) != FloatOrder::Greater || (f.order)(x, hi)
                != FloatOrder::Less {
                out == (floating::Outcome::Trapped { code: TrapCode::IntegerOverflow })
            } else {
                out matches floating::Outcome::Done { s: t } && held(t.cpu, rd.reg) == (f.convert)(
                    signed,
                    out_ty.bits() == 64,
                    x,
                ) && t.mem == s.mem && machine::same_but(s.cpu, t.cpu, rd.reg.num(), rd.reg.num())
            }
        }),
{
    reveal(emit::emitted_float);
    laws_float::law_trapping_conversion(
        f,
        b,
        s,
        rd.reg.num(),
        tmp.reg.num(),
        rn.num(),
        signed,
        in_ty == Type::F32,
        out_ty.bits(),
    );
}

/// A byte swap leaves the bytes of its operand in the other order, with zeros above them.
pub proof fn law_byte_swap_instruction(
    b: BufferView,
    s: State,
    rd: Writable<Reg>,
    rn: Reg,
    ty: Type,
    info: EmitInfo,
    state: EmitState,
)
    requires
        memory::wf(s),
        emit::encodable(Inst::Bswap { rd, rn, ty }, state.frame_layout),
        rn.num() != 0,
    ensures
        ({
            let after = emit::emitted(Inst::Bswap { rd, rn, ty }, b, info, state);
            let ws = appended(b, after);
            let n = laws_mem::swap_width(ty);
            &&& after == b.words(ws)
            &&& memory::run_words(s, ws) matches Some(t) && (forall|j: int|
                0 <= j < 8 ==> #[trigger] memory::byte(held(t.cpu, rd.reg), j) == (if j < n {
                    memory::byte(held(s.cpu, rn), n - 1 - j)
                } else {
                    0
                })) && machine::same_but(s.cpu, t.cpu, rd.reg.num(), 0)
        }),
{
    reveal(emit::emitted_float);
    laws_mem::law_bytes_are_swapped(b, s, rd.reg.num(), rn.num(), ty);
    lemma_appended(b, laws_mem::swap_words(rd.reg.num(), rn.num(), ty));
}

// Atomic accesses.

/// A compare-and-swap gives back what was held, and stores the new value where that equals
/// the expected one; where the reservation was lost it starts again and has stored nothing.
pub proof fn law_swap_instruction(
    b: BufferView,
    s: Shared,
    rd: Writable<Reg>,
    addr: Reg,
    expected: Reg,
    new: Reg,
    ty: Type,
    kept: bool,
    info: EmitInfo,
    state: EmitState,
) -> (t: Shared)
    requires
        machine::wf(s.cpu),
        emit::encodable(Inst::AtomicCas { rd, addr, expected, new, ty }, state.frame_layout),
        rd.reg.num() != addr.num(),
        rd.reg.num() != expected.num(),
        rd.reg.num() != new.num(),
        held(s.cpu, expected) < memory::power256(laws_swap::width(ty) as int),
        b.labels + 2 <= u32::MAX,
    ensures
        ({
            let ops = emit::emitted(
                Inst::AtomicCas { rd, addr, expected, new, ty },
                b,
                info,
                state,
            ).ops;
            let n = laws_swap::width(ty);
            let a = held(s.cpu, addr);
            let before = memory::load_bytes(s.mem, a, n);
            let equal = before == memory::low_bytes(held(s.cpu, expected), n);
            &&& held(t.cpu, rd.reg) == memory::doubleword(before)
            &&& machine::same_but(s.cpu, t.cpu, rd.reg.num(), rd.reg.num())
            &&& t.mem == (if equal && kept {
                memory::store_bytes(s.mem, a, memory::low_bytes(held(s.cpu, new), n))
            } else {
                s.mem
            })
            &&& laws_swap::run(ops, b.ops.len() as int, s, kept) == (if equal && !kept {
                laws_swap::End::Jumped { label: b.fresh(), s: t }
            } else {
                laws_swap::End::Done { s: t }
            })
        }),
{
    reveal(emit::emitted_atomic);
    laws_swap::law_compare_and_swap(
        b,
        s,
        rd.reg.num(),
        addr.num(),
        expected.num(),
        new.num(),
        ty,
        kept,
    )
}

/// A read-modify-write gives back what was held and stores what the operation makes of it;
/// where the reservation was lost it starts again and has stored nothing.
pub proof fn law_update_instruction(
    b: BufferView,
    s: Shared,
    op: AtomicRmwOp,
    rd: Writable<Reg>,
    addr: Reg,
    src: Reg,
    ty: Type,
    kept: bool,
    info: EmitInfo,
    state: EmitState,
) -> (t: Shared)
    requires
        machine::wf(s.cpu),
        emit::encodable(Inst::AtomicRmw { op, rd, addr, src, ty }, state.frame_layout),
        rd.reg.num() != 0,
        addr.num() != 0,
        src.num() != 0,
        rd.reg.num() != addr.num(),
        rd.reg.num() != src.num(),
    ensures
        ({
            let ops = emit::emitted(
                Inst::AtomicRmw { op, rd, addr, src, ty },
                b,
                info,
                state,
            ).ops;
            let n = laws_swap::width(ty);
            let a = held(s.cpu, addr);
            let before = memory::doubleword(memory::load_bytes(s.mem, a, n));
            let made = laws_atomic::rmw_result(op, ty, before, held(s.cpu, src));
            &&& held(t.cpu, rd.reg) == before
            &&& machine::same_but(s.cpu, t.cpu, rd.reg.num(), 0)
            &&& t.mem == (if kept {
                memory::store_bytes(s.mem, a, memory::low_bytes(made, n))
            } else {
                s.mem
            })
            &&& laws_swap::run(ops, b.ops.len() as int, s, kept) == (if kept {
                laws_swap::End::Done { s: t }
            } else {
                laws_swap::End::Jumped { label: b.fresh(), s: t }
            })
        }),
{
    reveal(emit::emitted_atomic);
    laws_swap::law_read_modify_write(
        b,
        s,
        op,
        rd.reg.num(),
        addr.num(),
        src.num(),
        ty,
        kept,
    )
}

/// A load of a quadword leaves its two halves in the registers that it names.
pub proof fn law_quadword_load_instruction(
    b: BufferView,
    s: Shared,
    rd_lo: Writable<Reg>,
    rd_hi: Writable<Reg>,
    addr: Reg,
    kept: bool,
    info: EmitInfo,
    state: EmitState,
) -> (t: Shared)
    requires
        machine::wf(s.cpu),
        emit::encodable(Inst::AtomicLoad128 { rd_lo, rd_hi, addr }, state.frame_layout),
    ensures
        ({
            let inst = Inst::AtomicLoad128 { rd_lo, rd_hi, addr };
            let ops = emit::emitted(inst, b, info, state).ops;
            let before = memory::load_bytes(s.mem, held(s.cpu, addr), 16);
            &&& laws_swap::run(ops, b.ops.len() as int, s, kept) == (laws_swap::End::Done { s: t })
            &&& held(t.cpu, rd_hi.reg) == memory::doubleword(before.subrange(8, 16))
            &&& held(t.cpu, rd_lo.reg) == memory::doubleword(before.subrange(0, 8))
            &&& machine::same_but(s.cpu, t.cpu, rd_hi.reg.num(), rd_lo.reg.num())
            &&& t.mem == s.mem
        }),
{
    reveal(emit::emitted_atomic);
    laws_swap::law_quadword_load(b, s, kept)
}

/// A store of a quadword writes its two halves at its address; where the reservation was
/// lost it starts again and has stored nothing.
pub proof fn law_quadword_store_instruction(
    b: BufferView,
    s: Shared,
    rs_lo: Reg,
    rs_hi: Reg,
    tmp_lo: Writable<Reg>,
    tmp_hi: Writable<Reg>,
    addr: Reg,
    kept: bool,
    info: EmitInfo,
    state: EmitState,
) -> (t: Shared)
    requires
        machine::wf(s.cpu),
        emit::encodable(
            Inst::AtomicStore128 { rs_lo, rs_hi, tmp_lo, tmp_hi, addr },
            state.frame_layout,
        ),
    ensures
        ({
            let inst = Inst::AtomicStore128 { rs_lo, rs_hi, tmp_lo, tmp_hi, addr };
            let ops = emit::emitted(inst, b, info, state).ops;
            let bytes = laws_swap::quad_bytes(held(s.cpu, rs_hi), held(s.cpu, rs_lo));
            &&& machine::same_but(s.cpu, t.cpu, tmp_hi.reg.num(), tmp_lo.reg.num())
            &&& t.mem == (if kept {
                memory::store_bytes(s.mem, held(s.cpu, addr), bytes)
            } else {
                s.mem
            })
            &&& laws_swap::run(ops, b.ops.len() as int, s, kept) == (if kept {
                laws_swap::End::Done { s: t }
            } else {
                laws_swap::End::Jumped { label: b.fresh(), s: t }
            })
        }),
{
    reveal(emit::emitted_atomic);
    laws_swap::law_quadword_store(b, s, kept)
}

/// A compare-and-swap of a quadword gives back what was held, in halves, and stores the
/// new halves where both halves equal the expected ones.
pub proof fn law_quadword_swap_instruction(
    b: BufferView,
    s: Shared,
    rd_lo: Writable<Reg>,
    rd_hi: Writable<Reg>,
    addr: Reg,
    exp_lo: Reg,
    exp_hi: Reg,
    new_lo: Reg,
    new_hi: Reg,
    kept: bool,
    info: EmitInfo,
    state: EmitState,
) -> (t: Shared)
    requires
        machine::wf(s.cpu),
        emit::encodable(
            Inst::AtomicCas128 { rd_lo, rd_hi, addr, exp_lo, exp_hi, new_lo, new_hi },
            state.frame_layout,
        ),
        b.labels + 2 <= u32::MAX,
    ensures
        ({
            let inst = Inst::AtomicCas128 { rd_lo, rd_hi, addr, exp_lo, exp_hi, new_lo, new_hi };
            let ops = emit::emitted(inst, b, info, state).ops;
            let a = held(s.cpu, addr);
            let before = memory::load_bytes(s.mem, a, 16);
            let equal = before == laws_swap::quad_bytes(held(s.cpu, exp_hi), held(s.cpu, exp_lo));
            let made = laws_swap::quad_bytes(held(s.cpu, new_hi), held(s.cpu, new_lo));
            &&& held(t.cpu, rd_hi.reg) == memory::doubleword(before.subrange(8, 16))
            &&& held(t.cpu, rd_lo.reg) == memory::doubleword(before.subrange(0, 8))
            &&& machine::same_but(s.cpu, t.cpu, rd_hi.reg.num(), rd_lo.reg.num())
            &&& t.mem == (if equal && kept {
                memory::store_bytes(s.mem, a, made)
            } else {
                s.mem
            })
            &&& laws_swap::run(ops, b.ops.len() as int, s, kept) == (if equal && !kept {
                laws_swap::End::Jumped { label: b.fresh(), s: t }
            } else {
                laws_swap::End::Done { s: t }
            })
        }),
{
    reveal(emit::emitted_atomic);
    laws_swap::law_quadword_compare_and_swap(b, s, kept)
}

// Vectors.

/// A logical operation on vectors works on every byte, with its operands in order.
pub proof fn law_vector_logic_instruction(
    b: BufferView,
    s: State,
    op: VecAluOp,
    rd: Writable<Reg>,
    ra: Reg,
    rb: Reg,
    ty: Type,
    info: EmitInfo,
    state: EmitState,
)
    requires
        memory::wf(s),
        op.is_bitwise(),
        emit::encodable(Inst::VecAluRRR { op, rd, ra, rb, ty }, state.frame_layout),
    ensures
        ({
            let after = emit::emitted(Inst::VecAluRRR { op, rd, ra, rb, ty }, b, info, state);
            let ws = appended(b, after);
            let (x, y) = (s.vsr[ra.vsr() as int], s.vsr[rb.vsr() as int]);
            &&& after == b.words(ws)
            &&& memory::run_words(s, ws) == Some(
                memory::set_vsr(
                    s,
                    rd.reg.vsr(),
                    Seq::new(16, |i: int| laws_vec::logic_of(op, x[i], y[i])),
                ),
            )
        }),
{
    reveal(emit::emitted_lane);
    let (d, x, y) = (rd.reg.vsr(), ra.vsr(), rb.vsr());
    let w = emit_vec::vec_alu_rrr(op, d, x, y, ty.lane_bits());
    lemma_appended_word(b, s.cpu, w);
    laws_vec::law_vector_logic(s, op, d, x, y, ty.lane_bits());
    laws_vec::lemma_run_one(s, w);
}

} // verus!
