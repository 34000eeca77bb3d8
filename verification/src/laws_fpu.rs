//! What instructions of scalar floating point leave in their registers.
use vstd::prelude::*;
use crate::buffer::{BufferView, Emission};
use crate::emit;
use crate::emit::{EmitInfo, EmitState};
use crate::emit_fp;
use crate::floating;
use crate::floating::{Arithmetic, Outcome, Rounding};
use crate::inst::{FpuOp1, FpuOp2, FpuRoundMode, Inst};
use crate::ir::Type;
use crate::machine;
use crate::memory;
use crate::memory::State;
use crate::mnem;
use crate::regs::Reg;

verus! {

/// The number in a register.
pub open spec fn held(s: State, r: Reg) -> u64 {
    floating::fpr(s, r.num())
}

/// What an instruction of scalar floating point is to leave, by what it is named for:
/// arithmetic and square roots in the precision of the type, signs and copies by the bits,
/// the number nearest to an integer that is read with a sign or without, and a number
/// rounded to an integral one the way that is asked for.
pub open spec fn float_result(f: Arithmetic, s: State, inst: Inst) -> Option<u64> {
    match inst {
        Inst::FpuRRR { op, ra, rb, ty, .. } => {
            let (x, y) = (held(s, ra), held(s, rb));
            let single = ty == Type::F32;
            Some(
                match op {
                    FpuOp2::Add => (f.sum)(single, x, y),
                    FpuOp2::Sub => (f.difference)(single, x, y),
                    FpuOp2::Mul => (f.product)(single, x, y),
                    FpuOp2::Div => (f.quotient)(single, x, y),
                    FpuOp2::CopySign => floating::signed_like(x, y),
                },
            )
        },
        Inst::FpuRR { op, rn, ty, .. } => {
            let x = held(s, rn);
            Some(
                match op {
                    FpuOp1::Neg => floating::negated(x),
                    FpuOp1::Abs => floating::unsigned(x),
                    FpuOp1::Sqrt => (f.root)(ty == Type::F32, x),
                    FpuOp1::Mov => x,
                    FpuOp1::Demote => (f.narrowed)(x),
                    FpuOp1::CvtToSingleBits => (f.to_single)(x),
                    FpuOp1::CvtFromSingleBits => (f.from_single)(x),
                },
            )
        },
        Inst::FpuFma { ra, rc, rb, ty, .. } => Some(
            (f.fused)(ty == Type::F32, held(s, ra), held(s, rc), held(s, rb)),
        ),
        Inst::IntToFpu { rn, signed, ty, .. } => Some(
            (f.nearest)(
                ty == Type::F32,
                if signed {
                    machine::signed64(held(s, rn))
                } else {
                    held(s, rn) as int
                },
            ),
        ),
        Inst::FpuRound { rn, mode, .. } => Some(
            (f.integral)(
                match mode {
                    FpuRoundMode::Floor => Rounding::Down,
                    FpuRoundMode::Ceil => Rounding::Up,
                    FpuRoundMode::Trunc => Rounding::TowardZero,
                    FpuRoundMode::Nearest => Rounding::Current,
                },
                held(s, rn),
            ),
        ),
        Inst::MovToFpr { rn, .. } => Some(s.cpu.gpr[rn.num() as int]),
        _ => None,
    }
}

/// The register that such an instruction writes.
pub open spec fn float_dest(inst: Inst) -> u32 {
    match inst {
        Inst::FpuRRR { rd, .. } => rd.reg.num(),
        Inst::FpuRR { rd, .. } => rd.reg.num(),
        Inst::FpuFma { rd, .. } => rd.reg.num(),
        Inst::IntToFpu { rd, .. } => rd.reg.num(),
        Inst::FpuRound { rd, .. } => rd.reg.num(),
        Inst::MovToFpr { rd, .. } => rd.reg.num(),
        _ => 0,
    }
}

/// The word of such an instruction.
proof fn lemma_float_word(f: Arithmetic, s: State, inst: Inst, w: u32)
    requires
        memory::wf(s),
        float_result(f, s, inst) is Some,
        w == (match inst {
            Inst::FpuRRR { op, rd, ra, rb, ty } => emit_fp::fpu_rrr(
                op,
                ty == Type::F32,
                rd.reg.num(),
                ra.num(),
                rb.num(),
            ),
            Inst::FpuRR { op, rd, rn, ty } => emit_fp::fpu_rr(
                op,
                ty == Type::F32,
                rd.reg.num(),
                rn.num(),
            ),
            Inst::FpuFma { rd, ra, rc, rb, ty } => emit_fp::fpu_fma(
                ty == Type::F32,
                rd.reg.num(),
                ra.num(),
                rc.num(),
                rb.num(),
            ),
            Inst::IntToFpu { rd, rn, signed, ty } => emit_fp::int_to_fpu(
                ty == Type::F32,
                signed,
                rd.reg.num(),
                rn.num(),
            ),
            Inst::FpuRound { rd, rn, mode } => emit_fp::fpu_round(mode, rd.reg.num(), rn.num()),
            Inst::MovToFpr { rd, rn } => mnem::mtvsrd_f(rd.reg.num(), rn.num()),
            _ => w,
        }),
    ensures
        !crate::laws_flow::is_branch(w),
        floating::step(f, s, w) matches Some(t) && floating::fpr(t, float_dest(inst))
            == float_result(f, s, inst)->0 && t == memory::set_vsr(
            s,
            float_dest(inst),
            t.vsr[float_dest(inst) as int],
        ),
{
    let d = float_dest(inst);
    floating::lemma_fpr(s, d, float_result(f, s, inst)->0);
    match inst {
        Inst::FpuRRR { op, rd, ra, rb, ty } => {
            let single = ty == Type::F32;
            let (a, b) = (ra.num(), rb.num());
            match op {
                FpuOp2::Add => floating::lemma_arithmetic(f, s, single, d, a, b, 0, 21),
                FpuOp2::Sub => floating::lemma_arithmetic(f, s, single, d, a, b, 0, 20),
                FpuOp2::Mul => floating::lemma_arithmetic(f, s, single, d, a, 0, b, 25),
                FpuOp2::Div => floating::lemma_arithmetic(f, s, single, d, a, b, 0, 18),
                FpuOp2::CopySign => floating::lemma_operation(f, s, 63, d, a, b, 8),
            }
        },
        Inst::FpuRR { op, rd, rn, ty } => {
            let n = rn.num();
            match op {
                FpuOp1::Neg => floating::lemma_operation(f, s, 63, d, 0, n, 40),
                FpuOp1::Abs => floating::lemma_operation(f, s, 63, d, 0, n, 264),
                FpuOp1::Sqrt => floating::lemma_arithmetic(f, s, ty == Type::F32, d, 0, n, 0, 22),
                FpuOp1::Mov => lemma_copy(f, s, d, n),
                FpuOp1::Demote => floating::lemma_operation(f, s, 63, d, 0, n, 12),
                FpuOp1::CvtToSingleBits => floating::lemma_operation2(f, s, d, n, 267),
                FpuOp1::CvtFromSingleBits => floating::lemma_operation2(f, s, d, n, 331),
            }
        },
        Inst::FpuFma { rd, ra, rc, rb, ty } => floating::lemma_arithmetic(
            f,
            s,
            ty == Type::F32,
            d,
            ra.num(),
            rb.num(),
            rc.num(),
            29,
        ),
        Inst::IntToFpu { rd, rn, signed, ty } => {
            let o = if ty == Type::F32 {
                59u32
            } else {
                63
            };
            floating::lemma_operation(f, s, o, d, 0, rn.num(), 846);
            floating::lemma_operation(f, s, o, d, 0, rn.num(), 974);
        },
        Inst::FpuRound { rd, rn, mode } => {
            floating::lemma_operation(f, s, 63, d, 0, rn.num(), 488);
            floating::lemma_operation(f, s, 63, d, 0, rn.num(), 456);
            floating::lemma_operation(f, s, 63, d, 0, rn.num(), 424);
            floating::lemma_operation2(f, s, d, rn.num(), 107);
        },
        Inst::MovToFpr { rd, rn } => floating::lemma_moves(f, s, rn.num(), d),
        _ => {},
    }
}

/// A copy of a floating-point register.
proof fn lemma_copy(f: Arithmetic, s: State, d: u32, n: u32)
    requires
        memory::wf(s),
        d < 32,
        n < 32,
    ensures
        !crate::laws_flow::is_branch(mnem::fmr(d, n)),
        floating::step(f, s, mnem::fmr(d, n)) matches Some(t) && floating::fpr(t, d)
            == floating::fpr(s, n) && t == memory::set_vsr(s, d, t.vsr[d as int]),
{
    machine::law_x_fields(63, d, 0, n, 72);
    let v = s.vsr[n as int].subrange(0, 8) + s.rest;
    assert(v.subrange(0, 8) =~= s.vsr[n as int].subrange(0, 8));
    reveal(floating::step);
    reveal(memory::step);
}

/// An instruction of scalar floating point leaves in its register what it is named for,
/// and changes nothing else.
pub proof fn law_float_operation(
    f: Arithmetic,
    b: BufferView,
    s: State,
    inst: Inst,
    info: EmitInfo,
    state: EmitState,
)
    requires
        memory::wf(s),
        emit::encodable(inst, state.frame_layout),
        float_result(f, s, inst) is Some,
    ensures
        floating::run(
            f,
            emit::emitted(inst, b, info, state).ops,
            b.ops.len() as int,
            s,
        ) matches Outcome::Done { s: t } && floating::fpr(t, float_dest(inst)) == float_result(
            f,
            s,
            inst,
        )->0 && t == memory::set_vsr(s, float_dest(inst), t.vsr[float_dest(inst) as int]),
{
    reveal(emit::emitted_float);
    let ops = emit::emitted(inst, b, info, state).ops;
    let pc = b.ops.len() as int;
    assert(ops.len() == pc + 1);
    assert(ops[pc] is Word);
    let w = ops[pc]->Word_0;
    lemma_float_word(f, s, inst, w);
    let t = floating::step(f, s, w)->0;
    assert(floating::run(f, ops, pc + 1, t) == (Outcome::Done { s: t }));
}

/// The move of a number to a general-purpose register leaves its bits there, and changes
/// nothing else.
pub proof fn law_bits_are_moved(
    f: Arithmetic,
    b: BufferView,
    s: State,
    inst: Inst,
    info: EmitInfo,
    state: EmitState,
)
    requires
        memory::wf(s),
        emit::encodable(inst, state.frame_layout),
        inst is MovFromFpr,
    ensures
        inst matches Inst::MovFromFpr { rd, rn } && floating::run(
            f,
            emit::emitted(inst, b, info, state).ops,
            b.ops.len() as int,
            s,
        ) == (Outcome::Done { s: memory::set_gpr(s, rd.reg.num(), held(s, rn)) }),
{
    reveal(emit::emitted_float);
    let ops = emit::emitted(inst, b, info, state).ops;
    let pc = b.ops.len() as int;
    match inst {
        Inst::MovFromFpr { rd, rn } => {
            let w = mnem::mfvsrd_f(rd.reg.num(), rn.num());
            assert(ops[pc] == Emission::Word(w));
            floating::lemma_moves(f, s, rd.reg.num(), rn.num());
            let t = floating::step(f, s, w)->0;
            assert(floating::run(f, ops, pc + 1, t) == (Outcome::Done { s: t }));
        },
        _ => {},
    }
}

} // verus!
