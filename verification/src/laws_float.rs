//! What emitted floating-point code does: compares, choices, conversions to
//! integers, minimum and maximum.
use vstd::prelude::*;
use crate::args;
use crate::args::{CondBrTarget, FloatCompare, IntegerCompare, CR0_GT, CR0_LT, CR0_UN};
use crate::buffer::{BufferView, Emission, MachLabel};
use crate::cvt;
use crate::emit_fp;
use crate::emit_int;
use crate::encode::TRAP_INSTRUCTION;
use crate::floating;
use crate::floating::{Arithmetic, Outcome};
use crate::ir::{FloatOrder, TrapCode};
use crate::label_use::LabelUse;
use crate::laws_flow;
use crate::laws_const;
use crate::laws_int;
use crate::laws_mem;
use crate::laws_vec;
use crate::machine;
use crate::machine::Machine;
use crate::memory;
use crate::memory::State;
use crate::mnem;

verus! {

/// Whether two states agree in every floating-point register but those given.
pub open spec fn same_fpr_but(s: State, t: State, a: u32, b: u32) -> bool {
    forall|k: u32|
        k < 32 && k != a && k != b ==> #[trigger] floating::fpr(t, k) == floating::fpr(s, k)
}

/// Running a word that is not a branch.
proof fn lemma_run_word(f: Arithmetic, ops: Seq<Emission>, pc: int, s: State, w: u32, t: State)
    requires
        0 <= pc < ops.len(),
        ops[pc] == Emission::Word(w),
        !laws_flow::is_branch(w),
        floating::step(f, s, w) == Some(t),
    ensures
        floating::run(f, ops, pc, s) == floating::run(f, ops, pc + 1, t),
{
}

/// Running a conditional branch by a distance.
proof fn lemma_run_bc(
    f: Arithmetic,
    ops: Seq<Emission>,
    pc: int,
    s: State,
    polarity: bool,
    bit: u32,
    off: i32,
    to: int,
)
    requires
        0 <= pc < to <= ops.len(),
        ops[pc] == Emission::Word(mnem::bc(polarity, bit, off)),
        bit < 32,
        0 < off < 0x8000,
        off % 4 == 0,
        floating::skip(ops, pc, (off / 4) as nat) == to,
    ensures
        floating::run(f, ops, pc, s) == floating::run(
            f,
            ops,
            if machine::cr_bit(s.cpu, bit) == polarity {
                to
            } else {
                pc + 1
            },
            s,
        ),
{
    machine::law_bc_fields(polarity, bit, off);
}

// Minimum and maximum.

/// A minimum or maximum gives what the hardware gives, but the sum where the
/// operands are unordered, which is not a number. No other floating-point register
/// changes.
pub proof fn law_extreme(
    f: Arithmetic,
    b: BufferView,
    s: State,
    rd: u32,
    ra: u32,
    rb: u32,
    is_max: bool,
)
    requires
        memory::wf(s),
        rd < 32,
        ra < 32,
        rb < 32,
        rd != ra,
        rd != rb,
    ensures
        ({
            let x = floating::fpr(s, ra);
            let y = floating::fpr(s, rb);
            floating::run(
                f,
                emit_fp::fpu_min_max(b, rd, ra, rb, is_max).ops,
                b.ops.len() as int,
                s,
            ) matches Outcome::Done { s: t } && floating::fpr(t, rd) == (if (f.order)(x, y)
                == FloatOrder::Unordered {
                (f.sum)(false, x, y)
            } else if is_max {
                (f.greatest)(x, y)
            } else {
                (f.least)(x, y)
            }) && same_fpr_but(s, t, rd, rd) && t.mem == s.mem && t.cpu == (Machine {
                cr0: t.cpu.cr0,
                ..s.cpu
            })
        }),
{
    let ops = emit_fp::fpu_min_max(b, rd, ra, rb, is_max).ops;
    let pc = b.ops.len() as int;
    let x = floating::fpr(s, ra);
    let y = floating::fpr(s, rb);
    let w0 = mnem::compare_fp(ra, rb);
    let w1 = mnem::fp_xx3(
        rd,
        ra,
        rb,
        if is_max {
            160
        } else {
            168
        },
    );
    let w3 = mnem::fadd(rd, ra, rb);
    assert(ops.len() == pc + 4);
    assert(ops[pc] == Emission::Word(w0));
    assert(ops[pc + 1] == Emission::Word(w1));
    assert(ops[pc + 2] == Emission::Word(mnem::bc(false, CR0_UN, 8)));
    assert(ops[pc + 3] == Emission::Word(w3));
    floating::lemma_compare_fp(f, s, ra, rb);
    let s1 = floating::step(f, s, w0)->0;
    lemma_run_word(f, ops, pc, s, w0, s1);
    floating::lemma_extremes(f, s1, rd, ra, rb);
    let s2 = floating::step(f, s1, w1)->0;
    lemma_run_word(f, ops, pc + 1, s1, w1, s2);
    floating::lemma_fpr(s1, rd, if is_max {
        (f.greatest)(x, y)
    } else {
        (f.least)(x, y)
    });
    assert(floating::skip(ops, pc + 2, 2) == pc + 4) by {
        assert(floating::skip(ops, pc + 4, 0) == pc + 4);
        assert(floating::skip(ops, pc + 3, 1) == pc + 4);
    }
    lemma_run_bc(f, ops, pc + 2, s2, false, CR0_UN, 8, pc + 4);
    if (f.order)(x, y) == FloatOrder::Unordered {
        floating::lemma_fadd(f, s2, rd, ra, rb);
        let s3 = floating::step(f, s2, w3)->0;
        lemma_run_word(f, ops, pc + 3, s2, w3, s3);
        floating::lemma_fpr(s2, rd, (f.sum)(false, x, y));
        assert(floating::run(f, ops, pc, s) == (Outcome::Done { s: s3 }));
    } else {
        assert(floating::run(f, ops, pc, s) == (Outcome::Done { s: s2 }));
    }
}

// Conversions to integers.

/// A conversion on the machine.
proof fn lemma_convert(f: Arithmetic, s: State, signed: bool, out_64: bool, t: u32, n: u32)
    requires
        t < 32,
        n < 32,
    ensures
        floating::step(f, s, emit_fp::convert(signed, out_64, t, n)) == Some(
            floating::set_fpr(s, t, (f.convert)(signed, out_64, floating::fpr(s, n))),
        ),
        !laws_flow::is_branch(emit_fp::convert(signed, out_64, t, n)),
{
    let xo: u32 = if signed {
        if out_64 {
            815
        } else {
            15
        }
    } else if out_64 {
        943
    } else {
        143
    };
    machine::law_x_fields(63, t, 0, n, xo);
    reveal(floating::step);
}

/// The end of a conversion: the conversion itself, and the move of its result.
proof fn lemma_converted(
    f: Arithmetic,
    ops: Seq<Emission>,
    pc: int,
    s: State,
    rd: u32,
    tmp: u32,
    rn: u32,
    signed: bool,
    out_64: bool,
)
    requires
        memory::wf(s),
        rd < 32,
        tmp < 32,
        rn < 32,
        0 <= pc,
        ops.len() == pc + 2,
        ops[pc] == Emission::Word(emit_fp::convert(signed, out_64, tmp, rn)),
        ops[pc + 1] == Emission::Word(mnem::mfvsrd_f(rd, tmp)),
    ensures
        floating::run(f, ops, pc, s) matches Outcome::Done { s: t } && t.cpu.gpr[rd as int] == (
        f.convert)(signed, out_64, floating::fpr(s, rn)) && same_fpr_but(s, t, tmp, tmp) && t.mem
            == s.mem && machine::same_but(s.cpu, t.cpu, rd, rd),
{
    let w0 = emit_fp::convert(signed, out_64, tmp, rn);
    let w1 = mnem::mfvsrd_f(rd, tmp);
    lemma_convert(f, s, signed, out_64, tmp, rn);
    let s1 = floating::step(f, s, w0)->0;
    lemma_run_word(f, ops, pc, s, w0, s1);
    floating::lemma_fpr(s, tmp, (f.convert)(signed, out_64, floating::fpr(s, rn)));
    floating::lemma_moves(f, s1, rd, tmp);
    let s2 = floating::step(f, s1, w1)->0;
    lemma_run_word(f, ops, pc + 1, s1, w1, s2);
    assert(floating::run(f, ops, pc, s) == (Outcome::Done { s: s2 }));
}

/// A saturating conversion gives zero for what is not a number, which alone is
/// unordered with itself, and else what the hardware gives. Besides the destination,
/// at most the temporary register changes.
pub proof fn law_saturating_conversion(
    f: Arithmetic,
    b: BufferView,
    s: State,
    rd: u32,
    tmp: u32,
    rn: u32,
    signed: bool,
    out_64: bool,
)
    requires
        memory::wf(s),
        rd < 32,
        tmp < 32,
        rn < 32,
    ensures
        ({
            let x = floating::fpr(s, rn);
            floating::run(
                f,
                emit_fp::fpu_to_int_sat(b, rd, tmp, rn, signed, out_64).ops,
                b.ops.len() as int,
                s,
            ) matches Outcome::Done { s: t } && t.cpu.gpr[rd as int] == (if (f.order)(x, x)
                == FloatOrder::Unordered {
                0
            } else {
                (f.convert)(signed, out_64, x)
            }) && same_fpr_but(s, t, tmp, tmp) && t.mem == s.mem && machine::same_but(
                s.cpu,
                t.cpu,
                rd,
                rd,
            )
        }),
{
    let ops = emit_fp::fpu_to_int_sat(b, rd, tmp, rn, signed, out_64).ops;
    let pc = b.ops.len() as int;
    let x = floating::fpr(s, rn);
    let w0 = mnem::compare_fp(rn, rn);
    let w2 = mnem::li(rd, 0);
    assert(ops.len() == pc + 6);
    assert(ops[pc] == Emission::Word(w0));
    assert(ops[pc + 1] == Emission::Word(mnem::bc(false, CR0_UN, 12)));
    assert(ops[pc + 2] == Emission::Word(w2));
    assert(ops[pc + 3] == Emission::Word(mnem::b(12)));
    assert(ops[pc + 4] == Emission::Word(emit_fp::convert(signed, out_64, tmp, rn)));
    assert(ops[pc + 5] == Emission::Word(mnem::mfvsrd_f(rd, tmp)));
    floating::lemma_compare_fp(f, s, rn, rn);
    let s1 = floating::step(f, s, w0)->0;
    lemma_run_word(f, ops, pc, s, w0, s1);
    assert(floating::skip(ops, pc + 1, 3) == pc + 4) by {
        assert(floating::skip(ops, pc + 4, 0) == pc + 4);
        assert(floating::skip(ops, pc + 3, 1) == pc + 4);
        assert(floating::skip(ops, pc + 2, 2) == pc + 4);
    }
    lemma_run_bc(f, ops, pc + 1, s1, false, CR0_UN, 12, pc + 4);
    if (f.order)(x, x) == FloatOrder::Unordered {
        machine::law_d_fields(14, rd, 0, 0);
        floating::lemma_lift(f, s1, w2);
        laws_vec::lemma_li(s1, rd, 0);
        let s2 = memory::set_gpr(s1, rd, 0);
        lemma_run_word(f, ops, pc + 2, s1, w2, s2);
        machine::law_b_fields(12);
        assert(floating::skip(ops, pc + 3, 3) == pc + 6) by {
            assert(floating::skip(ops, pc + 6, 0) == pc + 6);
            assert(floating::skip(ops, pc + 5, 1) == pc + 6);
            assert(floating::skip(ops, pc + 4, 2) == pc + 6);
        }
        assert(floating::run(f, ops, pc + 3, s2) == floating::run(f, ops, pc + 6, s2));
        assert(floating::run(f, ops, pc, s) == (Outcome::Done { s: s2 }));
    } else {
        lemma_converted(f, ops, pc + 4, s1, rd, tmp, rn, signed, out_64);
    }
}

/// Running fixed-point words that constants are made by.
proof fn lemma_run_plain(
    f: Arithmetic,
    ops: Seq<Emission>,
    pc: int,
    s: State,
    ws: Seq<u32>,
    m: Machine,
)
    requires
        0 <= pc,
        pc + ws.len() <= ops.len(),
        forall|j: int| 0 <= j < ws.len() ==> #[trigger] ops[pc + j] == Emission::Word(ws[j]),
        forall|j: int| 0 <= j < ws.len() ==> laws_mem::is_plain(#[trigger] ws[j]),
        machine::run_words(s.cpu, ws) == Some(m),
    ensures
        floating::run(f, ops, pc, s) == floating::run(f, ops, pc + ws.len(), State { cpu: m, ..s }),
    decreases ws.len(),
{
    if ws.len() > 0 {
        let rest = ws.drop_last();
        let k = machine::run_words(s.cpu, rest)->0;
        assert forall|j: int| 0 <= j < rest.len() implies #[trigger] ops[pc + j] == Emission::Word(
            rest[j],
        ) by {
            assert(ops[pc + j] == Emission::Word(ws[j]));
        }
        assert forall|j: int| 0 <= j < rest.len() implies laws_mem::is_plain(
            #[trigger] rest[j],
        ) by {
            assert(laws_mem::is_plain(ws[j]));
        }
        lemma_run_plain(f, ops, pc, s, rest, k);
        let w = ws[ws.len() - 1];
        let u = State { cpu: k, ..s };
        assert(laws_mem::is_plain(w));
        assert(ops[pc + (ws.len() - 1)] == Emission::Word(w));
        laws_mem::lemma_plain(u, w);
        floating::lemma_lift(f, u, w);
        lemma_run_word(f, ops, pc + ws.len() - 1, u, w, State { cpu: m, ..u });
    } else {
        assert(State { cpu: m, ..s } == s);
    }
}

/// The part of a log that checks one bound.
pub open spec fn check_ops(rd: u32, tmp: u32, rn: u32, bound: u64, bit: u32) -> Seq<Emission> {
    emit_int::load_constant(rd, bound).map_values(|w: u32| Emission::Word(w)) + seq![
        Emission::Word(mnem::mtvsrd_f(tmp, rd)),
        Emission::Word(mnem::compare_fp(rn, tmp)),
        Emission::Word(mnem::bc(true, bit, 8)),
        Emission::Trap { code: TrapCode::IntegerOverflow },
        Emission::Word(TRAP_INSTRUCTION),
    ]
}

/// The part of a log that checks for what is not a number.
pub open spec fn number_ops(rn: u32) -> Seq<Emission> {
    seq![
        Emission::Word(mnem::compare_fp(rn, rn)),
        Emission::Word(mnem::bc(false, CR0_UN, 8)),
        Emission::Trap { code: TrapCode::BadConversionToInteger },
        Emission::Word(TRAP_INSTRUCTION),
    ]
}

/// The part of a log that converts.
pub open spec fn convert_ops(rd: u32, tmp: u32, rn: u32, signed: bool, out_64: bool) -> Seq<
    Emission,
> {
    seq![
        Emission::Word(emit_fp::convert(signed, out_64, tmp, rn)),
        Emission::Word(mnem::mfvsrd_f(rd, tmp)),
    ]
}

/// Running a check of one bound.
proof fn lemma_check(
    f: Arithmetic,
    ops: Seq<Emission>,
    pc: int,
    s: State,
    rd: u32,
    tmp: u32,
    rn: u32,
    bound: u64,
    bit: u32,
) -> (t: State)
    requires
        memory::wf(s),
        rd < 32,
        tmp < 32,
        rn < 32,
        tmp != rn,
        bit < 4,
        0 <= pc,
        pc + check_ops(rd, tmp, rn, bound, bit).len() <= ops.len(),
        forall|j: int|
            0 <= j < check_ops(rd, tmp, rn, bound, bit).len() ==> #[trigger] ops[pc + j]
                == check_ops(rd, tmp, rn, bound, bit)[j],
    ensures
        memory::wf(t),
        t.mem == s.mem,
        same_fpr_but(s, t, tmp, tmp),
        machine::same_but(s.cpu, t.cpu, rd, rd),
        floating::run(f, ops, pc, s) == (if args::outcome_bit(
            (f.order)(floating::fpr(s, rn), bound),
            bit,
        ) {
            floating::run(f, ops, pc + check_ops(rd, tmp, rn, bound, bit).len(), t)
        } else {
            Outcome::Trapped { code: TrapCode::IntegerOverflow }
        }),
{
    let c = emit_int::load_constant(rd, bound);
    let part = check_ops(rd, tmp, rn, bound, bit);
    let k = c.len() as int;
    assert(part.len() == k + 5);
    assert forall|j: int| 0 <= j < k implies #[trigger] ops[pc + j] == Emission::Word(c[j]) by {
        assert(ops[pc + j] == part[j]);
    }
    assert(ops[pc + k] == part[k]);
    assert(ops[pc + (k + 1)] == part[k + 1]);
    assert(ops[pc + (k + 2)] == part[k + 2]);
    assert(ops[pc + (k + 3)] == part[k + 3]);
    assert(ops[pc + (k + 4)] == part[k + 4]);
    laws_int::law_constant_is_materialized(s.cpu, rd, bound);
    laws_mem::lemma_constant_is_plain(rd, bound);
    let m = machine::set(s.cpu, rd, bound);
    lemma_run_plain(f, ops, pc, s, c, m);
    let s1 = State { cpu: m, ..s };
    let w = mnem::mtvsrd_f(tmp, rd);
    floating::lemma_moves(f, s1, rd, tmp);
    let s2 = floating::set_fpr(s1, tmp, bound);
    lemma_run_word(f, ops, pc + k, s1, w, s2);
    floating::lemma_fpr(s1, tmp, bound);
    let w2 = mnem::compare_fp(rn, tmp);
    floating::lemma_compare_fp(f, s2, rn, tmp);
    let s3 = floating::step(f, s2, w2)->0;
    lemma_run_word(f, ops, pc + k + 1, s2, w2, s3);
    assert(floating::skip(ops, pc + k + 2, 2) == pc + k + 5) by {
        assert(floating::skip(ops, pc + k + 5, 0) == pc + k + 5);
        assert(floating::skip(ops, pc + k + 4, 1) == pc + k + 5);
        assert(floating::skip(ops, pc + k + 3, 1) == pc + k + 5);
    }
    lemma_run_bc(f, ops, pc + k + 2, s3, true, bit, 8, pc + k + 5);
    assert(floating::run(f, ops, pc + k + 3, s3) == (Outcome::Trapped {
        code: TrapCode::IntegerOverflow,
    }));
    s3
}

/// Running the check for what is not a number.
proof fn lemma_number_check(f: Arithmetic, ops: Seq<Emission>, pc: int, s: State, rn: u32) -> (t:
    State)
    requires
        rn < 32,
        0 <= pc,
        pc + 4 <= ops.len(),
        forall|j: int| 0 <= j < 4 ==> #[trigger] ops[pc + j] == number_ops(rn)[j],
    ensures
        t == (State { cpu: Machine { cr0: t.cpu.cr0, ..s.cpu }, ..s }),
        floating::run(f, ops, pc, s) == (if (f.order)(floating::fpr(s, rn), floating::fpr(s, rn))
            == FloatOrder::Unordered {
            Outcome::Trapped { code: TrapCode::BadConversionToInteger }
        } else {
            floating::run(f, ops, pc + 4, t)
        }),
{
    let part = number_ops(rn);
    assert(ops[pc + 0] == part[0]);
    assert(ops[pc + 1] == part[1]);
    assert(ops[pc + 2] == part[2]);
    assert(ops[pc + 3] == part[3]);
    let w0 = mnem::compare_fp(rn, rn);
    floating::lemma_compare_fp(f, s, rn, rn);
    let t = floating::step(f, s, w0)->0;
    lemma_run_word(f, ops, pc, s, w0, t);
    assert(floating::skip(ops, pc + 1, 2) == pc + 4) by {
        assert(floating::skip(ops, pc + 4, 0) == pc + 4);
        assert(floating::skip(ops, pc + 3, 1) == pc + 4);
        assert(floating::skip(ops, pc + 2, 1) == pc + 4);
    }
    lemma_run_bc(f, ops, pc + 1, t, false, CR0_UN, 8, pc + 4);
    assert(floating::run(f, ops, pc + 2, t) == (Outcome::Trapped {
        code: TrapCode::BadConversionToInteger,
    }));
    t
}

/// The part of a log that a trapping conversion is.
pub open spec fn trapping_ops(
    rd: u32,
    tmp: u32,
    rn: u32,
    signed: bool,
    single: bool,
    out_bits: u32,
) -> Seq<Emission> {
    let (lo, hi) = cvt::spec_bounds(single, signed, out_bits);
    number_ops(rn) + check_ops(rd, tmp, rn, lo, CR0_GT) + check_ops(rd, tmp, rn, hi, CR0_LT)
        + convert_ops(rd, tmp, rn, signed, out_bits == 64)
}

/// What is emitted for a check of one bound.
proof fn lemma_check_log(b: BufferView, rd: u32, tmp: u32, rn: u32, bound: u64, bit: u32)
    ensures
        emit_fp::bound_check(b, rd, tmp, rn, bound, bit).ops == b.ops + check_ops(
            rd,
            tmp,
            rn,
            bound,
            bit,
        ),
{
    assert(emit_fp::bound_check(b, rd, tmp, rn, bound, bit).ops =~= b.ops + check_ops(
        rd,
        tmp,
        rn,
        bound,
        bit,
    ));
}

/// What is emitted for a trapping conversion.
proof fn lemma_trapping_log(
    b: BufferView,
    rd: u32,
    tmp: u32,
    rn: u32,
    signed: bool,
    single: bool,
    out_bits: u32,
)
    ensures
        emit_fp::fpu_to_int_trap(b, rd, tmp, rn, signed, single, out_bits).ops == b.ops
            + trapping_ops(rd, tmp, rn, signed, single, out_bits),
{
    let (lo, hi) = cvt::spec_bounds(single, signed, out_bits);
    let b1 = emit_int::udf(
        b.word(mnem::compare_fp(rn, rn)).word(mnem::bc(false, CR0_UN, 8)),
        TrapCode::BadConversionToInteger,
    );
    assert(b1.ops =~= b.ops + number_ops(rn));
    let b2 = emit_fp::bound_check(b1, rd, tmp, rn, lo, CR0_GT);
    lemma_check_log(b1, rd, tmp, rn, lo, CR0_GT);
    lemma_check_log(b2, rd, tmp, rn, hi, CR0_LT);
    assert(emit_fp::fpu_to_int_trap(b, rd, tmp, rn, signed, single, out_bits).ops =~= b.ops
        + trapping_ops(rd, tmp, rn, signed, single, out_bits));
}

/// A trapping conversion traps for what is not a number, and where the number does
/// not lie strictly between the bounds of the integer type; else it gives what the
/// hardware gives. Besides the destination, at most the temporary register changes.
pub proof fn law_trapping_conversion(
    f: Arithmetic,
    b: BufferView,
    s: State,
    rd: u32,
    tmp: u32,
    rn: u32,
    signed: bool,
    single: bool,
    out_bits: u32,
)
    requires
        memory::wf(s),
        rd < 32,
        tmp < 32,
        rn < 32,
        tmp != rn,
    ensures
        ({
            let x = floating::fpr(s, rn);
            let (lo, hi) = cvt::spec_bounds(single, signed, out_bits);
            let out = floating::run(
                f,
                emit_fp::fpu_to_int_trap(b, rd, tmp, rn, signed, single, out_bits).ops,
                b.ops.len() as int,
                s,
            );
            if (f.order)(x, x) == FloatOrder::Unordered {
                out == (Outcome::Trapped { code: TrapCode::BadConversionToInteger })
            } else if (f.order)(x, lo) != FloatOrder::Greater || (f.order)(x, hi)
                != FloatOrder::Less {
                out == (Outcome::Trapped { code: TrapCode::IntegerOverflow })
            } else {
                out matches Outcome::Done { s: t } && t.cpu.gpr[rd as int] == (f.convert)(
                    signed,
                    out_bits == 64,
                    x,
                ) && same_fpr_but(s, t, tmp, tmp) && t.mem == s.mem && machine::same_but(
                    s.cpu,
                    t.cpu,
                    rd,
                    rd,
                )
            }
        }),
{
    let (lo, hi) = cvt::spec_bounds(single, signed, out_bits);
    let ops = emit_fp::fpu_to_int_trap(b, rd, tmp, rn, signed, single, out_bits).ops;
    let pc = b.ops.len() as int;
    let x = floating::fpr(s, rn);
    lemma_trapping_log(b, rd, tmp, rn, signed, single, out_bits);
    let p0 = number_ops(rn);
    let p1 = check_ops(rd, tmp, rn, lo, CR0_GT);
    let p2 = check_ops(rd, tmp, rn, hi, CR0_LT);
    let p3 = convert_ops(rd, tmp, rn, signed, out_bits == 64);
    let pc1 = pc + 4;
    let pc2 = pc1 + p1.len();
    let pc3 = pc2 + p2.len();
    assert(ops == b.ops + (p0 + p1 + p2 + p3));
    assert(ops.len() == pc3 + 2);
    assert forall|j: int| 0 <= j < 4 implies #[trigger] ops[pc + j] == p0[j] by {}
    assert forall|j: int| 0 <= j < p1.len() implies #[trigger] ops[pc1 + j] == p1[j] by {}
    assert forall|j: int| 0 <= j < p2.len() implies #[trigger] ops[pc2 + j] == p2[j] by {}
    assert(ops[pc3] == p3[0]);
    assert(ops[pc3 + 1] == p3[1]);
    let s1 = lemma_number_check(f, ops, pc, s, rn);
    let s2 = lemma_check(f, ops, pc1, s1, rd, tmp, rn, lo, CR0_GT);
    let s3 = lemma_check(f, ops, pc2, s2, rd, tmp, rn, hi, CR0_LT);
    lemma_converted(f, ops, pc3, s3, rd, tmp, rn, signed, out_bits == 64);
    assert(floating::fpr(s2, rn) == x);
    assert(floating::fpr(s3, rn) == x);
}

// Compares.

/// The words of a floating-point compare with the `cror` that some conditions need.
pub open spec fn compare_words(c: FloatCompare) -> Seq<u32> {
    seq![mnem::compare_fp(c.rs1.num(), c.rs2.num())] + match c.spec_cr_plan().0 {
        Some((bt, ba, bb)) => seq![mnem::cror(bt, ba, bb)],
        None => seq![],
    }
}

/// How the operands of a comparison compare.
pub open spec fn outcome(f: Arithmetic, s: State, c: FloatCompare) -> FloatOrder {
    (f.order)(floating::fpr(s, c.rs1.num()), floating::fpr(s, c.rs2.num()))
}

/// Running the words of a compare in a log. Afterwards the bit of the plan has its
/// polarity where the condition holds, and where not, the other one. Nothing but the
/// condition field changes.
proof fn lemma_compared(
    f: Arithmetic,
    ops: Seq<Emission>,
    pc: int,
    s: State,
    c: FloatCompare,
) -> (t: State)
    requires
        0 <= pc,
        pc + compare_words(c).len() <= ops.len(),
        forall|j: int|
            0 <= j < compare_words(c).len() ==> #[trigger] ops[pc + j] == Emission::Word(
                compare_words(c)[j],
            ),
    ensures
        floating::run(f, ops, pc, s) == floating::run(f, ops, pc + compare_words(c).len(), t),
        (machine::cr_bit(t.cpu, c.spec_cr_plan().1) == c.spec_cr_plan().2) == c.kind.holds(
            outcome(f, s, c),
        ),
        t == (State { cpu: Machine { cr0: t.cpu.cr0, ..s.cpu }, ..s }),
{
    let ws = compare_words(c);
    let w0 = mnem::compare_fp(c.rs1.num(), c.rs2.num());
    assert(ws[0] == w0);
    assert(ops[pc + 0] == Emission::Word(ws[0]));
    floating::lemma_compare_fp(f, s, c.rs1.num(), c.rs2.num());
    let s1 = floating::step(f, s, w0)->0;
    lemma_run_word(f, ops, pc, s, w0, s1);
    match c.spec_cr_plan().0 {
        Some((bt, ba, bb)) => {
            let w1 = mnem::cror(bt, ba, bb);
            assert(ws.len() == 2 && ws[1] == w1);
            assert(ops[pc + 1] == Emission::Word(ws[1]));
            floating::lemma_cror(f, s1, bt, ba, bb);
            let s2 = floating::step(f, s1, w1)->0;
            lemma_run_word(f, ops, pc + 1, s1, w1, s2);
            s2
        },
        None => {
            assert(ws.len() == 1);
            s1
        },
    }
}

/// A conditional branch on a floating-point comparison goes to its taken label where
/// the condition holds of how the operands compare, and else to its other label or
/// on. It changes nothing but the condition field.
pub proof fn law_float_branch(
    f: Arithmetic,
    b: BufferView,
    s: State,
    taken: MachLabel,
    not_taken: CondBrTarget,
    c: FloatCompare,
)
    ensures
        ({
            let out = floating::run(
                f,
                emit_int::fpu_cond_br(b, taken, not_taken, c).ops,
                b.ops.len() as int,
                s,
            );
            let same = |t: State| t == (State { cpu: Machine { cr0: t.cpu.cr0, ..s.cpu }, ..s });
            if c.kind.holds(outcome(f, s, c)) {
                out matches Outcome::Jumped { label, s: t } && label == taken && same(t)
            } else {
                match not_taken {
                    CondBrTarget::Label(other) => out matches Outcome::Jumped { label, s: t }
                        && label == other && same(t),
                    CondBrTarget::Fallthrough => out matches Outcome::Done { s: t } && same(t),
                }
            }
        }),
{
    let ops = emit_int::fpu_cond_br(b, taken, not_taken, c).ops;
    let pc = b.ops.len() as int;
    let ws = compare_words(c);
    let bit = c.spec_cr_plan().1;
    let polarity = c.spec_cr_plan().2;
    assert forall|j: int| 0 <= j < ws.len() implies #[trigger] ops[pc + j] == Emission::Word(
        ws[j],
    ) by {}
    let t = lemma_compared(f, ops, pc, s, c);
    let at = pc + ws.len();
    assert(ops[at] == (Emission::UseLabel { label: taken, kind: LabelUse::Branch16 }));
    assert(ops[at + 1] is CondBranch);
    assert(ops[at + 2] == Emission::Word(mnem::bc(polarity, bit, 0)));
    machine::law_bc_fields(polarity, bit, 0);
    match not_taken {
        CondBrTarget::Label(label) => {
            assert(ops[at + 3] == (Emission::UseLabel { label, kind: LabelUse::Branch26 }));
            assert(ops[at + 4] is UncondBranch);
            assert(ops[at + 5] == Emission::Word(mnem::b(0)));
            machine::law_b_fields(0);
            assert(floating::run(f, ops, at + 3, t) == (Outcome::Jumped { label, s: t }));
        },
        CondBrTarget::Fallthrough => {
            assert(ops.len() == at + 3);
            assert(floating::run(f, ops, at + 3, t) == (Outcome::Done { s: t }));
        },
    }
}

// Choices.

/// `isel` on a bit of the first condition field.
proof fn lemma_isel(f: Arithmetic, s: State, rt: u32, ra: u32, rb: u32, bit: u32)
    requires
        memory::wf(s),
        rt < 32,
        ra < 32,
        rb < 32,
        bit < 4,
    ensures
        floating::step(f, s, mnem::isel(rt, ra, rb, bit)) == Some(
            memory::set_gpr(
                s,
                rt,
                if machine::cr_bit(s.cpu, bit) {
                    machine::base(s.cpu, ra)
                } else {
                    s.cpu.gpr[rb as int]
                },
            ),
        ),
        !laws_flow::is_branch(mnem::isel(rt, ra, rb, bit)),
{
    let w = mnem::isel(rt, ra, rb, bit);
    machine::law_a_fields(31, rt, ra, rb, bit, 15);
    laws_vec::lemma_bits(0, 0, w);
    floating::lemma_lift(f, s, w);
    laws_flow::lemma_isel(s.cpu, rt, ra, rb, bit);
    reveal(memory::step);
}

/// `li` of a small number.
proof fn lemma_li(f: Arithmetic, s: State, rd: u32, si: u16)
    requires
        memory::wf(s),
        rd < 32,
        si < 0x8000,
    ensures
        floating::step(f, s, mnem::li(rd, si)) == Some(memory::set_gpr(s, rd, si as u64)),
        !laws_flow::is_branch(mnem::li(rd, si)),
{
    machine::law_d_fields(14, rd, 0, si as u32);
    floating::lemma_lift(f, s, mnem::li(rd, si));
    laws_vec::lemma_li(s, rd, si);
}

/// A floating-point compare turned into a register leaves one where the condition
/// holds of how the operands compare, and zero where not. Besides the destination,
/// at most r0 changes.
pub proof fn law_float_comparison_to_register(
    f: Arithmetic,
    b: BufferView,
    s: State,
    rd: u32,
    c: FloatCompare,
)
    requires
        memory::wf(s),
        0 < rd < 32,
    ensures
        floating::run(
            f,
            emit_int::bit_to_reg(
                c.compared(b),
                rd,
                c.spec_cr_plan().1,
                c.spec_cr_plan().2,
            ).ops,
            b.ops.len() as int,
            s,
        ) matches Outcome::Done { s: t } && t.cpu.gpr[rd as int] == machine::one_if(
            c.kind.holds(outcome(f, s, c)),
        ) && machine::same_but(s.cpu, t.cpu, rd, 0) && t.vsr == s.vsr && t.mem == s.mem,
{
    let bit = c.spec_cr_plan().1;
    let polarity = c.spec_cr_plan().2;
    let ops = emit_int::bit_to_reg(c.compared(b), rd, bit, polarity).ops;
    let pc = b.ops.len() as int;
    let ws = compare_words(c);
    laws_const::lemma_zero(0);
    assert forall|j: int| 0 <= j < ws.len() implies #[trigger] ops[pc + j] == Emission::Word(
        ws[j],
    ) by {}
    let s1 = lemma_compared(f, ops, pc, s, c);
    let at = pc + ws.len();
    assert(ops[at] == Emission::Word(mnem::li(rd, 1)));
    lemma_li(f, s1, rd, 1);
    let s2 = memory::set_gpr(s1, rd, 1);
    lemma_run_word(f, ops, at, s1, mnem::li(rd, 1), s2);
    if polarity {
        assert(ops.len() == at + 3);
        assert(ops[at + 1] == Emission::Word(mnem::li(0, 0)));
        assert(ops[at + 2] == Emission::Word(mnem::isel(rd, rd, 0, bit)));
        lemma_li(f, s2, 0, 0);
        let s3 = memory::set_gpr(s2, 0, 0);
        lemma_run_word(f, ops, at + 1, s2, mnem::li(0, 0), s3);
        lemma_isel(f, s3, rd, rd, 0, bit);
        let s4 = floating::step(f, s3, mnem::isel(rd, rd, 0, bit))->0;
        lemma_run_word(f, ops, at + 2, s3, mnem::isel(rd, rd, 0, bit), s4);
        assert(floating::run(f, ops, pc, s) == (Outcome::Done { s: s4 }));
    } else {
        assert(ops.len() == at + 2);
        assert(ops[at + 1] == Emission::Word(mnem::isel(rd, 0, rd, bit)));
        lemma_isel(f, s2, rd, 0, rd, bit);
        let s3 = floating::step(f, s2, mnem::isel(rd, 0, rd, bit))->0;
        lemma_run_word(f, ops, at + 1, s2, mnem::isel(rd, 0, rd, bit), s3);
        assert(floating::run(f, ops, pc, s) == (Outcome::Done { s: s3 }));
    }
}

/// An integer compare.
proof fn lemma_integer_compare(f: Arithmetic, s: State, c: IntegerCompare)
    requires
        memory::wf(s),
    ensures
        floating::step(f, s, c.compare_word()) matches Some(t) && (machine::cr_bit(
            t.cpu,
            c.spec_bit_and_polarity().0,
        ) == c.spec_bit_and_polarity().1) == laws_flow::comparison_holds(c, s.cpu) && t == (State {
            cpu: Machine { cr0: t.cpu.cr0, ..s.cpu },
            ..s
        }),
        !laws_flow::is_branch(c.compare_word()),
{
    let l = emit_int::l_field(c.is_64);
    laws_flow::lemma_l_field(l);
    machine::law_x_fields(31, l, c.rs1.num(), c.rs2.num(), 0);
    machine::law_x_fields(31, l, c.rs1.num(), c.rs2.num(), 32);
    floating::lemma_lift(f, s, c.compare_word());
    laws_flow::law_compare_tells(c, s.cpu);
    reveal(memory::step);
}

/// A choice of two floating-point registers leaves the one or the other in the
/// destination, by whether the integer comparison holds. Besides it, r0 and r11
/// change, which the comparison does not read.
pub proof fn law_float_select(
    f: Arithmetic,
    b: BufferView,
    s: State,
    rd: u32,
    c: IntegerCompare,
    rt: u32,
    rf: u32,
)
    requires
        memory::wf(s),
        rd < 32,
        rt < 32,
        rf < 32,
        c.rs1.num() != 0,
        c.rs1.num() != 11,
        c.rs2.num() != 0,
        c.rs2.num() != 11,
    ensures
        floating::run(
            f,
            emit_fp::fpu_select(b, rd, c, rt, rf).ops,
            b.ops.len() as int,
            s,
        ) matches Outcome::Done { s: t } && floating::fpr(t, rd) == (if laws_flow::comparison_holds(
            c,
            s.cpu,
        ) {
            floating::fpr(s, rt)
        } else {
            floating::fpr(s, rf)
        }) && same_fpr_but(s, t, rd, rd) && machine::same_but(s.cpu, t.cpu, 11, 0) && t.mem
            == s.mem,
{
    let (bit, polarity) = c.spec_bit_and_polarity();
    let (if_set, if_clear) = if polarity {
        (rt, rf)
    } else {
        (rf, rt)
    };
    let ops = emit_fp::fpu_select(b, rd, c, rt, rf).ops;
    let pc = b.ops.len() as int;
    let w0 = mnem::mfvsrd_f(11, if_set);
    let w1 = mnem::mfvsrd_f(0, if_clear);
    let w2 = c.compare_word();
    let w3 = mnem::isel(11, 11, 0, bit);
    let w4 = mnem::mtvsrd_f(rd, 11);
    assert(ops.len() == pc + 5);
    assert(ops[pc] == Emission::Word(w0));
    assert(ops[pc + 1] == Emission::Word(w1));
    assert(ops[pc + 2] == Emission::Word(w2));
    assert(ops[pc + 3] == Emission::Word(w3));
    assert(ops[pc + 4] == Emission::Word(w4));
    floating::lemma_moves(f, s, 11, if_set);
    let s1 = memory::set_gpr(s, 11, floating::fpr(s, if_set));
    lemma_run_word(f, ops, pc, s, w0, s1);
    floating::lemma_moves(f, s1, 0, if_clear);
    let s2 = memory::set_gpr(s1, 0, floating::fpr(s, if_clear));
    lemma_run_word(f, ops, pc + 1, s1, w1, s2);
    lemma_integer_compare(f, s2, c);
    let s3 = floating::step(f, s2, w2)->0;
    lemma_run_word(f, ops, pc + 2, s2, w2, s3);
    lemma_isel(f, s3, 11, 11, 0, bit);
    let s4 = floating::step(f, s3, w3)->0;
    lemma_run_word(f, ops, pc + 3, s3, w3, s4);
    floating::lemma_moves(f, s4, 11, rd);
    let x = s4.cpu.gpr[11];
    let s5 = floating::set_fpr(s4, rd, x);
    lemma_run_word(f, ops, pc + 4, s4, w4, s5);
    floating::lemma_fpr(s4, rd, x);
    assert(laws_flow::comparison_holds(c, s2.cpu) == laws_flow::comparison_holds(c, s.cpu));
    assert(floating::run(f, ops, pc, s) == (Outcome::Done { s: s5 }));
}

} // verus!
