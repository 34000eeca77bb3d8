//! What emitted code with branches does: compares, selects, conditional branches,
//! traps and division.
use vstd::prelude::*;
use crate::args::{CondBrTarget, IntegerCompare, CR0_EQ, CR0_LT};
use crate::buffer::{BufferView, Emission, MachLabel};
use crate::emit_int;
use crate::emit_mem;
use crate::encode;
use crate::encode::TRAP_INSTRUCTION;
use crate::inst::{DivOp, ShiftOp};
use crate::ir::TrapCode;
use crate::label_use;
use crate::label_use::LabelUse;
use crate::laws_emit;
use crate::laws_int;
use crate::laws_ops;
use crate::machine;
use crate::machine::Machine;
use crate::mnem;

verus! {

// Running a log.

/// How a run of emitted code ends.
pub enum Outcome {
    /// At the end of the log.
    Done { m: Machine },
    /// With a trap.
    Trapped { code: TrapCode },
    /// At a label that is not bound further on in the log.
    Jumped { label: MachLabel, m: Machine },
    /// At something that the hardware leaves undefined or that is not known here.
    Stuck,
}

/// Where a label is bound at or behind a position.
pub open spec fn binding(ops: Seq<Emission>, label: MachLabel, from: int) -> Option<int>
    decreases ops.len() - from,
{
    if from < 0 || from >= ops.len() {
        None
    } else if ops[from] == (Emission::BindLabel { label }) {
        Some(from)
    } else {
        binding(ops, label, from + 1)
    }
}

/// The position of the branch word that belongs to a label use: behind the note
/// that it may be folded, where there is one.
pub open spec fn branch_at(ops: Seq<Emission>, pc: int) -> int {
    if ops[pc + 1] is UncondBranch || ops[pc + 1] is CondBranch {
        pc + 2
    } else {
        pc + 1
    }
}

/// Whether a branch word is one that is always taken.
pub open spec fn is_jump(w: u32) -> bool {
    machine::opcd(w) == 18
}

/// Whether a conditional branch is taken.
pub open spec fn is_taken(m: Machine, w: u32) -> bool {
    is_jump(w) || (machine::f1(w) == 12) == machine::cr_bit(m, machine::f2(w))
}

/// Whether a word is a branch that is known here.
pub open spec fn is_branch(w: u32) -> bool {
    is_jump(w) || (machine::opcd(w) == 16 && (machine::f1(w) == 12 || machine::f1(w) == 4))
}

/// Run emitted code from a position. Branches go to labels, and only forward.
pub open spec fn run(ops: Seq<Emission>, pc: int, m: Machine) -> Outcome
    decreases ops.len() - pc,
{
    if pc < 0 {
        Outcome::Stuck
    } else if pc >= ops.len() {
        Outcome::Done { m }
    } else {
        match ops[pc] {
            Emission::BindLabel { label } => run(ops, pc + 1, m),
            Emission::Word(w) => match machine::step(m, w) {
                Some(n) => run(ops, pc + 1, n),
                None => Outcome::Stuck,
            },
            Emission::Trap { code } => if pc + 1 < ops.len() && ops[pc + 1] == Emission::Word(
                TRAP_INSTRUCTION,
            ) {
                Outcome::Trapped { code }
            } else {
                Outcome::Stuck
            },
            Emission::UseLabel { label, kind } => {
                let at = branch_at(ops, pc);
                if at >= ops.len() {
                    Outcome::Stuck
                } else {
                    match ops[at] {
                        Emission::Word(w) => if !is_branch(w) {
                            Outcome::Stuck
                        } else if !is_taken(m, w) {
                            run(ops, at + 1, m)
                        } else {
                            match binding(ops, label, at + 1) {
                                Some(k) => if pc < k < ops.len() {
                                    run(ops, k, m)
                                } else {
                                    Outcome::Stuck
                                },
                                None => Outcome::Jumped { label, m },
                            }
                        },
                        _ => Outcome::Stuck,
                    }
                }
            },
            _ => Outcome::Stuck,
        }
    }
}

/// Where a label is bound.
pub proof fn lemma_binding(ops: Seq<Emission>, label: MachLabel, from: int, k: int)
    requires
        0 <= from <= k < ops.len(),
        ops[k] == (Emission::BindLabel { label }),
        forall|j: int| from <= j < k ==> #[trigger] ops[j] != (Emission::BindLabel { label }),
    ensures
        binding(ops, label, from) == Some(k),
    decreases k - from,
{
    if from < k {
        assert(ops[from] != (Emission::BindLabel { label }));
        lemma_binding(ops, label, from + 1, k);
    }
}

/// That a label is not bound.
pub proof fn lemma_no_binding(ops: Seq<Emission>, label: MachLabel, from: int)
    requires
        0 <= from,
        forall|j: int| from <= j < ops.len() ==> #[trigger] ops[j] != (Emission::BindLabel {
            label,
        }),
    ensures
        binding(ops, label, from) is None,
    decreases ops.len() - from,
{
    if from < ops.len() {
        assert(ops[from] != (Emission::BindLabel { label }));
        lemma_no_binding(ops, label, from + 1);
    }
}

/// Running words that are not branches.
proof fn lemma_run_words(ops: Seq<Emission>, pc: int, m: Machine, ws: Seq<u32>, n: Machine)
    requires
        0 <= pc,
        pc + ws.len() <= ops.len(),
        forall|j: int| 0 <= j < ws.len() ==> #[trigger] ops[pc + j] == Emission::Word(ws[j]),
        machine::run_words(m, ws) == Some(n),
    ensures
        run(ops, pc, m) == run(ops, pc + ws.len(), n),
    decreases ws.len(),
{
    if ws.len() > 0 {
        let rest = ws.drop_last();
        let k = machine::run_words(m, rest)->0;
        assert forall|j: int| 0 <= j < rest.len() implies #[trigger] ops[pc + j] == Emission::Word(
            rest[j],
        ) by {
            assert(ops[pc + j] == Emission::Word(ws[j]));
        }
        lemma_run_words(ops, pc, m, rest, k);
        assert(ops[pc + (ws.len() - 1)] == Emission::Word(ws[ws.len() - 1]));
    }
}

/// Whether a conditional branch with no displacement is taken.
pub proof fn lemma_bc(m: Machine, bit: u32, polarity: bool)
    requires
        bit < 32,
    ensures
        is_branch(mnem::bc(polarity, bit, 0)),
        is_taken(m, mnem::bc(polarity, bit, 0)) == (machine::cr_bit(m, bit) == polarity),
{
    machine::law_bc_fields(polarity, bit, 0);
}

// Compares.

/// The number that a register stands for in a compare or division.
pub open spec fn reading(signed: bool, is_64: bool, x: u64) -> int {
    if is_64 {
        if signed {
            machine::signed64(x)
        } else {
            x as int
        }
    } else if signed {
        machine::signed32(x)
    } else {
        machine::low32(x)
    }
}

/// Whether a comparison holds on a machine.
pub open spec fn comparison_holds(c: IntegerCompare, m: Machine) -> bool {
    let s = c.kind.spec_is_signed();
    c.kind.holds(
        reading(s, c.is_64, m.gpr[c.rs1.num() as int]),
        reading(s, c.is_64, m.gpr[c.rs2.num() as int]),
    )
}

/// The L field stands where a compare looks for it.
pub proof fn lemma_l_field(l: u32)
    ensures
        encode::bf_l(0, l) == l,
{
    assert((0u32 << 2) | l == l) by (bit_vector);
}

/// After the compare of a comparison, its bit and polarity tell whether it holds.
/// Nothing but the condition field changes.
pub proof fn law_compare_tells(c: IntegerCompare, m: Machine)
    requires
        machine::wf(m),
    ensures
        machine::step(m, c.compare_word()) matches Some(n) && (machine::cr_bit(
            n,
            c.spec_bit_and_polarity().0,
        ) == c.spec_bit_and_polarity().1) == comparison_holds(c, m) && n == (Machine {
            cr0: n.cr0,
            ..m
        }),
{
    reveal(machine::step);
    let l = emit_int::l_field(c.is_64);
    lemma_l_field(l);
    if c.kind.spec_is_signed() {
        machine::law_x_fields(31, l, c.rs1.num(), c.rs2.num(), 0);
    } else {
        machine::law_x_fields(31, l, c.rs1.num(), c.rs2.num(), 32);
        let (x, y) = (m.gpr[c.rs1.num() as int], m.gpr[c.rs2.num() as int]);
    }
}

/// `isel` on the machine.
pub proof fn lemma_isel(m: Machine, rt: u32, ra: u32, rb: u32, bit: u32)
    requires
        machine::wf(m),
        rt < 32,
        ra < 32,
        rb < 32,
        bit < 32,
    ensures
        machine::step(m, mnem::isel(rt, ra, rb, bit)) == Some(
            machine::set(
                m,
                rt,
                if machine::cr_bit(m, bit) {
                    machine::base(m, ra)
                } else {
                    m.gpr[rb as int]
                },
            ),
        ),
{
    reveal(machine::step);
    machine::law_a_fields(31, rt, ra, rb, bit, 15);
}

/// The words of a select.
pub open spec fn select_words(rd: u32, c: IntegerCompare, rt: u32, rf: u32) -> Seq<u32> {
    let (bit, polarity) = c.spec_bit_and_polarity();
    seq![c.compare_word()] + seq![
        if polarity {
            mnem::isel(rd, rt, rf, bit)
        } else {
            mnem::isel(rd, rf, rt, bit)
        },
    ]
}

/// A select leaves the one register or the other in its destination, by whether
/// the comparison holds, and changes no other.
pub proof fn law_select(b: BufferView, m: Machine, rd: u32, c: IntegerCompare, rt: u32, rf: u32)
    requires
        machine::wf(m),
        rd < 32,
        0 < rt < 32,
        0 < rf < 32,
    ensures
        emit_int::select(b, rd, c, rt, rf) == b.words(select_words(rd, c, rt, rf)),
        machine::run_words(m, select_words(rd, c, rt, rf)) matches Some(n) && n.gpr[rd as int] == (
        if comparison_holds(c, m) {
            m.gpr[rt as int]
        } else {
            m.gpr[rf as int]
        }) && machine::same_but(m, n, rd, rd),
{
    let (bit, polarity) = c.spec_bit_and_polarity();
    law_compare_tells(c, m);
    let m1 = machine::step(m, c.compare_word())->0;
    laws_int::lemma_run_one(m, c.compare_word());
    let w = if polarity {
        mnem::isel(rd, rt, rf, bit)
    } else {
        mnem::isel(rd, rf, rt, bit)
    };
    laws_int::lemma_run_push(m, seq![c.compare_word()], w);
    lemma_isel(m1, rd, rt, rf, bit);
    lemma_isel(m1, rd, rf, rt, bit);
    assert(emit_int::select(b, rd, c, rt, rf) =~= b.words(select_words(rd, c, rt, rf)));
}

/// The words that turn a condition into zero or one.
pub open spec fn bit_words(rd: u32, bit: u32, polarity: bool) -> Seq<u32> {
    if polarity {
        seq![mnem::li(rd, 1)] + emit_int::load_constant(0, 0) + seq![mnem::isel(rd, rd, 0, bit)]
    } else {
        seq![mnem::li(rd, 1)] + seq![mnem::isel(rd, 0, rd, bit)]
    }
}

/// A condition bit becomes one where it has the polarity, and zero where not.
/// Besides the destination, at most r0 changes.
pub proof fn law_bit_to_register(b: BufferView, m: Machine, rd: u32, bit: u32, polarity: bool)
    requires
        machine::wf(m),
        0 < rd < 32,
        bit < 32,
    ensures
        emit_int::bit_to_reg(b, rd, bit, polarity) == b.words(bit_words(rd, bit, polarity)),
        machine::run_words(m, bit_words(rd, bit, polarity)) matches Some(n) && n.gpr[rd as int] == (
        if machine::cr_bit(m, bit) == polarity {
            1u64
        } else {
            0u64
        }) && machine::same_but(m, n, rd, 0),
{
    let m1 = machine::set(m, rd, 1);
    laws_int::lemma_li(m, rd, 1);
    laws_int::lemma_run_one(m, mnem::li(rd, 1));
    let w1 = seq![mnem::li(rd, 1)];
    if polarity {
        let m2 = machine::set(m1, 0, 0);
        laws_int::law_constant_is_materialized(m1, 0, 0);
        laws_int::lemma_run_concat(m, w1, emit_int::load_constant(0, 0));
        lemma_isel(m2, rd, rd, 0, bit);
        laws_int::lemma_run_push(
            m,
            w1 + emit_int::load_constant(0, 0),
            mnem::isel(rd, rd, 0, bit),
        );
    } else {
        lemma_isel(m1, rd, 0, rd, bit);
        laws_int::lemma_run_push(m, w1, mnem::isel(rd, 0, rd, bit));
    }
    assert(emit_int::bit_to_reg(b, rd, bit, polarity) =~= b.words(bit_words(rd, bit, polarity)));
}

/// A compare turned into a register leaves one where the comparison holds and zero
/// where not. Besides the destination, at most r0 changes.
pub proof fn law_comparison_to_register(m: Machine, rd: u32, c: IntegerCompare)
    requires
        machine::wf(m),
        0 < rd < 32,
    ensures
        ({
            let (bit, polarity) = c.spec_bit_and_polarity();
            machine::run_words(m, seq![c.compare_word()] + bit_words(rd, bit, polarity)) matches Some(
                n,
            ) && n.gpr[rd as int] == (if comparison_holds(c, m) {
                1u64
            } else {
                0u64
            }) && machine::same_but(m, n, rd, 0)
        }),
{
    let (bit, polarity) = c.spec_bit_and_polarity();
    law_compare_tells(c, m);
    let m1 = machine::step(m, c.compare_word())->0;
    laws_int::lemma_run_one(m, c.compare_word());
    laws_int::lemma_run_concat(m, seq![c.compare_word()], bit_words(rd, bit, polarity));
    let b = BufferView { ops: Seq::empty(), size: 0, labels: 0, deadline: 0 };
    law_bit_to_register(b, m1, rd, bit, polarity);
}

// Branches and traps.

/// A conditional branch goes to its taken label where the comparison holds, and
/// else to its other label or on. It changes nothing but the condition field.
pub proof fn law_conditional_branch(
    b: BufferView,
    m: Machine,
    taken: MachLabel,
    not_taken: CondBrTarget,
    c: IntegerCompare,
)
    requires
        machine::wf(m),
    ensures
        ({
            let out = run(emit_int::cond_br(b, taken, not_taken, c).ops, b.ops.len() as int, m);
            let n = machine::step(m, c.compare_word())->0;
            if comparison_holds(c, m) {
                out == (Outcome::Jumped { label: taken, m: n })
            } else {
                match not_taken {
                    CondBrTarget::Label(label) => out == (Outcome::Jumped { label, m: n }),
                    CondBrTarget::Fallthrough => out == (Outcome::Done { m: n }),
                }
            }
        }),
{
    let ops = emit_int::cond_br(b, taken, not_taken, c).ops;
    let pc = b.ops.len() as int;
    let (bit, polarity) = c.spec_bit_and_polarity();
    law_compare_tells(c, m);
    let n = machine::step(m, c.compare_word())->0;
    assert(ops[pc] == Emission::Word(c.compare_word()));
    assert(run(ops, pc, m) == run(ops, pc + 1, n));
    assert(ops[pc + 1] == (Emission::UseLabel { label: taken, kind: LabelUse::Branch16 }));
    assert(ops[pc + 2] is CondBranch);
    assert(ops[pc + 3] == Emission::Word(mnem::bc(polarity, bit, 0)));
    lemma_bc(n, bit, polarity);
    if comparison_holds(c, m) {
        lemma_no_binding(ops, taken, pc + 4);
    } else {
        match not_taken {
            CondBrTarget::Label(label) => {
                assert(ops[pc + 4] == (Emission::UseLabel { label, kind: LabelUse::Branch26 }));
                assert(ops[pc + 5] is UncondBranch);
                assert(ops[pc + 6] == Emission::Word(mnem::b(0)));
                machine::law_b_fields(0);
                lemma_no_binding(ops, label, pc + 7);
                assert(run(ops, pc + 4, n) == (Outcome::Jumped { label, m: n }));
            },
            CondBrTarget::Fallthrough => {
                assert(run(ops, pc + 4, n) == (Outcome::Done { m: n }));
            },
        }
    }
}

/// A trap on a condition traps where the comparison holds, and else goes on with
/// nothing changed but the condition field.
pub proof fn law_conditional_trap(b: BufferView, m: Machine, c: IntegerCompare, code: TrapCode)
    requires
        machine::wf(m),
    ensures
        ({
            let out = run(emit_int::trap_if(b, c, code).ops, b.ops.len() as int, m);
            if comparison_holds(c, m) {
                out == (Outcome::Trapped { code })
            } else {
                out is Done && out->Done_m == (Machine { cr0: out->Done_m.cr0, ..m })
            }
        }),
{
    let ops = emit_int::trap_if(b, c, code).ops;
    let pc = b.ops.len() as int;
    let inv = c.spec_inverse();
    let (bit, polarity) = inv.spec_bit_and_polarity();
    law_compare_tells(inv, m);
    let n = machine::step(m, inv.compare_word())->0;
    assert(comparison_holds(inv, m) == !comparison_holds(c, m));
    assert(ops[pc] == Emission::Word(inv.compare_word()));
    assert(run(ops, pc, m) == run(ops, pc + 1, n));
    assert(ops[pc + 1] == (Emission::UseLabel { label: b.fresh(), kind: LabelUse::Branch16 }));
    assert(ops[pc + 2] is CondBranch);
    assert(ops[pc + 3] == Emission::Word(mnem::bc(polarity, bit, 0)));
    assert(ops[pc + 4] == (Emission::Trap { code }));
    assert(ops[pc + 5] == Emission::Word(TRAP_INSTRUCTION));
    assert(ops[pc + 6] == (Emission::BindLabel { label: b.fresh() }));
    lemma_bc(n, bit, polarity);
    if comparison_holds(c, m) {
        assert(run(ops, pc + 4, n) == (Outcome::Trapped { code }));
    } else {
        lemma_binding(ops, b.fresh(), pc + 4, pc + 6);
        assert(run(ops, pc + 7, n) == (Outcome::Done { m: n }));
        assert(run(ops, pc + 6, n) == (Outcome::Done { m: n }));
    }
}

// Division.

/// A block that traps where a compare finds equality, and else goes on behind it.
proof fn lemma_guard(
    ops: Seq<Emission>,
    pc: int,
    m: Machine,
    n: Machine,
    w: u32,
    label: MachLabel,
    code: TrapCode,
)
    requires
        0 <= pc,
        pc + 6 <= ops.len(),
        ops[pc] == Emission::Word(w),
        machine::step(m, w) == Some(n),
        ops[pc + 1] == (Emission::UseLabel { label, kind: LabelUse::Branch16 }),
        ops[pc + 2] == Emission::Word(mnem::bc(false, CR0_EQ, 0)),
        ops[pc + 3] == (Emission::Trap { code }),
        ops[pc + 4] == Emission::Word(TRAP_INSTRUCTION),
        ops[pc + 5] == (Emission::BindLabel { label }),
    ensures
        run(ops, pc, m) == (if n.cr0.eq {
            Outcome::Trapped { code }
        } else {
            run(ops, pc + 6, n)
        }),
{
    lemma_bc(n, CR0_EQ, false);
    assert(run(ops, pc, m) == run(ops, pc + 1, n));
    assert(run(ops, pc + 3, n) == (Outcome::Trapped { code }));
    lemma_binding(ops, label, pc + 3, pc + 5);
    assert(run(ops, pc + 5, n) == run(ops, pc + 6, n));
}

/// A compare with an immediate on the machine.
proof fn lemma_compare_imm(m: Machine, is_64: bool, ra: u32, si: u16)
    requires
        machine::wf(m),
        ra < 32,
    ensures
        machine::step(m, mnem::compare_imm(emit_int::l_field(is_64), ra, si)) == Some(
            machine::compared(
                m,
                reading(true, is_64, m.gpr[ra as int]),
                machine::signed16(si as u32),
            ),
        ),
{
    reveal(machine::step);
    let l = emit_int::l_field(is_64);
    lemma_l_field(l);
    machine::law_d_fields(11, l, ra, si as u32);
}

/// A signed compare on the machine.
pub proof fn lemma_compare(m: Machine, is_64: bool, ra: u32, rb: u32)
    requires
        machine::wf(m),
        ra < 32,
        rb < 32,
    ensures
        machine::step(m, mnem::compare(emit_int::l_field(is_64), ra, rb)) == Some(
            machine::compared(
                m,
                reading(true, is_64, m.gpr[ra as int]),
                reading(true, is_64, m.gpr[rb as int]),
            ),
        ),
{
    reveal(machine::step);
    let l = emit_int::l_field(is_64);
    lemma_l_field(l);
    machine::law_x_fields(31, l, ra, rb, 0);
}

/// Whether a division is of signed numbers.
pub open spec fn is_signed_division(op: DivOp) -> bool {
    op == DivOp::SDiv || op == DivOp::SRem
}

/// What a division or remainder of numbers is: rounded toward zero.
pub open spec fn division_value(op: DivOp, x: int, y: int) -> int {
    if op == DivOp::SDiv || op == DivOp::UDiv {
        machine::quotient(x, y)
    } else {
        machine::remainder(x, y)
    }
}

/// Whether a register, or its lower half, holds a number.
pub open spec fn holds_number(is_64: bool, v: u64, x: int) -> bool {
    if is_64 {
        v == machine::wrap(x)
    } else {
        machine::low32(v) == x % machine::two32()
    }
}

/// The least signed number of the width.
pub open spec fn least(is_64: bool) -> int {
    if is_64 {
        -0x8000_0000_0000_0000
    } else {
        -0x8000_0000
    }
}

/// The modulus of the width.
spec fn modulus(is_64: bool) -> int {
    if is_64 {
        machine::two64()
    } else {
        machine::two32()
    }
}

/// A register as its reading holds the number that is read.
proof fn lemma_reading(signed: bool, is_64: bool, x: u64)
    ensures
        x as int % modulus(is_64) == reading(signed, is_64, x) % modulus(is_64),
{
}

/// Holding a number, by remainders.
proof fn lemma_holds_number(is_64: bool, v: u64, x: int)
    ensures
        holds_number(is_64, v, x) == (v as int % modulus(is_64) == x % modulus(is_64)),
{
}

/// A doubleword result keeps its remainder by the modulus of the width.
proof fn lemma_wrap_keeps(is_64: bool, x: int)
    ensures
        machine::wrap(x) as int % modulus(is_64) == x % modulus(is_64),
{
    let t = machine::two64();
    assert(machine::wrap(x) == x % t);
    if is_64 {
        vstd::arithmetic::div_mod::lemma_mod_twice(x, t);
    } else {
        assert(x % t == x - t * (x / t));
        assert((x - t * (x / t)) % machine::two32() == x % machine::two32());
    }
}

/// The divide instruction on the machine, where the hardware defines it.
proof fn lemma_divide(m: Machine, signed: bool, is_64: bool, rt: u32, ra: u32, rb: u32)
    requires
        machine::wf(m),
        rt < 32,
        ra < 32,
        rb < 32,
        reading(signed, is_64, m.gpr[rb as int]) != 0,
        signed ==> reading(signed, is_64, m.gpr[rb as int]) != -1,
    ensures
        machine::step(m, emit_int::divide(!signed, is_64, rt, ra, rb)) matches Some(n)
            && holds_number(
            is_64,
            n.gpr[rt as int],
            machine::quotient(
                reading(signed, is_64, m.gpr[ra as int]),
                reading(signed, is_64, m.gpr[rb as int]),
            ),
        ) && n == machine::set(m, rt, n.gpr[rt as int]),
{
    reveal(machine::step);
    let x = reading(signed, is_64, m.gpr[ra as int]);
    let y = reading(signed, is_64, m.gpr[rb as int]);
    machine::law_x_fields(31, rt, ra, rb, 489);
    machine::law_x_fields(31, rt, ra, rb, 491);
    machine::law_x_fields(31, rt, ra, rb, 457);
    machine::law_x_fields(31, rt, ra, rb, 459);
    laws_ops::lemma_half_defined(m, machine::quotient(x, y));
}

/// The modulo instruction on the machine, where the hardware defines it.
proof fn lemma_modulo(m: Machine, signed: bool, is_64: bool, rt: u32, ra: u32, rb: u32)
    requires
        machine::wf(m),
        rt < 32,
        ra < 32,
        rb < 32,
        reading(signed, is_64, m.gpr[rb as int]) != 0,
        signed ==> reading(signed, is_64, m.gpr[rb as int]) != -1,
    ensures
        machine::step(m, emit_int::modulo(!signed, is_64, rt, ra, rb)) matches Some(n)
            && holds_number(
            is_64,
            n.gpr[rt as int],
            machine::remainder(
                reading(signed, is_64, m.gpr[ra as int]),
                reading(signed, is_64, m.gpr[rb as int]),
            ),
        ) && n == machine::set(m, rt, n.gpr[rt as int]),
{
    reveal(machine::step);
    let x = reading(signed, is_64, m.gpr[ra as int]);
    let y = reading(signed, is_64, m.gpr[rb as int]);
    machine::law_x_fields(31, rt, ra, rb, 777);
    machine::law_x_fields(31, rt, ra, rb, 779);
    machine::law_x_fields(31, rt, ra, rb, 265);
    machine::law_x_fields(31, rt, ra, rb, 267);
    laws_ops::lemma_half_defined(m, machine::remainder(x, y));
    if !signed {
        vstd::arithmetic::div_mod::lemma_fundamental_div_mod(x, y);
        assert(y * (x / y) == (x / y) * y) by (nonlinear_arith);
        assert(machine::remainder(x, y) == x % y);
    }
}

/// A remainder by a quotient, a product and a difference of registers.
proof fn lemma_remainder_by_parts(is_64: bool, xv: u64, yv: u64, q: u64, x: int, y: int, v: int)
    requires
        xv as int % modulus(is_64) == x % modulus(is_64),
        yv as int % modulus(is_64) == y % modulus(is_64),
        q as int % modulus(is_64) == v % modulus(is_64),
    ensures
        holds_number(is_64, machine::wrap(xv - machine::wrap(q * yv)), x - v * y),
{
    let t = modulus(is_64);
    let p = machine::wrap(q * yv);
    lemma_wrap_keeps(is_64, q * yv);
    vstd::arithmetic::div_mod::lemma_mul_mod_noop_general(q as int, yv as int, t);
    vstd::arithmetic::div_mod::lemma_mul_mod_noop_general(v, y, t);
    assert((q * yv) % t == (v * y) % t);
    assert(p as int % t == (v * y) % t);
    lemma_wrap_keeps(is_64, xv - p);
    vstd::arithmetic::div_mod::lemma_sub_mod_noop(xv as int, p as int, t);
    vstd::arithmetic::div_mod::lemma_sub_mod_noop(x, v * y, t);
    lemma_holds_number(is_64, machine::wrap(xv - p), x - v * y);
}

/// The hardware's division or remainder, for a divisor that is neither zero nor
/// minus one, at the end of a log but for a label.
proof fn lemma_hardware_divide(
    b: BufferView,
    done: MachLabel,
    m: Machine,
    op: DivOp,
    rd: u32,
    ra: u32,
    rb: u32,
    is_64: bool,
    isa_3_0: bool,
)
    requires
        machine::wf(m),
        rd < 32,
        0 < ra < 32,
        0 < rb < 32,
        reading(is_signed_division(op), is_64, m.gpr[rb as int]) != 0,
        is_signed_division(op) ==> reading(true, is_64, m.gpr[rb as int]) != -1,
    ensures
        ({
            let x = reading(is_signed_division(op), is_64, m.gpr[ra as int]);
            let y = reading(is_signed_division(op), is_64, m.gpr[rb as int]);
            let out = run(
                emit_int::hardware_divide(b, op, rd, ra, rb, is_64, isa_3_0).bind(done).ops,
                b.ops.len() as int,
                m,
            );
            out matches Outcome::Done { m: n } && holds_number(
                is_64,
                n.gpr[rd as int],
                division_value(op, x, y),
            ) && machine::same_but(m, n, rd, 0)
        }),
{
    let signed = is_signed_division(op);
    let (xv, yv) = (m.gpr[ra as int], m.gpr[rb as int]);
    let x = reading(signed, is_64, xv);
    let y = reading(signed, is_64, yv);
    let pc = b.ops.len() as int;
    let ops = emit_int::hardware_divide(b, op, rd, ra, rb, is_64, isa_3_0).bind(done).ops;
    if op == DivOp::SDiv || op == DivOp::UDiv {
        let w = emit_int::divide(!signed, is_64, rd, ra, rb);
        lemma_divide(m, signed, is_64, rd, ra, rb);
        let n = machine::step(m, w)->0;
        assert(ops[pc] == Emission::Word(w));
        assert(ops[pc + 1] == (Emission::BindLabel { label: done }));
        assert(run(ops, pc + 2, n) == (Outcome::Done { m: n }));
        assert(run(ops, pc + 1, n) == (Outcome::Done { m: n }));
    } else if isa_3_0 {
        let w = emit_int::modulo(!signed, is_64, rd, ra, rb);
        lemma_modulo(m, signed, is_64, rd, ra, rb);
        let n = machine::step(m, w)->0;
        assert(ops[pc] == Emission::Word(w));
        assert(ops[pc + 1] == (Emission::BindLabel { label: done }));
        assert(run(ops, pc + 2, n) == (Outcome::Done { m: n }));
        assert(run(ops, pc + 1, n) == (Outcome::Done { m: n }));
    } else {
        let w = emit_int::divide(!signed, is_64, 0, ra, rb);
        lemma_divide(m, signed, is_64, 0, ra, rb);
        let m1 = machine::step(m, w)->0;
        let q = m1.gpr[0];
        let p = machine::wrap(q * yv);
        let m2 = machine::set(m1, 0, p);
        let m3 = machine::set(m2, rd, machine::wrap(xv - p));
        assert(machine::step(m1, mnem::mulld(0, 0, rb)) == Some(m2)) by {
            reveal(machine::step);
            machine::law_x_fields(31, 0, 0, rb, 233);
        }
        assert(machine::step(m2, mnem::subf(rd, 0, ra)) == Some(m3)) by {
            reveal(machine::step);
            machine::law_x_fields(31, rd, 0, ra, 40);
        }
        lemma_reading(signed, is_64, xv);
        lemma_reading(signed, is_64, yv);
        lemma_holds_number(is_64, q, machine::quotient(x, y));
        lemma_remainder_by_parts(is_64, xv, yv, q, x, y, machine::quotient(x, y));
        assert(ops[pc] == Emission::Word(w));
        assert(ops[pc + 1] == Emission::Word(mnem::mulld(0, 0, rb)));
        assert(ops[pc + 2] == Emission::Word(mnem::subf(rd, 0, ra)));
        assert(ops[pc + 3] == (Emission::BindLabel { label: done }));
        assert(run(ops, pc + 4, m3) == (Outcome::Done { m: m3 }));
        assert(run(ops, pc + 3, m3) == (Outcome::Done { m: m3 }));
        assert(run(ops, pc + 2, m2) == (Outcome::Done { m: m3 }));
        assert(run(ops, pc + 1, m1) == (Outcome::Done { m: m3 }));
    }
}

/// The log of a division before the hardware's instructions.
pub open spec fn before_hardware(
    b: BufferView,
    op: DivOp,
    rd: u32,
    ra: u32,
    rb: u32,
    is_64: bool,
) -> BufferView {
    let b = emit_int::check_divisor(b, rb, is_64);
    let done = b.fresh();
    let b = b.with_label();
    if is_signed_division(op) {
        emit_int::minus_one_case(b, op, rd, ra, rb, is_64, done)
    } else {
        b
    }
}

/// The end of the log of a division: words and the label that ends it.
proof fn lemma_division_end(
    b: BufferView,
    done: MachLabel,
    op: DivOp,
    rd: u32,
    ra: u32,
    rb: u32,
    is_64: bool,
    isa_3_0: bool,
)
    ensures
        ({
            let ops = emit_int::hardware_divide(b, op, rd, ra, rb, is_64, isa_3_0).bind(done).ops;
            &&& ops.len() > b.ops.len()
            &&& forall|j: int| 0 <= j < b.ops.len() ==> #[trigger] ops[j] == b.ops[j]
            &&& forall|j: int| b.ops.len() <= j < ops.len() - 1 ==> #[trigger] ops[j] is Word
            &&& ops[ops.len() - 1] == (Emission::BindLabel { label: done })
        }),
{
}

/// The case of a divisor that is minus one, for a remainder.
proof fn lemma_minus_one_remainder(
    b: BufferView,
    ops: Seq<Emission>,
    m: Machine,
    n: Machine,
    rd: u32,
    ra: u32,
    rb: u32,
    is_64: bool,
    done: MachLabel,
)
    requires
        machine::wf(m),
        rd < 32,
        ra < 32,
        rb < 32,
        done != b.fresh(),
        ({
            let k = emit_int::minus_one_case(b, DivOp::SRem, rd, ra, rb, is_64, done).ops;
            &&& ops.len() > k.len()
            &&& forall|j: int| 0 <= j < k.len() ==> #[trigger] ops[j] == k[j]
            &&& forall|j: int| k.len() <= j < ops.len() - 1 ==> #[trigger] ops[j] is Word
            &&& ops[ops.len() - 1] == (Emission::BindLabel { label: done })
        }),
        n == machine::compared(m, reading(true, is_64, m.gpr[rb as int]), -1),
    ensures
        run(ops, b.ops.len() as int, m) == (if reading(true, is_64, m.gpr[rb as int]) == -1 {
            Outcome::Done { m: machine::set(n, rd, 0) }
        } else {
            run(
                ops,
                emit_int::minus_one_case(
                    b,
                    DivOp::SRem,
                    rd,
                    ra,
                    rb,
                    is_64,
                    done,
                ).ops.len() as int,
                n,
            )
        }),
{
    let k = emit_int::minus_one_case(b, DivOp::SRem, rd, ra, rb, is_64, done).ops;
    let pc = b.ops.len() as int;
    let normal = b.fresh();
    let w = mnem::compare_imm(emit_int::l_field(is_64), rb, 0xFFFF);
    lemma_compare_imm(m, is_64, rb, 0xFFFF);
    assert(k[pc] == Emission::Word(w));
    assert(k[pc + 1] == (Emission::UseLabel { label: normal, kind: LabelUse::Branch16 }));
    assert(k[pc + 2] == Emission::Word(mnem::bc(false, CR0_EQ, 0)));
    assert(k[pc + 3] == Emission::Word(mnem::li(rd, 0)));
    assert(k[pc + 4] == (Emission::UseLabel { label: done, kind: LabelUse::Branch26 }));
    assert(k[pc + 5] == Emission::Word(mnem::b(0)));
    assert(k[pc + 6] == (Emission::BindLabel { label: normal }));
    assert(k.len() == pc + 7);
    assert(run(ops, pc, m) == run(ops, pc + 1, n));
    lemma_bc(n, CR0_EQ, false);
    lemma_binding(ops, normal, pc + 3, pc + 6);
    assert(run(ops, pc + 6, n) == run(ops, pc + 7, n));
    // The divisor minus one.
    laws_int::lemma_li(n, rd, 0);
    machine::law_b_fields(0);
    let r = machine::set(n, rd, 0);
    assert(run(ops, pc + 3, n) == run(ops, pc + 4, r));
    let last = ops.len() - 1;
    assert forall|j: int| pc + 6 <= j < last implies #[trigger] ops[j] != (Emission::BindLabel {
        label: done,
    }) by {
        if j == pc + 6 {
            assert(ops[pc + 6] == k[pc + 6]);
        }
    }
    lemma_binding(ops, done, pc + 6, last);
    assert(run(ops, last + 1, r) == (Outcome::Done { m: r }));
    assert(run(ops, last, r) == (Outcome::Done { m: r }));
    assert(run(ops, pc + 4, r) == (Outcome::Done { m: r }));
}

/// The case of a divisor that is minus one, for a quotient.
proof fn lemma_minus_one_quotient(
    b: BufferView,
    ops: Seq<Emission>,
    m: Machine,
    n: Machine,
    rd: u32,
    ra: u32,
    rb: u32,
    is_64: bool,
    done: MachLabel,
)
    requires
        machine::wf(m),
        rd < 32,
        0 < ra < 32,
        rb < 32,
        b.labels + 2 <= u32::MAX,
        done != b.fresh(),
        done != b.with_label().fresh(),
        ({
            let k = emit_int::minus_one_case(b, DivOp::SDiv, rd, ra, rb, is_64, done).ops;
            &&& ops.len() > k.len()
            &&& forall|j: int| 0 <= j < k.len() ==> #[trigger] ops[j] == k[j]
            &&& forall|j: int| k.len() <= j < ops.len() - 1 ==> #[trigger] ops[j] is Word
            &&& ops[ops.len() - 1] == (Emission::BindLabel { label: done })
        }),
        n == machine::compared(m, reading(true, is_64, m.gpr[rb as int]), -1),
    ensures
        ({
            let out = run(ops, b.ops.len() as int, m);
            if reading(true, is_64, m.gpr[rb as int]) != -1 {
                out == run(
                    ops,
                    emit_int::minus_one_case(
                        b,
                        DivOp::SDiv,
                        rd,
                        ra,
                        rb,
                        is_64,
                        done,
                    ).ops.len() as int,
                    n,
                )
            } else if reading(true, is_64, m.gpr[ra as int]) == least(is_64) {
                out == (Outcome::Trapped { code: TrapCode::IntegerOverflow })
            } else {
                out matches Outcome::Done { m: r } && r.gpr[rd as int] == machine::wrap(
                    -(m.gpr[ra as int] as int),
                ) && machine::same_but(m, r, rd, 0)
            }
        }),
{
    let k = emit_int::minus_one_case(b, DivOp::SDiv, rd, ra, rb, is_64, done).ops;
    let pc = b.ops.len() as int;
    let normal = b.fresh();
    let no_ovf = b.with_label().fresh();
    let w = mnem::compare_imm(emit_int::l_field(is_64), rb, 0xFFFF);
    let cs = emit_int::load_constant(0, emit_int::min_dividend(is_64));
    let c = cs.len() as int;
    let v = mnem::compare(emit_int::l_field(is_64), ra, 0);
    lemma_compare_imm(m, is_64, rb, 0xFFFF);
    assert(k[pc] == Emission::Word(w));
    assert(k[pc + 1] == (Emission::UseLabel { label: normal, kind: LabelUse::Branch16 }));
    assert(k[pc + 2] == Emission::Word(mnem::bc(false, CR0_EQ, 0)));
    assert forall|j: int| 0 <= j < c implies #[trigger] k[pc + 3 + j] == Emission::Word(cs[j]) by {
    }
    let at = pc + 3 + c;
    assert(k[at] == Emission::Word(v));
    assert(k[at + 1] == (Emission::UseLabel { label: no_ovf, kind: LabelUse::Branch16 }));
    assert(k[at + 2] == Emission::Word(mnem::bc(false, CR0_EQ, 0)));
    assert(k[at + 3] == (Emission::Trap { code: TrapCode::IntegerOverflow }));
    assert(k[at + 4] == Emission::Word(TRAP_INSTRUCTION));
    assert(k[at + 5] == (Emission::BindLabel { label: no_ovf }));
    assert(k[at + 6] == Emission::Word(mnem::neg(rd, ra)));
    assert(k[at + 7] == (Emission::UseLabel { label: done, kind: LabelUse::Branch26 }));
    assert(k[at + 8] == Emission::Word(mnem::b(0)));
    assert(k[at + 9] == (Emission::BindLabel { label: normal }));
    assert(k.len() == at + 10);
    assert(run(ops, pc, m) == run(ops, pc + 1, n));
    lemma_bc(n, CR0_EQ, false);
    assert forall|j: int| pc + 3 <= j < at + 9 implies #[trigger] ops[j] != (Emission::BindLabel {
        label: normal,
    }) by {
        assert(ops[j] == k[j]);
        if j < at {
            assert(k[pc + 3 + (j - pc - 3)] == Emission::Word(cs[j - pc - 3]));
        }
    }
    lemma_binding(ops, normal, pc + 3, at + 9);
    assert(run(ops, at + 9, n) == run(ops, at + 10, n));
    // The divisor minus one.
    let min = emit_int::min_dividend(is_64);
    let m1 = machine::set(n, 0, min);
    laws_int::law_constant_is_materialized(n, 0, min);
    assert forall|j: int| 0 <= j < cs.len() implies #[trigger] ops[pc + 3 + j] == Emission::Word(
        cs[j],
    ) by {
        assert(ops[pc + 3 + j] == k[pc + 3 + j]);
    }
    lemma_run_words(ops, pc + 3, n, cs, m1);
    lemma_compare(m1, is_64, ra, 0);
    let m2 = machine::compared(
        m1,
        reading(true, is_64, m.gpr[ra as int]),
        reading(true, is_64, min),
    );
    assert(reading(true, is_64, min) == least(is_64));
    lemma_guard(ops, at, m1, m2, v, no_ovf, TrapCode::IntegerOverflow);
    let r = machine::set(m2, rd, machine::wrap(-(m.gpr[ra as int] as int)));
    assert(machine::step(m2, mnem::neg(rd, ra)) == Some(r)) by {
        reveal(machine::step);
        machine::law_x_fields(31, rd, ra, 0, 104);
    }
    machine::law_b_fields(0);
    assert(run(ops, at + 6, m2) == run(ops, at + 7, r));
    let last = ops.len() - 1;
    assert forall|j: int| at + 9 <= j < last implies #[trigger] ops[j] != (Emission::BindLabel {
        label: done,
    }) by {
        if j == at + 9 {
            assert(ops[at + 9] == k[at + 9]);
        }
    }
    lemma_binding(ops, done, at + 9, last);
    assert(run(ops, last + 1, r) == (Outcome::Done { m: r }));
    assert(run(ops, last, r) == (Outcome::Done { m: r }));
    assert(run(ops, at + 7, r) == (Outcome::Done { m: r }));
}

/// A number divided by minus one.
proof fn lemma_by_minus_one(x: int)
    ensures
        machine::quotient(x, -1) == -x,
        machine::remainder(x, -1) == 0,
{
    let q = machine::quotient(x, -1);
    assert(q == -x);
    assert(q * -1 == -q) by (nonlinear_arith);
}

/// A division by minus one, by the negated register.
proof fn lemma_negated(is_64: bool, xv: u64)
    ensures
        holds_number(
            is_64,
            machine::wrap(-(xv as int)),
            machine::quotient(reading(true, is_64, xv), -1),
        ),
{
    let x = reading(true, is_64, xv);
    lemma_by_minus_one(x);
    lemma_wrap_keeps(is_64, -(xv as int));
    lemma_holds_number(is_64, machine::wrap(-(xv as int)), -x);
}

/// Division and remainder: an error for a divisor of zero, an error for the least
/// signed number divided by minus one, and else the quotient rounded toward zero
/// or the remainder that goes with it, for every width, signedness and machine,
/// whether or not the modulo instructions are there. Besides the destination, at
/// most r0 changes. The operands are not in r0.
pub proof fn law_division(
    b: BufferView,
    m: Machine,
    op: DivOp,
    rd: u32,
    ra: u32,
    rb: u32,
    is_64: bool,
    isa_3_0: bool,
)
    requires
        machine::wf(m),
        rd < 32,
        0 < ra < 32,
        0 < rb < 32,
        b.labels + 4 <= u32::MAX,
    ensures
        ({
            let x = reading(is_signed_division(op), is_64, m.gpr[ra as int]);
            let y = reading(is_signed_division(op), is_64, m.gpr[rb as int]);
            let out = run(
                emit_int::divrem(b, op, rd, ra, rb, is_64, isa_3_0).ops,
                b.ops.len() as int,
                m,
            );
            if y == 0 {
                out == (Outcome::Trapped { code: TrapCode::IntegerDivisionByZero })
            } else if op == DivOp::SDiv && x == least(is_64) && y == -1 {
                out == (Outcome::Trapped { code: TrapCode::IntegerOverflow })
            } else {
                out matches Outcome::Done { m: n } && holds_number(
                    is_64,
                    n.gpr[rd as int],
                    division_value(op, x, y),
                ) && machine::same_but(m, n, rd, 0)
            }
        }),
{
    let signed = is_signed_division(op);
    let x = reading(signed, is_64, m.gpr[ra as int]);
    let y = reading(signed, is_64, m.gpr[rb as int]);
    let b1 = emit_int::check_divisor(b, rb, is_64);
    let b2 = b1.with_label();
    let b3 = before_hardware(b, op, rd, ra, rb, is_64);
    let done = b1.fresh();
    let ops = emit_int::divrem(b, op, rd, ra, rb, is_64, isa_3_0).ops;
    let pc = b.ops.len() as int;
    assert(ops == emit_int::hardware_divide(b3, op, rd, ra, rb, is_64, isa_3_0).bind(done).ops);
    lemma_division_end(b3, done, op, rd, ra, rb, is_64, isa_3_0);
    // The divisor is compared with zero.
    let w = mnem::compare_imm(emit_int::l_field(is_64), rb, 0);
    lemma_compare_imm(m, is_64, rb, 0);
    let m1 = machine::compared(m, reading(true, is_64, m.gpr[rb as int]), 0);
    lemma_before_hardware(b, op, rd, ra, rb, is_64);
    assert forall|j: int| 0 <= j < pc + 6 implies #[trigger] ops[j] == b1.ops[j] by {
        assert(ops[j] == b3.ops[j]);
    }
    assert(b1.ops[pc] == Emission::Word(w));
    assert(b1.ops[pc + 1] == (Emission::UseLabel {
        label: b.fresh(),
        kind: LabelUse::Branch16,
    }));
    assert(b1.ops[pc + 2] == Emission::Word(mnem::bc(false, CR0_EQ, 0)));
    assert(b1.ops[pc + 3] == (Emission::Trap { code: TrapCode::IntegerDivisionByZero }));
    assert(b1.ops[pc + 4] == Emission::Word(TRAP_INSTRUCTION));
    assert(b1.ops[pc + 5] == (Emission::BindLabel { label: b.fresh() }));
    lemma_guard(ops, pc, m, m1, w, b.fresh(), TrapCode::IntegerDivisionByZero);
    assert(reading(true, is_64, m.gpr[rb as int]) == 0 <==> y == 0);
    if y != 0 {
        if signed {
            let m2 = machine::compared(m1, y, -1);
            if op == DivOp::SRem {
                lemma_minus_one_remainder(b2, ops, m1, m2, rd, ra, rb, is_64, done);
                lemma_by_minus_one(x);
            } else {
                lemma_minus_one_quotient(b2, ops, m1, m2, rd, ra, rb, is_64, done);
                lemma_negated(is_64, m.gpr[ra as int]);
            }
            if y != -1 {
                lemma_hardware_divide(b3, done, m2, op, rd, ra, rb, is_64, isa_3_0);
            }
        } else {
            lemma_hardware_divide(b3, done, m1, op, rd, ra, rb, is_64, isa_3_0);
        }
    }
}

/// The log before the hardware's instructions begins with the check of the divisor.
proof fn lemma_before_hardware(b: BufferView, op: DivOp, rd: u32, ra: u32, rb: u32, is_64: bool)
    ensures
        ({
            let b1 = emit_int::check_divisor(b, rb, is_64);
            let b3 = before_hardware(b, op, rd, ra, rb, is_64);
            &&& b1.ops.len() == b.ops.len() + 6
            &&& b3.ops.len() >= b1.ops.len()
            &&& forall|j: int| 0 <= j < b1.ops.len() ==> #[trigger] b3.ops[j] == b1.ops[j]
        }),
{
}

// Branch tables.

/// The words that check an index against a table of so many entries.
pub open spec fn bound_words(index: u32, addr: u32, ext: u32, n: usize) -> Seq<u32> {
    seq![mnem::clrldi(ext, index, 32)] + if n < 0x1_0000 {
        seq![mnem::compare_logical_imm(1, ext, n as u16)]
    } else {
        emit_int::load_constant(addr, n as u64) + seq![mnem::compare_logical(1, ext, addr)]
    }
}

/// Checking an index leaves it in a register, narrowed to a word, and the condition
/// field tells whether it is below the number of entries.
proof fn lemma_bound_words(m: Machine, index: u32, addr: u32, ext: u32, n: usize)
    requires
        machine::wf(m),
        index < 32,
        addr < 32,
        ext < 32,
        addr != ext,
    ensures
        machine::run_words(m, bound_words(index, addr, ext, n)) matches Some(k) && k.gpr[ext as int]
            == machine::low32(m.gpr[index as int]) && k.cr0.lt == (machine::low32(
            m.gpr[index as int],
        ) < n) && machine::same_but(m, k, addr, ext),
{
    let x = machine::low32(m.gpr[index as int]) as u64;
    let w1 = mnem::clrldi(ext, index, 32);
    laws_ops::law_extension(m, false, ext, index, 32);
    vstd::arithmetic::power2::lemma2_to64();
    let m1 = machine::set(m, ext, x);
    assert(machine::step(m, w1) == Some(m1));
    laws_int::lemma_run_one(m, w1);
    assert((0u32 << 2) | 1u32 == 1) by (bit_vector);
    if n < 0x1_0000 {
        let w2 = mnem::compare_logical_imm(1, ext, n as u16);
        laws_int::lemma_run_push(m, seq![w1], w2);
        assert(machine::step(m1, w2) == Some(machine::compared(m1, x as int, n as int))) by {
            reveal(machine::step);
            machine::law_d_fields(10, 1, ext, n as u16 as u32);
        }
    } else {
        let cs = emit_int::load_constant(addr, n as u64);
        let w2 = mnem::compare_logical(1, ext, addr);
        let m2 = machine::set(m1, addr, n as u64);
        laws_int::law_constant_is_materialized(m1, addr, n as u64);
        laws_int::lemma_run_concat(m, seq![w1], cs);
        laws_int::lemma_run_push(m, seq![w1] + cs, w2);
        assert(machine::step(m2, w2) == Some(machine::compared(m2, x as int, n as int))) by {
            reveal(machine::step);
            machine::law_x_fields(31, 1, ext, addr, 32);
        }
        assert(seq![w1] + (cs + seq![w2]) =~= seq![w1] + cs + seq![w2]);
    }
}

/// `mflr` on the machine.
proof fn lemma_mflr(m: Machine, rt: u32)
    requires
        machine::wf(m),
        rt < 32,
    ensures
        machine::step(m, mnem::mflr(rt)) == Some(machine::set(m, rt, m.lr)),
{
    reveal(machine::step);
    lemma_link_register();
    machine::law_x_fields(31, rt, 8, 0, 339);
}

/// The halves of the link register's number.
pub proof fn lemma_link_register()
    by (bit_vector)
    ensures
        8u32 & 0x1F == 8,
        8u32 >> 5 == 0,
{
}

/// The words that compute the address of a table entry from the address that a
/// branch-and-link left.
pub open spec fn entry_words(addr: u32, ext: u32) -> Seq<u32> {
    seq![mnem::mflr(addr)] + seq![mnem::rldicr(ext, ext, 2, 61)] + seq![
        mnem::add_d(addr, addr, ext),
    ] + seq![mnem::addi(addr, addr, 24)]
}

/// The address of a table entry: so many words behind the table's start, which is
/// six instructions behind the linked address.
proof fn lemma_entry_words(m: Machine, addr: u32, ext: u32)
    requires
        machine::wf(m),
        0 < addr < 32,
        ext < 32,
        addr != ext,
        m.gpr[ext as int] < 0x1_0000_0000,
    ensures
        machine::run_words(m, entry_words(addr, ext)) matches Some(n) && n.gpr[addr as int]
            == machine::wrap(m.lr + 24 + 4 * m.gpr[ext as int]) && machine::same_but(
            m,
            n,
            addr,
            ext,
        ),
{
    let i = m.gpr[ext as int];
    let w1 = mnem::mflr(addr);
    let w2 = mnem::rldicr(ext, ext, 2, 61);
    let w3 = mnem::add_d(addr, addr, ext);
    let w4 = mnem::addi(addr, addr, 24);
    let m1 = machine::set(m, addr, m.lr);
    let m2 = machine::set(m1, ext, (4 * i) as u64);
    let m3 = machine::set(m2, addr, machine::wrap(m.lr + 4 * i));
    let m4 = machine::set(m3, addr, machine::wrap(machine::wrap(m.lr + 4 * i) + 24));
    lemma_mflr(m, addr);
    laws_ops::law_shift_immediate(m1, ShiftOp::Sld, ext, ext, 2);
    assert(i << 2u64 == 4 * i) by (bit_vector)
        requires
            i < 0x1_0000_0000,
    ;
    assert(machine::step(m1, w2) == Some(m2));
    laws_int::lemma_add(m2, addr, addr, ext);
    assert(machine::step(m3, w4) == Some(m4)) by {
        reveal(machine::step);
        machine::law_d_fields(14, addr, addr, 24);
    }
    laws_int::lemma_run_one(m, w1);
    laws_int::lemma_run_push(m, seq![w1], w2);
    laws_int::lemma_run_push(m, seq![w1] + seq![w2], w3);
    laws_int::lemma_run_push(m, seq![w1] + seq![w2] + seq![w3], w4);
}

/// The entries of a branch table are jumps to the targets, in order, a word each.
proof fn lemma_table_entries(b: BufferView, targets: Seq<MachLabel>)
    ensures
        ({
            let r = emit_mem::table_entries(b, targets);
            &&& r.ops.len() == b.ops.len() + 2 * targets.len()
            &&& r.size == b.size + 4 * targets.len()
            &&& forall|i: int| 0 <= i < b.ops.len() ==> #[trigger] r.ops[i] == b.ops[i]
            &&& forall|k: int|
                0 <= k < targets.len() ==> r.ops[b.ops.len() + 2 * k] == (Emission::UseLabel {
                    label: #[trigger] targets[k],
                    kind: LabelUse::Branch26,
                }) && r.ops[b.ops.len() + 2 * k + 1] == Emission::Word(mnem::b(0))
        }),
    decreases targets.len(),
{
    if targets.len() > 0 {
        let rest = targets.drop_last();
        lemma_table_entries(b, rest);
        let q = emit_mem::table_entries(b, rest);
        let r = emit_mem::table_entries(b, targets);
        assert forall|k: int| 0 <= k < targets.len() implies r.ops[b.ops.len() + 2 * k] == (
        Emission::UseLabel { label: #[trigger] targets[k], kind: LabelUse::Branch26 })
            && r.ops[b.ops.len() + 2 * k + 1] == Emission::Word(mnem::b(0)) by {
            if k < rest.len() {
                assert(rest[k] == targets[k]);
            }
        }
    }
}

/// What a branch table holds before its entries.
proof fn lemma_table_layout(b: BufferView, index: u32, addr: u32, ext: u32, targets: Seq<MachLabel>)
    requires
        targets.len() >= 1,
        4 * (12 + targets.len()) + 24 <= u32::MAX,
        !b.needs_island(4 * (11 + targets.len())),
    ensures
        ({
            let cs = bound_words(index, addr, ext, (targets.len() - 1) as usize);
            let pc = b.ops.len() as int;
            let at = pc + cs.len();
            let ops = laws_emit::before_table(b, index, addr, ext, targets).ops;
            &&& ops.len() == at + 12
            &&& forall|j: int| 0 <= j < cs.len() ==> #[trigger] ops[pc + j] == Emission::Word(cs[j])
            &&& ops[at] == (Emission::UseLabel { label: b.fresh(), kind: LabelUse::Branch16 })
            &&& ops[at + 1] == Emission::Word(mnem::bc(true, CR0_LT, 0))
            &&& ops[at + 2] == (Emission::UseLabel {
                label: targets[0],
                kind: LabelUse::Branch26,
            })
            &&& ops[at + 3] == Emission::Word(mnem::b(0))
            &&& ops[at + 4] == (Emission::BindLabel { label: b.fresh() })
            &&& ops[at + 5] == Emission::Word(encode::BCL_20_31_PLUS4)
            &&& ops[at + 6] == Emission::Word(mnem::mflr(addr))
            &&& ops[at + 7] == Emission::Word(mnem::rldicr(ext, ext, 2, 61))
            &&& ops[at + 8] == Emission::Word(mnem::add_d(addr, addr, ext))
            &&& ops[at + 9] == Emission::Word(mnem::addi(addr, addr, 24))
            &&& ops[at + 10] == Emission::Word(mnem::mtctr(addr))
            &&& ops[at + 11] == Emission::Word(mnem::bctr(false))
        }),
{
    let n = (targets.len() - 1) as usize;
    let cs = bound_words(index, addr, ext, n);
    let pc = b.ops.len() as int;
    let c = emit_mem::table_bound(
        emit_int::island(b, (4 * (12 + n)) as u32).word(mnem::clrldi(ext, index, 32)),
        ext,
        addr,
        n,
    );
    assert(c =~= b.words(cs));
    let ops = laws_emit::before_table(b, index, addr, ext, targets).ops;
    assert forall|j: int| 0 <= j < cs.len() implies #[trigger] ops[pc + j] == Emission::Word(
        cs[j],
    ) by {
        assert(ops[pc + j] == c.ops[pc + j]);
    }
}

/// A branch through a table. An index that is not below the number of entries goes
/// to the default target. Any other goes on to compute an address, which is that of
/// its own entry: the linked address is that of the instruction behind the
/// branch-and-link, and the entry with that index stands that far behind it and is
/// a jump to the target with that index.
pub proof fn law_branch_table(
    b: BufferView,
    m: Machine,
    index: u32,
    addr: u32,
    ext: u32,
    targets: Seq<MachLabel>,
)
    requires
        machine::wf(m),
        index < 32,
        0 < addr < 32,
        0 < ext < 32,
        addr != ext,
        targets.len() >= 1,
        4 * (12 + targets.len()) + 24 <= u32::MAX,
        b.labels + 2 <= u32::MAX,
        targets[0].index < b.labels,
        !b.needs_island(4 * (11 + targets.len())),
    ensures
        ({
            let r = emit_mem::br_table(b, index, addr, ext, targets);
            let x = machine::low32(m.gpr[index as int]);
            let out = run(r.ops, b.ops.len() as int, m);
            let cs = bound_words(index, addr, ext, (targets.len() - 1) as usize);
            let link = b.ops.len() as int + cs.len() + 5;
            let k = machine::run_words(m, cs)->0;
            if x >= targets.len() - 1 {
                out is Jumped && out->Jumped_label == targets[0]
            } else {
                &&& out == run(r.ops, link, k)
                &&& r.ops[link] == Emission::Word(encode::BCL_20_31_PLUS4)
                &&& k.gpr[ext as int] == x
                &&& forall|j: int|
                    0 <= j < 4 ==> #[trigger] r.ops[link + 1 + j] == Emission::Word(
                        entry_words(addr, ext)[j],
                    )
                &&& forall|lr: u64| #[trigger]
                    machine::run_words(Machine { lr, ..k }, entry_words(addr, ext)) matches Some(n)
                        && n.gpr[addr as int] == machine::wrap(lr + 24 + 4 * x)
                &&& r.ops[link + 7 + 2 * x] == (Emission::UseLabel {
                    label: targets[x + 1],
                    kind: LabelUse::Branch26,
                })
            }
        }),
        emit_mem::br_table(b, index, addr, ext, targets).size == laws_emit::before_table(
            b,
            index,
            addr,
            ext,
            targets,
        ).size + 4 * (targets.len() - 1),
{
    let n = (targets.len() - 1) as usize;
    let x = machine::low32(m.gpr[index as int]);
    let cs = bound_words(index, addr, ext, n);
    let pc = b.ops.len() as int;
    let p = laws_emit::before_table(b, index, addr, ext, targets);
    let r = emit_mem::br_table(b, index, addr, ext, targets);
    lemma_bound_words(m, index, addr, ext, n);
    let k = machine::run_words(m, cs)->0;
    lemma_table_entries(p, targets.skip(1));
    lemma_table_layout(b, index, addr, ext, targets);
    let at = pc + cs.len();
    assert forall|j: int| 0 <= j < cs.len() implies #[trigger] r.ops[pc + j] == Emission::Word(
        cs[j],
    ) by {
        assert(r.ops[pc + j] == p.ops[pc + j]);
    }
    lemma_run_words(r.ops, pc, m, cs, k);
    lemma_bc(k, CR0_LT, true);
    if x >= n {
        assert(run(r.ops, at, k) == run(r.ops, at + 2, k));
        machine::law_b_fields(0);
        assert forall|j: int| at + 4 <= j < r.ops.len() implies #[trigger] r.ops[j] != (
        Emission::BindLabel { label: targets[0] }) by {
            if j < p.ops.len() {
                assert(r.ops[j] == p.ops[j]);
            } else {
                let q = (j - p.ops.len()) / 2;
                assert(targets.skip(1)[q] == targets[q + 1]);
                assert(j == p.ops.len() + 2 * q || j == p.ops.len() + 2 * q + 1);
            }
        }
        lemma_no_binding(r.ops, targets[0], at + 4);
        assert(run(r.ops, at + 2, k) == (Outcome::Jumped { label: targets[0], m: k }));
    } else {
        lemma_binding(r.ops, b.fresh(), at + 2, at + 4);
        assert(run(r.ops, at, k) == run(r.ops, at + 4, k));
        assert(run(r.ops, at + 4, k) == run(r.ops, at + 5, k));
        assert(targets.skip(1)[x] == targets[x + 1]);
        assert forall|lr: u64| #[trigger]
            machine::run_words(Machine { lr, ..k }, entry_words(addr, ext)) matches Some(n)
                && n.gpr[addr as int] == machine::wrap(lr + 24 + 4 * x) by {
            lemma_entry_words(Machine { lr, ..k }, addr, ext);
        }
    }
}

// Addresses of labels.

/// Filling in an immediate that was zero.
proof fn lemma_filled(o: u32, a: u32, b: u32, imm: u32)
    ensures
        encode::d_word(o, a, b, 0) | imm == encode::d_word(o, a, b, imm),
{
    assert(((o << 26) | (a << 21) | (b << 16) | 0u32) | imm == (o << 26) | (a << 21) | (b << 16)
        | imm) by (bit_vector);
}

/// The words that compute the address of a label, with the distance filled in.
pub open spec fn label_words(rd: u32, delta: i64) -> Seq<u32> {
    seq![mnem::mflr(rd)] + seq![mnem::addis(rd, rd, label_use::ha16(delta))] + seq![
        mnem::addi(rd, rd, label_use::lo16(delta) as u16),
    ]
}

/// The address of a label: the pair that was emitted with zeros becomes, once the
/// label's offset is known, one that adds the distance from the instruction that
/// read the program counter; so the register ends up with the address of the label
/// wherever the code is. This holds of every distance that the use reaches.
pub proof fn law_label_address(m: Machine, rd: u32, use_offset: u32, label_offset: u32)
    requires
        machine::wf(m),
        0 < rd < 32,
        LabelUse::PCRelHiLo.reaches(use_offset, label_offset),
    ensures
        ({
            let delta = (label_offset - use_offset + 4) as i64;
            &&& mnem::addis(rd, rd, 0) | label_use::ha16(delta) as u32 == label_words(
                rd,
                delta,
            )[1]
            &&& mnem::addi(rd, rd, 0) | label_use::lo16(delta) as u16 as u32 == label_words(
                rd,
                delta,
            )[2]
            &&& machine::run_words(m, label_words(rd, delta)) matches Some(n)
            &&& n.gpr[rd as int] == machine::wrap(m.lr + (label_offset - (use_offset - 4)))
            &&& machine::same_but(m, n, rd, rd)
        }),
{
    let delta = (label_offset - use_offset + 4) as i64;
    let (hi, lo) = (label_use::ha16(delta), label_use::lo16(delta));
    label_use::law_hi_lo_halves_add_up(delta);
    lemma_filled(15, rd, rd, hi as u32);
    lemma_filled(14, rd, rd, lo as u16 as u32);
    laws_int::lemma_displacement(lo);
    laws_int::lemma_displacement(hi as i16);
    assert((hi as i16) as u16 == hi) by (bit_vector);
    let w1 = mnem::mflr(rd);
    let w2 = mnem::addis(rd, rd, hi);
    let w3 = mnem::addi(rd, rd, lo as u16);
    let m1 = machine::set(m, rd, m.lr);
    let v2 = machine::wrap(m.lr + 0x1_0000 * machine::signed16(hi as u32));
    let m2 = machine::set(m1, rd, v2);
    let v3 = machine::wrap(v2 + machine::signed16(lo as u16 as u32));
    let m3 = machine::set(m2, rd, v3);
    lemma_mflr(m, rd);
    assert(machine::step(m1, w2) == Some(m2)) by {
        reveal(machine::step);
        machine::law_d_fields(15, rd, rd, hi as u32);
    }
    assert(machine::step(m2, w3) == Some(m3)) by {
        reveal(machine::step);
        machine::law_d_fields(14, rd, rd, lo as u16 as u32);
    }
    laws_int::lemma_run_one(m, w1);
    laws_int::lemma_run_push(m, seq![w1], w2);
    laws_int::lemma_run_push(m, seq![w1] + seq![w2], w3);
    assert(v3 == machine::wrap(m.lr + delta));
}

} // verus!
