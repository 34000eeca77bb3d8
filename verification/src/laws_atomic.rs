//! What the loops of atomic read-modify-writes store.
use vstd::prelude::*;
use crate::args::{CR0_EQ, CR0_GT, CR0_LT};
use crate::buffer::BufferView;
use crate::emit_atomic;
use crate::emit_int;
use crate::inst::AluOp;
use crate::ir::{AtomicRmwOp, Type};
use crate::laws_flow;
use crate::laws_int;
use crate::laws_ops;
use crate::machine;
use crate::machine::Machine;
use crate::mnem;

verus! {

/// The number that a loaded value of a type stands for in a signed compare. The
/// loads zero-extend.
pub open spec fn signed_value(ty: Type, x: u64) -> int {
    match ty {
        Type::I8 => laws_ops::low_bits(true, x, 8),
        Type::I16 => laws_ops::low_bits(true, x, 16),
        Type::I32 => laws_ops::low_bits(true, x, 32),
        _ => machine::signed64(x),
    }
}

/// The value that replaces `old` in memory, of which the low bits of the type are
/// stored. The operand comes extended to a doubleword.
pub open spec fn rmw_result(op: AtomicRmwOp, ty: Type, old: u64, src: u64) -> u64 {
    match op {
        AtomicRmwOp::Add => machine::wrap(old + src),
        AtomicRmwOp::Sub => machine::wrap(old - src),
        AtomicRmwOp::And => old & src,
        AtomicRmwOp::Nand => !(old & src),
        AtomicRmwOp::Or => old | src,
        AtomicRmwOp::Xor => old ^ src,
        AtomicRmwOp::Xchg => src,
        AtomicRmwOp::Umin => if old < src {
            old
        } else {
            src
        },
        AtomicRmwOp::Umax => if old < src {
            src
        } else {
            old
        },
        AtomicRmwOp::Smin => if signed_value(ty, old) < machine::signed64(src) {
            old
        } else {
            src
        },
        AtomicRmwOp::Smax => if signed_value(ty, old) < machine::signed64(src) {
            src
        } else {
            old
        },
    }
}

/// The words that choose the lesser or the greater value.
pub open spec fn min_max_words(op: AtomicRmwOp, rd: u32, src: u32, ty: Type) -> Seq<u32> {
    (if emit_atomic::is_signed_min_max(op) {
        if ty != Type::I64 {
            seq![emit_atomic::sign_extend(ty, 0, rd)] + seq![mnem::compare(1, 0, src)]
        } else {
            seq![mnem::compare(1, rd, src)]
        }
    } else {
        seq![mnem::compare_logical(1, rd, src)]
    }) + seq![
        if emit_atomic::keeps_lesser(op) {
            mnem::isel(0, rd, src, CR0_LT)
        } else {
            mnem::isel(0, src, rd, CR0_LT)
        },
    ]
}

/// The words that compute the replacement value.
pub open spec fn rmw_words(op: AtomicRmwOp, rd: u32, src: u32, ty: Type) -> Seq<u32> {
    match op {
        AtomicRmwOp::Xchg => seq![],
        AtomicRmwOp::Add => seq![mnem::add_d(0, rd, src)],
        AtomicRmwOp::Sub => seq![mnem::subf(0, src, rd)],
        AtomicRmwOp::And => seq![mnem::and_x(0, rd, src)],
        AtomicRmwOp::Or => seq![mnem::or_x(0, rd, src)],
        AtomicRmwOp::Xor => seq![mnem::xor_x(0, rd, src)],
        AtomicRmwOp::Nand => seq![mnem::nand(0, rd, src)],
        _ => min_max_words(op, rd, src, ty),
    }
}

/// A logical compare on the machine.
pub proof fn lemma_compare_logical(m: Machine, ra: u32, rb: u32)
    requires
        machine::wf(m),
        ra < 32,
        rb < 32,
    ensures
        machine::step(m, mnem::compare_logical(1, ra, rb)) == Some(
            machine::compared(m, m.gpr[ra as int] as int, m.gpr[rb as int] as int),
        ),
{
    reveal(machine::step);
    laws_flow::lemma_l_field(1);
    machine::law_x_fields(31, 1, ra, rb, 32);
}

/// The sign extension of a loaded value.
proof fn lemma_sign_extend(m: Machine, ty: Type, rn: u32)
    requires
        machine::wf(m),
        rn < 32,
        ty == Type::I8 || ty == Type::I16 || ty == Type::I32,
    ensures
        machine::step(m, emit_atomic::sign_extend(ty, 0, rn)) matches Some(n) && n == machine::set(
            m,
            0,
            n.gpr[0],
        ) && machine::signed64(n.gpr[0]) == signed_value(ty, m.gpr[rn as int]),
{
    let bits: u8 = match ty {
        Type::I8 => 8,
        Type::I16 => 16,
        _ => 32,
    };
    laws_ops::law_extension(m, true, 0, rn, bits);
    vstd::arithmetic::power2::lemma2_to64();
}

/// Choosing the lesser or the greater value.
proof fn lemma_min_max(m: Machine, op: AtomicRmwOp, rd: u32, src: u32, ty: Type)
    requires
        machine::wf(m),
        emit_atomic::is_min_max(op),
        emit_atomic::is_atomic_type(ty),
        0 < rd < 32,
        0 < src < 32,
    ensures
        machine::run_words(m, min_max_words(op, rd, src, ty)) matches Some(n) && n.gpr[0]
            == rmw_result(op, ty, m.gpr[rd as int], m.gpr[src as int]) && machine::same_but(
            m,
            n,
            0,
            0,
        ),
{
    let (old, s) = (m.gpr[rd as int], m.gpr[src as int]);
    let last = if emit_atomic::keeps_lesser(op) {
        mnem::isel(0, rd, src, CR0_LT)
    } else {
        mnem::isel(0, src, rd, CR0_LT)
    };
    if emit_atomic::is_signed_min_max(op) {
        if ty != Type::I64 {
            let w1 = emit_atomic::sign_extend(ty, 0, rd);
            let w2 = mnem::compare(1, 0, src);
            lemma_sign_extend(m, ty, rd);
            let m1 = machine::step(m, w1)->0;
            laws_flow::lemma_compare(m1, true, 0, src);
            let m2 = machine::compared(m1, signed_value(ty, old), machine::signed64(s));
            laws_int::lemma_run_one(m, w1);
            laws_int::lemma_run_push(m, seq![w1], w2);
            laws_int::lemma_run_push(m, seq![w1] + seq![w2], last);
            laws_flow::lemma_isel(m2, 0, rd, src, CR0_LT);
            laws_flow::lemma_isel(m2, 0, src, rd, CR0_LT);
        } else {
            let w2 = mnem::compare(1, rd, src);
            laws_flow::lemma_compare(m, true, rd, src);
            let m2 = machine::compared(m, machine::signed64(old), machine::signed64(s));
            laws_int::lemma_run_one(m, w2);
            laws_int::lemma_run_push(m, seq![w2], last);
            laws_flow::lemma_isel(m2, 0, rd, src, CR0_LT);
            laws_flow::lemma_isel(m2, 0, src, rd, CR0_LT);
        }
    } else {
        let w2 = mnem::compare_logical(1, rd, src);
        lemma_compare_logical(m, rd, src);
        let m2 = machine::compared(m, old as int, s as int);
        laws_int::lemma_run_one(m, w2);
        laws_int::lemma_run_push(m, seq![w2], last);
        laws_flow::lemma_isel(m2, 0, rd, src, CR0_LT);
        laws_flow::lemma_isel(m2, 0, src, rd, CR0_LT);
    }
}

/// The register that the conditional store of a read-modify-write stores holds what
/// the operation makes of the loaded value and the operand. Besides r0, no register
/// changes on the way.
pub proof fn law_replacement_value(
    b: BufferView,
    m: Machine,
    op: AtomicRmwOp,
    rd: u32,
    src: u32,
    ty: Type,
)
    requires
        machine::wf(m),
        emit_atomic::is_atomic_type(ty),
        0 < rd < 32,
        0 < src < 32,
    ensures
        emit_atomic::rmw_value(b, op, rd, src, ty) == b.words(rmw_words(op, rd, src, ty)),
        machine::run_words(m, rmw_words(op, rd, src, ty)) matches Some(n)
            && n.gpr[emit_atomic::rmw_store_reg(op, src) as int] == rmw_result(
            op,
            ty,
            m.gpr[rd as int],
            m.gpr[src as int],
        ) && machine::same_but(m, n, 0, 0),
{
    match op {
        AtomicRmwOp::Add => lemma_one_word(m, AluOp::Add, rd, src),
        AtomicRmwOp::Sub => lemma_one_word(m, AluOp::Sub, rd, src),
        AtomicRmwOp::And => lemma_one_word(m, AluOp::And, rd, src),
        AtomicRmwOp::Or => lemma_one_word(m, AluOp::Or, rd, src),
        AtomicRmwOp::Xor => lemma_one_word(m, AluOp::Xor, rd, src),
        AtomicRmwOp::Nand => {
            reveal(machine::step);
            machine::law_x_fields(31, rd, 0, src, 476);
            laws_int::lemma_run_one(m, mnem::nand(0, rd, src));
        },
        AtomicRmwOp::Xchg => {
            assert(machine::run_words(m, Seq::<u32>::empty()) == Some(m));
        },
        _ => lemma_min_max(m, op, rd, src, ty),
    }
    assert(emit_atomic::rmw_value(b, op, rd, src, ty) =~= b.words(rmw_words(op, rd, src, ty)));
}

/// An operation of one word into r0.
proof fn lemma_one_word(m: Machine, op: AluOp, rd: u32, src: u32)
    requires
        machine::wf(m),
        rd < 32,
        src < 32,
        op == AluOp::Add || op == AluOp::Sub || op == AluOp::And || op == AluOp::Or || op
            == AluOp::Xor,
    ensures
        machine::run_words(m, seq![emit_int::alu_rrr(op, 0, rd, src)]) matches Some(n)
            && laws_ops::alu_gives(
            op,
            m.ca,
            m.gpr[rd as int],
            m.gpr[src as int],
            n.gpr[0],
        ) && n == machine::set(m, 0, n.gpr[0]),
{
    laws_ops::law_alu(m, op, 0, rd, src);
    laws_int::lemma_run_one(m, emit_int::alu_rrr(op, 0, rd, src));
}

// Quadwords.

/// The two words that compute the replacement value of a quadword, for an operation
/// that does not choose between the two.
pub open spec fn quad_words(op: AtomicRmwOp) -> (u32, u32) {
    match op {
        AtomicRmwOp::Xchg => (mnem::mr(10, 4), mnem::mr(11, 5)),
        AtomicRmwOp::Add => (mnem::addc(11, 9, 5), mnem::adde(10, 8, 4)),
        AtomicRmwOp::Sub => (mnem::subfc(11, 5, 9), mnem::subfe(10, 4, 8)),
        AtomicRmwOp::And => (mnem::and_x(11, 9, 5), mnem::and_x(10, 8, 4)),
        AtomicRmwOp::Or => (mnem::or_x(11, 9, 5), mnem::or_x(10, 8, 4)),
        AtomicRmwOp::Xor => (mnem::xor_x(11, 9, 5), mnem::xor_x(10, 8, 4)),
        _ => (mnem::nand(11, 9, 5), mnem::nand(10, 8, 4)),
    }
}

/// Whether r10:r11 holds what an operation makes of a quadword in r8:r9 and an
/// operand in r4:r5.
pub open spec fn quad_result(op: AtomicRmwOp, m: Machine, n: Machine) -> bool {
    let old = laws_ops::wide(m.gpr[8], m.gpr[9]);
    let src = laws_ops::wide(m.gpr[4], m.gpr[5]);
    let new = laws_ops::wide(n.gpr[10], n.gpr[11]);
    match op {
        AtomicRmwOp::Add => new == (old + src) % laws_ops::two128(),
        AtomicRmwOp::Sub => new == (old - src) % laws_ops::two128(),
        _ => n.gpr[10] == rmw_result(op, Type::I64, m.gpr[8], m.gpr[4]) && n.gpr[11] == rmw_result(
            op,
            Type::I64,
            m.gpr[9],
            m.gpr[5],
        ),
    }
}

/// The replacement value of a quadword, for an operation that does not choose
/// between the two: the sum or the difference modulo two to the 128th, or the
/// operation on each half. Besides r10, r11 and the carry, nothing changes.
pub proof fn law_quadword_replacement(b: BufferView, m: Machine, op: AtomicRmwOp)
    requires
        machine::wf(m),
        !emit_atomic::is_min_max(op),
    ensures
        emit_atomic::rmw128_value(b, op) == b.word(quad_words(op).0).word(quad_words(op).1),
        machine::run_words(m, seq![quad_words(op).0] + seq![quad_words(op).1]) matches Some(n)
            && quad_result(op, m, n) && n.gpr.len() == 32 && n.cr0 == m.cr0 && n.lr == m.lr
            && forall|i: int| 0 <= i < 32 && i != 10 && i != 11 ==> #[trigger] n.gpr[i] == m.gpr[i],
{
    let (w1, w2) = quad_words(op);
    laws_int::lemma_run_one(m, w1);
    laws_int::lemma_run_push(m, seq![w1], w2);
    let m1 = machine::step(m, w1)->0;
    match op {
        AtomicRmwOp::Add => {
            laws_ops::law_alu(m, AluOp::Addc, 11, 9, 5);
            laws_ops::law_alu(m1, AluOp::Adde, 10, 8, 4);
            let n = machine::step(m1, w2)->0;
            laws_ops::law_wide_sum(
                m.gpr[8],
                m.gpr[9],
                m.gpr[4],
                m.gpr[5],
                n.gpr[10],
                n.gpr[11],
                m.ca,
            );
        },
        AtomicRmwOp::Sub => {
            laws_ops::law_alu(m, AluOp::Subfc, 11, 9, 5);
            laws_ops::law_alu(m1, AluOp::Subfe, 10, 8, 4);
            let n = machine::step(m1, w2)->0;
            laws_ops::law_wide_difference(
                m.gpr[8],
                m.gpr[9],
                m.gpr[4],
                m.gpr[5],
                n.gpr[10],
                n.gpr[11],
                m.ca,
            );
        },
        AtomicRmwOp::And => {
            laws_ops::law_alu(m, AluOp::And, 11, 9, 5);
            laws_ops::law_alu(m1, AluOp::And, 10, 8, 4);
        },
        AtomicRmwOp::Or => {
            laws_ops::law_alu(m, AluOp::Or, 11, 9, 5);
            laws_ops::law_alu(m1, AluOp::Or, 10, 8, 4);
        },
        AtomicRmwOp::Xor => {
            laws_ops::law_alu(m, AluOp::Xor, 11, 9, 5);
            laws_ops::law_alu(m1, AluOp::Xor, 10, 8, 4);
        },
        AtomicRmwOp::Xchg => {
            laws_ops::law_alu(m, AluOp::Or, 10, 4, 4);
            laws_ops::law_alu(m1, AluOp::Or, 11, 5, 5);
            let (x, y) = (m.gpr[4], m.gpr[5]);
            assert(x | x == x && y | y == y) by (bit_vector);
        },
        _ => {
            reveal(machine::step);
            machine::law_x_fields(31, 9, 11, 5, 476);
            machine::law_x_fields(31, 8, 10, 4, 476);
        },
    }
}

/// Run words from a position, with conditional branches that skip words further on.
pub open spec fn run_from(ws: Seq<u32>, at: int, m: Machine) -> Option<Machine>
    decreases ws.len() - at,
{
    if at < 0 {
        None
    } else if at >= ws.len() {
        Some(m)
    } else if machine::opcd(ws[at]) == 16 {
        let to = at + machine::signed16(machine::low16(ws[at])) / 4;
        if !laws_flow::is_branch(ws[at]) {
            None
        } else if !laws_flow::is_taken(m, ws[at]) {
            run_from(ws, at + 1, m)
        } else if at < to <= ws.len() {
            run_from(ws, to, m)
        } else {
            None
        }
    } else {
        match machine::step(m, ws[at]) {
            Some(n) => run_from(ws, at + 1, n),
            None => None,
        }
    }
}

/// The words that choose between two quadwords.
pub open spec fn quad_choice_words(op: AtomicRmwOp) -> Seq<u32> {
    let want = if emit_atomic::keeps_lesser(op) {
        CR0_LT
    } else {
        CR0_GT
    };
    seq![
        if emit_atomic::is_signed_min_max(op) {
            mnem::compare(1, 8, 4)
        } else {
            mnem::compare_logical(1, 8, 4)
        },
        mnem::bc(false, CR0_EQ, 8),
        mnem::compare_logical(1, 9, 5),
        mnem::isel(10, 8, 4, want),
        mnem::isel(11, 9, 5, want),
    ]
}

/// The number of two doublewords, of which the upper one may carry a sign.
pub open spec fn quad_value(signed: bool, hi: u64, lo: u64) -> int {
    machine::two64() * (if signed {
        machine::signed64(hi)
    } else {
        hi as int
    }) + lo
}

/// The fields of the branch over one word.
proof fn lemma_skip_fields()
    ensures
        ({
            let w = mnem::bc(false, CR0_EQ, 8);
            &&& machine::opcd(w) == 16
            &&& machine::f1(w) == 4
            &&& machine::f2(w) == CR0_EQ
            &&& machine::low16(w) == 8
        }),
{
    let (bo, bit) = (4u32, CR0_EQ);
    assert({
        let w = (16u32 << 26) | (bo << 21) | (bit << 16) | ((8i32 as u32) & 0xFFFC) | 0u32;
        &&& w >> 26 == 16
        &&& (w >> 21) & 0x1F == bo
        &&& (w >> 16) & 0x1F == bit
        &&& w & 0xFFFF == 8
    }) by (bit_vector)
        requires
            bo == 4,
            bit == 2,
    ;
}

/// The opcode of an instruction that is no branch.
proof fn lemma_not_a_branch(m: Machine, w: u32)
    requires
        machine::step(m, w) is Some,
    ensures
        machine::opcd(w) != 16,
{
    reveal(machine::step);
}

/// Choosing between two quadwords goes by their numbers: by the upper halves, with
/// their sign where the operation is signed, and where they are equal by the lower
/// halves. Where the two are equal, either is the result.
pub proof fn law_quadword_choice(b: BufferView, m: Machine, op: AtomicRmwOp)
    requires
        machine::wf(m),
        emit_atomic::is_min_max(op),
    ensures
        emit_atomic::rmw128_value(b, op) == b.words(quad_choice_words(op)),
        ({
            let signed = emit_atomic::is_signed_min_max(op);
            let old = quad_value(signed, m.gpr[8], m.gpr[9]);
            let src = quad_value(signed, m.gpr[4], m.gpr[5]);
            run_from(quad_choice_words(op), 0, m) matches Some(n) && quad_value(
                signed,
                n.gpr[10],
                n.gpr[11],
            ) == (if (old < src) == emit_atomic::keeps_lesser(op) {
                old
            } else {
                src
            }) && forall|i: int| 0 <= i < 32 && i != 10 && i != 11 ==> #[trigger] n.gpr[i] == m.gpr[i]
        }),
{
    let ws = quad_choice_words(op);
    let signed = emit_atomic::is_signed_min_max(op);
    let want = if emit_atomic::keeps_lesser(op) {
        CR0_LT
    } else {
        CR0_GT
    };
    assert(emit_atomic::rmw128_value(b, op) =~= b.words(ws));
    laws_flow::lemma_compare(m, true, 8, 4);
    lemma_compare_logical(m, 8, 4);
    let m1 = machine::step(m, ws[0])->0;
    lemma_not_a_branch(m, ws[0]);
    assert(run_from(ws, 0, m) == run_from(ws, 1, m1));
    lemma_skip_fields();
    lemma_compare_logical(m1, 9, 5);
    let m2 = machine::step(m1, ws[2])->0;
    lemma_not_a_branch(m1, ws[2]);
    assert(run_from(ws, 2, m1) == run_from(ws, 3, m2));
    let m3 = if m1.cr0.eq {
        m2
    } else {
        m1
    };
    assert(run_from(ws, 1, m1) == run_from(ws, 3, m3));
    laws_flow::lemma_isel(m3, 10, 8, 4, want);
    let m4 = machine::step(m3, ws[3])->0;
    lemma_not_a_branch(m3, ws[3]);
    assert(run_from(ws, 3, m3) == run_from(ws, 4, m4));
    laws_flow::lemma_isel(m4, 11, 9, 5, want);
    let m5 = machine::step(m4, ws[4])->0;
    lemma_not_a_branch(m4, ws[4]);
    assert(run_from(ws, 5, m5) == Some(m5));
    assert(run_from(ws, 4, m4) == Some(m5));
}

} // verus!
