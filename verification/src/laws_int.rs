//! What emitted fixed-point code does on the machine.
use vstd::prelude::*;
use crate::args::{LoadOP, StoreOP};
use crate::buffer::BufferView;
use crate::constants;
use crate::constants::Build;
use crate::emit_int;
use crate::emit_mem;
use crate::encode;
use crate::laws_const;
use crate::machine;
use crate::machine::Machine;
use crate::memory;
use crate::mnem;

verus! {

// Sequences of words.

/// Running one more word.
pub proof fn lemma_run_push(m: Machine, ws: Seq<u32>, w: u32)
    ensures
        machine::run_words(m, ws + seq![w]) == (match machine::run_words(m, ws) {
            Some(n) => machine::step(n, w),
            None => None,
        }),
{
    assert((ws + seq![w]).drop_last() =~= ws);
    assert((ws + seq![w]).last() == w);
}

/// Running one word.
pub proof fn lemma_run_one(m: Machine, w: u32)
    ensures
        machine::run_words(m, seq![w]) == machine::step(m, w),
{
    assert(Seq::<u32>::empty() + seq![w] =~= seq![w]);
    lemma_run_push(m, Seq::empty(), w);
}

/// Running words and then others.
pub proof fn lemma_run_concat(m: Machine, a: Seq<u32>, b: Seq<u32>)
    ensures
        machine::run_words(m, a + b) == (match machine::run_words(m, a) {
            Some(n) => machine::run_words(n, b),
            None => None,
        }),
    decreases b.len(),
{
    if b.len() == 0 {
        assert(a + b =~= a);
    } else {
        lemma_run_concat(m, a, b.drop_last());
        assert((a + b).drop_last() =~= a + b.drop_last());
        assert((a + b).last() == b.last());
    }
}

// Constants.

/// `li` on the machine.
pub proof fn lemma_li(m: Machine, rd: u32, si: u16)
    requires
        machine::wf(m),
        rd < 32,
    ensures
        machine::step(m, mnem::li(rd, si)) == Some(
            machine::set(m, rd, machine::wrap(machine::signed16(si as u32))),
        ),
{
    reveal(machine::step);
    machine::law_d_fields(14, rd, 0, si as u32);
}

/// `lis` on the machine.
proof fn lemma_lis(m: Machine, rd: u32, si: u16)
    requires
        machine::wf(m),
        rd < 32,
    ensures
        machine::step(m, mnem::lis(rd, si)) == Some(
            machine::set(m, rd, machine::wrap(0x1_0000 * machine::signed16(si as u32))),
        ),
{
    reveal(machine::step);
    machine::law_d_fields(15, rd, 0, si as u32);
}

/// `ori` on the machine.
proof fn lemma_ori(m: Machine, ra: u32, rs: u32, ui: u16)
    requires
        machine::wf(m),
        ra < 32,
        rs < 32,
    ensures
        machine::step(m, mnem::ori(ra, rs, ui)) == Some(
            machine::set(m, ra, m.gpr[rs as int] | ui as u64),
        ),
{
    reveal(machine::step);
    machine::law_d_fields(24, rs, ra, ui as u32);
}

/// `oris` on the machine.
proof fn lemma_oris(m: Machine, ra: u32, rs: u32, ui: u16)
    requires
        machine::wf(m),
        ra < 32,
        rs < 32,
    ensures
        machine::step(m, mnem::oris(ra, rs, ui)) == Some(
            machine::set(m, ra, m.gpr[rs as int] | ((ui as u64) << 16)),
        ),
{
    reveal(machine::step);
    machine::law_d_fields(25, rs, ra, ui as u32);
}

/// `rldicr` on the machine.
proof fn lemma_rldicr(m: Machine, ra: u32, rs: u32, sh: u32, me: u32)
    requires
        machine::wf(m),
        ra < 32,
        rs < 32,
        sh < 64,
        me < 64,
    ensures
        machine::step(m, mnem::rldicr(ra, rs, sh, me)) == Some(
            machine::set(m, ra, machine::rotl(m.gpr[rs as int], sh) & machine::mask_to(me)),
        ),
{
    reveal(machine::step);
    machine::law_md_fields(rs, ra, sh, me, 1);
}

/// Writing a register twice leaves the second value.
pub proof fn lemma_set_set(m: Machine, rd: u32, v: u64, w: u64)
    requires
        machine::wf(m),
        rd < 32,
    ensures
        machine::set(machine::set(m, rd, v), rd, w) == machine::set(m, rd, w),
        machine::set(m, rd, v).gpr[rd as int] == v,
        machine::wf(machine::set(m, rd, v)),
{
    assert(machine::set(machine::set(m, rd, v), rd, w).gpr =~= machine::set(m, rd, w).gpr);
}

/// The halfwords that `li` and `lis` load, rotations and masks, what zeros are operated
/// on to, and bounds of fields.
proof fn lemma_values(x: u64, y: u64, h: u16, n: u32, b: u32, w: u32)
    by (bit_vector)
    requires
        n < 64,
        b < 64,
    ensures
        h < 0x8000 ==> constants::signed_half(h) == h,
        h >= 0x8000 ==> constants::signed_half(h) == h + 0xFFFF_FFFF_FFFF_0000,
        h < 0x8000 ==> constants::signed_half(h) << 16u64 == h * 0x1_0000,
        h >= 0x8000 ==> constants::signed_half(h) << 16u64 == h * 0x1_0000 + 0xFFFF_FFFF_0000_0000,
        machine::rotl(x, n) == constants::turned(x, n as u64),
        machine::mask_to(b) == constants::mask_above((63 - b) as u64),
        machine::mask_from(b) == constants::mask_below(b as u64),
        machine::rotlw(x, n) == constants::turned(constants::doubled(x), n as u64),
        !(x | x) == !x,
        constants::half(constants::signed_half(h), 0) == h,
        constants::half(constants::signed_half(h) << 16u64, 16) == h,
        constants::half(constants::signed_half(h) << 16u64, 0) == 0,
        (constants::signed_half(h) << 16u64) | ((0u16) as u64) == constants::signed_half(h)
            << 16u64,
        0xFFFF_FFFF_FFFF_FFFFu64 | y == 0xFFFF_FFFF_FFFF_FFFFu64,
        0u64 & y == 0,
        0u64 | 0 == 0,
        0u64 ^ 0 == 0,
        !0u64 == 0xFFFF_FFFF_FFFF_FFFFu64,
        0u64 << 0u64 == 0,
        0u64 >> 0u64 == 0,
        ((0u64 as u32) << 0u64) as u64 == 0,
        ((0u64 as u32) >> 0u64) as u64 == 0,
        machine::rotl(0, n) == 0,
        machine::rotlw(0, n) == 0,
        w & 0xFFFF < 0x1_0000,
        (w >> 21) & 0x1F < 32,
        (w >> 16) & 0x1F < 32,
        (w >> 11) & 0x1F < 32,
        ((w >> 11) & 0x1F) | (((w >> 1) & 1) << 5) < 64,
{
}

/// An instruction that builds a constant, on the machine.
proof fn lemma_build(m: Machine, rd: u32, b: Build)
    requires
        machine::wf(m),
        rd < 32,
        constants::valid(b),
        constants::adds(b) ==> rd != 0,
    ensures
        machine::step(m, constants::word(rd, b)) == Some(
            machine::set(m, rd, constants::built(m.gpr[rd as int], b)),
        ),
{
    let x = m.gpr[rd as int];
    match b {
        Build::Li(h) => {
            lemma_li(m, rd, h);
            lemma_values(x, 0, h, 0, 0, 0);
        },
        Build::Lis(h) => {
            lemma_lis(m, rd, h);
            lemma_values(x, 0, h, 0, 0, 0);
        },
        Build::Ori(h) => lemma_ori(m, rd, rd, h),
        Build::Oris(h) => lemma_oris(m, rd, rd, h),
        Build::Rldicr(sh, me) => {
            lemma_rldicr(m, rd, rd, sh, me);
            lemma_values(x, 0, 0, sh, me, 0);
        },
        Build::Rldicl(sh, mb) => {
            reveal(machine::step);
            machine::law_md_fields(rd, rd, sh, mb, 0);
            lemma_values(x, 0, 0, sh, mb, 0);
        },
        Build::Rlwinm(sh, mb, me) => {
            reveal(machine::step);
            machine::law_m_fields(rd, rd, sh, mb, me);
            lemma_values(x, 0, 0, sh, (32 + mb) as u32, 0);
            lemma_values(x, 0, 0, sh, (32 + me) as u32, 0);
        },
        Build::Not => {
            reveal(machine::step);
            machine::law_x_fields(31, rd, rd, rd, 124);
            lemma_values(x, 0, 0, 0, 0, 0);
        },
        Build::Addi(h) => {
            reveal(machine::step);
            machine::law_d_fields(14, rd, rd, h as u32);
            lemma_values(x, 0, h, 0, 0, 0);
            constants::lemma_wrapping(x, constants::signed_half(h));
        },
        Build::Addis(h) => {
            reveal(machine::step);
            machine::law_d_fields(15, rd, rd, h as u32);
            lemma_values(x, 0, h, 0, 0, 0);
            constants::lemma_wrapping(x, constants::signed_half(h) << 16u64);
        },
    }
}

/// Instructions that build a constant, on the machine.
proof fn lemma_builds(m: Machine, rd: u32, ops: Seq<Build>)
    requires
        machine::wf(m),
        rd < 32,
        forall|i: int|
            0 <= i < ops.len() ==> constants::valid(#[trigger] ops[i]) && (constants::adds(ops[i])
                ==> rd != 0),
    ensures
        machine::run_words(m, ops.map_values(|b: Build| constants::word(rd, b))) == Some(
            machine::set(m, rd, constants::value(m.gpr[rd as int], ops)),
        ),
    decreases ops.len(),
{
    let f = |b: Build| constants::word(rd, b);
    if ops.len() == 0 {
        assert(machine::set(m, rd, m.gpr[rd as int]).gpr =~= m.gpr);
    } else {
        let front = ops.drop_last();
        assert forall|i: int| 0 <= i < front.len() implies constants::valid(#[trigger] front[i]) && (
        constants::adds(front[i]) ==> rd != 0) by {
            assert(front[i] == ops[i]);
        }
        lemma_builds(m, rd, front);
        assert(ops.map_values(f).drop_last() =~= front.map_values(f));
        assert(ops.map_values(f).last() == f(ops.last()));
        let v = constants::value(m.gpr[rd as int], front);
        lemma_set_set(m, rd, v, constants::built(v, ops.last()));
        assert(constants::valid(ops[ops.len() - 1]));
        lemma_build(machine::set(m, rd, v), rd, ops.last());
    }
}

/// Materializing a constant leaves it in the register, and changes nothing else.
/// It takes at most five instructions.
pub proof fn law_constant_is_materialized(m: Machine, rd: u32, imm: u64)
    requires
        machine::wf(m),
        rd < 32,
    ensures
        machine::run_words(m, emit_int::load_constant(rd, imm)) == Some(machine::set(m, rd, imm)),
        1 <= emit_int::load_constant(rd, imm).len() <= 5,
{
    laws_const::law_constant_is_built(m.gpr[rd as int], imm, rd != 0);
    lemma_builds(m, rd, constants::shortest(imm, rd != 0));
}

/// Whether a word is one that constants are built of in a register: it loads a
/// halfword into it (`li`, `lis`), ors one in (`ori`, `oris`), rotates it by any number
/// of bits and clears any number of them at the low end (`rldicr`) or at the high end
/// (`rldicl`), does so to its lower half at both ends (`rlwinm`, with a mask that does not
/// wrap around), or inverts it (`nor` with itself).
pub open spec fn is_build(rd: u32, w: u32) -> bool {
    exists|b: Build| laws_const::is_bitwise(b) && w == #[trigger] constants::word(rd, b)
}

/// Whether a word adds a halfword to a register other than r0 (`addi`, `addis`).
pub open spec fn is_add(rd: u32, w: u32) -> bool {
    rd != 0 && exists|h: u16| w == #[trigger] mnem::addi(rd, rd, h) || w == mnem::addis(rd, rd, h)
}

/// Whether words are among those that constants are built of, where the last one may also
/// add.
pub open spec fn are_builds(rd: u32, ws: Seq<u32>) -> bool {
    forall|i: int|
        0 <= i < ws.len() ==> is_build(rd, #[trigger] ws[i]) || (i == ws.len() - 1 && is_add(
            rd,
            ws[i],
        ))
}

/// Whether words leave a constant in a register, from every state of the machine, and
/// change nothing else.
pub open spec fn materialize(rd: u32, imm: u64, ws: Seq<u32>) -> bool {
    forall|m: Machine| #[trigger]
        machine::wf(m) ==> machine::run_words(m, ws) == Some(machine::set(m, rd, imm))
}

/// The instruction of a word that constants are built of.
spec fn op_of(rd: u32, w: u32) -> Build {
    if is_build(rd, w) {
        choose|b: Build| laws_const::is_bitwise(b) && w == #[trigger] constants::word(rd, b)
    } else {
        let h = choose|h: u16|
            w == #[trigger] mnem::addi(rd, rd, h) || w == mnem::addis(rd, rd, h);
        if w == mnem::addi(rd, rd, h) {
            Build::Addi(h)
        } else {
            Build::Addis(h)
        }
    }
}

/// The instruction of a word has that word.
proof fn lemma_op_of(rd: u32, w: u32)
    requires
        is_build(rd, w) || is_add(rd, w),
    ensures
        constants::valid(op_of(rd, w)),
        constants::word(rd, op_of(rd, w)) == w,
        constants::adds(op_of(rd, w)) ==> rd != 0 && !is_build(rd, w),
{
    if !is_build(rd, w) {
        let h = choose|h: u16|
            w == #[trigger] mnem::addi(rd, rd, h) || w == mnem::addis(rd, rd, h);
        assert(w == mnem::addi(rd, rd, h) || w == mnem::addis(rd, rd, h));
    }
}

/// A machine with the same value in all registers.
spec fn all_holding(g: u64) -> Machine {
    Machine {
        gpr: Seq::new(32, |i: int| g),
        cr0: machine::Cr { lt: false, gt: false, eq: false, un: false },
        ca: false,
        so: false,
        lr: 0,
        junk: 0,
    }
}

/// A constant is materialized in the shortest sequence of the words that constants are
/// built of, where the last one may also add: no fewer of them leave it in the register,
/// from every state of the machine, and change nothing else.
pub proof fn law_constant_is_shortest(rd: u32, imm: u64, ws: Seq<u32>)
    requires
        rd < 32,
        are_builds(rd, ws),
        materialize(rd, imm, ws),
    ensures
        emit_int::load_constant(rd, imm).len() <= ws.len(),
{
    let ops = Seq::new(ws.len(), |i: int| op_of(rd, ws[i]));
    assert forall|i: int| 0 <= i < ops.len() implies constants::valid(#[trigger] ops[i]) && (
    constants::adds(ops[i]) ==> rd != 0 && i == ops.len() - 1) && constants::word(rd, ops[i])
        == ws[i] by {
        assert(is_build(rd, ws[i]) || (i == ws.len() - 1 && is_add(rd, ws[i])));
        lemma_op_of(rd, ws[i]);
    }
    assert(ops.map_values(|b: Build| constants::word(rd, b)) =~= ws) by {
        assert forall|i: int| 0 <= i < ws.len() implies constants::word(rd, ops[i])
            == #[trigger] ws[i] by {
            assert(constants::valid(ops[i]));
        }
    }
    assert forall|g: u64| constants::value(g, ops) == imm by {
        let m = all_holding(g);
        assert(machine::wf(m));
        lemma_builds(m, rd, ops);
        lemma_set_set(m, rd, imm, imm);
        lemma_set_set(m, rd, constants::value(g, ops), imm);
    }
    laws_const::law_no_fewer_build(imm, ops, rd != 0);
}

/// Zeros below the lowest one of zero.
proof fn lemma_low_zeros_of_zero(bits: nat)
    ensures
        machine::low_zeros(0, bits) == bits,
    decreases bits,
{
    if bits > 0 {
        lemma_low_zeros_of_zero((bits - 1) as nat);
    }
}

/// Whether a doubleword is one of those that one word can make of zeros and nothing
/// else: zero, all ones, or a count of bits.
spec fn made_of_zeros(x: u64) -> bool {
    x == 0 || x == 32 || x == 64 || x == 0xFFFF_FFFF_FFFF_FFFF
}

/// What a logical or an arithmetic instruction makes of zeros.
proof fn lemma_zeros_combined(xo: u32)
    ensures
        machine::logical(xo, 0, 0) matches Some(x) ==> made_of_zeros(x),
        machine::arith(all_holding(0), xo, 0, 0) matches Some(x) ==> made_of_zeros(x),
{
    lemma_values(0, 0, 0, 0, 0, 0);
    lemma_values(0, !0u64, 0, 0, 0, 0);
    lemma_low_zeros_of_zero(64);
    lemma_low_zeros_of_zero(32);
}

/// Zero shifted right.
proof fn lemma_zero_shifted(m: Machine, rt: u32, n: nat, k: int)
    requires
        m == all_holding(0),
        rt < 32,
        0 <= k < 32,
    ensures
        machine::shifted_right(m, rt, 0, n).gpr[k] == 0,
{
    vstd::arithmetic::power2::lemma_pow2_pos(n);
    vstd::arithmetic::div_mod::lemma_div_of0(vstd::arithmetic::power2::pow2(n) as int);
}

/// What one word leaves in a register of a machine where all registers are zero.
proof fn lemma_one_word_from_zero(w: u32, n: Machine, k: int)
    requires
        machine::step(all_holding(0), w) == Some(n),
        0 <= k < 32,
    ensures
        ({
            let x = n.gpr[k];
            let h = machine::low16(w) as u16;
            ||| made_of_zeros(x)
            ||| x == constants::signed_half(h) || x == constants::signed_half(h) << 16u64
            ||| machine::opcd(w) == 24 || machine::opcd(w) == 25
        }),
{
    let m = all_holding(0);
    let h = machine::low16(w) as u16;
    lemma_values(0, machine::low16(w) as u64, h, 0, 0, w);
    lemma_values(0, 0, h, 0, 0, 0);
    lemma_zeros_combined(machine::xo10(w));
    reveal(machine::step);
    if machine::opcd(w) == 30 {
        lemma_values(0, machine::mask_from(machine::md_mask(w)), h, machine::md_sh(w), 0, w);
        lemma_values(0, machine::mask_to(machine::md_mask(w)), h, 0, 0, w);
    } else if machine::opcd(w) == 21 || machine::opcd(w) == 23 {
        lemma_values(0, machine::mask_from((32 + machine::f4(w)) as u32), h, 0, 0, w);
        lemma_values(0, machine::mask_to((32 + machine::xo5(w)) as u32), h, machine::f3(w), 0, w);
    } else if machine::opcd(w) == 31 {
        lemma_zero_shifted(m, machine::f2(w), machine::md_sh(w) as nat, k);
        lemma_zero_shifted(m, machine::f2(w), machine::f3(w) as nat, k);
        lemma_zero_shifted(m, machine::f2(w), 0, k);
    }
}

/// A constant that takes one or two words takes no fewer of any that the machine knows:
/// it is not there without a word, and where some word leaves it in the register, from
/// every state of the machine, and changes nothing else, one word is what it takes.
pub proof fn law_one_or_two_words_are_shortest(rd: u32, imm: u64, ws: Seq<u32>)
    requires
        rd < 32,
        materialize(rd, imm, ws),
    ensures
        ws.len() >= 1,
        ws.len() == 1 ==> emit_int::load_constant(rd, imm).len() == 1,
        emit_int::load_constant(rd, imm).len() <= 2 ==> emit_int::load_constant(rd, imm).len()
            <= ws.len(),
{
    let (zero, ones) = (all_holding(0), all_holding(0xFFFF_FFFF_FFFF_FFFF));
    assert(machine::wf(zero) && machine::wf(ones));
    let (n, k) = (machine::run_words(zero, ws)->0, machine::run_words(ones, ws)->0);
    assert(n.gpr[rd as int] == imm && k.gpr[rd as int] == imm);
    if ws.len() == 1 {
        let w = ws[0];
        lemma_run_one(zero, w);
        lemma_run_one(ones, w);
        assert(ws =~= seq![w]);
        lemma_one_word_from_zero(w, n, rd as int);
        if machine::opcd(w) == 24 || machine::opcd(w) == 25 {
            lemma_values(0, machine::low16(w) as u64, 0, 0, 0, w);
            lemma_values(0, (machine::low16(w) as u64) << 16, 0, 0, 0, w);
            reveal(machine::step);
            assert(imm == 0xFFFF_FFFF_FFFF_FFFF);
        }
        lemma_loaded_at_once(imm, machine::low16(w) as u16, rd != 0);
    }
}

/// What `li` or `lis` loads is one instruction.
proof fn lemma_loaded_at_once(x: u64, h: u16, may_add: bool)
    requires
        made_of_zeros(x) || x == constants::signed_half(h) || x == constants::signed_half(h)
            << 16u64,
    ensures
        constants::shortest(x, may_add).len() == 1,
{
    lemma_values(0, 0, h, 0, 0, 0);
    lemma_values(0, 0, 0, 0, 0, 0);
    lemma_values(0, 0, 32, 0, 0, 0);
    lemma_values(0, 0, 64, 0, 0, 0);
    lemma_values(0, 0, 0xFFFF, 0, 0, 0);
    reveal(constants::shortest);
}

/// What is emitted for a constant materializes it. It is the shortest that does of the
/// words that constants are built of, and where it is no more than two words, of all.
pub proof fn lemma_load_constant(rd: u32, imm: u64)
    requires
        rd < 32,
    ensures
        materialize(rd, imm, emit_int::load_constant(rd, imm)),
        forall|ws: Seq<u32>| #[trigger]
            materialize(rd, imm, ws) && (are_builds(rd, ws) || emit_int::load_constant(
                rd,
                imm,
            ).len() <= 2) ==> emit_int::load_constant(rd, imm).len() <= ws.len(),
{
    let words = emit_int::load_constant(rd, imm);
    assert forall|m: Machine| #[trigger] machine::wf(m) implies machine::run_words(m, words)
        == Some(machine::set(m, rd, imm)) by {
        law_constant_is_materialized(m, rd, imm);
    }
    assert forall|ws: Seq<u32>| #[trigger]
        materialize(rd, imm, ws) && (are_builds(rd, ws) || words.len() <= 2) implies words.len()
        <= ws.len() by {
        if are_builds(rd, ws) {
            law_constant_is_shortest(rd, imm, ws);
        } else {
            law_one_or_two_words_are_shortest(rd, imm, ws);
        }
    }
}

// Addresses.

/// Signed numbers as unsigned ones.
proof fn lemma_unsigned(x: i16, y: i64)
    by (bit_vector)
    ensures
        x >= 0 ==> x as u16 == x,
        x < 0 ==> x as u16 == x + 0x1_0000,
        y >= 0 ==> y as u64 == y,
        y < 0 ==> y as u64 == y + 0x1_0000_0000_0000_0000,
{
}

/// A displacement field, read as a signed number, is the displacement.
pub proof fn lemma_displacement(x: i16)
    ensures
        machine::signed16(x as u16 as u32) == x,
{
    lemma_unsigned(x, 0);
}

/// A signed number as a doubleword.
proof fn lemma_signed_doubleword(x: i64)
    ensures
        x as u64 == machine::wrap(x as int),
{
    lemma_unsigned(0, x);
}

/// `add` on the machine.
pub proof fn lemma_add(m: Machine, rt: u32, ra: u32, rb: u32)
    requires
        machine::wf(m),
        rt < 32,
        ra < 32,
        rb < 32,
    ensures
        machine::step(m, mnem::add_d(rt, ra, rb)) == Some(
            machine::set(m, rt, machine::wrap(m.gpr[ra as int] + m.gpr[rb as int])),
        ),
{
    reveal(machine::step);
    machine::law_x_fields(31, rt, ra, rb, 266);
}

/// The words of an address computation.
pub open spec fn addr_words(rd: u32, base: u32, offset: int) -> Seq<u32> {
    if emit_mem::fits_d(offset) {
        seq![mnem::addi(rd, base, offset as i16 as u16)]
    } else {
        emit_int::load_constant(0, offset as i64 as u64) + seq![mnem::add_d(rd, base, 0)]
    }
}

/// An address computation leaves the base register plus the offset in the
/// destination. Besides it, at most r0 changes.
pub proof fn law_address_is_computed(b: BufferView, m: Machine, rd: u32, base: u32, offset: int)
    requires
        machine::wf(m),
        rd < 32,
        0 < base < 32,
        i64::MIN <= offset <= i64::MAX,
    ensures
        emit_mem::load_addr(b, rd, base, offset) == b.words(addr_words(rd, base, offset)),
        machine::run_words(m, addr_words(rd, base, offset)) matches Some(n)
            && n.gpr[rd as int] == machine::wrap(m.gpr[base as int] + offset)
            && machine::same_but(m, n, rd, 0),
{
    lemma_words_push(b, Seq::empty(), 0);
    if emit_mem::fits_d(offset) {
        let si = offset as i16 as u16;
        lemma_displacement(offset as i16);
        assert(machine::step(m, mnem::addi(rd, base, si)) == Some(
            machine::set(m, rd, machine::wrap(m.gpr[base as int] + offset)),
        )) by {
            reveal(machine::step);
            machine::law_d_fields(14, rd, base, si as u32);
        }
        lemma_run_one(m, mnem::addi(rd, base, si));
        lemma_words_push(b, Seq::empty(), mnem::addi(rd, base, si));
        assert(b.words(Seq::empty()) =~= b);
        assert(Seq::<u32>::empty() + seq![mnem::addi(rd, base, si)] =~= addr_words(
            rd,
            base,
            offset,
        ));
    } else {
        let c = offset as i64 as u64;
        lemma_signed_doubleword(offset as i64);
        law_constant_is_materialized(m, 0, c);
        let m1 = machine::set(m, 0, c);
        lemma_run_push(m, emit_int::load_constant(0, c), mnem::add_d(rd, base, 0));
        lemma_add(m1, rd, base, 0);
        assert(machine::wrap(m.gpr[base as int] + c) == machine::wrap(
            m.gpr[base as int] + offset,
        ));
        lemma_words_push(b, emit_int::load_constant(0, c), mnem::add_d(rd, base, 0));
    }
}

/// Words followed by a word are the words with it at the end.
pub proof fn lemma_words_push(b: BufferView, ws: Seq<u32>, w: u32)
    ensures
        b.words(ws).word(w) == b.words(ws + seq![w]),
{
    assert(b.words(ws).word(w) =~= b.words(ws + seq![w]));
}

// Memory accesses.

/// The words before an access: the offset in r0 where it does not fit.
pub open spec fn access_setup(offset: int, a: emit_mem::Access) -> Seq<u32> {
    if emit_mem::fits_d(offset) && (a.ds_xo is Some ==> offset % 4 == 0) {
        seq![]
    } else {
        emit_int::load_constant(0, offset as i64 as u64)
    }
}

/// The access itself.
pub open spec fn access_word(rt: u32, base: u32, offset: int, a: emit_mem::Access) -> u32 {
    if emit_mem::fits_d(offset) && (a.ds_xo is Some ==> offset % 4 == 0) {
        match a.ds_xo {
            Some(xo2) => mnem::ds_access(a.d_opcd, rt, base, offset as i16, xo2),
            None => mnem::d_access(a.d_opcd, rt, base, offset as i16 as u16),
        }
    } else {
        mnem::x_access(rt, base, 0, a.x_xo)
    }
}

/// The fields of a DS-form word.
pub proof fn lemma_ds_fields(o: u32, a: u32, b: u32, d: i16, xo: u32)
    requires
        o < 64,
        a < 32,
        b < 32,
        d % 4 == 0,
        xo < 4,
    ensures
        machine::opcd(encode::ds_word(o, a, b, d, xo)) == o,
        machine::f1(encode::ds_word(o, a, b, d, xo)) == a,
        machine::f2(encode::ds_word(o, a, b, d, xo)) == b,
        machine::low16(encode::ds_word(o, a, b, d, xo)) & 0xFFFC == d as u16 as u32,
        encode::ds_word(o, a, b, d, xo) & 3 == xo,
{
    let u = d as u16;
    lemma_displacement(d);
    assert(u % 4 == 0);
    assert({
        let w = (o << 26) | (a << 21) | (b << 16) | ((u as u32) & 0xFFFC) | xo;
        &&& w >> 26 == o
        &&& (w >> 21) & 0x1F == a
        &&& (w >> 16) & 0x1F == b
        &&& (w & 0xFFFF) & 0xFFFC == u as u32
        &&& w & 3 == xo
    }) by (bit_vector)
        requires
            o < 64,
            a < 32,
            b < 32,
            u % 4 == 0,
            xo < 4,
    ;
}

/// A scalar access goes to the base register plus the offset, names the data
/// register in its first field, and disturbs at most r0.
pub proof fn law_access_goes_to_its_address(
    b: BufferView,
    m: Machine,
    rt: u32,
    base: u32,
    offset: int,
    a: emit_mem::Access,
)
    requires
        machine::wf(m),
        rt < 32,
        0 < base < 32,
        i64::MIN <= offset <= i64::MAX,
        (exists|op: LoadOP| a == #[trigger] emit_mem::load_access(op)) || (exists|op: StoreOP|
            a == #[trigger] emit_mem::store_access(op)),
    ensures
        emit_mem::mem_access(b, rt, base, offset, a) == b.words(access_setup(offset, a)).word(
            access_word(rt, base, offset, a),
        ),
        machine::f1(access_word(rt, base, offset, a)) == rt,
        machine::run_words(m, access_setup(offset, a)) matches Some(n) && memory::effective_address(
            n,
            access_word(rt, base, offset, a),
        ) == machine::wrap(m.gpr[base as int] + offset) && machine::same_but(m, n, 0, 0),
{
    if emit_mem::fits_d(offset) && (a.ds_xo is Some ==> offset % 4 == 0) {
        assert(b.words(Seq::empty()) =~= b);
        assert(machine::run_words(m, access_setup(offset, a)) == Some(m));
        lemma_displacement(offset as i16);
        match a.ds_xo {
            Some(xo2) => {
                lemma_ds_fields(a.d_opcd, rt, base, offset as i16, xo2);
            },
            None => {
                machine::law_d_fields(a.d_opcd, rt, base, offset as i16 as u16 as u32);
            },
        }
    } else {
        let c = offset as i64 as u64;
        lemma_signed_doubleword(offset as i64);
        law_constant_is_materialized(m, 0, c);
        machine::law_x_fields(31, rt, base, 0, a.x_xo);
        assert(machine::wrap(m.gpr[base as int] + c) == machine::wrap(
            m.gpr[base as int] + offset,
        ));
    }
}

/// A vector access goes to the base register plus the offset, and disturbs at most
/// r0.
pub proof fn law_vector_access_goes_to_its_address(m: Machine, base: u32, offset: int)
    requires
        machine::wf(m),
        0 < base < 32,
        i64::MIN <= offset <= i64::MAX,
    ensures
        ({
            let setup = if offset == 0 {
                Seq::<u32>::empty()
            } else {
                emit_int::load_constant(0, offset as i64 as u64)
            };
            let (ra, rb) = emit_mem::vec_ea(base, offset);
            machine::run_words(m, setup) matches Some(n) && machine::wrap(
                machine::base(n, ra) + n.gpr[rb as int],
            ) == machine::wrap(m.gpr[base as int] + offset) && machine::same_but(m, n, 0, 0)
        }),
        forall|b: BufferView| #[trigger]
            emit_mem::vec_ea_setup(b, offset) == b.words(
                if offset == 0 {
                    Seq::<u32>::empty()
                } else {
                    emit_int::load_constant(0, offset as i64 as u64)
                },
            ),
{
    if offset == 0 {
        assert forall|b: BufferView| #[trigger]
            emit_mem::vec_ea_setup(b, offset) == b.words(Seq::empty()) by {
            assert(b.words(Seq::empty()) =~= b);
        }
    } else {
        let c = offset as i64 as u64;
        lemma_signed_doubleword(offset as i64);
        law_constant_is_materialized(m, 0, c);
        assert(machine::wrap(m.gpr[base as int] + c) == machine::wrap(
            m.gpr[base as int] + offset,
        ));
    }
}

} // verus!
