//! That a constant is built, and that no fewer of the instructions that build constants
//! do it.
use vstd::prelude::*;
use crate::constants;
use crate::constants::{Build, Pattern, LIS_SIGN, LI_SIGN};
use crate::emit_int;
use crate::mnem;

verus! {

// One instruction and a pattern.

/// What a load, an or and an inversion leave of a pattern.
proof fn lemma_set_bits(x: u64, ones: u64, fixed: u64, h: u16)
    by (bit_vector)
    requires
        ones & !fixed == 0,
    ensures
        (ones & !0xFFFFu64) & !(fixed & !(ones & 0xFFFF)) == 0,
        (ones & !0xFFFF_0000u64) & !(fixed & !(ones & 0xFFFF_0000)) == 0,
        (fixed & !ones) & !fixed == 0,
        constants::has_bits(!x, ones, fixed) == constants::has_bits(x, fixed & !ones, fixed),
        constants::has_bits(x, ones & !0xFFFFu64, fixed & !(ones & 0xFFFF)) ==> constants::has_bits(
            x | ((ones as u16) as u64),
            ones,
            fixed,
        ),
        constants::has_bits(x, ones & !0xFFFF_0000u64, fixed & !(ones & 0xFFFF_0000))
            ==> constants::has_bits(
            x | ((((ones >> 16u64) as u16) as u64) << 16u64),
            ones,
            fixed,
        ),
        constants::has_bits(x | (h as u64), ones, fixed) ==> constants::has_bits(
            x,
            ones & !0xFFFFu64,
            fixed & !(ones & 0xFFFF),
        ),
        constants::has_bits(x | ((h as u64) << 16u64), ones, fixed) ==> constants::has_bits(
            x,
            ones & !0xFFFF_0000u64,
            fixed & !(ones & 0xFFFF_0000),
        ),
        ones & LI_SIGN == 0 ==> constants::has_bits(
            constants::signed_half(ones as u16),
            ones,
            fixed,
        ),
        fixed & !ones & LI_SIGN == 0 ==> constants::has_bits(
            constants::signed_half((ones as u16) | 0x8000),
            ones,
            fixed,
        ),
        ones & 0xFFFF == 0 && ones & LIS_SIGN == 0 ==> constants::has_bits(
            constants::signed_half((ones >> 16u64) as u16) << 16u64,
            ones,
            fixed,
        ),
        ones & 0xFFFF == 0 && fixed & !ones & LIS_SIGN == 0 ==> constants::has_bits(
            constants::signed_half(((ones >> 16u64) as u16) | 0x8000) << 16u64,
            ones,
            fixed,
        ),
        constants::has_bits(constants::signed_half(h), ones, fixed) ==> ones & LI_SIGN == 0 || fixed
            & !ones & LI_SIGN == 0,
        constants::has_bits(constants::signed_half(h) << 16u64, ones, fixed) ==> ones & 0xFFFF == 0
            && (ones & LIS_SIGN == 0 || fixed & !ones & LIS_SIGN == 0),
{
}

/// What a rotation leaves of a pattern.
#[verifier::rlimit(40)]
proof fn lemma_rotated_bits(x: u64, ones: u64, fixed: u64, s: u64)
    by (bit_vector)
    requires
        s < 64,
    ensures
        constants::has_bits(x, constants::turned_back(ones, s), constants::turned_back(fixed, s))
            == constants::has_bits(constants::turned(x, s), ones, fixed),
        ones & !fixed == 0 ==> constants::turned_back(ones, s) & !constants::turned_back(fixed, s)
            == 0,
{
}

/// What a rotation of the lower half leaves of a pattern of the lower half.
#[verifier::rlimit(40)]
proof fn lemma_word_rotated_bits(x: u64, ones: u64, fixed: u64, s: u64)
    by (bit_vector)
    requires
        s < 32,
        ones <= 0xFFFF_FFFF,
        fixed <= 0xFFFF_FFFF,
    ensures
        constants::has_bits(
            x,
            constants::word_turned_back(ones, s),
            constants::word_turned_back(fixed, s),
        ) == constants::has_bits(constants::turned(constants::doubled(x), s), ones, fixed),
        ones & !fixed == 0 ==> constants::word_turned_back(ones, s) & !constants::word_turned_back(
            fixed,
            s,
        ) == 0,
{
}

/// What clearing bits leaves of a pattern whose lowest one has `t` zeros below it and
/// whose highest one has `l` zeros above it, where as many bits are cleared, or so many
/// as `c` and `d` say.
#[verifier::rlimit(40)]
proof fn lemma_masked_bits(y: u64, ones: u64, fixed: u64, t: u64, l: u64, c: u64, d: u64)
    by (bit_vector)
    requires
        ones & !fixed == 0,
        t < 64,
        l < 64,
        c < 64,
        d < 64,
        ones & constants::mask_above(t) == ones,
        ones & constants::mask_below(l) == ones,
        (ones >> t) & 1 == 1,
        (ones << l) >> 63u64 == 1,
    ensures
        ones & !(fixed & constants::mask_above(t)) == 0,
        ones & !(fixed & constants::mask_below(l)) == 0,
        constants::has_bits(y, ones, fixed & constants::mask_above(t)) == constants::has_bits(
            y & constants::mask_above(t),
            ones,
            fixed,
        ),
        constants::has_bits(y, ones, fixed & constants::mask_below(l)) == constants::has_bits(
            y & constants::mask_below(l),
            ones,
            fixed,
        ),
        constants::has_bits(y & constants::mask_above(c), ones, fixed) ==> constants::has_bits(
            y,
            ones,
            fixed & constants::mask_above(t),
        ),
        constants::has_bits(y & constants::mask_below(c), ones, fixed) ==> constants::has_bits(
            y,
            ones,
            fixed & constants::mask_below(l),
        ),
        ones & !(fixed & (constants::mask_above(t) & constants::mask_below(l))) == 0,
        constants::has_bits(
            y,
            ones,
            fixed & (constants::mask_above(t) & constants::mask_below(l)),
        ) == constants::has_bits(
            y & constants::mask_below(l) & constants::mask_above(t),
            ones,
            fixed,
        ),
        constants::has_bits(y & constants::mask_below(c) & constants::mask_above(d), ones, fixed)
            ==> constants::has_bits(
            y,
            ones,
            fixed & (constants::mask_above(t) & constants::mask_below(l)),
        ) && (c >= 32 ==> ones <= 0xFFFF_FFFF),
        l >= 32 ==> fixed & (constants::mask_above(t) & constants::mask_below(l)) <= 0xFFFF_FFFF,
{
}

/// Five instructions by their values, and what leaves zero or all ones.
proof fn lemma_plain_bits(x: u64, s: u64)
    by (bit_vector)
    ensures
        ((constants::turned(
            (constants::signed_half(constants::half(x, 48)) << 16u64) | (constants::half(x, 32)
                as u64),
            32,
        ) & constants::mask_above(32)) | ((constants::half(x, 16) as u64) << 16u64)) | (
        constants::half(x, 0) as u64) == x,
        s < 64 ==> constants::turned(0, s) == 0,
        constants::doubled(0) == 0,
        !0xFFFF_FFFF_FFFF_FFFFu64 == 0,
        0u64 & x == 0,
        0xFFFF_FFFF_FFFF_FFFFu64 | x == 0xFFFF_FFFF_FFFF_FFFFu64,
        constants::signed_half(0) == 0,
        constants::signed_half(0xFFFF) == 0xFFFF_FFFF_FFFF_FFFFu64,
        x & !0xFFFF_FFFF_FFFF_FFFFu64 == 0,
        x & 0xFFFF_FFFF_FFFF_FFFFu64 == x,
        0u64 as u16 == 0,
        x << 0u64 == x,
        x ^ s == 0 ==> x == s,
        x | (0u16 as u64) == x,
        x | ((0u16 as u64) << 16u64) == x,
{
}

/// What an add leaves, of what has the bits of a pattern before it.
#[verifier::rlimit(60)]
proof fn lemma_added_bits(x: u64, v: u64, lo: u64, j: u64)
    by (bit_vector)
    requires
        lo == 0 || lo == 16,
        lo <= j < lo + 16,
    ensures
        ({
            let a = constants::least_before(x, lo);
            let b = constants::beyond(x, lo);
            let fixed = constants::agreeing_fixed(j, lo);
            let up = constants::agreeing_ones(a, j, lo, 1);
            let down = constants::agreeing_ones(b, j, lo, 0);
            let sum = constants::added(
                v,
                constants::signed_half(constants::amount(x, v, lo)) << lo,
            );
            &&& v == a ==> sum == x
            &&& (a >> j) & 1 == 0 ==> up & !fixed == 0 && (constants::has_bits(v, up, fixed) ==> sum
                == x)
            &&& (b >> j) & 1 == 1 ==> down & !fixed == 0 && (constants::has_bits(v, down, fixed)
                ==> sum == x)
        }),
{
}

/// Which pattern is had by what an add leaves a doubleword of, where `l` is the number of
/// zeros above the first bit where it differs from an end of the interval.
#[verifier::rlimit(60)]
proof fn lemma_addend_bits(v: u64, h: u16, lo: u64, l: u64)
    by (bit_vector)
    requires
        lo == 0 || lo == 16,
        l < 64,
    ensures
        ({
            let x = constants::added(v, constants::signed_half(h) << lo);
            let a = constants::least_before(x, lo);
            let b = constants::beyond(x, lo);
            let j = (63 - l) as u64;
            let fixed = constants::agreeing_fixed(j, lo);
            let block = (lo + 16) as u64;
            &&& v >> block == a >> block || v >> block == b >> block
            &&& v != b
            &&& v >> block == a >> block && v ^ a != 0 && (v ^ a) & constants::mask_below(l) == v
                ^ a && ((v ^ a) << l) >> 63u64 == 1 ==> lo <= j < lo + 16 && (a >> j) & 1 == 0
                && constants::has_bits(v, constants::agreeing_ones(a, j, lo, 1), fixed)
            &&& v >> block == b >> block && v >> block != a >> block && (v ^ b)
                & constants::mask_below(l) == v ^ b && ((v ^ b) << l) >> 63u64 == 1 ==> lo <= j < lo
                + 16 && (b >> j) & 1 == 1 && constants::has_bits(
                v,
                constants::agreeing_ones(b, j, lo, 0),
                fixed,
            )
        }),
{
}

/// Where no load leaves a pattern, what a rotation leaves of it: the pattern before is
/// one that the rotated doubleword must have, and that is enough.
proof fn lemma_turn(p: Pattern, x: u64, s: u64, c: u64)
    requires
        p.wf(),
        p.ones != 0,
        s < 64,
        c < 64,
    ensures
        ({
            let right = constants::before_turn(
                p,
                s,
                constants::mask_above(constants::low_zeros(p.ones, 0)),
            );
            let low = constants::low_zeros(p.ones, 0);
            &&& right.wf()
            &&& low < 64
            &&& right.meets(x) ==> p.meets(constants::turned(x, s) & constants::mask_above(low))
            &&& p.meets(constants::turned(x, s) & constants::mask_above(c)) ==> right.meets(x)
        }),
        ({
            let left = constants::before_turn(
                p,
                s,
                constants::mask_below(constants::high_zeros(p.ones, 0)),
            );
            let high = constants::high_zeros(p.ones, 0);
            &&& left.wf()
            &&& high < 64
            &&& left.meets(x) ==> p.meets(constants::turned(x, s) & constants::mask_below(high))
            &&& p.meets(constants::turned(x, s) & constants::mask_below(c)) ==> left.meets(x)
        }),
{
    constants::lemma_zeros(p.ones);
    let t = constants::low_zeros(p.ones, 0);
    let l = constants::high_zeros(p.ones, 0);
    lemma_masked_bits(constants::turned(x, s), p.ones, p.fixed, t, l, c, 0);
    lemma_rotated_bits(x, p.ones, p.fixed & constants::mask_above(t), s);
    lemma_rotated_bits(x, p.ones, p.fixed & constants::mask_below(l), s);
}

/// The same for a rotation of the lower half.
proof fn lemma_word_turn(p: Pattern, x: u64, s: u64, mb: u64, me: u64)
    requires
        p.wf(),
        p.ones != 0,
        s < 32,
        mb < 32,
        me < 32,
    ensures
        ({
            let t = constants::low_zeros(p.ones, 0);
            let l = constants::high_zeros(p.ones, 0);
            let before = constants::before_word_turn(
                p,
                s,
                constants::mask_above(t) & constants::mask_below(l),
            );
            let y = constants::turned(constants::doubled(x), s);
            &&& p.ones <= 0xFFFF_FFFF ==> {
                &&& before.wf()
                &&& t <= 31
                &&& 32 <= l <= 63
                &&& before.meets(x) ==> p.meets(
                    y & constants::mask_below(l) & constants::mask_above(t),
                )
            }
            &&& p.meets(
                y & constants::mask_below((32 + mb) as u64) & constants::mask_above(
                    (31 - me) as u64,
                ),
            ) ==> p.ones <= 0xFFFF_FFFF && before.meets(x)
        }),
{
    constants::lemma_zeros(p.ones);
    let t = constants::low_zeros(p.ones, 0);
    let l = constants::high_zeros(p.ones, 0);
    let y = constants::turned(constants::doubled(x), s);
    let fixed = p.fixed & (constants::mask_above(t) & constants::mask_below(l));
    lemma_masked_bits(y, p.ones, p.fixed, t, l, (32 + mb) as u64, (31 - me) as u64);
    if p.ones <= 0xFFFF_FFFF {
        lemma_word_rotated_bits(x, p.ones, fixed, s);
    }
}

// What a search finds.

/// One more instruction.
proof fn lemma_value_push(x: u64, ops: Seq<Build>, b: Build)
    ensures
        constants::value(x, ops.push(b)) == constants::built(constants::value(x, ops), b),
{
    assert(ops.push(b).drop_last() =~= ops);
}

/// What a search finds leaves a doubleword of the pattern.
proof fn lemma_found(g: u64, p: Pattern, n: nat)
    requires
        p.wf(),
    ensures
        constants::find(p, n) matches Some(ops) ==> p.meets(constants::value(g, ops)),
    decreases n, 65int,
{
    if let Some(b) = constants::load_for(p) {
        let none = Seq::<Build>::empty();
        lemma_value_push(g, none, b);
        assert(none.push(b) =~= seq![b]);
        lemma_set_bits(0, p.ones, p.fixed, 0);
    } else if n > 1 {
        let m = (n - 1) as nat;
        let low = constants::before_ori(p);
        let second = constants::before_oris(p);
        lemma_set_bits(0, p.ones, p.fixed, 0);
        lemma_found(g, low, m);
        lemma_found(g, second, m);
        if let Some(ops) = constants::find(low, m) {
            lemma_set_bits(constants::value(g, ops), p.ones, p.fixed, 0);
            lemma_value_push(g, ops, Build::Ori(p.ones as u16));
        } else if let Some(ops) = constants::find(second, m) {
            lemma_set_bits(constants::value(g, ops), p.ones, p.fixed, 0);
            lemma_value_push(g, ops, Build::Oris((p.ones >> 16u64) as u16));
        } else {
            if p.ones == 0 {
                constants::lemma_no_ones(p);
            }
            lemma_turned_found(g, p, m, 0);
            lemma_word_turned_found(g, p, m, 0);
            lemma_found(g, constants::before_not(p), m);
            if let Some(ops) = constants::find(constants::before_not(p), m) {
                lemma_set_bits(constants::value(g, ops), p.ones, p.fixed, 0);
                lemma_value_push(g, ops, Build::Not);
            }
        }
    }
}

/// The same where rotations of the lower half are tried.
proof fn lemma_word_turned_found(g: u64, p: Pattern, m: nat, s: u64)
    requires
        p.wf(),
        p.ones != 0,
    ensures
        p.ones <= 0xFFFF_FFFF ==> (constants::find_word_turned(p, m, s) matches Some(ops)
            ==> p.meets(constants::value(g, ops))),
    decreases m + 1, 64 - s,
{
    if s < 32 && p.ones <= 0xFFFF_FFFF {
        let t = constants::low_zeros(p.ones, 0);
        let l = constants::high_zeros(p.ones, 0);
        let before = constants::before_word_turn(
            p,
            s,
            constants::mask_above(t) & constants::mask_below(l),
        );
        lemma_word_turn(p, 0, s, 0, 0);
        lemma_found(g, before, m);
        if let Some(ops) = constants::find(before, m) {
            lemma_word_turn(p, constants::value(g, ops), s, 0, 0);
            lemma_value_push(g, ops, Build::Rlwinm(s as u32, (l - 32) as u32, (31 - t) as u32));
        } else {
            lemma_word_turned_found(g, p, m, (s + 1) as u64);
        }
    }
}

/// The same where rotations are tried.
proof fn lemma_turned_found(g: u64, p: Pattern, m: nat, i: u64)
    requires
        p.wf(),
        p.ones != 0,
    ensures
        constants::find_turned(p, m, i) matches Some(ops) ==> p.meets(constants::value(g, ops)),
    decreases m + 1, 64 - i,
{
    if i < 64 {
        let t = constants::low_zeros(p.ones, 0);
        let l = constants::high_zeros(p.ones, 0);
        let s = constants::rotation(t, i);
        let right = constants::before_turn(p, s, constants::mask_above(t));
        let left = constants::before_turn(p, s, constants::mask_below(l));
        lemma_turn(p, 0, s, 0);
        lemma_found(g, right, m);
        lemma_found(g, left, m);
        if let Some(ops) = constants::find(right, m) {
            lemma_turn(p, constants::value(g, ops), s, 0);
            lemma_value_push(g, ops, Build::Rldicr(s as u32, (63 - t) as u32));
        } else if let Some(ops) = constants::find(left, m) {
            lemma_turn(p, constants::value(g, ops), s, 0);
            lemma_value_push(g, ops, Build::Rldicl(s as u32, l as u32));
        } else {
            lemma_turned_found(g, p, m, (i + 1) as u64);
        }
    }
}

/// Oring in a halfword that may be zero.
proof fn lemma_value_unless_zero(g: u64, ops: Seq<Build>, b: Build, h: u16)
    requires
        b == Build::Ori(h) || b == Build::Oris(h),
    ensures
        constants::value(g, ops + constants::unless_zero(b, h)) == constants::built(constants::value(g, ops), b),
{
    if h == 0 {
        assert(ops + constants::unless_zero(b, h) =~= ops);
        let x = constants::value(g, ops);
        lemma_plain_bits(x, 0);
    } else {
        assert(ops + constants::unless_zero(b, h) =~= ops.push(b));
        lemma_value_push(g, ops, b);
    }
}

/// Quarter by quarter, any doubleword is built.
proof fn lemma_by_quarters(g: u64, x: u64)
    ensures
        constants::value(g, constants::by_quarters(x)) == x,
{
    let none = Seq::<Build>::empty();
    let (h0, h1) = (constants::half(x, 0), constants::half(x, 16));
    let (h2, h3) = (constants::half(x, 32), constants::half(x, 48));
    lemma_plain_bits(x, 0);
    if constants::signed_half(h0) == x {
        lemma_value_push(g, none, Build::Li(h0));
        assert(none.push(Build::Li(h0)) =~= constants::by_quarters(x));
    } else if (constants::signed_half(h1) << 16u64) | (h0 as u64) == x {
        let load = seq![Build::Lis(h1)];
        lemma_value_push(g, none, Build::Lis(h1));
        assert(none.push(Build::Lis(h1)) =~= load);
        lemma_value_unless_zero(g, load, Build::Ori(h0), h0);
    } else {
        let s1 = seq![Build::Lis(h3)];
        let s2 = s1 + constants::unless_zero(Build::Ori(h2), h2);
        let s3 = s2 + seq![Build::Rldicr(32, 31)];
        let s4 = s3 + constants::unless_zero(Build::Oris(h1), h1);
        lemma_value_push(g, none, Build::Lis(h3));
        assert(none.push(Build::Lis(h3)) =~= s1);
        lemma_value_unless_zero(g, s1, Build::Ori(h2), h2);
        lemma_value_push(g, s2, Build::Rldicr(32, 31));
        assert(s2.push(Build::Rldicr(32, 31)) =~= s3);
        lemma_value_unless_zero(g, s3, Build::Oris(h1), h1);
        lemma_value_unless_zero(g, s4, Build::Ori(h0), h0);
    }
}

/// The first instruction, and the others.
proof fn lemma_value_first(g: u64, b: Build, rest: Seq<Build>)
    ensures
        constants::value(g, seq![b] + rest) == constants::value(constants::built(g, b), rest),
    decreases rest.len(),
{
    let ops = seq![b] + rest;
    if rest.len() == 0 {
        lemma_value_push(g, Seq::<Build>::empty(), b);
        assert(ops =~= Seq::<Build>::empty().push(b));
    } else {
        lemma_value_first(g, b, rest.drop_last());
        assert(ops.drop_last() =~= seq![b] + rest.drop_last());
        assert(ops.last() == rest.last());
    }
}

/// What starts with a load does not depend on what the register held.
proof fn lemma_value_loaded(g: u64, ops: Seq<Build>)
    requires
        ops.len() >= 1,
        constants::loads(ops[0]),
    ensures
        constants::value(g, ops) == constants::value(0, ops),
{
    let rest = ops.drop_first();
    assert(seq![ops[0]] + rest =~= ops);
    lemma_value_first(g, ops[0], rest);
    lemma_value_first(0, ops[0], rest);
}

/// What a search for an add finds builds the doubleword.
proof fn lemma_added_found(g: u64, x: u64, lo: u64, m: nat, i: u64)
    requires
        lo == 0 || lo == 16,
        m >= 1,
    ensures
        constants::find_added(x, lo, m, i) matches Some(ops) ==> constants::value(g, ops) == x,
    decreases 33 - i,
{
    if i < 33 {
        let j = (if i < 16 {
            lo + i
        } else if i < 32 {
            lo + i - 16
        } else {
            lo as int
        }) as u64;
        lemma_added_found(g, x, lo, m, (i + 1) as u64);
        if let Some(p) = constants::before_add(x, lo, i) {
            lemma_added_bits(x, 0, lo, j);
            lemma_plain_bits(p.ones, 0);
            lemma_found(0, p, m);
            constants::lemma_find_shape(p, m);
            if let Some(ops) = constants::find(p, m) {
                let v = constants::value(0, ops);
                let h = constants::amount(x, v, lo);
                lemma_plain_bits(v, 0);
                lemma_added_bits(x, v, lo, j);
                lemma_value_loaded(g, ops);
                lemma_value_push(g, ops, constants::add_op(lo, h));
                lemma_plain_bits(constants::signed_half(h), 0);
            }
        }
    }
}

/// What is found for one doubleword builds it.
proof fn lemma_exactly_found(g: u64, x: u64, n: nat, may_add: bool)
    requires
        n >= 1,
    ensures
        constants::find_exactly(x, n, may_add) matches Some(ops) ==> constants::value(g, ops) == x,
{
    let p = Pattern::exactly(x);
    lemma_plain_bits(x, 0);
    lemma_found(g, p, n);
    if let Some(ops) = constants::find(p, n) {
        lemma_plain_bits(constants::value(g, ops), 0);
    } else if n >= 2 {
        lemma_added_found(g, x, 0, (n - 1) as nat, 0);
        lemma_added_found(g, x, 16, (n - 1) as nat, 0);
    }
}

/// What is chosen from some number of instructions on builds the doubleword.
proof fn lemma_fewest(g: u64, x: u64, n: nat, may_add: bool)
    requires
        n >= 1,
    ensures
        constants::value(g, constants::fewest(x, n, may_add)) == x,
    decreases 5 - n,
{
    constants::lemma_quarters_shape(x);
    if n >= constants::by_quarters(x).len() {
        lemma_by_quarters(g, x);
    } else {
        lemma_exactly_found(g, x, n, may_add);
        if constants::find_exactly(x, n, may_add) is None {
            lemma_fewest(g, x, n + 1, may_add);
        }
    }
}

/// The instructions that are chosen build the doubleword, whatever the register held.
/// They exist, are at most five, and add only where they may.
pub proof fn law_constant_is_built(g: u64, x: u64, may_add: bool)
    ensures
        constants::value(g, constants::shortest(x, may_add)) == x,
        constants::shape(constants::shortest(x, may_add), 5, may_add),
{
    reveal(constants::shortest);
    constants::lemma_shape(x, 1, may_add);
    lemma_fewest(g, x, 1, may_add);
}

/// Zero is one instruction.
pub proof fn lemma_zero(rd: u32)
    ensures
        emit_int::load_constant(rd, 0) == seq![mnem::li(rd, 0)],
{
    reveal(constants::shortest);
    constants::lemma_no_ones(Pattern::exactly(0));
    assert(emit_int::load_constant(rd, 0) =~= seq![mnem::li(rd, 0)]);
}

// What no search misses.

/// Trying more rotations finds what trying fewer does.
proof fn lemma_more_rotations(p: Pattern, m: nat, i: u64, j: u64)
    requires
        i <= j,
        constants::find_turned(p, m, j) is Some,
    ensures
        constants::find_turned(p, m, i) is Some,
    decreases j - i,
{
    if i < j {
        assert(j < 64);
        lemma_more_rotations(p, m, (i + 1) as u64, j);
    }
}

/// Every rotation is tried.
proof fn lemma_rotation_tried(p: Pattern, m: nat, s: u64)
    requires
        p.ones != 0,
        s < 64,
        constants::find(
            constants::before_turn(p, s, constants::mask_above(constants::low_zeros(p.ones, 0))),
            m,
        ) is Some || constants::find(
            constants::before_turn(p, s, constants::mask_below(constants::high_zeros(p.ones, 0))),
            m,
        ) is Some,
    ensures
        constants::find_turned(p, m, 0) is Some,
{
    let t = constants::low_zeros(p.ones, 0);
    constants::lemma_zeros_bounded(p.ones, 0);
    let i = ((t + 64 - s) % 64) as u64;
    assert(constants::rotation(t, i) == s);
    assert(constants::find_turned(p, m, i) is Some);
    lemma_more_rotations(p, m, 0, i);
}

/// Every rotation of the lower half is tried.
proof fn lemma_word_rotation_tried(p: Pattern, m: nat, from: u64, s: u64)
    requires
        from <= s < 32,
        constants::find(
            constants::before_word_turn(
                p,
                s,
                constants::mask_above(constants::low_zeros(p.ones, 0)) & constants::mask_below(
                    constants::high_zeros(p.ones, 0),
                ),
            ),
            m,
        ) is Some,
    ensures
        constants::find_word_turned(p, m, from) is Some,
    decreases s - from,
{
    if from < s {
        lemma_word_rotation_tried(p, m, (from + 1) as u64, s);
    }
}

/// Whether the instruction exists and does not add.
pub open spec fn is_bitwise(b: Build) -> bool {
    constants::valid(b) && !constants::adds(b)
}

/// Where instructions, one of which loads, leave a doubleword of a pattern, a search for
/// as many finds some.
proof fn lemma_reached(g: u64, p: Pattern, ops: Seq<Build>, at: int)
    requires
        p.wf(),
        0 <= at < ops.len(),
        constants::loads(ops[at]),
        forall|i: int| 0 <= i < ops.len() ==> is_bitwise(#[trigger] ops[i]),
        p.meets(constants::value(g, ops)),
    ensures
        constants::find(p, ops.len()) is Some,
    decreases ops.len(),
{
    let front = ops.drop_last();
    let b = ops.last();
    let y = constants::value(g, front);
    assert(is_bitwise(ops[ops.len() - 1]));
    if constants::load_for(p) is None {
        match b {
            Build::Li(h) => lemma_set_bits(0, p.ones, p.fixed, h),
            Build::Lis(h) => lemma_set_bits(0, p.ones, p.fixed, h),
            _ => {},
        }
        assert(!constants::loads(b));
        assert(at < front.len());
        assert(constants::loads(front[at]));
        assert forall|i: int| 0 <= i < front.len() implies is_bitwise(#[trigger] front[i]) by {
            assert(front[i] == ops[i]);
        }
        if p.ones == 0 {
            constants::lemma_no_ones(p);
        }
        match b {
            Build::Ori(h) => {
                lemma_set_bits(y, p.ones, p.fixed, h);
                lemma_reached(g, constants::before_ori(p), front, at);
            },
            Build::Oris(h) => {
                lemma_set_bits(y, p.ones, p.fixed, h);
                lemma_reached(g, constants::before_oris(p), front, at);
            },
            Build::Rldicr(sh, me) => {
                let s = sh as u64;
                lemma_turn(p, y, s, (63 - me) as u64);
                let right = constants::before_turn(
                    p,
                    s,
                    constants::mask_above(constants::low_zeros(p.ones, 0)),
                );
                lemma_reached(g, right, front, at);
                lemma_rotation_tried(p, front.len(), s);
            },
            Build::Rldicl(sh, mb) => {
                let s = sh as u64;
                lemma_turn(p, y, s, mb as u64);
                let left = constants::before_turn(
                    p,
                    s,
                    constants::mask_below(constants::high_zeros(p.ones, 0)),
                );
                lemma_reached(g, left, front, at);
                lemma_rotation_tried(p, front.len(), s);
            },
            Build::Rlwinm(sh, mb, me) => {
                let s = sh as u64;
                lemma_word_turn(p, y, s, mb as u64, me as u64);
                let before = constants::before_word_turn(
                    p,
                    s,
                    constants::mask_above(constants::low_zeros(p.ones, 0)) & constants::mask_below(
                        constants::high_zeros(p.ones, 0),
                    ),
                );
                lemma_reached(g, before, front, at);
                lemma_word_rotation_tried(p, front.len(), 0, s);
            },
            Build::Not => {
                lemma_set_bits(y, p.ones, p.fixed, 0);
                lemma_reached(g, constants::before_not(p), front, at);
            },
            _ => {},
        }
    }
}

/// What is chosen is no more than what a search finds.
proof fn lemma_fewest_bounded(x: u64, n: nat, most: nat, may_add: bool)
    requires
        1 <= n <= most < 5,
        constants::find_exactly(x, most, may_add) is Some,
    ensures
        constants::fewest(x, n, may_add).len() <= most,
    decreases 5 - n,
{
    constants::lemma_exactly_shape(x, n, may_add);
    if n < constants::by_quarters(x).len() && constants::find_exactly(x, n, may_add) is None {
        lemma_fewest_bounded(x, n + 1, most, may_add);
    }
}

/// Where instructions leave a doubleword whatever the register held, a search for as
/// many that leave one of a pattern that it has finds some.
proof fn lemma_all_reached(p: Pattern, x: u64, ops: Seq<Build>)
    requires
        p.wf(),
        p.meets(x),
        forall|g: u64| constants::value(g, ops) == x,
        forall|i: int| 0 <= i < ops.len() ==> is_bitwise(#[trigger] ops[i]),
    ensures
        ops.len() > 0,
        constants::find(p, ops.len()) is Some,
{
    assert(constants::value(0, ops) == x);
    assert(constants::value(1, ops) == x);
    assert(ops.len() > 0);
    lemma_plain_bits(x, 0);
    if exists|at: int| 0 <= at < ops.len() && constants::loads(#[trigger] ops[at]) {
        let at = choose|at: int| 0 <= at < ops.len() && constants::loads(#[trigger] ops[at]);
        lemma_reached(0, p, ops, at);
    } else {
        // Where nothing loads, a first rotation or inversion is as good as loading zero,
        // and a first or is as good as loading all ones.
        let rest = ops.drop_first();
        let b = ops[0];
        assert(!constants::loads(b));
        assert(is_bitwise(b));
        let (g, load) = match b {
            Build::Ori(_) | Build::Oris(_) => (0xFFFF_FFFF_FFFF_FFFFu64, Build::Li(0xFFFF)),
            Build::Not => (0xFFFF_FFFF_FFFF_FFFFu64, Build::Li(0)),
            _ => (0u64, Build::Li(0)),
        };
        match b {
            Build::Ori(h) => lemma_plain_bits(h as u64, 0),
            Build::Oris(h) => lemma_plain_bits((h as u64) << 16u64, 0),
            Build::Rldicr(s, me) => lemma_plain_bits(
                constants::mask_above((63 - me) as u64),
                s as u64,
            ),
            Build::Rldicl(s, mb) => lemma_plain_bits(constants::mask_below(mb as u64), s as u64),
            Build::Rlwinm(s, mb, me) => {
                lemma_plain_bits(constants::mask_below((32 + mb) as u64), s as u64);
                lemma_plain_bits(constants::mask_above((31 - me) as u64), s as u64);
            },
            _ => {},
        }
        assert(constants::built(g, b) == constants::built(g, load));
        let loaded = seq![load] + rest;
        lemma_value_first(g, b, rest);
        lemma_value_first(g, load, rest);
        assert(seq![b] + rest =~= ops);
        assert(constants::value(g, ops) == x);
        assert forall|i: int| 0 <= i < loaded.len() implies is_bitwise(#[trigger] loaded[i]) by {
            if i > 0 {
                assert(loaded[i] == ops[i]);
            }
        }
        assert(constants::loads(loaded[0]));
        lemma_reached(g, p, loaded, 0);
    }
}

/// Trying more patterns finds what trying fewer does.
proof fn lemma_more_patterns(x: u64, lo: u64, m: nat, i: u64, j: u64)
    requires
        i <= j < 33,
        constants::before_add(x, lo, j) matches Some(p) && constants::find(p, m) is Some,
    ensures
        constants::find_added(x, lo, m, i) is Some,
    decreases j - i,
{
    if i < j {
        lemma_more_patterns(x, lo, m, (i + 1) as u64, j);
    }
}

/// A pattern that is had by what an add leaves a doubleword of.
proof fn lemma_addend(v: u64, h: u16, lo: u64) -> (i: u64)
    requires
        lo == 0 || lo == 16,
    ensures
        ({
            let x = constants::added(v, constants::signed_half(h) << lo);
            i < 33 && (constants::before_add(x, lo, i) matches Some(p) && p.wf() && p.meets(v))
        }),
{
    let x = constants::added(v, constants::signed_half(h) << lo);
    let a = constants::least_before(x, lo);
    let b = constants::beyond(x, lo);
    let block = (lo + 16) as u64;
    lemma_addend_bits(v, h, lo, 0);
    lemma_plain_bits(v, a);
    lemma_plain_bits(v, b);
    lemma_plain_bits(a, 0);
    if v == a {
        32
    } else {
        let l = constants::high_zeros(
            if v >> block == a >> block {
                v ^ a
            } else {
                v ^ b
            },
            0,
        );
        constants::lemma_zeros(
            if v >> block == a >> block {
                v ^ a
            } else {
                v ^ b
            },
        );
        lemma_addend_bits(v, h, lo, l);
        let j = (63 - l) as u64;
        lemma_added_bits(x, v, lo, j);
        if v >> block == a >> block {
            (j - lo) as u64
        } else {
            (16 + j - lo) as u64
        }
    }
}

/// No fewer of the instructions that build constants leave a doubleword, whatever the
/// register held, where the last one may add if `may_add` says so, and no other one adds.
pub proof fn law_no_fewer_build(x: u64, ops: Seq<Build>, may_add: bool)
    requires
        forall|g: u64| constants::value(g, ops) == x,
        forall|i: int|
            0 <= i < ops.len() ==> constants::valid(#[trigger] ops[i]) && (constants::adds(ops[i])
                ==> may_add && i == ops.len() - 1),
    ensures
        constants::shortest(x, may_add).len() <= ops.len(),
{
    reveal(constants::shortest);
    constants::lemma_shape(x, 1, may_add);
    lemma_plain_bits(x, 0);
    assert(constants::value(0, ops) == x && constants::value(1, ops) == x);
    assert(ops.len() > 0);
    let b = ops[ops.len() - 1];
    if !constants::adds(b) {
        lemma_all_reached(Pattern::exactly(x), x, ops);
    } else {
        let front = ops.drop_last();
        let (lo, h) = match b {
            Build::Addi(h) => (0u64, h),
            Build::Addis(h) => (16u64, h),
            _ => (0, 0),
        };
        let y = constants::signed_half(h) << lo;
        let v = (x - y) as u64;
        lemma_plain_bits(constants::signed_half(h), 0);
        assert forall|g: u64| constants::value(g, front) == v by {
            assert(constants::value(g, ops) == x);
            constants::lemma_wrapping(constants::value(g, front), y);
            constants::lemma_wrapping(x, y);
        }
        constants::lemma_wrapping(v, y);
        constants::lemma_wrapping(x, y);
        assert forall|i: int| 0 <= i < front.len() implies is_bitwise(#[trigger] front[i]) by {
            assert(front[i] == ops[i]);
        }
        let i = lemma_addend(v, h, lo);
        assert(constants::added(v, y) == x);
        lemma_all_reached(constants::before_add(x, lo, i)->0, v, front);
        lemma_more_patterns(x, lo, front.len(), 0, i);
    }
    assert(constants::find_exactly(x, ops.len(), may_add) is Some);
    if ops.len() < 5 {
        lemma_fewest_bounded(x, 1, ops.len(), may_add);
    }
}

} // verus!
