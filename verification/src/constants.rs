//! How to build a constant in a register.
//!
//! A constant is built by loading a halfword or its shift by sixteen bits, by oring
//! halfwords into the two lower quarters of the register, by rotating it and clearing
//! bits at an end, and by inverting it. The search goes backward from the constant. What
//! must be in the register before an instruction is a pattern: some bits must be one,
//! some zero, and the others may be either, since the instruction sets or clears them.
//! For each instruction and rotation there is one pattern that leaves the most open, so
//! few are looked at. Last of all, a halfword may be added: what must be there before is
//! an interval, which a few patterns cover.
use vstd::prelude::*;
use crate::encode::{enc_d, enc_d_logic, enc_m, enc_md, enc_x_logic};
use crate::mnem;

verus! {

/// An instruction that builds a constant.
#[derive(Clone, Copy, Debug, PartialEq, Eq)]
pub enum Build {
    /// `li`: a halfword, sign-extended.
    Li(u16),
    /// `lis`: a halfword, sign-extended and shifted left by sixteen bits.
    Lis(u16),
    /// `ori`: ored into the lowest quarter.
    Ori(u16),
    /// `oris`: ored into the quarter above it.
    Oris(u16),
    /// `rldicr`: rotated left, and the bits behind the mask end cleared.
    Rldicr(u32, u32),
    /// `rldicl`: rotated left, and the bits before the mask begin cleared.
    Rldicl(u32, u32),
    /// `rlwinm`: the lower half rotated left by itself, and the bits before the mask
    /// begin and behind the mask end cleared, with the upper half.
    Rlwinm(u32, u32, u32),
    /// `nor` with itself: inverted.
    Not,
    /// `addi`: a halfword added, sign-extended. There is none on r0.
    Addi(u16),
    /// `addis`: a halfword added, sign-extended and shifted left by sixteen bits. There
    /// is none on r0.
    Addis(u16),
}

/// The word of an instruction that builds a constant in a register.
pub open spec fn word(rd: u32, b: Build) -> u32 {
    match b {
        Build::Li(h) => mnem::li(rd, h),
        Build::Lis(h) => mnem::lis(rd, h),
        Build::Ori(h) => mnem::ori(rd, rd, h),
        Build::Oris(h) => mnem::oris(rd, rd, h),
        Build::Rldicr(sh, me) => mnem::rldicr(rd, rd, sh, me),
        Build::Rldicl(sh, mb) => mnem::rldicl(rd, rd, sh, mb),
        Build::Rlwinm(sh, mb, me) => mnem::rlwinm(rd, rd, sh, mb, me),
        Build::Not => mnem::nor(rd, rd, rd),
        Build::Addi(h) => mnem::addi(rd, rd, h),
        Build::Addis(h) => mnem::addis(rd, rd, h),
    }
}

/// Whether the instruction exists: a rotation and a mask bound are below the number of
/// bits, and the mask of a lower half does not wrap around.
pub open spec fn valid(b: Build) -> bool {
    match b {
        Build::Rldicr(sh, me) => sh < 64 && me < 64,
        Build::Rldicl(sh, mb) => sh < 64 && mb < 64,
        Build::Rlwinm(sh, mb, me) => sh < 32 && mb <= me < 32,
        _ => true,
    }
}

/// Whether the instruction loads, whatever the register held.
pub open spec fn loads(b: Build) -> bool {
    b is Li || b is Lis
}

/// Whether the instruction adds.
pub open spec fn adds(b: Build) -> bool {
    b is Addi || b is Addis
}

/// The word of an instruction that builds a constant.
pub(crate) fn build_word(rd: u32, b: Build) -> (w: u32)
    requires
        rd < 32,
        valid(b),
    ensures
        w == word(rd, b),
{
    match b {
        Build::Li(h) => enc_d(14, rd, 0, h),
        Build::Lis(h) => enc_d(15, rd, 0, h),
        Build::Ori(h) => enc_d_logic(24, rd, rd, h),
        Build::Oris(h) => enc_d_logic(25, rd, rd, h),
        Build::Rldicr(sh, me) => enc_md(rd, rd, sh, me, 1),
        Build::Rldicl(sh, mb) => enc_md(rd, rd, sh, mb, 0),
        Build::Rlwinm(sh, mb, me) => enc_m(rd, rd, sh, mb, me),
        Build::Not => enc_x_logic(rd, rd, rd, 124),
        Build::Addi(h) => enc_d(14, rd, rd, h),
        Build::Addis(h) => enc_d(15, rd, rd, h),
    }
}

// What instructions leave.

/// The sum of two doublewords, without its carry.
pub open spec fn added(x: u64, y: u64) -> u64 {
    (x + y) as u64
}

/// The value of a register after an instruction that builds a constant in it.
pub open spec fn built(x: u64, b: Build) -> u64 {
    match b {
        Build::Li(h) => signed_half(h),
        Build::Lis(h) => signed_half(h) << 16u64,
        Build::Ori(h) => x | (h as u64),
        Build::Oris(h) => x | ((h as u64) << 16u64),
        Build::Rldicr(sh, me) => turned(x, sh as u64) & mask_above((63 - me) as u64),
        Build::Rldicl(sh, mb) => turned(x, sh as u64) & mask_below(mb as u64),
        Build::Rlwinm(sh, mb, me) => turned(doubled(x), sh as u64) & mask_below((32 + mb) as u64)
            & mask_above((31 - me) as u64),
        Build::Not => !x,
        Build::Addi(h) => added(x, signed_half(h)),
        Build::Addis(h) => added(x, signed_half(h) << 16u64),
    }
}

/// The value of a register after such instructions, in order.
pub open spec fn value(x: u64, ops: Seq<Build>) -> u64
    decreases ops.len(),
{
    if ops.len() == 0 {
        x
    } else {
        built(value(x, ops.drop_last()), ops.last())
    }
}

// Patterns.

/// Bits that a doubleword must have.
#[derive(Clone, Copy, Debug, PartialEq, Eq, Structural)]
pub struct Pattern {
    /// The bits that must be one.
    pub ones: u64,
    /// The bits that must be one or must be zero. The others may be either.
    pub fixed: u64,
}

/// Whether a doubleword has the bits.
pub open spec fn has_bits(x: u64, ones: u64, fixed: u64) -> bool {
    x & fixed == ones
}

impl Pattern {
    /// The pattern of one doubleword.
    pub open spec fn exactly(x: u64) -> Pattern {
        Pattern { ones: x, fixed: 0xFFFF_FFFF_FFFF_FFFF }
    }

    /// Whether a doubleword has the bits.
    pub open spec fn meets(self, x: u64) -> bool {
        has_bits(x, self.ones, self.fixed)
    }

    /// A bit that must be one is fixed.
    pub open spec fn wf(self) -> bool {
        self.ones & !self.fixed == 0
    }
}

/// The doubleword rotated left, by less than 64 bits.
pub open spec fn turned(x: u64, s: u64) -> u64 {
    (x << s) | ((x >> 1u64) >> ((63 - s) as u64))
}

/// The doubleword rotated right, by less than 64 bits.
pub open spec fn turned_back(x: u64, s: u64) -> u64 {
    (x >> s) | ((x << 1u64) << ((63 - s) as u64))
}

/// Two copies of the lower half.
pub open spec fn doubled(x: u64) -> u64 {
    (x & 0xFFFF_FFFF) | (x << 32u64)
}

/// The lower half rotated right, by less than 32 bits.
pub open spec fn word_turned_back(x: u64, s: u64) -> u64 {
    turned_back(doubled(x), s) & 0xFFFF_FFFF
}

/// All bits but the lowest `n`.
pub open spec fn mask_above(n: u64) -> u64 {
    0xFFFF_FFFF_FFFF_FFFFu64 << n
}

/// All bits but the highest `n`.
pub open spec fn mask_below(n: u64) -> u64 {
    0xFFFF_FFFF_FFFF_FFFFu64 >> n
}

/// A halfword, sign-extended.
pub open spec fn signed_half(h: u16) -> u64 {
    h as i16 as i64 as u64
}

/// The bits that the sign of `li` fills.
pub const LI_SIGN: u64 = 0xFFFF_FFFF_FFFF_8000;

/// The bits that the sign of `lis` fills.
pub const LIS_SIGN: u64 = 0xFFFF_FFFF_8000_0000;

/// The load that leaves a doubleword of a pattern, if there is one.
pub open spec fn load_for(p: Pattern) -> Option<Build> {
    if p.ones & LI_SIGN == 0 {
        Some(Build::Li(p.ones as u16))
    } else if p.fixed & !p.ones & LI_SIGN == 0 {
        Some(Build::Li((p.ones as u16) | 0x8000))
    } else if p.ones & 0xFFFF != 0 {
        None
    } else if p.ones & LIS_SIGN == 0 {
        Some(Build::Lis((p.ones >> 16u64) as u16))
    } else if p.fixed & !p.ones & LIS_SIGN == 0 {
        Some(Build::Lis(((p.ones >> 16u64) as u16) | 0x8000))
    } else {
        None
    }
}

/// What must be there for an `ori` to leave a pattern: it sets every one of the lowest
/// quarter.
pub open spec fn before_ori(p: Pattern) -> Pattern {
    Pattern { ones: p.ones & !0xFFFFu64, fixed: p.fixed & !(p.ones & 0xFFFF) }
}

/// The same for an `oris` and the quarter above.
pub open spec fn before_oris(p: Pattern) -> Pattern {
    Pattern { ones: p.ones & !0xFFFF_0000u64, fixed: p.fixed & !(p.ones & 0xFFFF_0000) }
}

/// What must be there for a rotation to leave a pattern where bits outside a mask are
/// cleared.
pub open spec fn before_turn(p: Pattern, s: u64, mask: u64) -> Pattern {
    Pattern { ones: turned_back(p.ones, s), fixed: turned_back(p.fixed & mask, s) }
}

/// The same for the lower half, where the upper half is cleared.
pub open spec fn before_word_turn(p: Pattern, s: u64, mask: u64) -> Pattern {
    Pattern { ones: word_turned_back(p.ones, s), fixed: word_turned_back(p.fixed & mask, s) }
}

/// What must be there to be inverted to a pattern.
pub open spec fn before_not(p: Pattern) -> Pattern {
    Pattern { ones: p.fixed & !p.ones, fixed: p.fixed }
}

/// The number of zeros below the lowest one, of what is not zero.
pub open spec fn low_zeros(x: u64, n: u64) -> u64
    decreases 64 - n,
{
    if n >= 63 || (x >> n) & 1 == 1 {
        n
    } else {
        low_zeros(x, (n + 1) as u64)
    }
}

/// The number of zeros above the highest one, of what is not zero.
pub open spec fn high_zeros(x: u64, n: u64) -> u64
    decreases 64 - n,
{
    if n >= 63 || (x << n) >> 63u64 == 1 {
        n
    } else {
        high_zeros(x, (n + 1) as u64)
    }
}

/// The rotation to try in turn: first the one that moves the lowest one of the pattern
/// to the bottom.
pub open spec fn rotation(t: u64, i: u64) -> u64 {
    ((t + 64 - i) % 64) as u64
}

/// Instructions, and one more.
pub open spec fn followed(ops: Option<Seq<Build>>, b: Build) -> Option<Seq<Build>> {
    match ops {
        Some(s) => Some(s.push(b)),
        None => None,
    }
}

/// At most `n` instructions that leave a doubleword of a pattern.
pub open spec fn find(p: Pattern, n: nat) -> Option<Seq<Build>>
    decreases n, 65int,
{
    if load_for(p) is Some {
        Some(seq![load_for(p)->0])
    } else if n <= 1 {
        None
    } else {
        let m = (n - 1) as nat;
        let low = find(before_ori(p), m);
        let second = find(before_oris(p), m);
        if low is Some {
            followed(low, Build::Ori(p.ones as u16))
        } else if second is Some {
            followed(second, Build::Oris((p.ones >> 16u64) as u16))
        } else if find_turned(p, m, 0) is Some {
            find_turned(p, m, 0)
        } else if p.ones <= 0xFFFF_FFFF && find_word_turned(p, m, 0) is Some {
            find_word_turned(p, m, 0)
        } else {
            followed(find(before_not(p), m), Build::Not)
        }
    }
}

/// At most `m` instructions and a rotation that leave a doubleword of a pattern, trying
/// rotations from the `i`th on. As many bits as the pattern allows are cleared.
pub open spec fn find_turned(p: Pattern, m: nat, i: u64) -> Option<Seq<Build>>
    decreases m + 1, 64 - i,
{
    if i >= 64 {
        None
    } else {
        let t = low_zeros(p.ones, 0);
        let l = high_zeros(p.ones, 0);
        let s = rotation(t, i);
        let right = find(before_turn(p, s, mask_above(t)), m);
        let left = find(before_turn(p, s, mask_below(l)), m);
        if right is Some {
            followed(right, Build::Rldicr(s as u32, (63 - t) as u32))
        } else if left is Some {
            followed(left, Build::Rldicl(s as u32, l as u32))
        } else {
            find_turned(p, m, (i + 1) as u64)
        }
    }
}

/// At most `m` instructions and a rotation of the lower half that leave a doubleword of a
/// pattern, trying rotations from the `s`th on.
pub open spec fn find_word_turned(p: Pattern, m: nat, s: u64) -> Option<Seq<Build>>
    decreases m + 1, 64 - s,
{
    if s >= 32 {
        None
    } else {
        let t = low_zeros(p.ones, 0);
        let l = high_zeros(p.ones, 0);
        let word = find(before_word_turn(p, s, mask_above(t) & mask_below(l)), m);
        if word is Some {
            followed(word, Build::Rlwinm(s as u32, (l - 32) as u32, (31 - t) as u32))
        } else {
            find_word_turned(p, m, (s + 1) as u64)
        }
    }
}

/// The sixteen bits of `x` from bit `lo` up.
pub open spec fn half(x: u64, lo: u64) -> u16 {
    (x >> lo) as u16
}

/// The least doubleword to which an add of a halfword, shifted left by `lo` bits, leaves
/// `x`. The others follow it in steps of that shift, below `beyond`.
pub open spec fn least_before(x: u64, lo: u64) -> u64 {
    (x - (0x7FFFu64 << lo)) as u64
}

/// The first doubleword from which no such add leaves `x`.
pub open spec fn beyond(x: u64, lo: u64) -> u64 {
    added(least_before(x, lo), 0x1_0000u64 << lo)
}

/// The bits of what agrees with `a` above bit `j` and below bit `lo`, and has the given
/// bit in between.
pub open spec fn agreeing_ones(a: u64, j: u64, lo: u64, bit: u64) -> u64 {
    (a & mask_above((j + 1) as u64)) | (bit << j) | (a & !mask_above(lo))
}

/// The bits that are given so.
pub open spec fn agreeing_fixed(j: u64, lo: u64) -> u64 {
    mask_above(j) | !mask_above(lo)
}

/// The patterns that cover what an add can leave `x` of: of what lies in the same block
/// of sixteen bits as the least such doubleword, what exceeds it first at bit `lo + i`;
/// of what lies in the next block, what first falls short of the end there at bit
/// `lo + i - 16`; and the least one itself.
pub open spec fn before_add(x: u64, lo: u64, i: u64) -> Option<Pattern> {
    let a = least_before(x, lo);
    let b = beyond(x, lo);
    if i < 16 {
        let j = (lo + i) as u64;
        if (a >> j) & 1 == 0 {
            Some(Pattern { ones: agreeing_ones(a, j, lo, 1), fixed: agreeing_fixed(j, lo) })
        } else {
            None
        }
    } else if i < 32 {
        let j = (lo + i - 16) as u64;
        if (b >> j) & 1 == 1 {
            Some(Pattern { ones: agreeing_ones(b, j, lo, 0), fixed: agreeing_fixed(j, lo) })
        } else {
            None
        }
    } else {
        Some(Pattern::exactly(a))
    }
}

/// The halfword to add to `v`, shifted left by `lo` bits, for `x`.
pub open spec fn amount(x: u64, v: u64, lo: u64) -> u16 {
    (((x - v) as u64) >> lo) as u16
}

/// The instruction that adds a halfword, shifted left by `lo` bits.
pub open spec fn add_op(lo: u64, h: u16) -> Build {
    if lo == 0 {
        Build::Addi(h)
    } else {
        Build::Addis(h)
    }
}

/// At most `m` instructions and an add that leave `x`, trying patterns from the `i`th on.
pub open spec fn find_added(x: u64, lo: u64, m: nat, i: u64) -> Option<Seq<Build>>
    decreases 33 - i,
{
    if i >= 33 {
        None
    } else {
        let found = match before_add(x, lo, i) {
            Some(p) => find(p, m),
            None => None,
        };
        match found {
            Some(ops) => Some(ops.push(add_op(lo, amount(x, value(0, ops), lo)))),
            None => find_added(x, lo, m, (i + 1) as u64),
        }
    }
}

/// At most `n` instructions, of which the last may add where `may_add` says so, that
/// leave `x`.
pub open spec fn find_exactly(x: u64, n: nat, may_add: bool) -> Option<Seq<Build>> {
    if find(Pattern::exactly(x), n) is Some {
        find(Pattern::exactly(x), n)
    } else if n < 2 || !may_add {
        None
    } else if find_added(x, 0, (n - 1) as nat, 0) is Some {
        find_added(x, 0, (n - 1) as nat, 0)
    } else {
        find_added(x, 16, (n - 1) as nat, 0)
    }
}

/// An instruction, unless it would or in nothing.
pub open spec fn unless_zero(b: Build, h: u16) -> Seq<Build> {
    if h == 0 {
        seq![]
    } else {
        seq![b]
    }
}

/// Instructions that build any `x`, quarter by quarter: a load of what fits one or two
/// halfwords, and else the upper half, shifted into place, and the quarters of the lower
/// half. Quarters that are zero are not ored in.
pub open spec fn by_quarters(x: u64) -> Seq<Build> {
    if signed_half(half(x, 0)) == x {
        seq![Build::Li(half(x, 0))]
    } else if (signed_half(half(x, 16)) << 16u64) | (half(x, 0) as u64) == x {
        seq![Build::Lis(half(x, 16))] + unless_zero(Build::Ori(half(x, 0)), half(x, 0))
    } else {
        seq![Build::Lis(half(x, 48))] + unless_zero(Build::Ori(half(x, 32)), half(x, 32)) + seq![
            Build::Rldicr(32, 31),
        ] + unless_zero(Build::Oris(half(x, 16)), half(x, 16)) + unless_zero(
            Build::Ori(half(x, 0)),
            half(x, 0),
        )
    }
}

/// The fewest of these instructions that build `x`, from `n` of them on. Where quarter
/// by quarter takes no more, it is the way.
pub open spec fn fewest(x: u64, n: nat, may_add: bool) -> Seq<Build>
    decreases 5 - n,
{
    if n >= 5 || n >= by_quarters(x).len() {
        by_quarters(x)
    } else if find_exactly(x, n, may_add) is Some {
        find_exactly(x, n, may_add)->0
    } else {
        fewest(x, n + 1, may_add)
    }
}

/// The fewest of these instructions that build `x`, where the last one may add if
/// `may_add` says so, and no other one adds.
#[verifier::opaque]
pub open spec fn shortest(x: u64, may_add: bool) -> Seq<Build> {
    fewest(x, 1, may_add)
}

// The search.

/// The instructions of an executable search.
pub open spec fn viewed(ops: Option<Vec<Build>>) -> Option<Seq<Build>> {
    match ops {
        Some(v) => Some(v@),
        None => None,
    }
}

/// The load that leaves a doubleword of a pattern, if there is one.
fn find_load(p: Pattern) -> (r: Option<Build>)
    ensures
        r == load_for(p),
{
    if p.ones & LI_SIGN == 0 {
        Some(Build::Li(p.ones as u16))
    } else if p.fixed & !p.ones & LI_SIGN == 0 {
        Some(Build::Li((p.ones as u16) | 0x8000))
    } else if p.ones & 0xFFFF != 0 {
        None
    } else if p.ones & LIS_SIGN == 0 {
        Some(Build::Lis((p.ones >> 16u64) as u16))
    } else if p.fixed & !p.ones & LIS_SIGN == 0 {
        Some(Build::Lis(((p.ones >> 16u64) as u16) | 0x8000))
    } else {
        None
    }
}

/// The number of zeros below the lowest one, of what is not zero.
fn count_low_zeros(x: u64) -> (n: u64)
    ensures
        n == low_zeros(x, 0),
        n < 64,
{
    let mut n: u64 = 0;
    while n < 63 && (x >> n) & 1 != 1
        invariant
            n <= 63,
            low_zeros(x, n) == low_zeros(x, 0),
        decreases 63 - n,
    {
        n = n + 1;
    }
    n
}

/// The number of zeros above the highest one, of what is not zero.
fn count_high_zeros(x: u64) -> (n: u64)
    ensures
        n == high_zeros(x, 0),
        n < 64,
{
    let mut n: u64 = 0;
    while n < 63 && (x << n) >> 63u64 != 1
        invariant
            n <= 63,
            high_zeros(x, n) == high_zeros(x, 0),
        decreases 63 - n,
    {
        n = n + 1;
    }
    n
}

/// The doubleword rotated right.
fn turn_back(x: u64, s: u64) -> (y: u64)
    requires
        s < 64,
    ensures
        y == turned_back(x, s),
{
    (x >> s) | ((x << 1u64) << (63 - s))
}

/// The doubleword rotated left.
fn turn(x: u64, s: u64) -> (y: u64)
    requires
        s < 64,
    ensures
        y == turned(x, s),
{
    (x << s) | ((x >> 1u64) >> (63 - s))
}

/// The sum without its carry.
fn sum_of(x: u64, y: u64) -> (z: u64)
    ensures
        z == added(x, y),
{
    proof {
        lemma_wrapping(x, y);
    }
    x.wrapping_add(y)
}

/// The difference without its borrow.
fn difference_of(x: u64, y: u64) -> (z: u64)
    ensures
        z == (x - y) as u64,
{
    proof {
        lemma_wrapping(x, y);
    }
    x.wrapping_sub(y)
}

/// The lower half rotated right.
fn turn_word_back(x: u64, s: u64) -> (y: u64)
    requires
        s < 32,
    ensures
        y == word_turned_back(x, s),
{
    turn_back((x & 0xFFFF_FFFF) | (x << 32u64), s) & 0xFFFF_FFFF
}

/// At most `n` instructions that leave a doubleword of a pattern.
fn search(p: Pattern, n: u64) -> (r: Option<Vec<Build>>)
    ensures
        viewed(r) == find(p, n as nat),
    decreases n,
{
    if let Some(b) = find_load(p) {
        let mut ops: Vec<Build> = Vec::new();
        ops.push(b);
        assert(ops@ =~= seq![b]);
        return Some(ops);
    }
    if n <= 1 {
        return None;
    }
    let low = Pattern { ones: p.ones & !0xFFFFu64, fixed: p.fixed & !(p.ones & 0xFFFF) };
    if let Some(found) = search(low, n - 1) {
        let mut ops = found;
        ops.push(Build::Ori(p.ones as u16));
        return Some(ops);
    }
    let second = Pattern {
        ones: p.ones & !0xFFFF_0000u64,
        fixed: p.fixed & !(p.ones & 0xFFFF_0000),
    };
    if let Some(found) = search(second, n - 1) {
        let mut ops = found;
        ops.push(Build::Oris((p.ones >> 16u64) as u16));
        return Some(ops);
    }
    let t: u64 = count_low_zeros(p.ones);
    let l: u64 = count_high_zeros(p.ones);
    let right: u64 = p.fixed & (0xFFFF_FFFF_FFFF_FFFFu64 << t);
    let left: u64 = p.fixed & (0xFFFF_FFFF_FFFF_FFFFu64 >> l);
    let mut i: u64 = 0;
    while i < 64
        invariant
            i <= 64,
            n > 1,
            t == low_zeros(p.ones, 0),
            l == high_zeros(p.ones, 0),
            t < 64,
            l < 64,
            right == p.fixed & mask_above(t),
            left == p.fixed & mask_below(l),
            find_turned(p, (n - 1) as nat, i) == find_turned(p, (n - 1) as nat, 0),
            find_turned(p, (n - 1) as nat, 0) is Some ==> find(p, n as nat) == find_turned(
                p,
                (n - 1) as nat,
                0,
            ),
        decreases 64 - i,
    {
        let s: u64 = (t + 64 - i) % 64;
        let ones: u64 = turn_back(p.ones, s);
        if let Some(found) = search(Pattern { ones, fixed: turn_back(right, s) }, n - 1) {
            let mut ops = found;
            ops.push(Build::Rldicr(s as u32, (63 - t) as u32));
            return Some(ops);
        }
        if let Some(found) = search(Pattern { ones, fixed: turn_back(left, s) }, n - 1) {
            let mut ops = found;
            ops.push(Build::Rldicl(s as u32, l as u32));
            return Some(ops);
        }
        i = i + 1;
    }
    if p.ones <= 0xFFFF_FFFF {
        proof {
            if p.ones == 0 {
                lemma_no_ones(p);
            }
            lemma_zeros(p.ones);
        }
        let both: u64 = p.fixed & ((0xFFFF_FFFF_FFFF_FFFFu64 << t) & (0xFFFF_FFFF_FFFF_FFFFu64 >> l));
        let mut s: u64 = 0;
        while s < 32
            invariant
                s <= 32,
                n > 1,
                t == low_zeros(p.ones, 0),
                l == high_zeros(p.ones, 0),
                p.ones != 0,
                t < 32 <= l < 64,
                both == p.fixed & (mask_above(t) & mask_below(l)),
                find_word_turned(p, (n - 1) as nat, s) == find_word_turned(p, (n - 1) as nat, 0),
                find_word_turned(p, (n - 1) as nat, 0) is Some ==> find(p, n as nat)
                    == find_word_turned(p, (n - 1) as nat, 0),
            decreases 32 - s,
        {
            let before = Pattern {
                ones: turn_word_back(p.ones, s),
                fixed: turn_word_back(both, s),
            };
            if let Some(found) = search(before, n - 1) {
                let mut ops = found;
                ops.push(Build::Rlwinm(s as u32, (l - 32) as u32, (31 - t) as u32));
                return Some(ops);
            }
            s = s + 1;
        }
    }
    match search(Pattern { ones: p.fixed & !p.ones, fixed: p.fixed }, n - 1) {
        Some(found) => {
            let mut ops = found;
            ops.push(Build::Not);
            Some(ops)
        },
        None => None,
    }
}

/// A halfword, sign-extended.
fn extend_half(h: u16) -> (x: u64)
    ensures
        x == signed_half(h),
{
    h as i16 as i64 as u64
}

/// The sixteen bits of `x` from bit `lo` up.
fn half_of(x: u64, lo: u64) -> (h: u16)
    requires
        lo < 64,
    ensures
        h == half(x, lo),
{
    (x >> lo) as u16
}

/// Instructions that build any `x`, quarter by quarter.
fn build_by_quarters(x: u64) -> (ops: Vec<Build>)
    ensures
        ops@ == by_quarters(x),
{
    let mut ops: Vec<Build> = Vec::new();
    let (h0, h1): (u16, u16) = (half_of(x, 0), half_of(x, 16));
    let (h2, h3): (u16, u16) = (half_of(x, 32), half_of(x, 48));
    if extend_half(h0) == x {
        ops.push(Build::Li(h0));
    } else if (extend_half(h1) << 16u64) | (h0 as u64) == x {
        ops.push(Build::Lis(h1));
        if h0 != 0 {
            ops.push(Build::Ori(h0));
        }
    } else {
        ops.push(Build::Lis(h3));
        if h2 != 0 {
            ops.push(Build::Ori(h2));
        }
        ops.push(Build::Rldicr(32, 31));
        if h1 != 0 {
            ops.push(Build::Oris(h1));
        }
        if h0 != 0 {
            ops.push(Build::Ori(h0));
        }
    }
    assert(ops@ =~= by_quarters(x));
    ops
}

/// What an instruction leaves in a register.
fn build_value(x: u64, b: Build) -> (y: u64)
    requires
        valid(b),
    ensures
        y == built(x, b),
{
    match b {
        Build::Li(h) => extend_half(h),
        Build::Lis(h) => extend_half(h) << 16u64,
        Build::Ori(h) => x | (h as u64),
        Build::Oris(h) => x | ((h as u64) << 16u64),
        Build::Rldicr(sh, me) => turn(x, sh as u64) & (0xFFFF_FFFF_FFFF_FFFFu64 << (63 - me
            as u64)),
        Build::Rldicl(sh, mb) => turn(x, sh as u64) & (0xFFFF_FFFF_FFFF_FFFFu64 >> (mb as u64)),
        Build::Rlwinm(sh, mb, me) => turn((x & 0xFFFF_FFFF) | (x << 32u64), sh as u64) & (
        0xFFFF_FFFF_FFFF_FFFFu64 >> (32 + mb as u64)) & (0xFFFF_FFFF_FFFF_FFFFu64 << (31 - me
            as u64)),
        Build::Not => !x,
        Build::Addi(h) => sum_of(x, extend_half(h)),
        Build::Addis(h) => sum_of(x, extend_half(h) << 16u64),
    }
}

/// What instructions leave in a register that held zero.
fn value_of(ops: &Vec<Build>) -> (y: u64)
    requires
        forall|i: int| 0 <= i < ops@.len() ==> valid(#[trigger] ops@[i]),
    ensures
        y == value(0, ops@),
{
    let mut y: u64 = 0;
    let mut i: usize = 0;
    while i < ops.len()
        invariant
            i <= ops@.len(),
            forall|j: int| 0 <= j < ops@.len() ==> valid(#[trigger] ops@[j]),
            y == value(0, ops@.take(i as int)),
        decreases ops@.len() - i,
    {
        assert(valid(ops@[i as int]));
        assert(ops@.take(i + 1).drop_last() =~= ops@.take(i as int));
        y = build_value(y, ops[i]);
        i = i + 1;
    }
    assert(ops@.take(i as int) =~= ops@);
    y
}

/// The `i`th pattern that covers what an add can leave `x` of.
fn pattern_before_add(x: u64, lo: u64, i: u64) -> (r: Option<Pattern>)
    requires
        lo == 0 || lo == 16,
    ensures
        r == before_add(x, lo, i),
{
    let a: u64 = difference_of(x, 0x7FFFu64 << lo);
    let b: u64 = sum_of(a, 0x1_0000u64 << lo);
    let low: u64 = !(0xFFFF_FFFF_FFFF_FFFFu64 << lo);
    if i < 16 {
        let j: u64 = lo + i;
        if (a >> j) & 1 == 0 {
            Some(
                Pattern {
                    ones: (a & (0xFFFF_FFFF_FFFF_FFFFu64 << (j + 1))) | (1u64 << j) | (a & low),
                    fixed: (0xFFFF_FFFF_FFFF_FFFFu64 << j) | low,
                },
            )
        } else {
            None
        }
    } else if i < 32 {
        let j: u64 = lo + i - 16;
        if (b >> j) & 1 == 1 {
            Some(
                Pattern {
                    ones: (b & (0xFFFF_FFFF_FFFF_FFFFu64 << (j + 1))) | (0u64 << j) | (b & low),
                    fixed: (0xFFFF_FFFF_FFFF_FFFFu64 << j) | low,
                },
            )
        } else {
            None
        }
    } else {
        Some(Pattern { ones: a, fixed: 0xFFFF_FFFF_FFFF_FFFF })
    }
}

/// At most `m` instructions and an add that leave `x`.
fn search_added(x: u64, lo: u64, m: u64) -> (r: Option<Vec<Build>>)
    requires
        lo == 0 || lo == 16,
        m >= 1,
    ensures
        viewed(r) == find_added(x, lo, m as nat, 0),
{
    let mut i: u64 = 0;
    while i < 33
        invariant
            i <= 33,
            lo == 0 || lo == 16,
            m >= 1,
            find_added(x, lo, m as nat, i) == find_added(x, lo, m as nat, 0),
        decreases 33 - i,
    {
        if let Some(p) = pattern_before_add(x, lo, i) {
            if let Some(found) = search(p, m) {
                proof {
                    lemma_find_shape(p, m as nat);
                }
                let mut ops = found;
                let v: u64 = value_of(&ops);
                let h: u16 = (difference_of(x, v) >> lo) as u16;
                ops.push(
                    if lo == 0 {
                        Build::Addi(h)
                    } else {
                        Build::Addis(h)
                    },
                );
                return Some(ops);
            }
        }
        i = i + 1;
    }
    None
}

/// At most `n` instructions that leave `x`.
fn search_exactly(x: u64, n: u64, may_add: bool) -> (r: Option<Vec<Build>>)
    ensures
        viewed(r) == find_exactly(x, n as nat, may_add),
{
    let exact = Pattern { ones: x, fixed: 0xFFFF_FFFF_FFFF_FFFF };
    if let Some(ops) = search(exact, n) {
        return Some(ops);
    }
    if n < 2 || !may_add {
        return None;
    }
    if let Some(ops) = search_added(x, 0, n - 1) {
        return Some(ops);
    }
    search_added(x, 16, n - 1)
}

/// The fewest of these instructions that build `x`, which are at most five. The last one
/// may add if `may_add` says so, and no other one adds.
pub fn build_constant(x: u64, may_add: bool) -> (ops: Vec<Build>)
    ensures
        ops@ == shortest(x, may_add),
        1 <= ops@.len() <= 5,
        forall|i: int| 0 <= i < ops@.len() ==> valid(#[trigger] ops@[i]),
{
    proof {
        reveal(shortest);
        lemma_shape(x, 1, may_add);
        lemma_quarters_shape(x);
    }
    let plain = build_by_quarters(x);
    let mut n: u64 = 1;
    while n < plain.len() as u64
        invariant
            1 <= n <= plain@.len() <= 5,
            plain@ == by_quarters(x),
            fewest(x, n as nat, may_add) == fewest(x, 1, may_add),
            shape(fewest(x, 1, may_add), 5, may_add),
            shortest(x, may_add) == fewest(x, 1, may_add),
        decreases plain@.len() - n,
    {
        if let Some(ops) = search_exactly(x, n, may_add) {
            return ops;
        }
        n = n + 1;
    }
    plain
}

/// Whether the instructions are so many at most, exist, start with a load, and add only
/// where they may.
pub open spec fn shape(s: Seq<Build>, n: nat, may_add: bool) -> bool {
    &&& 1 <= s.len() <= n
    &&& loads(s[0])
    &&& forall|i: int| 0 <= i < s.len() ==> valid(#[trigger] s[i]) && (adds(s[i]) ==> may_add)
}

/// Zeros are counted up to the last bit.
pub proof fn lemma_zeros_bounded(x: u64, n: u64)
    requires
        n < 64,
    ensures
        n <= low_zeros(x, n) < 64,
        n <= high_zeros(x, n) < 64,
    decreases 64 - n,
{
    if n < 63 {
        lemma_zeros_bounded(x, (n + 1) as u64);
    }
}

/// Counting zeros, one bit at a time, and the lowest and the highest one.
proof fn lemma_zero_bits(x: u64, n: u64, l: u64)
    by (bit_vector)
    requires
        n < 64,
        l < 64,
    ensures
        0u64 & LI_SIGN == 0,
        0u64 as u16 == 0,
        (x >> n) & 1 == 1 && x & mask_below(l) == x && (x << l) >> 63u64 == 1 ==> n + l <= 63 && (x
            <= 0xFFFF_FFFF ==> l >= 32),
        x & mask_above(0) == x,
        x & mask_below(0) == x,
        n < 63 && x & mask_above(n) == x && (x >> n) & 1 != 1 ==> x
            & mask_above((n + 1) as u64) == x,
        n < 63 && x & mask_below(n) == x && (x << n) >> 63u64 != 1 ==> x
            & mask_below((n + 1) as u64) == x,
        n == 63 && x != 0 && x & mask_above(n) == x ==> (x >> n) & 1 == 1,
        n == 63 && x != 0 && x & mask_below(n) == x ==> (x << n) >> 63u64 == 1,
{
}

/// What counting zeros from a bit on finds.
proof fn lemma_zeros_from(x: u64, n: u64)
    requires
        x != 0,
        n < 64,
    ensures
        x & mask_above(n) == x ==> {
            let t = low_zeros(x, n);
            t < 64 && x & mask_above(t) == x && (x >> t) & 1 == 1
        },
        x & mask_below(n) == x ==> {
            let l = high_zeros(x, n);
            l < 64 && x & mask_below(l) == x && (x << l) >> 63u64 == 1
        },
    decreases 64 - n,
{
    lemma_zero_bits(x, n, 0);
    if n < 63 {
        lemma_zeros_from(x, (n + 1) as u64);
    }
}

/// What counting zeros finds: the lowest and the highest one.
pub proof fn lemma_zeros(x: u64)
    requires
        x != 0,
    ensures
        ({
            let (t, l) = (low_zeros(x, 0), high_zeros(x, 0));
            &&& t < 64
            &&& l < 64
            &&& x & mask_above(t) == x
            &&& x & mask_below(l) == x
            &&& (x >> t) & 1 == 1
            &&& (x << l) >> 63u64 == 1
            &&& t + l <= 63
            &&& x <= 0xFFFF_FFFF ==> l >= 32
        }),
{
    lemma_zero_bits(x, 0, 0);
    lemma_zeros_from(x, 0);
    lemma_zero_bits(x, low_zeros(x, 0), high_zeros(x, 0));
}

/// Sums and differences that wrap around.
pub proof fn lemma_wrapping(x: u64, y: u64)
    ensures
        added(x, y) == (if x + y < 0x1_0000_0000_0000_0000 {
            x + y
        } else {
            x + y - 0x1_0000_0000_0000_0000
        }),
        (x - y) as u64 == (if x >= y {
            x - y
        } else {
            x - y + 0x1_0000_0000_0000_0000
        }),
{
    assert((x + y) as u64 == (if x + y < 0x1_0000_0000_0000_0000 {
        x + y
    } else {
        x + y - 0x1_0000_0000_0000_0000
    }) && (x - y) as u64 == (if x >= y {
        x - y
    } else {
        x - y + 0x1_0000_0000_0000_0000
    })) by (bit_vector);
}

/// What a search finds exists, and is no more than it looked for.
pub proof fn lemma_find_shape(p: Pattern, n: nat)
    requires
        n >= 1,
    ensures
        find(p, n) matches Some(s) ==> shape(s, n, false),
    decreases n, 65int,
{
    if load_for(p) is None && n > 1 {
        let m = (n - 1) as nat;
        lemma_find_shape(before_ori(p), m);
        lemma_find_shape(before_oris(p), m);
        lemma_find_shape(before_not(p), m);
        lemma_turned_shape(p, m, 0);
        if p.ones == 0 {
            lemma_no_ones(p);
        } else if p.ones <= 0xFFFF_FFFF {
            lemma_word_turned_shape(p, m, 0);
        }
    }
}

/// A pattern without ones is loaded.
pub proof fn lemma_no_ones(p: Pattern)
    requires
        p.ones == 0,
    ensures
        load_for(p) == Some(Build::Li(0)),
{
    lemma_zero_bits(0, 0, 0);
}

/// The same where rotations of the lower half are tried.
proof fn lemma_word_turned_shape(p: Pattern, m: nat, s: u64)
    requires
        m >= 1,
        0 < p.ones <= 0xFFFF_FFFF,
    ensures
        find_word_turned(p, m, s) matches Some(r) ==> shape(r, m + 1, false),
    decreases m + 1, 64 - s,
{
    if s < 32 {
        let t = low_zeros(p.ones, 0);
        let l = high_zeros(p.ones, 0);
        lemma_zeros(p.ones);
        lemma_find_shape(before_word_turn(p, s, mask_above(t) & mask_below(l)), m);
        lemma_word_turned_shape(p, m, (s + 1) as u64);
    }
}

/// The same where rotations are tried.
proof fn lemma_turned_shape(p: Pattern, m: nat, i: u64)
    requires
        m >= 1,
    ensures
        find_turned(p, m, i) matches Some(s) ==> shape(s, m + 1, false),
    decreases m + 1, 64 - i,
{
    if i < 64 {
        let t = low_zeros(p.ones, 0);
        let l = high_zeros(p.ones, 0);
        let s = rotation(t, i);
        lemma_zeros_bounded(p.ones, 0);
        lemma_find_shape(before_turn(p, s, mask_above(t)), m);
        lemma_find_shape(before_turn(p, s, mask_below(l)), m);
        lemma_turned_shape(p, m, (i + 1) as u64);
    }
}

/// Quarter by quarter, the instructions exist and are at most five.
pub proof fn lemma_quarters_shape(x: u64)
    ensures
        shape(by_quarters(x), 5, false),
{
}

/// What a search for an add finds exists, and is no more than it looked for.
proof fn lemma_added_shape(x: u64, lo: u64, m: nat, i: u64)
    requires
        m >= 1,
    ensures
        find_added(x, lo, m, i) matches Some(s) ==> shape(s, m + 1, true),
    decreases 33 - i,
{
    if i < 33 {
        if let Some(p) = before_add(x, lo, i) {
            lemma_find_shape(p, m);
        }
        lemma_added_shape(x, lo, m, (i + 1) as u64);
    }
}

/// What is found for one doubleword exists, and is no more than was looked for.
pub proof fn lemma_exactly_shape(x: u64, n: nat, may_add: bool)
    requires
        n >= 1,
    ensures
        find_exactly(x, n, may_add) matches Some(s) ==> shape(s, n, may_add),
{
    lemma_find_shape(Pattern::exactly(x), n);
    if n >= 2 {
        lemma_added_shape(x, 0, (n - 1) as nat, 0);
        lemma_added_shape(x, 16, (n - 1) as nat, 0);
    }
}

/// The instructions that are chosen exist, and are at most five.
pub proof fn lemma_shape(x: u64, n: nat, may_add: bool)
    requires
        n >= 1,
    ensures
        shape(fewest(x, n, may_add), 5, may_add),
    decreases 5 - n,
{
    lemma_quarters_shape(x);
    if n < 5 {
        lemma_exactly_shape(x, n, may_add);
        lemma_shape(x, n + 1, may_add);
    }
}

} // verus!
