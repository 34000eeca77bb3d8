//! What fixed-point instructions do, by their words.
//!
//! This is the machine that the laws about emitted code speak of: its
//! general-purpose registers, the first field of its condition register, its carry
//! and summary overflow bits and its link register, and a decoder for the
//! instructions that fixed-point code is made of.
use vstd::prelude::*;
use crate::encode;
use crate::mnem;

verus! {

/// The bits of a condition-register field after a compare.
pub struct Cr {
    pub lt: bool,
    pub gt: bool,
    pub eq: bool,
    /// Unordered after a floating-point compare, and else a copy of the summary
    /// overflow bit.
    pub un: bool,
}

/// The state of the machine.
#[verifier::ext_equal]
pub struct Machine {
    /// The general-purpose registers.
    pub gpr: Seq<u64>,
    /// The first condition-register field.
    pub cr0: Cr,
    /// The carry bit.
    pub ca: bool,
    /// The summary overflow bit.
    pub so: bool,
    /// The link register.
    pub lr: u64,
    /// What the hardware leaves in the upper half of a result that it defines the
    /// lower half of only.
    pub junk: u64,
}

// Numbers.

/// The number of values of a doubleword.
pub open spec fn two64() -> int {
    0x1_0000_0000_0000_0000
}

/// The number of values of a word.
pub open spec fn two32() -> int {
    0x1_0000_0000
}

/// A number as a doubleword.
pub open spec fn wrap(x: int) -> u64 {
    (x % two64()) as u64
}

/// A doubleword as a signed number.
pub open spec fn signed64(x: u64) -> int {
    if x >= 0x8000_0000_0000_0000 {
        x - two64()
    } else {
        x as int
    }
}

/// The lower half of a doubleword.
pub open spec fn low32(x: u64) -> int {
    x as int % two32()
}

/// The lower half of a doubleword as a signed number.
pub open spec fn signed32(x: u64) -> int {
    if low32(x) >= 0x8000_0000 {
        low32(x) - two32()
    } else {
        low32(x)
    }
}

/// A halfword as a signed number.
pub open spec fn signed16(x: u32) -> int {
    if x >= 0x8000 {
        x - 0x1_0000
    } else {
        x as int
    }
}

/// The quotient rounded toward zero.
pub open spec fn quotient(x: int, y: int) -> int {
    let q = magnitude(x) / magnitude(y);
    if (x < 0) == (y < 0) {
        q
    } else {
        -q
    }
}

/// The remainder that goes with the quotient rounded toward zero.
pub open spec fn remainder(x: int, y: int) -> int {
    x - quotient(x, y) * y
}

/// The absolute value.
pub open spec fn magnitude(x: int) -> int {
    if x < 0 {
        -x
    } else {
        x
    }
}

// Fields of a word.

/// The primary opcode.
pub open spec fn opcd(w: u32) -> u32 {
    w >> 26
}

/// The first register field.
pub open spec fn f1(w: u32) -> u32 {
    (w >> 21) & 0x1F
}

/// The second register field.
pub open spec fn f2(w: u32) -> u32 {
    (w >> 16) & 0x1F
}

/// The third register field.
pub open spec fn f3(w: u32) -> u32 {
    (w >> 11) & 0x1F
}

/// The fourth register field.
pub open spec fn f4(w: u32) -> u32 {
    (w >> 6) & 0x1F
}

/// The extended opcode of an X-form instruction.
pub open spec fn xo10(w: u32) -> u32 {
    (w >> 1) & 0x3FF
}

/// The extended opcode of an A-form instruction.
pub open spec fn xo5(w: u32) -> u32 {
    (w >> 1) & 0x1F
}

/// The sixteen low bits.
pub open spec fn low16(w: u32) -> u32 {
    w & 0xFFFF
}

/// The extended opcode of an MD-form instruction.
pub open spec fn md_xo(w: u32) -> u32 {
    (w >> 2) & 7
}

/// The shift of an MD-form or XS-form instruction.
pub open spec fn md_sh(w: u32) -> u32 {
    ((w >> 11) & 0x1F) | (((w >> 1) & 1) << 5)
}

/// The mask bound of an MD-form instruction.
pub open spec fn md_mask(w: u32) -> u32 {
    ((w >> 6) & 0x1F) | (((w >> 5) & 1) << 5)
}

/// The fields of D-form, X-form and A-form words, by their bits.
proof fn lemma_form_fields(o: u32, a: u32, b: u32, c: u32, d: u32, xa: u32, xo: u32, imm: u32)
    by (bit_vector)
    requires
        o < 64,
        a < 32,
        b < 32,
        c < 32,
        d < 32,
        xa < 32,
        xo < 1024,
        imm < 0x1_0000,
    ensures
        ({
            let w = (o << 26) | (a << 21) | (b << 16) | imm;
            &&& w >> 26 == o
            &&& (w >> 21) & 0x1F == a
            &&& (w >> 16) & 0x1F == b
            &&& w & 0xFFFF == imm
        }),
        ({
            let w = (o << 26) | (a << 21) | (b << 16) | (c << 11) | (xo << 1);
            &&& w >> 26 == o
            &&& (w >> 21) & 0x1F == a
            &&& (w >> 16) & 0x1F == b
            &&& (w >> 11) & 0x1F == c
            &&& (w >> 1) & 0x3FF == xo
            &&& (w >> 1) & 0x1F == xo % 32
        }),
        ({
            let w = (o << 26) | (a << 21) | (b << 16) | (c << 11) | ((d << 6) | (xa << 1));
            &&& w >> 26 == o
            &&& (w >> 21) & 0x1F == a
            &&& (w >> 16) & 0x1F == b
            &&& (w >> 11) & 0x1F == c
            &&& (w >> 6) & 0x1F == d
            &&& (w >> 1) & 0x1F == xa
        }),
{
}

/// The fields of a D-form word.
pub proof fn law_d_fields(o: u32, a: u32, b: u32, imm: u32)
    requires
        o < 64,
        a < 32,
        b < 32,
        imm < 0x1_0000,
    ensures
        opcd(encode::d_word(o, a, b, imm)) == o,
        f1(encode::d_word(o, a, b, imm)) == a,
        f2(encode::d_word(o, a, b, imm)) == b,
        low16(encode::d_word(o, a, b, imm)) == imm,
{
    lemma_form_fields(o, a, b, 0, 0, 0, 0, imm);
}

/// The fields of an X-form or XO-form word.
pub proof fn law_x_fields(o: u32, a: u32, b: u32, c: u32, xo: u32)
    requires
        o < 64,
        a < 32,
        b < 32,
        c < 32,
        xo < 1024,
    ensures
        opcd(encode::word(o, a, b, c, xo << 1)) == o,
        f1(encode::word(o, a, b, c, xo << 1)) == a,
        f2(encode::word(o, a, b, c, xo << 1)) == b,
        f3(encode::word(o, a, b, c, xo << 1)) == c,
        xo10(encode::word(o, a, b, c, xo << 1)) == xo,
        xo5(encode::word(o, a, b, c, xo << 1)) == xo % 32,
{
    lemma_form_fields(o, a, b, c, 0, 0, xo, 0);
}

/// The fields of an A-form word.
pub proof fn law_a_fields(o: u32, a: u32, b: u32, c: u32, d: u32, xo: u32)
    requires
        o < 64,
        a < 32,
        b < 32,
        c < 32,
        d < 32,
        xo < 32,
    ensures
        opcd(encode::word(o, a, b, c, (d << 6) | (xo << 1))) == o,
        f1(encode::word(o, a, b, c, (d << 6) | (xo << 1))) == a,
        f2(encode::word(o, a, b, c, (d << 6) | (xo << 1))) == b,
        f3(encode::word(o, a, b, c, (d << 6) | (xo << 1))) == c,
        f4(encode::word(o, a, b, c, (d << 6) | (xo << 1))) == d,
        xo5(encode::word(o, a, b, c, (d << 6) | (xo << 1))) == xo,
{
    lemma_form_fields(o, a, b, c, d, xo, 0, 0);
}

/// The fields of an MD-form word.
pub proof fn law_md_fields(rs: u32, ra: u32, sh: u32, m: u32, xo: u32)
    requires
        rs < 32,
        ra < 32,
        sh < 64,
        m < 64,
        xo < 8,
    ensures
        ({
            let w = encode::word(30, rs, ra, sh & 0x1F, encode::md_low(sh, m, xo));
            &&& opcd(w) == 30
            &&& f1(w) == rs
            &&& f2(w) == ra
            &&& md_sh(w) == sh
            &&& md_mask(w) == m
            &&& md_xo(w) == xo
        }),
{
    assert({
        let w = (30u32 << 26) | (rs << 21) | (ra << 16) | ((sh & 0x1F) << 11) | (((m & 0x1F) << 6)
            | ((m >> 5) << 5) | (xo << 2) | ((sh >> 5) << 1));
        &&& w >> 26 == 30
        &&& (w >> 21) & 0x1F == rs
        &&& (w >> 16) & 0x1F == ra
        &&& ((w >> 11) & 0x1F) | (((w >> 1) & 1) << 5) == sh
        &&& ((w >> 6) & 0x1F) | (((w >> 5) & 1) << 5) == m
        &&& (w >> 2) & 7 == xo
    }) by (bit_vector)
        requires
            rs < 32,
            ra < 32,
            sh < 64,
            m < 64,
            xo < 8,
    ;
}

/// The fields of an XS-form word.
pub proof fn law_xs_fields(rs: u32, ra: u32, sh: u32)
    requires
        rs < 32,
        ra < 32,
        sh < 64,
    ensures
        ({
            let w = mnem::sradi(ra, rs, sh);
            &&& opcd(w) == 31
            &&& f1(w) == rs
            &&& f2(w) == ra
            &&& md_sh(w) == sh
            &&& xo10(w) / 2 == 413
            &&& xo5(w) != 15
        }),
{
    assert({
        let w = (31u32 << 26) | (rs << 21) | (ra << 16) | ((sh & 0x1F) << 11) | ((413u32 << 2) | ((sh
            >> 5) << 1));
        &&& w >> 26 == 31
        &&& (w >> 21) & 0x1F == rs
        &&& (w >> 16) & 0x1F == ra
        &&& ((w >> 11) & 0x1F) | (((w >> 1) & 1) << 5) == sh
        &&& ((w >> 1) & 0x3FF) / 2 == 413
        &&& (w >> 1) & 0x1F != 15
    }) by (bit_vector)
        requires
            rs < 32,
            ra < 32,
            sh < 64,
    ;
}

/// The fields of an M-form word.
pub proof fn law_m_fields(rs: u32, ra: u32, sh: u32, mb: u32, me: u32)
    requires
        rs < 32,
        ra < 32,
        sh < 32,
        mb < 32,
        me < 32,
    ensures
        ({
            let w = mnem::rlwinm(ra, rs, sh, mb, me);
            &&& opcd(w) == 21
            &&& f1(w) == rs
            &&& f2(w) == ra
            &&& f3(w) == sh
            &&& f4(w) == mb
            &&& xo5(w) == me
        }),
{
    law_a_fields(21, rs, ra, sh, mb, me);
}

/// The fields of a conditional branch forward.
pub proof fn law_bc_fields(polarity: bool, bit: u32, off: i32)
    requires
        bit < 32,
        0 <= off < 0x8000,
        off % 4 == 0,
    ensures
        ({
            let w = mnem::bc(polarity, bit, off);
            &&& opcd(w) == 16
            &&& f1(w) == (if polarity {
                12u32
            } else {
                4u32
            })
            &&& f2(w) == bit
            &&& low16(w) == off
        }),
{
    let bo = encode::spec_bo_for(polarity);
    let d = off as u32;
    assert({
        let w = (16u32 << 26) | (bo << 21) | (bit << 16) | (d & 0xFFFC) | 0u32;
        &&& w >> 26 == 16
        &&& (w >> 21) & 0x1F == bo
        &&& (w >> 16) & 0x1F == bit
        &&& w & 0xFFFF == d
    }) by (bit_vector)
        requires
            bo < 32,
            bit < 32,
            d < 0x8000,
            d % 4 == 0,
    ;
}

/// The fields of an unconditional branch forward by less than 32 KiB.
pub proof fn law_b_fields(off: i32)
    requires
        0 <= off < 0x8000,
        off % 4 == 0,
    ensures
        opcd(mnem::b(off)) == 18,
        low16(mnem::b(off)) == off,
{
    let d = off as u32;
    assert({
        let w = (18u32 << 26) | (d & 0x03FF_FFFC) | 0u32;
        &&& w >> 26 == 18
        &&& w & 0xFFFF == d
    }) by (bit_vector)
        requires
            d < 0x8000,
            d % 4 == 0,
    ;
}

// Instructions.

/// The value of a register as a base: zero for r0.
pub open spec fn base(m: Machine, n: u32) -> u64 {
    if n == 0 {
        0
    } else {
        m.gpr[n as int]
    }
}

/// The machine with a register written.
pub open spec fn set(m: Machine, n: u32, v: u64) -> Machine {
    Machine { gpr: m.gpr.update(n as int, v), ..m }
}

/// The machine after a compare of two numbers.
pub open spec fn compared(m: Machine, x: int, y: int) -> Machine {
    Machine { cr0: Cr { lt: x < y, gt: x > y, eq: x == y, un: m.so }, ..m }
}

/// The value of a bit of the first condition-register field.
pub open spec fn cr_bit(m: Machine, bit: u32) -> bool {
    if bit == 0 {
        m.cr0.lt
    } else if bit == 1 {
        m.cr0.gt
    } else if bit == 2 {
        m.cr0.eq
    } else if bit == 3 {
        m.cr0.un
    } else {
        false
    }
}

/// A result that defines the lower half of a register only.
pub open spec fn half_defined(m: Machine, x: int) -> u64 {
    wrap(x % two32() + two32() * m.junk)
}

/// The doubleword rotated left.
pub open spec fn rotl(x: u64, n: u32) -> u64 {
    if n == 0 {
        x
    } else {
        (x << (n as u64)) | (x >> ((64 - n) as u64))
    }
}

/// The doubleword of two copies of a lower half, rotated left within each.
pub open spec fn rotlw(x: u64, n: u32) -> u64 {
    let d = (x & 0xFFFF_FFFF) | (x << 32);
    rotl(d, n)
}

/// The mask of the bits from `lo` down to zero, numbered from the most significant
/// one as instructions do: bit `lo` and all less significant ones.
pub open spec fn mask_from(lo: u32) -> u64 {
    0xFFFF_FFFF_FFFF_FFFFu64 >> (lo as u64)
}

/// The mask of the bits from the most significant one to bit `hi`.
pub open spec fn mask_to(hi: u32) -> u64 {
    0xFFFF_FFFF_FFFF_FFFFu64 << ((63 - hi) as u64)
}

/// One or zero.
pub open spec fn one_if(c: bool) -> int {
    if c {
        1
    } else {
        0
    }
}

/// The carry bit after an XO-form arithmetic instruction. A subtract leaves it set
/// where nothing was borrowed.
pub open spec fn carry(m: Machine, xo: u32, x: u64, y: u64) -> bool {
    if xo == 10 {
        // addc
        x + y >= two64()
    } else if xo == 138 {
        // adde
        x + y + one_if(m.ca) >= two64()
    } else if xo == 8 {
        // subfc
        y - x >= 0
    } else if xo == 136 {
        // subfe
        y - x - 1 + one_if(m.ca) >= 0
    } else {
        m.ca
    }
}

/// The machine after a right shift of a signed number into a register: rounded
/// down, with the carry bit set where a negative number was not divided evenly.
pub open spec fn shifted_right(m: Machine, rt: u32, x: int, n: nat) -> Machine {
    let p = vstd::arithmetic::power2::pow2(n) as int;
    Machine { ca: x < 0 && x % p != 0, ..set(m, rt, wrap(x / p)) }
}

/// The number of ones among the bits of a number.
pub open spec fn ones(x: int) -> int
    decreases x,
{
    if x <= 0 {
        0
    } else {
        x % 2 + ones(x / 2)
    }
}

/// The number of zeros below the lowest one of a number of so many bits, or all
/// of them where it is zero.
pub open spec fn low_zeros(x: int, bits: nat) -> int
    decreases bits,
{
    if bits == 0 || x % 2 == 1 {
        0
    } else {
        1 + low_zeros(x / 2, (bits - 1) as nat)
    }
}

/// The number of zeros above the highest one of a number of so many bits, or all
/// of them where it is zero.
pub open spec fn high_zeros(x: int, bits: nat) -> int
    decreases bits,
{
    if bits == 0 || x <= 0 {
        bits as int
    } else {
        high_zeros(x / 2, (bits - 1) as nat)
    }
}

/// The register that an XO-form arithmetic instruction computes, or nothing where
/// the hardware leaves it undefined or the instruction is not one of these.
pub open spec fn arith(m: Machine, xo: u32, x: u64, y: u64) -> Option<u64> {
    if xo == 266 {
        // add
        Some(wrap(x + y))
    } else if xo == 40 {
        // subf
        Some(wrap(y - x))
    } else if xo == 10 {
        // addc
        Some(wrap(x + y))
    } else if xo == 138 {
        // adde
        Some(wrap(x + y + one_if(m.ca)))
    } else if xo == 8 {
        // subfc
        Some(wrap(y - x))
    } else if xo == 136 {
        // subfe
        Some(wrap(y - x - 1 + one_if(m.ca)))
    } else if xo == 104 {
        // neg
        Some(wrap(-(x as int)))
    } else if xo == 233 {
        // mulld
        Some(wrap(x * y))
    } else if xo == 73 {
        // mulhd
        Some(wrap((signed64(x) * signed64(y)) / two64()))
    } else if xo == 9 {
        // mulhdu
        Some(wrap((x * y) / two64()))
    } else if xo == 75 {
        // mulhw
        Some(half_defined(m, (signed32(x) * signed32(y)) / two32()))
    } else if xo == 11 {
        // mulhwu
        Some(half_defined(m, (low32(x) * low32(y)) / two32()))
    } else if xo == 489 {
        // divd
        if y == 0 || (signed64(x) == -0x8000_0000_0000_0000 && signed64(y) == -1) {
            None
        } else {
            Some(wrap(quotient(signed64(x), signed64(y))))
        }
    } else if xo == 491 {
        // divw
        if low32(y) == 0 || (signed32(x) == -0x8000_0000 && signed32(y) == -1) {
            None
        } else {
            Some(half_defined(m, quotient(signed32(x), signed32(y))))
        }
    } else if xo == 457 {
        // divdu
        if y == 0 {
            None
        } else {
            Some(wrap(x as int / y as int))
        }
    } else if xo == 459 {
        // divwu
        if low32(y) == 0 {
            None
        } else {
            Some(half_defined(m, low32(x) / low32(y)))
        }
    } else if xo == 777 {
        // modsd
        if y == 0 || (signed64(x) == -0x8000_0000_0000_0000 && signed64(y) == -1) {
            None
        } else {
            Some(wrap(remainder(signed64(x), signed64(y))))
        }
    } else if xo == 779 {
        // modsw
        if low32(y) == 0 || (signed32(x) == -0x8000_0000 && signed32(y) == -1) {
            None
        } else {
            Some(half_defined(m, remainder(signed32(x), signed32(y))))
        }
    } else if xo == 265 {
        // modud
        if y == 0 {
            None
        } else {
            Some(wrap(x as int % y as int))
        }
    } else if xo == 267 {
        // moduw
        if low32(y) == 0 {
            None
        } else {
            Some(half_defined(m, low32(x) % low32(y)))
        }
    } else {
        None
    }
}

/// The register that an X-form logical instruction computes, or nothing where the
/// instruction is not one of these.
pub open spec fn logical(xo: u32, x: u64, y: u64) -> Option<u64> {
    if xo == 28 {
        // and
        Some(x & y)
    } else if xo == 444 {
        // or
        Some(x | y)
    } else if xo == 316 {
        // xor
        Some(x ^ y)
    } else if xo == 60 {
        // andc
        Some(x & !y)
    } else if xo == 124 {
        // nor
        Some(!(x | y))
    } else if xo == 476 {
        // nand
        Some(!(x & y))
    } else if xo == 954 {
        // extsb
        Some(wrap(
            if x % 0x100 >= 0x80 {
                x % 0x100 - 0x100
            } else {
                x as int % 0x100
            },
        ))
    } else if xo == 922 {
        // extsh
        Some(wrap(signed16((x % 0x1_0000) as u32)))
    } else if xo == 986 {
        // extsw
        Some(wrap(signed32(x)))
    } else if xo == 24 {
        // slw
        Some(
            if y % 64 >= 32 {
                0
            } else {
                ((x as u32) << (y % 64)) as u64
            },
        )
    } else if xo == 536 {
        // srw
        Some(
            if y % 64 >= 32 {
                0
            } else {
                ((x as u32) >> (y % 64)) as u64
            },
        )
    } else if xo == 58 {
        // cntlzd
        Some(high_zeros(x as int, 64) as u64)
    } else if xo == 26 {
        // cntlzw
        Some(high_zeros(low32(x), 32) as u64)
    } else if xo == 570 {
        // cnttzd
        Some(low_zeros(x as int, 64) as u64)
    } else if xo == 538 {
        // cnttzw
        Some(low_zeros(low32(x), 32) as u64)
    } else if xo == 506 {
        // popcntd
        Some(ones(x as int) as u64)
    } else if xo == 378 {
        // popcntw, which counts each half by itself
        Some((ones(low32(x)) + two32() * ones(x as int / two32())) as u64)
    } else if xo == 27 {
        // sld
        Some(
            if y % 128 >= 64 {
                0
            } else {
                x << (y % 128)
            },
        )
    } else if xo == 539 {
        // srd
        Some(
            if y % 128 >= 64 {
                0
            } else {
                x >> (y % 128)
            },
        )
    } else {
        None
    }
}

/// The machine after an instruction of primary opcode 31 that is not a branch.
pub open spec fn step31(m: Machine, w: u32) -> Option<Machine> {
    let a = m.gpr[f2(w) as int];
    let b = m.gpr[f3(w) as int];
    let s = m.gpr[f1(w) as int];
    if xo5(w) == 15 {
        // isel
        Some(
            set(
                m,
                f1(w),
                if cr_bit(m, f4(w)) {
                    base(m, f2(w))
                } else {
                    b
                },
            ),
        )
    } else if xo10(w) == 0 {
        // cmp
        if f1(w) == 1 {
            Some(compared(m, signed64(a), signed64(b)))
        } else if f1(w) == 0 {
            Some(compared(m, signed32(a), signed32(b)))
        } else {
            None
        }
    } else if xo10(w) == 32 {
        // cmpl
        if f1(w) == 1 {
            Some(compared(m, a as int, b as int))
        } else if f1(w) == 0 {
            Some(compared(m, low32(a), low32(b)))
        } else {
            None
        }
    } else if logical(xo10(w), s, b) is Some {
        Some(set(m, f2(w), logical(xo10(w), s, b)->0))
    } else if xo10(w) / 2 == 413 {
        // sradi
        Some(shifted_right(m, f2(w), signed64(s), md_sh(w) as nat))
    } else if xo10(w) == 824 {
        // srawi
        Some(shifted_right(m, f2(w), signed32(s), f3(w) as nat))
    } else if xo10(w) == 794 {
        // srad
        Some(shifted_right(m, f2(w), signed64(s), (b % 128) as nat))
    } else if xo10(w) == 792 {
        // sraw
        Some(shifted_right(m, f2(w), signed32(s), (b % 64) as nat))
    } else if xo10(w) == 339 && f2(w) == 8 && f3(w) == 0 {
        // mflr
        Some(set(m, f1(w), m.lr))
    } else if xo10(w) == 467 && f2(w) == 8 && f3(w) == 0 {
        // mtlr
        Some(Machine { lr: s, ..m })
    } else if arith(m, xo10(w), a, b) is Some {
        Some(
            Machine {
                ca: carry(m, xo10(w), a, b),
                ..set(m, f1(w), arith(m, xo10(w), a, b)->0)
            },
        )
    } else {
        None
    }
}

/// The machine after an instruction that is not a branch; nothing where the
/// hardware leaves the result undefined or the instruction is not known here.
#[verifier::opaque]
pub open spec fn step(m: Machine, w: u32) -> Option<Machine> {
    let s = m.gpr[f1(w) as int];
    let a = m.gpr[f2(w) as int];
    if opcd(w) == 14 {
        // addi
        Some(set(m, f1(w), wrap(base(m, f2(w)) + signed16(low16(w)))))
    } else if opcd(w) == 15 {
        // addis
        Some(set(m, f1(w), wrap(base(m, f2(w)) + 0x1_0000 * signed16(low16(w)))))
    } else if opcd(w) == 24 {
        // ori
        Some(set(m, f2(w), s | low16(w) as u64))
    } else if opcd(w) == 25 {
        // oris
        Some(set(m, f2(w), s | ((low16(w) as u64) << 16)))
    } else if opcd(w) == 28 {
        // andi.
        let v = s & low16(w) as u64;
        Some(compared(set(m, f2(w), v), signed64(v), 0))
    } else if opcd(w) == 11 {
        // cmpi
        if f1(w) == 1 {
            Some(compared(m, signed64(a), signed16(low16(w))))
        } else if f1(w) == 0 {
            Some(compared(m, signed32(a), signed16(low16(w))))
        } else {
            None
        }
    } else if opcd(w) == 10 {
        // cmpli
        if f1(w) == 1 {
            Some(compared(m, a as int, low16(w) as int))
        } else if f1(w) == 0 {
            Some(compared(m, low32(a), low16(w) as int))
        } else {
            None
        }
    } else if opcd(w) == 30 && md_xo(w) == 0 {
        // rldicl
        Some(set(m, f2(w), rotl(s, md_sh(w)) & mask_from(md_mask(w))))
    } else if opcd(w) == 30 && md_xo(w) == 1 {
        // rldicr
        Some(set(m, f2(w), rotl(s, md_sh(w)) & mask_to(md_mask(w))))
    } else if opcd(w) == 30 && md_xo(w) == 4 && w % 4 < 2 {
        // rldcl
        Some(set(m, f2(w), rotl(s, (m.gpr[f3(w) as int] % 64) as u32) & mask_from(md_mask(w))))
    } else if opcd(w) == 23 && f4(w) <= xo5(w) {
        // rlwnm, with a mask that does not wrap
        Some(
            set(
                m,
                f2(w),
                rotlw(s, (m.gpr[f3(w) as int] % 32) as u32) & mask_from((32 + f4(w)) as u32)
                    & mask_to((32 + xo5(w)) as u32),
            ),
        )
    } else if opcd(w) == 21 && f4(w) <= xo5(w) {
        // rlwinm, with a mask that does not wrap
        Some(
            set(
                m,
                f2(w),
                rotlw(s, f3(w)) & mask_from((32 + f4(w)) as u32) & mask_to((32 + xo5(w)) as u32),
            ),
        )
    } else if opcd(w) == 31 {
        step31(m, w)
    } else {
        None
    }
}

/// The machine after words that are not branches, in order.
pub open spec fn run_words(m: Machine, ws: Seq<u32>) -> Option<Machine>
    decreases ws.len(),
{
    if ws.len() == 0 {
        Some(m)
    } else {
        match run_words(m, ws.drop_last()) {
            Some(n) => step(n, ws.last()),
            None => None,
        }
    }
}

/// A machine with all its registers.
pub open spec fn wf(m: Machine) -> bool {
    m.gpr.len() == 32
}

/// Whether two machines agree in every register but those given.
pub open spec fn same_but(m: Machine, n: Machine, a: u32, b: u32) -> bool {
    &&& n.gpr.len() == m.gpr.len()
    &&& forall|i: int|
        0 <= i < m.gpr.len() && i != a && i != b ==> #[trigger] n.gpr[i] == m.gpr[i]
    &&& n.ca == m.ca
    &&& n.so == m.so
    &&& n.lr == m.lr
    &&& n.junk == m.junk
}

} // verus!
