//! What single fixed-point instructions compute.
use vstd::prelude::*;
use crate::buffer::BufferView;
use crate::emit_int;
use crate::inst::{AluImmOp, AluOp, BitOp, ShiftOp, UnaryOp};
use crate::laws_int;
use crate::machine;
use crate::machine::Machine;
use crate::mnem;

verus! {

// Arithmetic and logic.

/// Whether a fixed-point operation on `x` and `y` may give `v`. An operation on
/// words says nothing of the upper half of the result.
pub open spec fn alu_gives(op: AluOp, ca: bool, x: u64, y: u64, v: u64) -> bool {
    match op {
        AluOp::Add | AluOp::Addc => v == machine::wrap(x + y),
        AluOp::Adde => v == machine::wrap(x + y + machine::one_if(ca)),
        AluOp::Sub | AluOp::Subfc => v == machine::wrap(x - y),
        AluOp::Subfe => v == machine::wrap(x - y - machine::one_if(!ca)),
        AluOp::Mulld => v == machine::wrap(x * y),
        AluOp::Mulhd => v == machine::wrap(
            (machine::signed64(x) * machine::signed64(y)) / machine::two64(),
        ),
        AluOp::Mulhdu => v == machine::wrap((x * y) / machine::two64()),
        AluOp::Mulhw => machine::low32(v) == ((machine::signed32(x) * machine::signed32(y))
            / machine::two32()) % machine::two32(),
        AluOp::Mulhwu => machine::low32(v) == (machine::low32(x) * machine::low32(y))
            / machine::two32(),
        AluOp::And => v == x & y,
        AluOp::Or => v == x | y,
        AluOp::Xor => v == x ^ y,
    }
}

/// The carry that a fixed-point operation on `x` and `y` leaves. A subtract leaves
/// it set where nothing was borrowed.
pub open spec fn alu_carry(op: AluOp, ca: bool, x: u64, y: u64) -> bool {
    match op {
        AluOp::Addc => x + y >= machine::two64(),
        AluOp::Adde => x + y + machine::one_if(ca) >= machine::two64(),
        AluOp::Subfc => x >= y,
        AluOp::Subfe => x - y >= machine::one_if(!ca),
        _ => ca,
    }
}

/// Facts about bits that need no context.
proof fn lemma_plain_bits(x: u64, p: u64, s: u64)
    by (bit_vector)
    ensures
        x | x == x,
        (0u32 << 6) | (31u32 << 1) == 31u32 << 1,
        x & (0xFFFF_FFFF_FFFF_FFFFu64 >> 64u64) == 0,
        x % 2 == 1 && p == x - 1 ==> (p & !x) & (0xFFFF_FFFF_FFFF_FFFFu64 >> s) == 0,
{
}

/// The lower half of a result of which the hardware defines no more.
pub proof fn lemma_half_defined(m: Machine, x: int)
    ensures
        machine::low32(machine::half_defined(m, x)) == x % machine::two32(),
{
    let a = x % machine::two32();
    let s = a + machine::two32() * m.junk;
    assert(s % machine::two64() == s - machine::two64() * (s / machine::two64()));
    assert((s - machine::two64() * (s / machine::two64())) % machine::two32() == a);
}

/// The upper half of the product of two words is a word.
proof fn lemma_word_product(x: int, y: int)
    requires
        0 <= x < machine::two32(),
        0 <= y < machine::two32(),
    ensures
        0 <= x * y / machine::two32() < machine::two32(),
{
    assert(0 <= x * y <= 0xFFFF_FFFF * 0xFFFF_FFFF) by (nonlinear_arith)
        requires
            0 <= x <= 0xFFFF_FFFF,
            0 <= y <= 0xFFFF_FFFF,
    ;
}

/// An operation on two registers computes what it is named for, with its operands
/// in order, into its destination, and changes nothing else but the carry.
pub proof fn law_alu(m: Machine, op: AluOp, rd: u32, ra: u32, rb: u32)
    requires
        machine::wf(m),
        rd < 32,
        ra < 32,
        rb < 32,
    ensures
        ({
            let (x, y) = (m.gpr[ra as int], m.gpr[rb as int]);
            machine::step(m, emit_int::alu_rrr(op, rd, ra, rb)) matches Some(n) && alu_gives(
                op,
                m.ca,
                x,
                y,
                n.gpr[rd as int],
            ) && n == (Machine {
                ca: alu_carry(op, m.ca, x, y),
                ..machine::set(m, rd, n.gpr[rd as int])
            })
        }),
{
    reveal(machine::step);
    let (x, y) = (m.gpr[ra as int], m.gpr[rb as int]);
    match op {
        AluOp::And => machine::law_x_fields(31, ra, rd, rb, 28),
        AluOp::Or => machine::law_x_fields(31, ra, rd, rb, 444),
        AluOp::Xor => machine::law_x_fields(31, ra, rd, rb, 316),
        AluOp::Add => machine::law_x_fields(31, rd, ra, rb, 266),
        AluOp::Sub => machine::law_x_fields(31, rd, rb, ra, 40),
        AluOp::Addc => machine::law_x_fields(31, rd, ra, rb, 10),
        AluOp::Adde => machine::law_x_fields(31, rd, ra, rb, 138),
        AluOp::Subfc => machine::law_x_fields(31, rd, rb, ra, 8),
        AluOp::Subfe => machine::law_x_fields(31, rd, rb, ra, 136),
        AluOp::Mulld => machine::law_x_fields(31, rd, ra, rb, 233),
        AluOp::Mulhd => machine::law_x_fields(31, rd, ra, rb, 73),
        AluOp::Mulhdu => machine::law_x_fields(31, rd, ra, rb, 9),
        AluOp::Mulhw => {
            machine::law_x_fields(31, rd, ra, rb, 75);
            lemma_half_defined(
                m,
                (machine::signed32(x) * machine::signed32(y)) / machine::two32(),
            );
        },
        AluOp::Mulhwu => {
            machine::law_x_fields(31, rd, ra, rb, 11);
            lemma_half_defined(m, (machine::low32(x) * machine::low32(y)) / machine::two32());
            lemma_word_product(machine::low32(x), machine::low32(y));
        },
    }
}

/// A number of two doublewords.
pub open spec fn wide(hi: u64, lo: u64) -> int {
    machine::two64() * hi + lo
}

/// The number of values of two doublewords.
pub open spec fn two128() -> int {
    0x1_0000_0000_0000_0000_0000_0000_0000_0000int
}

/// A number is its remainder where it is off by a multiple.
proof fn lemma_remainder(x: int, r: int, k: int)
    requires
        x == r + k * two128(),
        0 <= r < two128(),
    ensures
        x % two128() == r,
{
    assert(x % two128() == r) by (nonlinear_arith)
        requires
            x == r + k * 0x1_0000_0000_0000_0000_0000_0000_0000_0000int,
            0 <= r < 0x1_0000_0000_0000_0000_0000_0000_0000_0000int,
            two128() == 0x1_0000_0000_0000_0000_0000_0000_0000_0000int,
    ;
}

/// An `addc` of the low doublewords and an `adde` of the high ones add numbers of
/// two doublewords.
pub proof fn law_wide_sum(xh: u64, xl: u64, yh: u64, yl: u64, sh: u64, sl: u64, ca: bool)
    requires
        alu_gives(AluOp::Addc, ca, xl, yl, sl),
        alu_gives(AluOp::Adde, alu_carry(AluOp::Addc, ca, xl, yl), xh, yh, sh),
    ensures
        wide(sh, sl) == (wide(xh, xl) + wide(yh, yl)) % two128(),
{
    let t = wide(xh, xl) + wide(yh, yl);
    let c = machine::one_if(xl + yl >= machine::two64());
    let k = machine::one_if(xh + yh + c >= machine::two64());
    assert(sl == xl + yl - c * machine::two64());
    assert(sh == xh + yh + c - k * machine::two64());
    lemma_remainder(t, wide(sh, sl), k);
}

/// A `subfc` of the low doublewords and a `subfe` of the high ones subtract numbers
/// of two doublewords.
pub proof fn law_wide_difference(xh: u64, xl: u64, yh: u64, yl: u64, dh: u64, dl: u64, ca: bool)
    requires
        alu_gives(AluOp::Subfc, ca, xl, yl, dl),
        alu_gives(AluOp::Subfe, alu_carry(AluOp::Subfc, ca, xl, yl), xh, yh, dh),
    ensures
        wide(dh, dl) == (wide(xh, xl) - wide(yh, yl)) % two128(),
{
    let t = wide(xh, xl) - wide(yh, yl);
    let c = machine::one_if(xl < yl);
    let k = machine::one_if(xh - yh - c < 0);
    assert(dl == xl - yl + c * machine::two64());
    assert(dh == xh - yh - c + k * machine::two64());
    lemma_remainder(t, wide(dh, dl), -k);
}

/// An operation on a register and an immediate: the sum with the signed immediate,
/// or the bits in common with it.
pub proof fn law_alu_immediate(m: Machine, op: AluImmOp, rd: u32, ra: u32, imm: u16)
    requires
        machine::wf(m),
        rd < 32,
        ra < 32,
        op == AluImmOp::Addi ==> ra != 0,
    ensures
        machine::step(m, emit_int::alu_rr_imm16(op, rd, ra, imm)) matches Some(n)
            && n.gpr[rd as int] == (match op {
            AluImmOp::Addi => machine::wrap(
                m.gpr[ra as int] + machine::signed16(imm as u32),
            ),
            AluImmOp::Andi => m.gpr[ra as int] & imm as u64,
        }) && machine::same_but(m, n, rd, rd) && (op == AluImmOp::Addi ==> n.cr0 == m.cr0),
{
    reveal(machine::step);
    match op {
        AluImmOp::Addi => machine::law_d_fields(14, rd, ra, imm as u32),
        AluImmOp::Andi => machine::law_d_fields(28, ra, rd, imm as u32),
    }
}

/// An operation on one register: the negated number or the inverted bits.
pub proof fn law_unary(m: Machine, op: UnaryOp, rd: u32, rn: u32)
    requires
        machine::wf(m),
        rd < 32,
        rn < 32,
    ensures
        machine::step(m, emit_int::unary_rr(op, rd, rn)) == Some(
            machine::set(
                m,
                rd,
                match op {
                    UnaryOp::Neg => machine::wrap(-(m.gpr[rn as int] as int)),
                    UnaryOp::Not => !m.gpr[rn as int],
                },
            ),
        ),
{
    reveal(machine::step);
    match op {
        UnaryOp::Neg => machine::law_x_fields(31, rd, rn, 0, 104),
        UnaryOp::Not => {
            machine::law_x_fields(31, rn, rd, rn, 124);
            lemma_plain_bits(m.gpr[rn as int], 0, 0);
        },
    }
}

// Shifts, rotates and extensions.

/// The word rotated left.
pub open spec fn rotl32(x: u32, n: u32) -> u32 {
    if n == 0 {
        x
    } else {
        (x << n) | (x >> ((32 - n) as u32))
    }
}

/// What a shift or rotate of `x` by `n` gives, for an amount below the width. One of
/// a word takes the lower half of its operand; it clears the upper half of the
/// result, or fills it with the sign where the shift is arithmetic.
pub open spec fn shifted(op: ShiftOp, x: u64, n: u32) -> u64 {
    let p = vstd::arithmetic::power2::pow2(n as nat) as int;
    match op {
        ShiftOp::Sld => x << (n as u64),
        ShiftOp::Srd => x >> (n as u64),
        ShiftOp::Srad => machine::wrap(machine::signed64(x) / p),
        ShiftOp::Rotld => machine::rotl(x, n),
        ShiftOp::Slw => ((x as u32) << n) as u64,
        ShiftOp::Srw => ((x as u32) >> n) as u64,
        ShiftOp::Sraw => machine::wrap(machine::signed32(x) / p),
        ShiftOp::Rotlw => rotl32(x as u32, n) as u64,
    }
}

/// The width that a shift works on.
pub open spec fn shift_width(op: ShiftOp) -> u32 {
    if op.is_64() {
        64
    } else {
        32
    }
}

/// The mask-and-rotate forms of the doubleword shifts.
proof fn lemma_double_shifts(x: u64, n: u32)
    requires
        n < 64,
    ensures
        machine::rotl(x, n) & machine::mask_to((63 - n) as u32) == x << (n as u64),
        machine::rotl(x, ((64 - n) % 64) as u32) & machine::mask_from(n) == x >> (n as u64),
        machine::rotl(x, n) & machine::mask_from(0) == machine::rotl(x, n),
{
    let s = n as u64;
    let r = (64 - n) as u64;
    let y = machine::rotl(x, n);
    let all: u64 = 0xFFFF_FFFF_FFFF_FFFF;
    assert({
        &&& x & (all << 0u64) == x
        &&& x & (all >> 0u64) == x
        &&& y & (all >> 0u64) == y
        &&& x << 0u64 == x
        &&& x >> 0u64 == x
        &&& ((x << s) | (x >> r)) & (all << s) == x << s
        &&& ((x << r) | (x >> s)) & (all >> s) == x >> s
    }) by (bit_vector)
        requires
            r == 64 - s,
            s < 64,
            all == 0xFFFF_FFFF_FFFF_FFFF,
    ;
}

/// The mask-and-rotate forms of the word shifts.
proof fn lemma_word_shifts(x: u64, n: u32)
    requires
        n < 32,
    ensures
        machine::rotlw(x, n) & machine::mask_from(32) & machine::mask_to((63 - n) as u32) == ((
        x as u32) << n) as u64,
        machine::rotlw(x, ((32 - n) % 32) as u32) & machine::mask_from((32 + n) as u32)
            & machine::mask_to(63) == ((x as u32) >> n) as u64,
        machine::rotlw(x, n) & machine::mask_from(32) & machine::mask_to(63) == rotl32(
            x as u32,
            n,
        ) as u64,
{
    let s = n as u64;
    let r = (64 - n) as u64;
    let t = (32 - n) as u64;
    let q = (32 + n) as u64;
    let u = (32 - n) as u32;
    let d = (x & 0xFFFF_FFFF) | (x << 32);
    let all: u64 = 0xFFFF_FFFF_FFFF_FFFF;
    assert({
        &&& d & (all >> 32) & (all << 0u64) == (x as u32) as u64
        &&& (x as u32) << 0u32 == x as u32
        &&& (x as u32) >> 0u32 == x as u32
        &&& ((d << s) | (d >> r)) & (all >> 32) & (all << s) == ((x as u32) << n) as u64
        &&& ((d << t) | (d >> q)) & (all >> q) & (all << 0u64) == ((x as u32) >> n) as u64
        &&& n > 0 ==> ((d << s) | (d >> r)) & (all >> 32) & (all << 0u64) == (((x as u32) << n) | ((
        x as u32) >> u)) as u64
    }) by (bit_vector)
        requires
            d == (x & 0xFFFF_FFFF) | (x << 32),
            s == n,
            r == 64 - s,
            t == 32 - s,
            q == 32 + s,
            u == 32 - n,
            n < 32,
            all == 0xFFFF_FFFF_FFFF_FFFF,
    ;
}

/// A shift or rotate by an immediate below the width gives what it is named for,
/// and changes nothing else but, where it is arithmetic, the carry.
pub proof fn law_shift_immediate(m: Machine, op: ShiftOp, rd: u32, ra: u32, n: u32)
    requires
        machine::wf(m),
        rd < 32,
        ra < 32,
        n < shift_width(op),
    ensures
        machine::step(m, emit_int::shift_rr_imm(op, rd, ra, n)) matches Some(after)
            && after == (Machine {
            ca: after.ca,
            ..machine::set(m, rd, shifted(op, m.gpr[ra as int], n))
        }) && (op != ShiftOp::Srad && op != ShiftOp::Sraw ==> after.ca == m.ca),
{
    reveal(machine::step);
    let x = m.gpr[ra as int];
    match op {
        ShiftOp::Sld => {
            machine::law_md_fields(ra, rd, n, (63 - n) as u32, 1);
            lemma_double_shifts(x, n);
        },
        ShiftOp::Srd => {
            machine::law_md_fields(ra, rd, ((64 - n) % 64) as u32, n, 0);
            lemma_double_shifts(x, n);
        },
        ShiftOp::Srad => {
            machine::law_xs_fields(ra, rd, n);
        },
        ShiftOp::Rotld => {
            machine::law_md_fields(ra, rd, n, 0, 0);
            lemma_double_shifts(x, n);
        },
        ShiftOp::Slw => {
            machine::law_m_fields(ra, rd, n, 0, (31 - n) as u32);
            lemma_word_shifts(x, n);
        },
        ShiftOp::Srw => {
            machine::law_m_fields(ra, rd, ((32 - n) % 32) as u32, n, 31);
            lemma_word_shifts(x, n);
        },
        ShiftOp::Sraw => {
            machine::law_x_fields(31, ra, rd, n, 824);
        },
        ShiftOp::Rotlw => {
            machine::law_m_fields(ra, rd, n, 0, 31);
            lemma_word_shifts(x, n);
        },
    }
}

/// The fields of a doubleword rotate by a register.
proof fn lemma_rotate_fields(rd: u32, ra: u32, rb: u32)
    requires
        rd < 32,
        ra < 32,
        rb < 32,
    ensures
        ({
            let w = mnem::rotld(rd, ra, rb);
            &&& machine::opcd(w) == 30
            &&& machine::f1(w) == ra
            &&& machine::f2(w) == rd
            &&& machine::f3(w) == rb
            &&& machine::md_mask(w) == 0
            &&& machine::md_xo(w) == 4
            &&& w % 4 < 2
        }),
{
    assert({
        let w = (30u32 << 26) | (ra << 21) | (rd << 16) | (rb << 11) | (8u32 << 1);
        &&& w >> 26 == 30
        &&& (w >> 21) & 0x1F == ra
        &&& (w >> 16) & 0x1F == rd
        &&& (w >> 11) & 0x1F == rb
        &&& ((w >> 6) & 0x1F) | (((w >> 5) & 1) << 5) == 0
        &&& (w >> 2) & 7 == 4
        &&& w % 4 < 2
    }) by (bit_vector)
        requires
            rd < 32,
            ra < 32,
            rb < 32,
    ;
}

/// A shift or rotate by a register that holds an amount below the width gives what
/// the one by that immediate does.
pub proof fn law_shift_register(m: Machine, op: ShiftOp, rd: u32, ra: u32, rb: u32)
    requires
        machine::wf(m),
        rd < 32,
        ra < 32,
        rb < 32,
        m.gpr[rb as int] < shift_width(op),
    ensures
        machine::step(m, emit_int::shift_rrr(op, rd, ra, rb)) == machine::step(
            m,
            emit_int::shift_rr_imm(op, rd, ra, m.gpr[rb as int] as u32),
        ),
{
    let n = m.gpr[rb as int] as u32;
    let x = m.gpr[ra as int];
    law_shift_immediate(m, op, rd, ra, n);
    reveal(machine::step);
    match op {
        ShiftOp::Slw => machine::law_x_fields(31, ra, rd, rb, 24),
        ShiftOp::Srw => machine::law_x_fields(31, ra, rd, rb, 536),
        ShiftOp::Sraw => {
            machine::law_x_fields(31, ra, rd, rb, 792);
            machine::law_x_fields(31, ra, rd, n, 824);
        },
        ShiftOp::Sld => machine::law_x_fields(31, ra, rd, rb, 27),
        ShiftOp::Srd => machine::law_x_fields(31, ra, rd, rb, 539),
        ShiftOp::Srad => {
            machine::law_x_fields(31, ra, rd, rb, 794);
            machine::law_xs_fields(ra, rd, n);
        },
        ShiftOp::Rotlw => {
            lemma_plain_bits(0, 0, 0);
            machine::law_a_fields(23, ra, rd, rb, 0, 31);
            lemma_word_shifts(x, n);
        },
        ShiftOp::Rotld => {
            lemma_rotate_fields(rd, ra, rb);
            lemma_double_shifts(x, n);
        },
    }
}

/// The low bits of a number, read as a signed or an unsigned one.
pub open spec fn low_bits(signed: bool, x: u64, bits: nat) -> int {
    let r = x as int % vstd::arithmetic::power2::pow2(bits) as int;
    if signed && r >= vstd::arithmetic::power2::pow2((bits - 1) as nat) {
        r - vstd::arithmetic::power2::pow2(bits)
    } else {
        r
    }
}

/// A mask of the low bits takes the remainder.
proof fn lemma_low_mask(x: u64, bits: nat)
    requires
        1 <= bits <= 64,
    ensures
        x & machine::mask_from((64 - bits) as u32) == x as int % vstd::arithmetic::power2::pow2(
            bits,
        ) as int,
{
    let all: u64 = 0xFFFF_FFFF_FFFF_FFFF;
    let s = (64 - bits) as u64;
    vstd::arithmetic::power2::lemma2_to64();
    if bits == 64 {
        assert(x & (all >> 0u64) == x) by (bit_vector)
            requires
                all == 0xFFFF_FFFF_FFFF_FFFF,
        ;
    } else {
        vstd::bits::lemma_u64_shr_is_div(all, s);
        vstd::arithmetic::power2::lemma_pow2_adds(s as nat, bits);
        vstd::arithmetic::power2::lemma_pow2_pos(s as nat);
        vstd::arithmetic::power2::lemma_pow2_pos(bits);
        let p = vstd::arithmetic::power2::pow2(s as nat) as int;
        let q = vstd::arithmetic::power2::pow2(bits) as int;
        assert((p * q - 1) / p == q - 1) by (nonlinear_arith)
            requires
                p > 0,
                q > 0,
        ;
        vstd::bits::lemma_u64_low_bits_mask_is_mod(x, bits);
        vstd::bits::lemma_u64_pow2_no_overflow(bits);
        assert(vstd::bits::low_bits_mask(bits) == q - 1);
    }
}

/// An extension gives the low bits, as the signed or the unsigned number that they
/// are, and changes nothing else.
pub proof fn law_extension(m: Machine, signed: bool, rd: u32, rn: u32, from_bits: u8)
    requires
        machine::wf(m),
        rd < 32,
        rn < 32,
        emit_int::extend_ok(signed, from_bits),
    ensures
        machine::step(m, emit_int::extend(signed, rd, rn, from_bits)) == Some(
            machine::set(
                m,
                rd,
                machine::wrap(low_bits(signed, m.gpr[rn as int], from_bits as nat)),
            ),
        ),
{
    reveal(machine::step);
    let x = m.gpr[rn as int];
    vstd::arithmetic::power2::lemma2_to64();
    if signed {
        if from_bits == 8 {
            machine::law_x_fields(31, rn, rd, 0, 954);
        } else if from_bits == 16 {
            machine::law_x_fields(31, rn, rd, 0, 922);
        } else {
            machine::law_x_fields(31, rn, rd, 0, 986);
        }
    } else {
        machine::law_md_fields(rn, rd, 0, (64 - from_bits) as u32, 0);
        lemma_low_mask(x, from_bits as nat);
    }
}

// Bit counts.

/// The words of a bit count.
pub open spec fn bit_count_words(
    op: BitOp,
    rd: u32,
    rn: u32,
    is_64: bool,
    isa_3_0: bool,
) -> Seq<u32> {
    match op {
        BitOp::Clz => seq![
            if is_64 {
                mnem::cntlzd(rd, rn)
            } else {
                mnem::cntlzw(rd, rn)
            },
        ],
        BitOp::Popcnt => seq![
            if is_64 {
                mnem::popcntd(rd, rn)
            } else {
                mnem::popcntw(rd, rn)
            },
        ],
        BitOp::Ctz => if isa_3_0 {
            seq![
                if is_64 {
                    mnem::cnttzd(rd, rn)
                } else {
                    mnem::cnttzw(rd, rn)
                },
            ]
        } else if is_64 {
            seq![mnem::addi(0, rn, 0xFFFF)] + seq![mnem::andc(0, 0, rn)] + seq![
                mnem::popcntd(rd, 0),
            ]
        } else {
            emit_int::load_constant(0, 0xFFFF_FFFF_0000_0000) + seq![mnem::or_x(11, rn, 0)] + seq![
                mnem::addi(0, 11, 0xFFFF),
            ] + seq![mnem::andc(0, 0, 11)] + seq![mnem::popcntd(rd, 0)]
        },
    }
}

/// What a bit count of a number of so many bits is.
pub open spec fn counted(op: BitOp, x: int, bits: nat) -> int {
    match op {
        BitOp::Clz => machine::high_zeros(x, bits),
        BitOp::Ctz => machine::low_zeros(x, bits),
        BitOp::Popcnt => machine::ones(x),
    }
}

/// The ones below the lowest one of a doubleword.
pub open spec fn below_lowest(x: u64) -> u64 {
    machine::wrap(x - 1) & !x
}

/// Halving an even number drops one of the ones below its lowest one.
proof fn lemma_below_lowest_halved(x: u64, bits: u64)
    requires
        1 <= bits <= 64,
        x as int % 2 == 0,
    ensures
        below_lowest(x) & (0xFFFF_FFFF_FFFF_FFFFu64 >> ((64 - bits) as u64)) == 2 * (below_lowest(
            x / 2,
        ) & (0xFFFF_FFFF_FFFF_FFFFu64 >> ((65 - bits) as u64))) + 1,
{
    let all: u64 = 0xFFFF_FFFF_FFFF_FFFF;
    let y = x / 2;
    let s = (64 - bits) as u64;
    let r = (65 - bits) as u64;
    let p = machine::wrap(x - 1);
    let q = machine::wrap(y - 1);
    assert((p & !x) & (all >> s) == 2 * ((q & !y) & (all >> r)) + 1) by (bit_vector)
        requires
            all == 0xFFFF_FFFF_FFFF_FFFF,
            s < 64,
            r == s + 1,
            y == x / 2,
            x % 2 == 0,
            x == 0 ==> p == all,
            x > 0 ==> p == x - 1,
            y == 0 ==> q == all,
            y > 0 ==> q == y - 1,
    ;
}

/// The ones below the lowest one of a doubleword are as many as its low zeros.
proof fn lemma_count_below_lowest(x: u64, bits: nat)
    requires
        bits <= 64,
        x < vstd::arithmetic::power2::pow2(bits),
    ensures
        machine::ones(
            (below_lowest(x) & (0xFFFF_FFFF_FFFF_FFFFu64 >> ((64 - bits) as u64))) as int,
        ) == machine::low_zeros(x as int, bits),
    decreases bits,
{
    let all: u64 = 0xFFFF_FFFF_FFFF_FFFF;
    let t = below_lowest(x);
    vstd::arithmetic::power2::lemma2_to64();
    if bits == 0 {
        lemma_plain_bits(t, 0, 64);
    } else if x as int % 2 == 1 {
        let p = machine::wrap(x - 1);
        let s = (64 - bits) as u64;
        lemma_plain_bits(x, p, s);
    } else {
        vstd::arithmetic::power2::lemma_pow2_unfold(bits);
        lemma_count_below_lowest(x / 2, (bits - 1) as nat);
        lemma_below_lowest_halved(x, bits as u64);
        let z = below_lowest(x / 2) & (all >> ((65 - bits) as u64));
        assert((2 * z + 1) / 2 == z as int);
        assert(machine::ones(2 * z + 1) == 1 + machine::ones(z as int));
    }
}

/// Bits above an odd digit do not count among the low zeros.
proof fn lemma_low_zeros_stop(v: int, k: nat, h: int, r: nat)
    requires
        0 <= v < vstd::arithmetic::power2::pow2(k),
        h % 2 == 1,
        r >= 1,
    ensures
        machine::low_zeros(v + vstd::arithmetic::power2::pow2(k) * h, k + r) == machine::low_zeros(
            v,
            k,
        ),
    decreases k,
{
    let p = vstd::arithmetic::power2::pow2(k) as int;
    if k == 0 {
        vstd::arithmetic::power2::lemma2_to64();
        assert(p * h == h);
    } else {
        vstd::arithmetic::power2::lemma_pow2_unfold(k);
        let q = vstd::arithmetic::power2::pow2((k - 1) as nat) as int;
        assert(p * h == 2 * (q * h)) by (nonlinear_arith)
            requires
                p == 2 * q,
        ;
        assert((v + p * h) % 2 == v % 2);
        if v % 2 == 0 {
            assert((v + p * h) / 2 == v / 2 + q * h);
            lemma_low_zeros_stop(v / 2, (k - 1) as nat, h, r);
        }
    }
}

/// A doubleword with its upper half set.
proof fn lemma_upper_half_set(x: u64)
    ensures
        x | 0xFFFF_FFFF_0000_0000 == machine::low32(x) + machine::two32() * 0xFFFF_FFFF,
{
    assert(x | 0xFFFF_FFFF_0000_0000 == x % 0x1_0000_0000 + 0xFFFF_FFFF_0000_0000) by (bit_vector);
}

/// A word of a bit count on the machine.
proof fn lemma_count_step(m: Machine, rd: u32, rs: u32, rb: u32, xo: u32)
    requires
        machine::wf(m),
        rd < 32,
        rs < 32,
        rb < 32,
        xo == 58 || xo == 26 || xo == 570 || xo == 538 || xo == 506 || xo == 378 || xo == 60 || xo
            == 444,
    ensures
        machine::step(m, mnem::logic(rd, rs, rb, xo)) == Some(
            machine::set(
                m,
                rd,
                machine::logical(xo, m.gpr[rs as int], m.gpr[rb as int])->0,
            ),
        ),
{
    reveal(machine::step);
    machine::law_x_fields(31, rs, rd, rb, xo);
}

/// `addi` of minus one on the machine.
proof fn lemma_minus_one(m: Machine, rd: u32, ra: u32)
    requires
        machine::wf(m),
        rd < 32,
        0 < ra < 32,
    ensures
        machine::step(m, mnem::addi(rd, ra, 0xFFFF)) == Some(
            machine::set(m, rd, machine::wrap(m.gpr[ra as int] - 1)),
        ),
{
    reveal(machine::step);
    machine::law_d_fields(14, rd, ra, 0xFFFF);
}

/// The trailing zeros of a doubleword without an instruction that counts them.
proof fn lemma_trailing_zeros_64(m: Machine, rd: u32, rn: u32)
    requires
        machine::wf(m),
        rd < 32,
        0 < rn < 32,
    ensures
        machine::run_words(m, bit_count_words(BitOp::Ctz, rd, rn, true, false)) == Some(
            machine::set(
                machine::set(m, 0, below_lowest(m.gpr[rn as int])),
                rd,
                machine::low_zeros(m.gpr[rn as int] as int, 64) as u64,
            ),
        ),
{
    let x = m.gpr[rn as int];
    let m1 = machine::set(m, 0, machine::wrap(x - 1));
    let m2 = machine::set(m, 0, below_lowest(x));
    lemma_minus_one(m, 0, rn);
    lemma_count_step(m1, 0, 0, rn, 60);
    lemma_count_step(m2, rd, 0, 0, 506);
    laws_int::lemma_set_set(m, 0, machine::wrap(x - 1), below_lowest(x));
    let w1 = seq![mnem::addi(0, rn, 0xFFFF)];
    let w2 = seq![mnem::andc(0, 0, rn)];
    laws_int::lemma_run_one(m, mnem::addi(0, rn, 0xFFFF));
    laws_int::lemma_run_push(m, w1, mnem::andc(0, 0, rn));
    laws_int::lemma_run_push(m, w1 + w2, mnem::popcntd(rd, 0));
    vstd::arithmetic::power2::lemma2_to64();
    lemma_count_below_lowest(x, 64);
    let t = below_lowest(x);
    lemma_low_mask(t, 64);
}

/// The trailing zeros of a word without an instruction that counts them.
proof fn lemma_trailing_zeros_32(m: Machine, rd: u32, rn: u32)
    requires
        machine::wf(m),
        rd < 32,
        0 < rn < 32,
    ensures
        ({
            let y = m.gpr[rn as int] | 0xFFFF_FFFF_0000_0000;
            machine::run_words(m, bit_count_words(BitOp::Ctz, rd, rn, false, false)) == Some(
                machine::set(
                    machine::set(machine::set(m, 11, y), 0, below_lowest(y)),
                    rd,
                    machine::low_zeros(machine::low32(m.gpr[rn as int]), 32) as u64,
                ),
            )
        }),
{
    let x = m.gpr[rn as int];
    let c: u64 = 0xFFFF_FFFF_0000_0000;
    let y = x | c;
    let m1 = machine::set(m, 0, c);
    let m2 = machine::set(m1, 11, y);
    let m3 = machine::set(m2, 0, machine::wrap(y - 1));
    let m4 = machine::set(m2, 0, below_lowest(y));
    let w1 = emit_int::load_constant(0, c);
    let w2 = w1 + seq![mnem::or_x(11, rn, 0)];
    let w3 = w2 + seq![mnem::addi(0, 11, 0xFFFF)];
    let w4 = w3 + seq![mnem::andc(0, 0, 11)];
    laws_int::law_constant_is_materialized(m, 0, c);
    lemma_count_step(m1, 11, rn, 0, 444);
    laws_int::lemma_run_push(m, w1, mnem::or_x(11, rn, 0));
    lemma_minus_one(m2, 0, 11);
    laws_int::lemma_run_push(m, w2, mnem::addi(0, 11, 0xFFFF));
    lemma_count_step(m3, 0, 0, 11, 60);
    laws_int::lemma_set_set(m2, 0, machine::wrap(y - 1), below_lowest(y));
    laws_int::lemma_run_push(m, w3, mnem::andc(0, 0, 11));
    lemma_count_step(m4, rd, 0, 0, 506);
    laws_int::lemma_run_push(m, w4, mnem::popcntd(rd, 0));
    vstd::arithmetic::power2::lemma2_to64();
    lemma_count_below_lowest(y, 64);
    let t = below_lowest(y);
    lemma_low_mask(t, 64);
    lemma_upper_half_set(x);
    lemma_low_zeros_stop(machine::low32(x), 32, 0xFFFF_FFFF, 32);
    assert(m4 =~= machine::set(machine::set(m, 11, y), 0, below_lowest(y)));
}

/// The counts are small.
proof fn lemma_counts_bounded(x: int, bits: nat)
    requires
        0 <= x < vstd::arithmetic::power2::pow2(bits),
    ensures
        0 <= machine::ones(x) <= bits,
        0 <= machine::low_zeros(x, bits) <= bits,
        0 <= machine::high_zeros(x, bits) <= bits,
    decreases bits,
{
    vstd::arithmetic::power2::lemma2_to64();
    if bits > 0 {
        vstd::arithmetic::power2::lemma_pow2_unfold(bits);
        lemma_counts_bounded(x / 2, (bits - 1) as nat);
    }
}

/// A bit count leaves the count of the doubleword, or of its lower half, in the
/// destination, whether or not the trailing-zero instructions are there. Besides
/// it, at most the scratch registers r0 and r11 change.
pub proof fn law_bit_count(
    b: BufferView,
    m: Machine,
    op: BitOp,
    rd: u32,
    rn: u32,
    is_64: bool,
    isa_3_0: bool,
)
    requires
        machine::wf(m),
        rd < 32,
        0 < rn < 32,
    ensures
        emit_int::bit_count(b, op, rd, rn, is_64, isa_3_0) == b.words(
            bit_count_words(op, rd, rn, is_64, isa_3_0),
        ),
        ({
            let x = m.gpr[rn as int];
            machine::run_words(m, bit_count_words(op, rd, rn, is_64, isa_3_0)) matches Some(n) && (
            if is_64 {
                n.gpr[rd as int] == counted(op, x as int, 64)
            } else {
                machine::low32(n.gpr[rd as int]) == counted(op, machine::low32(x), 32)
            }) && n.gpr.len() == 32 && n.cr0 == m.cr0 && n.ca == m.ca && n.lr == m.lr
                && forall|i: int|
                0 <= i < 32 && i != rd && i != 0 && i != 11 ==> #[trigger] n.gpr[i] == m.gpr[i]
        }),
{
    let x = m.gpr[rn as int];
    vstd::arithmetic::power2::lemma2_to64();
    lemma_counts_bounded(x as int, 64);
    lemma_counts_bounded(machine::low32(x), 32);
    lemma_counts_bounded(x as int / machine::two32(), 32);
    if op == BitOp::Ctz && !isa_3_0 {
        if is_64 {
            lemma_trailing_zeros_64(m, rd, rn);
        } else {
            lemma_trailing_zeros_32(m, rd, rn);
        }
    } else {
        let xo: u32 = match op {
            BitOp::Clz => if is_64 {
                58
            } else {
                26
            },
            BitOp::Popcnt => if is_64 {
                506
            } else {
                378
            },
            BitOp::Ctz => if is_64 {
                570
            } else {
                538
            },
        };
        lemma_count_step(m, rd, rn, 0, xo);
        laws_int::lemma_run_one(m, mnem::logic(rd, rn, 0, xo));
    }
    assert(emit_int::bit_count(b, op, rd, rn, is_64, isa_3_0) =~= b.words(
        bit_count_words(op, rd, rn, is_64, isa_3_0),
    ));
}

} // verus!
