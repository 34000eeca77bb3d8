//! The bounds of conversions from floating-point numbers to integers.
use vstd::prelude::*;
use vstd::arithmetic::power2::{lemma2_to64, lemma2_to64_rest, pow2};

verus! {

/// Whether a 64-bit pattern is the double that stands for a whole number other
/// than zero. A double with exponent field `e` and fraction `f` has the
/// magnitude `(2^52 + f) * 2^(e - 1075)`.
pub open spec fn is_double(bits: u64, value: int) -> bool {
    let negative = bits >= 0x8000_0000_0000_0000;
    let e = (bits / 0x10_0000_0000_0000) % 0x800;
    let f = bits % 0x10_0000_0000_0000;
    let magnitude = if value < 0 {
        -value
    } else {
        value
    };
    &&& negative == (value < 0)
    &&& 1023 <= e <= 1087
    &&& magnitude * 0x10_0000_0000_0000 == (0x10_0000_0000_0000 + f) * pow2((e - 1023) as nat)
}

/// A pattern is the double for a number, given its exponent and fraction fields
/// and the power of two that the exponent means.
proof fn lemma_double(bits: u64, e: int, f: int, p: int, value: int)
    requires
        (bits / 0x10_0000_0000_0000) % 0x800 == e,
        bits % 0x10_0000_0000_0000 == f,
        (bits >= 0x8000_0000_0000_0000) == (value < 0),
        1023 <= e <= 1087,
        pow2((e - 1023) as nat) == p,
        (if value < 0 {
            -value
        } else {
            value
        }) * 0x10_0000_0000_0000 == (0x10_0000_0000_0000 + f) * p,
    ensures
        is_double(bits, value),
{
}

/// The least number above every number of the integer type: the conversion of
/// anything from here up is out of range.
pub open spec fn upper_bound(signed: bool, bits: nat) -> int {
    if signed {
        pow2((bits - 1) as nat) as int
    } else {
        pow2(bits) as int
    }
}

/// The greatest number of the floating-point type whose conversion is out of
/// range below. A number down to but not including minus one truncates to zero.
/// The step below the least signed integer is one, or as much as the precision
/// allows.
pub open spec fn lower_bound(single: bool, signed: bool, bits: nat) -> int {
    let precision = if single {
        24nat
    } else {
        53nat
    };
    if !signed {
        -1
    } else if bits <= precision {
        -(pow2((bits - 1) as nat) as int) - 1
    } else {
        -(pow2((bits - 1) as nat) as int) - pow2((bits - precision) as nat) as int
    }
}

/// The exclusive bounds, as doubles, between which a floating-point number
/// converts to an integer of so many bits. The bounds of a single are exact as
/// doubles too.
pub fn cvt_to_int_bounds(single: bool, signed: bool, bits: u32) -> (r: (u64, u64))
    requires
        bits == 8 || bits == 16 || bits == 32 || bits == 64,
    ensures
        is_double(r.0, lower_bound(single, signed, bits as nat)),
        is_double(r.1, upper_bound(signed, bits as nat)),
        r == spec_bounds(single, signed, bits),
{
    proof {
        lemma2_to64();
        lemma2_to64_rest();
        lemma_double(0xC060200000000000, 1030, 0x200000000000, 0x80, -129);
        lemma_double(0x4060000000000000, 1030, 0x0, 0x80, 128);
        lemma_double(0xC0E0002000000000, 1038, 0x2000000000, 0x8000, -32769);
        lemma_double(0x40E0000000000000, 1038, 0x0, 0x8000, 32768);
        lemma_double(0xC1E0000020000000, 1054, 0x20000000, 0x80000000, -2147483904);
        lemma_double(0xC1E0000000200000, 1054, 0x200000, 0x80000000, -2147483649);
        lemma_double(0x41E0000000000000, 1054, 0x0, 0x80000000, 2147483648);
        lemma_double(0xC3E0000020000000, 1086, 0x20000000, 0x8000000000000000, -9223373136366403584);
        lemma_double(0xC3E0000000000001, 1086, 0x1, 0x8000000000000000, -9223372036854777856);
        lemma_double(0x43E0000000000000, 1086, 0x0, 0x8000000000000000, 9223372036854775808);
        lemma_double(0xBFF0000000000000, 1023, 0x0, 0x1, -1);
        lemma_double(0x4070000000000000, 1031, 0x0, 0x100, 256);
        lemma_double(0x40F0000000000000, 1039, 0x0, 0x10000, 65536);
        lemma_double(0x41F0000000000000, 1055, 0x0, 0x100000000, 4294967296);
        lemma_double(0x43F0000000000000, 1087, 0x0, 0x10000000000000000, 18446744073709551616);
    }
    if signed {
        if bits == 8 {
            (0xC060_2000_0000_0000, 0x4060_0000_0000_0000)
        } else if bits == 16 {
            (0xC0E0_0020_0000_0000, 0x40E0_0000_0000_0000)
        } else if bits == 32 {
            if single {
                (0xC1E0_0000_2000_0000, 0x41E0_0000_0000_0000)
            } else {
                (0xC1E0_0000_0020_0000, 0x41E0_0000_0000_0000)
            }
        } else if single {
            (0xC3E0_0000_2000_0000, 0x43E0_0000_0000_0000)
        } else {
            (0xC3E0_0000_0000_0001, 0x43E0_0000_0000_0000)
        }
    } else if bits == 8 {
        (0xBFF0_0000_0000_0000, 0x4070_0000_0000_0000)
    } else if bits == 16 {
        (0xBFF0_0000_0000_0000, 0x40F0_0000_0000_0000)
    } else if bits == 32 {
        (0xBFF0_0000_0000_0000, 0x41F0_0000_0000_0000)
    } else {
        (0xBFF0_0000_0000_0000, 0x43F0_0000_0000_0000)
    }
}

/// The bounds as bit patterns.
pub open spec fn spec_bounds(single: bool, signed: bool, bits: u32) -> (u64, u64) {
    if signed {
        if bits == 8 {
            (0xC060_2000_0000_0000, 0x4060_0000_0000_0000)
        } else if bits == 16 {
            (0xC0E0_0020_0000_0000, 0x40E0_0000_0000_0000)
        } else if bits == 32 {
            if single {
                (0xC1E0_0000_2000_0000, 0x41E0_0000_0000_0000)
            } else {
                (0xC1E0_0000_0020_0000, 0x41E0_0000_0000_0000)
            }
        } else if single {
            (0xC3E0_0000_2000_0000, 0x43E0_0000_0000_0000)
        } else {
            (0xC3E0_0000_0000_0001, 0x43E0_0000_0000_0000)
        }
    } else if bits == 8 {
        (0xBFF0_0000_0000_0000, 0x4070_0000_0000_0000)
    } else if bits == 16 {
        (0xBFF0_0000_0000_0000, 0x40F0_0000_0000_0000)
    } else if bits == 32 {
        (0xBFF0_0000_0000_0000, 0x41F0_0000_0000_0000)
    } else {
        (0xBFF0_0000_0000_0000, 0x43F0_0000_0000_0000)
    }
}

} // verus!
