//! What vector instructions do to elements, by their words.
//!
//! The hardware numbers the elements of a vector from the most significant end. What
//! floating-point arithmetic makes of numbers is a parameter, as it is for scalars.
use vstd::prelude::*;
use vstd::arithmetic::power2::pow2;
use crate::buffer::Emission;
use crate::floating::Rounding;
use crate::machine;
use crate::memory;
use crate::memory::State;
use crate::mnem;

verus! {

/// What the hardware makes of the numbers in elements, singles or doubles by their bits.
pub struct LaneArithmetic {
    pub sum: spec_fn(bool, u64, u64) -> u64,
    pub difference: spec_fn(bool, u64, u64) -> u64,
    pub product: spec_fn(bool, u64, u64) -> u64,
    pub quotient: spec_fn(bool, u64, u64) -> u64,
    pub least: spec_fn(bool, u64, u64) -> u64,
    pub greatest: spec_fn(bool, u64, u64) -> u64,
    pub equal: spec_fn(bool, u64, u64) -> bool,
    pub greater: spec_fn(bool, u64, u64) -> bool,
    pub at_least: spec_fn(bool, u64, u64) -> bool,
    pub root: spec_fn(bool, u64) -> u64,
    pub integral: spec_fn(bool, Rounding, u64) -> u64,
    /// A number as an integer of its own width, signed or not.
    pub to_integer: spec_fn(bool, bool, u64) -> u64,
    /// The number nearest to an integer.
    pub nearest: spec_fn(bool, int) -> u64,
    /// A double rounded to a single.
    pub narrowed: spec_fn(u64) -> u64,
    /// A single as a double.
    pub widened: spec_fn(u64) -> u64,
}

// Elements.

/// The number in the element of so many bytes at an index.
#[verifier::opaque]
pub open spec fn element(v: Seq<u8>, n: int, j: int) -> int {
    memory::number(memory::reversed(v.subrange(j * n, j * n + n)))
}

/// The vector whose elements of so many bytes are numbers, each modulo what fits.
#[verifier::opaque]
pub open spec fn of_elements(n: int, f: spec_fn(int) -> int) -> Seq<u8> {
    Seq::new(
        16,
        |i: int| memory::byte((f(i / n) % memory::power256(n)) as u64, n - 1 - i % n),
    )
}

/// A number of so many bytes with a sign.
pub open spec fn signed(x: int, n: int) -> int {
    if 2 * x >= memory::power256(n) {
        x - memory::power256(n)
    } else {
        x
    }
}

/// A number held within bounds.
pub open spec fn clamped(x: int, lo: int, hi: int) -> int {
    if x < lo {
        lo
    } else if x > hi {
        hi
    } else {
        x
    }
}

/// All ones, modulo what fits, where something holds.
pub open spec fn truth(c: bool) -> int {
    if c {
        -1
    } else {
        0
    }
}

/// The lesser of two numbers.
pub open spec fn lesser(x: int, y: int) -> int {
    if x < y {
        x
    } else {
        y
    }
}

/// The greater of two numbers.
pub open spec fn greater(x: int, y: int) -> int {
    if x < y {
        y
    } else {
        x
    }
}

/// The byte of an element at an index.
proof fn lemma_index(n: int, j: int, m: int)
    requires
        n == 1 || n == 2 || n == 4 || n == 8,
        0 <= j,
        (j + 1) * n <= 16,
        0 <= m < n,
    ensures
        (j * n + n - 1 - m) / n == j,
        (j * n + n - 1 - m) % n == n - 1 - m,
        0 <= j * n,
        j * n + n <= 16,
{
    if n == 1 {
    } else if n == 2 {
    } else if n == 4 {
    } else {
    }
}

/// The elements of a vector that is made of elements.
pub proof fn lemma_element(n: int, f: spec_fn(int) -> int, j: int)
    requires
        n == 1 || n == 2 || n == 4 || n == 8,
        0 <= j,
        (j + 1) * n <= 16,
    ensures
        element(of_elements(n, f), n, j) == f(j) % memory::power256(n),
        of_elements(n, f).len() == 16,
{
    reveal(element);
    reveal(of_elements);
    let v = of_elements(n, f);
    let x = (f(j) % memory::power256(n)) as u64;
    lemma_index(n, j, 0);
    let part = v.subrange(j * n, j * n + n);
    let got = memory::reversed(part);
    let want = memory::low_bytes(x, n as nat);
    assert(part.len() == n);
    assert forall|m: int| 0 <= m < n implies got[m] == #[trigger] want[m] by {
        lemma_index(n, j, m);
        let i = j * n + n - 1 - m;
        assert(got[m] == part[n - 1 - m]);
        assert(part[n - 1 - m] == v[i]);
        assert(v[i] == memory::byte((f(i / n) % memory::power256(n)) as u64, n - 1 - i % n));
    }
    assert(got =~= want);
    memory::lemma_number_of_bytes(x, n as nat);
    lemma_reduced(f(j), n);
}

/// A number modulo what fits, as a doubleword.
proof fn lemma_reduced(x: int, n: int)
    requires
        n == 1 || n == 2 || n == 4 || n == 8,
    ensures
        ((x % memory::power256(n)) as u64) as int == x % memory::power256(n),
        ((x % memory::power256(n)) as u64) as int % memory::power256(n) == x % memory::power256(n),
{
    let p = memory::power256(n);
    assert(0 <= x % p < p);
    if n == 1 {
    } else if n == 2 {
    } else if n == 4 {
    } else {
    }
}

// Operations on two vectors.

/// An operation of the vector unit.
pub enum Operation {
    Sum,
    Difference,
    Product,
    Equal,
    GreaterSigned,
    GreaterUnsigned,
    LeastSigned,
    LeastUnsigned,
    GreatestSigned,
    GreatestUnsigned,
    ShiftLeft,
    ShiftRight,
    ShiftRightSigned,
    RotateLeft,
    AverageSigned,
    AverageUnsigned,
    SumHeldSigned,
    SumHeldUnsigned,
    DifferenceHeldSigned,
    DifferenceHeldUnsigned,
    MergeHigh,
    MergeLow,
    MergeEven,
    Pack,
    PackSignedHeldSigned,
    PackSignedHeldUnsigned,
    PackUnsignedHeldUnsigned,
    MultiplyEvenSigned,
    MultiplyEvenUnsigned,
    MultiplyOddSigned,
    MultiplyOddUnsigned,
}

/// The width that one of four extended opcodes stands for, or zero.
pub open spec fn width_of(xo: u32, b: u32, h: u32, w: u32, d: u32) -> int {
    if xo == b {
        1
    } else if xo == h {
        2
    } else if xo == w {
        4
    } else if xo == d {
        8
    } else {
        0
    }
}

/// An extended opcode that no instruction has.
pub open spec fn none() -> u32 {
    0xFFFF
}

/// The operation and the width of its source elements that an extended opcode stands for.
#[verifier::opaque]
pub open spec fn decoded(xo: u32) -> Option<(Operation, int)> {
    let n = none();
    if width_of(xo, 0, 64, 128, 192) > 0 {
        // vaddubm, vadduhm, vadduwm, vaddudm
        Some((Operation::Sum, width_of(xo, 0, 64, 128, 192)))
    } else if width_of(xo, 1024, 1088, 1152, 1216) > 0 {
        // vsububm, vsubuhm, vsubuwm, vsubudm
        Some((Operation::Difference, width_of(xo, 1024, 1088, 1152, 1216)))
    } else if width_of(xo, n, n, 137, n) > 0 {
        // vmuluwm
        Some((Operation::Product, 4))
    } else if width_of(xo, 6, 70, 134, 199) > 0 {
        // vcmpequb, vcmpequh, vcmpequw, vcmpequd
        Some((Operation::Equal, width_of(xo, 6, 70, 134, 199)))
    } else if width_of(xo, 774, 838, 902, 967) > 0 {
        // vcmpgtsb, vcmpgtsh, vcmpgtsw, vcmpgtsd
        Some((Operation::GreaterSigned, width_of(xo, 774, 838, 902, 967)))
    } else if width_of(xo, 518, 582, 646, 711) > 0 {
        // vcmpgtub, vcmpgtuh, vcmpgtuw, vcmpgtud
        Some((Operation::GreaterUnsigned, width_of(xo, 518, 582, 646, 711)))
    } else if width_of(xo, 770, 834, 898, 962) > 0 {
        // vminsb, vminsh, vminsw, vminsd
        Some((Operation::LeastSigned, width_of(xo, 770, 834, 898, 962)))
    } else if width_of(xo, 514, 578, 642, 706) > 0 {
        // vminub, vminuh, vminuw, vminud
        Some((Operation::LeastUnsigned, width_of(xo, 514, 578, 642, 706)))
    } else if width_of(xo, 258, 322, 386, 450) > 0 {
        // vmaxsb, vmaxsh, vmaxsw, vmaxsd
        Some((Operation::GreatestSigned, width_of(xo, 258, 322, 386, 450)))
    } else if width_of(xo, 2, 66, 130, 194) > 0 {
        // vmaxub, vmaxuh, vmaxuw, vmaxud
        Some((Operation::GreatestUnsigned, width_of(xo, 2, 66, 130, 194)))
    } else if width_of(xo, 260, 324, 388, 1476) > 0 {
        // vslb, vslh, vslw, vsld
        Some((Operation::ShiftLeft, width_of(xo, 260, 324, 388, 1476)))
    } else if width_of(xo, 516, 580, 644, 1732) > 0 {
        // vsrb, vsrh, vsrw, vsrd
        Some((Operation::ShiftRight, width_of(xo, 516, 580, 644, 1732)))
    } else if width_of(xo, 772, 836, 900, 964) > 0 {
        // vsrab, vsrah, vsraw, vsrad
        Some((Operation::ShiftRightSigned, width_of(xo, 772, 836, 900, 964)))
    } else if width_of(xo, 4, 68, 132, 196) > 0 {
        // vrlb, vrlh, vrlw, vrld
        Some((Operation::RotateLeft, width_of(xo, 4, 68, 132, 196)))
    } else if width_of(xo, 1282, 1346, 1410, n) > 0 {
        // vavgsb, vavgsh, vavgsw
        Some((Operation::AverageSigned, width_of(xo, 1282, 1346, 1410, n)))
    } else if width_of(xo, 1026, 1090, 1154, n) > 0 {
        // vavgub, vavguh, vavguw
        Some((Operation::AverageUnsigned, width_of(xo, 1026, 1090, 1154, n)))
    } else if width_of(xo, 768, 832, 896, n) > 0 {
        // vaddsbs, vaddshs, vaddsws
        Some((Operation::SumHeldSigned, width_of(xo, 768, 832, 896, n)))
    } else if width_of(xo, 512, 576, 640, n) > 0 {
        // vaddubs, vadduhs, vadduws
        Some((Operation::SumHeldUnsigned, width_of(xo, 512, 576, 640, n)))
    } else if width_of(xo, 1792, 1856, 1920, n) > 0 {
        // vsubsbs, vsubshs, vsubsws
        Some((Operation::DifferenceHeldSigned, width_of(xo, 1792, 1856, 1920, n)))
    } else if width_of(xo, 1536, 1600, 1664, n) > 0 {
        // vsububs, vsubuhs, vsubuws
        Some((Operation::DifferenceHeldUnsigned, width_of(xo, 1536, 1600, 1664, n)))
    } else if width_of(xo, 12, 76, 140, n) > 0 {
        // vmrghb, vmrghh, vmrghw
        Some((Operation::MergeHigh, width_of(xo, 12, 76, 140, n)))
    } else if width_of(xo, 268, 332, 396, n) > 0 {
        // vmrglb, vmrglh, vmrglw
        Some((Operation::MergeLow, width_of(xo, 268, 332, 396, n)))
    } else if width_of(xo, n, n, 1932, n) > 0 {
        // vmrgew
        Some((Operation::MergeEven, 4))
    } else if width_of(xo, n, 14, 78, 1102) > 0 {
        // vpkuhum, vpkuwum, vpkudum
        Some((Operation::Pack, width_of(xo, n, 14, 78, 1102)))
    } else if width_of(xo, n, 398, 462, 1486) > 0 {
        // vpkshss, vpkswss, vpksdss
        Some((Operation::PackSignedHeldSigned, width_of(xo, n, 398, 462, 1486)))
    } else if width_of(xo, n, 270, 334, 1358) > 0 {
        // vpkshus, vpkswus, vpksdus
        Some((Operation::PackSignedHeldUnsigned, width_of(xo, n, 270, 334, 1358)))
    } else if width_of(xo, n, 142, 206, 1230) > 0 {
        // vpkuhus, vpkuwus, vpkudus
        Some((Operation::PackUnsignedHeldUnsigned, width_of(xo, n, 142, 206, 1230)))
    } else if width_of(xo, 776, 840, 904, n) > 0 {
        // vmulesb, vmulesh, vmulesw
        Some((Operation::MultiplyEvenSigned, width_of(xo, 776, 840, 904, n)))
    } else if width_of(xo, 520, 584, 648, n) > 0 {
        // vmuleub, vmuleuh, vmuleuw
        Some((Operation::MultiplyEvenUnsigned, width_of(xo, 520, 584, 648, n)))
    } else if width_of(xo, 264, 328, 392, n) > 0 {
        // vmulosb, vmulosh, vmulosw
        Some((Operation::MultiplyOddSigned, width_of(xo, 264, 328, 392, n)))
    } else if width_of(xo, 8, 72, 136, n) > 0 {
        // vmuloub, vmulouh, vmulouw
        Some((Operation::MultiplyOddUnsigned, width_of(xo, 8, 72, 136, n)))
    } else {
        None
    }
}

/// What an operation makes of two elements of so many bytes that stand in the same place.
pub open spec fn elementwise(op: Operation, n: int, x: int, y: int) -> int {
    let p = memory::power256(n);
    let (sx, sy) = (signed(x, n), signed(y, n));
    let amount = pow2((y % (8 * n)) as nat) as int;
    match op {
        Operation::Sum => x + y,
        Operation::Difference => x - y,
        Operation::Product => x * y,
        Operation::Equal => truth(x == y),
        Operation::GreaterSigned => truth(sx > sy),
        Operation::GreaterUnsigned => truth(x > y),
        Operation::LeastSigned => lesser(sx, sy),
        Operation::LeastUnsigned => lesser(x, y),
        Operation::GreatestSigned => greater(sx, sy),
        Operation::GreatestUnsigned => greater(x, y),
        Operation::ShiftLeft => x * amount,
        Operation::ShiftRight => x / amount,
        Operation::ShiftRightSigned => sx / amount,
        Operation::RotateLeft => x * amount + x * amount / p,
        Operation::AverageSigned => (sx + sy + 1) / 2,
        Operation::AverageUnsigned => (x + y + 1) / 2,
        Operation::SumHeldSigned => clamped(sx + sy, -(p / 2), p / 2 - 1),
        Operation::SumHeldUnsigned => clamped(x + y, 0, p - 1),
        Operation::DifferenceHeldSigned => clamped(sx - sy, -(p / 2), p / 2 - 1),
        Operation::DifferenceHeldUnsigned => clamped(x - y, 0, p - 1),
        _ => 0,
    }
}

/// What a pack makes of an element of so many bytes.
pub open spec fn packed(op: Operation, n: int, x: int) -> int {
    let q = memory::power256(n / 2);
    match op {
        Operation::PackSignedHeldSigned => clamped(signed(x, n), -(q / 2), q / 2 - 1),
        Operation::PackSignedHeldUnsigned => clamped(signed(x, n), 0, q - 1),
        Operation::PackUnsignedHeldUnsigned => clamped(x, 0, q - 1),
        _ => x,
    }
}

/// The vector that an operation on elements of so many bytes makes of two vectors.
pub open spec fn combined(op: Operation, n: int, a: Seq<u8>, b: Seq<u8>) -> Seq<u8> {
    let count = 16int / n;
    match op {
        Operation::MergeHigh => of_elements(
            n,
            |j: int|
                if j % 2 == 0 {
                    element(a, n, j / 2)
                } else {
                    element(b, n, j / 2)
                },
        ),
        Operation::MergeLow => of_elements(
            n,
            |j: int|
                if j % 2 == 0 {
                    element(a, n, count / 2 + j / 2)
                } else {
                    element(b, n, count / 2 + j / 2)
                },
        ),
        Operation::MergeEven => of_elements(
            n,
            |j: int|
                if j % 2 == 0 {
                    element(a, n, j)
                } else {
                    element(b, n, j - 1)
                },
        ),
        Operation::Pack
        | Operation::PackSignedHeldSigned
        | Operation::PackSignedHeldUnsigned
        | Operation::PackUnsignedHeldUnsigned => of_elements(
            n / 2,
            |j: int|
                packed(
                    op,
                    n,
                    if j < count {
                        element(a, n, j)
                    } else {
                        element(b, n, j - count)
                    },
                ),
        ),
        Operation::MultiplyEvenSigned => of_elements(
            2 * n,
            |j: int| signed(element(a, n, 2 * j), n) * signed(element(b, n, 2 * j), n),
        ),
        Operation::MultiplyEvenUnsigned => of_elements(
            2 * n,
            |j: int| element(a, n, 2 * j) * element(b, n, 2 * j),
        ),
        Operation::MultiplyOddSigned => of_elements(
            2 * n,
            |j: int| signed(element(a, n, 2 * j + 1), n) * signed(element(b, n, 2 * j + 1), n),
        ),
        Operation::MultiplyOddUnsigned => of_elements(
            2 * n,
            |j: int| element(a, n, 2 * j + 1) * element(b, n, 2 * j + 1),
        ),
        _ => of_elements(n, |j: int| elementwise(op, n, element(a, n, j), element(b, n, j))),
    }
}

// Operations on one vector.

/// What the instructions on one vector, and the splats of an immediate, make.
#[verifier::opaque]
pub open spec fn alone(xo: u32, uim: u32, b: Seq<u8>) -> Option<Seq<u8>> {
    let popcnt = width_of(xo, 1795, 1859, 1923, 1987);
    let high = width_of(xo, 526, 590, 1614, none());
    let low = width_of(xo, 654, 718, 1742, none());
    let splat = width_of(xo, 780, 844, 908, none());
    if popcnt > 0 {
        // vpopcntb, vpopcnth, vpopcntw, vpopcntd
        Some(of_elements(popcnt, |j: int| machine::ones(element(b, popcnt, j))))
    } else if high > 0 {
        // vupkhsb, vupkhsh, vupkhsw
        Some(of_elements(2 * high, |j: int| signed(element(b, high, j), high)))
    } else if low > 0 {
        // vupklsb, vupklsh, vupklsw
        Some(of_elements(2 * low, |j: int| signed(element(b, low, 8int / low + j), low)))
    } else if splat > 0 {
        // vspltisb, vspltish, vspltisw
        Some(
            of_elements(
                splat,
                |j: int|
                    if uim >= 16 {
                        uim - 32
                    } else {
                        uim as int
                    },
            ),
        )
    } else {
        None
    }
}

// Operations on three vectors.

/// What the instructions on three vectors make.
pub open spec fn of_three(xo: u32, a: Seq<u8>, b: Seq<u8>, c: Seq<u8>) -> Option<Seq<u8>> {
    if xo == 34 {
        // vmladduhm
        Some(of_elements(2, |j: int| element(a, 2, j) * element(b, 2, j) + element(c, 2, j)))
    } else if xo == 33 {
        // vmhraddshs
        Some(
            of_elements(
                2,
                |j: int|
                    clamped(
                        (signed(element(a, 2, j), 2) * signed(element(b, 2, j), 2) + 0x4000)
                            / 0x8000 + signed(element(c, 2, j), 2),
                        -0x8000,
                        0x7FFF,
                    ),
            ),
        )
    } else if xo == 43 {
        // vperm
        Some(Seq::new(16, |i: int| (a + b)[c[i] as int % 32]))
    } else {
        None
    }
}

// Floating point.

/// A number with its sign changed, by its bits.
pub open spec fn negated(x: int, n: int) -> int {
    x + memory::power256(n) / 2
}

/// A number without its sign, by its bits.
pub open spec fn unsigned(x: int, n: int) -> int {
    x % (memory::power256(n) / 2)
}

/// What the floating-point operations on two elements make.
pub open spec fn float_pair(
    f: LaneArithmetic,
    xo: u32,
    single: bool,
    x: u64,
    y: u64,
) -> Option<int> {
    if xo == (if single { 64u32 } else { 96 }) {
        // xvaddsp, xvadddp
        Some((f.sum)(single, x, y) as int)
    } else if xo == (if single { 72u32 } else { 104 }) {
        // xvsubsp, xvsubdp
        Some((f.difference)(single, x, y) as int)
    } else if xo == (if single { 80u32 } else { 112 }) {
        // xvmulsp, xvmuldp
        Some((f.product)(single, x, y) as int)
    } else if xo == (if single { 88u32 } else { 120 }) {
        // xvdivsp, xvdivdp
        Some((f.quotient)(single, x, y) as int)
    } else if xo == (if single { 67u32 } else { 99 }) {
        // xvcmpeqsp, xvcmpeqdp
        Some(truth((f.equal)(single, x, y)))
    } else if xo == (if single { 75u32 } else { 107 }) {
        // xvcmpgtsp, xvcmpgtdp
        Some(truth((f.greater)(single, x, y)))
    } else if xo == (if single { 83u32 } else { 115 }) {
        // xvcmpgesp, xvcmpgedp
        Some(truth((f.at_least)(single, x, y)))
    } else if xo == (if single { 200u32 } else { 232 }) {
        // xvminsp, xvmindp
        Some((f.least)(single, x, y) as int)
    } else if xo == (if single { 192u32 } else { 224 }) {
        // xvmaxsp, xvmaxdp
        Some((f.greatest)(single, x, y) as int)
    } else {
        None
    }
}

/// What the floating-point operations on one element make of it, and conversions that keep
/// its width.
pub open spec fn float_one(f: LaneArithmetic, xo: u32, single: bool, x: u64) -> Option<int> {
    let n: int = if single {
        4
    } else {
        8
    };
    if xo == (if single { 139u32 } else { 203 }) {
        // xvsqrtsp, xvsqrtdp
        Some((f.root)(single, x) as int)
    } else if xo == (if single { 441u32 } else { 505 }) {
        // xvnegsp, xvnegdp
        Some(negated(x as int, n))
    } else if xo == (if single { 409u32 } else { 473 }) {
        // xvabssp, xvabsdp
        Some(unsigned(x as int, n))
    } else if xo == (if single { 169u32 } else { 233 }) {
        // xvrspip, xvrdpip
        Some((f.integral)(single, Rounding::Up, x) as int)
    } else if xo == (if single { 185u32 } else { 249 }) {
        // xvrspim, xvrdpim
        Some((f.integral)(single, Rounding::Down, x) as int)
    } else if xo == (if single { 153u32 } else { 217 }) {
        // xvrspiz, xvrdpiz
        Some((f.integral)(single, Rounding::TowardZero, x) as int)
    } else if xo == (if single { 171u32 } else { 235 }) {
        // xvrspic, xvrdpic
        Some((f.integral)(single, Rounding::Current, x) as int)
    } else if xo == (if single { 152u32 } else { 472 }) {
        // xvcvspsxws, xvcvdpsxds
        Some((f.to_integer)(single, true, x) as int)
    } else if xo == (if single { 136u32 } else { 456 }) {
        // xvcvspuxws, xvcvdpuxds
        Some((f.to_integer)(single, false, x) as int)
    } else if xo == (if single { 184u32 } else { 504 }) {
        // xvcvsxwsp, xvcvsxddp
        Some((f.nearest)(single, signed(x as int, n)) as int)
    } else if xo == (if single { 168u32 } else { 488 }) {
        // xvcvuxwsp, xvcvuxddp
        Some((f.nearest)(single, x as int) as int)
    } else {
        None
    }
}

/// The vector of what a floating-point operation makes of elements.
pub open spec fn float_vector(
    f: LaneArithmetic,
    s: State,
    w: u32,
    single: bool,
) -> Option<Seq<u8>> {
    let n: int = if single {
        4
    } else {
        8
    };
    let a = s.vsr[memory::va(w) as int];
    let b = s.vsr[memory::vb(w) as int];
    let (x8, x9) = (memory::xo8(w), xo9(w));
    if float_pair(f, x8, single, 0, 0) is Some {
        Some(
            of_elements(
                n,
                |j: int|
                    float_pair(f, x8, single, element(a, n, j) as u64, element(b, n, j) as u64)->0,
            ),
        )
    } else if float_one(f, x9, single, 0) is Some {
        Some(of_elements(n, |j: int| float_one(f, x9, single, element(b, n, j) as u64)->0))
    } else {
        None
    }
}

/// The extended opcode of an XX2-form instruction.
pub open spec fn xo9(w: u32) -> u32 {
    (w >> 2) & 0x1FF
}

/// The mask of an XX4-form instruction.
pub open spec fn vc(w: u32) -> u32 {
    ((w >> 6) & 0x1F) | (((w >> 3) & 1) << 5)
}

/// The vector that a VSX instruction on vectors makes.
pub open spec fn vsx_vector(f: LaneArithmetic, s: State, w: u32) -> Option<Seq<u8>> {
    let a = s.vsr[memory::va(w) as int];
    let b = s.vsr[memory::vb(w) as int];
    let c = s.vsr[vc(w) as int];
    if (w >> 4) & 3 == 3 {
        // xxsel
        Some(Seq::new(16, |i: int| (a[i] & !c[i]) | (b[i] & c[i])))
    } else if float_vector(f, s, w, true) is Some {
        float_vector(f, s, w, true)
    } else if float_vector(f, s, w, false) is Some {
        float_vector(f, s, w, false)
    } else if xo9(w) == 393 {
        // xvcvdpsp, into the even words
        Some(
            of_elements(
                4,
                |j: int|
                    if j % 2 == 0 {
                        (f.narrowed)(element(b, 8, j / 2) as u64) as int
                    } else {
                        element(s.rest + s.rest, 4, j)
                    },
            ),
        )
    } else if xo9(w) == 457 {
        // xvcvspdp, from the even words
        Some(of_elements(8, |j: int| (f.widened)(element(b, 4, 2 * j) as u64) as int))
    } else if xo9(w) == 164 {
        // xxspltw
        Some(of_elements(4, |j: int| element(b, 4, (machine::f2(w) % 4) as int)))
    } else {
        None
    }
}

// Words.

/// The vector that a word of the vector unit makes.
pub open spec fn vector_of(s: State, w: u32) -> Option<Seq<u8>> {
    let a = s.vsr[32 + machine::f2(w)];
    let b = s.vsr[32 + machine::f3(w)];
    if w % 64 >= 32 {
        of_three(w % 64, a, b, s.vsr[32 + machine::f4(w)])
    } else {
        match decoded(memory::xo11(w)) {
            Some((op, n)) => Some(combined(op, n, a, b)),
            None => alone(memory::xo11(w), machine::f2(w), b),
        }
    }
}

/// The state after an instruction that is not a branch; nothing where it is not known
/// here.
#[verifier::opaque]
pub open spec fn step(f: LaneArithmetic, s: State, w: u32) -> Option<State> {
    if machine::opcd(w) == 4 && vector_of(s, w) is Some {
        Some(memory::set_vsr(s, (32 + machine::f1(w)) as u32, vector_of(s, w)->0))
    } else if machine::opcd(w) == 60 && vsx_vector(f, s, w) is Some {
        Some(memory::set_vsr(s, memory::vt(w), vsx_vector(f, s, w)->0))
    } else {
        memory::step(s, w)
    }
}

/// The state after the words of a log from a position on, where they are all there is.
pub open spec fn run(f: LaneArithmetic, ops: Seq<Emission>, pc: int, s: State) -> Option<State>
    decreases ops.len() - pc,
{
    if pc < 0 {
        None
    } else if pc >= ops.len() {
        Some(s)
    } else {
        match ops[pc] {
            Emission::Word(w) => match step(f, s, w) {
                Some(t) => run(f, ops, pc + 1, t),
                None => None,
            },
            _ => None,
        }
    }
}

/// The fields of words of the vector units, by their bits.
#[verifier::rlimit(40)]
proof fn lemma_bits(a: u32, b: u32, c: u32, d: u32, x11: u32, x6: u32, t: u32, x: u32, y: u32, z: u32, x8: u32, x9: u32)
    by (bit_vector)
    requires
        a < 32,
        b < 32,
        c < 32,
        d < 32,
        x11 < 2048,
        x6 < 64,
        t < 64,
        x < 64,
        y < 64,
        z < 64,
        x8 < 256,
        x9 < 512,
    ensures
        ({
            let w = (4u32 << 26) | (a << 21) | (b << 16) | (c << 11) | x11;
            w % 64 == x11 % 64
        }),
        ({
            let w = (4u32 << 26) | (a << 21) | (b << 16) | (c << 11) | ((d << 6) | x6);
            &&& w >> 26 == 4
            &&& (w >> 21) & 0x1F == a
            &&& (w >> 16) & 0x1F == b
            &&& (w >> 11) & 0x1F == c
            &&& (w >> 6) & 0x1F == d
            &&& w % 64 == x6
        }),
        ({
            let w = (60u32 << 26) | ((t & 0x1F) << 21) | ((x & 0x1F) << 16) | ((y & 0x1F) << 11)
                | ((x8 << 3) | ((x >> 5) << 2) | ((y >> 5) << 1) | (t >> 5));
            &&& (w >> 4) & 3 == (x8 / 2) % 4
            &&& (w >> 2) & 0x1FF == 2 * x8 + (x >> 5)
            &&& x >> 5 <= 1
        }),
        ({
            let w = (60u32 << 26) | ((t & 0x1F) << 21) | (b << 16) | ((y & 0x1F) << 11) | ((x9 << 2)
                | ((y >> 5) << 1) | (t >> 5));
            &&& w >> 26 == 60
            &&& ((w >> 21) & 0x1F) | ((w & 1) << 5) == t
            &&& (w >> 16) & 0x1F == b
            &&& ((w >> 11) & 0x1F) | (((w >> 1) & 1) << 5) == y
            &&& (w >> 2) & 0x1FF == x9
            &&& (w >> 3) & 0xFF == x9 / 2
            &&& (w >> 4) & 3 == (x9 / 4) % 4
        }),
        ({
            let w = (60u32 << 26) | ((t & 0x1F) << 21) | ((x & 0x1F) << 16) | ((y & 0x1F) << 11)
                | (((z & 0x1F) << 6) | (3u32 << 4) | ((z >> 5) << 3) | ((x >> 5) << 2) | ((y >> 5)
                << 1) | (t >> 5));
            &&& w >> 26 == 60
            &&& ((w >> 21) & 0x1F) | ((w & 1) << 5) == t
            &&& ((w >> 16) & 0x1F) | (((w >> 2) & 1) << 5) == x
            &&& ((w >> 11) & 0x1F) | (((w >> 1) & 1) << 5) == y
            &&& ((w >> 6) & 0x1F) | (((w >> 3) & 1) << 5) == z
            &&& (w >> 4) & 3 == 3
        }),
{
}

/// A word of the vector unit on two registers.
pub proof fn lemma_vx(f: LaneArithmetic, s: State, a: u32, b: u32, c: u32, xo: u32)
    requires
        a < 32,
        b < 32,
        c < 32,
        xo < 2048,
        xo % 64 < 32,
    ensures
        ({
            let w = mnem::vx(a, b, c, xo);
            let v = match decoded(xo) {
                Some((op, n)) => Some(combined(op, n, s.vsr[32 + b], s.vsr[32 + c])),
                None => alone(xo, b, s.vsr[32 + c]),
            };
            v is Some ==> step(f, s, w) == Some(memory::set_vsr(s, (32 + a) as u32, v->0))
        }),
{
    lemma_bits(a, b, c, 0, xo, 0, 0, 0, 0, 0, 0, 0);
    memory::law_vx_fields(a, b, c, xo);
    reveal(step);
}

/// A word of the vector unit on three registers.
pub proof fn lemma_va(f: LaneArithmetic, s: State, a: u32, b: u32, c: u32, d: u32, xo: u32)
    requires
        a < 32,
        b < 32,
        c < 32,
        d < 32,
        32 <= xo < 64,
    ensures
        ({
            let w = mnem::va(a, b, c, d, xo);
            let v = of_three(xo, s.vsr[32 + b], s.vsr[32 + c], s.vsr[32 + d]);
            v is Some ==> step(f, s, w) == Some(memory::set_vsr(s, (32 + a) as u32, v->0))
        }),
{
    lemma_bits(a, b, c, d, 0, xo, 0, 0, 0, 0, 0, 0);
    reveal(step);
}

/// The fields of VSX words on vectors.
pub proof fn lemma_vsx(t: u32, x: u32, y: u32, z: u32, u: u32, x8: u32, x9: u32)
    requires
        t < 64,
        x < 64,
        y < 64,
        z < 64,
        u < 32,
        x8 < 256,
        x9 < 512,
    ensures
        (mnem::xx3(t, x, y, x8) >> 4) & 3 == (x8 / 2) % 4,
        xo9(mnem::xx3(t, x, y, x8)) == 2 * x8 || xo9(mnem::xx3(t, x, y, x8)) == 2 * x8 + 1,
        ({
            let w = crate::encode::xx2_word(t, u, y, x9);
            &&& machine::opcd(w) == 60
            &&& memory::vt(w) == t
            &&& machine::f2(w) == u
            &&& memory::vb(w) == y
            &&& xo9(w) == x9
            &&& memory::xo8(w) == x9 / 2
            &&& (w >> 4) & 3 == (x9 / 4) % 4
        }),
        ({
            let w = mnem::xxsel(t, x, y, z);
            &&& machine::opcd(w) == 60
            &&& memory::vt(w) == t
            &&& memory::va(w) == x
            &&& memory::vb(w) == y
            &&& vc(w) == z
            &&& (w >> 4) & 3 == 3
        }),
{
    lemma_bits(0, u, 0, 0, 0, 0, t, x, y, z, x8, x9);
}

} // verus!
