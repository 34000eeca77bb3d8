//! What memory and vector instructions do, by their words.
//!
//! This extends the fixed-point machine by the vector-scalar registers, the first
//! half of which are the floating-point registers, by memory, and by what a
//! recording vector compare tells.
use vstd::prelude::*;
use vstd::arithmetic::div_mod::lemma_div_denominator;
use crate::encode;
use crate::machine;
use crate::machine::Machine;
use crate::mnem;

verus! {

/// The state of the machine.
#[verifier::ext_equal]
pub struct State {
    /// The fixed-point part.
    pub cpu: Machine,
    /// The vector-scalar registers: sixteen bytes each, the most significant first.
    pub vsr: Seq<Seq<u8>>,
    /// Memory, by address.
    pub mem: spec_fn(u64) -> u8,
    /// Whether the last recording vector compare held of every lane.
    pub every: bool,
    /// Whether it held of none.
    pub none: bool,
    /// What the hardware leaves in the second half of a vector-scalar register of
    /// which it defines the first.
    pub rest: Seq<u8>,
}

/// A state with all its registers.
pub open spec fn wf(s: State) -> bool {
    &&& machine::wf(s.cpu)
    &&& s.vsr.len() == 64
    &&& forall|i: int| 0 <= i < 64 ==> (#[trigger] s.vsr[i]).len() == 16
    &&& s.rest.len() == 8
}

// Bytes.

/// The power of 256.
pub open spec fn power256(j: int) -> int {
    if j == 0 {
        1
    } else if j == 1 {
        0x100
    } else if j == 2 {
        0x1_0000
    } else if j == 3 {
        0x100_0000
    } else if j == 4 {
        0x1_0000_0000
    } else if j == 5 {
        0x100_0000_0000
    } else if j == 6 {
        0x1_0000_0000_0000
    } else if j == 7 {
        0x100_0000_0000_0000
    } else {
        0x1_0000_0000_0000_0000
    }
}

/// A byte of a doubleword, counted from the least significant one.
pub open spec fn byte(x: u64, j: int) -> u8 {
    (x as int / power256(j) % 0x100) as u8
}

/// The low bytes of a doubleword, the least significant first.
pub open spec fn low_bytes(x: u64, n: nat) -> Seq<u8> {
    Seq::new(n, |j: int| byte(x, j))
}

/// A byte of a sequence, or zero behind its end.
pub open spec fn at(s: Seq<u8>, j: int) -> int {
    if j < s.len() {
        s[j] as int
    } else {
        0
    }
}

/// The number that bytes make, the least significant first.
pub open spec fn number(s: Seq<u8>) -> int {
    at(s, 0) + 0x100 * at(s, 1) + 0x1_0000 * at(s, 2) + 0x100_0000 * at(s, 3) + 0x1_0000_0000 * at(
        s,
        4,
    ) + 0x100_0000_0000 * at(s, 5) + 0x1_0000_0000_0000 * at(s, 6) + 0x100_0000_0000_0000 * at(s, 7)
}

/// The doubleword that bytes make, the least significant first.
pub open spec fn doubleword(s: Seq<u8>) -> u64 {
    number(s) as u64
}

/// A number without its lowest bytes, one byte at a time.
proof fn lemma_division_chain(x: int)
    requires
        0 <= x < machine::two64(),
    ensures
        x / 0x1_0000 == x / 0x100 / 0x100,
        x / 0x100_0000 == x / 0x1_0000 / 0x100,
        x / 0x1_0000_0000 == x / 0x100_0000 / 0x100,
        x / 0x100_0000_0000 == x / 0x1_0000_0000 / 0x100,
        x / 0x1_0000_0000_0000 == x / 0x100_0000_0000 / 0x100,
        x / 0x100_0000_0000_0000 == x / 0x1_0000_0000_0000 / 0x100,
        0 <= x / 0x100_0000_0000_0000 < 0x100,
{
    lemma_div_denominator(x, 0x100, 0x100);
    lemma_div_denominator(x, 0x1_0000, 0x100);
    lemma_div_denominator(x, 0x100_0000, 0x100);
    lemma_div_denominator(x, 0x1_0000_0000, 0x100);
    lemma_div_denominator(x, 0x100_0000_0000, 0x100);
    lemma_div_denominator(x, 0x1_0000_0000_0000, 0x100);
}

/// The lowest byte of a number, and the number without it.
proof fn lemma_lowest_byte(x: int, low: int, high: int)
    requires
        x == low + 0x100 * high,
        0 <= low < 0x100,
        0 <= high,
    ensures
        x / 0x100 == high,
        x % 0x100 == low,
{
}

/// The bytes of the doubleword that bytes make are these bytes.
pub proof fn lemma_byte_of_number(s: Seq<u8>)
    requires
        s.len() <= 8,
    ensures
        0 <= number(s) < machine::two64(),
        forall|j: int| 0 <= j < 8 ==> #[trigger] byte(doubleword(s), j) == at(s, j),
{
    let h7 = at(s, 7);
    let h6 = at(s, 6) + 0x100 * h7;
    let h5 = at(s, 5) + 0x100 * h6;
    let h4 = at(s, 4) + 0x100 * h5;
    let h3 = at(s, 3) + 0x100 * h4;
    let h2 = at(s, 2) + 0x100 * h3;
    let h1 = at(s, 1) + 0x100 * h2;
    let h0 = at(s, 0) + 0x100 * h1;
    assert(h0 == number(s));
    lemma_division_chain(h0);
    lemma_lowest_byte(h0, at(s, 0), h1);
    lemma_lowest_byte(h1, at(s, 1), h2);
    lemma_lowest_byte(h2, at(s, 2), h3);
    lemma_lowest_byte(h3, at(s, 3), h4);
    lemma_lowest_byte(h4, at(s, 4), h5);
    lemma_lowest_byte(h5, at(s, 5), h6);
    lemma_lowest_byte(h6, at(s, 6), h7);
    lemma_lowest_byte(h7, h7, 0);
    let x = doubleword(s);
    assert(x as int == h0);
    assert(byte(x, 0) == at(s, 0));
    assert(byte(x, 1) == at(s, 1));
    assert(byte(x, 2) == at(s, 2));
    assert(byte(x, 3) == at(s, 3));
    assert(byte(x, 4) == at(s, 4));
    assert(byte(x, 5) == at(s, 5));
    assert(byte(x, 6) == at(s, 6));
    assert(byte(x, 7) == at(s, 7));
    assert forall|j: int| 0 <= j < 8 implies #[trigger] byte(x, j) == at(s, j) by {
        assert(j == 0 || j == 1 || j == 2 || j == 3 || j == 4 || j == 5 || j == 6 || j == 7);
    }
}

/// The number that the low bytes of a doubleword make.
pub proof fn lemma_number_of_bytes(x: u64, n: nat)
    requires
        n == 1 || n == 2 || n == 4 || n == 8,
    ensures
        number(low_bytes(x, n)) == x as int % power256(n as int),
{
    let v = x as int;
    lemma_division_chain(v);
    let h1 = v / 0x100;
    let h2 = h1 / 0x100;
    let h3 = h2 / 0x100;
    let h4 = h3 / 0x100;
    let h5 = h4 / 0x100;
    let h6 = h5 / 0x100;
    let h7 = h6 / 0x100;
    assert(byte(x, 0) == v % 0x100);
    assert(byte(x, 1) == h1 % 0x100);
    assert(byte(x, 2) == h2 % 0x100);
    assert(byte(x, 3) == h3 % 0x100);
    assert(byte(x, 4) == h4 % 0x100);
    assert(byte(x, 5) == h5 % 0x100);
    assert(byte(x, 6) == h6 % 0x100);
    assert(byte(x, 7) == h7);
    let s = low_bytes(x, n);
    if n == 2 {
        assert(at(s, 0) == byte(x, 0) && at(s, 1) == byte(x, 1));
        assert(number(s) == v - 0x1_0000 * h2);
    } else if n == 4 {
        assert(at(s, 0) == byte(x, 0) && at(s, 1) == byte(x, 1));
        assert(at(s, 2) == byte(x, 2) && at(s, 3) == byte(x, 3));
        assert(number(s) == v - 0x1_0000_0000 * h4);
    } else if n == 8 {
        assert(at(s, 0) == byte(x, 0) && at(s, 1) == byte(x, 1));
        assert(at(s, 2) == byte(x, 2) && at(s, 3) == byte(x, 3));
        assert(at(s, 4) == byte(x, 4) && at(s, 5) == byte(x, 5));
        assert(at(s, 6) == byte(x, 6) && at(s, 7) == byte(x, 7));
        assert(number(s) == v);
    } else {
        assert(at(s, 0) == byte(x, 0));
        assert(number(s) == v % 0x100);
    }
}

// Memory.

/// So many bytes from an address on.
pub open spec fn load_bytes(mem: spec_fn(u64) -> u8, a: u64, n: nat) -> Seq<u8> {
    Seq::new(n, |i: int| mem(machine::wrap(a + i)))
}

/// How far an address lies behind another one.
pub open spec fn distance(a: u64, x: u64) -> int {
    (x - a) % machine::two64()
}

/// Memory with bytes written from an address on.
pub open spec fn store_bytes(mem: spec_fn(u64) -> u8, a: u64, s: Seq<u8>) -> spec_fn(u64) -> u8 {
    |x: u64|
        if distance(a, x) < s.len() {
            s[distance(a, x)]
        } else {
            mem(x)
        }
}

/// What is read back from inside a write.
pub proof fn lemma_load_inside(mem: spec_fn(u64) -> u8, a: u64, s: Seq<u8>, d: int, n: nat)
    requires
        0 <= d,
        d + n <= s.len() <= 16,
    ensures
        load_bytes(store_bytes(mem, a, s), machine::wrap(a + d), n) == s.subrange(d, d + n),
{
    let b = machine::wrap(a + d);
    assert forall|i: int| 0 <= i < n implies #[trigger] store_bytes(mem, a, s)(
        machine::wrap(b + i),
    ) == s[d + i] by {
        assert(distance(a, machine::wrap(b + i)) == d + i);
    }
    assert(load_bytes(store_bytes(mem, a, s), b, n) =~= s.subrange(d, d + n));
}

/// What is read back from around a write.
pub proof fn lemma_load_around(mem: spec_fn(u64) -> u8, a: u64, n: nat, d: int, t: Seq<u8>)
    requires
        0 <= d,
        d + t.len() <= n <= 16,
    ensures
        load_bytes(store_bytes(mem, machine::wrap(a + d), t), a, n) == load_bytes(
            mem,
            a,
            n,
        ).subrange(0, d) + t + load_bytes(mem, a, n).subrange(d + t.len(), n as int),
{
    let b = machine::wrap(a + d);
    let m2 = store_bytes(mem, b, t);
    let was = load_bytes(mem, a, n);
    assert forall|i: int| 0 <= i < n implies #[trigger] m2(machine::wrap(a + i)) == (if d <= i < d
        + t.len() {
        t[i - d]
    } else {
        mem(machine::wrap(a + i))
    }) by {
        if i >= d {
            assert(distance(b, machine::wrap(a + i)) == i - d);
        } else {
            assert(distance(b, machine::wrap(a + i)) == machine::two64() + i - d);
        }
    }
    assert(load_bytes(m2, a, n) =~= was.subrange(0, d) + t + was.subrange(d + t.len(), n as int));
}

// Fields of a word.

/// The extended opcode of a VX-form instruction.
pub open spec fn xo11(w: u32) -> u32 {
    w & 0x7FF
}

/// The extended opcode of an XX3-form instruction.
pub open spec fn xo8(w: u32) -> u32 {
    (w >> 3) & 0xFF
}

/// The first vector-scalar register.
pub open spec fn vt(w: u32) -> u32 {
    ((w >> 21) & 0x1F) | ((w & 1) << 5)
}

/// The second vector-scalar register.
pub open spec fn va(w: u32) -> u32 {
    ((w >> 16) & 0x1F) | (((w >> 2) & 1) << 5)
}

/// The third vector-scalar register.
pub open spec fn vb(w: u32) -> u32 {
    ((w >> 11) & 0x1F) | (((w >> 1) & 1) << 5)
}

/// The fields of an X-form word with a vector-scalar register.
pub proof fn law_vsx_x_fields(t: u32, a: u32, b: u32, xo: u32)
    requires
        t < 64,
        a < 32,
        b < 32,
        xo < 1024,
    ensures
        ({
            let w = encode::vsx_x_word(t, a, b, xo);
            &&& machine::opcd(w) == 31
            &&& vt(w) == t
            &&& machine::f2(w) == a
            &&& machine::f3(w) == b
            &&& machine::xo10(w) == xo
            &&& machine::xo5(w) == xo % 32
        }),
{
    assert({
        let w = (31u32 << 26) | ((t & 0x1F) << 21) | (a << 16) | (b << 11) | ((xo << 1) | (t >> 5));
        &&& w >> 26 == 31
        &&& ((w >> 21) & 0x1F) | ((w & 1) << 5) == t
        &&& (w >> 16) & 0x1F == a
        &&& (w >> 11) & 0x1F == b
        &&& (w >> 1) & 0x3FF == xo
        &&& (w >> 1) & 0x1F == xo % 32
    }) by (bit_vector)
        requires
            t < 64,
            a < 32,
            b < 32,
            xo < 1024,
    ;
}

/// The fields of an XX3-form word.
pub proof fn law_xx3_fields(t: u32, a: u32, b: u32, xo: u32)
    requires
        t < 64,
        a < 64,
        b < 64,
        xo < 256,
    ensures
        ({
            let w = encode::xx3_word(t, a, b, xo);
            &&& machine::opcd(w) == 60
            &&& vt(w) == t
            &&& va(w) == a
            &&& vb(w) == b
            &&& xo8(w) == xo
        }),
{
    assert({
        let w = (60u32 << 26) | ((t & 0x1F) << 21) | ((a & 0x1F) << 16) | ((b & 0x1F) << 11) | ((xo
            << 3) | ((a >> 5) << 2) | ((b >> 5) << 1) | (t >> 5));
        &&& w >> 26 == 60
        &&& ((w >> 21) & 0x1F) | ((w & 1) << 5) == t
        &&& ((w >> 16) & 0x1F) | (((w >> 2) & 1) << 5) == a
        &&& ((w >> 11) & 0x1F) | (((w >> 1) & 1) << 5) == b
        &&& (w >> 3) & 0xFF == xo
    }) by (bit_vector)
        requires
            t < 64,
            a < 64,
            b < 64,
            xo < 256,
    ;
}

/// The fields of `xxpermdi`.
pub proof fn law_xxpermdi_fields(t: u32, a: u32, b: u32, dm: u32)
    requires
        t < 64,
        a < 64,
        b < 64,
        dm < 4,
    ensures
        ({
            let w = mnem::xxpermdi(t, a, b, dm);
            &&& machine::opcd(w) == 60
            &&& vt(w) == t
            &&& va(w) == a
            &&& vb(w) == b
            &&& xo8(w) == 10 + 32 * dm
        }),
{
    assert((dm << 5) | 10 == 10 + 32 * dm && (dm << 5) | 10 < 256) by (bit_vector)
        requires
            dm < 4,
    ;
    law_xx3_fields(t, a, b, (dm << 5) | 10);
}

/// The fields of a VX-form word.
pub proof fn law_vx_fields(a: u32, b: u32, c: u32, xo: u32)
    requires
        a < 32,
        b < 32,
        c < 32,
        xo < 2048,
    ensures
        ({
            let w = mnem::vx(a, b, c, xo);
            &&& machine::opcd(w) == 4
            &&& machine::f1(w) == a
            &&& machine::f2(w) == b
            &&& machine::f3(w) == c
            &&& xo11(w) == xo
        }),
{
    assert({
        let w = (4u32 << 26) | (a << 21) | (b << 16) | (c << 11) | xo;
        &&& w >> 26 == 4
        &&& (w >> 21) & 0x1F == a
        &&& (w >> 16) & 0x1F == b
        &&& (w >> 11) & 0x1F == c
        &&& w & 0x7FF == xo
    }) by (bit_vector)
        requires
            a < 32,
            b < 32,
            c < 32,
            xo < 2048,
    ;
}

// Instructions.

/// The state with a general-purpose register written.
pub open spec fn set_gpr(s: State, n: u32, v: u64) -> State {
    State { cpu: machine::set(s.cpu, n, v), ..s }
}

/// The state with a vector-scalar register written.
pub open spec fn set_vsr(s: State, n: u32, v: Seq<u8>) -> State {
    State { vsr: s.vsr.update(n as int, v), ..s }
}

/// The state with bytes written to memory.
pub open spec fn write(s: State, a: u64, v: Seq<u8>) -> State {
    State { mem: store_bytes(s.mem, a, v), ..s }
}

/// The address that an access goes to.
pub open spec fn effective_address(m: Machine, w: u32) -> u64 {
    if machine::opcd(w) == 31 {
        machine::wrap(machine::base(m, machine::f2(w)) + m.gpr[machine::f3(w) as int])
    } else if machine::opcd(w) == 58 || machine::opcd(w) == 62 {
        machine::wrap(
            machine::base(m, machine::f2(w)) + machine::signed16(machine::low16(w) & 0xFFFC),
        )
    } else {
        machine::wrap(machine::base(m, machine::f2(w)) + machine::signed16(machine::low16(w)))
    }
}

/// The bytes that a zero-extending load of a general-purpose register reads.
pub open spec fn load_width(w: u32) -> Option<nat> {
    let o = machine::opcd(w);
    let xo = machine::xo10(w);
    if o == 34 || (o == 31 && xo == 87) {
        // lbz, lbzx
        Some(1)
    } else if o == 40 || (o == 31 && xo == 279) {
        // lhz, lhzx
        Some(2)
    } else if o == 32 || (o == 31 && xo == 23) {
        // lwz, lwzx
        Some(4)
    } else if (o == 58 && w & 3 == 0) || (o == 31 && xo == 21) {
        // ld, ldx
        Some(8)
    } else {
        None
    }
}

/// The bytes that a byte-reversing load reads.
pub open spec fn reversing_width(w: u32) -> Option<nat> {
    let xo = machine::xo10(w);
    if machine::opcd(w) != 31 {
        None
    } else if xo == 790 {
        // lhbrx
        Some(2)
    } else if xo == 534 {
        // lwbrx
        Some(4)
    } else if xo == 532 {
        // ldbrx
        Some(8)
    } else {
        None
    }
}

/// The bytes that a store of a general-purpose register writes.
pub open spec fn store_width(w: u32) -> Option<nat> {
    let o = machine::opcd(w);
    let xo = machine::xo10(w);
    if o == 38 || (o == 31 && xo == 215) {
        // stb, stbx
        Some(1)
    } else if o == 44 || (o == 31 && xo == 407) {
        // sth, sthx
        Some(2)
    } else if o == 36 || (o == 31 && xo == 151) {
        // stw, stwx
        Some(4)
    } else if (o == 62 && w & 3 == 0) || (o == 31 && xo == 149) {
        // std, stdx
        Some(8)
    } else {
        None
    }
}

/// Whether the word is a load of a double: `lfd`, `lfdx`.
pub open spec fn loads_double(w: u32) -> bool {
    machine::opcd(w) == 50 || (machine::opcd(w) == 31 && machine::xo10(w) == 599)
}

/// Whether the word is a store of a double: `stfd`, `stfdx`.
pub open spec fn stores_double(w: u32) -> bool {
    machine::opcd(w) == 54 || (machine::opcd(w) == 31 && machine::xo10(w) == 727)
}

/// Bytes in the other order.
pub open spec fn reversed(v: Seq<u8>) -> Seq<u8> {
    Seq::new(v.len(), |i: int| v[v.len() - 1 - i])
}

/// The first half of a vector-scalar register, as a number.
pub open spec fn first_half(v: Seq<u8>) -> u64 {
    doubleword(reversed(v.subrange(0, 8)))
}

/// The halves of a vector-scalar register the other way round.
pub open spec fn swapped(v: Seq<u8>) -> Seq<u8> {
    v.subrange(8, 16) + v.subrange(0, 8)
}

/// One of the two halves of a vector-scalar register.
pub open spec fn half(v: Seq<u8>, second: bool) -> Seq<u8> {
    if second {
        v.subrange(8, 16)
    } else {
        v.subrange(0, 8)
    }
}

/// The element of so many bytes at an index, counted from the most significant
/// one, in every place.
pub open spec fn splat(v: Seq<u8>, n: nat, k: int) -> Seq<u8> {
    Seq::new(16, |i: int| v[k * n + i % (n as int)])
}

/// Whether elements of so many bytes at an index are equal.
pub open spec fn element_equal(a: Seq<u8>, b: Seq<u8>, n: nat, k: int) -> bool {
    forall|j: int| k * n <= j < (k + 1) * n ==> #[trigger] a[j] == b[j]
}

/// The state after a recording compare of elements: every byte of an element that
/// is equal becomes all ones, and of one that is not zero.
pub open spec fn compared_elements(s: State, t: u32, a: Seq<u8>, b: Seq<u8>, n: nat) -> State {
    State {
        every: forall|k: int| 0 <= k && (k + 1) * n <= 16 ==> #[trigger] element_equal(a, b, n, k),
        none: forall|k: int| 0 <= k && (k + 1) * n <= 16 ==> !(#[trigger] element_equal(
            a,
            b,
            n,
            k,
        )),
        ..set_vsr(
            s,
            t,
            Seq::new(
                16,
                |i: int|
                    if element_equal(a, b, n, i / (n as int)) {
                        0xFFu8
                    } else {
                        0u8
                    },
            ),
        )
    }
}

/// The bytes that a logical operation makes of two.
pub open spec fn logical_byte(xo: u32, x: u8, y: u8) -> Option<u8> {
    if xo == 130 {
        // xxland
        Some(x & y)
    } else if xo == 146 {
        // xxlor
        Some(x | y)
    } else if xo == 154 {
        // xxlxor
        Some(x ^ y)
    } else if xo == 162 {
        // xxlnor
        Some(!(x | y))
    } else if xo == 138 {
        // xxlandc
        Some(x & !y)
    } else {
        None
    }
}

/// The state after an indexed access or move of a vector-scalar register; nothing
/// where the instruction is not one of these.
pub open spec fn step_vsx(s: State, w: u32) -> Option<State> {
    let ea = effective_address(s.cpu, w);
    let t = vt(w);
    let v = s.vsr[t as int];
    let xo = machine::xo10(w);
    if xo == 51 {
        // mfvsrd
        Some(set_gpr(s, machine::f2(w), first_half(v)))
    } else if xo == 179 {
        // mtvsrd
        Some(
            set_vsr(
                s,
                t,
                reversed(low_bytes(s.cpu.gpr[machine::f2(w) as int], 8)) + s.rest,
            ),
        )
    } else if xo == 268 {
        // lxvx
        Some(set_vsr(s, t, reversed(load_bytes(s.mem, ea, 16))))
    } else if xo == 844 {
        // lxvd2x, which reads each doubleword by itself
        Some(
            set_vsr(
                s,
                t,
                reversed(load_bytes(s.mem, ea, 8)) + reversed(
                    load_bytes(s.mem, machine::wrap(ea + 8), 8),
                ),
            ),
        )
    } else if xo == 396 {
        // stxvx
        Some(write(s, ea, reversed(v)))
    } else if xo == 588 {
        // lxsdx
        Some(set_vsr(s, t, reversed(load_bytes(s.mem, ea, 8)) + s.rest))
    } else if xo == 716 {
        // stxsdx
        Some(write(s, ea, reversed(v.subrange(0, 8))))
    } else if xo == 972 {
        // stxvd2x, which writes each doubleword by itself
        Some(
            write(
                write(s, ea, reversed(v.subrange(0, 8))),
                machine::wrap(ea + 8),
                reversed(v.subrange(8, 16)),
            ),
        )
    } else {
        None
    }
}

/// The state after a VX-form instruction; nothing where it is not known here.
pub open spec fn step_vx(s: State, w: u32) -> Option<State> {
    let t = (32 + machine::f1(w)) as u32;
    let a = s.vsr[32 + machine::f2(w)];
    let b = s.vsr[32 + machine::f3(w)];
    let uim = machine::f2(w) as int;
    if xo11(w) == 524 && uim < 16 {
        // vspltb
        Some(set_vsr(s, t, splat(b, 1, uim)))
    } else if xo11(w) == 588 && uim < 8 {
        // vsplth
        Some(set_vsr(s, t, splat(b, 2, uim)))
    } else if xo11(w) == 652 && uim < 4 {
        // vspltw
        Some(set_vsr(s, t, splat(b, 4, uim)))
    } else if xo11(w) == 1030 {
        // vcmpequb.
        Some(compared_elements(s, t, a, b, 1))
    } else if xo11(w) == 1094 {
        // vcmpequh.
        Some(compared_elements(s, t, a, b, 2))
    } else if xo11(w) == 1158 {
        // vcmpequw.
        Some(compared_elements(s, t, a, b, 4))
    } else if xo11(w) == 1223 {
        // vcmpequd.
        Some(compared_elements(s, t, a, b, 8))
    } else {
        None
    }
}

/// The state after an XX3-form instruction; nothing where it is not known here.
pub open spec fn step_xx3(s: State, w: u32) -> Option<State> {
    let t = vt(w);
    let a = s.vsr[va(w) as int];
    let b = s.vsr[vb(w) as int];
    let xo = xo8(w);
    if xo == 10 || xo == 42 || xo == 74 || xo == 106 {
        // xxpermdi
        Some(set_vsr(s, t, half(a, xo >= 74) + half(b, xo == 42 || xo == 106)))
    } else if logical_byte(xo, 0, 0) is Some {
        Some(set_vsr(s, t, Seq::new(16, |i: int| logical_byte(xo, a[i], b[i])->0)))
    } else {
        None
    }
}

/// Whether the word is an indexed access or move of a vector-scalar register.
pub open spec fn is_vsx(w: u32) -> bool {
    let xo = machine::xo10(w);
    machine::opcd(w) == 31 && (xo == 51 || xo == 179 || xo == 268 || xo == 844 || xo == 396 || xo
        == 972 || xo == 588 || xo == 716)
}

/// Whether the word is an `isel` on a bit that a recording vector compare sets.
pub open spec fn selects_by_lanes(w: u32) -> bool {
    machine::opcd(w) == 31 && machine::xo5(w) == 15 && (machine::f4(w) == 24 || machine::f4(w)
        == 26)
}

/// The state after an instruction that is not a branch; nothing where the hardware
/// leaves the result undefined or the instruction is not known here.
#[verifier::opaque]
pub open spec fn step(s: State, w: u32) -> Option<State> {
    let ea = effective_address(s.cpu, w);
    let r = machine::f1(w);
    if load_width(w) is Some {
        Some(set_gpr(s, r, doubleword(load_bytes(s.mem, ea, load_width(w)->0))))
    } else if reversing_width(w) is Some {
        Some(set_gpr(s, r, doubleword(reversed(load_bytes(s.mem, ea, reversing_width(w)->0)))))
    } else if store_width(w) is Some {
        Some(write(s, ea, low_bytes(s.cpu.gpr[r as int], store_width(w)->0)))
    } else if loads_double(w) {
        Some(set_vsr(s, r, reversed(load_bytes(s.mem, ea, 8)) + s.rest))
    } else if stores_double(w) {
        Some(write(s, ea, reversed(s.vsr[r as int].subrange(0, 8))))
    } else if is_vsx(w) {
        step_vsx(s, w)
    } else if machine::opcd(w) == 4 {
        step_vx(s, w)
    } else if machine::opcd(w) == 60 {
        step_xx3(s, w)
    } else if machine::opcd(w) == 63 && machine::xo10(w) == 72 {
        // fmr
        Some(set_vsr(s, r, s.vsr[machine::f3(w) as int].subrange(0, 8) + s.rest))
    } else if selects_by_lanes(w) {
        let c = if machine::f4(w) == 24 {
            s.every
        } else {
            s.none
        };
        Some(
            set_gpr(
                s,
                r,
                if c {
                    machine::base(s.cpu, machine::f2(w))
                } else {
                    s.cpu.gpr[machine::f3(w) as int]
                },
            ),
        )
    } else {
        match machine::step(s.cpu, w) {
            Some(cpu) => Some(State { cpu, ..s }),
            None => None,
        }
    }
}

/// The state after words that are not branches, in order.
pub open spec fn run_words(s: State, ws: Seq<u32>) -> Option<State>
    decreases ws.len(),
{
    if ws.len() == 0 {
        Some(s)
    } else {
        match run_words(s, ws.drop_last()) {
            Some(t) => step(t, ws.last()),
            None => None,
        }
    }
}

/// Running one more word.
pub proof fn lemma_run_push(s: State, ws: Seq<u32>, w: u32)
    ensures
        run_words(s, ws + seq![w]) == (match run_words(s, ws) {
            Some(t) => step(t, w),
            None => None,
        }),
{
    assert((ws + seq![w]).drop_last() =~= ws);
    assert((ws + seq![w]).last() == w);
}

} // verus!
