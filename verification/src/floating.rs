//! What floating-point instructions do, by their words, and how code with short
//! branches runs.
//!
//! Numbers are doubles by their bits. What arithmetic makes of them is a parameter:
//! the laws hold whatever it is.
use vstd::prelude::*;
use crate::buffer::{Emission, MachLabel};
use crate::encode::TRAP_INSTRUCTION;
use crate::ir::{FloatOrder, TrapCode};
use crate::laws_flow;
use crate::machine;
use crate::machine::{Cr, Machine};
use crate::memory;
use crate::memory::State;
use crate::mnem;

verus! {

/// What the hardware makes of doubles.
pub struct Arithmetic {
    /// How two numbers compare.
    pub order: spec_fn(u64, u64) -> FloatOrder,
    /// A number as an integer, signed or not, of a doubleword or a word: truncated,
    /// and saturated where it is out of range.
    pub convert: spec_fn(bool, bool, u64) -> u64,
    /// The lesser of two numbers.
    pub least: spec_fn(u64, u64) -> u64,
    /// The greater of two numbers.
    pub greatest: spec_fn(u64, u64) -> u64,
    /// The sum of two numbers, rounded to a single where that is asked for.
    pub sum: spec_fn(bool, u64, u64) -> u64,
    /// The first number less the second one, rounded likewise.
    pub difference: spec_fn(bool, u64, u64) -> u64,
    /// The product of two numbers, rounded likewise.
    pub product: spec_fn(bool, u64, u64) -> u64,
    /// The first number divided by the second one, rounded likewise.
    pub quotient: spec_fn(bool, u64, u64) -> u64,
    /// The product of the first two numbers plus the third one, rounded once.
    pub fused: spec_fn(bool, u64, u64, u64) -> u64,
    /// The square root of a number, rounded likewise.
    pub root: spec_fn(bool, u64) -> u64,
    /// The number nearest to an integer, rounded likewise.
    pub nearest: spec_fn(bool, int) -> u64,
    /// A number rounded to a single.
    pub narrowed: spec_fn(u64) -> u64,
    /// A number rounded to an integral one.
    pub integral: spec_fn(Rounding, u64) -> u64,
    /// The register with the bits of a number as a single.
    pub to_single: spec_fn(u64) -> u64,
    /// The number of the single in a register.
    pub from_single: spec_fn(u64) -> u64,
}

/// Which way numbers are rounded to integral ones.
pub enum Rounding {
    Down,
    Up,
    TowardZero,
    /// By the current mode, which is to the nearest one, ties to even.
    Current,
}

/// The number of values below the sign of a double.
pub open spec fn two63() -> u64 {
    0x8000_0000_0000_0000
}

/// A number with its sign changed.
pub open spec fn negated(x: u64) -> u64 {
    if x >= two63() {
        (x - two63()) as u64
    } else {
        (x + two63()) as u64
    }
}

/// A number without its sign.
pub open spec fn unsigned(x: u64) -> u64 {
    if x >= two63() {
        (x - two63()) as u64
    } else {
        x
    }
}

/// The second number with the sign of the first one.
pub open spec fn signed_like(x: u64, y: u64) -> u64 {
    if x >= two63() {
        (unsigned(y) + two63()) as u64
    } else {
        unsigned(y)
    }
}

/// The number in a floating-point register.
pub open spec fn fpr(s: State, n: u32) -> u64 {
    memory::first_half(s.vsr[n as int])
}

/// The state with a floating-point register written.
pub open spec fn set_fpr(s: State, n: u32, x: u64) -> State {
    memory::set_vsr(s, n, memory::reversed(memory::low_bytes(x, 8)) + s.rest)
}

/// What is read of a floating-point register that was written.
pub proof fn lemma_fpr(s: State, n: u32, x: u64)
    requires
        memory::wf(s),
        n < 32,
    ensures
        fpr(set_fpr(s, n, x), n) == x,
        memory::wf(set_fpr(s, n, x)),
        forall|k: u32| k < 32 && k != n ==> #[trigger] fpr(set_fpr(s, n, x), k) == fpr(s, k),
{
    let low = memory::low_bytes(x, 8);
    let v = memory::reversed(low) + s.rest;
    assert(memory::reversed(v.subrange(0, 8)) =~= low);
    memory::lemma_number_of_bytes(x, 8);
}

/// The condition field after a compare with an outcome.
pub open spec fn field_of(o: FloatOrder) -> Cr {
    Cr {
        lt: o == FloatOrder::Less,
        gt: o == FloatOrder::Greater,
        eq: o == FloatOrder::Equal,
        un: o == FloatOrder::Unordered,
    }
}

/// A condition field with one bit written.
pub open spec fn with_bit(c: Cr, bit: u32, v: bool) -> Cr {
    if bit == 0 {
        Cr { lt: v, ..c }
    } else if bit == 1 {
        Cr { gt: v, ..c }
    } else if bit == 2 {
        Cr { eq: v, ..c }
    } else {
        Cr { un: v, ..c }
    }
}

/// Whether a word is one of the conversions to an integer: `fctidz`, `fctiduz`,
/// `fctiwz`, `fctiwuz`.
pub open spec fn is_conversion(w: u32) -> bool {
    let xo = machine::xo10(w);
    machine::opcd(w) == 63 && (xo == 815 || xo == 943 || xo == 15 || xo == 143)
}

/// The extended opcode of an XX2-form instruction.
pub open spec fn xo9(w: u32) -> u32 {
    (w >> 2) & 0x1FF
}

/// Whether a word is floating-point arithmetic of the A-form.
pub open spec fn is_arithmetic(w: u32) -> bool {
    (machine::opcd(w) == 59 || machine::opcd(w) == 63) && machine::xo5(w) >= 16
}

/// What floating-point arithmetic of the A-form makes of its operands. The primary opcode
/// tells the precision.
pub open spec fn arithmetic(f: Arithmetic, s: State, w: u32) -> Option<u64> {
    let single = machine::opcd(w) == 59;
    let xo = machine::xo5(w);
    let a = fpr(s, machine::f2(w));
    let b = fpr(s, machine::f3(w));
    let c = fpr(s, machine::f4(w));
    if xo == 18 {
        // fdiv
        Some((f.quotient)(single, a, b))
    } else if xo == 20 {
        // fsub
        Some((f.difference)(single, a, b))
    } else if xo == 21 {
        // fadd
        Some((f.sum)(single, a, b))
    } else if xo == 22 {
        // fsqrt
        Some((f.root)(single, b))
    } else if xo == 25 {
        // fmul
        Some((f.product)(single, a, c))
    } else if xo == 29 {
        // fmadd
        Some((f.fused)(single, a, c, b))
    } else {
        None
    }
}

/// What the other operations on floating-point registers make of their operands.
pub open spec fn operation(f: Arithmetic, s: State, w: u32) -> Option<u64> {
    let o = machine::opcd(w);
    let xo = machine::xo10(w);
    let a = fpr(s, machine::f2(w));
    let b = fpr(s, machine::f3(w));
    if (o == 59 || o == 63) && xo == 846 {
        // fcfid, fcfids
        Some((f.nearest)(o == 59, machine::signed64(b)))
    } else if (o == 59 || o == 63) && xo == 974 {
        // fcfidu, fcfidus
        Some((f.nearest)(o == 59, b as int))
    } else if o == 63 && xo == 40 {
        // fneg
        Some(negated(b))
    } else if o == 63 && xo == 264 {
        // fabs
        Some(unsigned(b))
    } else if o == 63 && xo == 8 {
        // fcpsgn
        Some(signed_like(a, b))
    } else if o == 63 && xo == 12 {
        // frsp
        Some((f.narrowed)(b))
    } else if o == 63 && xo == 488 {
        // frim
        Some((f.integral)(Rounding::Down, b))
    } else if o == 63 && xo == 456 {
        // frip
        Some((f.integral)(Rounding::Up, b))
    } else if o == 63 && xo == 424 {
        // friz
        Some((f.integral)(Rounding::TowardZero, b))
    } else if o == 60 && xo9(w) == 107 {
        // xsrdpic
        Some((f.integral)(Rounding::Current, b))
    } else if o == 60 && xo9(w) == 267 {
        // xscvdpspn
        Some((f.to_single)(b))
    } else if o == 60 && xo9(w) == 331 {
        // xscvspdpn
        Some((f.from_single)(b))
    } else {
        None
    }
}

/// The state after an instruction that is not a branch; nothing where it is not
/// known here.
#[verifier::opaque]
pub open spec fn step(f: Arithmetic, s: State, w: u32) -> Option<State> {
    let o = machine::opcd(w);
    let xo = machine::xo10(w);
    let t = machine::f1(w);
    let a = fpr(s, machine::f2(w));
    let b = fpr(s, machine::f3(w));
    if is_arithmetic(w) {
        match arithmetic(f, s, w) {
            Some(x) => Some(set_fpr(s, t, x)),
            None => None,
        }
    } else if operation(f, s, w) is Some {
        Some(set_fpr(s, t, operation(f, s, w)->0))
    } else if o == 63 && xo == 0 && t == 0 {
        // fcmpu, into the first field
        Some(State { cpu: Machine { cr0: field_of((f.order)(a, b)), ..s.cpu }, ..s })
    } else if o == 19 && xo == 449 && t < 4 {
        // cror, within the first field
        let v = machine::cr_bit(s.cpu, machine::f2(w)) || machine::cr_bit(s.cpu, machine::f3(w));
        Some(State { cpu: Machine { cr0: with_bit(s.cpu.cr0, t, v), ..s.cpu }, ..s })
    } else if is_conversion(w) {
        Some(set_fpr(s, t, (f.convert)(xo == 815 || xo == 15, xo == 815 || xo == 943, b)))
    } else if o == 60 && memory::xo8(w) == 160 {
        // xsmaxdp
        Some(set_fpr(s, t, (f.greatest)(a, b)))
    } else if o == 60 && memory::xo8(w) == 168 {
        // xsmindp
        Some(set_fpr(s, t, (f.least)(a, b)))
    } else {
        memory::step(s, w)
    }
}

/// How a run of emitted code ends.
pub enum Outcome {
    /// At the end of the log.
    Done { s: State },
    /// With a trap.
    Trapped { code: TrapCode },
    /// At a label that is not bound in the log.
    Jumped { label: MachLabel, s: State },
    /// At something that the hardware leaves undefined or that is not known here.
    Stuck,
}

/// The position so many words further on. What is not code takes no room.
pub open spec fn skip(ops: Seq<Emission>, pc: int, n: nat) -> int
    decreases ops.len() - pc,
{
    if n == 0 || pc < 0 || pc >= ops.len() {
        pc
    } else if ops[pc] is Word {
        skip(ops, pc + 1, (n - 1) as nat)
    } else {
        skip(ops, pc + 1, n)
    }
}

/// Run emitted code from a position. Branches go forward: by a distance, or to a
/// label that is not bound here.
pub open spec fn run(f: Arithmetic, ops: Seq<Emission>, pc: int, s: State) -> Outcome
    decreases ops.len() - pc,
{
    if pc < 0 {
        Outcome::Stuck
    } else if pc >= ops.len() {
        Outcome::Done { s }
    } else {
        match ops[pc] {
            Emission::Word(w) => if laws_flow::is_branch(w) {
                let to = skip(ops, pc, (machine::low16(w) / 4) as nat);
                if !laws_flow::is_taken(s.cpu, w) {
                    run(f, ops, pc + 1, s)
                } else if pc < to <= ops.len() {
                    run(f, ops, to, s)
                } else {
                    Outcome::Stuck
                }
            } else {
                match step(f, s, w) {
                    Some(t) => run(f, ops, pc + 1, t),
                    None => Outcome::Stuck,
                }
            },
            Emission::Trap { code } => if pc + 1 < ops.len() && ops[pc + 1] == Emission::Word(
                TRAP_INSTRUCTION,
            ) {
                Outcome::Trapped { code }
            } else {
                Outcome::Stuck
            },
            Emission::UseLabel { label, kind } => {
                let at = laws_flow::branch_at(ops, pc);
                if at >= ops.len() {
                    Outcome::Stuck
                } else {
                    match ops[at] {
                        Emission::Word(w) => if !laws_flow::is_branch(w) {
                            Outcome::Stuck
                        } else if laws_flow::is_taken(s.cpu, w) {
                            Outcome::Jumped { label, s }
                        } else {
                            run(f, ops, at + 1, s)
                        },
                        _ => Outcome::Stuck,
                    }
                }
            },
            _ => Outcome::Stuck,
        }
    }
}

// Single instructions.

/// A word of another unit does what it does there.
pub proof fn lemma_lift(f: Arithmetic, s: State, w: u32)
    requires
        machine::opcd(w) != 63,
        machine::opcd(w) != 59,
        machine::opcd(w) != 19,
        machine::opcd(w) != 60,
    ensures
        step(f, s, w) == memory::step(s, w),
{
    reveal(step);
}

/// The fields of the moves between a general-purpose and a floating-point register,
/// and of a VSX instruction on floating-point registers.
proof fn lemma_fp_fields(t: u32, a: u32, b: u32, xo: u32, x9: u32)
    by (bit_vector)
    requires
        t < 32,
        a < 32,
        b < 32,
        xo < 256,
        x9 < 512,
    ensures
        ({
            let z = (60u32 << 26) | (t << 21) | (0u32 << 16) | (b << 11) | (x9 << 2);
            &&& z >> 26 == 60
            &&& (z >> 21) & 0x1F == t
            &&& (z >> 11) & 0x1F == b
            &&& (z >> 2) & 0x1FF == x9
        }),
        ({
            let w = (31u32 << 26) | (t << 21) | (a << 16) | (51u32 << 1);
            let x = (31u32 << 26) | (t << 21) | (a << 16) | (179u32 << 1);
            let y = (60u32 << 26) | (t << 21) | (a << 16) | (b << 11) | (xo << 3);
            &&& w >> 26 == 31
            &&& ((w >> 21) & 0x1F) | ((w & 1) << 5) == t
            &&& (w >> 16) & 0x1F == a
            &&& (w >> 1) & 0x3FF == 51
            &&& x >> 26 == 31
            &&& ((x >> 21) & 0x1F) | ((x & 1) << 5) == t
            &&& (x >> 16) & 0x1F == a
            &&& (x >> 1) & 0x3FF == 179
            &&& y >> 26 == 60
            &&& (y >> 21) & 0x1F == t
            &&& (y >> 16) & 0x1F == a
            &&& (y >> 11) & 0x1F == b
            &&& (y >> 3) & 0xFF == xo
            &&& (y >> 2) & 0x1FF == 2 * xo
        }),
{
}

/// `mfvsrd` and `mtvsrd` on floating-point registers.
pub proof fn lemma_moves(f: Arithmetic, s: State, r: u32, n: u32)
    requires
        memory::wf(s),
        r < 32,
        n < 32,
    ensures
        step(f, s, mnem::mfvsrd_f(r, n)) == Some(memory::set_gpr(s, r, fpr(s, n))),
        step(f, s, mnem::mtvsrd_f(n, r)) == Some(set_fpr(s, n, s.cpu.gpr[r as int])),
        !laws_flow::is_branch(mnem::mfvsrd_f(r, n)),
        !laws_flow::is_branch(mnem::mtvsrd_f(n, r)),
{
    lemma_fp_fields(n, r, 0, 0, 0);
    lemma_lift(f, s, mnem::mfvsrd_f(r, n));
    lemma_lift(f, s, mnem::mtvsrd_f(n, r));
    reveal(memory::step);
}

/// `fcmpu` into the first condition field.
pub proof fn lemma_compare_fp(f: Arithmetic, s: State, a: u32, b: u32)
    requires
        a < 32,
        b < 32,
    ensures
        step(f, s, mnem::compare_fp(a, b)) == Some(
            State {
                cpu: Machine { cr0: field_of((f.order)(fpr(s, a), fpr(s, b))), ..s.cpu },
                ..s
            },
        ),
        !laws_flow::is_branch(mnem::compare_fp(a, b)),
{
    machine::law_x_fields(63, 0, a, b, 0);
    reveal(step);
}

/// `cror` within the first condition field.
pub proof fn lemma_cror(f: Arithmetic, s: State, t: u32, a: u32, b: u32)
    requires
        t < 4,
        a < 4,
        b < 4,
    ensures
        step(f, s, mnem::cror(t, a, b)) == Some(
            State {
                cpu: Machine {
                    cr0: with_bit(
                        s.cpu.cr0,
                        t,
                        machine::cr_bit(s.cpu, a) || machine::cr_bit(s.cpu, b),
                    ),
                    ..s.cpu
                },
                ..s
            },
        ),
        !laws_flow::is_branch(mnem::cror(t, a, b)),
{
    machine::law_x_fields(19, t, a, b, 449);
    reveal(step);
}

/// The minimum and the maximum.
pub proof fn lemma_extremes(f: Arithmetic, s: State, t: u32, a: u32, b: u32)
    requires
        t < 32,
        a < 32,
        b < 32,
    ensures
        step(f, s, mnem::fp_xx3(t, a, b, 160)) == Some(
            set_fpr(s, t, (f.greatest)(fpr(s, a), fpr(s, b))),
        ),
        step(f, s, mnem::fp_xx3(t, a, b, 168)) == Some(
            set_fpr(s, t, (f.least)(fpr(s, a), fpr(s, b))),
        ),
        !laws_flow::is_branch(mnem::fp_xx3(t, a, b, 160)),
        !laws_flow::is_branch(mnem::fp_xx3(t, a, b, 168)),
{
    lemma_fp_fields(t, a, b, 160, 0);
    lemma_fp_fields(t, a, b, 168, 0);
    reveal(step);
}

/// `fadd`.
pub proof fn lemma_fadd(f: Arithmetic, s: State, t: u32, a: u32, b: u32)
    requires
        t < 32,
        a < 32,
        b < 32,
    ensures
        step(f, s, mnem::fadd(t, a, b)) == Some(set_fpr(s, t, (f.sum)(false, fpr(s, a), fpr(s, b)))),
        !laws_flow::is_branch(mnem::fadd(t, a, b)),
{
    lemma_no_multiplier();
    machine::law_x_fields(63, t, a, b, 21);
    machine::law_a_fields(63, t, a, b, 0, 21);
    reveal(step);
}

/// An A-form word with no third operand is an X-form word.
proof fn lemma_no_multiplier()
    by (bit_vector)
    ensures
        (0u32 << 6) | (21u32 << 1) == 21u32 << 1,
{
}

/// Floating-point arithmetic.
pub proof fn lemma_arithmetic(f: Arithmetic, s: State, single: bool, t: u32, a: u32, b: u32, c: u32, xo: u32)
    requires
        t < 32,
        a < 32,
        b < 32,
        c < 32,
        16 <= xo < 32,
    ensures
        ({
            let o = if single {
                59u32
            } else {
                63
            };
            let w = mnem::fp_a(o, t, a, b, c, xo);
            &&& !laws_flow::is_branch(w)
            &&& machine::f1(w) == t
            &&& machine::f2(w) == a
            &&& machine::f3(w) == b
            &&& machine::f4(w) == c
            &&& machine::xo5(w) == xo
            &&& machine::opcd(w) == o
            &&& step(f, s, w) == (match arithmetic(f, s, w) {
                Some(x) => Some(set_fpr(s, t, x)),
                None => None,
            })
        }),
{
    let o = if single {
        59u32
    } else {
        63
    };
    machine::law_a_fields(o, t, a, b, c, xo);
    reveal(step);
}

/// The other operations, by X-form words.
pub proof fn lemma_operation(f: Arithmetic, s: State, o: u32, t: u32, a: u32, b: u32, xo: u32)
    requires
        o == 59 || o == 63,
        t < 32,
        a < 32,
        b < 32,
        xo < 1024,
        xo % 32 < 16,
    ensures
        ({
            let w = mnem::fp_x(o, t, a, b, xo);
            &&& !laws_flow::is_branch(w)
            &&& machine::opcd(w) == o
            &&& machine::f2(w) == a
            &&& machine::f3(w) == b
            &&& machine::xo10(w) == xo
            &&& operation(f, s, w) matches Some(x) ==> step(f, s, w) == Some(set_fpr(s, t, x))
        }),
{
    machine::law_x_fields(o, t, a, b, xo);
    reveal(step);
}

/// The other operations, by XX2-form words.
pub proof fn lemma_operation2(f: Arithmetic, s: State, t: u32, b: u32, xo: u32)
    requires
        t < 32,
        b < 32,
        xo < 512,
    ensures
        ({
            let w = mnem::fp_xx2(t, b, xo);
            &&& !laws_flow::is_branch(w)
            &&& machine::opcd(w) == 60
            &&& machine::f3(w) == b
            &&& xo9(w) == xo
            &&& operation(f, s, w) matches Some(x) ==> step(f, s, w) == Some(set_fpr(s, t, x))
        }),
{
    lemma_fp_fields(t, 0, b, 0, xo);
    reveal(step);
}

} // verus!
