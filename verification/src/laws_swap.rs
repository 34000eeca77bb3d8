//! What the loops of atomic accesses do to memory.
use vstd::prelude::*;
use crate::args::CR0_EQ;
use crate::buffer::{BufferView, Emission, MachLabel};
use crate::emit;
use crate::emit::{EmitInfo, EmitState};
use crate::emit_atomic;
use crate::encode::{ISYNC, SYNC};
use crate::inst::Inst;
use crate::ir::{AtomicRmwOp, Type};
use crate::label_use::LabelUse;
use crate::laws_atomic;
use crate::laws_flow;
use crate::machine;
use crate::machine::{Cr, Machine};
use crate::memory;
use crate::mnem;
use crate::regs::{Reg, Writable};

verus! {

// A model of loads with reservation and conditional stores.

/// A machine and the memory that it shares.
#[verifier::ext_equal]
pub struct Shared {
    /// The fixed-point part.
    pub cpu: Machine,
    /// Memory, by address.
    pub mem: spec_fn(u64) -> u8,
}

/// How many bytes a load with reservation loads.
pub open spec fn reserving_width(w: u32) -> Option<nat> {
    let xo = machine::xo10(w);
    if machine::opcd(w) != 31 {
        None
    } else if xo == 52 {
        // lbarx
        Some(1)
    } else if xo == 116 {
        // lharx
        Some(2)
    } else if xo == 20 {
        // lwarx
        Some(4)
    } else if xo == 84 {
        // ldarx
        Some(8)
    } else {
        None
    }
}

/// How many bytes a conditional store stores.
pub open spec fn conditional_width(w: u32) -> Option<nat> {
    let xo = machine::xo10(w);
    if machine::opcd(w) != 31 || w % 2 == 0 {
        None
    } else if xo == 694 {
        // stbcx.
        Some(1)
    } else if xo == 726 {
        // sthcx.
        Some(2)
    } else if xo == 150 {
        // stwcx.
        Some(4)
    } else if xo == 214 {
        // stdcx.
        Some(8)
    } else {
        None
    }
}

/// Whether the word loads a quadword with reservation into an even register and the
/// one behind it: `lqarx`.
pub open spec fn reserves_quadword(w: u32) -> bool {
    machine::opcd(w) == 31 && machine::xo10(w) == 276 && machine::f1(w) % 2 == 0
}

/// Whether the word stores a quadword conditionally: `stqcx.`.
pub open spec fn stores_quadword(w: u32) -> bool {
    machine::opcd(w) == 31 && w % 2 == 1 && machine::xo10(w) == 182 && machine::f1(w) % 2 == 0
}

/// The sixteen bytes of two doublewords, of which the first one is the upper half.
pub open spec fn quad_bytes(hi: u64, lo: u64) -> Seq<u8> {
    memory::low_bytes(lo, 8) + memory::low_bytes(hi, 8)
}

/// The state after a conditional store: where the reservation is kept the bytes are
/// written, and the condition field says whether they are.
pub open spec fn stored(s: Shared, a: u64, v: Seq<u8>, kept: bool) -> Shared {
    Shared {
        cpu: Machine { cr0: Cr { lt: false, gt: false, eq: kept, un: s.cpu.so }, ..s.cpu },
        mem: if kept {
            memory::store_bytes(s.mem, a, v)
        } else {
            s.mem
        },
    }
}

/// The state after an instruction that is not a branch, where a conditional store finds
/// its reservation kept or lost. Barriers change nothing here.
#[verifier::opaque]
pub open spec fn step(s: Shared, w: u32, kept: bool) -> Option<Shared> {
    let a = memory::effective_address(s.cpu, w);
    let r = machine::f1(w);
    match machine::step(s.cpu, w) {
        Some(cpu) => Some(Shared { cpu, ..s }),
        None => if w == SYNC || w == ISYNC {
            Some(s)
        } else if reserving_width(w) is Some {
            let v = memory::doubleword(memory::load_bytes(s.mem, a, reserving_width(w)->0));
            Some(Shared { cpu: machine::set(s.cpu, r, v), ..s })
        } else if reserves_quadword(w) {
            let lo = memory::doubleword(memory::load_bytes(s.mem, a, 8));
            let hi = memory::doubleword(memory::load_bytes(s.mem, machine::wrap(a + 8), 8));
            Some(Shared { cpu: machine::set(machine::set(s.cpu, r, hi), (r + 1) as u32, lo), ..s })
        } else if memory::load_width(w) is Some {
            let v = memory::doubleword(memory::load_bytes(s.mem, a, memory::load_width(w)->0));
            Some(Shared { cpu: machine::set(s.cpu, r, v), ..s })
        } else if memory::store_width(w) is Some {
            let v = memory::low_bytes(s.cpu.gpr[r as int], memory::store_width(w)->0);
            Some(Shared { mem: memory::store_bytes(s.mem, a, v), ..s })
        } else if conditional_width(w) is Some {
            let v = memory::low_bytes(s.cpu.gpr[r as int], conditional_width(w)->0);
            Some(stored(s, a, v, kept))
        } else if stores_quadword(w) {
            Some(stored(s, a, quad_bytes(s.cpu.gpr[r as int], s.cpu.gpr[r + 1]), kept))
        } else {
            None
        },
    }
}

/// How a run of emitted code ends.
pub enum End {
    /// At the end of the log.
    Done { s: Shared },
    /// At a label that is not bound further on in the log.
    Jumped { label: MachLabel, s: Shared },
    /// At something that is not known here.
    Stuck,
}

/// Run emitted code from a position. Branches go to labels or over a few words, and only
/// forward.
#[verifier::opaque]
pub open spec fn run(ops: Seq<Emission>, pc: int, s: Shared, kept: bool) -> End
    decreases ops.len() - pc,
{
    if pc < 0 {
        End::Stuck
    } else if pc >= ops.len() {
        End::Done { s }
    } else {
        match ops[pc] {
            Emission::BindLabel { label } => run(ops, pc + 1, s, kept),
            Emission::Word(w) => if machine::opcd(w) == 16 {
                let to = pc + machine::low16(w) / 4;
                if !laws_flow::is_branch(w) {
                    End::Stuck
                } else if !laws_flow::is_taken(s.cpu, w) {
                    run(ops, pc + 1, s, kept)
                } else if pc < to <= ops.len() && machine::low16(w) < 0x8000 {
                    run(ops, to, s, kept)
                } else {
                    End::Stuck
                }
            } else {
                match step(s, w, kept) {
                    Some(t) => run(ops, pc + 1, t, kept),
                    None => End::Stuck,
                }
            },
            Emission::UseLabel { label, kind } => if pc + 1 >= ops.len() {
                End::Stuck
            } else {
                match ops[pc + 1] {
                    Emission::Word(w) => if !laws_flow::is_branch(w) {
                        End::Stuck
                    } else if !laws_flow::is_taken(s.cpu, w) {
                        run(ops, pc + 2, s, kept)
                    } else {
                        match laws_flow::binding(ops, label, pc + 2) {
                            Some(k) => if pc < k < ops.len() {
                                run(ops, k, s, kept)
                            } else {
                                End::Stuck
                            },
                            None => End::Jumped { label, s },
                        }
                    },
                    _ => End::Stuck,
                }
            },
            _ => End::Stuck,
        }
    }
}

// The words of an atomic access.

/// The number of bytes of an atomic access.
pub open spec fn width(ty: Type) -> nat {
    match ty {
        Type::I8 => 1,
        Type::I16 => 2,
        Type::I32 => 4,
        _ => 8,
    }
}

/// Fields by their bits, of the barriers and of a word that sets cr0.
proof fn lemma_fields(rt: u32, rb: u32, xo: u32)
    by (bit_vector)
    requires
        rt < 32,
        rb < 32,
        xo < 1024,
    ensures
        0x7C00_04ACu32 >> 26u32 == 31,
        (0x7C00_04ACu32 >> 1u32) & 0x3FF == 598,
        (0x7C00_04ACu32 >> 1u32) & 0x1F == 22,
        0x4C00_012Cu32 >> 26u32 == 19,
        ({
            let w = ((31u32 << 26) | (rt << 21) | (0u32 << 16) | (rb << 11) | (xo << 1)) | 1u32;
            &&& w >> 26 == 31
            &&& (w >> 21) & 0x1F == rt
            &&& (w >> 16) & 0x1F == 0
            &&& (w >> 11) & 0x1F == rb
            &&& (w >> 1) & 0x3FF == xo
            &&& (w >> 1) & 0x1F == xo % 32
            &&& w % 2 == 1
        }),
{
}

/// The fields of the barriers.
proof fn lemma_barrier_fields()
    ensures
        machine::opcd(SYNC) == 31,
        machine::xo10(SYNC) == 598,
        machine::xo5(SYNC) == 22,
        machine::opcd(ISYNC) == 19,
{
    lemma_fields(0, 0, 0);
}

/// The barriers on the machine.
proof fn lemma_barriers(s: Shared, kept: bool)
    ensures
        step(s, SYNC, kept) == Some(s),
        step(s, ISYNC, kept) == Some(s),
{
    lemma_barrier_fields();
    reveal(machine::step);
    reveal(step);
}

/// The fields of a word that sets cr0.
proof fn lemma_record_fields(rt: u32, rb: u32, xo: u32)
    requires
        rt < 32,
        rb < 32,
        xo < 1024,
    ensures
        ({
            let w = mnem::x_access_record(rt, 0, rb, xo);
            &&& machine::opcd(w) == 31
            &&& machine::f1(w) == rt
            &&& machine::f2(w) == 0
            &&& machine::f3(w) == rb
            &&& machine::xo10(w) == xo
            &&& machine::xo5(w) == xo % 32
            &&& w % 2 == 1
        }),
{
    lemma_fields(rt, rb, xo);
}

/// An atomic access is no instruction of the fixed-point part.
proof fn lemma_only_shared(m: Machine, w: u32)
    requires
        machine::opcd(w) == 31,
        machine::xo5(w) == machine::xo10(w) % 32,
        reserving_width(w) is Some || reserves_quadword(w) || conditional_width(w) is Some
            || stores_quadword(w) || memory::load_width(w) is Some || memory::store_width(w) is Some,
    ensures
        machine::step(m, w) is None,
        w != SYNC,
        w != ISYNC,
{
    lemma_barrier_fields();
    reveal(machine::step);
}

/// A load with reservation.
proof fn lemma_reserving(s: Shared, rd: u32, addr: u32, ty: Type, kept: bool)
    requires
        machine::wf(s.cpu),
        rd < 32,
        addr < 32,
        emit_atomic::is_atomic_type(ty),
    ensures
        ({
            let w = mnem::x_access(rd, 0, addr, emit_atomic::spec_larx_stcx_xo(ty).0);
            let v = memory::doubleword(
                memory::load_bytes(s.mem, s.cpu.gpr[addr as int], width(ty)),
            );
            step(s, w, kept) == Some(Shared { cpu: machine::set(s.cpu, rd, v), ..s })
        }),
{
    let xo = emit_atomic::spec_larx_stcx_xo(ty).0;
    let w = mnem::x_access(rd, 0, addr, xo);
    machine::law_x_fields(31, rd, 0, addr, xo);
    assert(reserving_width(w) == Some(width(ty)));
    assert(memory::effective_address(s.cpu, w) == s.cpu.gpr[addr as int]);
    lemma_only_shared(s.cpu, w);
    reveal(step);
}

/// A conditional store.
proof fn lemma_conditional(s: Shared, rs: u32, addr: u32, ty: Type, kept: bool)
    requires
        machine::wf(s.cpu),
        rs < 32,
        addr < 32,
        emit_atomic::is_atomic_type(ty),
    ensures
        ({
            let w = mnem::x_access_record(rs, 0, addr, emit_atomic::spec_larx_stcx_xo(ty).1);
            let v = memory::low_bytes(s.cpu.gpr[rs as int], width(ty));
            step(s, w, kept) == Some(stored(s, s.cpu.gpr[addr as int], v, kept))
        }),
{
    let xo = emit_atomic::spec_larx_stcx_xo(ty).1;
    let w = mnem::x_access_record(rs, 0, addr, xo);
    lemma_record_fields(rs, addr, xo);
    assert(reserving_width(w) is None);
    assert(!reserves_quadword(w));
    assert(conditional_width(w) == Some(width(ty)));
    assert(memory::effective_address(s.cpu, w) == s.cpu.gpr[addr as int]);
    lemma_only_shared(s.cpu, w);
    reveal(step);
}

/// The load of a quadword with reservation.
proof fn lemma_quad_reserving(s: Shared, kept: bool)
    requires
        machine::wf(s.cpu),
    ensures
        ({
            let a = s.cpu.gpr[3];
            let lo = memory::doubleword(memory::load_bytes(s.mem, a, 8));
            let hi = memory::doubleword(memory::load_bytes(s.mem, machine::wrap(a + 8), 8));
            step(s, emit_atomic::lqarx(), kept) == Some(
                Shared { cpu: machine::set(machine::set(s.cpu, 8, hi), 9, lo), ..s },
            )
        }),
{
    let w = emit_atomic::lqarx();
    machine::law_x_fields(31, 8, 0, 3, 276);
    assert(reserving_width(w) is None);
    assert(reserves_quadword(w));
    assert(memory::effective_address(s.cpu, w) == s.cpu.gpr[3]);
    lemma_only_shared(s.cpu, w);
    reveal(step);
}

/// The conditional store of a quadword.
proof fn lemma_quad_conditional(s: Shared, rs: u32, kept: bool)
    requires
        machine::wf(s.cpu),
        rs < 31,
        rs % 2 == 0,
    ensures
        step(s, emit_atomic::stqcx(rs), kept) == Some(
            stored(s, s.cpu.gpr[3], quad_bytes(s.cpu.gpr[rs as int], s.cpu.gpr[rs + 1]), kept),
        ),
{
    let w = emit_atomic::stqcx(rs);
    lemma_record_fields(rs, 3, 182);
    assert(reserving_width(w) is None);
    assert(!reserves_quadword(w));
    assert(conditional_width(w) is None);
    assert(memory::effective_address(s.cpu, w) == s.cpu.gpr[3]);
    lemma_only_shared(s.cpu, w);
    reveal(step);
}

/// Bytes are those of a number that fits exactly where their number is it.
proof fn lemma_same_bytes(v: Seq<u8>, x: u64)
    requires
        v.len() == 1 || v.len() == 2 || v.len() == 4 || v.len() == 8,
        x < memory::power256(v.len() as int),
    ensures
        (memory::doubleword(v) == x) == (v == memory::low_bytes(x, v.len())),
{
    let n = v.len();
    memory::lemma_byte_of_number(v);
    if memory::doubleword(v) == x {
        assert forall|j: int| 0 <= j < n implies v[j] == #[trigger] memory::low_bytes(x, n)[j] by {
            assert(memory::byte(memory::doubleword(v), j) == memory::at(v, j));
        }
        assert(v =~= memory::low_bytes(x, n));
    }
    if v == memory::low_bytes(x, n) {
        memory::lemma_number_of_bytes(x, n);
        assert(x as int % memory::power256(n as int) == x);
    }
}

/// A logical compare.
proof fn lemma_compared(s: Shared, ra: u32, rb: u32, kept: bool)
    requires
        machine::wf(s.cpu),
        ra < 32,
        rb < 32,
    ensures
        ({
            let (x, y) = (s.cpu.gpr[ra as int] as int, s.cpu.gpr[rb as int] as int);
            step(s, mnem::compare_logical(1, ra, rb), kept) == Some(
                Shared { cpu: machine::compared(s.cpu, x, y), ..s },
            )
        }),
{
    laws_atomic::lemma_compare_logical(s.cpu, ra, rb);
    reveal(step);
}

// Running.

/// A word of a known step is no branch.
proof fn lemma_not_a_branch(s: Shared, w: u32, kept: bool)
    requires
        step(s, w, kept) is Some,
    ensures
        machine::opcd(w) != 16,
{
    lemma_barrier_fields();
    reveal(step);
    reveal(machine::step);
}

/// A word that is not a branch.
proof fn lemma_word(ops: Seq<Emission>, pc: int, s: Shared, w: u32, t: Shared, kept: bool)
    requires
        0 <= pc < ops.len(),
        ops[pc] == Emission::Word(w),
        step(s, w, kept) == Some(t),
    ensures
        run(ops, pc, s, kept) == run(ops, pc + 1, t, kept),
{
    lemma_not_a_branch(s, w, kept);
    reveal(run);
}

/// A label.
proof fn lemma_label(ops: Seq<Emission>, pc: int, s: Shared, label: MachLabel, kept: bool)
    requires
        0 <= pc < ops.len(),
        ops[pc] == (Emission::BindLabel { label }),
    ensures
        run(ops, pc, s, kept) == run(ops, pc + 1, s, kept),
{
    reveal(run);
}

/// A branch to a label where the condition field does not say equal.
proof fn lemma_branch(ops: Seq<Emission>, pc: int, s: Shared, label: MachLabel, kept: bool)
    requires
        0 <= pc,
        pc + 1 < ops.len(),
        ops[pc] == (Emission::UseLabel { label, kind: LabelUse::Branch16 }),
        ops[pc + 1] == Emission::Word(mnem::bc(false, CR0_EQ, 0)),
    ensures
        s.cpu.cr0.eq ==> run(ops, pc, s, kept) == run(ops, pc + 2, s, kept),
        !s.cpu.cr0.eq ==> run(ops, pc, s, kept) == (match laws_flow::binding(ops, label, pc + 2) {
            Some(k) => if pc < k < ops.len() {
                run(ops, k, s, kept)
            } else {
                End::Stuck
            },
            None => End::Jumped { label, s },
        }),
{
    laws_flow::lemma_bc(s.cpu, CR0_EQ, false);
    reveal(run);
}

/// The last word, a barrier.
proof fn lemma_last(ops: Seq<Emission>, pc: int, s: Shared, kept: bool)
    requires
        0 <= pc,
        ops.len() == pc + 1,
        ops[pc] == Emission::Word(ISYNC),
    ensures
        run(ops, pc, s, kept) == (End::Done { s }),
{
    lemma_barriers(s, kept);
    lemma_word(ops, pc, s, ISYNC, s, kept);
    reveal(run);
}

// Compare and swap.

/// One pass of a compare-and-swap, from its start or from the label that it goes back
/// to. What memory holds ends up in the result register. The new value is stored exactly
/// where memory holds the expected one, at the width of the type, and the reservation is
/// kept. Where memory holds the expected value but the reservation is lost, the pass ends
/// with a jump back and memory as it was. Besides the result register and the condition
/// field, no register changes. The result register is none of the operands, and the
/// expected value comes zero-extended.
pub proof fn law_compare_and_swap(
    b: BufferView,
    s: Shared,
    rd: u32,
    addr: u32,
    expected: u32,
    new: u32,
    ty: Type,
    kept: bool,
) -> (t: Shared)
    requires
        machine::wf(s.cpu),
        rd < 32,
        addr < 32,
        expected < 32,
        new < 32,
        rd != addr,
        rd != expected,
        rd != new,
        emit_atomic::is_atomic_type(ty),
        s.cpu.gpr[expected as int] < memory::power256(width(ty) as int),
        b.labels + 2 <= u32::MAX,
    ensures
        ({
            let ops = emit_atomic::atomic_cas(b, rd, addr, expected, new, ty).ops;
            let start = b.ops.len() as int;
            let a = s.cpu.gpr[addr as int];
            let held = memory::load_bytes(s.mem, a, width(ty));
            let equal = held == memory::low_bytes(s.cpu.gpr[expected as int], width(ty));
            let replacement = memory::low_bytes(s.cpu.gpr[new as int], width(ty));
            &&& t.cpu.gpr[rd as int] == memory::doubleword(held)
            &&& machine::same_but(s.cpu, t.cpu, rd, rd)
            &&& t.mem == (if equal && kept {
                memory::store_bytes(s.mem, a, replacement)
            } else {
                s.mem
            })
            &&& ops[start + 1] == (Emission::BindLabel { label: b.fresh() })
            &&& run(ops, start + 1, s, kept) == (if equal && !kept {
                End::Jumped { label: b.fresh(), s: t }
            } else {
                End::Done { s: t }
            })
            &&& run(ops, start, s, kept) == run(ops, start + 1, s, kept)
        }),
{
    let ops = emit_atomic::atomic_cas(b, rd, addr, expected, new, ty).ops;
    let p = b.ops.len() as int;
    let (top, done) = (b.fresh(), b.with_label().fresh());
    let (larx, stcx) = emit_atomic::spec_larx_stcx_xo(ty);
    let branch = mnem::bc(false, CR0_EQ, 0);
    assert(ops.len() == p + 11);
    assert(ops[p] == Emission::Word(SYNC));
    assert(ops[p + 1] == (Emission::BindLabel { label: top }));
    assert(ops[p + 2] == Emission::Word(mnem::x_access(rd, 0, addr, larx)));
    assert(ops[p + 3] == Emission::Word(mnem::compare_logical(1, rd, expected)));
    assert(ops[p + 4] == (Emission::UseLabel { label: done, kind: LabelUse::Branch16 }));
    assert(ops[p + 5] == Emission::Word(branch));
    assert(ops[p + 6] == Emission::Word(mnem::x_access_record(new, 0, addr, stcx)));
    assert(ops[p + 7] == (Emission::UseLabel { label: top, kind: LabelUse::Branch16 }));
    assert(ops[p + 8] == Emission::Word(branch));
    assert(ops[p + 9] == (Emission::BindLabel { label: done }));
    assert(ops[p + 10] == Emission::Word(ISYNC));
    let a = s.cpu.gpr[addr as int];
    let held = memory::load_bytes(s.mem, a, width(ty));
    let want = s.cpu.gpr[expected as int];
    lemma_same_bytes(held, want);
    lemma_barriers(s, kept);
    lemma_word(ops, p, s, SYNC, s, kept);
    lemma_label(ops, p + 1, s, top, kept);
    lemma_reserving(s, rd, addr, ty, kept);
    let s1 = Shared { cpu: machine::set(s.cpu, rd, memory::doubleword(held)), ..s };
    lemma_word(ops, p + 2, s, mnem::x_access(rd, 0, addr, larx), s1, kept);
    let s2 = Shared {
        cpu: machine::compared(s1.cpu, memory::doubleword(held) as int, want as int),
        ..s1
    };
    lemma_compared(s1, rd, expected, kept);
    lemma_word(ops, p + 3, s1, mnem::compare_logical(1, rd, expected), s2, kept);
    lemma_branch(ops, p + 4, s2, done, kept);
    if !s2.cpu.cr0.eq {
        laws_flow::lemma_binding(ops, done, p + 6, p + 9);
        lemma_label(ops, p + 9, s2, done, kept);
        lemma_last(ops, p + 10, s2, kept);
        s2
    } else {
        lemma_conditional(s2, new, addr, ty, kept);
        let s3 = stored(s2, a, memory::low_bytes(s.cpu.gpr[new as int], width(ty)), kept);
        lemma_word(ops, p + 6, s2, mnem::x_access_record(new, 0, addr, stcx), s3, kept);
        lemma_branch(ops, p + 7, s3, top, kept);
        if kept {
            lemma_label(ops, p + 9, s3, done, kept);
            lemma_last(ops, p + 10, s3, kept);
        } else {
            laws_flow::lemma_no_binding(ops, top, p + 9);
        }
        s3
    }
}

/// The halves of sixteen bytes in memory.
proof fn lemma_quad_halves(mem: spec_fn(u64) -> u8, a: u64)
    ensures
        ({
            let held = memory::load_bytes(mem, a, 16);
            &&& memory::load_bytes(mem, a, 8) == held.subrange(0, 8)
            &&& memory::load_bytes(mem, machine::wrap(a + 8), 8) == held.subrange(8, 16)
        }),
{
    let held = memory::load_bytes(mem, a, 16);
    let b = machine::wrap(a + 8);
    assert(memory::load_bytes(mem, a, 8) =~= held.subrange(0, 8));
    assert forall|i: int| 0 <= i < 8 implies #[trigger] mem(machine::wrap(b + i)) == held[8
        + i] by {
        assert(machine::wrap(b + i) == machine::wrap(a + (8 + i)));
    }
    assert(memory::load_bytes(mem, b, 8) =~= held.subrange(8, 16));
}

/// Sixteen bytes are those of two doublewords exactly where both halves are.
proof fn lemma_same_quad(v: Seq<u8>, hi: u64, lo: u64)
    requires
        v.len() == 16,
    ensures
        (memory::doubleword(v.subrange(8, 16)) == hi && memory::doubleword(v.subrange(0, 8)) == lo)
            == (v == quad_bytes(hi, lo)),
{
    let (low, high) = (v.subrange(0, 8), v.subrange(8, 16));
    lemma_same_bytes(low, lo);
    lemma_same_bytes(high, hi);
    assert(v =~= low + high);
    assert(quad_bytes(hi, lo).subrange(0, 8) =~= memory::low_bytes(lo, 8));
    assert(quad_bytes(hi, lo).subrange(8, 16) =~= memory::low_bytes(hi, 8));
}

/// One pass of a compare-and-swap of a quadword: of r3 as the address, r4 and r5 as the
/// expected value, r6 and r7 as the new one, and r8 and r9 as what memory held, the
/// upper halves first. It does what that of a smaller type does.
pub proof fn law_quadword_compare_and_swap(b: BufferView, s: Shared, kept: bool) -> (t: Shared)
    requires
        machine::wf(s.cpu),
        b.labels + 2 <= u32::MAX,
    ensures
        ({
            let ops = emit_atomic::atomic_cas128(b).ops;
            let start = b.ops.len() as int;
            let a = s.cpu.gpr[3];
            let held = memory::load_bytes(s.mem, a, 16);
            let equal = held == quad_bytes(s.cpu.gpr[4], s.cpu.gpr[5]);
            &&& t.cpu.gpr[8] == memory::doubleword(held.subrange(8, 16))
            &&& t.cpu.gpr[9] == memory::doubleword(held.subrange(0, 8))
            &&& machine::same_but(s.cpu, t.cpu, 8, 9)
            &&& t.mem == (if equal && kept {
                memory::store_bytes(s.mem, a, quad_bytes(s.cpu.gpr[6], s.cpu.gpr[7]))
            } else {
                s.mem
            })
            &&& ops[start + 1] == (Emission::BindLabel { label: b.fresh() })
            &&& run(ops, start + 1, s, kept) == (if equal && !kept {
                End::Jumped { label: b.fresh(), s: t }
            } else {
                End::Done { s: t }
            })
            &&& run(ops, start, s, kept) == run(ops, start + 1, s, kept)
        }),
{
    let ops = emit_atomic::atomic_cas128(b).ops;
    let p = b.ops.len() as int;
    let (top, done) = (b.fresh(), b.with_label().fresh());
    let branch = mnem::bc(false, CR0_EQ, 0);
    assert(ops.len() == p + 14);
    assert(ops[p] == Emission::Word(SYNC));
    assert(ops[p + 1] == (Emission::BindLabel { label: top }));
    assert(ops[p + 2] == Emission::Word(emit_atomic::lqarx()));
    assert(ops[p + 3] == Emission::Word(mnem::compare_logical(1, 8, 4)));
    assert(ops[p + 4] == (Emission::UseLabel { label: done, kind: LabelUse::Branch16 }));
    assert(ops[p + 5] == Emission::Word(branch));
    assert(ops[p + 6] == Emission::Word(mnem::compare_logical(1, 9, 5)));
    assert(ops[p + 7] == (Emission::UseLabel { label: done, kind: LabelUse::Branch16 }));
    assert(ops[p + 8] == Emission::Word(branch));
    assert(ops[p + 9] == Emission::Word(emit_atomic::stqcx(6)));
    assert(ops[p + 10] == (Emission::UseLabel { label: top, kind: LabelUse::Branch16 }));
    assert(ops[p + 11] == Emission::Word(branch));
    assert(ops[p + 12] == (Emission::BindLabel { label: done }));
    assert(ops[p + 13] == Emission::Word(ISYNC));
    let a = s.cpu.gpr[3];
    let held = memory::load_bytes(s.mem, a, 16);
    lemma_quad_halves(s.mem, a);
    lemma_same_quad(held, s.cpu.gpr[4], s.cpu.gpr[5]);
    let hi = memory::doubleword(held.subrange(8, 16));
    let lo = memory::doubleword(held.subrange(0, 8));
    lemma_barriers(s, kept);
    lemma_word(ops, p, s, SYNC, s, kept);
    lemma_label(ops, p + 1, s, top, kept);
    lemma_quad_reserving(s, kept);
    let s1 = Shared { cpu: machine::set(machine::set(s.cpu, 8, hi), 9, lo), ..s };
    lemma_word(ops, p + 2, s, emit_atomic::lqarx(), s1, kept);
    let s2 = Shared { cpu: machine::compared(s1.cpu, hi as int, s.cpu.gpr[4] as int), ..s1 };
    lemma_compared(s1, 8, 4, kept);
    lemma_word(ops, p + 3, s1, mnem::compare_logical(1, 8, 4), s2, kept);
    lemma_branch(ops, p + 4, s2, done, kept);
    if !s2.cpu.cr0.eq {
        laws_flow::lemma_binding(ops, done, p + 6, p + 12);
        lemma_label(ops, p + 12, s2, done, kept);
        lemma_last(ops, p + 13, s2, kept);
        s2
    } else {
        let s3 = Shared { cpu: machine::compared(s2.cpu, lo as int, s.cpu.gpr[5] as int), ..s2 };
        lemma_compared(s2, 9, 5, kept);
        lemma_word(ops, p + 6, s2, mnem::compare_logical(1, 9, 5), s3, kept);
        lemma_branch(ops, p + 7, s3, done, kept);
        if !s3.cpu.cr0.eq {
            laws_flow::lemma_binding(ops, done, p + 9, p + 12);
            lemma_label(ops, p + 12, s3, done, kept);
            lemma_last(ops, p + 13, s3, kept);
            s3
        } else {
            lemma_quad_conditional(s3, 6, kept);
            let s4 = stored(s3, a, quad_bytes(s.cpu.gpr[6], s.cpu.gpr[7]), kept);
            lemma_word(ops, p + 9, s3, emit_atomic::stqcx(6), s4, kept);
            lemma_branch(ops, p + 10, s4, top, kept);
            if kept {
                lemma_label(ops, p + 12, s4, done, kept);
                lemma_last(ops, p + 13, s4, kept);
            } else {
                laws_flow::lemma_no_binding(ops, top, p + 12);
            }
            s4
        }
    }
}

// Read, modify and write.

/// Words that are not branches.
proof fn lemma_words(
    ops: Seq<Emission>,
    pc: int,
    s: Shared,
    ws: Seq<u32>,
    n: Machine,
    kept: bool,
)
    requires
        0 <= pc,
        pc + ws.len() <= ops.len(),
        forall|j: int| 0 <= j < ws.len() ==> #[trigger] ops[pc + j] == Emission::Word(ws[j]),
        machine::run_words(s.cpu, ws) == Some(n),
    ensures
        run(ops, pc, s, kept) == run(ops, pc + ws.len(), Shared { cpu: n, ..s }, kept),
    decreases ws.len(),
{
    if ws.len() > 0 {
        let rest = ws.drop_last();
        let cpu = machine::run_words(s.cpu, rest)->0;
        assert forall|j: int| 0 <= j < rest.len() implies #[trigger] ops[pc + j] == Emission::Word(
            rest[j],
        ) by {
            assert(ops[pc + j] == Emission::Word(ws[j]));
        }
        lemma_words(ops, pc, s, rest, cpu, kept);
        assert(ops[pc + (ws.len() - 1)] == Emission::Word(ws[ws.len() - 1]));
        let t = Shared { cpu, ..s };
        assert(step(t, ws.last(), kept) == Some(Shared { cpu: n, ..s })) by {
            reveal(step);
        }
        lemma_word(ops, pc + rest.len(), t, ws.last(), Shared { cpu: n, ..s }, kept);
    } else {
        assert(Shared { cpu: n, ..s } == s);
    }
}

/// One pass of a read-modify-write, from its start or from the label that it goes back
/// to. What memory holds ends up in the result register. Where the reservation is kept,
/// the low bytes of what the operation makes of it and the operand are stored. Where it
/// is lost, the pass ends with a jump back and memory as it was. Besides the result
/// register, r0 and the condition field, no register changes.
pub proof fn law_read_modify_write(
    b: BufferView,
    s: Shared,
    op: AtomicRmwOp,
    rd: u32,
    addr: u32,
    src: u32,
    ty: Type,
    kept: bool,
) -> (t: Shared)
    requires
        machine::wf(s.cpu),
        0 < rd < 32,
        0 < addr < 32,
        0 < src < 32,
        rd != addr,
        rd != src,
        emit_atomic::is_atomic_type(ty),
    ensures
        ({
            let ops = emit_atomic::atomic_rmw(b, op, rd, addr, src, ty).ops;
            let start = b.ops.len() as int;
            let a = s.cpu.gpr[addr as int];
            let held = memory::doubleword(memory::load_bytes(s.mem, a, width(ty)));
            let made = laws_atomic::rmw_result(op, ty, held, s.cpu.gpr[src as int]);
            &&& t.cpu.gpr[rd as int] == held
            &&& machine::same_but(s.cpu, t.cpu, rd, 0)
            &&& t.mem == (if kept {
                memory::store_bytes(s.mem, a, memory::low_bytes(made, width(ty)))
            } else {
                s.mem
            })
            &&& ops[start + 1] == (Emission::BindLabel { label: b.fresh() })
            &&& run(ops, start + 1, s, kept) == (if kept {
                End::Done { s: t }
            } else {
                End::Jumped { label: b.fresh(), s: t }
            })
            &&& run(ops, start, s, kept) == run(ops, start + 1, s, kept)
        }),
{
    let ops = emit_atomic::atomic_rmw(b, op, rd, addr, src, ty).ops;
    let p = b.ops.len() as int;
    let top = b.fresh();
    let (larx, stcx) = emit_atomic::spec_larx_stcx_xo(ty);
    let rs = emit_atomic::rmw_store_reg(op, src);
    let ws = laws_atomic::rmw_words(op, rd, src, ty);
    let a = s.cpu.gpr[addr as int];
    let held = memory::doubleword(memory::load_bytes(s.mem, a, width(ty)));
    let s1 = Shared { cpu: machine::set(s.cpu, rd, held), ..s };
    let before = b.word(SYNC).with_label().bind(top).word(mnem::x_access(rd, 0, addr, larx));
    laws_atomic::law_replacement_value(before, s1.cpu, op, rd, src, ty);
    let n = machine::run_words(s1.cpu, ws)->0;
    let q = p + 3 + ws.len();
    assert(before.words(ws).ops =~= before.ops + ws.map_values(|w: u32| Emission::Word(w)));
    assert(ops.len() == q + 4);
    assert(ops[p] == Emission::Word(SYNC));
    assert(ops[p + 1] == (Emission::BindLabel { label: top }));
    assert(ops[p + 2] == Emission::Word(mnem::x_access(rd, 0, addr, larx)));
    assert forall|j: int| 0 <= j < ws.len() implies #[trigger] ops[p + 3 + j] == Emission::Word(
        ws[j],
    ) by {}
    assert(ops[q] == Emission::Word(mnem::x_access_record(rs, 0, addr, stcx)));
    assert(ops[q + 1] == (Emission::UseLabel { label: top, kind: LabelUse::Branch16 }));
    assert(ops[q + 2] == Emission::Word(mnem::bc(false, CR0_EQ, 0)));
    assert(ops[q + 3] == Emission::Word(ISYNC));
    lemma_barriers(s, kept);
    lemma_word(ops, p, s, SYNC, s, kept);
    lemma_label(ops, p + 1, s, top, kept);
    lemma_reserving(s, rd, addr, ty, kept);
    lemma_word(ops, p + 2, s, mnem::x_access(rd, 0, addr, larx), s1, kept);
    lemma_words(ops, p + 3, s1, ws, n, kept);
    let s2 = Shared { cpu: n, ..s1 };
    lemma_conditional(s2, rs, addr, ty, kept);
    let t = stored(s2, a, memory::low_bytes(n.gpr[rs as int], width(ty)), kept);
    lemma_word(ops, q, s2, mnem::x_access_record(rs, 0, addr, stcx), t, kept);
    lemma_branch(ops, q + 1, t, top, kept);
    if kept {
        lemma_last(ops, q + 3, t, kept);
    } else {
        laws_flow::lemma_no_binding(ops, top, q + 3);
    }
    t
}

// Loads and stores.

/// A plain load.
proof fn lemma_loading(s: Shared, rd: u32, addr: u32, ty: Type, kept: bool)
    requires
        machine::wf(s.cpu),
        rd < 32,
        addr < 32,
        emit_atomic::is_atomic_type(ty),
    ensures
        ({
            let w = mnem::x_access(rd, 0, addr, emit_atomic::atomic_load_xo(ty));
            let v = memory::doubleword(
                memory::load_bytes(s.mem, s.cpu.gpr[addr as int], width(ty)),
            );
            step(s, w, kept) == Some(Shared { cpu: machine::set(s.cpu, rd, v), ..s })
        }),
{
    let xo = emit_atomic::atomic_load_xo(ty);
    let w = mnem::x_access(rd, 0, addr, xo);
    machine::law_x_fields(31, rd, 0, addr, xo);
    assert(memory::load_width(w) == Some(width(ty)));
    assert(reserving_width(w) is None && !reserves_quadword(w));
    assert(memory::effective_address(s.cpu, w) == s.cpu.gpr[addr as int]);
    lemma_only_shared(s.cpu, w);
    reveal(step);
}

/// A plain store.
proof fn lemma_storing(s: Shared, rs: u32, addr: u32, ty: Type, kept: bool)
    requires
        machine::wf(s.cpu),
        rs < 32,
        addr < 32,
        emit_atomic::is_atomic_type(ty),
    ensures
        ({
            let w = mnem::x_access(rs, 0, addr, emit_atomic::atomic_store_xo(ty));
            let v = memory::low_bytes(s.cpu.gpr[rs as int], width(ty));
            step(s, w, kept) == Some(
                Shared { mem: memory::store_bytes(s.mem, s.cpu.gpr[addr as int], v), ..s },
            )
        }),
{
    let xo = emit_atomic::atomic_store_xo(ty);
    let w = mnem::x_access(rs, 0, addr, xo);
    machine::law_x_fields(31, rs, 0, addr, xo);
    assert(memory::store_width(w) == Some(width(ty)));
    assert(memory::load_width(w) is None);
    assert(reserving_width(w) is None && !reserves_quadword(w));
    assert(memory::effective_address(s.cpu, w) == s.cpu.gpr[addr as int]);
    lemma_only_shared(s.cpu, w);
    reveal(step);
}

/// The branch behind a load, to the next word either way.
proof fn lemma_next(ops: Seq<Emission>, pc: int, s: Shared, kept: bool)
    requires
        0 <= pc < ops.len(),
        ops[pc] == Emission::Word(mnem::bc(false, CR0_EQ, 4)),
    ensures
        run(ops, pc, s, kept) == run(ops, pc + 1, s, kept),
{
    machine::law_bc_fields(false, CR0_EQ, 4);
    reveal(run);
}

/// A signed compare of a register with itself.
proof fn lemma_same(s: Shared, r: u32, kept: bool)
    requires
        machine::wf(s.cpu),
        r < 32,
    ensures
        step(s, mnem::compare(1, r, r), kept) == Some(
            Shared {
                cpu: machine::compared(
                    s.cpu,
                    machine::signed64(s.cpu.gpr[r as int]),
                    machine::signed64(s.cpu.gpr[r as int]),
                ),
                ..s
            },
        ),
{
    laws_flow::lemma_compare(s.cpu, true, r, r);
    reveal(step);
}

/// An atomic load leaves in its register the number that the bytes at the address make,
/// the least significant first and as many as the type has, zero-extended. Besides that
/// register and the condition field nothing changes. A full barrier stands before it, and
/// behind it one that holds back what follows.
pub proof fn law_atomic_load(
    b: BufferView,
    s: Shared,
    rd: Writable<Reg>,
    addr: Reg,
    ty: Type,
    kept: bool,
    info: EmitInfo,
    state: EmitState,
) -> (t: Shared)
    requires
        machine::wf(s.cpu),
        emit::encodable(Inst::AtomicLoad { rd, addr, ty }, state.frame_layout),
    ensures
        ({
            let ops = emit::emitted(Inst::AtomicLoad { rd, addr, ty }, b, info, state).ops;
            let start = b.ops.len() as int;
            let a = s.cpu.gpr[addr.num() as int];
            &&& run(ops, start, s, kept) == (End::Done { s: t })
            &&& t.cpu.gpr[rd.reg.num() as int] == memory::number(
                memory::load_bytes(s.mem, a, width(ty)),
            )
            &&& machine::same_but(s.cpu, t.cpu, rd.reg.num(), rd.reg.num())
            &&& t.mem == s.mem
            &&& ops[start] == Emission::Word(SYNC)
            &&& ops.last() == Emission::Word(ISYNC)
        }),
{
    reveal(emit::emitted_atomic);
    let ops = emit::emitted(Inst::AtomicLoad { rd, addr, ty }, b, info, state).ops;
    let p = b.ops.len() as int;
    let (d, a) = (rd.reg.num(), addr.num());
    let w = mnem::x_access(d, 0, a, emit_atomic::atomic_load_xo(ty));
    let bytes = memory::load_bytes(s.mem, s.cpu.gpr[a as int], width(ty));
    assert(ops.len() == p + 5);
    assert(ops[p] == Emission::Word(SYNC));
    assert(ops[p + 1] == Emission::Word(w));
    assert(ops[p + 2] == Emission::Word(mnem::compare(1, d, d)));
    assert(ops[p + 3] == Emission::Word(mnem::bc(false, CR0_EQ, 4)));
    assert(ops[p + 4] == Emission::Word(ISYNC));
    memory::lemma_byte_of_number(bytes);
    lemma_barriers(s, kept);
    lemma_word(ops, p, s, SYNC, s, kept);
    lemma_loading(s, d, a, ty, kept);
    let s1 = Shared { cpu: machine::set(s.cpu, d, memory::doubleword(bytes)), ..s };
    lemma_word(ops, p + 1, s, w, s1, kept);
    lemma_same(s1, d, kept);
    let s2 = step(s1, mnem::compare(1, d, d), kept)->0;
    lemma_word(ops, p + 2, s1, mnem::compare(1, d, d), s2, kept);
    lemma_next(ops, p + 3, s2, kept);
    lemma_last(ops, p + 4, s2, kept);
    s2
}

/// An atomic store writes the low bytes of its register to the address, the least
/// significant first and as many as the type has, and changes nothing else. A full barrier
/// stands before it.
pub proof fn law_atomic_store(
    b: BufferView,
    s: Shared,
    src: Reg,
    addr: Reg,
    ty: Type,
    kept: bool,
    info: EmitInfo,
    state: EmitState,
)
    requires
        machine::wf(s.cpu),
        emit::encodable(Inst::AtomicStore { src, addr, ty }, state.frame_layout),
    ensures
        ({
            let ops = emit::emitted(Inst::AtomicStore { src, addr, ty }, b, info, state).ops;
            let start = b.ops.len() as int;
            let a = s.cpu.gpr[addr.num() as int];
            let v = memory::low_bytes(s.cpu.gpr[src.num() as int], width(ty));
            &&& run(ops, start, s, kept) == (End::Done {
                s: Shared { mem: memory::store_bytes(s.mem, a, v), ..s },
            })
            &&& ops[start] == Emission::Word(SYNC)
        }),
{
    reveal(emit::emitted_atomic);
    let ops = emit::emitted(Inst::AtomicStore { src, addr, ty }, b, info, state).ops;
    let p = b.ops.len() as int;
    let w = mnem::x_access(src.num(), 0, addr.num(), emit_atomic::atomic_store_xo(ty));
    assert(ops.len() == p + 2);
    assert(ops[p] == Emission::Word(SYNC));
    assert(ops[p + 1] == Emission::Word(w));
    lemma_barriers(s, kept);
    lemma_word(ops, p, s, SYNC, s, kept);
    lemma_storing(s, src.num(), addr.num(), ty, kept);
    let t = step(s, w, kept)->0;
    lemma_word(ops, p + 1, s, w, t, kept);
    reveal(run);
}

/// An atomic load of a quadword leaves its upper half in r8 and its lower half in r9, of
/// the sixteen bytes at the address in r3.
pub proof fn law_quadword_load(b: BufferView, s: Shared, kept: bool) -> (t: Shared)
    requires
        machine::wf(s.cpu),
    ensures
        ({
            let ops = emit_atomic::atomic_load128(b).ops;
            let start = b.ops.len() as int;
            let held = memory::load_bytes(s.mem, s.cpu.gpr[3], 16);
            &&& run(ops, start, s, kept) == (End::Done { s: t })
            &&& t.cpu.gpr[8] == memory::doubleword(held.subrange(8, 16))
            &&& t.cpu.gpr[9] == memory::doubleword(held.subrange(0, 8))
            &&& machine::same_but(s.cpu, t.cpu, 8, 9)
            &&& t.mem == s.mem
            &&& ops[start] == Emission::Word(SYNC)
            &&& ops.last() == Emission::Word(ISYNC)
        }),
{
    let ops = emit_atomic::atomic_load128(b).ops;
    let p = b.ops.len() as int;
    assert(ops.len() == p + 5);
    assert(ops[p] == Emission::Word(SYNC));
    assert(ops[p + 1] == Emission::Word(emit_atomic::lqarx()));
    assert(ops[p + 2] == Emission::Word(mnem::compare(1, 8, 8)));
    assert(ops[p + 3] == Emission::Word(mnem::bc(false, CR0_EQ, 4)));
    assert(ops[p + 4] == Emission::Word(ISYNC));
    lemma_quad_halves(s.mem, s.cpu.gpr[3]);
    lemma_barriers(s, kept);
    lemma_word(ops, p, s, SYNC, s, kept);
    lemma_quad_reserving(s, kept);
    let s1 = step(s, emit_atomic::lqarx(), kept)->0;
    lemma_word(ops, p + 1, s, emit_atomic::lqarx(), s1, kept);
    lemma_same(s1, 8, kept);
    let s2 = step(s1, mnem::compare(1, 8, 8), kept)->0;
    lemma_word(ops, p + 2, s1, mnem::compare(1, 8, 8), s2, kept);
    lemma_next(ops, p + 3, s2, kept);
    lemma_last(ops, p + 4, s2, kept);
    s2
}

/// One pass of an atomic store of a quadword, from its start or from the label that it
/// goes back to: of r4 and r5, the upper half first, to the sixteen bytes at the address
/// in r3. Where the reservation is lost, the pass ends with a jump back and memory as it
/// was.
pub proof fn law_quadword_store(b: BufferView, s: Shared, kept: bool) -> (t: Shared)
    requires
        machine::wf(s.cpu),
    ensures
        ({
            let ops = emit_atomic::atomic_store128(b).ops;
            let start = b.ops.len() as int;
            &&& machine::same_but(s.cpu, t.cpu, 8, 9)
            &&& t.mem == (if kept {
                memory::store_bytes(s.mem, s.cpu.gpr[3], quad_bytes(s.cpu.gpr[4], s.cpu.gpr[5]))
            } else {
                s.mem
            })
            &&& ops[start] == Emission::Word(SYNC)
            &&& ops[start + 1] == (Emission::BindLabel { label: b.fresh() })
            &&& run(ops, start + 1, s, kept) == (if kept {
                End::Done { s: t }
            } else {
                End::Jumped { label: b.fresh(), s: t }
            })
            &&& run(ops, start, s, kept) == run(ops, start + 1, s, kept)
        }),
{
    let ops = emit_atomic::atomic_store128(b).ops;
    let p = b.ops.len() as int;
    let top = b.fresh();
    assert(ops.len() == p + 6);
    assert(ops[p] == Emission::Word(SYNC));
    assert(ops[p + 1] == (Emission::BindLabel { label: top }));
    assert(ops[p + 2] == Emission::Word(emit_atomic::lqarx()));
    assert(ops[p + 3] == Emission::Word(emit_atomic::stqcx(4)));
    assert(ops[p + 4] == (Emission::UseLabel { label: top, kind: LabelUse::Branch16 }));
    assert(ops[p + 5] == Emission::Word(mnem::bc(false, CR0_EQ, 0)));
    lemma_barriers(s, kept);
    lemma_word(ops, p, s, SYNC, s, kept);
    lemma_label(ops, p + 1, s, top, kept);
    lemma_quad_reserving(s, kept);
    let s1 = step(s, emit_atomic::lqarx(), kept)->0;
    lemma_word(ops, p + 2, s, emit_atomic::lqarx(), s1, kept);
    lemma_quad_conditional(s1, 4, kept);
    let t = step(s1, emit_atomic::stqcx(4), kept)->0;
    lemma_word(ops, p + 3, s1, emit_atomic::stqcx(4), t, kept);
    lemma_branch(ops, p + 4, t, top, kept);
    laws_flow::lemma_no_binding(ops, top, p + 6);
    reveal(run);
    t
}

} // verus!
