//! What the instructions of vectors do to registers, memory and lanes.
use vstd::prelude::*;
use crate::args::{CR6_EQ, CR6_LT};
use crate::buffer::BufferView;
use crate::emit;
use crate::emit_int;
use crate::emit_mem;
use crate::emit_vec;
use crate::encode::VEC_SCRATCH;
use crate::inst::VecAluOp;
use crate::laws_int;
use crate::laws_mem;
use crate::machine;
use crate::memory;
use crate::memory::State;
use crate::mnem;
use crate::regs::{Reg, RegClass};

verus! {

/// A lane of so many bytes, the least significant first. Lanes count from the least
/// significant end of the register, which is the end that lies lowest in memory.
pub open spec fn lane(v: Seq<u8>, n: nat, i: int) -> Seq<u8> {
    Seq::new(n, |j: int| v[15 - i * n - j])
}

/// Whether two states agree in every vector-scalar register but those given, and in
/// what a recording compare told.
pub open spec fn same_vsr_but(s: State, t: State, a: u32, b: u32) -> bool {
    &&& t.vsr.len() == s.vsr.len()
    &&& forall|i: int| 0 <= i < 64 && i != a && i != b ==> #[trigger] t.vsr[i] == s.vsr[i]
    &&& t.every == s.every
    &&& t.none == s.none
    &&& t.rest == s.rest
}

// Single instructions.

/// `xxswapd` on the machine.
proof fn lemma_swap(s: State, t: u32, b: u32)
    requires
        memory::wf(s),
        t < 64,
        b < 64,
    ensures
        memory::step(s, mnem::xxswapd(t, b)) == Some(
            memory::set_vsr(s, t, memory::swapped(s.vsr[b as int])),
        ),
{
    memory::law_xxpermdi_fields(t, b, b, 2);
    reveal(memory::step);
}

/// The indexed accesses and moves on the machine.
proof fn lemma_vsx(s: State, t: u32, a: u32, b: u32, xo: u32)
    requires
        memory::wf(s),
        t < 64,
        a < 32,
        b < 32,
        xo == 51 || xo == 179 || xo == 268 || xo == 844 || xo == 396 || xo == 972 || xo == 588
            || xo == 716,
    ensures
        ({
            let w = crate::encode::vsx_x_word(t, a, b, xo);
            let ea = machine::wrap(machine::base(s.cpu, a) + s.cpu.gpr[b as int]);
            &&& memory::step(s, w) == memory::step_vsx(s, w)
            &&& memory::effective_address(s.cpu, w) == ea
            &&& memory::vt(w) == t
            &&& machine::f2(w) == a
            &&& machine::xo10(w) == xo
        }),
{
    memory::law_vsx_x_fields(t, a, b, xo);
    reveal(memory::step);
}

/// The bytes of the first half of a register, as they come out in a general-purpose
/// register.
proof fn lemma_first_half(v: Seq<u8>)
    requires
        v.len() == 16,
    ensures
        forall|j: int| 0 <= j < 8 ==> #[trigger] memory::byte(memory::first_half(v), j) == v[7 - j],
{
    memory::lemma_byte_of_number(memory::reversed(v.subrange(0, 8)));
}

// Loads and stores.

/// The words of a vector store to the address `ra + rb`.
pub open spec fn store_words(src: u32, ra: u32, rb: u32, isa_3_0: bool) -> Seq<u32> {
    if isa_3_0 {
        seq![mnem::stxvx(src, ra, rb)]
    } else {
        seq![mnem::xxswapd(VEC_SCRATCH, src), mnem::stxvd2x(VEC_SCRATCH, ra, rb)]
    }
}

/// The words of a vector load from the address `ra + rb`.
pub open spec fn load_words(rd: u32, ra: u32, rb: u32, isa_3_0: bool) -> Seq<u32> {
    if isa_3_0 {
        seq![mnem::lxvx(rd, ra, rb)]
    } else {
        seq![mnem::lxvd2x(rd, ra, rb), mnem::xxswapd(rd, rd)]
    }
}

/// Running one word.
pub proof fn lemma_run_one(s: State, w: u32)
    ensures
        memory::run_words(s, seq![w]) == memory::step(s, w),
{
    memory::lemma_run_push(s, Seq::empty(), w);
    assert(Seq::<u32>::empty() + seq![w] =~= seq![w]);
}

/// Running two words.
proof fn lemma_run_two(s: State, w0: u32, w1: u32)
    ensures
        memory::run_words(s, seq![w0, w1]) == (match memory::step(s, w0) {
            Some(t) => memory::step(t, w1),
            None => None,
        }),
{
    lemma_run_one(s, w0);
    memory::lemma_run_push(s, seq![w0], w1);
    assert(seq![w0] + seq![w1] =~= seq![w0, w1]);
}

/// Two doublewords written one behind the other are a quadword written.
proof fn lemma_two_writes(mem: spec_fn(u64) -> u8, a: u64, v: Seq<u8>)
    requires
        v.len() == 16,
    ensures
        memory::store_bytes(
            memory::store_bytes(mem, a, v.subrange(0, 8)),
            machine::wrap(a + 8),
            v.subrange(8, 16),
        ) == memory::store_bytes(mem, a, v),
{
    let b = machine::wrap(a + 8);
    let one = memory::store_bytes(mem, a, v.subrange(0, 8));
    let two = memory::store_bytes(one, b, v.subrange(8, 16));
    let all = memory::store_bytes(mem, a, v);
    assert forall|x: u64| #[trigger] two(x) == all(x) by {
        let d = memory::distance(a, x);
        if d >= 8 {
            assert(memory::distance(b, x) == d - 8);
        } else {
            assert(memory::distance(b, x) == d - 8 + machine::two64());
        }
    }
    assert(two =~= all);
}

/// Two doublewords read one behind the other are a quadword read.
proof fn lemma_two_reads(mem: spec_fn(u64) -> u8, a: u64)
    ensures
        memory::load_bytes(mem, a, 8) + memory::load_bytes(mem, machine::wrap(a + 8), 8)
            == memory::load_bytes(mem, a, 16),
{
    let b = machine::wrap(a + 8);
    let two = memory::load_bytes(mem, a, 8) + memory::load_bytes(mem, b, 8);
    let all = memory::load_bytes(mem, a, 16);
    assert forall|i: int| 0 <= i < 16 implies two[i] == all[i] by {
        if i >= 8 {
            assert(machine::wrap(b + (i - 8)) == machine::wrap(a + i));
        }
    }
    assert(two =~= all);
}

/// A vector store to the address `ra + rb`.
proof fn lemma_store_words(s: State, src: u32, ra: u32, rb: u32, isa_3_0: bool)
    requires
        memory::wf(s),
        src < 64,
        ra < 32,
        rb < 32,
    ensures
        ({
            let ea = machine::wrap(machine::base(s.cpu, ra) + s.cpu.gpr[rb as int]);
            let image = memory::store_bytes(s.mem, ea, memory::reversed(s.vsr[src as int]));
            memory::run_words(s, store_words(src, ra, rb, isa_3_0)) matches Some(t) && t.mem
                == image && t.cpu == s.cpu && memory::wf(t) && same_vsr_but(
                s,
                t,
                VEC_SCRATCH,
                VEC_SCRATCH,
            )
        }),
{
    let ea = machine::wrap(machine::base(s.cpu, ra) + s.cpu.gpr[rb as int]);
    let v = s.vsr[src as int];
    if isa_3_0 {
        lemma_vsx(s, src, ra, rb, 396);
        lemma_run_one(s, mnem::stxvx(src, ra, rb));
    } else {
        lemma_swap(s, VEC_SCRATCH, src);
        let u = memory::set_vsr(s, VEC_SCRATCH, memory::swapped(v));
        lemma_vsx(u, VEC_SCRATCH, ra, rb, 972);
        lemma_run_two(s, mnem::xxswapd(VEC_SCRATCH, src), mnem::stxvd2x(VEC_SCRATCH, ra, rb));
        let r = memory::reversed(v);
        let w = memory::swapped(v);
        assert(memory::reversed(w.subrange(0, 8)) =~= r.subrange(0, 8));
        assert(memory::reversed(w.subrange(8, 16)) =~= r.subrange(8, 16));
        lemma_two_writes(s.mem, ea, r);
    }
}

/// A vector load from the address `ra + rb`.
proof fn lemma_load_words(s: State, rd: u32, ra: u32, rb: u32, isa_3_0: bool)
    requires
        memory::wf(s),
        rd < 64,
        ra < 32,
        rb < 32,
    ensures
        ({
            let ea = machine::wrap(machine::base(s.cpu, ra) + s.cpu.gpr[rb as int]);
            let v = memory::reversed(memory::load_bytes(s.mem, ea, 16));
            memory::run_words(s, load_words(rd, ra, rb, isa_3_0)) == Some(
                memory::set_vsr(s, rd, v),
            )
        }),
{
    let ea = machine::wrap(machine::base(s.cpu, ra) + s.cpu.gpr[rb as int]);
    let all = memory::load_bytes(s.mem, ea, 16);
    if isa_3_0 {
        lemma_vsx(s, rd, ra, rb, 268);
        lemma_run_one(s, mnem::lxvx(rd, ra, rb));
    } else {
        lemma_vsx(s, rd, ra, rb, 844);
        let one = memory::load_bytes(s.mem, ea, 8);
        let two = memory::load_bytes(s.mem, machine::wrap(ea + 8), 8);
        let w = memory::reversed(one) + memory::reversed(two);
        let u = memory::set_vsr(s, rd, w);
        lemma_swap(u, rd, rd);
        lemma_run_two(s, mnem::lxvd2x(rd, ra, rb), mnem::xxswapd(rd, rd));
        lemma_two_reads(s.mem, ea);
        assert(memory::swapped(w) =~= memory::reversed(all));
        assert(u.vsr.update(rd as int, memory::reversed(all)) =~= s.vsr.update(
            rd as int,
            memory::reversed(all),
        ));
    }
}

/// The words before a vector access: the offset in r0 where there is one.
pub open spec fn setup_words(offset: int) -> Seq<u32> {
    if offset == 0 {
        Seq::<u32>::empty()
    } else {
        emit_int::load_constant(0, offset as i64 as u64)
    }
}

/// Up to the access itself, a vector access changes at most r0.
proof fn lemma_setup(s: State, base: u32, offset: int) -> (u: State)
    requires
        memory::wf(s),
        0 < base < 32,
        i64::MIN <= offset <= i64::MAX,
    ensures
        memory::run_words(s, setup_words(offset)) == Some(u),
        u == (State { cpu: u.cpu, ..s }),
        memory::wf(u),
        machine::same_but(s.cpu, u.cpu, 0, 0),
        ({
            let (ra, rb) = emit_mem::vec_ea(base, offset);
            machine::wrap(machine::base(u.cpu, ra) + u.cpu.gpr[rb as int]) == machine::wrap(
                s.cpu.gpr[base as int] + offset,
            )
        }),
{
    laws_int::law_vector_access_goes_to_its_address(s.cpu, base, offset);
    laws_mem::lemma_constant_is_plain(0, offset as i64 as u64);
    laws_mem::lemma_plain_words(s, setup_words(offset));
    memory::run_words(s, setup_words(offset))->0
}

/// The words of a vector store at an addressing mode.
#[verifier::opaque]
pub open spec fn store_at(src: u32, base: u32, offset: int, isa_3_0: bool) -> Seq<u32> {
    let (ra, rb) = emit_mem::vec_ea(base, offset);
    setup_words(offset) + store_words(src, ra, rb, isa_3_0)
}

/// The words of a vector load at an addressing mode.
#[verifier::opaque]
pub open spec fn load_at(rd: u32, base: u32, offset: int, isa_3_0: bool) -> Seq<u32> {
    let (ra, rb) = emit_mem::vec_ea(base, offset);
    setup_words(offset) + load_words(rd, ra, rb, isa_3_0)
}

/// The run of a vector store.
proof fn lemma_vector_stored(s: State, src: u32, base: u32, offset: int, isa_3_0: bool)
    requires
        memory::wf(s),
        src < 64,
        0 < base < 32,
        i64::MIN <= offset <= i64::MAX,
    ensures
        ({
            let place = machine::wrap(s.cpu.gpr[base as int] + offset);
            memory::run_words(s, store_at(src, base, offset, isa_3_0)) matches Some(t) && t.mem
                == memory::store_bytes(s.mem, place, memory::reversed(s.vsr[src as int]))
                && memory::wf(t) && machine::same_but(s.cpu, t.cpu, 0, 0) && same_vsr_but(
                s,
                t,
                VEC_SCRATCH,
                VEC_SCRATCH,
            )
        }),
{
    reveal(store_at);
    let (ra, rb) = emit_mem::vec_ea(base, offset);
    let u = lemma_setup(s, base, offset);
    lemma_store_words(u, src, ra, rb, isa_3_0);
    laws_mem::lemma_run_concat(s, setup_words(offset), store_words(src, ra, rb, isa_3_0));
}

/// A vector store writes the register at the base register plus the offset, its
/// least significant byte and so its first lane lowest, with the one instruction of
/// later facilities and with the two of earlier ones. It changes nothing else but
/// at most r0 and the scratch vector register.
pub proof fn law_vector_is_stored(
    b: BufferView,
    s: State,
    src: u32,
    base: u32,
    offset: int,
    isa_3_0: bool,
)
    requires
        memory::wf(s),
        src < 64,
        0 < base < 32,
        i64::MIN <= offset <= i64::MAX,
    ensures
        emit_mem::vec_store(b, src, base, offset, isa_3_0) == b.words(
            store_at(src, base, offset, isa_3_0),
        ),
        ({
            let place = machine::wrap(s.cpu.gpr[base as int] + offset);
            memory::run_words(s, store_at(src, base, offset, isa_3_0)) matches Some(t) && t.mem
                == memory::store_bytes(s.mem, place, memory::reversed(s.vsr[src as int]))
                && memory::wf(t) && machine::same_but(s.cpu, t.cpu, 0, 0) && same_vsr_but(
                s,
                t,
                VEC_SCRATCH,
                VEC_SCRATCH,
            )
        }),
{
    reveal(store_at);
    lemma_vector_stored(s, src, base, offset, isa_3_0);
    assert(emit_mem::vec_store(b, src, base, offset, isa_3_0) =~= b.words(
        store_at(src, base, offset, isa_3_0),
    ));
}

/// The run of a vector load.
proof fn lemma_vector_loaded(s: State, rd: u32, base: u32, offset: int, isa_3_0: bool)
    requires
        memory::wf(s),
        rd < 64,
        0 < base < 32,
        i64::MIN <= offset <= i64::MAX,
    ensures
        ({
            let place = machine::wrap(s.cpu.gpr[base as int] + offset);
            let v = memory::reversed(memory::load_bytes(s.mem, place, 16));
            memory::run_words(s, load_at(rd, base, offset, isa_3_0)) matches Some(t) && t == (State {
                cpu: t.cpu,
                ..memory::set_vsr(s, rd, v)
            }) && machine::same_but(s.cpu, t.cpu, 0, 0)
        }),
{
    reveal(load_at);
    let (ra, rb) = emit_mem::vec_ea(base, offset);
    let u = lemma_setup(s, base, offset);
    lemma_load_words(u, rd, ra, rb, isa_3_0);
    laws_mem::lemma_run_concat(s, setup_words(offset), load_words(rd, ra, rb, isa_3_0));
}

/// A vector load reads the register from the base register plus the offset, with
/// the one instruction of later facilities and with the two of earlier ones. It
/// changes nothing else but at most r0.
pub proof fn law_vector_is_loaded(
    b: BufferView,
    s: State,
    rd: u32,
    base: u32,
    offset: int,
    isa_3_0: bool,
)
    requires
        memory::wf(s),
        rd < 64,
        0 < base < 32,
        i64::MIN <= offset <= i64::MAX,
    ensures
        emit_mem::vec_load(b, rd, base, offset, isa_3_0) == b.words(
            load_at(rd, base, offset, isa_3_0),
        ),
        ({
            let place = machine::wrap(s.cpu.gpr[base as int] + offset);
            let v = memory::reversed(memory::load_bytes(s.mem, place, 16));
            memory::run_words(s, load_at(rd, base, offset, isa_3_0)) matches Some(t) && t == (State {
                cpu: t.cpu,
                ..memory::set_vsr(s, rd, v)
            }) && machine::same_but(s.cpu, t.cpu, 0, 0)
        }),
{
    reveal(load_at);
    lemma_vector_loaded(s, rd, base, offset, isa_3_0);
    assert(emit_mem::vec_load(b, rd, base, offset, isa_3_0) =~= b.words(
        load_at(rd, base, offset, isa_3_0),
    ));
}

/// A load of the place that a vector was stored to gives it back, whichever of the
/// facilities each of the two is made for.
pub proof fn law_load_gives_back_the_vector(
    s: State,
    src: u32,
    rd: u32,
    base: u32,
    offset: int,
    store_isa_3_0: bool,
    load_isa_3_0: bool,
)
    requires
        memory::wf(s),
        src < 64,
        rd < 64,
        0 < base < 32,
        i64::MIN <= offset <= i64::MAX,
    ensures
        memory::run_words(
            s,
            store_at(src, base, offset, store_isa_3_0) + load_at(rd, base, offset, load_isa_3_0),
        ) matches Some(t) && t.vsr[rd as int] == s.vsr[src as int] && machine::same_but(
            s.cpu,
            t.cpu,
            0,
            0,
        ) && same_vsr_but(s, t, rd, VEC_SCRATCH),
{
    let v = s.vsr[src as int];
    let place = machine::wrap(s.cpu.gpr[base as int] + offset);
    let out = store_at(src, base, offset, store_isa_3_0);
    let back = load_at(rd, base, offset, load_isa_3_0);
    lemma_vector_stored(s, src, base, offset, store_isa_3_0);
    let u = memory::run_words(s, out)->0;
    lemma_vector_loaded(u, rd, base, offset, load_isa_3_0);
    let t = memory::run_words(u, back)->0;
    laws_mem::lemma_run_concat(s, out, back);
    let w = memory::reversed(memory::load_bytes(u.mem, place, 16));
    assert(u.cpu.gpr[base as int] == s.cpu.gpr[base as int]);
    assert(t.vsr == u.vsr.update(rd as int, w));
    assert(w == v) by {
        laws_mem::lemma_load_whole(s.mem, place, memory::reversed(v));
        assert(memory::reversed(memory::reversed(v)) =~= v);
    }
    assert(t.vsr[rd as int] == v);
    assert(same_vsr_but(s, t, rd, VEC_SCRATCH));
}

// Vectors of 64 bits.

/// The words of a store of a vector of 64 bits at an addressing mode.
pub open spec fn store64_at(src: u32, base: u32, offset: int) -> Seq<u32> {
    let (ra, rb) = emit_mem::vec_ea(base, offset);
    setup_words(offset) + seq![mnem::stxsdx(src, ra, rb)]
}

/// The words of a load of a vector of 64 bits at an addressing mode.
pub open spec fn load64_at(rd: u32, base: u32, offset: int) -> Seq<u32> {
    let (ra, rb) = emit_mem::vec_ea(base, offset);
    setup_words(offset) + seq![mnem::lxsdx(rd, ra, rb)]
}

/// A store of a vector of 64 bits writes the first half of the register at the base
/// register plus the offset, its least significant byte and so its first lane lowest.
/// It changes nothing else but at most r0.
pub proof fn law_vector64_is_stored(
    b: BufferView,
    s: State,
    src: u32,
    base: u32,
    offset: int,
)
    requires
        memory::wf(s),
        src < 64,
        0 < base < 32,
        i64::MIN <= offset <= i64::MAX,
    ensures
        emit_mem::vec_store64(b, src, base, offset) == b.words(store64_at(src, base, offset)),
        ({
            let place = machine::wrap(s.cpu.gpr[base as int] + offset);
            let v = memory::reversed(s.vsr[src as int].subrange(0, 8));
            memory::run_words(s, store64_at(src, base, offset)) matches Some(t) && t == (State {
                cpu: t.cpu,
                mem: memory::store_bytes(s.mem, place, v),
                ..s
            }) && memory::wf(t) && machine::same_but(s.cpu, t.cpu, 0, 0)
        }),
{
    let (ra, rb) = emit_mem::vec_ea(base, offset);
    let u = lemma_setup(s, base, offset);
    lemma_vsx(u, src, ra, rb, 716);
    memory::lemma_run_push(s, setup_words(offset), mnem::stxsdx(src, ra, rb));
    assert(emit_mem::vec_store64(b, src, base, offset) =~= b.words(store64_at(src, base, offset)));
}

/// A load of a vector of 64 bits reads the first half of the register from the base
/// register plus the offset, and leaves the second half to the hardware. It changes
/// nothing else but at most r0.
pub proof fn law_vector64_is_loaded(b: BufferView, s: State, rd: u32, base: u32, offset: int)
    requires
        memory::wf(s),
        rd < 64,
        0 < base < 32,
        i64::MIN <= offset <= i64::MAX,
    ensures
        emit_mem::vec_load64(b, rd, base, offset) == b.words(load64_at(rd, base, offset)),
        ({
            let place = machine::wrap(s.cpu.gpr[base as int] + offset);
            let v = memory::reversed(memory::load_bytes(s.mem, place, 8)) + s.rest;
            memory::run_words(s, load64_at(rd, base, offset)) matches Some(t) && t == (State {
                cpu: t.cpu,
                ..memory::set_vsr(s, rd, v)
            }) && machine::same_but(s.cpu, t.cpu, 0, 0)
        }),
{
    let (ra, rb) = emit_mem::vec_ea(base, offset);
    let u = lemma_setup(s, base, offset);
    lemma_vsx(u, rd, ra, rb, 588);
    memory::lemma_run_push(s, setup_words(offset), mnem::lxsdx(rd, ra, rb));
    assert(emit_mem::vec_load64(b, rd, base, offset) =~= b.words(load64_at(rd, base, offset)));
}

/// A load of the place that a vector of 64 bits was stored to gives it back.
pub proof fn law_load_gives_back_the_vector64(
    s: State,
    src: u32,
    rd: u32,
    base: u32,
    offset: int,
)
    requires
        memory::wf(s),
        src < 64,
        rd < 64,
        0 < base < 32,
        i64::MIN <= offset <= i64::MAX,
    ensures
        memory::run_words(s, store64_at(src, base, offset) + load64_at(rd, base, offset)) matches Some(
            t,
        ) && t.vsr[rd as int].subrange(0, 8) == s.vsr[src as int].subrange(0, 8)
            && machine::same_but(s.cpu, t.cpu, 0, 0) && same_vsr_but(s, t, rd, rd),
{
    let v = s.vsr[src as int].subrange(0, 8);
    let place = machine::wrap(s.cpu.gpr[base as int] + offset);
    let out = store64_at(src, base, offset);
    let back = load64_at(rd, base, offset);
    let b = BufferView { ops: Seq::empty(), size: 0, labels: 0, deadline: 0 };
    law_vector64_is_stored(b, s, src, base, offset);
    let u = memory::run_words(s, out)->0;
    law_vector64_is_loaded(b, u, rd, base, offset);
    let t = memory::run_words(u, back)->0;
    laws_mem::lemma_run_concat(s, out, back);
    let w = memory::reversed(memory::load_bytes(u.mem, place, 8));
    assert(u.cpu.gpr[base as int] == s.cpu.gpr[base as int]);
    assert(t.vsr == s.vsr.update(rd as int, w + s.rest));
    assert(w == v) by {
        laws_mem::lemma_load_whole(s.mem, place, memory::reversed(v));
        assert(memory::reversed(memory::reversed(v)) =~= v);
    }
    assert(t.vsr[rd as int].subrange(0, 8) =~= v);
}

// Lanes.

/// The splats of vector registers on the machine.
proof fn lemma_splat(s: State, d: u32, n: u32, k: u32, xo: u32, bytes: nat)
    requires
        memory::wf(s),
        d < 32,
        n < 32,
        (xo == 524 && bytes == 1) || (xo == 588 && bytes == 2) || (xo == 652 && bytes == 4),
        k * bytes < 16,
    ensures
        memory::step(s, mnem::vx(d, k, n, xo)) == Some(
            memory::set_vsr(
                s,
                (32 + d) as u32,
                memory::splat(s.vsr[32 + n], bytes, k as int),
            ),
        ),
{
    memory::law_vx_fields(d, k, n, xo);
    reveal(memory::step);
}

/// The words of the move of a lane into a general-purpose register.
#[verifier::opaque]
pub open spec fn extract_words(rd: u32, src: u32, lane_bits: u32, i: u32) -> Seq<u32> {
    let n = (src - 32) as u32;
    if lane_bits == 8 {
        seq![mnem::vspltb(0, n, (15 - i) as u32), mnem::mfvsrd(rd, VEC_SCRATCH)]
    } else if lane_bits == 16 {
        seq![mnem::vsplth(0, n, (7 - i) as u32), mnem::mfvsrd(rd, VEC_SCRATCH)]
    } else if lane_bits == 32 {
        seq![mnem::vspltw(0, n, (3 - i) as u32), mnem::mfvsrd(rd, VEC_SCRATCH)]
    } else if i == 1 {
        seq![mnem::mfvsrd(rd, src)]
    } else {
        seq![mnem::xxswapd(VEC_SCRATCH, src), mnem::mfvsrd(rd, VEC_SCRATCH)]
    }
}

/// Whether lanes have a width, and there is one of a number.
pub open spec fn is_lane(lane_bits: u32, i: u32) -> bool {
    ||| lane_bits == 8 && i < 16
    ||| lane_bits == 16 && i < 8
    ||| lane_bits == 32 && i < 4
    ||| lane_bits == 64 && i < 2
}

/// The move of a lane into a general-purpose register leaves the lane in the low
/// bytes of that register. Besides it, at most the scratch vector register changes.
pub proof fn law_lane_is_extracted(
    b: BufferView,
    s: State,
    rd: u32,
    src: u32,
    lane_bits: u32,
    i: u32,
)
    requires
        memory::wf(s),
        rd < 32,
        32 <= src < 64,
        is_lane(lane_bits, i),
    ensures
        emit_vec::vec_extract_lane_int(b, rd, src, lane_bits, i) == b.words(
            extract_words(rd, src, lane_bits, i),
        ),
        ({
            let n = (lane_bits / 8) as nat;
            memory::run_words(s, extract_words(rd, src, lane_bits, i)) matches Some(t)
                && memory::low_bytes(t.cpu.gpr[rd as int], n) == lane(
                s.vsr[src as int],
                n,
                i as int,
            ) && machine::same_but(s.cpu, t.cpu, rd, rd) && t.mem == s.mem && same_vsr_but(
                s,
                t,
                VEC_SCRATCH,
                VEC_SCRATCH,
            )
        }),
{
    reveal(extract_words);
    let ws = extract_words(rd, src, lane_bits, i);
    let v = s.vsr[src as int];
    let x = before_move(v, lane_bits, i);
    assert(emit_vec::vec_extract_lane_int(b, rd, src, lane_bits, i) == b.words(ws)) by {
        assert(emit_vec::vec_extract_lane_int(b, rd, src, lane_bits, i) =~= b.words(ws));
    }
    lemma_before_move(v, lane_bits, i);
    if lane_bits == 64 && i == 1 {
        lemma_vsx(s, src, rd, 0, 51);
        lemma_run_one(s, mnem::mfvsrd(rd, src));
        assert(memory::run_words(s, ws) == Some(
            memory::set_gpr(s, rd, memory::first_half(x)),
        ));
    } else {
        let u = memory::set_vsr(s, VEC_SCRATCH, x);
        assert(memory::step(s, ws[0]) == Some(u)) by {
            lemma_first_of_extract(s, rd, src, lane_bits, i);
        }
        lemma_vsx(u, VEC_SCRATCH, rd, 0, 51);
        lemma_run_two(s, ws[0], ws[1]);
        assert(ws =~= seq![ws[0], ws[1]]);
        assert(memory::run_words(s, ws) == Some(
            memory::set_gpr(u, rd, memory::first_half(x)),
        ));
    }
}

/// What the move to a general-purpose register takes the first half of.
spec fn before_move(v: Seq<u8>, lane_bits: u32, i: u32) -> Seq<u8> {
    if lane_bits == 8 {
        memory::splat(v, 1, 15 - i)
    } else if lane_bits == 16 {
        memory::splat(v, 2, 7 - i)
    } else if lane_bits == 32 {
        memory::splat(v, 4, 3 - i)
    } else if i == 1 {
        v
    } else {
        memory::swapped(v)
    }
}

/// The first instruction of the move of a lane, where there are two.
proof fn lemma_first_of_extract(s: State, rd: u32, src: u32, lane_bits: u32, i: u32)
    requires
        memory::wf(s),
        32 <= src < 64,
        is_lane(lane_bits, i),
        lane_bits == 64 ==> i == 0,
    ensures
        memory::step(s, extract_words(rd, src, lane_bits, i)[0]) == Some(
            memory::set_vsr(s, VEC_SCRATCH, before_move(s.vsr[src as int], lane_bits, i)),
        ),
{
    reveal(extract_words);
    let n = (src - 32) as u32;
    if lane_bits == 8 {
        lemma_splat(s, 0, n, (15 - i) as u32, 524, 1);
    } else if lane_bits == 16 {
        lemma_splat(s, 0, n, (7 - i) as u32, 588, 2);
    } else if lane_bits == 32 {
        lemma_splat(s, 0, n, (3 - i) as u32, 652, 4);
    } else {
        lemma_swap(s, VEC_SCRATCH, src);
    }
}

/// The lane is at the low end of that half.
proof fn lemma_before_move(v: Seq<u8>, lane_bits: u32, i: u32)
    requires
        v.len() == 16,
        is_lane(lane_bits, i),
    ensures
        ({
            let n = (lane_bits / 8) as nat;
            memory::low_bytes(memory::first_half(before_move(v, lane_bits, i)), n) == lane(
                v,
                n,
                i as int,
            )
        }),
{
    let n = (lane_bits / 8) as nat;
    let x = before_move(v, lane_bits, i);
    let g = memory::first_half(x);
    lemma_first_half(x);
    assert forall|j: int| 0 <= j < n implies #[trigger] memory::byte(g, j) == lane(
        v,
        n,
        i as int,
    )[j] by {
        assert(memory::byte(g, j) == x[7 - j]);
        if lane_bits == 8 {
            assert(x[7 - j] == v[15 - i]);
            assert(lane(v, 1, i as int)[j] == x[7 - j]);
        } else if lane_bits == 16 {
            assert(x[7 - j] == v[15 - 2 * i - j]);
            assert(lane(v, 2, i as int)[j] == x[7 - j]);
        } else if lane_bits == 32 {
            assert(x[7 - j] == v[15 - 4 * i - j]);
            assert(lane(v, 4, i as int)[j] == x[7 - j]);
        } else {
            assert(x[7 - j] == v[15 - 8 * i - j]);
            assert(lane(v, 8, i as int)[j] == x[7 - j]);
        }
    }
    assert(memory::low_bytes(g, n) =~= lane(v, n, i as int));
}

/// The words of the replacement of a lane.
#[verifier::opaque]
pub open spec fn insert_words(
    dst: u32,
    vec: u32,
    r: u32,
    is_float: bool,
    lane_bits: u32,
    i: u8,
    isa_3_0: bool,
) -> Seq<u32> {
    seq![mnem::addi(0, 1, 0xFFF0)] + store_words(vec, 0, 0, isa_3_0) + (seq![
        emit_vec::lane_store(is_float, lane_bits, r, emit_vec::lane_slot(lane_bits, i)),
    ] + load_words(dst, 0, 0, isa_3_0))
}

/// What replaces a lane: the low bytes of a general-purpose register, or the double
/// in a floating-point register.
pub open spec fn new_lane(s: State, r: u32, is_float: bool, lane_bits: u32) -> Seq<u8> {
    if is_float {
        memory::reversed(s.vsr[r as int].subrange(0, 8))
    } else {
        memory::low_bytes(s.cpu.gpr[r as int], (lane_bits / 8) as nat)
    }
}

/// Whether a vector is another one with one lane replaced.
pub open spec fn lane_replaced(v: Seq<u8>, was: Seq<u8>, n: nat, i: int, bytes: Seq<u8>) -> bool {
    forall|k: int|
        0 <= k && (k + 1) * n <= 16 ==> #[trigger] lane(v, n, k) == (if k == i {
            bytes
        } else {
            lane(was, n, k)
        })
}

/// The store of a lane on the machine.
proof fn lemma_lane_store(s: State, r: u32, is_float: bool, lane_bits: u32, i: u8)
    requires
        memory::wf(s),
        r < 32,
        is_lane(lane_bits, i as u32),
        is_float ==> lane_bits == 64,
    ensures
        ({
            let n = (lane_bits / 8) as int;
            let at = machine::wrap(s.cpu.gpr[1] + (i * n - 16));
            memory::step(
                s,
                emit_vec::lane_store(is_float, lane_bits, r, emit_vec::lane_slot(lane_bits, i)),
            ) == Some(memory::write(s, at, new_lane(s, r, is_float, lane_bits)))
        }),
{
    let n = (lane_bits / 8) as int;
    let off = emit_vec::lane_slot(lane_bits, i);
    assert(i * n - 16 == off) by {
        if lane_bits == 8 {
            assert(n == 1);
        } else if lane_bits == 16 {
            assert(n == 2);
        } else if lane_bits == 32 {
            assert(n == 4);
        } else {
            assert(n == 8);
        }
    }
    laws_int::lemma_displacement(off);
    machine::law_d_fields(54, r, 1, off as u16 as u32);
    machine::law_d_fields(38, r, 1, off as u16 as u32);
    machine::law_d_fields(44, r, 1, off as u16 as u32);
    machine::law_d_fields(36, r, 1, off as u16 as u32);
    if lane_bits == 64 {
        assert(i * n == 8 * i) by (nonlinear_arith)
            requires
                n == 8,
        ;
        laws_int::lemma_ds_fields(62, r, 1, off, 0);
    }
    reveal(memory::step);
}

/// The replacement of a lane leaves the vector with that lane replaced and every
/// other one as it was. It changes nothing else but r0, the scratch vector register
/// and memory in the red zone below the stack pointer.
pub proof fn law_lane_is_inserted(
    b: BufferView,
    s: State,
    dst: u32,
    vec: u32,
    r: u32,
    is_float: bool,
    lane_bits: u32,
    i: u8,
    isa_3_0: bool,
)
    requires
        memory::wf(s),
        dst < 64,
        vec < 64,
        r < 32,
        !is_float ==> r != 0,
        is_float ==> lane_bits == 64,
        is_lane(lane_bits, i as u32),
    ensures
        emit_vec::vec_insert_lane(b, dst, vec, r, is_float, lane_bits, i, isa_3_0) == b.words(
            insert_words(dst, vec, r, is_float, lane_bits, i, isa_3_0),
        ),
        ({
            let n = (lane_bits / 8) as nat;
            let place = machine::wrap(s.cpu.gpr[1] - 16);
            memory::run_words(
                s,
                insert_words(dst, vec, r, is_float, lane_bits, i, isa_3_0),
            ) matches Some(t) && memory::wf(t) && lane_replaced(
                t.vsr[dst as int],
                s.vsr[vec as int],
                n,
                i as int,
                new_lane(s, r, is_float, lane_bits),
            ) && machine::same_but(s.cpu, t.cpu, 0, 0) && same_vsr_but(
                s,
                t,
                dst,
                VEC_SCRATCH,
            ) && (forall|x: u64|
                memory::distance(place, x) >= 16 ==> #[trigger] (t.mem)(x) == (s.mem)(x))
        }),
{
    reveal(insert_words);
    let n = (lane_bits / 8) as int;
    let d = i * n;
    let v = s.vsr[vec as int];
    let place = machine::wrap(s.cpu.gpr[1] - 16);
    let ws = insert_words(dst, vec, r, is_float, lane_bits, i, isa_3_0);
    lemma_insert_words(b, dst, vec, r, is_float, lane_bits, i, isa_3_0);
    lemma_lane_inside(lane_bits, i as u32);
    let s3 = lemma_insert_stores(s, vec, r, is_float, lane_bits, i, isa_3_0);
    let bytes = new_lane(s, r, is_float, lane_bits);
    let head = seq![mnem::addi(0, 1, 0xFFF0)] + store_words(vec, 0, 0, isa_3_0);
    let w3 = emit_vec::lane_store(is_float, lane_bits, r, emit_vec::lane_slot(lane_bits, i));
    let back = load_words(dst, 0, 0, isa_3_0);
    assert(machine::wrap(0 + place) == place);
    lemma_load_words(s3, dst, 0, 0, isa_3_0);
    let v3 = memory::reversed(memory::load_bytes(s3.mem, place, 16));
    let t = memory::set_vsr(s3, dst, v3);
    assert(memory::run_words(s3, back) == Some(t));
    laws_mem::lemma_run_concat(s, head + seq![w3], back);
    assert(head + seq![w3] + back =~= ws);
    assert(memory::run_words(s, ws) == Some(t));
    let was = memory::reversed(v);
    assert(lane_replaced(v3, v, n as nat, i as int, bytes)) by {
        let m2 = memory::store_bytes(s.mem, place, was);
        laws_mem::lemma_load_whole(s.mem, place, was);
        memory::lemma_load_around(m2, place, 16, d, bytes);
        lemma_lanes_around(v, bytes, n, i as int);
    }
    lemma_outside(s.mem, place, was, d, bytes);
}

/// The words of the replacement of a lane are what is emitted for it.
proof fn lemma_insert_words(
    b: BufferView,
    dst: u32,
    vec: u32,
    r: u32,
    is_float: bool,
    lane_bits: u32,
    i: u8,
    isa_3_0: bool,
)
    ensures
        emit_vec::vec_insert_lane(b, dst, vec, r, is_float, lane_bits, i, isa_3_0) == b.words(
            insert_words(dst, vec, r, is_float, lane_bits, i, isa_3_0),
        ),
{
    reveal(insert_words);
    assert(emit_vec::vec_insert_lane(b, dst, vec, r, is_float, lane_bits, i, isa_3_0) =~= b.words(
        insert_words(dst, vec, r, is_float, lane_bits, i, isa_3_0),
    ));
}

/// What lies outside of a quadword that is written, and of what is written over it.
proof fn lemma_outside(mem: spec_fn(u64) -> u8, a: u64, v: Seq<u8>, d: int, t: Seq<u8>)
    requires
        v.len() == 16,
        0 <= d,
        d + t.len() <= 16,
    ensures
        forall|x: u64|
            memory::distance(a, x) >= 16 ==> #[trigger] memory::store_bytes(
                memory::store_bytes(mem, a, v),
                machine::wrap(a + d),
                t,
            )(x) == mem(x),
{
    assert forall|x: u64| memory::distance(a, x) >= 16 implies #[trigger] memory::store_bytes(
        memory::store_bytes(mem, a, v),
        machine::wrap(a + d),
        t,
    )(x) == mem(x) by {
        assert(memory::distance(machine::wrap(a + d), x) == memory::distance(a, x) - d);
    }
}

/// A lane lies inside the vector.
proof fn lemma_lane_inside(lane_bits: u32, i: u32)
    requires
        is_lane(lane_bits, i),
    ensures
        0 <= i * (lane_bits / 8),
        i * (lane_bits / 8) + lane_bits / 8 <= 16,
        (i + 1) * (lane_bits / 8) <= 16,
{
    if lane_bits == 8 {
        assert(lane_bits / 8 == 1);
    } else if lane_bits == 16 {
        assert(lane_bits / 8 == 2);
    } else if lane_bits == 32 {
        assert(lane_bits / 8 == 4);
    } else {
        assert(lane_bits / 8 == 8);
    }
}

/// The first part of the replacement of a lane: the vector goes to memory, and the
/// lane over it.
proof fn lemma_insert_stores(
    s: State,
    vec: u32,
    r: u32,
    is_float: bool,
    lane_bits: u32,
    i: u8,
    isa_3_0: bool,
) -> (t: State)
    requires
        memory::wf(s),
        vec < 64,
        r < 32,
        !is_float ==> r != 0,
        is_float ==> lane_bits == 64,
        is_lane(lane_bits, i as u32),
    ensures
        ({
            let n = (lane_bits / 8) as int;
            let place = machine::wrap(s.cpu.gpr[1] - 16);
            let w = emit_vec::lane_store(is_float, lane_bits, r, emit_vec::lane_slot(lane_bits, i));
            let image = memory::store_bytes(
                s.mem,
                place,
                memory::reversed(s.vsr[vec as int]),
            );
            &&& memory::run_words(
                s,
                seq![mnem::addi(0, 1, 0xFFF0)] + store_words(vec, 0, 0, isa_3_0) + seq![w],
            ) == Some(t)
            &&& t.mem == memory::store_bytes(
                image,
                machine::wrap(place + i * n),
                new_lane(s, r, is_float, lane_bits),
            )
            &&& memory::wf(t)
            &&& t.cpu.gpr[0] == place
            &&& machine::same_but(s.cpu, t.cpu, 0, 0)
            &&& same_vsr_but(s, t, VEC_SCRATCH, VEC_SCRATCH)
        }),
{
    let n = (lane_bits / 8) as int;
    let place = machine::wrap(s.cpu.gpr[1] - 16);
    let w0 = mnem::addi(0, 1, 0xFFF0);
    laws_mem::lemma_addi(s, 0, 1, 0xFFF0);
    lemma_run_one(s, w0);
    let s1 = memory::set_gpr(s, 0, place);
    assert(machine::wrap(0 + place) == place);
    let out = store_words(vec, 0, 0, isa_3_0);
    lemma_store_words(s1, vec, 0, 0, isa_3_0);
    let s2 = memory::run_words(s1, out)->0;
    laws_mem::lemma_run_concat(s, seq![w0], out);
    let w3 = emit_vec::lane_store(is_float, lane_bits, r, emit_vec::lane_slot(lane_bits, i));
    lemma_lane_store(s2, r, is_float, lane_bits, i);
    memory::lemma_run_push(s, seq![w0] + out, w3);
    assert(new_lane(s2, r, is_float, lane_bits) == new_lane(s, r, is_float, lane_bits));
    lemma_lane_inside(lane_bits, i as u32);
    assert(machine::wrap(s.cpu.gpr[1] + (i * n - 16)) == machine::wrap(place + i * n));
    memory::run_words(s, seq![w0] + out + seq![w3])->0
}

/// The lanes of a vector whose image in memory has the bytes of one lane replaced.
proof fn lemma_lanes_around(v: Seq<u8>, bytes: Seq<u8>, n: int, i: int)
    requires
        v.len() == 16,
        n == 1 || n == 2 || n == 4 || n == 8,
        bytes.len() == n,
        0 <= i,
        i * n + n <= 16,
    ensures
        lane_replaced(
            memory::reversed(
                memory::reversed(v).subrange(0, i * n) + bytes + memory::reversed(v).subrange(
                    i * n + n,
                    16,
                ),
            ),
            v,
            n as nat,
            i,
            bytes,
        ),
{
    let was = memory::reversed(v);
    assert(0 <= i * n) by (nonlinear_arith)
        requires
            0 <= i,
            0 <= n,
    ;
    let image = was.subrange(0, i * n) + bytes + was.subrange(i * n + n, 16);
    let new = memory::reversed(image);
    assert forall|k: int| 0 <= k && (k + 1) * n <= 16 implies #[trigger] lane(new, n as nat, k) == (
    if k == i {
        bytes
    } else {
        lane(v, n as nat, k)
    }) by {
        lemma_lane_place(n, k, i);
        let got = lane(new, n as nat, k);
        let want = if k == i {
            bytes
        } else {
            lane(v, n as nat, k)
        };
        assert forall|j: int| 0 <= j < n implies got[j] == want[j] by {
            assert(got[j] == image[k * n + j]);
            if k != i {
                assert(image[k * n + j] == was[k * n + j]);
            }
        }
        assert(got =~= want);
    }
}

/// Lanes lie apart.
proof fn lemma_lane_place(n: int, k: int, i: int)
    requires
        n == 1 || n == 2 || n == 4 || n == 8,
        0 <= k,
        0 <= i,
        (k + 1) * n <= 16,
    ensures
        0 <= k * n,
        k * n + n <= 16,
        k < i ==> k * n + n <= i * n,
        k > i ==> i * n + n <= k * n,
{
    if n == 1 {
    } else if n == 2 {
    } else if n == 4 {
    } else {
        assert(n == 8);
    }
}

/// A lane that was put into a vector is what a move of that lane out of it gives.
pub proof fn law_inserted_lane_is_extracted(
    s: State,
    rd: u32,
    dst: u32,
    vec: u32,
    r: u32,
    lane_bits: u32,
    i: u8,
    isa_3_0: bool,
)
    requires
        memory::wf(s),
        rd < 32,
        32 <= dst < 64,
        vec < 64,
        0 < r < 32,
        is_lane(lane_bits, i as u32),
    ensures
        ({
            let n = (lane_bits / 8) as nat;
            memory::run_words(
                s,
                insert_words(dst, vec, r, false, lane_bits, i, isa_3_0) + extract_words(
                    rd,
                    dst,
                    lane_bits,
                    i as u32,
                ),
            ) matches Some(t) && memory::low_bytes(t.cpu.gpr[rd as int], n) == memory::low_bytes(
                s.cpu.gpr[r as int],
                n,
            )
        }),
{
    let b = BufferView { ops: Seq::empty(), size: 0, labels: 0, deadline: 0 };
    let ws = insert_words(dst, vec, r, false, lane_bits, i, isa_3_0);
    law_lane_is_inserted(b, s, dst, vec, r, false, lane_bits, i, isa_3_0);
    let u = memory::run_words(s, ws)->0;
    law_lane_is_extracted(b, u, rd, dst, lane_bits, i as u32);
    laws_mem::lemma_run_concat(s, ws, extract_words(rd, dst, lane_bits, i as u32));
    let n = (lane_bits / 8) as nat;
    assert((i + 1) * n <= 16) by {
        if lane_bits == 8 {
            assert(n == 1);
        } else if lane_bits == 16 {
            assert(n == 2);
        } else if lane_bits == 32 {
            assert(n == 4);
        } else {
            assert(n == 8);
        }
    }
    assert(lane(u.vsr[dst as int], n, i as int) == new_lane(s, r, false, lane_bits));
}

/// A splat of what a move from a general-purpose register left in a vector register
/// gives a vector whose lanes are all the low bytes of that register.
pub proof fn law_every_lane_is_splatted(s: State, d: u32, n: u32, r: u32, lane_bits: u32)
    requires
        memory::wf(s),
        32 <= d < 64,
        32 <= n < 64,
        r < 32,
        lane_bits == 8 || lane_bits == 16 || lane_bits == 32 || lane_bits == 64,
    ensures
        ({
            let bytes = (lane_bits / 8) as nat;
            memory::run_words(
                s,
                seq![mnem::mtvsrd(n, r), emit_vec::vec_splat_lane(d, n, lane_bits)],
            ) matches Some(t) && (forall|k: int|
                0 <= k && (k + 1) * bytes <= 16 ==> #[trigger] lane(t.vsr[d as int], bytes, k)
                    == memory::low_bytes(s.cpu.gpr[r as int], bytes)) && t.cpu == s.cpu && t.mem
                == s.mem && same_vsr_but(s, t, d, n)
        }),
{
    let bytes = (lane_bits / 8) as nat;
    let w0 = mnem::mtvsrd(n, r);
    let w1 = emit_vec::vec_splat_lane(d, n, lane_bits);
    let low = memory::low_bytes(s.cpu.gpr[r as int], 8);
    let v = memory::reversed(low) + s.rest;
    lemma_vsx(s, n, r, 0, 179);
    let u = memory::set_vsr(s, n, v);
    let x = if lane_bits == 8 {
        lemma_splat(u, (d - 32) as u32, (n - 32) as u32, 7, 524, 1);
        memory::splat(v, 1, 7)
    } else if lane_bits == 16 {
        lemma_splat(u, (d - 32) as u32, (n - 32) as u32, 3, 588, 2);
        memory::splat(v, 2, 3)
    } else if lane_bits == 32 {
        lemma_splat(u, (d - 32) as u32, (n - 32) as u32, 1, 652, 4);
        memory::splat(v, 4, 1)
    } else {
        memory::law_xxpermdi_fields(d, n, n, 0);
        assert(memory::step(u, w1) == Some(
            memory::set_vsr(u, d, memory::half(v, false) + memory::half(v, false)),
        )) by {
            reveal(memory::step);
        }
        memory::half(v, false) + memory::half(v, false)
    };
    lemma_run_two(s, w0, w1);
    let t = memory::set_vsr(u, d, x);
    assert(memory::run_words(s, seq![w0, w1]) == Some(t));
    assert forall|k: int| 0 <= k && (k + 1) * bytes <= 16 implies #[trigger] lane(x, bytes, k)
        == memory::low_bytes(s.cpu.gpr[r as int], bytes) by {
        lemma_lane_place(bytes as int, k, 0);
        let got = lane(x, bytes, k);
        assert forall|j: int| 0 <= j < bytes implies got[j] == low[j] by {
            if lane_bits == 8 {
                assert(x[15 - k * bytes - j] == v[7]);
            } else if lane_bits == 16 {
                assert((15 - 2 * k - j) % 2 == 1 - j);
                assert(x[15 - k * bytes - j] == v[7 - j]);
            } else if lane_bits == 32 {
                assert((15 - 4 * k - j) % 4 == 3 - j);
                assert(x[15 - k * bytes - j] == v[7 - j]);
            } else {
                assert(k == 0 || k == 1);
                assert(x[15 - k * bytes - j] == v[7 - j]);
            }
        }
        assert(got =~= memory::low_bytes(s.cpu.gpr[r as int], bytes));
    }
}

// Logic.

/// What a logical operation makes of two bytes.
pub open spec fn logic_of(op: VecAluOp, x: u8, y: u8) -> u8 {
    match op {
        VecAluOp::And => x & y,
        VecAluOp::Or => x | y,
        VecAluOp::Xor => x ^ y,
        VecAluOp::Nor => !(x | y),
        _ => x & !y,
    }
}

/// A logical operation combines its operands byte by byte, whatever the lanes are.
pub proof fn law_vector_logic(s: State, op: VecAluOp, d: u32, a: u32, b: u32, lane_bits: u32)
    requires
        memory::wf(s),
        op.is_bitwise(),
        d < 64,
        a < 64,
        b < 64,
    ensures
        memory::step(s, emit_vec::vec_alu_rrr(op, d, a, b, lane_bits)) == Some(
            memory::set_vsr(
                s,
                d,
                Seq::new(16, |i: int| logic_of(op, s.vsr[a as int][i], s.vsr[b as int][i])),
            ),
        ),
{
    let xo: u32 = match op {
        VecAluOp::And => 130,
        VecAluOp::Or => 146,
        VecAluOp::Xor => 154,
        VecAluOp::Nor => 162,
        _ => 138,
    };
    memory::law_xx3_fields(d, a, b, xo);
    let x = s.vsr[a as int];
    let y = s.vsr[b as int];
    assert(Seq::new(16, |i: int| memory::logical_byte(xo, x[i], y[i])->0) =~= Seq::new(
        16,
        |i: int| logic_of(op, x[i], y[i]),
    ));
    reveal(memory::step);
}

// Tests of lanes.

/// Whether a lane holds anything but zeros.
pub open spec fn lane_holds(v: Seq<u8>, n: nat, i: int) -> bool {
    exists|j: int| 0 <= j < n && #[trigger] lane(v, n, i)[j] != 0
}

/// Whether every lane of a vector holds anything but zeros.
pub open spec fn all_hold(v: Seq<u8>, n: nat) -> bool {
    forall|i: int| 0 <= i && (i + 1) * n <= 16 ==> #[trigger] lane_holds(v, n, i)
}

/// Whether some lane does.
pub open spec fn any_holds(v: Seq<u8>, n: nat) -> bool {
    exists|i: int| 0 <= i && (i + 1) * n <= 16 && #[trigger] lane_holds(v, n, i)
}

/// The words of a test of lanes.
#[verifier::opaque]
pub open spec fn test_words(rd: u32, n: u32, lane_bits: u32, all: bool) -> Seq<u32> {
    let head = seq![
        mnem::xxlxor(VEC_SCRATCH, VEC_SCRATCH, VEC_SCRATCH),
        mnem::vx(
            0,
            (n - 32) as u32,
            0,
            (emit_vec::spec_vx_xo(VecAluOp::CmpEq, lane_bits) + 1024) as u32,
        ),
        mnem::li(rd, 1),
    ];
    head + if all {
        seq![mnem::li(0, 0), mnem::isel(rd, rd, 0, CR6_EQ)]
    } else {
        seq![mnem::isel(rd, 0, rd, CR6_LT)]
    }
}

/// Elements that equal those of a zero vector are the lanes that hold zeros.
proof fn lemma_elements(v: Seq<u8>, z: Seq<u8>, n: nat)
    requires
        v.len() == 16,
        z.len() == 16,
        forall|i: int| 0 <= i < 16 ==> #[trigger] z[i] == 0,
        n == 1 || n == 2 || n == 4 || n == 8,
    ensures
        (forall|k: int| 0 <= k && (k + 1) * n <= 16 ==> !(#[trigger] memory::element_equal(
            v,
            z,
            n,
            k,
        ))) == all_hold(v, n),
        (forall|k: int| 0 <= k && (k + 1) * n <= 16 ==> #[trigger] memory::element_equal(
            v,
            z,
            n,
            k,
        )) == !any_holds(v, n),
{
    let m = 16int / (n as int);
    assert(m * n == 16) by {
        assert(n == 1 || n == 2 || n == 4 || n == 8);
    }
    assert forall|k: int| 0 <= k && (k + 1) * n <= 16 implies #[trigger] memory::element_equal(
        v,
        z,
        n,
        k,
    ) == !lane_holds(v, n, m - 1 - k) by {
        lemma_element_is_lane(v, z, n, k);
    }
    assert forall|i: int| 0 <= i && (i + 1) * n <= 16 implies #[trigger] lane_holds(v, n, i)
        == !memory::element_equal(v, z, n, m - 1 - i) by {
        lemma_mirror(n, i);
        lemma_element_is_lane(v, z, n, m - 1 - i);
        assert(m - 1 - (m - 1 - i) == i);
    }
    assert forall|k: int| 0 <= k && (k + 1) * n <= 16 implies 0 <= #[trigger] (m - 1 - k) && (m - k)
        * n <= 16 by {
        lemma_mirror(n, k);
    }
    if all_hold(v, n) {
        assert forall|k: int| 0 <= k && (k + 1) * n <= 16 implies !(#[trigger] memory::element_equal(
            v,
            z,
            n,
            k,
        )) by {
            lemma_mirror(n, k);
            assert(lane_holds(v, n, m - 1 - k));
        }
    }
    if !any_holds(v, n) {
        assert forall|k: int| 0 <= k && (k + 1) * n <= 16 implies #[trigger] memory::element_equal(
            v,
            z,
            n,
            k,
        ) by {
            lemma_mirror(n, k);
            assert(!lane_holds(v, n, m - 1 - k));
        }
    } else {
        let i = choose|i: int| 0 <= i && (i + 1) * n <= 16 && #[trigger] lane_holds(v, n, i);
        lemma_mirror(n, i);
        assert(!memory::element_equal(v, z, n, m - 1 - i));
    }
}

/// Counting from the other end.
proof fn lemma_mirror(n: nat, k: int)
    requires
        n == 1 || n == 2 || n == 4 || n == 8,
        0 <= k,
        (k + 1) * n <= 16,
    ensures
        0 <= 16int / (n as int) - 1 - k,
        (16int / (n as int) - 1 - k + 1) * n <= 16,
        (16int / (n as int) - 1 - k) * n == 16 - n - k * n,
{
    if n == 1 {
    } else if n == 2 {
    } else if n == 4 {
    } else {
        assert(n == 8);
    }
}

/// An element, counted from the most significant one, is a lane, counted from the
/// least significant one.
proof fn lemma_element_is_lane(v: Seq<u8>, z: Seq<u8>, n: nat, k: int)
    requires
        v.len() == 16,
        z.len() == 16,
        forall|i: int| 0 <= i < 16 ==> #[trigger] z[i] == 0,
        n == 1 || n == 2 || n == 4 || n == 8,
        0 <= k,
        (k + 1) * n <= 16,
    ensures
        memory::element_equal(v, z, n, k) == !lane_holds(v, n, 16int / (n as int) - 1 - k),
{
    let i = 16int / (n as int) - 1 - k;
    lemma_mirror(n, k);
    lemma_lane_place(n as int, k, 0);
    assert((k + 1) * n == k * n + n) by (nonlinear_arith);
    if memory::element_equal(v, z, n, k) {
        assert forall|j: int| 0 <= j < n implies #[trigger] lane(v, n, i)[j] == 0 by {
            assert(v[k * n + n - 1 - j] == z[k * n + n - 1 - j]);
        }
    } else {
        let j = choose|j: int| k * n <= j < (k + 1) * n && #[trigger] v[j] != z[j];
        assert(lane(v, n, i)[k * n + n - 1 - j] == v[j]);
    }
}

/// Facts about bits: a byte with itself, a doubleword with zero, and what the short
/// extended opcode is of the long one.
pub proof fn lemma_bits(x: u8, y: u64, w: u32)
    by (bit_vector)
    ensures
        x ^ x == 0u8,
        x | x == x,
        y | 0 == y,
        ((w >> 1) & 0x3FF) % 32 == (w >> 1) & 0x1F,
{
}

/// `isel` on a bit of a recording vector compare.
proof fn lemma_isel(s: State, rt: u32, ra: u32, rb: u32, bit: u32)
    requires
        memory::wf(s),
        rt < 32,
        ra < 32,
        rb < 32,
        bit == CR6_LT || bit == CR6_EQ,
    ensures
        memory::step(s, mnem::isel(rt, ra, rb, bit)) == Some(
            memory::set_gpr(
                s,
                rt,
                if bit == CR6_LT && s.every || bit == CR6_EQ && s.none {
                    machine::base(s.cpu, ra)
                } else {
                    s.cpu.gpr[rb as int]
                },
            ),
        ),
{
    machine::law_a_fields(31, rt, ra, rb, bit, 15);
    lemma_bits(0, 0, mnem::isel(rt, ra, rb, bit));
    reveal(memory::step);
}

/// `li` on the machine.
pub proof fn lemma_li(s: State, rd: u32, si: u16)
    requires
        memory::wf(s),
        rd < 32,
        si < 0x8000,
    ensures
        memory::step(s, mnem::li(rd, si)) == Some(memory::set_gpr(s, rd, si as u64)),
{
    machine::law_d_fields(14, rd, 0, si as u32);
    laws_mem::lemma_plain(s, mnem::li(rd, si));
    laws_int::lemma_li(s.cpu, rd, si);
}

/// Sixteen zeros.
pub open spec fn zeros() -> Seq<u8> {
    Seq::new(16, |i: int| 0u8)
}

/// The exclusive or of a register with itself is zero.
proof fn lemma_zero(s: State, d: u32)
    requires
        memory::wf(s),
        d < 64,
    ensures
        memory::step(s, mnem::xxlxor(d, d, d)) == Some(memory::set_vsr(s, d, zeros())),
{
    law_vector_logic(s, VecAluOp::Xor, d, d, d, 8);
    let v = s.vsr[d as int];
    assert forall|i: int| 0 <= i < 16 implies #[trigger] logic_of(VecAluOp::Xor, v[i], v[i])
        == 0 by {
        lemma_bits(v[i], 0, 0);
    }
    assert(Seq::new(16, |i: int| logic_of(VecAluOp::Xor, v[i], v[i])) =~= zeros());
}

/// The recording compare of a test of lanes.
proof fn lemma_recording_compare(s: State, n: u32, lane_bits: u32)
    requires
        memory::wf(s),
        32 <= n < 64,
        s.vsr[32] == zeros(),
        lane_bits == 8 || lane_bits == 16 || lane_bits == 32 || lane_bits == 64,
    ensures
        memory::step(
            s,
            mnem::vx(
                0,
                (n - 32) as u32,
                0,
                (emit_vec::spec_vx_xo(VecAluOp::CmpEq, lane_bits) + 1024) as u32,
            ),
        ) matches Some(t) && t.every == !any_holds(s.vsr[n as int], (lane_bits / 8) as nat)
            && t.none == all_hold(s.vsr[n as int], (lane_bits / 8) as nat) && t.cpu == s.cpu
            && t.mem == s.mem && memory::wf(t) && t.rest == s.rest && (forall|i: int|
            0 <= i < 64 && i != 32 ==> #[trigger] t.vsr[i] == s.vsr[i]),
{
    let bytes = (lane_bits / 8) as nat;
    let xo = (emit_vec::spec_vx_xo(VecAluOp::CmpEq, lane_bits) + 1024) as u32;
    let w = mnem::vx(0, (n - 32) as u32, 0, xo);
    assert(xo == if lane_bits == 8 {
        1030u32
    } else if lane_bits == 16 {
        1094
    } else if lane_bits == 32 {
        1158
    } else {
        1223
    });
    memory::law_vx_fields(0, (n - 32) as u32, 0, xo);
    let t = memory::compared_elements(s, 32, s.vsr[n as int], zeros(), bytes);
    assert(memory::step(s, w) == Some(t)) by {
        reveal(memory::step);
    }
    lemma_elements(s.vsr[n as int], zeros(), bytes);
}

/// A test of lanes leaves one in the destination where all lanes hold anything but
/// zeros, or where any does, and else zero. Besides it, r0, the scratch vector
/// register and the outcome of the compare change.
pub proof fn law_lanes_are_tested(
    b: BufferView,
    s: State,
    rd: u32,
    n: u32,
    lane_bits: u32,
    all: bool,
)
    requires
        memory::wf(s),
        0 < rd < 32,
        32 < n < 64,
        lane_bits == 8 || lane_bits == 16 || lane_bits == 32 || lane_bits == 64,
    ensures
        emit_vec::vec_test_lanes(b, rd, n, lane_bits, all) == b.words(
            test_words(rd, n, lane_bits, all),
        ),
        ({
            let bytes = (lane_bits / 8) as nat;
            let v = s.vsr[n as int];
            let holds = if all {
                all_hold(v, bytes)
            } else {
                any_holds(v, bytes)
            };
            memory::run_words(s, test_words(rd, n, lane_bits, all)) matches Some(t)
                && t.cpu.gpr[rd as int] == machine::one_if(holds) && machine::same_but(
                s.cpu,
                t.cpu,
                rd,
                0,
            ) && t.mem == s.mem && (forall|i: int|
                0 <= i < 64 && i != 32 ==> #[trigger] t.vsr[i] == s.vsr[i])
        }),
{
    reveal(test_words);
    let ws = test_words(rd, n, lane_bits, all);
    assert(emit_vec::vec_test_lanes(b, rd, n, lane_bits, all) =~= b.words(ws));
    lemma_zero(s, VEC_SCRATCH);
    let s1 = memory::set_vsr(s, VEC_SCRATCH, zeros());
    lemma_recording_compare(s1, n, lane_bits);
    let s2 = memory::step(s1, ws[1])->0;
    lemma_li(s2, rd, 1);
    let s3 = memory::set_gpr(s2, rd, 1);
    lemma_run_two(s, ws[0], ws[1]);
    memory::lemma_run_push(s, seq![ws[0], ws[1]], ws[2]);
    let head = seq![ws[0], ws[1]] + seq![ws[2]];
    assert(memory::run_words(s, head) == Some(s3));
    if all {
        lemma_li(s3, 0, 0);
        let s4 = memory::set_gpr(s3, 0, 0);
        lemma_isel(s4, rd, rd, 0, CR6_EQ);
        lemma_run_two(s3, ws[3], ws[4]);
        laws_mem::lemma_run_concat(s, head, seq![ws[3], ws[4]]);
        assert(ws =~= head + seq![ws[3], ws[4]]);
    } else {
        lemma_isel(s3, rd, 0, rd, CR6_LT);
        memory::lemma_run_push(s, head, ws[3]);
        assert(ws =~= head + seq![ws[3]]);
    }
}

// Moves.

/// What a register holds: a doubleword, a double or a vector.
pub open spec fn contents(s: State, r: Reg) -> Seq<u8> {
    match r.class {
        RegClass::Int => memory::low_bytes(s.cpu.gpr[r.num() as int], 8),
        RegClass::Float => s.vsr[r.num() as int].subrange(0, 8),
        RegClass::Vector => s.vsr[r.vsr() as int],
    }
}

/// The words of a move.
pub open spec fn move_words(rd: Reg, rm: Reg) -> Seq<u32> {
    if rd == rm {
        seq![]
    } else {
        seq![
            match rm.class {
                RegClass::Int => mnem::ori(rd.num(), rm.num(), 0),
                RegClass::Float => mnem::fmr(rd.num(), rm.num()),
                RegClass::Vector => mnem::xxlor(rd.vsr(), rm.vsr(), rm.vsr()),
            },
        ]
    }
}

/// A move between registers of one class leaves in the destination what the source
/// holds. In the classes of the two registers no other one changes, and none of the
/// other classes does.
pub proof fn law_move_copies(b: BufferView, s: State, rd: Reg, rm: Reg)
    requires
        memory::wf(s),
        rd.is_real(),
        rm.is_real(),
        rd.class == rm.class,
    ensures
        emit::mov(b, rd, rm) == b.words(move_words(rd, rm)),
        memory::run_words(s, move_words(rd, rm)) matches Some(t) && contents(t, rd) == contents(
            s,
            rm,
        ) && t.mem == s.mem && (match rd.class {
            RegClass::Int => t.vsr == s.vsr && machine::same_but(s.cpu, t.cpu, rd.num(), rd.num()),
            RegClass::Float => t.cpu == s.cpu && same_vsr_but(s, t, rd.num(), rd.num()),
            RegClass::Vector => t.cpu == s.cpu && same_vsr_but(s, t, rd.vsr(), rd.vsr()),
        }),
{
    if rd == rm {
        assert(b.words(move_words(rd, rm)) =~= b);
        assert(memory::run_words(s, move_words(rd, rm)) == Some(s));
    } else {
        let w = move_words(rd, rm)[0];
        assert(b.word(w) =~= b.words(seq![w]));
        lemma_run_one(s, w);
        match rm.class {
            RegClass::Int => {
                let x = s.cpu.gpr[rm.num() as int];
                lemma_bits(0, x, 0);
                machine::law_d_fields(24, rm.num(), rd.num(), 0);
                laws_mem::lemma_plain(s, w);
                assert(machine::step(s.cpu, w) == Some(machine::set(s.cpu, rd.num(), x))) by {
                    reveal(machine::step);
                }
            },
            RegClass::Float => {
                machine::law_x_fields(63, rd.num(), 0, rm.num(), 72);
                let h = s.vsr[rm.num() as int].subrange(0, 8);
                assert(memory::step(s, w) == Some(memory::set_vsr(s, rd.num(), h + s.rest))) by {
                    reveal(memory::step);
                }
                assert((h + s.rest).subrange(0, 8) =~= h);
            },
            RegClass::Vector => {
                let v = s.vsr[rm.vsr() as int];
                law_vector_logic(s, VecAluOp::Or, rd.vsr(), rm.vsr(), rm.vsr(), 8);
                assert forall|i: int| 0 <= i < 16 implies #[trigger] logic_of(
                    VecAluOp::Or,
                    v[i],
                    v[i],
                ) == v[i] by {
                    lemma_bits(v[i], 0, 0);
                }
                assert(Seq::new(16, |i: int| logic_of(VecAluOp::Or, v[i], v[i])) =~= v);
            },
        }
    }
}

} // verus!
