//! What instructions that access memory do, and those that move lanes of vectors.
use vstd::prelude::*;
use crate::args::{AMode, LoadOP, StoreOP};
use crate::buffer::BufferView;
use crate::emit;
use crate::emit::{EmitInfo, EmitState};
use crate::emit_mem;
use crate::floating;
use crate::inst::{Inst, VecAluOp};
use crate::ir::{MemFlagsData, Type};
use crate::laws_inst;
use crate::laws_int;
use crate::laws_mem;
use crate::laws_vec;
use crate::machine;
use crate::memory;
use crate::memory::State;
use crate::mnem;
use crate::regs::{Reg, Writable};

verus! {

/// The address that an access is to go to.
pub open spec fn address(s: State, at: AMode, state: EmitState) -> u64 {
    machine::wrap(s.cpu.gpr[at.base().num() as int] + at.offset(state.frame_layout))
}

/// A load of an integer leaves the bytes at its address in its register, and changes
/// nothing else but r0.
pub proof fn law_load_instruction(
    b: BufferView,
    s: State,
    rd: Writable<Reg>,
    op: LoadOP,
    flags: MemFlagsData,
    from: AMode,
    info: EmitInfo,
    state: EmitState,
)
    requires
        memory::wf(s),
        emit::encodable(Inst::Load { rd, op, flags, from }, state.frame_layout),
        laws_mem::loaded_width(op) is Some,
    ensures
        ({
            let start = emit_mem::flagged(b, flags);
            let after = emit::emitted(Inst::Load { rd, op, flags, from }, b, info, state);
            let ws = laws_inst::appended(start, after);
            let bytes = memory::load_bytes(
                s.mem,
                address(s, from, state),
                laws_mem::loaded_width(op)->0,
            );
            &&& after == start.words(ws)
            &&& memory::run_words(s, ws) matches Some(t) && t == (State { cpu: t.cpu, ..s })
                && t.cpu.gpr[rd.reg.num() as int] == memory::doubleword(bytes) && machine::same_but(
                s.cpu,
                t.cpu,
                rd.reg.num(),
                0,
            )
        }),
{
    reveal(emit::emitted_memory);
    let start = emit_mem::flagged(b, flags);
    let (d, base, at) = (rd.reg.num(), from.base().num(), from.offset(state.frame_layout));
    laws_mem::law_scalar_is_loaded(start, s, d, base, at, op);
    laws_inst::lemma_appended(
        start,
        laws_mem::access_words(d, base, at, emit_mem::load_access(op)),
    );
}

/// A store of an integer writes the low bytes of its register at its address, and changes
/// nothing else but r0.
pub proof fn law_store_instruction(
    b: BufferView,
    s: State,
    to: AMode,
    op: StoreOP,
    flags: MemFlagsData,
    src: Reg,
    info: EmitInfo,
    state: EmitState,
)
    requires
        memory::wf(s),
        emit::encodable(Inst::Store { to, op, flags, src }, state.frame_layout),
        laws_mem::stored_width(op) is Some,
        src.num() != 0,
    ensures
        ({
            let start = emit_mem::flagged(b, flags);
            let after = emit::emitted(Inst::Store { to, op, flags, src }, b, info, state);
            let ws = laws_inst::appended(start, after);
            let bytes = memory::low_bytes(
                s.cpu.gpr[src.num() as int],
                laws_mem::stored_width(op)->0,
            );
            &&& after == start.words(ws)
            &&& memory::run_words(s, ws) matches Some(t) && t == (State {
                cpu: t.cpu,
                ..memory::write(s, address(s, to, state), bytes)
            }) && machine::same_but(s.cpu, t.cpu, 0, 0)
        }),
{
    reveal(emit::emitted_memory);
    let start = emit_mem::flagged(b, flags);
    let (d, base, at) = (src.num(), to.base().num(), to.offset(state.frame_layout));
    laws_mem::law_scalar_is_stored(start, s, d, base, at, op);
    laws_inst::lemma_appended(
        start,
        laws_mem::access_words(d, base, at, emit_mem::store_access(op)),
    );
}

/// A load of a double leaves the bytes at its address in its register.
pub proof fn law_double_load_instruction(
    b: BufferView,
    s: State,
    rd: Writable<Reg>,
    flags: MemFlagsData,
    from: AMode,
    info: EmitInfo,
    state: EmitState,
)
    requires
        memory::wf(s),
        emit::encodable(Inst::Load { rd, op: LoadOP::Lfd, flags, from }, state.frame_layout),
    ensures
        ({
            let start = emit_mem::flagged(b, flags);
            let inst = Inst::Load { rd, op: LoadOP::Lfd, flags, from };
            let after = emit::emitted(inst, b, info, state);
            let ws = laws_inst::appended(start, after);
            let bytes = memory::load_bytes(s.mem, address(s, from, state), 8);
            &&& after == start.words(ws)
            &&& memory::run_words(s, ws) matches Some(t) && t == (State {
                cpu: t.cpu,
                ..memory::set_vsr(s, rd.reg.num(), memory::reversed(bytes) + s.rest)
            }) && machine::same_but(s.cpu, t.cpu, 0, 0)
        }),
{
    reveal(emit::emitted_memory);
    let start = emit_mem::flagged(b, flags);
    let (d, base, at) = (rd.reg.num(), from.base().num(), from.offset(state.frame_layout));
    laws_mem::law_double_is_loaded(start, s, d, base, at);
    laws_inst::lemma_appended(
        start,
        laws_mem::access_words(d, base, at, emit_mem::load_access(LoadOP::Lfd)),
    );
}

/// A store of a double writes the number in its register at its address.
pub proof fn law_double_store_instruction(
    b: BufferView,
    s: State,
    to: AMode,
    flags: MemFlagsData,
    src: Reg,
    info: EmitInfo,
    state: EmitState,
)
    requires
        memory::wf(s),
        emit::encodable(Inst::Store { to, op: StoreOP::Stfd, flags, src }, state.frame_layout),
    ensures
        ({
            let start = emit_mem::flagged(b, flags);
            let inst = Inst::Store { to, op: StoreOP::Stfd, flags, src };
            let after = emit::emitted(inst, b, info, state);
            let ws = laws_inst::appended(start, after);
            let bytes = memory::reversed(s.vsr[src.num() as int].subrange(0, 8));
            &&& after == start.words(ws)
            &&& memory::run_words(s, ws) matches Some(t) && t == (State {
                cpu: t.cpu,
                ..memory::write(s, address(s, to, state), bytes)
            }) && machine::same_but(s.cpu, t.cpu, 0, 0)
        }),
{
    reveal(emit::emitted_memory);
    let start = emit_mem::flagged(b, flags);
    let (d, base, at) = (src.num(), to.base().num(), to.offset(state.frame_layout));
    laws_mem::law_double_is_stored(start, s, d, base, at);
    laws_inst::lemma_appended(
        start,
        laws_mem::access_words(d, base, at, emit_mem::store_access(StoreOP::Stfd)),
    );
}

// Singles.

/// What a load or a store of a single does, with the functions that widen a single to the
/// double that a register holds and narrow that double again.
pub open spec fn single_step(
    widen: spec_fn(Seq<u8>) -> u64,
    narrow: spec_fn(u64) -> Seq<u8>,
    s: State,
    w: u32,
) -> Option<State> {
    let o = machine::opcd(w);
    let xo = machine::xo10(w);
    let ea = memory::effective_address(s.cpu, w);
    if o == 48 || (o == 31 && xo == 535) {
        // lfs, lfsx
        Some(floating::set_fpr(s, machine::f1(w), widen(memory::load_bytes(s.mem, ea, 4))))
    } else if o == 52 || (o == 31 && xo == 663) {
        // stfs, stfsx
        Some(memory::write(s, ea, narrow(floating::fpr(s, machine::f1(w)))))
    } else {
        None
    }
}

/// The words of an access, and where they go.
proof fn lemma_single(b: BufferView, s: State, rt: u32, base: u32, at: int, a: emit_mem::Access)
    requires
        memory::wf(s),
        rt < 32,
        0 < base < 32,
        i64::MIN <= at <= i64::MAX,
        a == emit_mem::load_access(LoadOP::Lfs) || a == emit_mem::store_access(StoreOP::Stfs),
    ensures
        ({
            let after = emit_mem::mem_access(b, rt, base, at, a);
            let ws = laws_inst::appended(b, after);
            let w = ws.last();
            &&& after == b.words(ws)
            &&& ws.len() > 0
            &&& machine::opcd(w) == a.d_opcd || (machine::opcd(w) == 31 && machine::xo10(w)
                == a.x_xo)
            &&& machine::f1(w) == rt
            &&& machine::run_words(s.cpu, ws.drop_last()) matches Some(n)
                && memory::effective_address(n, w) == machine::wrap(s.cpu.gpr[base as int] + at)
                && machine::same_but(s.cpu, n, 0, 0)
        }),
{
    let setup = laws_int::access_setup(at, a);
    let w = laws_int::access_word(rt, base, at, a);
    let ws = setup + seq![w];
    laws_int::law_access_goes_to_its_address(b, s.cpu, rt, base, at, a);
    laws_mem::lemma_access_kind(rt, base, at, a);
    assert(b.words(setup).word(w) =~= b.words(ws));
    laws_inst::lemma_appended(b, ws);
    assert(ws.drop_last() =~= setup);
}

/// A load of a single leaves in its register the double that the bytes at its address
/// widen to.
pub proof fn law_single_load_instruction(
    widen: spec_fn(Seq<u8>) -> u64,
    narrow: spec_fn(u64) -> Seq<u8>,
    b: BufferView,
    s: State,
    rd: Writable<Reg>,
    flags: MemFlagsData,
    from: AMode,
    info: EmitInfo,
    state: EmitState,
)
    requires
        memory::wf(s),
        emit::encodable(Inst::Load { rd, op: LoadOP::Lfs, flags, from }, state.frame_layout),
    ensures
        ({
            let start = emit_mem::flagged(b, flags);
            let inst = Inst::Load { rd, op: LoadOP::Lfs, flags, from };
            let after = emit::emitted(inst, b, info, state);
            let ws = laws_inst::appended(start, after);
            let x = widen(memory::load_bytes(s.mem, address(s, from, state), 4));
            &&& after == start.words(ws)
            &&& machine::run_words(s.cpu, ws.drop_last()) matches Some(n) && machine::same_but(
                s.cpu,
                n,
                0,
                0,
            ) && single_step(widen, narrow, State { cpu: n, ..s }, ws.last()) == Some(
                floating::set_fpr(State { cpu: n, ..s }, rd.reg.num(), x),
            )
        }),
{
    reveal(emit::emitted_memory);
    let (d, base, at) = (rd.reg.num(), from.base().num(), from.offset(state.frame_layout));
    lemma_single(
        emit_mem::flagged(b, flags),
        s,
        d,
        base,
        at,
        emit_mem::load_access(LoadOP::Lfs),
    );
}

/// A store of a single writes at its address the bytes that the double in its register
/// narrows to.
pub proof fn law_single_store_instruction(
    widen: spec_fn(Seq<u8>) -> u64,
    narrow: spec_fn(u64) -> Seq<u8>,
    b: BufferView,
    s: State,
    to: AMode,
    flags: MemFlagsData,
    src: Reg,
    info: EmitInfo,
    state: EmitState,
)
    requires
        memory::wf(s),
        emit::encodable(Inst::Store { to, op: StoreOP::Stfs, flags, src }, state.frame_layout),
    ensures
        ({
            let start = emit_mem::flagged(b, flags);
            let inst = Inst::Store { to, op: StoreOP::Stfs, flags, src };
            let after = emit::emitted(inst, b, info, state);
            let ws = laws_inst::appended(start, after);
            let x = narrow(floating::fpr(s, src.num()));
            &&& after == start.words(ws)
            &&& machine::run_words(s.cpu, ws.drop_last()) matches Some(n) && machine::same_but(
                s.cpu,
                n,
                0,
                0,
            ) && single_step(widen, narrow, State { cpu: n, ..s }, ws.last()) == Some(
                memory::write(State { cpu: n, ..s }, address(s, to, state), x),
            )
        }),
{
    reveal(emit::emitted_memory);
    let (d, base, at) = (src.num(), to.base().num(), to.offset(state.frame_layout));
    lemma_single(
        emit_mem::flagged(b, flags),
        s,
        d,
        base,
        at,
        emit_mem::store_access(StoreOP::Stfs),
    );
}

// Addresses and vectors.

/// An address is the base register plus the offset.
pub proof fn law_address_instruction(
    b: BufferView,
    s: State,
    rd: Writable<Reg>,
    mem: AMode,
    info: EmitInfo,
    state: EmitState,
)
    requires
        memory::wf(s),
        emit::encodable(Inst::LoadAddr { rd, mem }, state.frame_layout),
    ensures
        ({
            let after = emit::emitted(Inst::LoadAddr { rd, mem }, b, info, state);
            let ws = laws_inst::appended(b, after);
            &&& after == b.words(ws)
            &&& machine::run_words(s.cpu, ws) matches Some(n) && n.gpr[rd.reg.num() as int]
                == address(s, mem, state) && machine::same_but(s.cpu, n, rd.reg.num(), 0)
        }),
{
    reveal(emit::emitted_memory);
    let (d, base, at) = (rd.reg.num(), mem.base().num(), mem.offset(state.frame_layout));
    laws_int::law_address_is_computed(b, s.cpu, d, base, at);
    laws_inst::lemma_appended(b, laws_int::addr_words(d, base, at));
}

/// A load of a vector leaves the bytes at its address in its register, the last one first.
pub proof fn law_vector_load_instruction(
    b: BufferView,
    s: State,
    rd: Writable<Reg>,
    from: AMode,
    flags: MemFlagsData,
    info: EmitInfo,
    state: EmitState,
)
    requires
        memory::wf(s),
        emit::encodable(Inst::VecLoad { rd, from, flags }, state.frame_layout),
    ensures
        ({
            let start = emit_mem::flagged(b, flags);
            let after = emit::emitted(Inst::VecLoad { rd, from, flags }, b, info, state);
            let ws = laws_inst::appended(start, after);
            let v = memory::reversed(memory::load_bytes(s.mem, address(s, from, state), 16));
            &&& after == start.words(ws)
            &&& memory::run_words(s, ws) matches Some(t) && t == (State {
                cpu: t.cpu,
                ..memory::set_vsr(s, rd.reg.vsr(), v)
            }) && machine::same_but(s.cpu, t.cpu, 0, 0)
        }),
{
    reveal(emit::emitted_memory);
    let start = emit_mem::flagged(b, flags);
    let (d, base, at) = (rd.reg.vsr(), from.base().num(), from.offset(state.frame_layout));
    let isa_3_0 = info.isa_flags.has_isa_3_0;
    laws_vec::law_vector_is_loaded(start, s, d, base, at, isa_3_0);
    laws_inst::lemma_appended(start, laws_vec::load_at(d, base, at, isa_3_0));
}

/// A store of a vector writes its bytes at its address, the last one first.
pub proof fn law_vector_store_instruction(
    b: BufferView,
    s: State,
    to: AMode,
    rs: Reg,
    flags: MemFlagsData,
    info: EmitInfo,
    state: EmitState,
)
    requires
        memory::wf(s),
        emit::encodable(Inst::VecStore { to, rs, flags }, state.frame_layout),
    ensures
        ({
            let start = emit_mem::flagged(b, flags);
            let after = emit::emitted(Inst::VecStore { to, rs, flags }, b, info, state);
            let ws = laws_inst::appended(start, after);
            let bytes = memory::reversed(s.vsr[rs.vsr() as int]);
            &&& after == start.words(ws)
            &&& memory::run_words(s, ws) matches Some(t) && t.mem == memory::store_bytes(
                s.mem,
                address(s, to, state),
                bytes,
            ) && machine::same_but(s.cpu, t.cpu, 0, 0)
        }),
{
    reveal(emit::emitted_memory);
    let start = emit_mem::flagged(b, flags);
    let (d, base, at) = (rs.vsr(), to.base().num(), to.offset(state.frame_layout));
    let isa_3_0 = info.isa_flags.has_isa_3_0;
    laws_vec::law_vector_is_stored(start, s, d, base, at, isa_3_0);
    laws_inst::lemma_appended(start, laws_vec::store_at(d, base, at, isa_3_0));
}

/// A load of half a vector leaves the bytes at its address in the first half of its
/// register, the last one first.
pub proof fn law_half_load_instruction(
    b: BufferView,
    s: State,
    rd: Writable<Reg>,
    from: AMode,
    flags: MemFlagsData,
    info: EmitInfo,
    state: EmitState,
)
    requires
        memory::wf(s),
        emit::encodable(Inst::VecLoad64 { rd, from, flags }, state.frame_layout),
    ensures
        ({
            let start = emit_mem::flagged(b, flags);
            let after = emit::emitted(Inst::VecLoad64 { rd, from, flags }, b, info, state);
            let ws = laws_inst::appended(start, after);
            let v = memory::reversed(memory::load_bytes(s.mem, address(s, from, state), 8));
            &&& after == start.words(ws)
            &&& memory::run_words(s, ws) matches Some(t) && t == (State {
                cpu: t.cpu,
                ..memory::set_vsr(s, rd.reg.vsr(), v + s.rest)
            }) && machine::same_but(s.cpu, t.cpu, 0, 0)
        }),
{
    reveal(emit::emitted_memory);
    let start = emit_mem::flagged(b, flags);
    let (d, base, at) = (rd.reg.vsr(), from.base().num(), from.offset(state.frame_layout));
    laws_vec::law_vector64_is_loaded(start, s, d, base, at);
    laws_inst::lemma_appended(start, laws_vec::load64_at(d, base, at));
}

/// A store of half a vector writes the first half of its register at its address, the last
/// byte first.
pub proof fn law_half_store_instruction(
    b: BufferView,
    s: State,
    to: AMode,
    rs: Reg,
    flags: MemFlagsData,
    info: EmitInfo,
    state: EmitState,
)
    requires
        memory::wf(s),
        emit::encodable(Inst::VecStore64 { to, rs, flags }, state.frame_layout),
    ensures
        ({
            let start = emit_mem::flagged(b, flags);
            let after = emit::emitted(Inst::VecStore64 { to, rs, flags }, b, info, state);
            let ws = laws_inst::appended(start, after);
            let bytes = memory::reversed(s.vsr[rs.vsr() as int].subrange(0, 8));
            &&& after == start.words(ws)
            &&& memory::run_words(s, ws) matches Some(t) && t == (State {
                cpu: t.cpu,
                mem: memory::store_bytes(s.mem, address(s, to, state), bytes),
                ..s
            }) && machine::same_but(s.cpu, t.cpu, 0, 0)
        }),
{
    reveal(emit::emitted_memory);
    let start = emit_mem::flagged(b, flags);
    let (d, base, at) = (rs.vsr(), to.base().num(), to.offset(state.frame_layout));
    laws_vec::law_vector64_is_stored(start, s, d, base, at);
    laws_inst::lemma_appended(start, laws_vec::store64_at(d, base, at));
}

// Lanes.

/// A lane that is taken out of a vector is what its register then holds.
pub proof fn law_extraction_instruction(
    b: BufferView,
    s: State,
    rd: Writable<Reg>,
    rn: Reg,
    ty: Type,
    lane: u8,
    info: EmitInfo,
    state: EmitState,
)
    requires
        memory::wf(s),
        emit::encodable(Inst::VecExtractLaneInt { rd, rn, ty, lane }, state.frame_layout),
        laws_vec::is_lane(ty.lane_bits(), lane as u32),
    ensures
        ({
            let inst = Inst::VecExtractLaneInt { rd, rn, ty, lane };
            let after = emit::emitted(inst, b, info, state);
            let ws = laws_inst::appended(b, after);
            let n = (ty.lane_bits() / 8) as nat;
            &&& after == b.words(ws)
            &&& memory::run_words(s, ws) matches Some(t) && memory::low_bytes(
                t.cpu.gpr[rd.reg.num() as int],
                n,
            ) == laws_vec::lane(s.vsr[rn.vsr() as int], n, lane as int) && machine::same_but(
                s.cpu,
                t.cpu,
                rd.reg.num(),
                rd.reg.num(),
            ) && t.mem == s.mem
        }),
{
    reveal(emit::emitted_lane);
    let (d, x, bits) = (rd.reg.num(), rn.vsr(), ty.lane_bits());
    laws_vec::law_lane_is_extracted(b, s, d, x, bits, lane as u32);
    laws_inst::lemma_appended(b, laws_vec::extract_words(d, x, bits, lane as u32));
}

/// A lane that is put into a vector replaces the one that was there, and no other.
pub proof fn law_insertion_instruction(
    b: BufferView,
    s: State,
    rd: Writable<Reg>,
    rv: Reg,
    rs: Reg,
    ty: Type,
    lane: u8,
    info: EmitInfo,
    state: EmitState,
)
    requires
        memory::wf(s),
        emit::encodable(Inst::VecInsertLane { rd, rv, rs, ty, lane }, state.frame_layout),
        laws_vec::is_lane(ty.lane_bits(), lane as u32),
        !ty.lane_is_float() ==> rs.num() != 0,
        ty.lane_is_float() ==> ty.lane_bits() == 64,
    ensures
        ({
            let inst = Inst::VecInsertLane { rd, rv, rs, ty, lane };
            let after = emit::emitted(inst, b, info, state);
            let ws = laws_inst::appended(b, after);
            &&& after == b.words(ws)
            &&& memory::run_words(s, ws) matches Some(t) && laws_vec::lane_replaced(
                t.vsr[rd.reg.vsr() as int],
                s.vsr[rv.vsr() as int],
                (ty.lane_bits() / 8) as nat,
                lane as int,
                laws_vec::new_lane(s, rs.num(), ty.lane_is_float(), ty.lane_bits()),
            ) && machine::same_but(s.cpu, t.cpu, 0, 0)
        }),
{
    reveal(emit::emitted_lane);
    let (d, v, x) = (rd.reg.vsr(), rv.vsr(), rs.num());
    let (is_float, bits) = (ty.lane_is_float(), ty.lane_bits());
    let isa_3_0 = info.isa_flags.has_isa_3_0;
    laws_vec::law_lane_is_inserted(b, s, d, v, x, is_float, bits, lane, isa_3_0);
    laws_inst::lemma_appended(
        b,
        laws_vec::insert_words(d, v, x, is_float, bits, lane, isa_3_0),
    );
}

/// A test of lanes leaves one where all lanes hold something, or any does, and else zero.
pub proof fn law_test_instruction(
    b: BufferView,
    s: State,
    rd: Writable<Reg>,
    rn: Reg,
    ty: Type,
    all: bool,
    info: EmitInfo,
    state: EmitState,
)
    requires
        memory::wf(s),
        emit::encodable(Inst::VecTestLanes { rd, rn, ty, all }, state.frame_layout),
        rd.reg.num() != 0,
        rn.vsr() != 32,
    ensures
        ({
            let after = emit::emitted(Inst::VecTestLanes { rd, rn, ty, all }, b, info, state);
            let ws = laws_inst::appended(b, after);
            let n = (ty.lane_bits() / 8) as nat;
            let v = s.vsr[rn.vsr() as int];
            &&& after == b.words(ws)
            &&& memory::run_words(s, ws) matches Some(t) && t.cpu.gpr[rd.reg.num() as int]
                == machine::one_if(
                if all {
                    laws_vec::all_hold(v, n)
                } else {
                    laws_vec::any_holds(v, n)
                },
            ) && machine::same_but(s.cpu, t.cpu, rd.reg.num(), 0) && t.mem == s.mem
        }),
{
    reveal(emit::emitted_lane);
    let (d, x, bits) = (rd.reg.num(), rn.vsr(), ty.lane_bits());
    laws_vec::law_lanes_are_tested(b, s, d, x, bits, all);
    laws_inst::lemma_appended(b, laws_vec::test_words(d, x, bits, all));
}

/// A zeroed vector holds zeros.
pub proof fn law_zero_instruction(
    b: BufferView,
    s: State,
    rd: Writable<Reg>,
    info: EmitInfo,
    state: EmitState,
)
    requires
        memory::wf(s),
        emit::encodable(Inst::VecZero { rd }, state.frame_layout),
    ensures
        ({
            let after = emit::emitted(Inst::VecZero { rd }, b, info, state);
            let ws = laws_inst::appended(b, after);
            &&& after == b.words(ws)
            &&& memory::run_words(s, ws) == Some(
                memory::set_vsr(s, rd.reg.vsr(), Seq::new(16, |i: int| 0u8)),
            )
        }),
{
    reveal(emit::emitted_vector);
    let d = rd.reg.vsr();
    let v = s.vsr[d as int];
    let w = mnem::xxlxor(d, d, d);
    laws_inst::lemma_appended_word(b, s.cpu, w);
    laws_vec::law_vector_logic(s, VecAluOp::Xor, d, d, d, 8);
    laws_vec::lemma_run_one(s, w);
    assert forall|i: int| 0 <= i < 16 implies laws_vec::logic_of(VecAluOp::Xor, v[i], v[i]) == 0 by {
        laws_vec::lemma_bits(v[i], 0, 0);
    }
    assert(Seq::new(16, |i: int| laws_vec::logic_of(VecAluOp::Xor, v[i], v[i])) =~= Seq::new(
        16,
        |i: int| 0u8,
    ));
}

/// A permutation of doublewords takes one from each operand, the first operand's in front.
pub proof fn law_permutation_instruction(
    b: BufferView,
    s: State,
    rd: Writable<Reg>,
    ra: Reg,
    rb: Reg,
    dm: u8,
    info: EmitInfo,
    state: EmitState,
)
    requires
        memory::wf(s),
        emit::encodable(Inst::VecPermDi { rd, ra, rb, dm }, state.frame_layout),
    ensures
        ({
            let after = emit::emitted(Inst::VecPermDi { rd, ra, rb, dm }, b, info, state);
            let ws = laws_inst::appended(b, after);
            let (x, y) = (s.vsr[ra.vsr() as int], s.vsr[rb.vsr() as int]);
            let (i, j) = (8 * (dm / 2), 8 * (dm % 2));
            &&& after == b.words(ws)
            &&& memory::run_words(s, ws) == Some(
                memory::set_vsr(
                    s,
                    rd.reg.vsr(),
                    x.subrange(i as int, i + 8) + y.subrange(j as int, j + 8),
                ),
            )
        }),
{
    reveal(emit::emitted_vector);
    let w = mnem::xxpermdi(rd.reg.vsr(), ra.vsr(), rb.vsr(), dm as u32);
    laws_inst::lemma_appended_word(b, s.cpu, w);
    memory::law_xxpermdi_fields(rd.reg.vsr(), ra.vsr(), rb.vsr(), dm as u32);
    laws_vec::lemma_run_one(s, w);
    reveal(memory::step);
}

/// A doubleword that is moved to a vector and splatted there is in every lane.
pub proof fn law_splat_instructions(
    b: BufferView,
    s: State,
    rd: Writable<Reg>,
    tmp: Writable<Reg>,
    rn: Reg,
    ty: Type,
    info: EmitInfo,
    state: EmitState,
)
    requires
        memory::wf(s),
        emit::encodable(Inst::MovToVec { rd: tmp, rn }, state.frame_layout),
        emit::encodable(Inst::VecSplatLane { rd, rn: tmp.reg, ty }, state.frame_layout),
        emit::is_vr(rd.reg),
        emit::is_vr(tmp.reg),
    ensures
        ({
            let mid = emit::emitted(Inst::MovToVec { rd: tmp, rn }, b, info, state);
            let after = emit::emitted(
                Inst::VecSplatLane { rd, rn: tmp.reg, ty },
                mid,
                info,
                state,
            );
            let ws = laws_inst::appended(b, after);
            let n = (ty.lane_bits() / 8) as nat;
            &&& after == b.words(ws)
            &&& memory::run_words(s, ws) matches Some(t) && (forall|k: int|
                0 <= k && (k + 1) * n <= 16 ==> #[trigger] laws_vec::lane(
                    t.vsr[rd.reg.vsr() as int],
                    n,
                    k,
                ) == memory::low_bytes(s.cpu.gpr[rn.num() as int], n)) && t.cpu == s.cpu && t.mem
                == s.mem
        }),
{
    reveal(emit::emitted_vector);
    let (d, x, bits) = (rd.reg.vsr(), tmp.reg.vsr(), ty.lane_bits());
    let (w0, w1) = (mnem::mtvsrd(x, rn.num()), crate::emit_vec::vec_splat_lane(d, x, bits));
    assert(b.word(w0).word(w1) =~= b.words(seq![w0, w1]));
    laws_inst::lemma_appended(b, seq![w0, w1]);
    laws_vec::law_every_lane_is_splatted(s, d, x, rn.num(), bits);
}

} // verus!
