//! What the instructions before a tail call do: the frame is gone, and every
//! register that the prologue saved is back.
use vstd::prelude::*;
use crate::abi;
use crate::args::{AMode, LoadOP};
use crate::buffer::BufferView;
use crate::emit;
use crate::emit_int;
use crate::emit_mem;
use crate::frame::FrameLayout;
use crate::laws_flow;
use crate::laws_int;
use crate::laws_mem;
use crate::laws_vec;
use crate::machine;
use crate::memory;
use crate::memory::State;
use crate::mnem;
use crate::regs;
use crate::regs::{RealReg, RegClass};

verus! {

/// A frame that a tail call can tear down: no two of its saved registers are the
/// same, and none of r0, the stack pointer and the frame pointer.
pub open spec fn tail_ok(frame: FrameLayout, new_stack_arg_size: u32) -> bool {
    let rs = frame.clobbered_callee_saves@;
    &&& emit::return_call_ok(frame, new_stack_arg_size)
    &&& rs.len() <= 96
    &&& forall|i: int|
        0 <= i < rs.len() ==> (#[trigger] rs[i]).reg.hw_enc < 32 && (rs[i].reg.class
            == RegClass::Int ==> rs[i].reg.hw_enc != 0 && rs[i].reg.hw_enc != 1 && rs[i].reg.hw_enc
            != 31)
    &&& forall|i: int, j: int|
        0 <= i < j < rs.len() ==> (#[trigger] rs[i]).reg != (#[trigger] rs[j]).reg
}

/// The doubleword in memory at an offset from the stack pointer, the least
/// significant byte first.
pub open spec fn slot_bytes(s: State, offset: int) -> Seq<u8> {
    memory::load_bytes(s.mem, machine::wrap(s.cpu.gpr[1] + offset), 8)
}

/// What is saved of a register, from an offset from the stack pointer on: sixteen
/// bytes of a vector register and eight of the others, the least significant first.
pub open spec fn saved_bytes(s: State, r: RealReg, offset: int) -> Seq<u8> {
    if r.class == RegClass::Vector {
        memory::load_bytes(s.mem, machine::wrap(s.cpu.gpr[1] + offset), 16)
    } else {
        slot_bytes(s, offset)
    }
}

/// What a register holds, the least significant byte first.
pub open spec fn register_bytes(s: State, r: RealReg) -> Seq<u8> {
    match r.class {
        RegClass::Int => memory::low_bytes(s.cpu.gpr[r.hw_enc as int], 8),
        RegClass::Float => memory::reversed(s.vsr[r.hw_enc as int].subrange(0, 8)),
        RegClass::Vector => memory::reversed(s.vsr[32 + r.hw_enc]),
    }
}

/// The slot of a saved register, from the stack pointer.
#[verifier::opaque]
pub open spec fn slot(frame: FrameLayout, i: int) -> int {
    abi::clobber_slot(frame, i)
}

/// The words that restore a saved register.
#[verifier::opaque]
pub open spec fn reload_words(r: RealReg, offset: int, isa_3_0: bool) -> Seq<u32> {
    let n = (r.hw_enc % 32) as u32;
    match r.class {
        RegClass::Int => laws_mem::access_words(n, 1, offset, emit_mem::load_access(LoadOP::Ld)),
        RegClass::Float => laws_mem::access_words(n, 1, offset, emit_mem::load_access(LoadOP::Lfd)),
        RegClass::Vector => laws_vec::load_at((32 + n) as u32, 1, offset, isa_3_0),
    }
}

/// The words that restore the first so many saved registers.
pub open spec fn restore_words(frame: FrameLayout, n: nat, isa_3_0: bool) -> Seq<u32>
    decreases n,
{
    if n == 0 {
        seq![]
    } else {
        restore_words(frame, (n - 1) as nat, isa_3_0) + reload_words(
            frame.clobbered_callee_saves@[n - 1].reg,
            slot(frame, n - 1),
            isa_3_0,
        )
    }
}

/// Words behind words.
proof fn lemma_words_concat(b: BufferView, x: Seq<u32>, y: Seq<u32>)
    ensures
        b.words(x).words(y) == b.words(x + y),
{
    assert(b.words(x).words(y) =~= b.words(x + y));
}

/// The low bytes of a doubleword that bytes make are these bytes.
proof fn lemma_low_bytes(v: Seq<u8>)
    requires
        v.len() == 8,
    ensures
        memory::low_bytes(memory::doubleword(v), 8) == v,
{
    memory::lemma_byte_of_number(v);
    assert(memory::low_bytes(memory::doubleword(v), 8) =~= v);
}

/// What is emitted to load one saved register.
proof fn lemma_restore_log(
    b: BufferView,
    s: State,
    frame: FrameLayout,
    r: RealReg,
    offset: int,
    isa_3_0: bool,
)
    requires
        memory::wf(s),
        r.hw_enc < 32,
        i64::MIN <= offset <= i64::MAX,
    ensures
        emit::typed_load(
            b,
            regs::real_reg(r.hw_enc as nat, r.class),
            AMode::SPOffset(offset as i64),
            abi::clobber_type(r.class),
            frame,
            isa_3_0,
        ) == b.words(reload_words(r, offset, isa_3_0)),
{
    reveal(reload_words);
    let n = (r.hw_enc % 32) as u32;
    match r.class {
        RegClass::Int => laws_mem::law_scalar_is_loaded(b, s, n, 1, offset, LoadOP::Ld),
        RegClass::Float => laws_mem::law_double_is_loaded(b, s, n, 1, offset),
        RegClass::Vector => laws_vec::law_vector_is_loaded(
            b,
            s,
            (32 + n) as u32,
            1,
            offset,
            isa_3_0,
        ),
    }
}

/// Whether one saved register is loaded between two states, and the others are left.
pub open spec fn reloaded(s: State, t: State, r: RealReg, offset: int) -> bool {
    &&& memory::wf(t)
    &&& register_bytes(t, r) == saved_bytes(s, r, offset)
    &&& t.mem == s.mem
    &&& t.cpu.lr == s.cpu.lr
    &&& forall|q: RealReg|
        q.hw_enc < 32 && q != r && !(q.class == RegClass::Int && q.hw_enc == 0)
            ==> #[trigger] register_bytes(t, q) == register_bytes(s, q)
    &&& forall|k: int|
        0 < k < 32 && !(r.class == RegClass::Int && k == r.hw_enc) ==> #[trigger] t.cpu.gpr[k]
            == s.cpu.gpr[k]
}

/// Whether words load one saved register, and leave the others.
pub open spec fn is_reload(s: State, ws: Seq<u32>, r: RealReg, offset: int) -> bool {
    memory::run_words(s, ws) matches Some(t) && reloaded(s, t, r, offset)
}

/// A state with one saved general-purpose register loaded.
proof fn lemma_int_reloaded(s: State, t: State, r: RealReg, offset: int)
    requires
        memory::wf(s),
        r.hw_enc < 32,
        r.class == RegClass::Int,
        t == (State { cpu: t.cpu, ..s }),
        t.cpu.gpr[r.hw_enc as int] == memory::doubleword(saved_bytes(s, r, offset)),
        machine::same_but(s.cpu, t.cpu, r.hw_enc as u32, 0),
    ensures
        reloaded(s, t, r, offset),
{
    lemma_low_bytes(saved_bytes(s, r, offset));
}

/// Loading one saved general-purpose register.
proof fn lemma_reload_int(s: State, r: RealReg, offset: int)
    requires
        memory::wf(s),
        r.hw_enc < 32,
        r.class == RegClass::Int,
        r.hw_enc != 1,
        i64::MIN <= offset <= i64::MAX,
    ensures
        is_reload(
            s,
            laws_mem::access_words(
                (r.hw_enc % 32) as u32,
                1,
                offset,
                emit_mem::load_access(LoadOP::Ld),
            ),
            r,
            offset,
        ),
{
    let n = (r.hw_enc % 32) as u32;
    let ws = laws_mem::access_words(n, 1, offset, emit_mem::load_access(LoadOP::Ld));
    laws_mem::law_scalar_is_loaded(emit::empty_log(), s, n, 1, offset, LoadOP::Ld);
    lemma_int_reloaded(s, memory::run_words(s, ws)->0, r, offset);
}

/// Loading one saved floating-point register.
proof fn lemma_reload_float(s: State, r: RealReg, offset: int)
    requires
        memory::wf(s),
        r.hw_enc < 32,
        r.class == RegClass::Float,
        i64::MIN <= offset <= i64::MAX,
    ensures
        is_reload(
            s,
            laws_mem::access_words(
                (r.hw_enc % 32) as u32,
                1,
                offset,
                emit_mem::load_access(LoadOP::Lfd),
            ),
            r,
            offset,
        ),
{
    let n = (r.hw_enc % 32) as u32;
    let ws = laws_mem::access_words(n, 1, offset, emit_mem::load_access(LoadOP::Lfd));
    let t = memory::run_words(s, ws)->0;
    let v = saved_bytes(s, r, offset);
    laws_mem::law_double_is_loaded(emit::empty_log(), s, n, 1, offset);
    assert(memory::reversed(t.vsr[n as int].subrange(0, 8)) =~= v) by {
        assert(t.vsr[n as int].subrange(0, 8) =~= memory::reversed(v));
    }
}

/// Loading one saved vector register.
proof fn lemma_reload_vector(s: State, r: RealReg, offset: int, isa_3_0: bool)
    requires
        memory::wf(s),
        r.hw_enc < 32,
        r.class == RegClass::Vector,
        i64::MIN <= offset <= i64::MAX,
    ensures
        is_reload(
            s,
            laws_vec::load_at((32 + r.hw_enc % 32) as u32, 1, offset, isa_3_0),
            r,
            offset,
        ),
{
    let n = (r.hw_enc % 32) as u32;
    let v = saved_bytes(s, r, offset);
    laws_vec::law_vector_is_loaded(emit::empty_log(), s, (32 + n) as u32, 1, offset, isa_3_0);
    assert(memory::reversed(memory::reversed(v)) =~= v);
}

/// Loading one saved register.
proof fn lemma_restore_one(s: State, r: RealReg, offset: int, isa_3_0: bool)
    requires
        memory::wf(s),
        r.hw_enc < 32,
        r.class == RegClass::Int ==> r.hw_enc != 1,
        i64::MIN <= offset <= i64::MAX,
    ensures
        is_reload(s, reload_words(r, offset, isa_3_0), r, offset),
{
    reveal(reload_words);
    match r.class {
        RegClass::Int => lemma_reload_int(s, r, offset),
        RegClass::Float => lemma_reload_float(s, r, offset),
        RegClass::Vector => lemma_reload_vector(s, r, offset, isa_3_0),
    }
}

/// The slot of a saved register is a 64-bit offset.
proof fn lemma_slot_bounds(frame: FrameLayout, new_stack_arg_size: u32, i: int)
    requires
        tail_ok(frame, new_stack_arg_size),
        0 <= i < frame.clobbered_callee_saves@.len(),
    ensures
        i64::MIN <= slot(frame, i) <= i64::MAX,
{
    reveal(slot);
    let rs = frame.clobbered_callee_saves@;
    abi::lemma_clobber_end_bounds(rs, i as nat);
    abi::lemma_clobber_end_bounds(rs, (i + 1) as nat);
    assert(abi::clobber_end(rs, (i + 1) as nat) == abi::clobber_start(rs, i) + abi::clobber_bytes(
        rs[i].reg,
    ));
}

/// What is emitted to restore saved registers.
proof fn lemma_restores_log(
    b: BufferView,
    s: State,
    frame: FrameLayout,
    new_stack_arg_size: u32,
    n: nat,
    isa_3_0: bool,
)
    requires
        memory::wf(s),
        tail_ok(frame, new_stack_arg_size),
        n <= frame.clobbered_callee_saves@.len(),
    ensures
        emit::restore_clobbers(b, frame, n, isa_3_0) == b.words(restore_words(frame, n, isa_3_0)),
    decreases n,
{
    if n == 0 {
        assert(b.words(restore_words(frame, n, isa_3_0)) =~= b);
    } else {
        let m = (n - 1) as nat;
        let r = frame.clobbered_callee_saves@[n - 1].reg;
        let offset = slot(frame, n - 1);
        lemma_restores_log(b, s, frame, new_stack_arg_size, m, isa_3_0);
        lemma_slot_bounds(frame, new_stack_arg_size, n - 1);
        assert(offset == abi::clobber_slot(frame, n - 1)) by {
            reveal(slot);
        }
        let front = restore_words(frame, m, isa_3_0);
        lemma_restore_log(b.words(front), s, frame, r, offset, isa_3_0);
        lemma_words_concat(b, front, reload_words(r, offset, isa_3_0));
    }
}

/// Restoring saved registers.
proof fn lemma_restore(
    s: State,
    frame: FrameLayout,
    new_stack_arg_size: u32,
    n: nat,
    isa_3_0: bool,
)
    requires
        memory::wf(s),
        tail_ok(frame, new_stack_arg_size),
        n <= frame.clobbered_callee_saves@.len(),
    ensures
        memory::run_words(s, restore_words(frame, n, isa_3_0)) matches Some(t) && memory::wf(t)
            && t.mem == s.mem && t.cpu.lr == s.cpu.lr && t.cpu.gpr[1] == s.cpu.gpr[1]
            && t.cpu.gpr[31] == s.cpu.gpr[31] && (forall|i: int|
            0 <= i < n ==> register_bytes(t, (#[trigger] frame.clobbered_callee_saves@[i]).reg)
                == saved_bytes(
                s,
                frame.clobbered_callee_saves@[i].reg,
                slot(frame, i),
            )),
    decreases n,
{
    let rs = frame.clobbered_callee_saves@;
    if n > 0 {
        let m = (n - 1) as nat;
        lemma_restore(s, frame, new_stack_arg_size, m, isa_3_0);
        let u = memory::run_words(s, restore_words(frame, m, isa_3_0))->0;
        let r = rs[n - 1].reg;
        let offset = slot(frame, n - 1);
        lemma_slot_bounds(frame, new_stack_arg_size, n - 1);
        lemma_restore_one(u, r, offset, isa_3_0);
        let last = reload_words(r, offset, isa_3_0);
        laws_mem::lemma_run_concat(s, restore_words(frame, m, isa_3_0), last);
        let t = memory::run_words(u, last)->0;
        assert forall|i: int| 0 <= i < n implies register_bytes(t, (#[trigger] rs[i]).reg)
            == saved_bytes(s, rs[i].reg, slot(frame, i)) by {
            if i < m {
                assert(rs[i].reg != rs[n - 1].reg);
                assert(register_bytes(t, rs[i].reg) == register_bytes(u, rs[i].reg));
            } else {
                assert(saved_bytes(u, r, offset) == saved_bytes(s, r, offset));
            }
        }
    }
}

/// The words that restore the return address and the frame pointer.
pub open spec fn record_words(frame: FrameLayout) -> Seq<u32> {
    let ld = emit_mem::load_access(LoadOP::Ld);
    if frame.setup_area_size > 0 {
        laws_mem::access_words(0, 1, frame.spec_sp_to_fp() + 8, ld) + seq![mnem::mtlr(0)]
            + laws_mem::access_words(31, 1, frame.spec_sp_to_fp(), ld)
    } else {
        seq![]
    }
}

/// The words that move the stack pointer up.
pub open spec fn release_words(frame: FrameLayout, new_stack_arg_size: u32) -> Seq<u32> {
    if emit::teardown(frame, new_stack_arg_size) > 0 {
        laws_int::addr_words(1, 1, emit::teardown(frame, new_stack_arg_size))
    } else {
        seq![]
    }
}

/// The words of the teardown of a frame.
pub open spec fn teardown_words(
    frame: FrameLayout,
    new_stack_arg_size: u32,
    isa_3_0: bool,
) -> Seq<u32> {
    restore_words(frame, frame.clobbered_callee_saves@.len(), isa_3_0) + record_words(frame)
        + release_words(frame, new_stack_arg_size)
}

/// `mtlr` on the machine.
proof fn lemma_mtlr(s: State, rs: u32)
    requires
        memory::wf(s),
        rs < 32,
    ensures
        memory::step(s, mnem::mtlr(rs)) == Some(
            State { cpu: machine::Machine { lr: s.cpu.gpr[rs as int], ..s.cpu }, ..s },
        ),
{
    laws_flow::lemma_link_register();
    machine::law_x_fields(31, rs, 8, 0, 467);
    reveal(memory::step);
    reveal(machine::step);
}

/// Restoring the return address and the frame pointer.
proof fn lemma_record(b: BufferView, s: State, frame: FrameLayout)
    requires
        memory::wf(s),
        frame.spec_sp_to_fp() + 8 <= i64::MAX,
        frame.setup_area_size > 0,
    ensures
        ({
            let ld = emit_mem::load_access(LoadOP::Ld);
            let at = frame.spec_sp_to_fp();
            emit_mem::mem_access(
                emit_mem::mem_access(b, 0, 1, at + 8, ld).word(mnem::mtlr(0)),
                31,
                1,
                at,
                ld,
            ) == b.words(record_words(frame))
        }),
        memory::run_words(s, record_words(frame)) matches Some(t) && memory::wf(t) && t.mem == s.mem
            && t.vsr == s.vsr && t.cpu.lr == memory::doubleword(
            slot_bytes(s, frame.spec_sp_to_fp() + 8),
        ) && t.cpu.gpr[31] == memory::doubleword(slot_bytes(s, frame.spec_sp_to_fp())) && (forall|
            k: int,
        | 0 < k < 31 ==> #[trigger] t.cpu.gpr[k] == s.cpu.gpr[k]),
{
    let ld = emit_mem::load_access(LoadOP::Ld);
    let at = frame.spec_sp_to_fp();
    let x = laws_mem::access_words(0, 1, at + 8, ld);
    let z = laws_mem::access_words(31, 1, at, ld);
    laws_mem::law_scalar_is_loaded(b, s, 0, 1, at + 8, LoadOP::Ld);
    let s1 = memory::run_words(s, x)->0;
    memory::lemma_byte_of_number(slot_bytes(s, at + 8));
    lemma_mtlr(s1, 0);
    memory::lemma_run_push(s, x, mnem::mtlr(0));
    let s2 = memory::step(s1, mnem::mtlr(0))->0;
    let b2 = b.words(x).word(mnem::mtlr(0));
    laws_mem::law_scalar_is_loaded(b2, s2, 31, 1, at, LoadOP::Ld);
    laws_mem::lemma_run_concat(s, x + seq![mnem::mtlr(0)], z);
    laws_int::lemma_words_push(b, x, mnem::mtlr(0));
    lemma_words_concat(b, x + seq![mnem::mtlr(0)], z);
}

/// Moving the stack pointer up.
proof fn lemma_release(b: BufferView, s: State, d: int)
    requires
        memory::wf(s),
        i64::MIN <= d <= i64::MAX,
    ensures
        emit_mem::load_addr(b, 1, 1, d) == b.words(laws_int::addr_words(1, 1, d)),
        memory::run_words(s, laws_int::addr_words(1, 1, d)) matches Some(t) && t == (State {
            cpu: t.cpu,
            ..s
        }) && t.cpu.gpr[1] == machine::wrap(s.cpu.gpr[1] + d) && machine::same_but(
            s.cpu,
            t.cpu,
            1,
            0,
        ),
{
    laws_int::law_address_is_computed(b, s.cpu, 1, 1, d);
    if emit_mem::fits_d(d) {
        let si = d as i16 as u16;
        machine::law_d_fields(14, 1, 1, si as u32);
        laws_mem::lemma_plain_words(s, laws_int::addr_words(1, 1, d));
    } else {
        let c = emit_int::load_constant(0, d as i64 as u64);
        let w = mnem::add_d(1, 1, 0);
        laws_mem::lemma_constant_is_plain(0, d as i64 as u64);
        laws_mem::lemma_plain_words(s, c);
        laws_int::lemma_run_push(s.cpu, c, w);
        memory::lemma_run_push(s, c, w);
        let u = memory::run_words(s, c)->0;
        machine::law_x_fields(31, 1, 1, 0, 266);
        assert(memory::step(u, w) == (match machine::step(u.cpu, w) {
            Some(cpu) => Some(State { cpu, ..u }),
            None => None,
        })) by {
            reveal(memory::step);
        }
    }
}

/// The teardown of a frame for a tail call leaves every saved register as it is in
/// the slot that the prologue gave it, the return address and the frame pointer as
/// they are in the frame record, and the stack pointer above the frame, where the
/// callee expects its arguments. Memory stays as it is.
pub proof fn law_tail_call_undoes_the_prologue(
    b: BufferView,
    s: State,
    frame: FrameLayout,
    new_stack_arg_size: u32,
    isa_3_0: bool,
)
    requires
        memory::wf(s),
        tail_ok(frame, new_stack_arg_size),
    ensures
        emit::return_call_teardown(b, frame, new_stack_arg_size, isa_3_0) == b.words(
            teardown_words(frame, new_stack_arg_size, isa_3_0),
        ),
        memory::run_words(s, teardown_words(frame, new_stack_arg_size, isa_3_0)) matches Some(t)
            && t.mem == s.mem && t.cpu.gpr[1] == machine::wrap(
            s.cpu.gpr[1] + emit::teardown(frame, new_stack_arg_size),
        ) && (forall|i: int|
            0 <= i < frame.clobbered_callee_saves@.len() ==> register_bytes(
                t,
                (#[trigger] frame.clobbered_callee_saves@[i]).reg,
            ) == saved_bytes(
                s,
                frame.clobbered_callee_saves@[i].reg,
                abi::clobber_slot(frame, i),
            )) && (if frame.setup_area_size > 0 {
            t.cpu.lr == memory::doubleword(slot_bytes(s, frame.spec_sp_to_fp() + 8))
                && t.cpu.gpr[31] == memory::doubleword(slot_bytes(s, frame.spec_sp_to_fp()))
        } else {
            t.cpu.lr == s.cpu.lr && t.cpu.gpr[31] == s.cpu.gpr[31]
        }),
{
    let rs = frame.clobbered_callee_saves@;
    let x = restore_words(frame, rs.len(), isa_3_0);
    let y = record_words(frame);
    let z = release_words(frame, new_stack_arg_size);
    lemma_teardown_log(b, s, frame, new_stack_arg_size, isa_3_0);
    lemma_restore(s, frame, new_stack_arg_size, rs.len(), isa_3_0);
    let s1 = memory::run_words(s, x)->0;
    lemma_teardown_end(b, s1, frame, new_stack_arg_size);
    laws_mem::lemma_run_concat(s, x, y + z);
    assert(x + y + z =~= x + (y + z));
    let t = memory::run_words(s1, y + z)->0;
    assert forall|i: int| 0 <= i < rs.len() implies register_bytes(t, (#[trigger] rs[i]).reg)
        == saved_bytes(s, rs[i].reg, abi::clobber_slot(frame, i)) by {
        reveal(slot);
        assert(register_bytes(s1, rs[i].reg) == saved_bytes(s, rs[i].reg, slot(frame, i)));
        assert(register_bytes(t, rs[i].reg) == register_bytes(s1, rs[i].reg));
    }
}

/// The end of the teardown, behind the saved registers.
proof fn lemma_teardown_end(
    b: BufferView,
    s: State,
    frame: FrameLayout,
    new_stack_arg_size: u32,
)
    requires
        memory::wf(s),
        tail_ok(frame, new_stack_arg_size),
    ensures
        memory::run_words(
            s,
            record_words(frame) + release_words(frame, new_stack_arg_size),
        ) matches Some(t) && t.mem == s.mem && t.vsr == s.vsr && t.cpu.gpr[1] == machine::wrap(
            s.cpu.gpr[1] + emit::teardown(frame, new_stack_arg_size),
        ) && (if frame.setup_area_size > 0 {
            t.cpu.lr == memory::doubleword(slot_bytes(s, frame.spec_sp_to_fp() + 8))
                && t.cpu.gpr[31] == memory::doubleword(slot_bytes(s, frame.spec_sp_to_fp()))
        } else {
            t.cpu.lr == s.cpu.lr && t.cpu.gpr[31] == s.cpu.gpr[31]
        }) && (forall|k: int| 1 < k < 31 ==> #[trigger] t.cpu.gpr[k] == s.cpu.gpr[k]),
{
    let y = record_words(frame);
    let z = release_words(frame, new_stack_arg_size);
    let d = emit::teardown(frame, new_stack_arg_size);
    if frame.setup_area_size > 0 {
        lemma_record(b, s, frame);
    } else {
        assert(memory::run_words(s, y) == Some(s));
    }
    let u = memory::run_words(s, y)->0;
    if d > 0 {
        lemma_release(b, u, d);
    } else {
        assert(memory::run_words(u, z) == Some(u));
    }
    laws_mem::lemma_run_concat(s, y, z);
}

/// What is emitted for the teardown.
proof fn lemma_teardown_log(
    b: BufferView,
    s: State,
    frame: FrameLayout,
    new_stack_arg_size: u32,
    isa_3_0: bool,
)
    requires
        memory::wf(s),
        tail_ok(frame, new_stack_arg_size),
    ensures
        emit::return_call_teardown(b, frame, new_stack_arg_size, isa_3_0) == b.words(
            teardown_words(frame, new_stack_arg_size, isa_3_0),
        ),
{
    let n = frame.clobbered_callee_saves@.len();
    let x = restore_words(frame, n, isa_3_0);
    let y = record_words(frame);
    let z = release_words(frame, new_stack_arg_size);
    let d = emit::teardown(frame, new_stack_arg_size);
    lemma_restores_log(b, s, frame, new_stack_arg_size, n, isa_3_0);
    if frame.setup_area_size > 0 {
        lemma_record(b.words(x), s, frame);
    } else {
        assert(b.words(x).words(y) =~= b.words(x));
    }
    lemma_words_concat(b, x, y);
    if d > 0 {
        lemma_release(b.words(x + y), s, d);
    } else {
        assert(b.words(x + y).words(z) =~= b.words(x + y));
    }
    lemma_words_concat(b, x + y, z);
}

} // verus!
