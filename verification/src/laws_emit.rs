//! That emission only adds to what was emitted before.
use vstd::prelude::*;
use crate::args::CR0_LT;
use crate::buffer;
use crate::buffer::{BufferView, Emission, ExceptionHandler, MachLabel, UserStackMap};
use crate::emit;
use crate::emit::{EmitInfo, EmitState, Group};
use crate::emit_int;
use crate::emit_mem;
use crate::encode::BCL_20_31_PLUS4;
use crate::frame::FrameLayout;
use crate::inst::{CallInfo, Inst, RetvalMove};
use crate::ir::{ExternalName, Reloc, TrapCode};
use crate::label_use::LabelUse;
use crate::mnem;

verus! {

/// Whether a log is another one with something added: nothing that was emitted
/// before is changed, no bytes or labels are taken back, and the size still is the
/// number of bytes.
#[verifier::opaque]
pub open spec fn grew(b: BufferView, r: BufferView) -> bool {
    &&& b.ops.len() <= r.ops.len()
    &&& forall|i: int| 0 <= i < b.ops.len() ==> #[trigger] r.ops[i] == b.ops[i]
    &&& b.size <= r.size
    &&& b.labels <= r.labels
    &&& buffer::sized(b) ==> buffer::sized(r)
}

/// Every way to add to a log adds to it.
proof fn lemma_grows(b: BufferView)
    ensures
        grew(b, b),
        forall|x: BufferView, op: Emission|
            grew(b, x) && !(op is Word) && !(op is Quad) ==> #[trigger] grew(b, x.note(op)),
        forall|x: BufferView, w: u32| grew(b, x) ==> #[trigger] grew(b, x.word(w)),
        forall|x: BufferView, ws: Seq<u32>| grew(b, x) ==> #[trigger] grew(b, x.words(ws)),
        forall|x: BufferView, q: u64| grew(b, x) ==> #[trigger] grew(b, x.quad(q)),
        forall|x: BufferView| grew(b, x) ==> #[trigger] grew(b, x.with_label()),
        forall|x: BufferView, label: MachLabel| grew(b, x) ==> #[trigger] grew(b, x.bind(label)),
        forall|x: BufferView, label: MachLabel, kind: LabelUse|
            grew(b, x) ==> #[trigger] grew(b, x.uses(label, kind)),
        forall|x: BufferView, code: TrapCode| grew(b, x) ==> #[trigger] grew(b, x.trap(code)),
        forall|x: BufferView, kind: Reloc, name: ExternalName, addend: i64|
            grew(b, x) ==> #[trigger] grew(b, x.reloc(kind, name, addend)),
        forall|x: BufferView, distance: u32|
            grew(b, x) ==> #[trigger] grew(b, x.island(distance)),
        forall|x: BufferView, sp_to_fp: u32, handlers: Seq<ExceptionHandler>|
            grew(b, x) ==> #[trigger] grew(b, x.try_site(sp_to_fp, handlers)),
{
    reveal(grew);
    assert forall|x: BufferView, op: Emission|
        grew(b, x) && !(op is Word) && !(op is Quad) implies #[trigger] grew(b, x.note(op)) by {
        lemma_note_bytes(x.ops, op);
    }
    assert forall|x: BufferView, w: u32| grew(b, x) implies #[trigger] grew(b, x.word(w)) by {
        assert(x.word(w).ops.drop_last() =~= x.ops);
    }
    assert forall|x: BufferView, ws: Seq<u32>| grew(b, x) implies #[trigger] grew(
        b,
        x.words(ws),
    ) by {
        lemma_words_bytes(x.ops, ws);
    }
    assert forall|x: BufferView, q: u64| grew(b, x) implies #[trigger] grew(b, x.quad(q)) by {
        assert(x.quad(q).ops.drop_last() =~= x.ops);
    }
    assert forall|x: BufferView, label: MachLabel| grew(b, x) implies #[trigger] grew(
        b,
        x.bind(label),
    ) by {
        lemma_note_bytes(x.ops, Emission::BindLabel { label });
    }
    assert forall|x: BufferView, code: TrapCode| grew(b, x) implies #[trigger] grew(
        b,
        x.trap(code),
    ) by {
        lemma_note_bytes(x.ops, Emission::Trap { code });
    }
    assert forall|x: BufferView, kind: Reloc, name: ExternalName, addend: i64|
        grew(b, x) implies #[trigger] grew(b, x.reloc(kind, name, addend)) by {
        lemma_note_bytes(x.ops, Emission::Relocation { kind, name, addend });
    }
    assert forall|x: BufferView, label: MachLabel, kind: LabelUse|
        grew(b, x) implies #[trigger] grew(b, x.uses(label, kind)) by {
        lemma_note_bytes(x.ops, Emission::UseLabel { label, kind });
    }
    assert forall|x: BufferView, distance: u32| grew(b, x) implies #[trigger] grew(
        b,
        x.island(distance),
    ) by {
        lemma_note_bytes(x.ops, Emission::Island { distance });
    }
    assert forall|x: BufferView, sp_to_fp: u32, handlers: Seq<ExceptionHandler>|
        grew(b, x) implies #[trigger] grew(b, x.try_site(sp_to_fp, handlers)) by {
        let site = Emission::TryCallSite { sp_to_fp, handlers: handlers.len() as u32 };
        lemma_note_bytes(x.ops, site);
        lemma_handlers_bytes(x.ops.push(site), handlers);
    }
}

/// An entry that is neither code nor data has no bytes.
proof fn lemma_note_bytes(ops: Seq<Emission>, op: Emission)
    ensures
        !(op is Word) && !(op is Quad) ==> buffer::code_bytes(ops.push(op)) == buffer::code_bytes(
            ops,
        ),
{
    assert(ops.push(op).drop_last() =~= ops);
}

/// A word has four bytes.
proof fn lemma_words_bytes(ops: Seq<Emission>, ws: Seq<u32>)
    ensures
        buffer::code_bytes(ops + ws.map_values(|w: u32| Emission::Word(w))).len()
            == buffer::code_bytes(ops).len() + 4 * ws.len(),
    decreases ws.len(),
{
    let all = ops + ws.map_values(|w: u32| Emission::Word(w));
    if ws.len() == 0 {
        assert(all =~= ops);
    } else {
        lemma_words_bytes(ops, ws.drop_last());
        assert(all.drop_last() =~= ops + ws.drop_last().map_values(|w: u32| Emission::Word(w)));
    }
}

/// Handlers have no bytes.
proof fn lemma_handlers_bytes(ops: Seq<Emission>, handlers: Seq<ExceptionHandler>)
    ensures
        buffer::code_bytes(
            ops + handlers.map_values(|h: ExceptionHandler| Emission::Handler { handler: h }),
        ) == buffer::code_bytes(ops),
    decreases handlers.len(),
{
    let all = ops + handlers.map_values(|h: ExceptionHandler| Emission::Handler { handler: h });
    if handlers.len() == 0 {
        assert(all =~= ops);
    } else {
        let rest = handlers.drop_last();
        lemma_handlers_bytes(ops, rest);
        assert(all.drop_last() =~= ops + rest.map_values(
            |h: ExceptionHandler| Emission::Handler { handler: h },
        ));
    }
}


/// The entries of a branch table.
proof fn lemma_table_entries(b: BufferView, x: BufferView, targets: Seq<MachLabel>)
    requires
        grew(b, x),
    ensures
        grew(b, emit_mem::table_entries(x, targets)),
    decreases targets.len(),
{
    lemma_grows(b);
    if targets.len() > 0 {
        lemma_table_entries(b, x, targets.drop_last());
    }
}

/// Moves of return values.
proof fn lemma_retval_moves(
    b: BufferView,
    x: BufferView,
    ms: Seq<RetvalMove>,
    frame: FrameLayout,
    isa_3_0: bool,
)
    requires
        grew(b, x),
    ensures
        grew(b, emit::retval_moves(x, ms, frame, isa_3_0)),
    decreases ms.len(),
{
    if ms.len() > 0 {
        lemma_retval_moves(b, x, ms.drop_last(), frame, isa_3_0);
        lemma_grows(b);
    }
}

/// Restoring clobbered registers.
proof fn lemma_restore_clobbers(
    b: BufferView,
    x: BufferView,
    frame: FrameLayout,
    n: nat,
    isa_3_0: bool,
)
    requires
        grew(b, x),
    ensures
        grew(b, emit::restore_clobbers(x, frame, n, isa_3_0)),
    decreases n,
{
    if n > 0 {
        lemma_restore_clobbers(b, x, frame, (n - 1) as nat, isa_3_0);
        lemma_grows(b);
    }
}

/// A branch table up to its entries.
pub open spec fn before_table(
    b: BufferView,
    index: u32,
    addr: u32,
    ext: u32,
    targets: Seq<MachLabel>,
) -> BufferView {
    let n = (targets.len() - 1) as usize;
    let b = emit_int::island(b, (4 * (12 + n)) as u32).word(mnem::clrldi(ext, index, 32));
    let b = emit_mem::table_bound(b, ext, addr, n);
    let compute = b.fresh();
    let b = emit_int::bc_to(b.with_label(), compute, CR0_LT, true);
    let b = emit_int::b_to(b, targets[0]).bind(compute);
    b.word(BCL_20_31_PLUS4).word(mnem::mflr(addr)).word(mnem::rldicr(ext, ext, 2, 61)).word(
        mnem::add_d(addr, addr, ext),
    ).word(mnem::addi(addr, addr, 24)).word(mnem::mtctr(addr)).word(mnem::bctr(false))
}

/// A branch table.
proof fn lemma_br_table(
    b: BufferView,
    index: u32,
    addr: u32,
    ext: u32,
    targets: Seq<MachLabel>,
)
    ensures
        grew(b, emit_mem::br_table(b, index, addr, ext, targets)),
{
    let x = before_table(b, index, addr, ext, targets);
    assert(grew(b, x)) by {
        lemma_grows(b);
    }
    lemma_table_entries(b, x, targets.skip(1));
}

/// What follows a call.
proof fn lemma_after_call<T>(
    b: BufferView,
    x: BufferView,
    info: CallInfo<T>,
    frame: FrameLayout,
    map: Option<UserStackMap>,
    isa_3_0: bool,
)
    requires
        grew(b, x),
    ensures
        grew(b, emit::after_call(x, info, frame, map, isa_3_0)),
{
    lemma_grows(b);
    let y = match map {
        Some(map) => x.note(Emission::StackMap { map }),
        None => x,
    };
    assert(grew(b, y));
    let y = match info.try_call_info {
        Some(t) => y.try_site(frame.spec_sp_to_fp() as u32, t.placed_handlers(frame)),
        None => y.note(Emission::CallSite),
    };
    assert(grew(b, y));
    let y = if info.callee_pop_size > 0 {
        emit_mem::load_addr(y, 1, 1, -(info.callee_pop_size as int))
    } else {
        y
    };
    assert(grew(b, y));
    lemma_retval_moves(b, y, info.retval_moves@, frame, isa_3_0);
}

/// The log with what follows the site of a call.
pub open spec fn past_site<T>(
    b: BufferView,
    info: CallInfo<T>,
    frame: FrameLayout,
    isa_3_0: bool,
) -> BufferView {
    let y = if info.callee_pop_size > 0 {
        emit_mem::load_addr(b, 1, 1, -(info.callee_pop_size as int))
    } else {
        b
    };
    let z = emit::retval_moves(y, info.retval_moves@, frame, isa_3_0);
    match info.try_call_info {
        Some(t) => emit_int::jump(z, t.continuation),
        None => z,
    }
}

/// What follows the site of a call only adds to it.
pub proof fn lemma_past_site<T>(
    b: BufferView,
    info: CallInfo<T>,
    frame: FrameLayout,
    isa_3_0: bool,
)
    ensures
        grew(b, past_site(b, info, frame, isa_3_0)),
{
    lemma_grows(b);
    let y = if info.callee_pop_size > 0 {
        emit_mem::load_addr(b, 1, 1, -(info.callee_pop_size as int))
    } else {
        b
    };
    assert(grew(b, y));
    lemma_retval_moves(b, y, info.retval_moves@, frame, isa_3_0);
}

/// The teardown of a frame for a tail call.
proof fn lemma_return_call(
    b: BufferView,
    frame: FrameLayout,
    new_stack_arg_size: u32,
    isa_3_0: bool,
)
    ensures
        grew(b, emit::return_call_sequence(b, frame, new_stack_arg_size, isa_3_0)),
{
    lemma_grows(b);
    let length = emit::return_call_teardown(
        emit::empty_log(),
        frame,
        new_stack_arg_size,
        isa_3_0,
    ).size as u32;
    let x = emit_int::island(b, length);
    assert(grew(b, x));
    lemma_restore_clobbers(b, x, frame, frame.clobbered_callee_saves@.len(), isa_3_0);
}

/// Calls.
proof fn lemma_call(
    inst: Inst,
    b: BufferView,
    isa_3_0: bool,
    frame: FrameLayout,
    map: Option<UserStackMap>,
)
    ensures
        grew(b, emit::emitted_call(inst, b, isa_3_0, frame, map)),
{
    reveal(emit::emitted_call);
    lemma_grows(b);
    match inst {
        Inst::Call { info } => {
            let x = b.reloc(Reloc::Ppc64Call, info.dest, 0).word(mnem::bl(0));
            assert(grew(b, x));
            lemma_after_call(b, x, *info, frame, map, isa_3_0);
        },
        Inst::CallInd { info } => {
            let x = b.word(mnem::mtctr(info.dest.num())).word(mnem::bctr(true));
            assert(grew(b, x));
            lemma_after_call(b, x, *info, frame, map, isa_3_0);
        },
        Inst::ReturnCall { info } => {
            lemma_return_call(b, frame, info.new_stack_arg_size, isa_3_0);
        },
        Inst::ReturnCallInd { info } => {
            lemma_return_call(b, frame, info.new_stack_arg_size, isa_3_0);
        },
        _ => {},
    }
}

/// Fixed-point instructions.
proof fn lemma_int(inst: Inst, b: BufferView, isa_3_0: bool)
    ensures
        grew(b, emit::emitted_int(inst, b, isa_3_0)),
{
    reveal(emit::emitted_int);
    lemma_grows(b);
}

/// Control flow.
proof fn lemma_flow(inst: Inst, b: BufferView)
    ensures
        grew(b, emit::emitted_flow(inst, b)),
{
    reveal(emit::emitted_flow);
    lemma_grows(b);
    if let Inst::BrTable { index, tmp1, tmp2, targets } = inst {
        lemma_br_table(b, index.num(), tmp1.reg.num(), tmp2.reg.num(), targets@);
    }
}

/// Floating point.
proof fn lemma_float(inst: Inst, b: BufferView)
    ensures
        grew(b, emit::emitted_float(inst, b)),
{
    reveal(emit::emitted_float);
    lemma_grows(b);
}

/// Memory.
proof fn lemma_memory(inst: Inst, b: BufferView, isa_3_0: bool, frame: FrameLayout)
    ensures
        grew(b, emit::emitted_memory(inst, b, isa_3_0, frame)),
{
    reveal(emit::emitted_memory);
    lemma_grows(b);
}

/// Atomics.
proof fn lemma_atomic(inst: Inst, b: BufferView)
    ensures
        grew(b, emit::emitted_atomic(inst, b)),
{
    reveal(emit::emitted_atomic);
    lemma_grows(b);
}

/// Lanes.
proof fn lemma_lane(inst: Inst, b: BufferView, isa_3_0: bool)
    ensures
        grew(b, emit::emitted_lane(inst, b, isa_3_0)),
{
    reveal(emit::emitted_lane);
    lemma_grows(b);
}

/// Vectors.
proof fn lemma_vector(inst: Inst, b: BufferView)
    ensures
        grew(b, emit::emitted_vector(inst, b)),
{
    reveal(emit::emitted_vector);
    lemma_grows(b);
}

/// Emission of an instruction adds to the log: it changes nothing that was emitted
/// before.
pub proof fn law_emission_appends(inst: Inst, b: BufferView, info: EmitInfo, state: EmitState)
    ensures
        grew(b, emit::emitted(inst, b, info, state)),
{
    let isa_3_0 = info.isa_flags.has_isa_3_0;
    let frame = state.frame_layout;
    match emit::group(inst) {
        Group::Int => lemma_int(inst, b, isa_3_0),
        Group::Flow => lemma_flow(inst, b),
        Group::Float => lemma_float(inst, b),
        Group::Memory => lemma_memory(inst, b, isa_3_0, frame),
        Group::Call => lemma_call(inst, b, isa_3_0, frame, state.user_stack_map),
        Group::Atomic => lemma_atomic(inst, b),
        Group::Lane => lemma_lane(inst, b, isa_3_0),
        Group::Vector => lemma_vector(inst, b),
    }
}

} // verus!
