//! Where calls, tail calls and returns go, and what they leave in the link register.
use vstd::prelude::*;
use crate::abi;
use crate::buffer::{BufferView, Emission};
use crate::emit;
use crate::emit::{EmitInfo, EmitState};
use crate::emit_int;
use crate::frame::FrameLayout;
use crate::inst::{CallInfo, Inst};
use crate::ir::{ExternalName, Reloc};
use crate::label_use::LabelUse;
use crate::laws_emit;
use crate::laws_flow;
use crate::laws_tail;
use crate::machine;
use crate::memory;
use crate::memory::State;
use crate::mnem;

verus! {

// A model of branches that leave the code.

/// Where a branch goes that leaves the code.
pub enum Target {
    /// To a name outside.
    Name { name: ExternalName, addend: i64 },
    /// To an address.
    Address { to: u64 },
}

/// How a run of emitted code ends.
pub enum End {
    /// At the end of the log.
    Done { s: State },
    /// With a branch that leaves the code. Where it links, the link register is left with
    /// the address of what stands at a position of the log, and else it is as in the
    /// state.
    Left { target: Target, link: Option<int>, s: State },
    /// At something that is not known here.
    Stuck,
}

/// The position that a branch leaves in the link register: the one behind the branch,
/// where its last bit is set.
pub open spec fn linked(w: u32, at: int) -> Option<int> {
    if w % 2 == 1 {
        Some(at + 1)
    } else {
        None
    }
}

/// Run emitted code from a position, with a count register. Within the code, branches go
/// to labels, and only forward. What is not code changes nothing.
#[verifier::opaque]
pub open spec fn run(ops: Seq<Emission>, pc: int, s: State, ctr: u64) -> End
    decreases ops.len() - pc,
{
    if pc < 0 {
        End::Stuck
    } else if pc >= ops.len() {
        End::Done { s }
    } else {
        match ops[pc] {
            Emission::Word(w) => match memory::step(s, w) {
                Some(t) => run(ops, pc + 1, t, ctr),
                None => if machine::opcd(w) == 31 && machine::xo10(w) == 467 && machine::f2(w) == 9
                    && machine::f3(w) == 0 {
                    // mtctr
                    run(ops, pc + 1, s, s.cpu.gpr[machine::f1(w) as int])
                } else if machine::opcd(w) == 19 && machine::f1(w) == 20 && machine::xo10(w) == 528 {
                    // bctr, bctrl
                    End::Left { target: Target::Address { to: ctr }, link: linked(w, pc), s }
                } else if machine::opcd(w) == 19 && machine::f1(w) == 20 && machine::xo10(w) == 16 {
                    // blr, blrl
                    End::Left { target: Target::Address { to: s.cpu.lr }, link: linked(w, pc), s }
                } else {
                    End::Stuck
                },
            },
            Emission::Relocation { kind, name, addend } => if pc + 1 >= ops.len() {
                End::Stuck
            } else {
                match ops[pc + 1] {
                    Emission::Word(w) => if kind == Reloc::Ppc64Call && machine::opcd(w) == 18 {
                        // b, bl
                        End::Left { target: Target::Name { name, addend }, link: linked(w, pc + 1), s }
                    } else {
                        End::Stuck
                    },
                    _ => End::Stuck,
                }
            },
            Emission::UseLabel { label, kind } => {
                let at = laws_flow::branch_at(ops, pc);
                if at >= ops.len() {
                    End::Stuck
                } else {
                    match (ops[at], laws_flow::binding(ops, label, at + 1)) {
                        (Emission::Word(w), Some(k)) => if laws_flow::is_jump(w) && w % 2 == 0 && pc
                            < k < ops.len() {
                            run(ops, k, s, ctr)
                        } else {
                            End::Stuck
                        },
                        _ => End::Stuck,
                    }
                }
            },
            Emission::Quad(_) => End::Stuck,
            _ => run(ops, pc + 1, s, ctr),
        }
    }
}

/// The branches that leave the code, by their bits.
proof fn lemma_branch_bits()
    by (bit_vector)
    ensures
        ({
            let w = (18u32 << 26) | ((0i32 as u32) & 0x03FF_FFFC) | 1u32;
            w >> 26 == 18 && w % 2 == 1
        }),
        ({
            let w = (18u32 << 26) | ((0i32 as u32) & 0x03FF_FFFC) | 0u32;
            w >> 26 == 18 && w % 2 == 0
        }),
        ({
            let w = (19u32 << 26) | (20u32 << 21) | (0u32 << 16) | (0u32 << 11) | ((528u32 << 1)
                | 1u32);
            &&& w >> 26 == 19
            &&& (w >> 21) & 0x1F == 20
            &&& (w >> 1) & 0x3FF == 528
            &&& w % 2 == 1
        }),
        ({
            let w = (19u32 << 26) | (20u32 << 21) | (0u32 << 16) | (0u32 << 11) | ((528u32 << 1)
                | 0u32);
            &&& w >> 26 == 19
            &&& (w >> 21) & 0x1F == 20
            &&& (w >> 1) & 0x3FF == 528
            &&& w % 2 == 0
        }),
        ({
            let w = (19u32 << 26) | (20u32 << 21) | (0u32 << 16) | (0u32 << 11) | (16u32 << 1);
            &&& w >> 26 == 19
            &&& (w >> 21) & 0x1F == 20
            &&& (w >> 1) & 0x3FF == 16
            &&& w % 2 == 0
        }),
        9u32 & 0x1F == 9,
        9u32 >> 5 == 0,
{
}

/// A branch is no instruction of the other units.
proof fn lemma_no_step(s: State, w: u32)
    requires
        machine::opcd(w) == 18 || machine::opcd(w) == 19 || (machine::opcd(w) == 31
            && machine::xo10(w) == 467 && machine::f2(w) == 9 && machine::xo5(w) == 19),
    ensures
        memory::step(s, w) is None,
{
    reveal(memory::step);
    reveal(machine::step);
}

/// Words of the other units.
proof fn lemma_words(ops: Seq<Emission>, pc: int, s: State, ws: Seq<u32>, t: State, ctr: u64)
    requires
        0 <= pc,
        pc + ws.len() <= ops.len(),
        forall|j: int| 0 <= j < ws.len() ==> #[trigger] ops[pc + j] == Emission::Word(ws[j]),
        memory::run_words(s, ws) == Some(t),
    ensures
        run(ops, pc, s, ctr) == run(ops, pc + ws.len(), t, ctr),
    decreases ws.len(),
{
    if ws.len() > 0 {
        let rest = ws.drop_last();
        let u = memory::run_words(s, rest)->0;
        assert forall|j: int| 0 <= j < rest.len() implies #[trigger] ops[pc + j] == Emission::Word(
            rest[j],
        ) by {
            assert(ops[pc + j] == Emission::Word(ws[j]));
        }
        lemma_words(ops, pc, s, rest, u, ctr);
        assert(ops[pc + (ws.len() - 1)] == Emission::Word(ws[ws.len() - 1]));
        reveal(run);
    }
}

/// A branch to a name.
proof fn lemma_to_name(ops: Seq<Emission>, pc: int, s: State, ctr: u64, name: ExternalName, w: u32)
    requires
        0 <= pc,
        pc + 1 < ops.len(),
        ops[pc] == (Emission::Relocation { kind: Reloc::Ppc64Call, name, addend: 0 }),
        ops[pc + 1] == Emission::Word(w),
        machine::opcd(w) == 18,
    ensures
        run(ops, pc, s, ctr) == (End::Left {
            target: Target::Name { name, addend: 0 },
            link: linked(w, pc + 1),
            s,
        }),
{
    reveal(run);
}

/// A branch through the count register to what a register holds.
proof fn lemma_to_register(ops: Seq<Emission>, pc: int, s: State, ctr: u64, r: u32, lk: bool)
    requires
        0 <= pc,
        pc + 1 < ops.len(),
        r < 32,
        ops[pc] == Emission::Word(mnem::mtctr(r)),
        ops[pc + 1] == Emission::Word(mnem::bctr(lk)),
    ensures
        run(ops, pc, s, ctr) == (End::Left {
            target: Target::Address { to: s.cpu.gpr[r as int] },
            link: if lk {
                Some(pc + 2)
            } else {
                None
            },
            s,
        }),
{
    lemma_branch_bits();
    machine::law_x_fields(31, r, 9, 0, 467);
    lemma_no_step(s, mnem::mtctr(r));
    lemma_no_step(s, mnem::bctr(lk));
    assert(run(ops, pc + 1, s, s.cpu.gpr[r as int]) == (End::Left {
        target: Target::Address { to: s.cpu.gpr[r as int] },
        link: if lk {
            Some(pc + 2)
        } else {
            None
        },
        s,
    })) by {
        reveal(run);
    }
    reveal(run);
}

// Calls.

/// Whether nothing between two positions of a log is code.
pub open spec fn no_code(ops: Seq<Emission>, from: int, to: int) -> bool {
    forall|j: int| from <= j < to ==> !((#[trigger] ops[j]) is Word) && !(ops[j] is Quad)
}

/// What stands behind a call: its stack map, and its call site at the address that the
/// callee returns to.
proof fn lemma_site<T>(
    b: BufferView,
    call: CallInfo<T>,
    info: EmitInfo,
    state: EmitState,
) -> (at: int)
    ensures
        ({
            let ops = emit::after_call(
                b,
                call,
                state.frame_layout,
                state.user_stack_map,
                info.isa_flags.has_isa_3_0,
            ).ops;
            &&& b.ops.len() <= at < ops.len()
            &&& no_code(ops, b.ops.len() as int, at + 1)
            &&& ops.take(b.ops.len() as int) == b.ops
            &&& call.try_call_info is None ==> ops[at] is CallSite
            &&& call.try_call_info is Some ==> ops[at] is TryCallSite
        }),
{
    let frame = state.frame_layout;
    let isa_3_0 = info.isa_flags.has_isa_3_0;
    let b1 = match state.user_stack_map {
        Some(map) => b.note(Emission::StackMap { map }),
        None => b,
    };
    let b2 = match call.try_call_info {
        Some(t) => b1.try_site(frame.spec_sp_to_fp() as u32, t.placed_handlers(frame)),
        None => b1.note(Emission::CallSite),
    };
    let out = emit::after_call(b, call, frame, state.user_stack_map, isa_3_0);
    laws_emit::lemma_past_site(b2, call, frame, isa_3_0);
    assert(out == laws_emit::past_site(b2, call, frame, isa_3_0));
    reveal(laws_emit::grew);
    let at = b1.ops.len() as int;
    assert forall|j: int| b.ops.len() <= j < at + 1 implies !((#[trigger] out.ops[j]) is Word) && !(
    out.ops[j] is Quad) by {
        assert(out.ops[j] == b2.ops[j]);
    }
    assert(out.ops[at] == b2.ops[at]);
    assert forall|j: int| 0 <= j < b.ops.len() implies out.ops[j] == b.ops[j] by {
        assert(out.ops[j] == b2.ops[j]);
    }
    assert(out.ops.take(b.ops.len() as int) =~= b.ops);
    at
}

/// A call goes to its callee: to the name or the address that it is given, with no
/// register or memory changed on the way. It leaves in the link register the address
/// right behind it, and there its call site is recorded.
pub proof fn law_call(b: BufferView, s: State, ctr: u64, inst: Inst, info: EmitInfo, state: EmitState)
    requires
        memory::wf(s),
        emit::encodable(inst, state.frame_layout),
        inst is Call || inst is CallInd,
    ensures
        ({
            let ops = emit::emitted(inst, b, info, state).ops;
            let start = b.ops.len() as int;
            let target = match inst {
                Inst::Call { info } => Target::Name { name: info.dest, addend: 0 },
                Inst::CallInd { info } => Target::Address { to: s.cpu.gpr[info.dest.num() as int] },
                _ => Target::Address { to: 0 },
            };
            let handled = match inst {
                Inst::Call { info } => info.try_call_info is Some,
                Inst::CallInd { info } => info.try_call_info is Some,
                _ => false,
            };
            &&& run(ops, start, s, ctr) == (End::Left { target, link: Some(start + 2), s })
            &&& exists|at: int|
                #![trigger ops[at]]
                start + 2 <= at < ops.len() && no_code(ops, start + 2, at + 1) && (if handled {
                    ops[at] is TryCallSite
                } else {
                    ops[at] is CallSite
                })
        }),
{
    reveal(emit::emitted_call);
    lemma_branch_bits();
    let ops = emit::emitted(inst, b, info, state).ops;
    let start = b.ops.len() as int;
    match inst {
        Inst::Call { info: call } => {
            let b1 = b.reloc(Reloc::Ppc64Call, call.dest, 0).word(mnem::bl(0));
            let at = lemma_site(b1, *call, info, state);
            assert(ops.take(start + 2)[start] == b1.ops[start]);
            assert(ops.take(start + 2)[start + 1] == b1.ops[start + 1]);
            lemma_to_name(ops, start, s, ctr, call.dest, mnem::bl(0));
            assert(ops[at] is TryCallSite || ops[at] is CallSite);
        },
        Inst::CallInd { info: call } => {
            let b1 = b.word(mnem::mtctr(call.dest.num())).word(mnem::bctr(true));
            let at = lemma_site(b1, *call, info, state);
            assert(ops.take(start + 2)[start] == b1.ops[start]);
            assert(ops.take(start + 2)[start + 1] == b1.ops[start + 1]);
            lemma_to_register(ops, start, s, ctr, call.dest.num(), true);
            assert(ops[at] is TryCallSite || ops[at] is CallSite);
        },
        _ => {},
    }
}

/// A return goes to the address in the link register.
pub proof fn law_return(b: BufferView, s: State, ctr: u64, info: EmitInfo, state: EmitState)
    ensures
        run(emit::emitted(Inst::Ret, b, info, state).ops, b.ops.len() as int, s, ctr) == (
        End::Left { target: Target::Address { to: s.cpu.lr }, link: None, s }),
{
    reveal(emit::emitted_flow);
    reveal(run);
    lemma_branch_bits();
    lemma_no_step(s, mnem::blr());
}

// Tail calls.

/// An island before what follows, where one is due, is jumped over.
proof fn lemma_island(
    b: BufferView,
    ops: Seq<Emission>,
    distance: u32,
    s: State,
    ctr: u64,
)
    requires
        emit_int::island(b, distance).ops.len() <= ops.len(),
        forall|j: int|
            0 <= j < emit_int::island(b, distance).ops.len() ==> #[trigger] ops[j]
                == emit_int::island(b, distance).ops[j],
    ensures
        run(ops, b.ops.len() as int, s, ctr) == run(
            ops,
            emit_int::island(b, distance).ops.len() as int,
            s,
            ctr,
        ),
{
    if b.needs_island(distance as nat) {
        let p = b.ops.len() as int;
        let label = b.fresh();
        let r = emit_int::island(b, distance).ops;
        assert(r.len() == p + 5);
        assert(r[p] == (Emission::UseLabel { label, kind: LabelUse::Branch26 }));
        assert(r[p + 1] == (Emission::UncondBranch { label }));
        assert(r[p + 2] == Emission::Word(mnem::b(0)));
        assert(r[p + 3] is Island);
        assert(r[p + 4] == (Emission::BindLabel { label }));
        assert(ops[p] == r[p] && ops[p + 1] == r[p + 1] && ops[p + 2] == r[p + 2] && ops[p + 3]
            == r[p + 3] && ops[p + 4] == r[p + 4]);
        lemma_branch_bits();
        laws_flow::lemma_binding(ops, label, p + 3, p + 4);
        assert(run(ops, p + 4, s, ctr) == run(ops, p + 5, s, ctr)) by {
            reveal(run);
        }
        assert(run(ops, p, s, ctr) == run(ops, p + 4, s, ctr)) by {
            reveal(run);
        }
    }
}

/// Whether a function runs in its frame, with what its prologue left: the return address
/// and the caller's frame pointer in the frame record, or where there is none still in
/// their registers.
pub open spec fn in_frame(s: State, frame: FrameLayout, return_address: u64, caller_fp: u64) -> bool {
    if frame.setup_area_size > 0 {
        &&& memory::doubleword(laws_tail::slot_bytes(s, frame.spec_sp_to_fp() + 8))
            == return_address
        &&& memory::doubleword(laws_tail::slot_bytes(s, frame.spec_sp_to_fp())) == caller_fp
    } else {
        s.cpu.lr == return_address && s.cpu.gpr[31] == caller_fp
    }
}

/// Whether a state is one in which a function could have been called in place of the one
/// whose frame this is: with the same return address and frame pointer, with the saved
/// registers as they are in their slots, and with the stack pointer above the frame, below
/// so many bytes of arguments.
pub open spec fn left_frame(
    s: State,
    t: State,
    frame: FrameLayout,
    new_stack_arg_size: u32,
    return_address: u64,
    caller_fp: u64,
) -> bool {
    &&& t.cpu.lr == return_address
    &&& t.cpu.gpr[31] == caller_fp
    &&& t.cpu.gpr[1] == machine::wrap(
        s.cpu.gpr[1] + frame.spec_sp_to_fp() + frame.setup_area_size + frame.tail_args_size
            - new_stack_arg_size,
    )
    &&& t.mem == s.mem
    &&& forall|i: int|
        0 <= i < frame.clobbered_callee_saves@.len() ==> laws_tail::register_bytes(
            t,
            (#[trigger] frame.clobbered_callee_saves@[i]).reg,
        ) == laws_tail::saved_bytes(
            s,
            frame.clobbered_callee_saves@[i].reg,
            abi::clobber_slot(frame, i),
        )
}

/// The teardown before a tail call, at the start of a log.
proof fn lemma_torn_down(
    b: BufferView,
    ops: Seq<Emission>,
    s: State,
    ctr: u64,
    frame: FrameLayout,
    new_stack_arg_size: u32,
    isa_3_0: bool,
    return_address: u64,
    caller_fp: u64,
) -> (t: State)
    requires
        memory::wf(s),
        laws_tail::tail_ok(frame, new_stack_arg_size),
        in_frame(s, frame, return_address, caller_fp),
        ({
            let r = emit::return_call_sequence(b, frame, new_stack_arg_size, isa_3_0).ops;
            r.len() <= ops.len() && forall|j: int| 0 <= j < r.len() ==> #[trigger] ops[j] == r[j]
        }),
    ensures
        left_frame(s, t, frame, new_stack_arg_size, return_address, caller_fp),
        run(ops, b.ops.len() as int, s, ctr) == run(
            ops,
            emit::return_call_sequence(b, frame, new_stack_arg_size, isa_3_0).ops.len() as int,
            t,
            ctr,
        ),
{
    let length = emit::return_call_teardown(
        emit::empty_log(),
        frame,
        new_stack_arg_size,
        isa_3_0,
    ).size as u32;
    let b1 = emit_int::island(b, length);
    let ws = laws_tail::teardown_words(frame, new_stack_arg_size, isa_3_0);
    laws_tail::law_tail_call_undoes_the_prologue(b1, s, frame, new_stack_arg_size, isa_3_0);
    let t = memory::run_words(s, ws)->0;
    let q = b1.ops.len() as int;
    let r = b1.words(ws).ops;
    assert(r =~= b1.ops + ws.map_values(|w: u32| Emission::Word(w)));
    assert forall|j: int| 0 <= j < b1.ops.len() implies #[trigger] ops[j] == b1.ops[j] by {
        assert(ops[j] == r[j]);
    }
    assert forall|j: int| 0 <= j < ws.len() implies #[trigger] ops[q + j] == Emission::Word(
        ws[j],
    ) by {
        assert(ops[q + j] == r[q + j]);
    }
    lemma_island(b, ops, length, s, ctr);
    lemma_words(ops, q, s, ws, t, ctr);
    t
}

/// The state in which a tail call enters its callee is the one in which the caller would
/// have called it: the link register holds the caller's return address, so that the
/// callee returns there, the frame pointer is the caller's, every register that was saved
/// is back, and the stack pointer is above the frame, below the arguments of the callee.
/// The branch does not link.
pub proof fn law_tail_call(
    b: BufferView,
    s: State,
    ctr: u64,
    inst: Inst,
    info: EmitInfo,
    state: EmitState,
    new_stack_arg_size: u32,
    return_address: u64,
    caller_fp: u64,
)
    requires
        memory::wf(s),
        emit::encodable(inst, state.frame_layout),
        laws_tail::tail_ok(state.frame_layout, new_stack_arg_size),
        inst matches Inst::ReturnCall { info: call } ==> call.new_stack_arg_size
            == new_stack_arg_size,
        inst matches Inst::ReturnCallInd { info: call } ==> call.new_stack_arg_size
            == new_stack_arg_size,
        inst is ReturnCall || inst is ReturnCallInd,
        in_frame(s, state.frame_layout, return_address, caller_fp),
    ensures
        ({
            let frame = state.frame_layout;
            let ops = emit::emitted(inst, b, info, state).ops;
            let end = run(ops, b.ops.len() as int, s, ctr);
            let t = end->Left_s;
            &&& end is Left
            &&& end->Left_link is None
            &&& left_frame(s, t, frame, new_stack_arg_size, return_address, caller_fp)
            &&& match inst {
                Inst::ReturnCall { info: call } => end->Left_target == (Target::Name {
                    name: call.dest,
                    addend: 0,
                }),
                Inst::ReturnCallInd { info: call } => end->Left_target == (Target::Address {
                    to: t.cpu.gpr[call.dest.num() as int],
                }),
                _ => true,
            }
        }),
{
    reveal(emit::emitted_call);
    lemma_branch_bits();
    let frame = state.frame_layout;
    let isa_3_0 = info.isa_flags.has_isa_3_0;
    let ops = emit::emitted(inst, b, info, state).ops;
    let torn = emit::return_call_sequence(b, frame, new_stack_arg_size, isa_3_0);
    let r = torn.ops.len() as int;
    match inst {
        Inst::ReturnCall { info: call } => {
            assert(ops =~= torn.note(Emission::CallSite).reloc(
                Reloc::Ppc64Call,
                call.dest,
                0,
            ).word(mnem::b(0)).ops);
            let t = lemma_torn_down(
                b,
                ops,
                s,
                ctr,
                frame,
                new_stack_arg_size,
                isa_3_0,
                return_address,
                caller_fp,
            );
            assert(ops[r] is CallSite);
            assert(run(ops, r, t, ctr) == run(ops, r + 1, t, ctr)) by {
                reveal(run);
            }
            lemma_to_name(ops, r + 1, t, ctr, call.dest, mnem::b(0));
        },
        Inst::ReturnCallInd { info: call } => {
            assert(ops =~= torn.word(mnem::mtctr(call.dest.num())).word(mnem::bctr(false)).ops);
            let t = lemma_torn_down(
                b,
                ops,
                s,
                ctr,
                frame,
                new_stack_arg_size,
                isa_3_0,
                return_address,
                caller_fp,
            );
            lemma_to_register(ops, r, t, ctr, call.dest.num(), false);
        },
        _ => {},
    }
}

} // verus!
