//! Binary code emission.
use vstd::prelude::*;
use crate::abi;
use crate::abi::aligned_offset;
use crate::args;
use crate::args::{AMode, CondBrTarget, LoadOP};
use crate::buffer::{BufferView, Emission, MachBuffer, UserStackMap};
use crate::emit_atomic;
use crate::emit_atomic::{
    emit_atomic_cas, emit_atomic_cas128, emit_atomic_load, emit_atomic_load128, emit_atomic_rmw,
    emit_atomic_rmw128, emit_atomic_store, emit_atomic_store128,
};
use crate::emit_fp;
use crate::emit_fp::{
    emit_bswap, emit_fpu_min_max, emit_fpu_select, emit_fpu_to_int_sat, emit_fpu_to_int_trap,
    enc_fpu_fma, enc_fpu_round, enc_fpu_rr, enc_fpu_rrr, enc_int_to_fpu,
};
use crate::emit_int;
use crate::emit_int::{
    emit_bit_count, emit_bit_to_reg, emit_cond_br, emit_constant, emit_divrem, emit_fpu_cond_br,
    emit_island, emit_jump, emit_select, emit_trap_if, emit_udf, enc_alu_rr_imm16, enc_alu_rrr,
    enc_extend, enc_shift_rr_imm, enc_shift_rrr, enc_unary_rr,
};
use crate::emit_mem;
use crate::emit_mem::{
    emit_br_table, emit_flags, emit_label_address, emit_load_addr, emit_load_ext_name,
    emit_mem_access, emit_vec_load, emit_vec_load64, emit_vec_store, emit_vec_store64,
    load_opcodes, store_opcodes,
};
use crate::emit_vec;
use crate::emit_vec::{
    emit_vec_extract_lane_fpu, emit_vec_extract_lane_int, emit_vec_insert_lane,
    emit_vec_test_lanes, enc_vec_alu_rrr, enc_vec_alu_rrrr, enc_vec_cvt, enc_vec_fpu_rr,
    enc_vec_fpu_rrr, enc_vec_round, enc_vec_splat_fpr, enc_vec_splat_lane, enc_vec_splt_imm,
    enc_vec_unary,
};
use crate::encode::{
    enc_b, enc_bctr, enc_blr, enc_d_logic, enc_fmr, enc_mflr, enc_mtctr, enc_mtlr, enc_mxvsrd,
    enc_xx1, enc_xx3, enc_xxpermdi, enc_xxsel, reg_num, vsr_num, NOP_INSTRUCTION, SYNC,
};
use crate::frame::FrameLayout;
use crate::inst::{AluImmOp, CallInfo, Inst, RetvalMove, VecUnaryOp};
use crate::ir::{Ppc64Flags, Reloc, SharedFlags, Type};
use crate::mnem;
use crate::regs::{Reg, RegClass};

verus! {

/// What emission needs to know of the target.
#[derive(Clone, Copy, Debug)]
pub struct EmitInfo {
    pub shared_flags: SharedFlags,
    pub isa_flags: Ppc64Flags,
}

impl EmitInfo {
    /// The settings of the target.
    pub fn new(shared_flags: SharedFlags, isa_flags: Ppc64Flags) -> (info: EmitInfo)
        ensures
            info.shared_flags == shared_flags,
            info.isa_flags == isa_flags,
    {
        EmitInfo { shared_flags, isa_flags }
    }
}

/// State carried between emissions of a sequence of instructions.
#[derive(Debug)]
pub struct EmitState {
    /// The stack map for the upcoming instruction, as provided to
    /// `pre_safepoint`.
    pub user_stack_map: Option<UserStackMap>,
    /// The layout of the frame.
    pub frame_layout: FrameLayout,
}

impl EmitState {
    /// The state before the first instruction of a function.
    pub fn new(frame_layout: FrameLayout) -> (s: EmitState)
        ensures
            s.user_stack_map is None,
            s.frame_layout == frame_layout,
    {
        EmitState { user_stack_map: None, frame_layout }
    }

    /// Provide the stack map of the upcoming instruction.
    pub fn pre_safepoint(&mut self, user_stack_map: Option<UserStackMap>)
        ensures
            final(self).user_stack_map == user_stack_map,
            final(self).frame_layout == old(self).frame_layout,
    {
        self.user_stack_map = user_stack_map;
    }

    /// Take the stack map of the upcoming instruction.
    fn take_stack_map(&mut self) -> (m: Option<UserStackMap>)
        ensures
            m == old(self).user_stack_map,
            final(self).user_stack_map is None,
            final(self).frame_layout == old(self).frame_layout,
    {
        self.user_stack_map.take()
    }

    /// The layout of the frame.
    pub fn frame_layout(&self) -> (f: &FrameLayout)
        ensures
            *f == self.frame_layout,
    {
        &self.frame_layout
    }
}

// Return values.

/// The log with a load of a type.
pub open spec fn typed_load(
    b: BufferView,
    rd: Reg,
    mem: AMode,
    ty: Type,
    frame: FrameLayout,
    isa_3_0: bool,
) -> BufferView {
    if args::is_scalar_access(ty) {
        emit_mem::mem_access(
            b,
            rd.num(),
            mem.base().num(),
            mem.offset(frame),
            emit_mem::load_access(LoadOP::spec_from_type(ty)),
        )
    } else if ty.bits() == 64 {
        emit_mem::vec_load64(b, rd.vsr(), mem.base().num(), mem.offset(frame))
    } else {
        emit_mem::vec_load(b, rd.vsr(), mem.base().num(), mem.offset(frame), isa_3_0)
    }
}

/// Emit a trusted load of a type.
fn emit_typed_load(
    sink: &mut MachBuffer,
    frame: &FrameLayout,
    rd: Reg,
    mem: AMode,
    ty: Type,
    isa_3_0: bool,
)
    requires
        Inst::loadable(ty),
        rd.is_real(),
        emit_mem::addressable(mem, *frame),
        old(sink)@.size + 28 <= u32::MAX,
    ensures
        final(sink)@ == typed_load(old(sink)@, rd, mem, ty, *frame, isa_3_0),
        final(sink)@.size <= old(sink)@.size + 28,
{
    if ty.is_vector() {
        if ty.bits() == 64 {
            emit_vec_load64(sink, frame, rd, mem);
        } else {
            emit_vec_load(sink, frame, rd, mem, isa_3_0);
        }
    } else {
        emit_mem_access(sink, frame, mem, reg_num(rd), load_opcodes(LoadOP::from_type(ty)));
    }
}

/// The log with a store of a type.
pub open spec fn typed_store(
    b: BufferView,
    rs: Reg,
    mem: AMode,
    ty: Type,
    frame: FrameLayout,
    isa_3_0: bool,
) -> BufferView {
    if args::is_scalar_access(ty) {
        emit_mem::mem_access(
            b,
            rs.num(),
            mem.base().num(),
            mem.offset(frame),
            emit_mem::store_access(args::StoreOP::spec_from_type(ty)),
        )
    } else if ty.bits() == 64 {
        emit_mem::vec_store64(b, rs.vsr(), mem.base().num(), mem.offset(frame))
    } else {
        emit_mem::vec_store(b, rs.vsr(), mem.base().num(), mem.offset(frame), isa_3_0)
    }
}

/// Emit a trusted store of a type.
fn emit_typed_store(
    sink: &mut MachBuffer,
    frame: &FrameLayout,
    mem: AMode,
    rs: Reg,
    ty: Type,
    isa_3_0: bool,
)
    requires
        Inst::loadable(ty),
        rs.is_real(),
        emit_mem::addressable(mem, *frame),
        old(sink)@.size + 28 <= u32::MAX,
    ensures
        final(sink)@ == typed_store(old(sink)@, rs, mem, ty, *frame, isa_3_0),
        final(sink)@.size <= old(sink)@.size + 28,
{
    if ty.is_vector() {
        if ty.bits() == 64 {
            emit_vec_store64(sink, frame, mem, rs);
        } else {
            emit_vec_store(sink, frame, mem, rs, isa_3_0);
        }
    } else {
        emit_mem_access(
            sink,
            frame,
            mem,
            reg_num(rs),
            store_opcodes(args::StoreOP::from_type(ty)),
        );
    }
}

/// The address of a spill slot, so many bytes above the stack slots.
pub open spec fn spill_slot(frame: FrameLayout, slot: u32) -> AMode {
    AMode::SlotOffset((frame.stackslots_size + slot) as i64)
}

/// Whether a move of a return value can be emitted.
pub open spec fn move_ok(m: RetvalMove, frame: FrameLayout) -> bool {
    match m {
        RetvalMove::Island(distance) => distance <= u32::MAX - 4,
        RetvalMove::Load { mem, into, ty } => {
            &&& Inst::loadable(ty)
            &&& into.reg.is_real()
            &&& mem matches args::StackAMode::IncomingArg(off, size) ==> size - off <= i64::MAX
            &&& emit_mem::addressable(AMode::spec_from_stack(mem), frame)
        },
        RetvalMove::Spill { slot, from, ty } => {
            &&& Inst::loadable(ty)
            &&& from.is_real()
            &&& emit_mem::addressable(spill_slot(frame, slot), frame)
        },
    }
}

/// The log with one move of a return value.
pub open spec fn retval_move(
    b: BufferView,
    m: RetvalMove,
    frame: FrameLayout,
    isa_3_0: bool,
) -> BufferView {
    match m {
        RetvalMove::Island(distance) => emit_int::island(b, distance),
        RetvalMove::Load { mem, into, ty } => typed_load(
            b,
            into.reg,
            AMode::spec_from_stack(mem),
            ty,
            frame,
            isa_3_0,
        ),
        RetvalMove::Spill { slot, from, ty } => typed_store(
            b,
            from,
            spill_slot(frame, slot),
            ty,
            frame,
            isa_3_0,
        ),
    }
}

/// The log with moves of return values, in order.
pub open spec fn retval_moves(
    b: BufferView,
    ms: Seq<RetvalMove>,
    frame: FrameLayout,
    isa_3_0: bool,
) -> BufferView
    decreases ms.len(),
{
    if ms.len() == 0 {
        b
    } else {
        retval_move(retval_moves(b, ms.drop_last(), frame, isa_3_0), ms.last(), frame, isa_3_0)
    }
}

/// The bytes that moves of return values take at most.
pub open spec fn moves_room(n: nat) -> nat {
    28 * n
}

fn emit_retval_moves(
    sink: &mut MachBuffer,
    frame: &FrameLayout,
    ms: &Vec<RetvalMove>,
    isa_3_0: bool,
)
    requires
        forall|i: int| 0 <= i < ms@.len() ==> move_ok(#[trigger] ms@[i], *frame),
        old(sink)@.room(moves_room(ms@.len()), ms@.len()),
    ensures
        final(sink)@ == retval_moves(old(sink)@, ms@, *frame, isa_3_0),
        final(sink)@.size <= old(sink)@.size + moves_room(ms@.len()),
{
    let ghost start = sink@;
    let mut i: usize = 0;
    assert(ms@.take(0) =~= Seq::<RetvalMove>::empty());
    while i < ms.len()
        invariant
            i <= ms@.len(),
            forall|j: int| 0 <= j < ms@.len() ==> move_ok(#[trigger] ms@[j], *frame),
            start.room(moves_room(ms@.len()), ms@.len()),
            sink@ == retval_moves(start, ms@.take(i as int), *frame, isa_3_0),
            sink@.size <= start.size + 28 * i,
            sink@.labels <= start.labels + i,
        decreases ms@.len() - i,
    {
        assert(ms@.take(i + 1).drop_last() =~= ms@.take(i as int));
        match ms[i] {
            RetvalMove::Island(distance) => emit_island(sink, distance),
            RetvalMove::Load { mem, into, ty } => {
                emit_typed_load(sink, frame, into.to_reg(), AMode::from_stack(mem), ty, isa_3_0);
            },
            RetvalMove::Spill { slot, from, ty } => {
                let at: i64 = frame.stackslots_size as i64 + slot as i64;
                emit_typed_store(sink, frame, AMode::SlotOffset(at), from, ty, isa_3_0);
            },
        }
        i = i + 1;
    }
    assert(ms@.take(i as int) =~= ms@);
}

// Calls.

/// Whether a call can be emitted.
pub open spec fn call_ok<T>(info: CallInfo<T>, frame: FrameLayout) -> bool {
    &&& info.callee_pop_size <= i32::MAX
    &&& info.try_call_info matches Some(t) ==> t.handlers@.len() <= u32::MAX
        && frame.spec_sp_to_fp() <= u32::MAX
    &&& forall|i: int|
        0 <= i < info.retval_moves@.len() ==> move_ok(#[trigger] info.retval_moves@[i], frame)
}

/// The bytes that a call takes at most.
pub open spec fn call_room<T>(info: CallInfo<T>) -> nat {
    36 + moves_room(info.retval_moves@.len())
}

/// The log after a call instruction: the stack map, the call site with its
/// exception handlers, the stack arguments that the callee popped allocated
/// again, the return values fetched, and a jump where the call goes on
/// elsewhere.
pub open spec fn after_call<T>(
    b: BufferView,
    info: CallInfo<T>,
    frame: FrameLayout,
    map: Option<UserStackMap>,
    isa_3_0: bool,
) -> BufferView {
    let b = match map {
        Some(map) => b.note(Emission::StackMap { map }),
        None => b,
    };
    let b = match info.try_call_info {
        Some(t) => b.try_site(frame.spec_sp_to_fp() as u32, t.placed_handlers(frame)),
        None => b.note(Emission::CallSite),
    };
    let b = if info.callee_pop_size > 0 {
        emit_mem::load_addr(b, 1, 1, -(info.callee_pop_size as int))
    } else {
        b
    };
    let b = retval_moves(b, info.retval_moves@, frame, isa_3_0);
    match info.try_call_info {
        Some(t) => emit_int::jump(b, t.continuation),
        None => b,
    }
}

fn emit_after_call<T>(
    sink: &mut MachBuffer,
    state: &mut EmitState,
    info: &CallInfo<T>,
    isa_3_0: bool,
)
    requires
        call_ok(*info, old(state).frame_layout),
        old(sink)@.room(
            28 + moves_room(info.retval_moves@.len()),
            info.retval_moves@.len(),
        ),
    ensures
        final(sink)@ == after_call(
            old(sink)@,
            *info,
            old(state).frame_layout,
            old(state).user_stack_map,
            isa_3_0,
        ),
        final(state).frame_layout == old(state).frame_layout,
        final(state).user_stack_map is None,
{
    if let Some(s) = state.take_stack_map() {
        sink.push_user_stack_map(s);
    }
    match &info.try_call_info {
        Some(try_call) => {
            let handlers = try_call.exception_handlers(&state.frame_layout);
            sink.add_try_call_site(state.frame_layout.sp_to_fp(), &handlers);
        },
        None => sink.add_call_site(),
    }
    if info.callee_pop_size > 0 {
        let pop: i64 = info.callee_pop_size as i64;
        emit_load_addr(sink, &state.frame_layout, 1, AMode::SPOffset(-pop));
    }
    emit_retval_moves(sink, &state.frame_layout, &info.retval_moves, isa_3_0);
    if let Some(try_call) = &info.try_call_info {
        emit_jump(sink, try_call.continuation);
    }
}

// Tail calls.

/// Whether the frame can be torn down for a tail call.
pub open spec fn return_call_ok(frame: FrameLayout, new_stack_arg_size: u32) -> bool {
    &&& abi::wf_regs(frame.clobbered_callee_saves@)
    &&& frame.wf()
    &&& new_stack_arg_size <= frame.tail_args_size
    &&& teardown(frame, new_stack_arg_size) <= i32::MAX
}

/// How far the stack pointer goes up for a tail call.
pub open spec fn teardown(frame: FrameLayout, new_stack_arg_size: u32) -> int {
    frame.spec_sp_to_fp() + frame.setup_area_size + frame.tail_args_size - new_stack_arg_size
}

/// The bytes that the teardown takes at most.
pub open spec fn return_call_room(frame: FrameLayout) -> nat {
    (28 * frame.clobbered_callee_saves@.len() + 76) as nat
}

/// The log with the first so many clobbered registers restored, from the slots that
/// the prologue stored them in: descending from just below the frame record.
pub open spec fn restore_clobbers(
    b: BufferView,
    frame: FrameLayout,
    n: nat,
    isa_3_0: bool,
) -> BufferView
    decreases n,
{
    if n == 0 {
        b
    } else {
        typed_load(
            restore_clobbers(b, frame, (n - 1) as nat, isa_3_0),
            abi::clobber_reg(frame, n - 1),
            AMode::SPOffset(abi::clobber_slot(frame, n - 1) as i64),
            abi::clobber_type(frame.clobbered_callee_saves@[n - 1].reg.class),
            frame,
            isa_3_0,
        )
    }
}

/// The log with the teardown of the frame for a tail call: the clobbered
/// registers, the return address back in LR, the frame pointer, and the stack
/// pointer up to where the callee expects its arguments.
pub open spec fn return_call_teardown(
    b: BufferView,
    frame: FrameLayout,
    new_stack_arg_size: u32,
    isa_3_0: bool,
) -> BufferView {
    let b = restore_clobbers(b, frame, frame.clobbered_callee_saves@.len(), isa_3_0);
    let ld = emit_mem::load_access(LoadOP::Ld);
    let b = if frame.setup_area_size > 0 {
        emit_mem::mem_access(
            emit_mem::mem_access(b, 0, 1, frame.spec_sp_to_fp() + 8, ld).word(mnem::mtlr(0)),
            31,
            1,
            frame.spec_sp_to_fp(),
            ld,
        )
    } else {
        b
    };
    if teardown(frame, new_stack_arg_size) > 0 {
        emit_mem::load_addr(b, 1, 1, teardown(frame, new_stack_arg_size))
    } else {
        b
    }
}

/// An empty log.
pub open spec fn empty_log() -> BufferView {
    BufferView { ops: Seq::empty(), size: 0, labels: 0, deadline: u32::MAX as nat }
}

/// The log with the teardown of the frame for a tail call, kept in one piece:
/// its length depends on the clobbered registers, and an island goes before it
/// where one is due.
pub open spec fn return_call_sequence(
    b: BufferView,
    frame: FrameLayout,
    new_stack_arg_size: u32,
    isa_3_0: bool,
) -> BufferView {
    let length = return_call_teardown(empty_log(), frame, new_stack_arg_size, isa_3_0).size as u32;
    return_call_teardown(emit_int::island(b, length), frame, new_stack_arg_size, isa_3_0)
}

/// Emit the teardown of the frame for a tail call.
fn return_call_emit_impl(
    sink: &mut MachBuffer,
    frame: &FrameLayout,
    new_stack_arg_size: u32,
    isa_3_0: bool,
)
    requires
        return_call_ok(*frame, new_stack_arg_size),
        old(sink)@.room(return_call_room(*frame), 0),
    ensures
        final(sink)@ == return_call_teardown(old(sink)@, *frame, new_stack_arg_size, isa_3_0),
        final(sink)@.size <= old(sink)@.size + return_call_room(*frame),
{
    let sp_to_fp_offset: i64 = frame.sp_to_fp() as i64;

    // Restore the clobbered callee-saves, in the layout gen_clobber_save wrote
    // them: descending from just below the frame record.
    let ghost start = sink@;
    let ghost rs = frame.clobbered_callee_saves@;
    let mut i: usize = 0;
    let mut cur_offset: u32 = 0;
    while i < frame.clobbered_callee_saves.len()
        invariant
            i <= rs.len(),
            rs == frame.clobbered_callee_saves@,
            return_call_ok(*frame, new_stack_arg_size),
            start.room(return_call_room(*frame), 0),
            sp_to_fp_offset == frame.spec_sp_to_fp(),
            cur_offset == abi::clobber_end(rs, i as nat),
            sink@ == restore_clobbers(start, *frame, i as nat, isa_3_0),
            sink@.size <= start.size + 28 * i,
        decreases rs.len() - i,
    {
        proof {
            abi::lemma_clobber_end_bounds(rs, (i + 1) as nat);
        }
        let r = frame.clobbered_callee_saves[i].to_reg();
        assert(rs[i as int].reg.wf());
        let ty = Inst::canonical_type_for_rc(r.class);
        assert(abi::clobber_end(rs, (i + 1) as nat) == abi::clobber_start(rs, i as int)
            + abi::clobber_bytes(r));
        cur_offset = aligned_offset(cur_offset, ty) + ty.bytes();
        let slot: i64 = sp_to_fp_offset - cur_offset as i64;
        emit_typed_load(sink, frame, r.to_reg(), AMode::SPOffset(slot), ty, isa_3_0);
        i = i + 1;
    }

    // Restore the return address into LR, and the frame pointer.
    if frame.setup_area_size > 0 {
        emit_mem_access(
            sink,
            frame,
            AMode::SPOffset(sp_to_fp_offset + 8),
            0,
            load_opcodes(LoadOP::Ld),
        );
        sink.put4(enc_mtlr(0));
        emit_mem_access(
            sink,
            frame,
            AMode::SPOffset(sp_to_fp_offset),
            31,
            load_opcodes(LoadOP::Ld),
        );
    }

    // If the prologue over-allocated the incoming-argument area relative to
    // what the callee expects, shrink back down to its size.
    let incoming_args_diff: i64 = (frame.tail_args_size - new_stack_arg_size) as i64;
    let sp_increment: i64 = sp_to_fp_offset + frame.setup_area_size as i64 + incoming_args_diff;
    if sp_increment > 0 {
        emit_load_addr(sink, frame, 1, AMode::SPOffset(sp_increment));
    }
}

/// Emit the frame teardown shared by both tail-call forms. It is emitted once
/// into a throwaway buffer to size an island request.
fn emit_return_call_common_sequence(
    sink: &mut MachBuffer,
    frame: &FrameLayout,
    new_stack_arg_size: u32,
    isa_3_0: bool,
)
    requires
        return_call_ok(*frame, new_stack_arg_size),
        return_call_room(*frame) + 4 <= u32::MAX,
        old(sink)@.room(return_call_room(*frame) + 4, 1),
    ensures
        final(sink)@ == return_call_sequence(old(sink)@, *frame, new_stack_arg_size, isa_3_0),
        final(sink)@.size <= old(sink)@.size + return_call_room(*frame) + 4,
{
    let mut buffer = MachBuffer::new();
    return_call_emit_impl(&mut buffer, frame, new_stack_arg_size, isa_3_0);
    let length: u32 = buffer.cur_offset();
    emit_island(sink, length);
    return_call_emit_impl(sink, frame, new_stack_arg_size, isa_3_0);
}

/// The log with a move between registers of one class; none for a register and
/// itself.
pub open spec fn mov(b: BufferView, rd: Reg, rm: Reg) -> BufferView {
    if rd == rm {
        b
    } else {
        match rm.class {
            RegClass::Int => b.word(mnem::ori(rd.num(), rm.num(), 0)),
            RegClass::Float => b.word(mnem::fmr(rd.num(), rm.num())),
            RegClass::Vector => b.word(mnem::xxlor(rd.vsr(), rm.vsr(), rm.vsr())),
        }
    }
}

fn emit_mov(sink: &mut MachBuffer, rd: Reg, rm: Reg)
    requires
        rd.is_real(),
        rm.is_real(),
        old(sink)@.size + 4 <= u32::MAX,
    ensures
        final(sink)@ == mov(old(sink)@, rd, rm),
{
    if rd == rm {
        return;
    }
    match rm.class() {
        // ori rd, rm, 0
        RegClass::Int => sink.put4(enc_d_logic(24, reg_num(rm), reg_num(rd), 0)),
        RegClass::Float => sink.put4(enc_fmr(reg_num(rd), reg_num(rm))),
        // xxlor rd, rm, rm
        RegClass::Vector => {
            let m: u32 = vsr_num(rm);
            sink.put4(enc_xx3(vsr_num(rd), m, m, 146));
        },
    }
}

/// Whether a register is a vector register.
pub open spec fn is_vr(r: Reg) -> bool {
    r.is_real() && r.class == RegClass::Vector
}

/// Whether a lane width is one that float lanes have.
pub open spec fn float_width(ty: Type) -> bool {
    ty.lane_bits() == 32 || ty.lane_bits() == 64
}

/// Whether a lane width is one that lanes have.
pub open spec fn lane_width(ty: Type) -> bool {
    ty.lane_bits() == 8 || ty.lane_bits() == 16 || float_width(ty)
}

/// Whether an instruction can be emitted: its registers are physical, what it
/// asks for has an encoding, and its addresses are known in the frame.
pub open spec fn encodable(inst: Inst, frame: FrameLayout) -> bool {
    match inst {
        Inst::LoadConst64 { rd, .. } => rd.reg.is_real(),
        Inst::AluRRR { rd, ra, rb, .. } => rd.reg.is_real() && ra.is_real() && rb.is_real(),
        Inst::AluRRImm16 { op, rd, ra, .. } => {
            &&& rd.reg.is_real()
            &&& ra.is_real()
            &&& op == AluImmOp::Addi ==> ra.num() != 0
        },
        Inst::UnaryRR { rd, rn, .. } => rd.reg.is_real() && rn.is_real(),
        Inst::ShiftRRImm { op, rd, ra, imm } => {
            &&& rd.reg.is_real()
            &&& ra.is_real()
            &&& emit_int::shift_imm_ok(op, imm as u32)
        },
        Inst::ShiftRRR { rd, ra, rb, .. } => rd.reg.is_real() && ra.is_real() && rb.is_real(),
        Inst::BitCount { rd, rn, .. } => rd.reg.is_real() && rn.is_real(),
        Inst::DivRem { rd, ra, rb, .. } => rd.reg.is_real() && ra.is_real() && rb.is_real(),
        Inst::Select { rd, kind, rt, rf } => {
            &&& rd.reg.is_real()
            &&& kind.real_regs()
            &&& rt.is_real() && rt.num() != 0
            &&& rf.is_real() && rf.num() != 0
        },
        Inst::FpuRRR { rd, ra, rb, .. } => rd.reg.is_real() && ra.is_real() && rb.is_real(),
        Inst::FpuRR { rd, rn, .. } => rd.reg.is_real() && rn.is_real(),
        Inst::FpuFma { rd, ra, rc, rb, .. } => {
            rd.reg.is_real() && ra.is_real() && rb.is_real() && rc.is_real()
        },
        Inst::FpuCmpSet { rd, kind } => rd.reg.is_real() && kind.real_regs(),
        Inst::FpuCondBr { taken, kind, .. } => taken is Label && kind.real_regs(),
        Inst::IntToFpu { rd, rn, .. } => rd.reg.is_real() && rn.is_real(),
        Inst::FpuSelect { rd, kind, rt, rf } => {
            rd.reg.is_real() && kind.real_regs() && rt.is_real() && rf.is_real()
        },
        Inst::BrTable { index, tmp1, tmp2, targets } => {
            &&& index.is_real()
            &&& tmp1.reg.is_real() && tmp1.reg.num() != 0
            &&& tmp2.reg.is_real() && tmp2.reg.num() != 0
            &&& targets@.len() >= 1
            &&& 4 * (12 + targets@.len()) + 24 <= u32::MAX
        },
        Inst::EmitIsland { needed_space } => needed_space <= u32::MAX - 4,
        Inst::FpuToInt { rd, tmp, rn, sat, out_ty, .. } => {
            &&& rd.reg.is_real()
            &&& tmp.reg.is_real()
            &&& rn.is_real()
            &&& !sat ==> out_ty.bits() == 8 || out_ty.bits() == 16 || out_ty.bits() == 32
                || out_ty.bits() == 64
        },
        Inst::FpuMinMax { rd, ra, rb, .. } => rd.reg.is_real() && ra.is_real() && rb.is_real(),
        Inst::FpuRound { rd, rn, .. } => rd.reg.is_real() && rn.is_real(),
        Inst::Bswap { rd, rn, ty } => {
            &&& rd.reg.is_real()
            &&& rn.is_real()
            &&& ty == Type::I16 || ty == Type::I32 || ty == Type::I64
        },
        Inst::MovToFpr { rd, rn } => rd.reg.is_real() && rn.is_real(),
        Inst::MovFromFpr { rd, rn } => rd.reg.is_real() && rn.is_real(),
        Inst::Extend { rd, rn, signed, from_bits, .. } => {
            &&& rd.reg.is_real()
            &&& rn.is_real()
            &&& emit_int::extend_ok(signed, from_bits)
        },
        Inst::Load { rd, from, .. } => rd.reg.is_real() && emit_mem::addressable(from, frame),
        Inst::Store { to, src, .. } => src.is_real() && emit_mem::addressable(to, frame),
        Inst::LoadAddr { rd, mem } => rd.reg.is_real() && emit_mem::addressable(mem, frame),
        Inst::Mov { rd, rm, .. } => {
            rd.reg.is_real() && rm.is_real() && rd.reg.class == rm.class
        },
        Inst::CmpSet { rd, kind } => rd.reg.is_real() && kind.real_regs(),
        Inst::CondBr { taken, kind, .. } => taken is Label && kind.real_regs(),
        Inst::TrapIf { kind, .. } => kind.real_regs(),
        Inst::Call { info } => call_ok(*info, frame) && !info.patchable,
        Inst::CallInd { info } => call_ok(*info, frame) && info.dest.is_real(),
        Inst::AtomicLoad { rd, addr, ty } => {
            rd.reg.is_real() && addr.is_real() && emit_atomic::is_atomic_type(ty)
        },
        Inst::AtomicStore { src, addr, ty } => {
            src.is_real() && addr.is_real() && emit_atomic::is_atomic_type(ty)
        },
        Inst::AtomicRmw { op, rd, addr, src, ty } => {
            &&& rd.reg.is_real()
            &&& addr.is_real()
            &&& src.is_real()
            &&& emit_atomic::is_atomic_type(ty)
            &&& emit_atomic::is_min_max(op) ==> rd.reg.num() != 0 && src.num() != 0
        },
        Inst::AtomicCas { rd, addr, expected, new, ty } => {
            &&& rd.reg.is_real()
            &&& addr.is_real()
            &&& expected.is_real()
            &&& new.is_real()
            &&& emit_atomic::is_atomic_type(ty)
        },
        Inst::AtomicLoad128 { rd_lo, rd_hi, addr } => {
            &&& pinned(rd_hi.reg, 8)
            &&& pinned(rd_lo.reg, 9)
            &&& pinned(addr, 3)
        },
        Inst::AtomicStore128 { rs_lo, rs_hi, tmp_lo, tmp_hi, addr } => {
            &&& pinned(addr, 3)
            &&& pinned(rs_hi, 4)
            &&& pinned(rs_lo, 5)
            &&& pinned(tmp_hi.reg, 8)
            &&& pinned(tmp_lo.reg, 9)
        },
        Inst::AtomicRmw128 { rd_lo, rd_hi, tmp_hi, addr, src_lo, src_hi, .. } => {
            &&& pinned(addr, 3)
            &&& pinned(src_hi, 4)
            &&& pinned(src_lo, 5)
            &&& pinned(rd_hi.reg, 8)
            &&& pinned(rd_lo.reg, 9)
            &&& pinned(tmp_hi.reg, 10)
        },
        Inst::AtomicCas128 { rd_lo, rd_hi, addr, exp_lo, exp_hi, new_lo, new_hi } => {
            &&& pinned(addr, 3)
            &&& pinned(exp_hi, 4)
            &&& pinned(exp_lo, 5)
            &&& pinned(new_hi, 6)
            &&& pinned(new_lo, 7)
            &&& pinned(rd_hi.reg, 8)
            &&& pinned(rd_lo.reg, 9)
        },
        Inst::VecLoad { rd, from, .. } => rd.reg.is_real() && emit_mem::addressable(from, frame),
        Inst::VecStore { to, rs, .. } => rs.is_real() && emit_mem::addressable(to, frame),
        Inst::VecLoad64 { rd, from, .. } => rd.reg.is_real() && emit_mem::addressable(from, frame),
        Inst::VecStore64 { to, rs, .. } => rs.is_real() && emit_mem::addressable(to, frame),
        Inst::VecAluRRR { op, rd, ra, rb, ty } => {
            &&& rd.reg.is_real()
            &&& ra.is_real()
            &&& rb.is_real()
            &&& !op.is_bitwise() ==> is_vr(rd.reg) && is_vr(ra) && is_vr(rb) && emit_vec::has_width(
                op,
                ty.lane_bits(),
            )
        },
        Inst::VecExtractLaneInt { rd, rn, ty, lane } => {
            &&& rd.reg.is_real()
            &&& is_vr(rn)
            &&& lane_width(ty)
            &&& ty.lane_bits() < 64 ==> lane * ty.lane_bits() < 128
        },
        Inst::VecExtractLaneFpu { rd, rn, ty, lane } => {
            &&& rd.reg.is_real()
            &&& rn.is_real()
            &&& float_width(ty)
            &&& ty.lane_bits() == 32 ==> lane < 4
        },
        Inst::VecInsertLane { rd, rv, rs, ty, .. } => {
            &&& rd.reg.is_real()
            &&& rv.is_real()
            &&& rs.is_real()
            &&& lane_width(ty)
            &&& ty.lane_is_float() ==> float_width(ty)
        },
        Inst::VecAluRRRR { rd, ra, rb, rc, .. } => {
            is_vr(rd.reg) && is_vr(ra) && is_vr(rb) && is_vr(rc)
        },
        Inst::VecCvt { rd, rn, .. } => rd.reg.is_real() && rn.is_real(),
        Inst::VecSpltImm { rd, ty, .. } => {
            &&& is_vr(rd.reg)
            &&& ty.lane_bits() == 8 || ty.lane_bits() == 16 || ty.lane_bits() == 32
        },
        Inst::VecUnary { op, rd, rn, ty } => {
            &&& is_vr(rd.reg)
            &&& is_vr(rn)
            &&& lane_width(ty)
            &&& op != VecUnaryOp::Popcnt ==> ty.lane_bits() != 64
        },
        Inst::VecRound { rd, rn, ty, .. } => {
            rd.reg.is_real() && rn.is_real() && float_width(ty)
        },
        Inst::VecSel { rd, if_set, if_clear, mask } => {
            rd.reg.is_real() && if_set.is_real() && if_clear.is_real() && mask.is_real()
        },
        Inst::VecTestLanes { rd, rn, ty, .. } => rd.reg.is_real() && is_vr(rn) && lane_width(ty),
        Inst::VecFpuRRR { rd, ra, rb, ty, .. } => {
            rd.reg.is_real() && ra.is_real() && rb.is_real() && float_width(ty)
        },
        Inst::VecFpuRR { rd, rn, ty, .. } => rd.reg.is_real() && rn.is_real() && float_width(ty),
        Inst::VecZero { rd } => rd.reg.is_real(),
        Inst::MovToVec { rd, rn } => rd.reg.is_real() && rn.is_real(),
        Inst::VecSplatLane { rd, rn, ty } => {
            &&& rd.reg.is_real()
            &&& rn.is_real()
            &&& lane_width(ty)
            &&& ty.lane_bits() != 64 ==> is_vr(rd.reg) && is_vr(rn)
        },
        Inst::VecSplatFpr { rd, rn, .. } => rd.reg.is_real() && rn.is_real(),
        Inst::VecPermDi { rd, ra, rb, dm } => {
            rd.reg.is_real() && ra.is_real() && rb.is_real() && dm < 4
        },
        Inst::ReturnCall { info } => {
            &&& return_call_ok(frame, info.new_stack_arg_size)
            &&& return_call_room(frame) + 4 <= u32::MAX
        },
        Inst::ReturnCallInd { info } => {
            &&& return_call_ok(frame, info.new_stack_arg_size)
            &&& return_call_room(frame) + 4 <= u32::MAX
            &&& info.dest.is_real()
        },
        Inst::LoadExtName { rd, .. } => rd.reg.is_real(),
        Inst::MovFromPReg { rd, rm } => rd.reg.is_real() && (rm == 1 || rm == 31),
        Inst::LabelAddress { rd, .. } => rd.reg.is_real(),
        Inst::Mflr { rd } => rd.reg.is_real(),
        Inst::Mtlr { rs } => rs.is_real(),
        _ => true,
    }
}

/// Whether an operand is in the register that an instruction needs it in.
pub open spec fn pinned(r: Reg, n: u32) -> bool {
    r.is_real() && r.num() == n
}

/// Whether an instruction asks for islands itself, and so may exceed the
/// worst-case size.
pub open spec fn emits_own_island(inst: Inst) -> bool {
    match inst {
        Inst::Call { .. }
        | Inst::CallInd { .. }
        | Inst::EmitIsland { .. }
        | Inst::BrTable { .. }
        | Inst::ReturnCall { .. }
        | Inst::ReturnCallInd { .. } => true,
        _ => false,
    }
}

/// The bytes that an instruction of control flow takes at most.
pub open spec fn flow_size(inst: Inst) -> nat {
    match inst {
        Inst::BrTable { targets, .. } => 4 * (12 + targets@.len()) + 24,
        _ => 96,
    }
}

/// The bytes that an instruction takes at most.
pub open spec fn max_size(inst: Inst, frame: FrameLayout) -> nat {
    match inst {
        Inst::Call { info } => call_room(*info),
        Inst::CallInd { info } => call_room(*info),
        Inst::ReturnCall { .. } | Inst::ReturnCallInd { .. } => return_call_room(frame) + 12,
        _ => flow_size(inst),
    }
}

/// The labels that an instruction takes at most.
pub open spec fn max_labels(inst: Inst) -> nat {
    match inst {
        Inst::Call { info } => info.retval_moves@.len(),
        Inst::CallInd { info } => info.retval_moves@.len(),
        _ => 4,
    }
}

/// The kinds of instructions, by how they are emitted.
#[derive(Clone, Copy, Debug, PartialEq, Eq, Structural)]
pub enum Group {
    /// Fixed-point arithmetic, moves and special registers.
    Int,
    /// Control flow and what has no code of its own.
    Flow,
    /// Scalar floating point.
    Float,
    /// Loads, stores and addresses.
    Memory,
    /// Calls.
    Call,
    /// Atomic accesses.
    Atomic,
    /// Vectors lane by lane.
    Lane,
    /// Whole vectors.
    Vector,
}

/// The kind of an instruction.
pub open spec fn group(inst: Inst) -> Group {
    match inst {
        Inst::Nop4
        | Inst::LoadConst64 { .. }
        | Inst::AluRRR { .. }
        | Inst::AluRRImm16 { .. }
        | Inst::UnaryRR { .. }
        | Inst::ShiftRRImm { .. }
        | Inst::ShiftRRR { .. }
        | Inst::BitCount { .. }
        | Inst::DivRem { .. }
        | Inst::Select { .. }
        | Inst::Extend { .. }
        | Inst::Mov { .. }
        | Inst::CmpSet { .. }
        | Inst::MovFromPReg { .. }
        | Inst::Mflr { .. }
        | Inst::Mtlr { .. }
        | Inst::Nop0 => Group::Int,
        Inst::FpuCondBr { .. }
        | Inst::BrTable { .. }
        | Inst::EmitIsland { .. }
        | Inst::Ret
        | Inst::Jump { .. }
        | Inst::CondBr { .. }
        | Inst::Udf { .. }
        | Inst::TrapIf { .. }
        | Inst::Fence
        | Inst::LoadExtName { .. }
        | Inst::LabelAddress { .. }
        | Inst::Unwind { .. }
        | Inst::Args { .. }
        | Inst::Rets { .. }
        | Inst::DummyUse { .. } => Group::Flow,
        Inst::FpuRRR { .. }
        | Inst::FpuRR { .. }
        | Inst::FpuFma { .. }
        | Inst::FpuCmpSet { .. }
        | Inst::IntToFpu { .. }
        | Inst::FpuSelect { .. }
        | Inst::FpuToInt { .. }
        | Inst::FpuMinMax { .. }
        | Inst::FpuRound { .. }
        | Inst::Bswap { .. }
        | Inst::MovToFpr { .. }
        | Inst::MovFromFpr { .. } => Group::Float,
        Inst::Load { .. }
        | Inst::Store { .. }
        | Inst::LoadAddr { .. }
        | Inst::VecLoad { .. }
        | Inst::VecStore { .. }
        | Inst::VecLoad64 { .. }
        | Inst::VecStore64 { .. } => Group::Memory,
        Inst::Call { .. }
        | Inst::CallInd { .. }
        | Inst::ReturnCall { .. }
        | Inst::ReturnCallInd { .. } => Group::Call,
        Inst::AtomicLoad { .. }
        | Inst::AtomicStore { .. }
        | Inst::AtomicRmw { .. }
        | Inst::AtomicCas { .. }
        | Inst::AtomicLoad128 { .. }
        | Inst::AtomicStore128 { .. }
        | Inst::AtomicRmw128 { .. }
        | Inst::AtomicCas128 { .. } => Group::Atomic,
        Inst::VecAluRRR { .. }
        | Inst::VecExtractLaneInt { .. }
        | Inst::VecExtractLaneFpu { .. }
        | Inst::VecInsertLane { .. }
        | Inst::VecTestLanes { .. } => Group::Lane,
        _ => Group::Vector,
    }
}

/// The log with an instruction of fixed-point arithmetic, moves and special registers.
#[verifier::opaque]
pub open spec fn emitted_int(inst: Inst, b: BufferView, isa_3_0: bool) -> BufferView {
    match inst {
        Inst::Nop4 => b.word(NOP_INSTRUCTION),
        Inst::LoadConst64 { rd, imm } => b.words(emit_int::load_constant(rd.reg.num(), imm)),
        Inst::AluRRR { op, rd, ra, rb } => b.word(
            emit_int::alu_rrr(op, rd.reg.num(), ra.num(), rb.num()),
        ),
        Inst::AluRRImm16 { op, rd, ra, imm } => b.word(
            emit_int::alu_rr_imm16(op, rd.reg.num(), ra.num(), imm),
        ),
        Inst::UnaryRR { op, rd, rn } => b.word(emit_int::unary_rr(op, rd.reg.num(), rn.num())),
        Inst::ShiftRRImm { op, rd, ra, imm } => b.word(
            emit_int::shift_rr_imm(op, rd.reg.num(), ra.num(), imm as u32),
        ),
        Inst::ShiftRRR { op, rd, ra, rb } => b.word(
            emit_int::shift_rrr(op, rd.reg.num(), ra.num(), rb.num()),
        ),
        Inst::BitCount { op, rd, rn, ty } => emit_int::bit_count(
            b,
            op,
            rd.reg.num(),
            rn.num(),
            ty == Type::I64,
            isa_3_0,
        ),
        Inst::DivRem { op, rd, ra, rb, ty } => emit_int::divrem(
            b,
            op,
            rd.reg.num(),
            ra.num(),
            rb.num(),
            ty == Type::I64,
            isa_3_0,
        ),
        Inst::Select { rd, kind, rt, rf } => emit_int::select(
            b,
            rd.reg.num(),
            kind,
            rt.num(),
            rf.num(),
        ),
        Inst::Extend { rd, rn, signed, from_bits, .. } => b.word(
            emit_int::extend(signed, rd.reg.num(), rn.num(), from_bits),
        ),
        Inst::Mov { rd, rm, .. } => mov(b, rd.reg, rm),
        Inst::CmpSet { rd, kind } => emit_int::bit_to_reg(
            b.word(kind.compare_word()),
            rd.reg.num(),
            kind.spec_bit_and_polarity().0,
            kind.spec_bit_and_polarity().1,
        ),
        Inst::MovFromPReg { rd, rm } => b.word(mnem::ori(rd.reg.num(), rm as u32, 0)),
        Inst::Mflr { rd } => b.word(mnem::mflr(rd.reg.num())),
        Inst::Mtlr { rs } => b.word(mnem::mtlr(rs.num())),
        Inst::Nop0 => b,
        _ => b,
    }
}

/// The log with an instruction of control flow and what has no code of its own.
#[verifier::opaque]
pub open spec fn emitted_flow(inst: Inst, b: BufferView) -> BufferView {
    match inst {
        Inst::FpuCondBr { taken, not_taken, kind } => match taken {
            CondBrTarget::Label(label) => emit_int::fpu_cond_br(b, label, not_taken, kind),
            CondBrTarget::Fallthrough => b,
        },
        Inst::BrTable { index, tmp1, tmp2, targets } => emit_mem::br_table(
            b,
            index.num(),
            tmp1.reg.num(),
            tmp2.reg.num(),
            targets@,
        ),
        Inst::EmitIsland { needed_space } => emit_int::island(b, needed_space),
        Inst::Ret => b.word(mnem::blr()),
        Inst::Jump { label } => emit_int::jump(b, label),
        Inst::CondBr { taken, not_taken, kind } => match taken {
            CondBrTarget::Label(label) => emit_int::cond_br(b, label, not_taken, kind),
            CondBrTarget::Fallthrough => b,
        },
        Inst::Udf { trap_code } => emit_int::udf(b, trap_code),
        Inst::TrapIf { kind, trap_code } => emit_int::trap_if(b, kind, trap_code),
        Inst::Fence => b.word(SYNC),
        Inst::LoadExtName { rd, name, offset } => emit_mem::load_ext_name(
            b,
            rd.reg.num(),
            name,
            offset,
        ),
        Inst::LabelAddress { rd, label } => emit_mem::label_address(b, rd.reg.num(), label),
        Inst::Unwind { inst } => b.note(Emission::Unwind { inst }),
        Inst::Args { .. } | Inst::Rets { .. } | Inst::DummyUse { .. } => b,
        _ => b,
    }
}

/// The log with an instruction of scalar floating point.
#[verifier::opaque]
pub open spec fn emitted_float(inst: Inst, b: BufferView) -> BufferView {
    match inst {
        Inst::FpuRRR { op, rd, ra, rb, ty } => b.word(
            emit_fp::fpu_rrr(op, ty == Type::F32, rd.reg.num(), ra.num(), rb.num()),
        ),
        Inst::FpuRR { op, rd, rn, ty } => b.word(
            emit_fp::fpu_rr(op, ty == Type::F32, rd.reg.num(), rn.num()),
        ),
        Inst::FpuFma { rd, ra, rc, rb, ty } => b.word(
            emit_fp::fpu_fma(ty == Type::F32, rd.reg.num(), ra.num(), rc.num(), rb.num()),
        ),
        Inst::FpuCmpSet { rd, kind } => emit_int::bit_to_reg(
            kind.compared(b),
            rd.reg.num(),
            kind.spec_cr_plan().1,
            kind.spec_cr_plan().2,
        ),
        Inst::IntToFpu { rd, rn, signed, ty } => b.word(
            emit_fp::int_to_fpu(ty == Type::F32, signed, rd.reg.num(), rn.num()),
        ),
        Inst::FpuSelect { rd, kind, rt, rf } => emit_fp::fpu_select(
            b,
            rd.reg.num(),
            kind,
            rt.num(),
            rf.num(),
        ),
        Inst::FpuToInt { rd, tmp, rn, signed, sat, in_ty, out_ty } => if sat {
            emit_fp::fpu_to_int_sat(
                b,
                rd.reg.num(),
                tmp.reg.num(),
                rn.num(),
                signed,
                out_ty == Type::I64,
            )
        } else {
            emit_fp::fpu_to_int_trap(
                b,
                rd.reg.num(),
                tmp.reg.num(),
                rn.num(),
                signed,
                in_ty == Type::F32,
                out_ty.bits(),
            )
        },
        Inst::FpuMinMax { rd, ra, rb, is_max } => emit_fp::fpu_min_max(
            b,
            rd.reg.num(),
            ra.num(),
            rb.num(),
            is_max,
        ),
        Inst::FpuRound { rd, rn, mode } => b.word(
            emit_fp::fpu_round(mode, rd.reg.num(), rn.num()),
        ),
        Inst::Bswap { rd, rn, ty } => emit_fp::bswap(b, rd.reg.num(), rn.num(), ty),
        Inst::MovToFpr { rd, rn } => b.word(mnem::mtvsrd_f(rd.reg.num(), rn.num())),
        Inst::MovFromFpr { rd, rn } => b.word(mnem::mfvsrd_f(rd.reg.num(), rn.num())),
        _ => b,
    }
}

/// The log with an instruction of loads, stores and addresses.
#[verifier::opaque]
pub open spec fn emitted_memory(
    inst: Inst,
    b: BufferView,
    isa_3_0: bool,
    frame: FrameLayout,
) -> BufferView {
    match inst {
        Inst::Load { rd, op, flags, from } => emit_mem::mem_access(
            emit_mem::flagged(b, flags),
            rd.reg.num(),
            from.base().num(),
            from.offset(frame),
            emit_mem::load_access(op),
        ),
        Inst::Store { to, op, flags, src } => emit_mem::mem_access(
            emit_mem::flagged(b, flags),
            src.num(),
            to.base().num(),
            to.offset(frame),
            emit_mem::store_access(op),
        ),
        Inst::LoadAddr { rd, mem } => emit_mem::load_addr(
            b,
            rd.reg.num(),
            mem.base().num(),
            mem.offset(frame),
        ),
        Inst::VecLoad { rd, from, flags } => emit_mem::vec_load(
            emit_mem::flagged(b, flags),
            rd.reg.vsr(),
            from.base().num(),
            from.offset(frame),
            isa_3_0,
        ),
        Inst::VecStore { to, rs, flags } => emit_mem::vec_store(
            emit_mem::flagged(b, flags),
            rs.vsr(),
            to.base().num(),
            to.offset(frame),
            isa_3_0,
        ),
        Inst::VecLoad64 { rd, from, flags } => emit_mem::vec_load64(
            emit_mem::flagged(b, flags),
            rd.reg.vsr(),
            from.base().num(),
            from.offset(frame),
        ),
        Inst::VecStore64 { to, rs, flags } => emit_mem::vec_store64(
            emit_mem::flagged(b, flags),
            rs.vsr(),
            to.base().num(),
            to.offset(frame),
        ),
        _ => b,
    }
}

/// The log with an instruction of calls.
#[verifier::opaque]
pub open spec fn emitted_call(
    inst: Inst,
    b: BufferView,
    isa_3_0: bool,
    frame: FrameLayout,
    map: Option<UserStackMap>,
) -> BufferView {
    match inst {
        Inst::Call { info } => after_call(
            b.reloc(Reloc::Ppc64Call, info.dest, 0).word(mnem::bl(0)),
            *info,
            frame,
            map,
            isa_3_0,
        ),
        Inst::CallInd { info } => after_call(
            b.word(mnem::mtctr(info.dest.num())).word(mnem::bctr(true)),
            *info,
            frame,
            map,
            isa_3_0,
        ),
        Inst::ReturnCall { info } => return_call_sequence(
            b,
            frame,
            info.new_stack_arg_size,
            isa_3_0,
        ).note(Emission::CallSite).reloc(Reloc::Ppc64Call, info.dest, 0).word(mnem::b(0)),
        Inst::ReturnCallInd { info } => return_call_sequence(
            b,
            frame,
            info.new_stack_arg_size,
            isa_3_0,
        ).word(mnem::mtctr(info.dest.num())).word(mnem::bctr(false)),
        _ => b,
    }
}

/// The log with an instruction of atomic accesses.
#[verifier::opaque]
pub open spec fn emitted_atomic(inst: Inst, b: BufferView) -> BufferView {
    match inst {
        Inst::AtomicLoad { rd, addr, ty } => emit_atomic::atomic_load(
            b,
            rd.reg.num(),
            addr.num(),
            ty,
        ),
        Inst::AtomicStore { src, addr, ty } => emit_atomic::atomic_store(
            b,
            src.num(),
            addr.num(),
            ty,
        ),
        Inst::AtomicRmw { op, rd, addr, src, ty } => emit_atomic::atomic_rmw(
            b,
            op,
            rd.reg.num(),
            addr.num(),
            src.num(),
            ty,
        ),
        Inst::AtomicCas { rd, addr, expected, new, ty } => emit_atomic::atomic_cas(
            b,
            rd.reg.num(),
            addr.num(),
            expected.num(),
            new.num(),
            ty,
        ),
        Inst::AtomicLoad128 { .. } => emit_atomic::atomic_load128(b),
        Inst::AtomicStore128 { .. } => emit_atomic::atomic_store128(b),
        Inst::AtomicRmw128 { op, .. } => emit_atomic::atomic_rmw128(b, op),
        Inst::AtomicCas128 { .. } => emit_atomic::atomic_cas128(b),
        _ => b,
    }
}

/// The log with an instruction of vectors lane by lane.
#[verifier::opaque]
pub open spec fn emitted_lane(inst: Inst, b: BufferView, isa_3_0: bool) -> BufferView {
    match inst {
        Inst::VecAluRRR { op, rd, ra, rb, ty } => b.word(
            emit_vec::vec_alu_rrr(op, rd.reg.vsr(), ra.vsr(), rb.vsr(), ty.lane_bits()),
        ),
        Inst::VecExtractLaneInt { rd, rn, ty, lane } => emit_vec::vec_extract_lane_int(
            b,
            rd.reg.num(),
            rn.vsr(),
            ty.lane_bits(),
            lane as u32,
        ),
        Inst::VecExtractLaneFpu { rd, rn, ty, lane } => emit_vec::vec_extract_lane_fpu(
            b,
            rd.reg.vsr(),
            rn.vsr(),
            ty.lane_bits(),
            lane as u32,
        ),
        Inst::VecInsertLane { rd, rv, rs, ty, lane } => emit_vec::vec_insert_lane(
            b,
            rd.reg.vsr(),
            rv.vsr(),
            rs.num(),
            ty.lane_is_float(),
            ty.lane_bits(),
            lane,
            isa_3_0,
        ),
        Inst::VecTestLanes { rd, rn, ty, all } => emit_vec::vec_test_lanes(
            b,
            rd.reg.num(),
            rn.vsr(),
            ty.lane_bits(),
            all,
        ),
        _ => b,
    }
}

/// The log with an instruction of whole vectors.
#[verifier::opaque]
pub open spec fn emitted_vector(inst: Inst, b: BufferView) -> BufferView {
    match inst {
        Inst::VecAluRRRR { op, rd, ra, rb, rc } => b.word(
            emit_vec::vec_alu_rrrr(op, rd.reg.vsr(), ra.vsr(), rb.vsr(), rc.vsr()),
        ),
        Inst::VecCvt { op, rd, rn } => b.word(
            mnem::xx2(rd.reg.vsr(), rn.vsr(), emit_vec::vec_cvt_xo(op)),
        ),
        Inst::VecSpltImm { rd, imm, ty } => b.word(
            emit_vec::vec_splt_imm(rd.reg.vsr(), imm, ty.lane_bits()),
        ),
        Inst::VecUnary { op, rd, rn, ty } => b.word(
            mnem::vx(
                (rd.reg.vsr() - 32) as u32,
                0,
                (rn.vsr() - 32) as u32,
                emit_vec::vec_unary_xo(op, ty.lane_bits()),
            ),
        ),
        Inst::VecRound { rd, rn, mode, ty } => b.word(
            mnem::xx2(rd.reg.vsr(), rn.vsr(), emit_vec::vec_round_xo(mode, ty.lane_bits() == 32)),
        ),
        Inst::VecSel { rd, if_set, if_clear, mask } => b.word(
            mnem::xxsel(rd.reg.vsr(), if_clear.vsr(), if_set.vsr(), mask.vsr()),
        ),
        Inst::VecFpuRRR { op, rd, ra, rb, ty } => b.word(
            mnem::xx3(
                rd.reg.vsr(),
                ra.vsr(),
                rb.vsr(),
                emit_vec::vec_fpu_rrr_xo(op, ty.lane_bits() == 32),
            ),
        ),
        Inst::VecFpuRR { op, rd, rn, ty } => b.word(
            mnem::xx2(rd.reg.vsr(), rn.vsr(), emit_vec::vec_fpu_rr_xo(op, ty.lane_bits() == 32)),
        ),
        Inst::VecZero { rd } => b.word(mnem::xxlxor(rd.reg.vsr(), rd.reg.vsr(), rd.reg.vsr())),
        Inst::MovToVec { rd, rn } => b.word(mnem::mtvsrd(rd.reg.vsr(), rn.num())),
        Inst::VecSplatLane { rd, rn, ty } => b.word(
            emit_vec::vec_splat_lane(rd.reg.vsr(), rn.vsr(), ty.lane_bits()),
        ),
        Inst::VecSplatFpr { rd, rn, is_f32 } => b.word(
            emit_vec::vec_splat_fpr(rd.reg.vsr(), rn.vsr(), is_f32),
        ),
        Inst::VecPermDi { rd, ra, rb, dm } => b.word(
            mnem::xxpermdi(rd.reg.vsr(), ra.vsr(), rb.vsr(), dm as u32),
        ),
        _ => b,
    }
}

/// The log with an instruction emitted.
pub open spec fn emitted(
    inst: Inst,
    b: BufferView,
    info: EmitInfo,
    state: EmitState,
) -> BufferView {
    let isa_3_0 = info.isa_flags.has_isa_3_0;
    let frame = state.frame_layout;
    match group(inst) {
        Group::Int => emitted_int(inst, b, isa_3_0),
        Group::Flow => emitted_flow(inst, b),
        Group::Float => emitted_float(inst, b),
        Group::Memory => emitted_memory(inst, b, isa_3_0, frame),
        Group::Call => emitted_call(inst, b, isa_3_0, frame, state.user_stack_map),
        Group::Atomic => emitted_atomic(inst, b),
        Group::Lane => emitted_lane(inst, b, isa_3_0),
        Group::Vector => emitted_vector(inst, b),
    }
}

impl Inst {
    /// The kind of the instruction.
    pub fn group(&self) -> (g: Group)
        ensures
            g == group(*self),
    {
        match self {
            Inst::Nop4
            | Inst::LoadConst64 { .. }
            | Inst::AluRRR { .. }
            | Inst::AluRRImm16 { .. }
            | Inst::UnaryRR { .. }
            | Inst::ShiftRRImm { .. }
            | Inst::ShiftRRR { .. }
            | Inst::BitCount { .. }
            | Inst::DivRem { .. }
            | Inst::Select { .. }
            | Inst::Extend { .. }
            | Inst::Mov { .. }
            | Inst::CmpSet { .. }
            | Inst::MovFromPReg { .. }
            | Inst::Mflr { .. }
            | Inst::Mtlr { .. }
            | Inst::Nop0 => Group::Int,
            Inst::FpuCondBr { .. }
            | Inst::BrTable { .. }
            | Inst::EmitIsland { .. }
            | Inst::Ret
            | Inst::Jump { .. }
            | Inst::CondBr { .. }
            | Inst::Udf { .. }
            | Inst::TrapIf { .. }
            | Inst::Fence
            | Inst::LoadExtName { .. }
            | Inst::LabelAddress { .. }
            | Inst::Unwind { .. }
            | Inst::Args { .. }
            | Inst::Rets { .. }
            | Inst::DummyUse { .. } => Group::Flow,
            Inst::FpuRRR { .. }
            | Inst::FpuRR { .. }
            | Inst::FpuFma { .. }
            | Inst::FpuCmpSet { .. }
            | Inst::IntToFpu { .. }
            | Inst::FpuSelect { .. }
            | Inst::FpuToInt { .. }
            | Inst::FpuMinMax { .. }
            | Inst::FpuRound { .. }
            | Inst::Bswap { .. }
            | Inst::MovToFpr { .. }
            | Inst::MovFromFpr { .. } => Group::Float,
            Inst::Load { .. }
            | Inst::Store { .. }
            | Inst::LoadAddr { .. }
            | Inst::VecLoad { .. }
            | Inst::VecStore { .. }
            | Inst::VecLoad64 { .. }
            | Inst::VecStore64 { .. } => Group::Memory,
            Inst::Call { .. }
            | Inst::CallInd { .. }
            | Inst::ReturnCall { .. }
            | Inst::ReturnCallInd { .. } => Group::Call,
            Inst::AtomicLoad { .. }
            | Inst::AtomicStore { .. }
            | Inst::AtomicRmw { .. }
            | Inst::AtomicCas { .. }
            | Inst::AtomicLoad128 { .. }
            | Inst::AtomicStore128 { .. }
            | Inst::AtomicRmw128 { .. }
            | Inst::AtomicCas128 { .. } => Group::Atomic,
            Inst::VecAluRRR { .. }
            | Inst::VecExtractLaneInt { .. }
            | Inst::VecExtractLaneFpu { .. }
            | Inst::VecInsertLane { .. }
            | Inst::VecTestLanes { .. } => Group::Lane,
            _ => Group::Vector,
        }
    }

    /// Emit the instruction: what it stands for goes to the end of the buffer.
    /// A call takes the stack map that was provided for it. Save for those that
    /// ask for islands themselves, no instruction exceeds the worst-case size.
    pub fn emit(&self, sink: &mut MachBuffer, emit_info: &EmitInfo, state: &mut EmitState)
        requires
            encodable(*self, old(state).frame_layout),
            old(sink)@.room(max_size(*self, old(state).frame_layout), max_labels(*self)),
        ensures
            final(sink)@ == emitted(*self, old(sink)@, *emit_info, *old(state)),
            final(state).frame_layout == old(state).frame_layout,
            self.is_regular_call() ==> final(state).user_stack_map is None,
            !self.is_regular_call() ==> final(state).user_stack_map == old(state).user_stack_map,
            !emits_own_island(*self) ==> final(sink)@.size <= old(sink)@.size + 96,
    {
        let isa_3_0: bool = emit_info.isa_flags.has_isa_3_0;
        match self.group() {
            Group::Int => self.emit_int_group(sink, isa_3_0),
            Group::Flow => self.emit_flow_group(sink),
            Group::Float => self.emit_float_group(sink),
            Group::Memory => self.emit_memory_group(sink, isa_3_0, state.frame_layout()),
            Group::Call => self.emit_call_group(sink, isa_3_0, state),
            Group::Atomic => self.emit_atomic_group(sink),
            Group::Lane => self.emit_lane_group(sink, isa_3_0),
            Group::Vector => self.emit_vector_group(sink),
        }
    }

    /// Emit an instruction of fixed-point arithmetic, moves and special registers.
    fn emit_int_group(&self, sink: &mut MachBuffer, isa_3_0: bool)
        requires
            group(*self) == Group::Int,
            exists|frame: FrameLayout| encodable(*self, frame),
            old(sink)@.room(96, 4),
        ensures
            final(sink)@ == emitted_int(*self, old(sink)@, isa_3_0),
            !emits_own_island(*self) ==> final(sink)@.size <= old(sink)@.size + 96,
    {
        proof {
            reveal(emitted_int);
        }
        match self {
            Inst::Nop4 => sink.put4(NOP_INSTRUCTION),
            Inst::LoadConst64 { rd, imm } => emit_constant(sink, reg_num(rd.to_reg()), *imm),
            Inst::AluRRR { op, rd, ra, rb } => {
                sink.put4(enc_alu_rrr(*op, reg_num(rd.to_reg()), reg_num(*ra), reg_num(*rb)));
            },
            Inst::AluRRImm16 { op, rd, ra, imm } => {
                sink.put4(enc_alu_rr_imm16(*op, reg_num(rd.to_reg()), reg_num(*ra), *imm));
            },
            Inst::UnaryRR { op, rd, rn } => {
                sink.put4(enc_unary_rr(*op, reg_num(rd.to_reg()), reg_num(*rn)));
            },
            Inst::ShiftRRImm { op, rd, ra, imm } => {
                sink.put4(enc_shift_rr_imm(*op, reg_num(rd.to_reg()), reg_num(*ra), *imm));
            },
            Inst::ShiftRRR { op, rd, ra, rb } => {
                sink.put4(enc_shift_rrr(*op, reg_num(rd.to_reg()), reg_num(*ra), reg_num(*rb)));
            },
            Inst::BitCount { op, rd, rn, ty } => {
                emit_bit_count(
                    sink,
                    *op,
                    reg_num(rd.to_reg()),
                    reg_num(*rn),
                    *ty == Type::I64,
                    isa_3_0,
                );
            },
            Inst::DivRem { op, rd, ra, rb, ty } => {
                emit_divrem(
                    sink,
                    isa_3_0,
                    *op,
                    reg_num(rd.to_reg()),
                    reg_num(*ra),
                    reg_num(*rb),
                    *ty == Type::I64,
                );
            },
            Inst::Select { rd, kind, rt, rf } => {
                emit_select(sink, reg_num(rd.to_reg()), *kind, reg_num(*rt), reg_num(*rf));
            },
            Inst::Extend { rd, rn, signed, from_bits, .. } => {
                sink.put4(enc_extend(*signed, reg_num(rd.to_reg()), reg_num(*rn), *from_bits));
            },
            Inst::Mov { rd, rm, .. } => emit_mov(sink, rd.to_reg(), *rm),
            Inst::CmpSet { rd, kind } => {
                // The compare reads its inputs before rd is written, so rd may
                // be one of them.
                kind.emit_cmp(sink);
                let (bit, polarity) = kind.bit_and_polarity();
                emit_bit_to_reg(sink, reg_num(rd.to_reg()), bit, polarity);
            },
            Inst::MovFromPReg { rd, rm } => {
                let sp_or_fp: u32 = if *rm == 1 {
                    1
                } else {
                    31
                };
                sink.put4(enc_d_logic(24, sp_or_fp, reg_num(rd.to_reg()), 0));
            },
            Inst::Mflr { rd } => sink.put4(enc_mflr(reg_num(rd.to_reg()))),
            Inst::Mtlr { rs } => sink.put4(enc_mtlr(reg_num(*rs))),
            Inst::Nop0 => {},
            _ => {},
        }
    }

    /// Emit an instruction of control flow and what has no code of its own.
    fn emit_flow_group(&self, sink: &mut MachBuffer)
        requires
            group(*self) == Group::Flow,
            exists|frame: FrameLayout| encodable(*self, frame),
            old(sink)@.room(flow_size(*self), 4),
        ensures
            final(sink)@ == emitted_flow(*self, old(sink)@),
            !emits_own_island(*self) ==> final(sink)@.size <= old(sink)@.size + 96,
    {
        proof {
            reveal(emitted_flow);
        }
        match self {
            Inst::FpuCondBr { taken, not_taken, kind } => {
                if let CondBrTarget::Label(label) = taken {
                    emit_fpu_cond_br(sink, *label, *not_taken, *kind);
                }
            },
            Inst::BrTable { index, tmp1, tmp2, targets } => {
                emit_br_table(
                    sink,
                    reg_num(*index),
                    reg_num(tmp1.to_reg()),
                    reg_num(tmp2.to_reg()),
                    targets,
                );
            },
            Inst::EmitIsland { needed_space } => emit_island(sink, *needed_space),
            Inst::Ret => sink.put4(enc_blr()),
            Inst::Jump { label } => emit_jump(sink, *label),
            Inst::CondBr { taken, not_taken, kind } => {
                if let CondBrTarget::Label(label) = taken {
                    emit_cond_br(sink, *label, *not_taken, *kind);
                }
            },
            Inst::Udf { trap_code } => emit_udf(sink, *trap_code),
            Inst::TrapIf { kind, trap_code } => emit_trap_if(sink, *kind, *trap_code),
            Inst::Fence => sink.put4(SYNC),
            Inst::LoadExtName { rd, name, offset } => {
                emit_load_ext_name(sink, reg_num(rd.to_reg()), *name, *offset);
            },
            Inst::LabelAddress { rd, label } => {
                emit_label_address(sink, reg_num(rd.to_reg()), *label);
            },
            Inst::Unwind { inst } => sink.add_unwind(*inst),
            Inst::Args { .. } | Inst::Rets { .. } | Inst::DummyUse { .. } => {},
            _ => {},
        }
    }

    /// Emit an instruction of scalar floating point.
    fn emit_float_group(&self, sink: &mut MachBuffer)
        requires
            group(*self) == Group::Float,
            exists|frame: FrameLayout| encodable(*self, frame),
            old(sink)@.room(96, 4),
        ensures
            final(sink)@ == emitted_float(*self, old(sink)@),
            !emits_own_island(*self) ==> final(sink)@.size <= old(sink)@.size + 96,
    {
        proof {
            reveal(emitted_float);
        }
        match self {
            Inst::FpuRRR { op, rd, ra, rb, ty } => {
                let single: bool = *ty == Type::F32;
                sink.put4(
                    enc_fpu_rrr(*op, single, reg_num(rd.to_reg()), reg_num(*ra), reg_num(*rb)),
                );
            },
            Inst::FpuRR { op, rd, rn, ty } => {
                let single: bool = *ty == Type::F32;
                sink.put4(enc_fpu_rr(*op, single, reg_num(rd.to_reg()), reg_num(*rn)));
            },
            Inst::FpuFma { rd, ra, rc, rb, ty } => {
                let single: bool = *ty == Type::F32;
                sink.put4(
                    enc_fpu_fma(
                        single,
                        reg_num(rd.to_reg()),
                        reg_num(*ra),
                        reg_num(*rc),
                        reg_num(*rb),
                    ),
                );
            },
            Inst::FpuCmpSet { rd, kind } => {
                let (bit, polarity) = kind.emit_cmp(sink);
                emit_bit_to_reg(sink, reg_num(rd.to_reg()), bit, polarity);
            },
            Inst::IntToFpu { rd, rn, signed, ty } => {
                let single: bool = *ty == Type::F32;
                sink.put4(enc_int_to_fpu(single, *signed, reg_num(rd.to_reg()), reg_num(*rn)));
            },
            Inst::FpuSelect { rd, kind, rt, rf } => {
                emit_fpu_select(sink, reg_num(rd.to_reg()), *kind, reg_num(*rt), reg_num(*rf));
            },
            Inst::FpuToInt { rd, tmp, rn, signed, sat, in_ty, out_ty } => {
                let rd: u32 = reg_num(rd.to_reg());
                let tmp: u32 = reg_num(tmp.to_reg());
                let rn: u32 = reg_num(*rn);
                if *sat {
                    emit_fpu_to_int_sat(sink, rd, tmp, rn, *signed, *out_ty == Type::I64);
                } else {
                    let single: bool = *in_ty == Type::F32;
                    emit_fpu_to_int_trap(sink, rd, tmp, rn, *signed, single, out_ty.bits());
                }
            },
            Inst::FpuMinMax { rd, ra, rb, is_max } => {
                emit_fpu_min_max(sink, reg_num(rd.to_reg()), reg_num(*ra), reg_num(*rb), *is_max);
            },
            Inst::FpuRound { rd, rn, mode } => {
                sink.put4(enc_fpu_round(*mode, reg_num(rd.to_reg()), reg_num(*rn)));
            },
            Inst::Bswap { rd, rn, ty } => {
                emit_bswap(sink, reg_num(rd.to_reg()), reg_num(*rn), *ty);
            },
            Inst::MovToFpr { rd, rn } => {
                sink.put4(enc_xx1(reg_num(rd.to_reg()), reg_num(*rn), 179));
            },
            Inst::MovFromFpr { rd, rn } => {
                sink.put4(enc_xx1(reg_num(*rn), reg_num(rd.to_reg()), 51));
            },
            _ => {},
        }
    }

    /// Emit an instruction of loads, stores and addresses.
    fn emit_memory_group(&self, sink: &mut MachBuffer, isa_3_0: bool, frame: &FrameLayout)
        requires
            group(*self) == Group::Memory,
            encodable(*self, *frame),
            old(sink)@.room(max_size(*self, *frame), max_labels(*self)),
        ensures
            final(sink)@ == emitted_memory(*self, old(sink)@, isa_3_0, *frame),
            !emits_own_island(*self) ==> final(sink)@.size <= old(sink)@.size + 96,
    {
        proof {
            reveal(emitted_memory);
        }
        match self {
            Inst::Load { rd, op, flags, from } => {
                emit_flags(sink, *flags);
                emit_mem_access(
                    sink,
                    frame,
                    *from,
                    reg_num(rd.to_reg()),
                    load_opcodes(*op),
                );
            },
            Inst::Store { to, op, flags, src } => {
                emit_flags(sink, *flags);
                emit_mem_access(
                    sink,
                    frame,
                    *to,
                    reg_num(*src),
                    store_opcodes(*op),
                );
            },
            Inst::LoadAddr { rd, mem } => {
                emit_load_addr(sink, frame, reg_num(rd.to_reg()), *mem);
            },
            Inst::VecLoad { rd, from, flags } => {
                emit_flags(sink, *flags);
                emit_vec_load(sink, frame, rd.to_reg(), *from, isa_3_0);
            },
            Inst::VecStore { to, rs, flags } => {
                emit_flags(sink, *flags);
                emit_vec_store(sink, frame, *to, *rs, isa_3_0);
            },
            Inst::VecLoad64 { rd, from, flags } => {
                emit_flags(sink, *flags);
                emit_vec_load64(sink, frame, rd.to_reg(), *from);
            },
            Inst::VecStore64 { to, rs, flags } => {
                emit_flags(sink, *flags);
                emit_vec_store64(sink, frame, *to, *rs);
            },
            _ => {},
        }
    }

    /// Emit an instruction of calls.
    fn emit_call_group(&self, sink: &mut MachBuffer, isa_3_0: bool, state: &mut EmitState)
        requires
            group(*self) == Group::Call,
            encodable(*self, old(state).frame_layout),
            old(sink)@.room(max_size(*self, old(state).frame_layout), max_labels(*self)),
        ensures
            final(sink)@ == emitted_call(
                *self,
                old(sink)@,
                isa_3_0,
                old(state).frame_layout,
                old(state).user_stack_map,
            ),
            final(state).frame_layout == old(state).frame_layout,
            self.is_regular_call() ==> final(state).user_stack_map is None,
            !self.is_regular_call() ==> final(state).user_stack_map == old(state).user_stack_map,
    {
        proof {
            reveal(emitted_call);
        }
        match self {
            Inst::Call { info } => {
                sink.add_reloc(Reloc::Ppc64Call, info.dest, 0);
                sink.put4(enc_b(0, true));
                emit_after_call(sink, state, info, isa_3_0);
            },
            Inst::CallInd { info } => {
                // The operand collector pins the destination to r12, as the
                // ELFv2 global-entry convention wants.
                sink.put4(enc_mtctr(reg_num(info.dest)));
                sink.put4(enc_bctr(true));
                emit_after_call(sink, state, info, isa_3_0);
            },
            Inst::ReturnCall { info } => {
                emit_return_call_common_sequence(
                    sink,
                    state.frame_layout(),
                    info.new_stack_arg_size,
                    isa_3_0,
                );
                sink.add_call_site();
                sink.add_reloc(Reloc::Ppc64Call, info.dest, 0);
                // Not linking: LR holds the original return address.
                sink.put4(enc_b(0, false));
            },
            Inst::ReturnCallInd { info } => {
                emit_return_call_common_sequence(
                    sink,
                    state.frame_layout(),
                    info.new_stack_arg_size,
                    isa_3_0,
                );
                sink.put4(enc_mtctr(reg_num(info.dest)));
                sink.put4(enc_bctr(false));
            },
            _ => {},
        }
    }

    /// Emit an instruction of atomic accesses.
    fn emit_atomic_group(&self, sink: &mut MachBuffer)
        requires
            group(*self) == Group::Atomic,
            exists|frame: FrameLayout| encodable(*self, frame),
            old(sink)@.room(96, 4),
        ensures
            final(sink)@ == emitted_atomic(*self, old(sink)@),
            !emits_own_island(*self) ==> final(sink)@.size <= old(sink)@.size + 96,
    {
        proof {
            reveal(emitted_atomic);
        }
        match self {
            Inst::AtomicLoad { rd, addr, ty } => {
                emit_atomic_load(sink, reg_num(rd.to_reg()), reg_num(*addr), *ty);
            },
            Inst::AtomicStore { src, addr, ty } => {
                emit_atomic_store(sink, reg_num(*src), reg_num(*addr), *ty);
            },
            Inst::AtomicRmw { op, rd, addr, src, ty } => {
                emit_atomic_rmw(
                    sink,
                    *op,
                    reg_num(rd.to_reg()),
                    reg_num(*addr),
                    reg_num(*src),
                    *ty,
                );
            },
            Inst::AtomicCas { rd, addr, expected, new, ty } => {
                emit_atomic_cas(
                    sink,
                    reg_num(rd.to_reg()),
                    reg_num(*addr),
                    reg_num(*expected),
                    reg_num(*new),
                    *ty,
                );
            },
            Inst::AtomicLoad128 { .. } => emit_atomic_load128(sink),
            Inst::AtomicStore128 { .. } => emit_atomic_store128(sink),
            Inst::AtomicRmw128 { op, .. } => emit_atomic_rmw128(sink, *op),
            Inst::AtomicCas128 { .. } => emit_atomic_cas128(sink),
            _ => {},
        }
    }

    /// Emit an instruction of vectors lane by lane.
    fn emit_lane_group(&self, sink: &mut MachBuffer, isa_3_0: bool)
        requires
            group(*self) == Group::Lane,
            exists|frame: FrameLayout| encodable(*self, frame),
            old(sink)@.room(96, 4),
        ensures
            final(sink)@ == emitted_lane(*self, old(sink)@, isa_3_0),
            !emits_own_island(*self) ==> final(sink)@.size <= old(sink)@.size + 96,
    {
        proof {
            reveal(emitted_lane);
        }
        match self {
            Inst::VecAluRRR { op, rd, ra, rb, ty } => {
                sink.put4(
                    enc_vec_alu_rrr(
                        *op,
                        vsr_num(rd.to_reg()),
                        vsr_num(*ra),
                        vsr_num(*rb),
                        ty.lane_bits(),
                    ),
                );
            },
            Inst::VecExtractLaneInt { rd, rn, ty, lane } => {
                emit_vec_extract_lane_int(
                    sink,
                    reg_num(rd.to_reg()),
                    vsr_num(*rn),
                    ty.lane_bits(),
                    *lane as u32,
                );
            },
            Inst::VecExtractLaneFpu { rd, rn, ty, lane } => {
                emit_vec_extract_lane_fpu(
                    sink,
                    vsr_num(rd.to_reg()),
                    vsr_num(*rn),
                    ty.lane_bits(),
                    *lane as u32,
                );
            },
            Inst::VecInsertLane { rd, rv, rs, ty, lane } => {
                emit_vec_insert_lane(
                    sink,
                    vsr_num(rd.to_reg()),
                    vsr_num(*rv),
                    reg_num(*rs),
                    ty.lane_is_float(),
                    ty.lane_bits(),
                    *lane,
                    isa_3_0,
                );
            },
            Inst::VecTestLanes { rd, rn, ty, all } => {
                emit_vec_test_lanes(
                    sink,
                    reg_num(rd.to_reg()),
                    vsr_num(*rn),
                    ty.lane_bits(),
                    *all,
                );
            },
            _ => {},
        }
    }

    /// Emit an instruction of whole vectors.
    fn emit_vector_group(&self, sink: &mut MachBuffer)
        requires
            group(*self) == Group::Vector,
            exists|frame: FrameLayout| encodable(*self, frame),
            old(sink)@.room(96, 4),
        ensures
            final(sink)@ == emitted_vector(*self, old(sink)@),
            !emits_own_island(*self) ==> final(sink)@.size <= old(sink)@.size + 96,
    {
        proof {
            reveal(emitted_vector);
        }
        match self {
            Inst::VecAluRRRR { op, rd, ra, rb, rc } => {
                sink.put4(
                    enc_vec_alu_rrrr(
                        *op,
                        vsr_num(rd.to_reg()),
                        vsr_num(*ra),
                        vsr_num(*rb),
                        vsr_num(*rc),
                    ),
                );
            },
            Inst::VecCvt { op, rd, rn } => {
                sink.put4(enc_vec_cvt(*op, vsr_num(rd.to_reg()), vsr_num(*rn)));
            },
            Inst::VecSpltImm { rd, imm, ty } => {
                sink.put4(enc_vec_splt_imm(vsr_num(rd.to_reg()), *imm, ty.lane_bits()));
            },
            Inst::VecUnary { op, rd, rn, ty } => {
                sink.put4(enc_vec_unary(*op, vsr_num(rd.to_reg()), vsr_num(*rn), ty.lane_bits()));
            },
            Inst::VecRound { rd, rn, mode, ty } => {
                let single: bool = ty.lane_bits() == 32;
                sink.put4(enc_vec_round(*mode, single, vsr_num(rd.to_reg()), vsr_num(*rn)));
            },
            Inst::VecSel { rd, if_set, if_clear, mask } => {
                sink.put4(
                    enc_xxsel(
                        vsr_num(rd.to_reg()),
                        vsr_num(*if_clear),
                        vsr_num(*if_set),
                        vsr_num(*mask),
                    ),
                );
            },
            Inst::VecFpuRRR { op, rd, ra, rb, ty } => {
                let single: bool = ty.lane_bits() == 32;
                sink.put4(
                    enc_vec_fpu_rrr(*op, single, vsr_num(rd.to_reg()), vsr_num(*ra), vsr_num(*rb)),
                );
            },
            Inst::VecFpuRR { op, rd, rn, ty } => {
                let single: bool = ty.lane_bits() == 32;
                sink.put4(enc_vec_fpu_rr(*op, single, vsr_num(rd.to_reg()), vsr_num(*rn)));
            },
            Inst::VecZero { rd } => {
                let d: u32 = vsr_num(rd.to_reg());
                sink.put4(enc_xx3(d, d, d, 154));
            },
            Inst::MovToVec { rd, rn } => {
                sink.put4(enc_mxvsrd(vsr_num(rd.to_reg()), reg_num(*rn), 179));
            },
            Inst::VecSplatLane { rd, rn, ty } => {
                sink.put4(enc_vec_splat_lane(vsr_num(rd.to_reg()), vsr_num(*rn), ty.lane_bits()));
            },
            Inst::VecSplatFpr { rd, rn, is_f32 } => {
                sink.put4(enc_vec_splat_fpr(vsr_num(rd.to_reg()), vsr_num(*rn), *is_f32));
            },
            Inst::VecPermDi { rd, ra, rb, dm } => {
                sink.put4(
                    enc_xxpermdi(
                        vsr_num(rd.to_reg()),
                        vsr_num(*ra),
                        vsr_num(*rb),
                        *dm as u32,
                    ),
                );
            },
            _ => {},
        }
    }
}

} // verus!
