//! What the instructions of prologues and epilogues do to registers and stack.
use vstd::prelude::*;
use crate::abi;
use crate::arg_locs;
use crate::args::{AMode, LoadOP, StoreOP};
use crate::buffer::UnwindInst;
use crate::frame::FrameLayout;
use crate::inst::Inst;
use crate::ir::{CallConv, FunctionCalls, SharedFlags, Type};
use crate::regs::{RealReg, Reg, RegClass, Writable};
use crate::unwinder;

verus! {

// Slots.

/// Where a register is saved starts at or behind the end of those before it, and
/// aligned to its size.
proof fn lemma_clobber_start(rs: Seq<Writable<RealReg>>, i: int)
    requires
        0 <= i < rs.len(),
    ensures
        abi::clobber_start(rs, i) >= abi::clobber_end(rs, i as nat),
        abi::clobber_start(rs, i) % abi::clobber_bytes(rs[i].reg) == 0,
        abi::clobber_end(rs, (i + 1) as nat) == abi::clobber_start(rs, i) + abi::clobber_bytes(
            rs[i].reg,
        ),
        abi::clobber_bytes(rs[i].reg) == 8 || abi::clobber_bytes(rs[i].reg) == 16,
{
    let before = abi::clobber_end(rs, i as nat);
    let n = abi::clobber_bytes(rs[i].reg);
    if n == 8 {
        assert(arg_locs::spec_align_to(before, 8) % 8 == 0);
    } else {
        assert(arg_locs::spec_align_to(before, 16) % 16 == 0);
    }
}

/// The slots of saved registers lie inside the area for them, aligned to their
/// size from the frame record down, and no two overlap.
pub proof fn law_clobber_slots_are_disjoint(frame: FrameLayout, i: int, j: int)
    requires
        abi::clobbers_fit(frame),
        0 <= i < j < frame.clobbered_callee_saves@.len(),
    ensures
        ({
            let rs = frame.clobbered_callee_saves@;
            let (ni, nj) = (abi::clobber_bytes(rs[i].reg), abi::clobber_bytes(rs[j].reg));
            let (a, b) = (abi::clobber_slot(frame, i), abi::clobber_slot(frame, j));
            &&& frame.spec_sp_to_fp() - frame.clobber_size <= b
            &&& b + nj <= a
            &&& a + ni <= frame.spec_sp_to_fp()
            &&& (frame.spec_sp_to_fp() - a) % ni == 0
            &&& (frame.spec_sp_to_fp() - b) % nj == 0
        }),
{
    let rs = frame.clobbered_callee_saves@;
    lemma_clobber_start(rs, i);
    lemma_clobber_start(rs, j);
    abi::lemma_clobber_end_monotone(rs, (i + 1) as nat, j as nat);
    abi::lemma_clobber_end_monotone(rs, (j + 1) as nat, rs.len());
    abi::lemma_clobber_end_bounds(rs, i as nat);
    lemma_slot_alignment(frame, i);
    lemma_slot_alignment(frame, j);
}

/// A slot is aligned to its size from the frame record down.
proof fn lemma_slot_alignment(frame: FrameLayout, i: int)
    requires
        0 <= i < frame.clobbered_callee_saves@.len(),
    ensures
        (frame.spec_sp_to_fp() - abi::clobber_slot(frame, i)) % abi::clobber_bytes(
            frame.clobbered_callee_saves@[i].reg,
        ) == 0,
{
    let rs = frame.clobbered_callee_saves@;
    lemma_clobber_start(rs, i);
    let n = abi::clobber_bytes(rs[i].reg);
    let start = abi::clobber_start(rs, i);
    assert(frame.spec_sp_to_fp() - abi::clobber_slot(frame, i) == start + n);
    if n == 8 {
        assert((start + 8) % 8 == 0);
    } else {
        assert((start + 16) % 16 == 0);
    }
}

/// Without vector registers, the `i`th saved register is `i + 1` doublewords below
/// the frame record.
pub proof fn law_scalar_slots_descend(frame: FrameLayout, i: int)
    requires
        0 <= i < frame.clobbered_callee_saves@.len(),
        forall|k: int|
            0 <= k < frame.clobbered_callee_saves@.len() ==> (
            #[trigger] frame.clobbered_callee_saves@[k]).reg.class != RegClass::Vector,
    ensures
        abi::clobber_slot(frame, i) == frame.spec_sp_to_fp() - 8 * (i + 1),
{
    lemma_scalar_ends(frame.clobbered_callee_saves@, (i + 1) as nat);
    lemma_clobber_start(frame.clobbered_callee_saves@, i);
}

/// Without vector registers, saved registers take a doubleword each.
proof fn lemma_scalar_ends(rs: Seq<Writable<RealReg>>, n: nat)
    requires
        n <= rs.len(),
        forall|k: int| 0 <= k < rs.len() ==> (#[trigger] rs[k]).reg.class != RegClass::Vector,
    ensures
        abi::clobber_end(rs, n) == 8 * n,
    decreases n,
{
    if n > 0 {
        lemma_scalar_ends(rs, (n - 1) as nat);
        assert(rs[n - 1].reg.class != RegClass::Vector);
        assert(abi::clobber_bytes(rs[n - 1].reg) == 8);
        assert((8 * (n - 1)) % 8 == 0);
    }
}

// Registers and memory.

/// The registers, by index, the link register, and memory. A byte of memory is
/// which byte of which value.
pub struct Image {
    pub regs: Seq<int>,
    pub lr: int,
    pub mem: spec_fn(int) -> (int, int),
}

/// An image with all registers.
pub open spec fn wf(s: Image) -> bool {
    s.regs.len() == 192
}

/// The image with a register written.
pub open spec fn set(s: Image, r: Reg, v: int) -> Image {
    Image { regs: s.regs.update(r.index as int, v), ..s }
}

/// The image with so many bytes of a value written to memory.
pub open spec fn write(s: Image, a: int, n: int, v: int) -> Image {
    let mem = s.mem;
    Image {
        mem: |x: int|
            if a <= x < a + n {
                (v, x - a)
            } else {
                mem(x)
            },
        ..s
    }
}

/// Whether memory holds so many bytes of a value.
pub open spec fn stored(s: Image, a: int, n: int, v: int) -> bool {
    forall|x: int| a <= x < a + n ==> #[trigger] (s.mem)(x) == (v, x - a)
}

/// The stack pointer.
pub open spec fn sp(s: Image) -> int {
    s.regs[1]
}

/// The frame pointer.
pub open spec fn fp(s: Image) -> int {
    s.regs[31]
}

/// The image with a whole register loaded from memory, where a whole value is.
pub open spec fn load(s: Image, r: Reg, a: int, n: int) -> Option<Image> {
    let v = (s.mem)(a).0;
    if stored(s, a, n, v) {
        Some(set(s, r, v))
    } else {
        None
    }
}

/// The image after an instruction of a prologue or epilogue.
pub open spec fn exec(s: Image, i: Inst) -> Option<Image> {
    match i {
        Inst::LoadAddr { rd, mem: AMode::SPOffset(o) } => Some(set(s, rd.reg, sp(s) + o)),
        Inst::Mov { rd, rm, .. } => Some(set(s, rd.reg, s.regs[rm.index as int])),
        Inst::Mflr { rd } => Some(set(s, rd.reg, s.lr)),
        Inst::Mtlr { rs } => Some(Image { lr: s.regs[rs.index as int], ..s }),
        Inst::Unwind { .. } => Some(s),
        Inst::Load { rd, op, from: AMode::SPOffset(o), .. } => if op == LoadOP::Ld || op
            == LoadOP::Lfd {
            load(s, rd.reg, sp(s) + o, 8)
        } else {
            None
        },
        Inst::VecLoad { rd, from: AMode::SPOffset(o), .. } => load(s, rd.reg, sp(s) + o, 16),
        Inst::Store { to: AMode::SPOffset(o), op, src, .. } => if op == StoreOP::Std || op
            == StoreOP::Stfd {
            Some(write(s, sp(s) + o, 8, s.regs[src.index as int]))
        } else if op == StoreOP::Stw {
            Some(write(s, sp(s) + o, 4, s.regs[src.index as int]))
        } else {
            None
        },
        Inst::VecStore { to: AMode::SPOffset(o), rs, .. } => Some(
            write(s, sp(s) + o, 16, s.regs[rs.index as int]),
        ),
        _ => None,
    }
}

/// The image after instructions, in order.
pub open spec fn run(s: Image, is: Seq<Inst>) -> Option<Image>
    decreases is.len(),
{
    if is.len() == 0 {
        Some(s)
    } else {
        match run(s, is.drop_last()) {
            Some(t) => exec(t, is.last()),
            None => None,
        }
    }
}

/// Running instructions and then others.
proof fn lemma_run_concat(s: Image, a: Seq<Inst>, b: Seq<Inst>)
    ensures
        run(s, a + b) == (match run(s, a) {
            Some(t) => run(t, b),
            None => None,
        }),
    decreases b.len(),
{
    if b.len() == 0 {
        assert(a + b =~= a);
    } else {
        lemma_run_concat(s, a, b.drop_last());
        assert((a + b).drop_last() =~= a + b.drop_last());
        assert((a + b).last() == b.last());
    }
}

/// Running one instruction.
proof fn lemma_run_one(s: Image, i: Inst)
    ensures
        run(s, seq![i]) == exec(s, i),
{
    assert(seq![i].drop_last() =~= Seq::<Inst>::empty());
    assert(run(s, Seq::<Inst>::empty()) == Some(s));
}

/// Running instructions and one more.
proof fn lemma_run_push(s: Image, a: Seq<Inst>, i: Inst)
    ensures
        run(s, a.push(i)) == (match run(s, a) {
            Some(t) => exec(t, i),
            None => None,
        }),
{
    assert(a.push(i).drop_last() =~= a);
}

/// Moving the stack pointer.
proof fn lemma_sp_adjust(s: Image, amount: int)
    requires
        wf(s),
        i64::MIN <= amount <= i64::MAX,
    ensures
        run(s, abi::sp_adjust(amount)) == Some(set(s, abi::sp(), sp(s) + amount)),
{
    if amount == 0 {
        assert(s.regs.update(1, sp(s)) =~= s.regs);
        assert(run(s, Seq::<Inst>::empty()) == Some(s));
    } else {
        lemma_run_one(
            s,
            Inst::LoadAddr { rd: abi::w_sp(), mem: AMode::SPOffset(amount as i64) },
        );
    }
}

// Saving and restoring registers.

/// The entry value of a saved register.
pub open spec fn saved_value(frame: FrameLayout, s: Image, i: int) -> int {
    s.regs[abi::clobber_reg(frame, i).index as int]
}

/// Whether memory holds the values that the first `n` saved registers have in an
/// image.
pub open spec fn all_saved(frame: FrameLayout, s: Image, t: Image, n: int) -> bool {
    forall|i: int|
        0 <= i < n ==> #[trigger] stored(
            t,
            sp(t) + abi::clobber_slot(frame, i),
            abi::clobber_bytes(frame.clobbered_callee_saves@[i].reg),
            saved_value(frame, s, i),
        )
}

/// A frame whose saved registers can be saved and restored around its body: real
/// ones, no two the same, and none of r0, the stack pointer and the frame pointer,
/// which the frame record goes through.
pub open spec fn saves_ok(frame: FrameLayout) -> bool {
    let rs = frame.clobbered_callee_saves@;
    &&& abi::clobbers_fit(frame)
    &&& forall|i: int|
        0 <= i < rs.len() ==> (#[trigger] rs[i]).reg.index() != 0 && rs[i].reg.index() != 1
            && rs[i].reg.index() != 31 && rs[i].reg.index() < 192
    &&& forall|i: int, j: int|
        0 <= i < j < rs.len() ==> (#[trigger] rs[i]).reg.index() != (
        #[trigger] rs[j]).reg.index()
}

/// Saving registers writes their slots and nothing else.
proof fn lemma_save(frame: FrameLayout, unwind_info: bool, s: Image, n: nat)
    requires
        wf(s),
        saves_ok(frame),
        n <= frame.clobbered_callee_saves@.len(),
    ensures
        run(s, abi::save_clobbers(frame, unwind_info, n)) matches Some(t) && t.regs == s.regs
            && t.lr == s.lr && all_saved(frame, s, t, n as int) && forall|x: int|
            (x < sp(s) + frame.spec_sp_to_fp() - abi::clobber_end(
                frame.clobbered_callee_saves@,
                n,
            ) || x >= sp(s) + frame.spec_sp_to_fp()) ==> #[trigger] (t.mem)(x) == (s.mem)(x),
    decreases n,
{
    let rs = frame.clobbered_callee_saves@;
    if n == 0 {
        assert(run(s, Seq::<Inst>::empty()) == Some(s));
    } else {
        let i = n - 1;
        lemma_save(frame, unwind_info, s, (n - 1) as nat);
        lemma_clobber_start(rs, i);
        abi::lemma_clobber_end_bounds(rs, i as nat);
        abi::lemma_clobber_end_monotone(rs, n, rs.len());
        let before = abi::save_clobbers(frame, unwind_info, (n - 1) as nat);
        let m = run(s, before)->0;
        let slot = abi::clobber_slot(frame, i);
        let r = rs[i].reg;
        let inst = abi::store_sp(slot, abi::clobber_reg(frame, i), abi::clobber_type(r.class));
        lemma_run_push(s, before, inst);
        let t = write(m, sp(m) + slot, abi::clobber_bytes(r), saved_value(frame, s, i));
        assert(exec(m, inst) == Some(t));
        if unwind_info {
            let full = abi::save_clobbers(frame, unwind_info, n);
            assert(full.drop_last() =~= before.push(inst));
        }
        assert(run(s, abi::save_clobbers(frame, unwind_info, n)) == Some(t));
        assert forall|k: int| 0 <= k < n implies #[trigger] stored(
            t,
            sp(t) + abi::clobber_slot(frame, k),
            abi::clobber_bytes(rs[k].reg),
            saved_value(frame, s, k),
        ) by {
            if k < i {
                assert(stored(
                    m,
                    sp(m) + abi::clobber_slot(frame, k),
                    abi::clobber_bytes(rs[k].reg),
                    saved_value(frame, s, k),
                ));
                law_clobber_slots_are_disjoint(frame, k, i);
            }
        }
    }
}

/// Restoring registers gives each the value in its slot, and changes no other.
proof fn lemma_restore(frame: FrameLayout, s: Image, t: Image, n: nat)
    requires
        wf(t),
        saves_ok(frame),
        n <= frame.clobbered_callee_saves@.len(),
        all_saved(frame, s, t, n as int),
    ensures
        run(t, abi::restore_clobbers(frame, n)) matches Some(u) && u.lr == t.lr && u.mem == t.mem
            && u.regs.len() == 192 && (forall|i: int|
            0 <= i < n ==> #[trigger] u.regs[abi::clobber_reg(frame, i).index as int]
                == saved_value(frame, s, i)) && (forall|k: int|
            0 <= k < 192 && (forall|i: int|
                0 <= i < n ==> #[trigger] abi::clobber_reg(frame, i).index != k)
                ==> #[trigger] u.regs[k] == t.regs[k]),
    decreases n,
{
    let rs = frame.clobbered_callee_saves@;
    if n == 0 {
        assert(run(t, Seq::<Inst>::empty()) == Some(t));
    } else {
        let i = n - 1;
        lemma_restore(frame, s, t, (n - 1) as nat);
        lemma_clobber_start(rs, i);
        abi::lemma_clobber_end_bounds(rs, i as nat);
        abi::lemma_clobber_end_monotone(rs, n, rs.len());
        let before = abi::restore_clobbers(frame, (n - 1) as nat);
        let m = run(t, before)->0;
        assert forall|k: int| 0 <= k < n - 1 implies #[trigger] abi::clobber_reg(
            frame,
            k,
        ).index != 1 by {
            assert(rs[k].reg.index() != 1);
            lemma_clobber_reg(frame, k);
        }
        assert(m.regs[1] == t.regs[1]);
        let slot = abi::clobber_slot(frame, i);
        let r = rs[i].reg;
        let reg = abi::clobber_reg(frame, i);
        let inst = abi::load_sp(Writable { reg }, slot, abi::clobber_type(r.class));
        lemma_run_push(t, before, inst);
        assert(stored(t, sp(t) + slot, abi::clobber_bytes(r), saved_value(frame, s, i)));
        assert((t.mem)(sp(t) + slot) == (saved_value(frame, s, i), 0int));
        lemma_clobber_reg(frame, i);
        let u = set(m, reg, saved_value(frame, s, i));
        assert(exec(m, inst) == Some(u));
        assert forall|k: int| 0 <= k < n implies #[trigger] u.regs[abi::clobber_reg(
            frame,
            k,
        ).index as int] == saved_value(frame, s, k) by {
            lemma_clobber_reg(frame, k);
            if k < i {
                assert(rs[k].reg.index() != rs[i].reg.index());
                assert(m.regs[abi::clobber_reg(frame, k).index as int] == saved_value(
                    frame,
                    s,
                    k,
                ));
            }
        }
        assert forall|k: int|
            0 <= k < 192 && (forall|j: int|
                0 <= j < n ==> #[trigger] abi::clobber_reg(frame, j).index
                    != k) implies #[trigger] u.regs[k] == t.regs[k] by {
            assert(abi::clobber_reg(frame, i).index != k);
            assert(m.regs[k] == t.regs[k]);
        }
    }
}

/// The operand of a saved register has its index.
proof fn lemma_clobber_reg(frame: FrameLayout, i: int)
    requires
        saves_ok(frame),
        0 <= i < frame.clobbered_callee_saves@.len(),
    ensures
        abi::clobber_reg(frame, i).index == frame.clobbered_callee_saves@[i].reg.index(),
        abi::clobber_reg(frame, i).index < 192,
        abi::clobber_reg(frame, i).index != 0,
        abi::clobber_reg(frame, i).index != 1,
        abi::clobber_reg(frame, i).index != 31,
{
    assert(frame.clobbered_callee_saves@[i].reg.index() < 192);
}

// Prologues and epilogues.

/// How far the frame record lies below its place at entry: the room for arguments
/// of tail calls beyond the incoming ones.
pub open spec fn growth(frame: FrameLayout) -> int {
    frame.tail_args_size - frame.incoming_args_size
}

/// A frame that a prologue can set up: with a frame record of two doublewords, or
/// with none and no saved registers; argument areas that differ by nothing or by a
/// quadword and more; and sizes that fit a signed word.
pub open spec fn frame_ok(frame: FrameLayout) -> bool {
    &&& saves_ok(frame)
    &&& frame.setup_area_size == 16 || (frame.setup_area_size == 0
        && frame.clobbered_callee_saves@.len() == 0)
    &&& growth(frame) == 0 || growth(frame) >= 16
    &&& frame.whole() <= i32::MAX
}

/// The instructions of a prologue.
pub open spec fn prologue(frame: FrameLayout, unwind_info: bool) -> Seq<Inst> {
    abi::frame_setup(frame, unwind_info) + abi::clobber_save(frame, unwind_info)
}

/// The instructions of an epilogue.
pub open spec fn epilogue(frame: FrameLayout, call_conv: CallConv) -> Seq<Inst> {
    abi::clobber_restore(frame) + abi::frame_restore(frame, call_conv)
}

/// Storing a doubleword.
proof fn lemma_store(s: Image, offset: int, r: Reg)
    requires
        i64::MIN <= offset <= i64::MAX,
    ensures
        exec(s, abi::store_sp(offset, r, Type::I64)) == Some(
            write(s, sp(s) + offset, 8, s.regs[r.index as int]),
        ),
{
}

/// Loading a doubleword.
proof fn lemma_load(s: Image, w: Writable<Reg>, offset: int, v: int)
    requires
        i64::MIN <= offset <= i64::MAX,
        stored(s, sp(s) + offset, 8, v),
    ensures
        exec(s, abi::load_sp(w, offset, Type::I64)) == Some(set(s, w.reg, v)),
{
    assert((s.mem)(sp(s) + offset) == (v, 0int));
}

/// Whether an image holds a frame record: the previous frame pointer and the return
/// address.
pub open spec fn has_record(t: Image, at: int, fp0: int, lr0: int) -> bool {
    &&& stored(t, at, 8, fp0)
    &&& stored(t, at + 8, 8, lr0)
}

/// Setting up the frame record.
proof fn lemma_frame_setup(frame: FrameLayout, unwind_info: bool, s: Image)
    requires
        wf(s),
        frame.setup_area_size == 16,
    ensures
        run(s, abi::frame_setup(frame, unwind_info)) matches Some(t) && wf(t) && t.lr == s.lr
            && sp(t) == sp(s) - 16 && fp(t) == sp(s) - 16 && has_record(t, sp(t), fp(s), s.lr) && (
        forall|k: int|
            0 <= k < 192 && k != 0 && k != 1 && k != 31 ==> #[trigger] t.regs[k] == s.regs[k]) && (
        forall|x: int|
            x < sp(s) - 16 || x >= sp(s) ==> #[trigger] (t.mem)(x) == (s.mem)(x)),
{
    let i1 = seq![Inst::Mflr { rd: abi::w_r0() }];
    let i2 = abi::sp_adjust(-16);
    let i3 = seq![
        abi::store_sp(8, abi::r0(), Type::I64),
        abi::store_sp(0, abi::fp(), Type::I64),
    ];
    let i4 = if unwind_info {
        seq![
            Inst::Unwind {
                inst: UnwindInst::PushFrameRegs {
                    offset_upward_to_caller_sp: frame.setup_area_size,
                },
            },
        ]
    } else {
        seq![]
    };
    let mv = Inst::Mov { rd: abi::w_fp(), rm: abi::sp(), ty: Type::I64 };
    let s1 = set(s, abi::r0(), s.lr);
    lemma_run_one(s, i1[0]);
    assert(i1 =~= seq![i1[0]]);
    let s2 = set(s1, abi::sp(), sp(s) - 16);
    lemma_sp_adjust(s1, -16);
    lemma_run_concat(s, i1, i2);
    let s3 = write(s2, sp(s) - 8, 8, s.lr);
    let s4 = write(s3, sp(s) - 16, 8, fp(s));
    lemma_store(s2, 8, abi::r0());
    lemma_store(s3, 0, abi::fp());
    lemma_run_one(s2, i3[0]);
    lemma_run_push(s2, seq![i3[0]], i3[1]);
    assert(i3 =~= seq![i3[0]].push(i3[1]));
    lemma_run_concat(s, i1 + i2, i3);
    if unwind_info {
        lemma_run_one(s4, i4[0]);
        assert(i4 =~= seq![i4[0]]);
    } else {
        assert(run(s4, Seq::<Inst>::empty()) == Some(s4));
    }
    lemma_run_concat(s, i1 + i2 + i3, i4);
    lemma_run_one(s4, mv);
    lemma_run_concat(s, i1 + i2 + i3 + i4, seq![mv]);
}

/// Making room for arguments of tail calls moves the frame record below it.
proof fn lemma_grow(frame: FrameLayout, s: Image, fp0: int, lr0: int)
    requires
        wf(s),
        frame_ok(frame),
        frame.setup_area_size == 16,
        has_record(s, sp(s), fp0, lr0),
        fp(s) == sp(s),
    ensures
        run(s, abi::grow_incoming(frame)) matches Some(t) && wf(t) && t.lr == s.lr && sp(t) == sp(s)
            - growth(frame) && fp(t) == sp(t) && has_record(t, sp(t), fp0, lr0) && (forall|k: int|
            0 <= k < 192 && k != 0 && k != 1 && k != 31 ==> #[trigger] t.regs[k] == s.regs[k]) && (
        forall|x: int|
            x < sp(s) - growth(frame) || x >= sp(s) ==> #[trigger] (t.mem)(x) == (s.mem)(x)),
{
    let d = growth(frame);
    if d <= 0 {
        assert(run(s, Seq::<Inst>::empty()) == Some(s));
    } else {
        let i1 = abi::sp_adjust(-(d as u32 as i32));
        let i2 = seq![
            abi::load_sp(abi::w_r0(), d + 8, Type::I64),
            abi::store_sp(8, abi::r0(), Type::I64),
            abi::load_sp(abi::w_fp(), d, Type::I64),
            abi::store_sp(0, abi::fp(), Type::I64),
            Inst::Mov { rd: abi::w_fp(), rm: abi::sp(), ty: Type::I64 },
        ];
        lemma_sp_adjust(s, -d);
        let s1 = set(s, abi::sp(), sp(s) - d);
        let b = sp(s) - d;
        lemma_load(s1, abi::w_r0(), d + 8, lr0);
        let s2 = set(s1, abi::r0(), lr0);
        lemma_store(s2, 8, abi::r0());
        let s3 = write(s2, b + 8, 8, lr0);
        lemma_load(s3, abi::w_fp(), d, fp0);
        let s4 = set(s3, abi::fp(), fp0);
        lemma_store(s4, 0, abi::fp());
        let s5 = write(s4, b, 8, fp0);
        let s6 = set(s5, abi::fp(), b);
        lemma_run_one(s1, i2[0]);
        lemma_run_push(s1, seq![i2[0]], i2[1]);
        lemma_run_push(s1, seq![i2[0]].push(i2[1]), i2[2]);
        lemma_run_push(s1, seq![i2[0]].push(i2[1]).push(i2[2]), i2[3]);
        lemma_run_push(s1, seq![i2[0]].push(i2[1]).push(i2[2]).push(i2[3]), i2[4]);
        assert(i2 =~= seq![i2[0]].push(i2[1]).push(i2[2]).push(i2[3]).push(i2[4]));
        lemma_run_concat(s, i1, i2);
        assert(run(s, abi::grow_incoming(frame)) == Some(s6));
    }
}

/// The instructions that allocate the frame and save registers in it.
spec fn allocation(frame: FrameLayout, unwind_info: bool) -> Seq<Inst> {
    if frame.spec_sp_to_fp() > 0 {
        abi::sp_adjust(-(frame.spec_sp_to_fp() as u32 as i32)) + abi::save_clobbers(
            frame,
            unwind_info,
            frame.clobbered_callee_saves@.len(),
        )
    } else {
        seq![]
    }
}

/// Allocating the frame and saving registers in it.
proof fn lemma_allocate(frame: FrameLayout, unwind_info: bool, s: Image)
    requires
        wf(s),
        frame_ok(frame),
    ensures
        run(s, abi::define_frame(frame, unwind_info) + allocation(frame, unwind_info)) matches Some(
            t,
        ) && wf(t) && t.lr == s.lr && sp(t) == sp(s) - frame.spec_sp_to_fp() && all_saved(
            frame,
            s,
            t,
            frame.clobbered_callee_saves@.len() as int,
        ) && (forall|k: int| 0 <= k < 192 && k != 1 ==> #[trigger] t.regs[k] == s.regs[k]) && (
        forall|x: int| x >= sp(s) ==> #[trigger] (t.mem)(x) == (s.mem)(x)),
{
    let size = frame.spec_sp_to_fp();
    let rs = frame.clobbered_callee_saves@;
    let i1 = abi::define_frame(frame, unwind_info);
    if unwind_info && frame.setup_area_size > 0 {
        lemma_run_one(s, i1[0]);
        assert(i1 =~= seq![i1[0]]);
    } else {
        assert(run(s, Seq::<Inst>::empty()) == Some(s));
    }
    assert(run(s, i1) == Some(s));
    if size > 0 {
        let i2 = abi::sp_adjust(-(size as u32 as i32));
        let i3 = abi::save_clobbers(frame, unwind_info, rs.len());
        lemma_sp_adjust(s, -size);
        let s1 = set(s, abi::sp(), sp(s) - size);
        lemma_save(frame, unwind_info, s1, rs.len());
        lemma_run_concat(s, i2, i3);
        lemma_run_concat(s, i1, i2 + i3);
        let t = run(s1, i3)->0;
        assert forall|i: int| 0 <= i < rs.len() implies #[trigger] stored(
            t,
            sp(t) + abi::clobber_slot(frame, i),
            abi::clobber_bytes(rs[i].reg),
            saved_value(frame, s, i),
        ) by {
            lemma_clobber_reg(frame, i);
            assert(stored(
                t,
                sp(t) + abi::clobber_slot(frame, i),
                abi::clobber_bytes(rs[i].reg),
                saved_value(frame, s1, i),
            ));
        }
    } else {
        abi::lemma_clobber_end_bounds(rs, rs.len());
        lemma_run_concat(s, i1, Seq::<Inst>::empty());
        assert(run(s, Seq::<Inst>::empty()) == Some(s));
    }
}

/// A prologue leaves the frame record at the frame pointer, with the previous frame
/// pointer and the return address, the stack pointer below the frame, and every
/// saved register in its slot. It changes no memory above the record but the room
/// that it makes for arguments of tail calls, and no register but r0, the stack
/// pointer and the frame pointer.
pub proof fn law_prologue(frame: FrameLayout, unwind_info: bool, s: Image)
    requires
        wf(s),
        frame_ok(frame),
    ensures
        run(s, prologue(frame, unwind_info)) matches Some(t) && wf(t) && t.lr == s.lr && sp(t)
            == sp(s) - growth(frame) - frame.setup_area_size - frame.spec_sp_to_fp() && (
        if frame.setup_area_size > 0 {
            fp(t) == sp(t) + frame.spec_sp_to_fp() && has_record(t, fp(t), fp(s), s.lr)
        } else {
            fp(t) == fp(s)
        }) && all_saved(frame, s, t, frame.clobbered_callee_saves@.len() as int) && (forall|k: int|
            0 <= k < 192 && k != 0 && k != 1 && k != 31 ==> #[trigger] t.regs[k] == s.regs[k]) && (
        forall|x: int| x >= sp(s) ==> #[trigger] (t.mem)(x) == (s.mem)(x)),
{
    let f = abi::frame_setup(frame, unwind_info);
    let g = abi::grow_incoming(frame);
    if frame.setup_area_size > 0 {
        lemma_frame_setup(frame, unwind_info, s);
        let s1 = run(s, f)->0;
        lemma_grow(frame, s1, fp(s), s.lr);
        let s2 = run(s1, g)->0;
        lemma_prologue_end(frame, unwind_info, s, s1, s2);
    } else {
        assert(run(s, Seq::<Inst>::empty()) == Some(s));
        let s2 = set(s, abi::sp(), sp(s) - growth(frame));
        lemma_sp_adjust(s, -growth(frame));
        if growth(frame) == 0 {
            assert(s2.regs =~= s.regs);
        }
        lemma_prologue_end(frame, unwind_info, s, s, s2);
    }
}

/// A stack walker that starts at the frame pointer of a function with a frame record
/// finds the caller's frame pointer, the return address and the stack pointer at
/// entry (below what room was made for arguments of tail calls) where the walker's
/// offsets say.
pub proof fn law_walker_finds_the_caller(frame: FrameLayout, unwind_info: bool, s: Image)
    requires
        wf(s),
        frame_ok(frame),
        frame.setup_area_size > 0,
    ensures
        run(s, prologue(frame, unwind_info)) matches Some(t) && stored(
            t,
            fp(t) + unwinder::NEXT_OLDER_FP_FROM_FP_OFFSET,
            8,
            fp(s),
        ) && stored(t, fp(t) + unwinder::NEXT_OLDER_PC_FROM_FP_OFFSET, 8, s.lr) && fp(t)
            + unwinder::NEXT_OLDER_SP_FROM_FP_OFFSET == sp(s) - growth(frame),
{
    law_prologue(frame, unwind_info, s);
}

/// The end of a prologue, behind the frame record.
proof fn lemma_prologue_end(frame: FrameLayout, unwind_info: bool, s: Image, s1: Image, s2: Image)
    requires
        wf(s),
        wf(s2),
        frame_ok(frame),
        run(s, abi::frame_setup(frame, unwind_info)) == Some(s1),
        run(s1, abi::grow_incoming(frame)) == Some(s2),
        forall|k: int|
            0 <= k < 192 && k != 0 && k != 1 && k != 31 ==> #[trigger] s2.regs[k] == s.regs[k],
    ensures
        run(s, prologue(frame, unwind_info)) matches Some(t) && wf(t) && t.lr == s2.lr && sp(t)
            == sp(s2) - frame.spec_sp_to_fp() && all_saved(
            frame,
            s,
            t,
            frame.clobbered_callee_saves@.len() as int,
        ) && (forall|k: int| 0 <= k < 192 && k != 1 ==> #[trigger] t.regs[k] == s2.regs[k]) && (
        forall|x: int| x >= sp(s2) ==> #[trigger] (t.mem)(x) == (s2.mem)(x)),
{
    let rs = frame.clobbered_callee_saves@;
    let f = abi::frame_setup(frame, unwind_info);
    let g = abi::grow_incoming(frame);
    let d = abi::define_frame(frame, unwind_info);
    let tail = allocation(frame, unwind_info);
    lemma_allocate(frame, unwind_info, s2);
    let t = run(s2, d + tail)->0;
    lemma_run_concat(s1, g, d + tail);
    assert(abi::clobber_save(frame, unwind_info) =~= g + (d + tail));
    lemma_run_concat(s, f, g + (d + tail));
    assert forall|i: int| 0 <= i < rs.len() implies #[trigger] stored(
        t,
        sp(t) + abi::clobber_slot(frame, i),
        abi::clobber_bytes(rs[i].reg),
        saved_value(frame, s, i),
    ) by {
        lemma_clobber_reg(frame, i);
        assert(stored(
            t,
            sp(t) + abi::clobber_slot(frame, i),
            abi::clobber_bytes(rs[i].reg),
            saved_value(frame, s2, i),
        ));
    }
}

/// Whether a body keeps what its epilogue needs: the stack pointer, the frame
/// record and the slots of saved registers; without a frame record, the frame
/// pointer and the link register.
pub open spec fn body_keeps(frame: FrameLayout, t: Image, u: Image) -> bool {
    &&& wf(u)
    &&& sp(u) == sp(t)
    &&& if frame.setup_area_size > 0 {
        forall|x: int|
            sp(t) + frame.spec_sp_to_fp() - frame.clobber_size <= x < sp(t) + frame.spec_sp_to_fp()
                + 16 ==> #[trigger] (u.mem)(x) == (t.mem)(x)
    } else {
        fp(u) == fp(t) && u.lr == t.lr
    }
}

/// Where the stack pointer is after an epilogue: where it was at entry, less what
/// the argument area grew by, and under the tail convention past the arguments.
pub open spec fn sp_after(frame: FrameLayout, call_conv: CallConv, sp0: int) -> int {
    sp0 - growth(frame) + if call_conv == CallConv::Tail {
        frame.tail_args_size as int
    } else {
        0
    }
}

/// Undoing the frame record.
proof fn lemma_frame_restore(frame: FrameLayout, call_conv: CallConv, u: Image, fp0: int, lr0: int)
    requires
        wf(u),
        frame_ok(frame),
        frame.setup_area_size > 0 ==> has_record(u, sp(u), fp0, lr0),
        frame.setup_area_size == 0 ==> fp(u) == fp0 && u.lr == lr0,
    ensures
        run(u, abi::frame_restore(frame, call_conv)) matches Some(v) && wf(v) && v.lr == lr0
            && fp(v) == fp0 && sp(v) == sp(u) + frame.setup_area_size + (if call_conv
            == CallConv::Tail {
            frame.tail_args_size as int
        } else {
            0
        }) && v.mem == u.mem && (forall|k: int|
            0 <= k < 192 && k != 0 && k != 1 && k != 31 ==> #[trigger] v.regs[k] == u.regs[k]),
{
    let i1 = seq![
        abi::load_sp(abi::w_r0(), 8, Type::I64),
        Inst::Mtlr { rs: abi::r0() },
        abi::load_sp(abi::w_fp(), 0, Type::I64),
    ];
    let first: Seq<Inst> = if frame.setup_area_size > 0 {
        i1 + abi::sp_adjust(16)
    } else {
        seq![]
    };
    let second: Seq<Inst> = if call_conv == CallConv::Tail {
        abi::sp_adjust(frame.tail_args_size as int)
    } else {
        seq![]
    };
    let v1 = if frame.setup_area_size > 0 {
        lemma_load(u, abi::w_r0(), 8, lr0);
        let u1 = set(u, abi::r0(), lr0);
        let u2 = Image { lr: lr0, ..u1 };
        lemma_load(u2, abi::w_fp(), 0, fp0);
        let u3 = set(u2, abi::fp(), fp0);
        lemma_run_one(u, i1[0]);
        lemma_run_push(u, seq![i1[0]], i1[1]);
        lemma_run_push(u, seq![i1[0]].push(i1[1]), i1[2]);
        assert(i1 =~= seq![i1[0]].push(i1[1]).push(i1[2]));
        lemma_sp_adjust(u3, 16);
        lemma_run_concat(u, i1, abi::sp_adjust(16));
        set(u3, abi::sp(), sp(u) + 16)
    } else {
        assert(run(u, Seq::<Inst>::empty()) == Some(u));
        u
    };
    assert(run(u, first) == Some(v1));
    if call_conv == CallConv::Tail {
        lemma_sp_adjust(v1, frame.tail_args_size as int);
    } else {
        assert(run(v1, Seq::<Inst>::empty()) == Some(v1));
    }
    lemma_run_concat(u, first, second);
}

/// An epilogue undoes a prologue, whatever the body in between did: the return
/// address, the frame pointer and every saved register are what they were at
/// entry, and the stack pointer is where the convention wants it.
pub proof fn law_epilogue_undoes_prologue(
    frame: FrameLayout,
    unwind_info: bool,
    call_conv: CallConv,
    s: Image,
    u: Image,
)
    requires
        wf(s),
        frame_ok(frame),
        body_keeps(frame, run(s, prologue(frame, unwind_info))->0, u),
    ensures
        run(u, epilogue(frame, call_conv)) matches Some(v) && v.lr == s.lr && fp(v) == fp(s)
            && sp(v) == sp_after(frame, call_conv, sp(s)) && v.mem == u.mem && (forall|i: int|
            0 <= i < frame.clobbered_callee_saves@.len()
                ==> #[trigger] v.regs[abi::clobber_reg(frame, i).index as int] == saved_value(
                frame,
                s,
                i,
            )) && (forall|k: int|
            1 < k < 192 && k != 31 && (forall|i: int|
                0 <= i < frame.clobbered_callee_saves@.len() ==> #[trigger] abi::clobber_reg(
                    frame,
                    i,
                ).index != k) ==> #[trigger] v.regs[k] == u.regs[k]),
{
    let rs = frame.clobbered_callee_saves@;
    let n = rs.len();
    let size = frame.spec_sp_to_fp();
    law_prologue(frame, unwind_info, s);
    let t = run(s, prologue(frame, unwind_info))->0;
    assert forall|i: int| 0 <= i < n implies #[trigger] stored(
        u,
        sp(u) + abi::clobber_slot(frame, i),
        abi::clobber_bytes(rs[i].reg),
        saved_value(frame, s, i),
    ) by {
        assert(stored(
            t,
            sp(t) + abi::clobber_slot(frame, i),
            abi::clobber_bytes(rs[i].reg),
            saved_value(frame, s, i),
        ));
        lemma_clobber_start(rs, i);
        abi::lemma_clobber_end_bounds(rs, i as nat);
        abi::lemma_clobber_end_monotone(rs, (i + 1) as nat, n);
    }
    lemma_restore(frame, s, u, n);
    let r = abi::restore_clobbers(frame, n);
    let u1 = run(u, r)->0;
    assert forall|k: int| 0 <= k < n implies #[trigger] abi::clobber_reg(frame, k).index != 1
        && abi::clobber_reg(frame, k).index != 31 by {
        lemma_clobber_reg(frame, k);
    }
    assert(u1.regs[1] == u.regs[1]);
    assert(u1.regs[31] == u.regs[31]);
    let a: Seq<Inst> = if size > 0 {
        abi::sp_adjust(size as u32 as i32 as int)
    } else {
        seq![]
    };
    let u2 = set(u1, abi::sp(), sp(u) + size);
    lemma_sp_adjust(u1, size);
    if size == 0 {
        assert(u2.regs =~= u1.regs);
        assert(run(u1, Seq::<Inst>::empty()) == Some(u1));
    }
    assert(run(u1, a) == Some(u2));
    lemma_run_concat(u, r, a);
    lemma_frame_restore(frame, call_conv, u2, fp(s), s.lr);
    lemma_run_concat(u, r + a, abi::frame_restore(frame, call_conv));
    let v = run(u, epilogue(frame, call_conv))->0;
    assert forall|i: int| 0 <= i < n implies #[trigger] v.regs[abi::clobber_reg(
        frame,
        i,
    ).index as int] == saved_value(frame, s, i) by {
        lemma_clobber_reg(frame, i);
        assert(u1.regs[abi::clobber_reg(frame, i).index as int] == saved_value(frame, s, i));
        assert(u2.regs[abi::clobber_reg(frame, i).index as int] == saved_value(frame, s, i));
    }
    assert forall|k: int|
        1 < k < 192 && k != 31 && (forall|i: int|
            0 <= i < n ==> #[trigger] abi::clobber_reg(frame, i).index != k) implies #[trigger] v.regs[k]
        == u.regs[k] by {
        assert(u1.regs[k] == u.regs[k]);
        assert(u2.regs[k] == u1.regs[k]);
    }
}

/// Whether a register is one that a function finds and leaves with the same value:
/// r14 to r31, f14 to f31 and v20 to v31, which stand 64 apart by class. Under the
/// convention that preserves all, every one but r0 and the stack pointer.
pub open spec fn is_preserved(call_conv: CallConv, k: int) -> bool {
    ||| 14 <= k <= 31
    ||| 78 <= k <= 95
    ||| 148 <= k <= 159
    ||| call_conv == CallConv::PreserveAll && 1 < k < 192
}

/// Whether a register is among those that a function writes.
pub open spec fn is_written(regs: Seq<Writable<RealReg>>, k: int) -> bool {
    exists|i: int| 0 <= i < regs.len() && (#[trigger] regs[i]).reg.index() == k
}

/// Whether a body does what a function that writes these registers, and makes these
/// calls, may do: it keeps the stack pointer, the frame pointer, every register that it
/// does not write, and the part of its frame that lies above its own slots. A call
/// overwrites the link register.
pub open spec fn body_may(
    frame: FrameLayout,
    regs: Seq<Writable<RealReg>>,
    function_calls: FunctionCalls,
    t: Image,
    u: Image,
) -> bool {
    &&& wf(u)
    &&& sp(u) == sp(t)
    &&& fp(u) == fp(t)
    &&& function_calls == FunctionCalls::Leaf ==> u.lr == t.lr
    &&& forall|k: int|
        0 < k < 192 && !is_written(regs, k) ==> #[trigger] u.regs[k] == t.regs[k]
    &&& forall|x: int|
        sp(t) + frame.spec_sp_to_fp() - frame.clobber_size <= x < sp(t) + frame.spec_sp_to_fp()
            + frame.setup_area_size ==> #[trigger] (u.mem)(x) == (t.mem)(x)
}

/// A function returns to its caller, with what the caller relies upon: from the prologue
/// through a body that writes some registers and makes calls, to the end of the epilogue,
/// the return address is what it was at entry, the stack pointer is where the convention
/// wants it, and every preserved register holds what it did. Where the body makes a call,
/// this is so although the call has overwritten the link register.
pub proof fn law_function_returns(
    frame: FrameLayout,
    call_conv: CallConv,
    flags: SharedFlags,
    regs: Seq<Writable<RealReg>>,
    function_calls: FunctionCalls,
    s: Image,
    u: Image,
)
    requires
        wf(s),
        abi::laid_out(frame, call_conv, flags, regs, function_calls),
        frame_ok(frame),
        body_may(frame, regs, function_calls, run(s, prologue(frame, flags.unwind_info))->0, u),
    ensures
        function_calls != FunctionCalls::Leaf ==> frame.setup_area_size == 16,
        run(u, epilogue(frame, call_conv)) matches Some(v) && v.lr == s.lr && sp(v) == sp_after(
            frame,
            call_conv,
            sp(s),
        ) && v.mem == u.mem && (forall|k: int|
            is_preserved(call_conv, k) ==> #[trigger] v.regs[k] == s.regs[k]),
{
    law_prologue(frame, flags.unwind_info, s);
    let t = run(s, prologue(frame, flags.unwind_info))->0;
    law_epilogue_undoes_prologue(frame, flags.unwind_info, call_conv, s, u);
    let v = run(u, epilogue(frame, call_conv))->0;
    let rs = frame.clobbered_callee_saves@;
    let p = |r: Writable<RealReg>| abi::is_saved(call_conv, r);
    assert forall|k: int| is_preserved(call_conv, k) implies #[trigger] v.regs[k] == s.regs[k] by {
        if k != 31 {
            if is_written(regs, k) {
                let i = choose|i: int| 0 <= i < regs.len() && (#[trigger] regs[i]).reg.index() == k;
                assert(p(regs[i]));
                broadcast use vstd::seq_lib::group_filter_ensures;

                regs.filter(p).to_multiset_ensures();
                rs.to_multiset_ensures();
                assert(regs.filter(p).contains(regs[i]));
                assert(regs.filter(p).to_multiset().contains(regs[i]));
                assert(rs.to_multiset().contains(regs[i]));
                assert(rs.contains(regs[i]));
                let j = choose|j: int| 0 <= j < rs.len() && rs[j] == regs[i];
                lemma_clobber_reg(frame, j);
                assert(v.regs[abi::clobber_reg(frame, j).index as int] == saved_value(frame, s, j));
            } else if exists|j: int| 0 <= j < rs.len() && #[trigger] abi::clobber_reg(frame, j).index
                == k {
                let j = choose|j: int|
                    0 <= j < rs.len() && #[trigger] abi::clobber_reg(frame, j).index == k;
                assert(v.regs[abi::clobber_reg(frame, j).index as int] == saved_value(frame, s, j));
            } else {
                assert(v.regs[k] == u.regs[k]);
                assert(u.regs[k] == t.regs[k]);
            }
        }
    }
}

// Stack probes.

/// The instructions of inline stack probes.
pub open spec fn inline_probes(frame_size: u32, guard_size: u32) -> Seq<Inst> {
    let count = frame_size / guard_size;
    abi::probes(guard_size, count as nat) + if count > 0 {
        abi::sp_adjust(((guard_size * count) as u32 as i32) as int)
    } else {
        seq![]
    }
}

/// Touching so many guard regions.
proof fn lemma_probes(s: Image, guard_size: u32, n: nat)
    requires
        wf(s),
        4 <= guard_size <= i32::MAX,
    ensures
        run(s, abi::probes(guard_size, n)) matches Some(t) && t.regs == s.regs.update(
            1,
            sp(s) - guard_size * n,
        ) && t.lr == s.lr && (forall|k: int|
            1 <= k <= n ==> #[trigger] stored(t, sp(s) - guard_size * k, 4, s.regs[0])) && (
        forall|x: int| x >= sp(s) ==> #[trigger] (t.mem)(x) == (s.mem)(x)),
    decreases n,
{
    if n == 0 {
        assert(run(s, Seq::<Inst>::empty()) == Some(s));
        assert(guard_size * n == 0) by (nonlinear_arith)
            requires
                n == 0,
        ;
        assert(s.regs.update(1, sp(s)) =~= s.regs);
    } else {
        let g = guard_size as int;
        lemma_probes(s, guard_size, (n - 1) as nat);
        let before = abi::probes(guard_size, (n - 1) as nat);
        let a = abi::sp_adjust(-(guard_size as i32));
        let st = abi::store_sp(0, abi::r0(), Type::I32);
        let m = run(s, before)->0;
        assert(g * (n - 1) == g * n - g) by (nonlinear_arith);
        assert(g * (n - 1) >= 0) by (nonlinear_arith)
            requires
                g >= 0,
                n >= 1,
        ;
        lemma_sp_adjust(m, -g);
        let m1 = set(m, abi::sp(), sp(m) - g);
        lemma_run_concat(s, before, a);
        let t = write(m1, sp(m1), 4, s.regs[0]);
        lemma_run_one(m1, st);
        lemma_run_concat(s, before + a, seq![st]);
        assert(exec(m1, st) == Some(t));
        assert(t.regs =~= s.regs.update(1, sp(s) - g * n));
        assert forall|k: int| 1 <= k <= n implies #[trigger] stored(
            t,
            sp(s) - guard_size * k,
            4,
            s.regs[0],
        ) by {
            if k < n {
                assert(stored(m, sp(s) - guard_size * k, 4, s.regs[0]));
                assert(g * k <= g * (n - 1)) by (nonlinear_arith)
                    requires
                        g >= 0,
                        k <= n - 1,
                ;
            }
        }
    }
}

/// Inline stack probes touch every guard region of the frame, one after the other
/// from the top, and leave the registers as they were.
pub proof fn law_probes_touch_every_guard(s: Image, frame_size: u32, guard_size: u32)
    requires
        wf(s),
        4 <= guard_size <= i32::MAX,
        frame_size <= i32::MAX,
    ensures
        run(s, inline_probes(frame_size, guard_size)) matches Some(t) && t.regs == s.regs && t.lr
            == s.lr && (forall|k: int|
            1 <= k <= frame_size / guard_size ==> #[trigger] stored(
                t,
                sp(s) - guard_size * k,
                4,
                s.regs[0],
            )) && (forall|x: int| x >= sp(s) ==> #[trigger] (t.mem)(x) == (s.mem)(x)),
{
    let count = frame_size / guard_size;
    let total = guard_size * count;
    assert(0 <= guard_size * (frame_size / guard_size) <= frame_size) by (nonlinear_arith)
        requires
            guard_size > 0,
    ;
    lemma_probes(s, guard_size, count as nat);
    let ps = abi::probes(guard_size, count as nat);
    let m = run(s, ps)->0;
    if count > 0 {
        lemma_sp_adjust(m, total);
        lemma_run_concat(s, ps, abi::sp_adjust(total));
        assert(m.regs.update(1, sp(s)) =~= s.regs);
        let t = set(m, abi::sp(), sp(m) + total);
        assert forall|k: int| 1 <= k <= count implies #[trigger] stored(
            t,
            sp(s) - guard_size * k,
            4,
            s.regs[0],
        ) by {
            assert(stored(m, sp(s) - guard_size * k, 4, s.regs[0]));
        }
    } else {
        assert(ps + Seq::<Inst>::empty() =~= ps);
        assert(guard_size * 0 == 0) by (nonlinear_arith);
        assert(s.regs.update(1, sp(s)) =~= s.regs);
    }
}

} // verus!
