//! The buffer that instructions are emitted into.
//!
//! The buffer is a log of what emission asks for, in order: words of code, and
//! between them the labels, relocations, traps and other records that belong
//! to the place where they stand. Laying the code out, with its islands and
//! resolved labels, starts from this log.
use vstd::prelude::*;
use crate::ir::{CodeOffset, ExternalName, Reloc, TrapCode, Type};
use crate::label_use::LabelUse;
use crate::regs::{RealReg, Reg};

verus! {

/// A position in the code, to be bound when the code there is emitted.
#[derive(Clone, Copy, Debug, PartialEq, Eq, Structural)]
pub struct MachLabel {
    pub index: u32,
}

/// A value that a garbage collector must find in the frame at a call.
#[derive(Clone, Copy, Debug, PartialEq, Eq, Structural)]
pub struct StackMapEntry {
    pub ty: Type,
    pub offset: u32,
}

/// The values that a garbage collector must find in the frame at a call.
#[derive(Debug)]
pub struct UserStackMap {
    pub entries: Vec<StackMapEntry>,
}

/// Where an exception that a call raises goes.
#[derive(Clone, Copy, Debug, PartialEq, Eq, Structural)]
pub enum ExceptionHandler {
    /// The handler of one tag.
    Tag(u32, MachLabel),
    /// The handler of every other tag.
    Default(MachLabel),
    /// The handlers after it belong to a context that is in a register.
    ContextReg(Reg),
    /// The handlers after it belong to a context that lies so many bytes above the
    /// stack pointer.
    ContextAt(u64),
}

/// A record of what the code so far has done to the frame.
#[derive(Clone, Copy, Debug, PartialEq, Eq, Structural)]
pub enum UnwindInst {
    /// The frame record was pushed.
    PushFrameRegs { offset_upward_to_caller_sp: u32 },
    /// The frame pointer was set up.
    DefineNewFrame { offset_upward_to_caller_sp: u32, offset_downward_to_clobbers: u32 },
    /// A callee-saved register was stored, at an offset from the clobber area.
    SaveReg { clobber_offset: u32, reg: RealReg },
}

/// One entry of the log.
#[allow(inconsistent_fields)]
#[derive(Debug)]
pub enum Emission {
    /// A word of code.
    Word(u32),
    /// Eight bytes of data.
    Quad(u64),
    /// The next code uses a label.
    UseLabel { label: MachLabel, kind: LabelUse },
    /// The next word is an unconditional branch, which may be folded away.
    UncondBranch { label: MachLabel },
    /// The next word is a conditional branch, which may be folded away or
    /// replaced by its inverse.
    CondBranch { label: MachLabel, inverted: u32 },
    /// A label is bound here.
    BindLabel { label: MachLabel },
    /// The next word may trap.
    Trap { code: TrapCode },
    /// The next code is relocated against a name.
    Relocation { kind: Reloc, name: ExternalName, addend: i64 },
    /// A call returns here.
    CallSite,
    /// A call that may raise returns here; so many handlers follow.
    TryCallSite { sp_to_fp: u32, handlers: u32 },
    /// A handler of the call site before it.
    Handler { handler: ExceptionHandler },
    /// The stack map of the call that returns here.
    StackMap { map: UserStackMap },
    /// An island with room for so many bytes after it goes here.
    Island { distance: u32 },
    /// A record for the unwinder.
    Unwind { inst: UnwindInst },
}

/// What a buffer holds.
#[verifier::ext_equal]
pub struct BufferView {
    /// The log.
    pub ops: Seq<Emission>,
    /// The number of bytes of code and data in the log.
    pub size: nat,
    /// The number of labels handed out.
    pub labels: nat,
    /// The offset at which the first use of a label goes out of range.
    pub deadline: nat,
}

impl BufferView {
    /// The log with an entry that has no bytes.
    pub open spec fn note(self, op: Emission) -> BufferView {
        BufferView { ops: self.ops.push(op), ..self }
    }

    /// The log with a word of code.
    pub open spec fn word(self, w: u32) -> BufferView {
        BufferView { ops: self.ops.push(Emission::Word(w)), size: self.size + 4, ..self }
    }

    /// The log with words of code.
    pub open spec fn words(self, ws: Seq<u32>) -> BufferView {
        BufferView {
            ops: self.ops + ws.map_values(|w: u32| Emission::Word(w)),
            size: self.size + 4 * ws.len(),
            ..self
        }
    }

    /// The log with eight bytes of data.
    pub open spec fn quad(self, q: u64) -> BufferView {
        BufferView { ops: self.ops.push(Emission::Quad(q)), size: self.size + 8, ..self }
    }

    /// The label that the next request hands out.
    pub open spec fn fresh(self) -> MachLabel {
        MachLabel { index: self.labels as u32 }
    }

    /// The log after a label was handed out.
    pub open spec fn with_label(self) -> BufferView {
        BufferView { labels: self.labels + 1, ..self }
    }

    /// The log with a label bound.
    pub open spec fn bind(self, label: MachLabel) -> BufferView {
        self.note(Emission::BindLabel { label })
    }

    /// The log with a use of a label by the next code.
    pub open spec fn uses(self, label: MachLabel, kind: LabelUse) -> BufferView {
        let reach = self.size + kind.max_pos_range() as nat;
        BufferView {
            ops: self.ops.push(Emission::UseLabel { label, kind }),
            deadline: if reach < self.deadline {
                reach
            } else {
                self.deadline
            },
            ..self
        }
    }

    /// The log with a trap record for the next word.
    pub open spec fn trap(self, code: TrapCode) -> BufferView {
        self.note(Emission::Trap { code })
    }

    /// The log with a relocation of the next code.
    pub open spec fn reloc(self, kind: Reloc, name: ExternalName, addend: i64) -> BufferView {
        self.note(Emission::Relocation { kind, name, addend })
    }

    /// Whether so many more bytes would take a label use out of range.
    pub open spec fn needs_island(self, distance: nat) -> bool {
        self.size + distance > self.deadline
    }

    /// The log with an island, which puts every label use back in range.
    pub open spec fn island(self, distance: u32) -> BufferView {
        BufferView {
            ops: self.ops.push(Emission::Island { distance }),
            deadline: u32::MAX as nat,
            ..self
        }
    }

    /// Whether so many bytes and labels still fit.
    pub open spec fn room(self, bytes: nat, labels: nat) -> bool {
        &&& self.size + bytes <= u32::MAX
        &&& self.labels + labels <= u32::MAX
    }
}

/// The log, and what is counted while it grows.
#[derive(Debug)]
struct Log {
    ops: Vec<Emission>,
    offset: u32,
    next_label: u32,
    deadline: u32,
}

/// The buffer that instructions are emitted into.
#[derive(Debug)]
pub struct MachBuffer {
    log: Log,
}

impl View for MachBuffer {
    type V = BufferView;

    closed spec fn view(&self) -> BufferView {
        BufferView {
            ops: self.log.ops@,
            size: self.log.offset as nat,
            labels: self.log.next_label as nat,
            deadline: self.log.deadline as nat,
        }
    }
}

impl MachBuffer {
    /// The offset is the number of bytes in the log.
    #[verifier::type_invariant]
    spec fn inv(self) -> bool {
        self.log.offset == code_bytes(self.log.ops@).len()
    }

    /// Take the log out, and leave an empty one.
    fn take(&mut self) -> (log: Log)
        ensures
            log == old(self).log,
            sized(old(self)@),
    {
        proof {
            use_type_invariant(&*self);
        }
        let mut log = Log { ops: Vec::new(), offset: 0, next_label: 0, deadline: u32::MAX };
        std::mem::swap(&mut log, &mut self.log);
        log
    }

    /// Note an entry that has no bytes.
    fn record(&mut self, op: Emission)
        requires
            !(op is Word) && !(op is Quad),
        ensures
            final(self)@ == old(self)@.note(op),
    {
        let mut log = self.take();
        log.ops.push(op);
        assert(log.ops@.drop_last() =~= old(self).log.ops@);
        self.log = log;
    }

    /// An empty buffer.
    pub fn new() -> (b: MachBuffer)
        ensures
            b@ == (BufferView {
                ops: Seq::empty(),
                size: 0,
                labels: 0,
                deadline: u32::MAX as nat,
            }),
    {
        MachBuffer {
            log: Log { ops: Vec::new(), offset: 0, next_label: 0, deadline: u32::MAX },
        }
    }

    /// The number of bytes emitted.
    pub fn cur_offset(&self) -> (n: CodeOffset)
        ensures
            n == self@.size,
            n == code_bytes(self@.ops).len(),
    {
        proof {
            use_type_invariant(self);
        }
        self.log.offset
    }

    /// The log.
    pub fn log(&self) -> (ops: &Vec<Emission>)
        ensures
            ops@ == self@.ops,
    {
        &self.log.ops
    }

    /// Emit a word of code.
    pub fn put4(&mut self, w: u32)
        requires
            old(self)@.size + 4 <= u32::MAX,
        ensures
            final(self)@ == old(self)@.word(w),
    {
        let mut log = self.take();
        log.ops.push(Emission::Word(w));
        log.offset = log.offset + 4;
        assert(log.ops@.drop_last() =~= old(self).log.ops@);
        self.log = log;
    }

    /// Emit eight bytes of data.
    pub fn put8(&mut self, q: u64)
        requires
            old(self)@.size + 8 <= u32::MAX,
        ensures
            final(self)@ == old(self)@.quad(q),
    {
        let mut log = self.take();
        log.ops.push(Emission::Quad(q));
        log.offset = log.offset + 8;
        assert(log.ops@.drop_last() =~= old(self).log.ops@);
        self.log = log;
    }

    /// Hand out a new label.
    pub fn get_label(&mut self) -> (label: MachLabel)
        requires
            old(self)@.labels < u32::MAX,
        ensures
            label == old(self)@.fresh(),
            final(self)@ == old(self)@.with_label(),
    {
        let mut log = self.take();
        let label = MachLabel { index: log.next_label };
        log.next_label = log.next_label + 1;
        self.log = log;
        label
    }

    /// Bind a label to the current position.
    pub fn bind_label(&mut self, label: MachLabel)
        ensures
            final(self)@ == old(self)@.bind(label),
    {
        self.record(Emission::BindLabel { label });
    }

    /// Note that the code emitted next uses a label.
    pub fn use_label(&mut self, label: MachLabel, kind: LabelUse)
        ensures
            final(self)@ == old(self)@.uses(label, kind),
    {
        let range: u32 = kind.max_pos_range();
        let mut log = self.take();
        if range <= u32::MAX - log.offset && log.offset + range < log.deadline {
            log.deadline = log.offset + range;
        }
        log.ops.push(Emission::UseLabel { label, kind });
        assert(log.ops@.drop_last() =~= old(self).log.ops@);
        self.log = log;
    }

    /// Note that the word emitted next is an unconditional branch.
    pub fn add_uncond_branch(&mut self, label: MachLabel)
        ensures
            final(self)@ == old(self)@.note(Emission::UncondBranch { label }),
    {
        self.record(Emission::UncondBranch { label });
    }

    /// Note that the word emitted next is a conditional branch with the given
    /// inverse.
    pub fn add_cond_branch(&mut self, label: MachLabel, inverted: u32)
        ensures
            final(self)@ == old(self)@.note(Emission::CondBranch { label, inverted }),
    {
        self.record(Emission::CondBranch { label, inverted });
    }

    /// Note that the word emitted next may trap.
    pub fn add_trap(&mut self, code: TrapCode)
        ensures
            final(self)@ == old(self)@.trap(code),
    {
        self.record(Emission::Trap { code });
    }

    /// Relocate the code emitted next against a name.
    pub fn add_reloc(&mut self, kind: Reloc, name: ExternalName, addend: i64)
        ensures
            final(self)@ == old(self)@.reloc(kind, name, addend),
    {
        self.record(Emission::Relocation { kind, name, addend });
    }

    /// Note that a call returns here.
    pub fn add_call_site(&mut self)
        ensures
            final(self)@ == old(self)@.note(Emission::CallSite),
    {
        self.record(Emission::CallSite);
    }

    /// Note that a call with exception handlers returns here.
    pub fn add_try_call_site(&mut self, sp_to_fp: u32, handlers: &Vec<ExceptionHandler>)
        requires
            handlers@.len() <= u32::MAX,
        ensures
            final(self)@ == old(self)@.try_site(sp_to_fp, handlers@),
    {
        self.record(Emission::TryCallSite { sp_to_fp, handlers: handlers.len() as u32 });
        let ghost start = self@;
        let mut i: usize = 0;
        while i < handlers.len()
            invariant
                i <= handlers@.len(),
                self@ =~= (BufferView {
                    ops: start.ops + handlers@.take(i as int).map_values(
                        |h: ExceptionHandler| Emission::Handler { handler: h },
                    ),
                    ..start
                }),
                start == old(self)@.note(
                    Emission::TryCallSite { sp_to_fp, handlers: handlers@.len() as u32 },
                ),
            decreases handlers@.len() - i,
        {
            self.record(Emission::Handler { handler: handlers[i] });
            i = i + 1;
        }
        assert(handlers@.take(i as int) =~= handlers@);
    }

    /// Attach a stack map to the call that returns here.
    pub fn push_user_stack_map(&mut self, map: UserStackMap)
        ensures
            final(self)@ == old(self)@.note(Emission::StackMap { map }),
    {
        self.record(Emission::StackMap { map });
    }

    /// Note a record for the unwinder.
    pub fn add_unwind(&mut self, inst: UnwindInst)
        ensures
            final(self)@ == old(self)@.note(Emission::Unwind { inst }),
    {
        self.record(Emission::Unwind { inst });
    }

    /// Whether so many more bytes would take a label use out of range.
    pub fn island_needed(&self, distance: u32) -> (b: bool)
        ensures
            b == self@.needs_island(distance as nat),
    {
        self.log.offset as u64 + distance as u64 > self.log.deadline as u64
    }

    /// Put an island here.
    pub fn emit_island(&mut self, distance: u32)
        ensures
            final(self)@ == old(self)@.island(distance),
    {
        let mut log = self.take();
        log.ops.push(Emission::Island { distance });
        log.deadline = u32::MAX;
        assert(log.ops@.drop_last() =~= old(self).log.ops@);
        self.log = log;
    }

    /// The records for the unwinder, each with its offset in the code.
    pub fn unwind_info(&self) -> (v: Vec<(CodeOffset, UnwindInst)>)
        ensures
            v@ == unwind_records(self@.ops),
    {
        proof {
            use_type_invariant(self);
        }
        let mut v: Vec<(CodeOffset, UnwindInst)> = Vec::new();
        let mut at: u32 = 0;
        let mut i: usize = 0;
        while i < self.log.ops.len()
            invariant
                i <= self.log.ops@.len(),
                sized(self@),
                at == code_bytes(self.log.ops@.take(i as int)).len(),
                v@ == unwind_records(self.log.ops@.take(i as int)),
            decreases self.log.ops@.len() - i,
        {
            proof {
                lemma_bytes_monotone(self.log.ops@, i + 1);
            }
            assert(self.log.ops@.take(i + 1).drop_last() =~= self.log.ops@.take(i as int));
            match &self.log.ops[i] {
                Emission::Word(_) => {
                    at = at + 4;
                },
                Emission::Quad(_) => {
                    at = at + 8;
                },
                Emission::Unwind { inst } => {
                    v.push((at, *inst));
                },
                _ => {},
            }
            i = i + 1;
        }
        assert(self.log.ops@.take(i as int) =~= self.log.ops@);
        v
    }

    /// The code and data of the log as bytes.
    pub fn data(&self) -> (d: Vec<u8>)
        ensures
            d@ == code_bytes(self@.ops),
    {
        let mut d: Vec<u8> = Vec::new();
        let mut i: usize = 0;
        while i < self.log.ops.len()
            invariant
                i <= self.log.ops@.len(),
                d@ == code_bytes(self.log.ops@.take(i as int)),
            decreases self.log.ops@.len() - i,
        {
            assert(self.log.ops@.take(i + 1).drop_last() =~= self.log.ops@.take(i as int));
            match &self.log.ops[i] {
                Emission::Word(w) => {
                    push_word(&mut d, *w);
                },
                Emission::Quad(q) => {
                    push_word(&mut d, (*q % 0x1_0000_0000) as u32);
                    push_word(&mut d, (*q / 0x1_0000_0000) as u32);
                },
                _ => {},
            }
            i = i + 1;
        }
        assert(self.log.ops@.take(i as int) =~= self.log.ops@);
        d
    }
}

impl BufferView {
    /// The log with a call site and its exception handlers.
    pub open spec fn try_site(self, sp_to_fp: u32, handlers: Seq<ExceptionHandler>) -> BufferView {
        BufferView {
            ops: self.ops.push(
                Emission::TryCallSite { sp_to_fp, handlers: handlers.len() as u32 },
            ) + handlers.map_values(|h: ExceptionHandler| Emission::Handler { handler: h }),
            ..self
        }
    }
}

/// The bytes of a word, the least significant first.
pub open spec fn word_bytes(w: nat) -> Seq<u8> {
    seq![
        (w % 0x100) as u8,
        (w / 0x100 % 0x100) as u8,
        (w / 0x1_0000 % 0x100) as u8,
        (w / 0x100_0000 % 0x100) as u8,
    ]
}

/// The bytes of a log: those of its words and data, in order.
pub open spec fn code_bytes(ops: Seq<Emission>) -> Seq<u8>
    decreases ops.len(),
{
    if ops.len() == 0 {
        Seq::empty()
    } else {
        let before = code_bytes(ops.drop_last());
        match ops.last() {
            Emission::Word(w) => before + word_bytes(w as nat),
            Emission::Quad(q) => before + word_bytes((q % 0x1_0000_0000) as nat) + word_bytes(
                (q / 0x1_0000_0000) as nat,
            ),
            _ => before,
        }
    }
}

/// Whether the size of a log is the number of its bytes.
pub open spec fn sized(b: BufferView) -> bool {
    b.size == code_bytes(b.ops).len()
}

/// The records for the unwinder, each with its offset in the code.
pub open spec fn unwind_records(ops: Seq<Emission>) -> Seq<(CodeOffset, UnwindInst)>
    decreases ops.len(),
{
    if ops.len() == 0 {
        Seq::empty()
    } else {
        let before = unwind_records(ops.drop_last());
        match ops.last() {
            Emission::Unwind { inst } => before.push(
                (code_bytes(ops.drop_last()).len() as u32, inst),
            ),
            _ => before,
        }
    }
}

/// A log has at least the bytes of its beginning.
proof fn lemma_bytes_monotone(ops: Seq<Emission>, n: int)
    requires
        0 <= n <= ops.len(),
    ensures
        code_bytes(ops.take(n)).len() <= code_bytes(ops).len(),
    decreases ops.len() - n,
{
    if n < ops.len() {
        lemma_bytes_monotone(ops, n + 1);
        assert(ops.take(n + 1).drop_last() =~= ops.take(n));
    } else {
        assert(ops.take(n) =~= ops);
    }
}

fn push_word(d: &mut Vec<u8>, w: u32)
    ensures
        final(d)@ == old(d)@ + word_bytes(w as nat),
{
    d.push((w % 0x100) as u8);
    d.push((w / 0x100 % 0x100) as u8);
    d.push((w / 0x1_0000 % 0x100) as u8);
    d.push((w / 0x100_0000 % 0x100) as u8);
}

} // verus!
