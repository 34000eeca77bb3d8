//! Emission of fixed-point instructions and control flow.
use vstd::prelude::*;
use crate::args::{CondBrTarget, FloatCompare, IntegerCompare, CR0_EQ};
use crate::buffer::{BufferView, Emission, MachBuffer, MachLabel};
use crate::constants;
use crate::constants::{build_constant, build_word, Build};
use crate::encode::{
    bo_for, enc_b, enc_bc, enc_cmp, enc_cmpi, enc_cror, enc_d, enc_d_logic, enc_isel,
    enc_m, enc_md, enc_rldcl, enc_rlwnm, enc_x, enc_x_logic, enc_x_opcd, enc_xo, enc_xs, reg_num,
    TRAP_INSTRUCTION,
};
use crate::inst::{AluImmOp, AluOp, BitOp, DivOp, ShiftOp, UnaryOp};
use crate::ir::TrapCode;
use crate::label_use::LabelUse;
use crate::laws_int;
use crate::mnem;
use crate::words::Words;

verus! {

// Constants.

/// The instructions that materialize `imm` into general-purpose register `rd`.
pub open spec fn load_constant(rd: u32, imm: u64) -> Seq<u32> {
    constants::shortest(imm, rd != 0).map_values(|b: Build| constants::word(rd, b))
}

/// The shortest sequence that materializes `imm` into general-purpose register `rd`, of
/// the instructions that load a halfword (`li`, `lis`), or one in (`ori`, `oris`), rotate
/// and clear bits at an end (`rldicr`, `rldicl`, `rlwinm`) and invert (`nor`), and a last
/// one that may add a halfword (`addi`, `addis`) where the register is not r0. Where that
/// takes no more than two, no fewer instructions of any kind do.
pub fn load_constant_words(rd: u32, imm: u64) -> (words: Words)
    requires
        rd < 32,
    ensures
        words@ == load_constant(rd, imm),
        1 <= words@.len() <= 5,
        laws_int::materialize(rd, imm, words@),
        forall|ws: Seq<u32>| #[trigger]
            laws_int::materialize(rd, imm, ws) && (laws_int::are_builds(rd, ws) || words@.len()
                <= 2) ==> words@.len() <= ws.len(),
{
    proof {
        laws_int::lemma_load_constant(rd, imm);
    }
    let ops = build_constant(imm, rd != 0);
    let mut words = Words::new();
    let mut i: usize = 0;
    while i < ops.len()
        invariant
            rd < 32,
            i <= ops@.len(),
            ops@ == constants::shortest(imm, rd != 0),
            forall|j: int| 0 <= j < ops@.len() ==> constants::valid(#[trigger] ops@[j]),
            words@ == load_constant(rd, imm).take(i as int),
        decreases ops@.len() - i,
    {
        assert(constants::valid(ops@[i as int]));
        words.push(build_word(rd, ops[i]));
        assert(words@ =~= load_constant(rd, imm).take(i + 1));
        i = i + 1;
    }
    assert(words@ =~= load_constant(rd, imm));
    words
}

/// Emit words of code.
pub(crate) fn put_words(sink: &mut MachBuffer, words: &Words)
    requires
        old(sink)@.size + 4 * words@.len() <= u32::MAX,
    ensures
        final(sink)@ == old(sink)@.words(words@),
{
    let ghost start = sink@;
    let mut i: usize = 0;
    assert(words@.take(0) =~= Seq::<u32>::empty());
    assert(start.words(words@.take(0)) =~= start);
    while i < words.len()
        invariant
            i <= words@.len(),
            start.size + 4 * words@.len() <= u32::MAX,
            sink@ == start.words(words@.take(i as int)),
        decreases words@.len() - i,
    {
        let w: u32 = words.at(i);
        sink.put4(w);
        assert(start.words(words@.take(i as int)).word(w) =~= start.words(words@.take(i + 1)));
        i = i + 1;
    }
    assert(words@.take(i as int) =~= words@);
}

/// Emit the materialization of a constant.
pub(crate) fn emit_constant(sink: &mut MachBuffer, rd: u32, imm: u64)
    requires
        rd < 32,
        old(sink)@.size + 20 <= u32::MAX,
    ensures
        final(sink)@ == old(sink)@.words(load_constant(rd, imm)),
        final(sink)@.size <= old(sink)@.size + 20,
{
    let words = load_constant_words(rd, imm);
    put_words(sink, &words);
}

// Control flow.

/// The log with a trap.
pub open spec fn udf(b: BufferView, code: TrapCode) -> BufferView {
    b.trap(code).word(TRAP_INSTRUCTION)
}

/// Emit a trap.
pub(crate) fn emit_udf(sink: &mut MachBuffer, trap_code: TrapCode)
    requires
        old(sink)@.size + 4 <= u32::MAX,
    ensures
        final(sink)@ == udf(old(sink)@, trap_code),
{
    sink.add_trap(trap_code);
    sink.put4(TRAP_INSTRUCTION);
}

/// The log with a conditional branch to a label within one instruction.
pub open spec fn bc_to(b: BufferView, label: MachLabel, bit: u32, polarity: bool) -> BufferView {
    b.uses(label, LabelUse::Branch16).word(mnem::bc(polarity, bit, 0))
}

/// Emit a `bc` to `label` testing a cr0 bit; `polarity` selects whether the
/// branch is taken when the bit is set.
pub(crate) fn emit_bc_to_label(sink: &mut MachBuffer, label: MachLabel, bit: u32, polarity: bool)
    requires
        bit < 32,
        old(sink)@.size + 4 <= u32::MAX,
    ensures
        final(sink)@ == bc_to(old(sink)@, label, bit, polarity),
{
    sink.use_label(label, LabelUse::Branch16);
    sink.put4(enc_bc(bo_for(polarity), bit, 0, false));
}

/// The log with a branch to a label within one instruction.
pub open spec fn b_to(b: BufferView, label: MachLabel) -> BufferView {
    b.uses(label, LabelUse::Branch26).word(mnem::b(0))
}

/// Emit an unconditional `b` to `label`.
pub(crate) fn emit_b_to_label(sink: &mut MachBuffer, label: MachLabel)
    requires
        old(sink)@.size + 4 <= u32::MAX,
    ensures
        final(sink)@ == b_to(old(sink)@, label),
{
    sink.use_label(label, LabelUse::Branch26);
    sink.put4(enc_b(0, false));
}

/// The log with a jump, which may be folded away.
pub open spec fn jump(b: BufferView, label: MachLabel) -> BufferView {
    b.uses(label, LabelUse::Branch26).note(Emission::UncondBranch { label }).word(mnem::b(0))
}

/// Emit a jump.
pub(crate) fn emit_jump(sink: &mut MachBuffer, label: MachLabel)
    requires
        old(sink)@.size + 4 <= u32::MAX,
    ensures
        final(sink)@ == jump(old(sink)@, label),
{
    sink.use_label(label, LabelUse::Branch26);
    sink.add_uncond_branch(label);
    sink.put4(enc_b(0, false));
}

/// The log with an island where one is needed for so many bytes to follow, and
/// a jump around it.
pub open spec fn island(b: BufferView, distance: u32) -> BufferView {
    if b.needs_island(distance as nat) {
        jump(b.with_label(), b.fresh()).island((distance + 4) as u32).bind(b.fresh())
    } else {
        b
    }
}

/// Make sure that an island cannot land in the next so many bytes.
pub(crate) fn emit_island(sink: &mut MachBuffer, distance: u32)
    requires
        distance <= u32::MAX - 4,
        old(sink)@.room(4, 1),
    ensures
        final(sink)@ == island(old(sink)@, distance),
{
    if sink.island_needed(distance) {
        let around = sink.get_label();
        emit_jump(sink, around);
        sink.emit_island(distance + 4);
        sink.bind_label(around);
    }
}

/// The log with a conditional branch, which may be folded away or inverted, and
/// a jump where the condition does not hold.
pub open spec fn two_way(
    b: BufferView,
    taken: MachLabel,
    not_taken: CondBrTarget,
    bit: u32,
    polarity: bool,
) -> BufferView {
    let branched = b.uses(taken, LabelUse::Branch16).note(
        Emission::CondBranch { label: taken, inverted: mnem::bc(!polarity, bit, 0) },
    ).word(mnem::bc(polarity, bit, 0));
    match not_taken {
        CondBrTarget::Label(label) => jump(branched, label),
        CondBrTarget::Fallthrough => branched,
    }
}

fn emit_two_way(
    sink: &mut MachBuffer,
    taken: MachLabel,
    not_taken: CondBrTarget,
    bit: u32,
    polarity: bool,
)
    requires
        bit < 32,
        old(sink)@.size + 8 <= u32::MAX,
    ensures
        final(sink)@ == two_way(old(sink)@, taken, not_taken, bit, polarity),
{
    let code: u32 = enc_bc(bo_for(polarity), bit, 0, false);
    let inverted: u32 = enc_bc(bo_for(!polarity), bit, 0, false);
    sink.use_label(taken, LabelUse::Branch16);
    sink.add_cond_branch(taken, inverted);
    sink.put4(code);
    match not_taken {
        CondBrTarget::Label(label) => emit_jump(sink, label),
        CondBrTarget::Fallthrough => {},
    }
}

// Compares.

/// Whether 64 bits are compared, as the L field.
pub open spec fn l_field(is_64: bool) -> u32 {
    if is_64 {
        1
    } else {
        0
    }
}

fn l_bit(is_64: bool) -> (l: u32)
    ensures
        l == l_field(is_64),
        l < 2,
{
    if is_64 {
        1
    } else {
        0
    }
}

/// Emit `cmpdi` or `cmpwi` of `ra` against a signed 16-bit immediate, into cr0.
pub(crate) fn emit_cmpi(sink: &mut MachBuffer, ra: u32, imm: u16, is_64: bool)
    requires
        ra < 32,
        old(sink)@.size + 4 <= u32::MAX,
    ensures
        final(sink)@ == old(sink)@.word(mnem::compare_imm(l_field(is_64), ra, imm)),
{
    sink.put4(enc_cmpi(11, 0, l_bit(is_64), ra, imm));
}

impl IntegerCompare {
    /// The compare instruction: signed or logical, of 32 or 64 bits.
    pub open spec fn compare_word(self) -> u32 {
        if self.kind.spec_is_signed() {
            mnem::compare(l_field(self.is_64), self.rs1.num(), self.rs2.num())
        } else {
            mnem::compare_logical(l_field(self.is_64), self.rs1.num(), self.rs2.num())
        }
    }

    /// Emit the compare into cr0.
    pub(crate) fn emit_cmp(&self, sink: &mut MachBuffer)
        requires
            self.real_regs(),
            old(sink)@.size + 4 <= u32::MAX,
        ensures
            final(sink)@ == old(sink)@.word(self.compare_word()),
    {
        let l: u32 = l_bit(self.is_64);
        let xo: u32 = if self.is_signed() {
            0
        } else {
            32
        };
        sink.put4(enc_cmp(0, l, reg_num(self.rs1), reg_num(self.rs2), xo));
    }

    /// The conditional branch for this comparison with the given byte offset.
    pub fn enc_bc(&self, off: i32) -> (w: u32)
        requires
            off % 4 == 0,
            -0x8000 <= off < 0x8000,
        ensures
            w == mnem::bc(self.spec_bit_and_polarity().1, self.spec_bit_and_polarity().0, off),
    {
        let (bit, polarity) = self.bit_and_polarity();
        enc_bc(bo_for(polarity), bit, off, false)
    }
}

impl FloatCompare {
    /// The log with the compare and the `cror` that some conditions need.
    pub open spec fn compared(self, b: BufferView) -> BufferView {
        let b = b.word(mnem::compare_fp(self.rs1.num(), self.rs2.num()));
        match self.spec_cr_plan().0 {
            Some((bt, ba, bb)) => b.word(mnem::cror(bt, ba, bb)),
            None => b,
        }
    }

    /// Emit `fcmpu` into cr0, plus the `cror` that some conditions need to
    /// combine two of its result bits. Gives back the cr0 bit to test and the
    /// polarity for which the condition holds.
    pub(crate) fn emit_cmp(&self, sink: &mut MachBuffer) -> (r: (u32, bool))
        requires
            self.real_regs(),
            old(sink)@.size + 8 <= u32::MAX,
        ensures
            final(sink)@ == self.compared(old(sink)@),
            final(sink)@.size <= old(sink)@.size + 8,
            r.0 == self.spec_cr_plan().1,
            r.1 == self.spec_cr_plan().2,
            r.0 < 4,
    {
        sink.put4(enc_x_opcd(63, 0, reg_num(self.rs1), reg_num(self.rs2), 0));
        let (cror, bit, polarity) = self.cr_plan();
        if let Some((bt, ba, bb)) = cror {
            sink.put4(enc_cror(bt, ba, bb));
        }
        (bit, polarity)
    }
}

/// The log with a conditional branch on an integer comparison. The compare
/// stands outside the region that may be folded: inversion is a same-size patch
/// of the branch-option field.
pub open spec fn cond_br(
    b: BufferView,
    taken: MachLabel,
    not_taken: CondBrTarget,
    kind: IntegerCompare,
) -> BufferView {
    let (bit, polarity) = kind.spec_bit_and_polarity();
    two_way(b.word(kind.compare_word()), taken, not_taken, bit, polarity)
}

/// Emit a conditional branch on an integer comparison.
pub(crate) fn emit_cond_br(
    sink: &mut MachBuffer,
    taken: MachLabel,
    not_taken: CondBrTarget,
    kind: IntegerCompare,
)
    requires
        kind.real_regs(),
        old(sink)@.size + 12 <= u32::MAX,
    ensures
        final(sink)@ == cond_br(old(sink)@, taken, not_taken, kind),
{
    kind.emit_cmp(sink);
    let (bit, polarity) = kind.bit_and_polarity();
    emit_two_way(sink, taken, not_taken, bit, polarity);
}

/// The log with a conditional branch on a floating-point comparison.
pub open spec fn fpu_cond_br(
    b: BufferView,
    taken: MachLabel,
    not_taken: CondBrTarget,
    kind: FloatCompare,
) -> BufferView {
    two_way(kind.compared(b), taken, not_taken, kind.spec_cr_plan().1, kind.spec_cr_plan().2)
}

/// Emit a conditional branch on a floating-point comparison.
pub(crate) fn emit_fpu_cond_br(
    sink: &mut MachBuffer,
    taken: MachLabel,
    not_taken: CondBrTarget,
    kind: FloatCompare,
)
    requires
        kind.real_regs(),
        old(sink)@.size + 16 <= u32::MAX,
    ensures
        final(sink)@ == fpu_cond_br(old(sink)@, taken, not_taken, kind),
{
    let (bit, polarity) = kind.emit_cmp(sink);
    emit_two_way(sink, taken, not_taken, bit, polarity);
}

/// The log with a trap on a condition: a branch around it on the inverse.
pub open spec fn trap_if(b: BufferView, kind: IntegerCompare, code: TrapCode) -> BufferView {
    udf(
        cond_br(b.with_label(), b.fresh(), CondBrTarget::Fallthrough, kind.spec_inverse()),
        code,
    ).bind(b.fresh())
}

/// Emit a trap on a condition.
pub(crate) fn emit_trap_if(sink: &mut MachBuffer, kind: IntegerCompare, trap_code: TrapCode)
    requires
        kind.real_regs(),
        old(sink)@.room(12, 1),
    ensures
        final(sink)@ == trap_if(old(sink)@, kind, trap_code),
{
    let label_end = sink.get_label();
    emit_cond_br(sink, label_end, CondBrTarget::Fallthrough, kind.inverse());
    emit_udf(sink, trap_code);
    sink.bind_label(label_end);
}

/// The log with a condition as zero or one.
pub open spec fn bit_to_reg(b: BufferView, rd: u32, bit: u32, polarity: bool) -> BufferView {
    if polarity {
        b.word(mnem::li(rd, 1)).words(load_constant(0, 0)).word(mnem::isel(rd, rd, 0, bit))
    } else {
        b.word(mnem::li(rd, 1)).word(mnem::isel(rd, 0, rd, bit))
    }
}

/// Emit the choice of one or zero by a condition-register bit. `isel` reads RA
/// = 0 as a literal zero, but RB has no such quirk: where the bit selects the
/// one, a real zero goes into r0 first.
pub(crate) fn emit_bit_to_reg(sink: &mut MachBuffer, rd: u32, bit: u32, polarity: bool)
    requires
        rd < 32,
        bit < 32,
        old(sink)@.size + 28 <= u32::MAX,
    ensures
        final(sink)@ == bit_to_reg(old(sink)@, rd, bit, polarity),
        final(sink)@.size <= old(sink)@.size + 28,
{
    sink.put4(enc_d(14, rd, 0, 1));
    if polarity {
        emit_constant(sink, 0, 0);
        sink.put4(enc_isel(rd, rd, 0, bit));
    } else {
        sink.put4(enc_isel(rd, 0, rd, bit));
    }
}

/// The log with a choice of two registers by an integer comparison.
pub open spec fn select(
    b: BufferView,
    rd: u32,
    kind: IntegerCompare,
    rt: u32,
    rf: u32,
) -> BufferView {
    let (bit, polarity) = kind.spec_bit_and_polarity();
    let b = b.word(kind.compare_word());
    if polarity {
        b.word(mnem::isel(rd, rt, rf, bit))
    } else {
        b.word(mnem::isel(rd, rf, rt, bit))
    }
}

/// Emit a choice of two registers. Neither can be r0, which `isel` reads as a
/// literal zero.
pub(crate) fn emit_select(sink: &mut MachBuffer, rd: u32, kind: IntegerCompare, rt: u32, rf: u32)
    requires
        kind.real_regs(),
        rt != 0,
        rf != 0,
        old(sink)@.size + 8 <= u32::MAX,
    ensures
        final(sink)@ == select(old(sink)@, rd, kind, rt, rf),
{
    kind.emit_cmp(sink);
    let (bit, polarity) = kind.bit_and_polarity();
    if polarity {
        sink.put4(enc_isel(rd, rt, rf, bit));
    } else {
        sink.put4(enc_isel(rd, rf, rt, bit));
    }
}

// Single fixed-point instructions.

/// The instruction of a fixed-point operation on two registers. The subtract
/// instructions compute RB - RA.
pub open spec fn alu_rrr(op: AluOp, rd: u32, ra: u32, rb: u32) -> u32 {
    match op {
        AluOp::Add => mnem::add_d(rd, ra, rb),
        AluOp::Sub => mnem::subf(rd, rb, ra),
        AluOp::Addc => mnem::addc(rd, ra, rb),
        AluOp::Adde => mnem::adde(rd, ra, rb),
        AluOp::Subfc => mnem::subfc(rd, rb, ra),
        AluOp::Subfe => mnem::subfe(rd, rb, ra),
        AluOp::Mulld => mnem::mulld(rd, ra, rb),
        AluOp::Mulhd => mnem::mulhd(rd, ra, rb),
        AluOp::Mulhdu => mnem::mulhdu(rd, ra, rb),
        AluOp::Mulhw => mnem::mulhw(rd, ra, rb),
        AluOp::Mulhwu => mnem::mulhwu(rd, ra, rb),
        AluOp::And => mnem::and_x(rd, ra, rb),
        AluOp::Or => mnem::or_x(rd, ra, rb),
        AluOp::Xor => mnem::xor_x(rd, ra, rb),
    }
}

/// The instruction of a fixed-point operation on two registers.
pub fn enc_alu_rrr(op: AluOp, rd: u32, ra: u32, rb: u32) -> (w: u32)
    ensures
        w == alu_rrr(op, rd, ra, rb),
{
    match op {
        AluOp::Add => enc_xo(rd, ra, rb, 266),
        // subf RT,RA,RB computes RB - RA; swap to get ra - rb.
        AluOp::Sub => enc_xo(rd, rb, ra, 40),
        AluOp::Addc => enc_xo(rd, ra, rb, 10),
        AluOp::Adde => enc_xo(rd, ra, rb, 138),
        // The subtract-from forms swap like `subf`.
        AluOp::Subfc => enc_xo(rd, rb, ra, 8),
        AluOp::Subfe => enc_xo(rd, rb, ra, 136),
        AluOp::Mulld => enc_xo(rd, ra, rb, 233),
        AluOp::Mulhd => enc_xo(rd, ra, rb, 73),
        AluOp::Mulhdu => enc_xo(rd, ra, rb, 9),
        AluOp::Mulhw => enc_xo(rd, ra, rb, 75),
        AluOp::Mulhwu => enc_xo(rd, ra, rb, 11),
        AluOp::And => enc_x_logic(ra, rd, rb, 28),
        AluOp::Or => enc_x_logic(ra, rd, rb, 444),
        AluOp::Xor => enc_x_logic(ra, rd, rb, 316),
    }
}

/// The instruction of a fixed-point operation on a register and an immediate.
pub open spec fn alu_rr_imm16(op: AluImmOp, rd: u32, ra: u32, imm: u16) -> u32 {
    match op {
        AluImmOp::Addi => mnem::addi(rd, ra, imm),
        AluImmOp::Andi => mnem::andi_record(rd, ra, imm),
    }
}

/// The instruction of a fixed-point operation on a register and an immediate.
/// `addi` with RA = 0 would mean literal zero.
pub fn enc_alu_rr_imm16(op: AluImmOp, rd: u32, ra: u32, imm: u16) -> (w: u32)
    requires
        rd < 32,
        ra < 32,
        op == AluImmOp::Addi ==> ra != 0,
    ensures
        w == alu_rr_imm16(op, rd, ra, imm),
{
    match op {
        AluImmOp::Addi => enc_d(14, rd, ra, imm),
        AluImmOp::Andi => enc_d_logic(28, ra, rd, imm),
    }
}

/// The instruction of a fixed-point operation on one register.
pub open spec fn unary_rr(op: UnaryOp, rd: u32, rn: u32) -> u32 {
    match op {
        UnaryOp::Neg => mnem::neg(rd, rn),
        UnaryOp::Not => mnem::nor(rd, rn, rn),
    }
}

/// The instruction of a fixed-point operation on one register.
pub fn enc_unary_rr(op: UnaryOp, rd: u32, rn: u32) -> (w: u32)
    ensures
        w == unary_rr(op, rd, rn),
{
    match op {
        UnaryOp::Neg => enc_xo(rd, rn, 0, 104),
        // `nor rd, rn, rn` is the canonical `not`.
        UnaryOp::Not => enc_x_logic(rn, rd, rn, 124),
    }
}

/// Whether a shift by an immediate has an encoding: below the width, except
/// that `srawi` takes whatever it is given.
pub open spec fn shift_imm_ok(op: ShiftOp, n: u32) -> bool {
    if op == ShiftOp::Sraw {
        n < 256
    } else if op.is_64() {
        n < 64
    } else {
        n < 32
    }
}

/// The instruction of a shift or rotate by an immediate.
pub open spec fn shift_rr_imm(op: ShiftOp, rd: u32, ra: u32, n: u32) -> u32 {
    match op {
        ShiftOp::Sld => mnem::rldicr(rd, ra, n, (63 - n) as u32),
        ShiftOp::Srd => mnem::rldicl(rd, ra, ((64 - n) % 64) as u32, n),
        ShiftOp::Srad => mnem::sradi(rd, ra, n),
        ShiftOp::Rotld => mnem::rldicl(rd, ra, n, 0),
        ShiftOp::Slw => mnem::rlwinm(rd, ra, n, 0, (31 - n) as u32),
        ShiftOp::Srw => mnem::rlwinm(rd, ra, ((32 - n) % 32) as u32, n, 31),
        ShiftOp::Sraw => mnem::srawi(rd, ra, n),
        ShiftOp::Rotlw => mnem::rlwinm(rd, ra, n, 0, 31),
    }
}

/// The instruction of a shift or rotate by an immediate.
pub fn enc_shift_rr_imm(op: ShiftOp, rd: u32, ra: u32, imm: u8) -> (w: u32)
    requires
        shift_imm_ok(op, imm as u32),
    ensures
        w == shift_rr_imm(op, rd, ra, imm as u32),
{
    let n: u32 = imm as u32;
    match op {
        // sldi rd, ra, n == rldicr rd, ra, n, 63-n
        ShiftOp::Sld => enc_md(ra, rd, n, 63 - n, 1),
        // srdi rd, ra, n == rldicl rd, ra, 64-n, n. For n = 0 the rotate wraps
        // to 0, which leaves the value alone.
        ShiftOp::Srd => enc_md(ra, rd, (64 - n) % 64, n, 0),
        ShiftOp::Srad => enc_xs(ra, rd, n),
        // rotldi rd, ra, n == rldicl rd, ra, n, 0
        ShiftOp::Rotld => enc_md(ra, rd, n, 0, 0),
        // slwi rd, ra, n == rlwinm rd, ra, n, 0, 31-n
        ShiftOp::Slw => enc_m(ra, rd, n, 0, 31 - n),
        // srwi rd, ra, n == rlwinm rd, ra, 32-n, n, 31
        ShiftOp::Srw => enc_m(ra, rd, (32 - n) % 32, n, 31),
        ShiftOp::Sraw => enc_x_logic(ra, rd, n, 824),
        // rotlwi rd, ra, n == rlwinm rd, ra, n, 0, 31
        ShiftOp::Rotlw => enc_m(ra, rd, n, 0, 31),
    }
}

/// The instruction of a shift or rotate by a register.
pub open spec fn shift_rrr(op: ShiftOp, rd: u32, ra: u32, rb: u32) -> u32 {
    match op {
        ShiftOp::Slw => mnem::slw(rd, ra, rb),
        ShiftOp::Srw => mnem::srw(rd, ra, rb),
        ShiftOp::Sraw => mnem::sraw(rd, ra, rb),
        ShiftOp::Sld => mnem::sld(rd, ra, rb),
        ShiftOp::Srd => mnem::srd(rd, ra, rb),
        ShiftOp::Srad => mnem::srad(rd, ra, rb),
        ShiftOp::Rotlw => mnem::rotlw(rd, ra, rb),
        ShiftOp::Rotld => mnem::rotld(rd, ra, rb),
    }
}

/// The instruction of a shift or rotate by a register.
pub fn enc_shift_rrr(op: ShiftOp, rd: u32, ra: u32, rb: u32) -> (w: u32)
    ensures
        w == shift_rrr(op, rd, ra, rb),
{
    match op {
        ShiftOp::Slw => enc_x_logic(ra, rd, rb, 24),
        ShiftOp::Srw => enc_x_logic(ra, rd, rb, 536),
        ShiftOp::Sraw => enc_x_logic(ra, rd, rb, 792),
        ShiftOp::Sld => enc_x_logic(ra, rd, rb, 27),
        ShiftOp::Srd => enc_x_logic(ra, rd, rb, 539),
        ShiftOp::Srad => enc_x_logic(ra, rd, rb, 794),
        // rotlw rd, ra, rb == rlwnm rd, ra, rb, 0, 31
        ShiftOp::Rotlw => enc_rlwnm(ra, rd, rb),
        // rotld rd, ra, rb == rldcl rd, ra, rb, 0
        ShiftOp::Rotld => enc_rldcl(ra, rd, rb),
    }
}

/// Whether an extension from so many bits has an encoding.
pub open spec fn extend_ok(signed: bool, from_bits: u8) -> bool {
    if signed {
        from_bits == 8 || from_bits == 16 || from_bits == 32
    } else {
        1 <= from_bits <= 64
    }
}

/// The instruction of an extension to 64 bits.
pub open spec fn extend(signed: bool, rd: u32, rn: u32, from_bits: u8) -> u32 {
    if signed {
        if from_bits == 8 {
            mnem::extsb(rd, rn)
        } else if from_bits == 16 {
            mnem::extsh(rd, rn)
        } else {
            mnem::extsw(rd, rn)
        }
    } else {
        mnem::clrldi(rd, rn, (64 - from_bits) as u32)
    }
}

/// The instruction of an extension to 64 bits.
pub fn enc_extend(signed: bool, rd: u32, rn: u32, from_bits: u8) -> (w: u32)
    requires
        extend_ok(signed, from_bits),
    ensures
        w == extend(signed, rd, rn, from_bits),
{
    if signed {
        if from_bits == 8 {
            enc_x_logic(rn, rd, 0, 954)
        } else if from_bits == 16 {
            enc_x_logic(rn, rd, 0, 922)
        } else {
            enc_x_logic(rn, rd, 0, 986)
        }
    } else {
        // rldicl rd, rn, 0, 64-from: clear the high bits.
        enc_md(rn, rd, 0, 64 - from_bits as u32, 0)
    }
}

// Bit counts.

/// The log with a bit count. Without the trailing-zero instructions, trailing
/// zeros are counted as the ones of `(x - 1) & ~x`, which gives the full width
/// for zero; a 32-bit count first sets every bit above the word, so that a zero
/// word gives 32 and what the upper half holds does not matter.
pub open spec fn bit_count(
    b: BufferView,
    op: BitOp,
    rd: u32,
    rn: u32,
    is_64: bool,
    isa_3_0: bool,
) -> BufferView {
    match op {
        BitOp::Clz => b.word(
            if is_64 {
                mnem::cntlzd(rd, rn)
            } else {
                mnem::cntlzw(rd, rn)
            },
        ),
        BitOp::Popcnt => b.word(
            if is_64 {
                mnem::popcntd(rd, rn)
            } else {
                mnem::popcntw(rd, rn)
            },
        ),
        BitOp::Ctz => if isa_3_0 {
            b.word(
                if is_64 {
                    mnem::cnttzd(rd, rn)
                } else {
                    mnem::cnttzw(rd, rn)
                },
            )
        } else if is_64 {
            b.word(mnem::addi(0, rn, 0xFFFF)).word(mnem::andc(0, 0, rn)).word(mnem::popcntd(rd, 0))
        } else {
            b.words(load_constant(0, 0xFFFF_FFFF_0000_0000)).word(mnem::or_x(11, rn, 0)).word(
                mnem::addi(0, 11, 0xFFFF),
            ).word(mnem::andc(0, 0, 11)).word(mnem::popcntd(rd, 0))
        },
    }
}

/// Emit a bit count.
pub(crate) fn emit_bit_count(
    sink: &mut MachBuffer,
    op: BitOp,
    rd: u32,
    rn: u32,
    is_64: bool,
    isa_3_0: bool,
)
    requires
        rd < 32,
        rn < 32,
        old(sink)@.size + 36 <= u32::MAX,
    ensures
        final(sink)@ == bit_count(old(sink)@, op, rd, rn, is_64, isa_3_0),
        final(sink)@.size <= old(sink)@.size + 36,
{
    match op {
        BitOp::Clz => {
            let xo: u32 = if is_64 {
                58
            } else {
                26
            };
            sink.put4(enc_x_logic(rn, rd, 0, xo));
        },
        BitOp::Popcnt => {
            let xo: u32 = if is_64 {
                506
            } else {
                378
            };
            sink.put4(enc_x_logic(rn, rd, 0, xo));
        },
        BitOp::Ctz => if isa_3_0 {
            let xo: u32 = if is_64 {
                570
            } else {
                538
            };
            sink.put4(enc_x_logic(rn, rd, 0, xo));
        } else {
            let src: u32 = if is_64 {
                rn
            } else {
                emit_constant(sink, 0, 0xFFFF_FFFF_0000_0000);
                sink.put4(enc_x_logic(rn, 11, 0, 444));
                11
            };
            sink.put4(enc_d(14, 0, src, 0xFFFF));
            sink.put4(enc_x_logic(0, 0, src, 60));
            sink.put4(enc_x_logic(0, rd, 0, 506));
        },
    }
}

// Division.

/// The log with a check that the divisor is not zero.
pub open spec fn check_divisor(b: BufferView, rb: u32, is_64: bool) -> BufferView {
    udf(
        bc_to(
            b.with_label().word(mnem::compare_imm(l_field(is_64), rb, 0)),
            b.fresh(),
            CR0_EQ,
            false,
        ),
        TrapCode::IntegerDivisionByZero,
    ).bind(b.fresh())
}

/// The least number of the width, as a 64-bit constant.
pub open spec fn min_dividend(is_64: bool) -> u64 {
    if is_64 {
        0x8000_0000_0000_0000
    } else {
        0xFFFF_FFFF_8000_0000
    }
}

/// The log with the result of a division by minus one: a trap for the least
/// number, and else its negation.
pub open spec fn negate_or_trap(b: BufferView, rd: u32, ra: u32, is_64: bool) -> BufferView {
    let b = b.words(load_constant(0, min_dividend(is_64)));
    udf(
        bc_to(
            b.with_label().word(mnem::compare(l_field(is_64), ra, 0)),
            b.fresh(),
            CR0_EQ,
            false,
        ),
        TrapCode::IntegerOverflow,
    ).bind(b.fresh()).word(mnem::neg(rd, ra))
}

/// The log with the case of a divisor that is minus one, which goes on at
/// `done`; every other divisor goes on behind it.
pub open spec fn minus_one_case(
    b: BufferView,
    op: DivOp,
    rd: u32,
    ra: u32,
    rb: u32,
    is_64: bool,
    done: MachLabel,
) -> BufferView {
    let normal = b.fresh();
    let b = bc_to(
        b.with_label().word(mnem::compare_imm(l_field(is_64), rb, 0xFFFF)),
        normal,
        CR0_EQ,
        false,
    );
    let b = if op == DivOp::SDiv {
        negate_or_trap(b, rd, ra, is_64)
    } else {
        b.word(mnem::li(rd, 0))
    };
    b_to(b, done).bind(normal)
}

/// The divide instruction.
pub open spec fn divide(unsigned: bool, is_64: bool, rd: u32, ra: u32, rb: u32) -> u32 {
    if unsigned {
        if is_64 {
            mnem::divdu(rd, ra, rb)
        } else {
            mnem::divwu(rd, ra, rb)
        }
    } else if is_64 {
        mnem::divd(rd, ra, rb)
    } else {
        mnem::divw(rd, ra, rb)
    }
}

/// The modulo instruction.
pub open spec fn modulo(unsigned: bool, is_64: bool, rd: u32, ra: u32, rb: u32) -> u32 {
    if unsigned {
        if is_64 {
            mnem::modud(rd, ra, rb)
        } else {
            mnem::moduw(rd, ra, rb)
        }
    } else if is_64 {
        mnem::modsd(rd, ra, rb)
    } else {
        mnem::modsw(rd, ra, rb)
    }
}

/// The log with the hardware's division or remainder. Without the modulo
/// instructions the remainder is `ra - (ra / rb) * rb`, through r0.
pub open spec fn hardware_divide(
    b: BufferView,
    op: DivOp,
    rd: u32,
    ra: u32,
    rb: u32,
    is_64: bool,
    isa_3_0: bool,
) -> BufferView {
    let unsigned = op == DivOp::UDiv || op == DivOp::URem;
    if op == DivOp::SDiv || op == DivOp::UDiv {
        b.word(divide(unsigned, is_64, rd, ra, rb))
    } else if isa_3_0 {
        b.word(modulo(unsigned, is_64, rd, ra, rb))
    } else {
        b.word(divide(unsigned, is_64, 0, ra, rb)).word(mnem::mulld(0, 0, rb)).word(
            mnem::subf(rd, 0, ra),
        )
    }
}

/// The log with a division or remainder and the checks that it needs.
pub open spec fn divrem(
    b: BufferView,
    op: DivOp,
    rd: u32,
    ra: u32,
    rb: u32,
    is_64: bool,
    isa_3_0: bool,
) -> BufferView {
    let b = check_divisor(b, rb, is_64);
    let done = b.fresh();
    let b = b.with_label();
    let b = if op == DivOp::SDiv || op == DivOp::SRem {
        minus_one_case(b, op, rd, ra, rb, is_64, done)
    } else {
        b
    };
    hardware_divide(b, op, rd, ra, rb, is_64, isa_3_0).bind(done)
}

fn enc_divide(unsigned: bool, is_64: bool, rd: u32, ra: u32, rb: u32) -> (w: u32)
    ensures
        w == divide(unsigned, is_64, rd, ra, rb),
{
    let xo: u32 = match (unsigned, is_64) {
        (false, true) => 489,
        (false, false) => 491,
        (true, true) => 457,
        (true, false) => 459,
    };
    enc_xo(rd, ra, rb, xo)
}

fn enc_modulo(unsigned: bool, is_64: bool, rd: u32, ra: u32, rb: u32) -> (w: u32)
    requires
        rd < 32,
        ra < 32,
        rb < 32,
    ensures
        w == modulo(unsigned, is_64, rd, ra, rb),
{
    // The modulo instructions are X-form, with a 10-bit extended opcode rather
    // than the divides' 9-bit one.
    let xo: u32 = match (unsigned, is_64) {
        (false, true) => 777,
        (false, false) => 779,
        (true, true) => 265,
        (true, false) => 267,
    };
    enc_x(rd, ra, rb, xo)
}

/// Emit a division or remainder, including the checks that the divide
/// instructions do not perform.
///
/// The hardware leaves the result undefined, rather than trapping, when the
/// divisor is zero, and likewise when the least signed number is divided by
/// minus one, so both cases are branched around explicitly. The divisor minus
/// one is special-cased rather than checked and then divided because it is the
/// only value for which the hardware result is unusable: `x / -1` is `-x` and
/// `x % -1` is `0` for every `x`.
pub(crate) fn emit_divrem(
    sink: &mut MachBuffer,
    isa_3_0: bool,
    op: DivOp,
    rd: u32,
    ra: u32,
    rb: u32,
    is_64: bool,
)
    requires
        rd < 32,
        ra < 32,
        rb < 32,
        old(sink)@.room(76, 4),
    ensures
        final(sink)@ == divrem(old(sink)@, op, rd, ra, rb, is_64, isa_3_0),
        final(sink)@.size <= old(sink)@.size + 76,
{
    let l: u32 = l_bit(is_64);

    // Trap if the divisor is zero.
    let after_divz = sink.get_label();
    emit_cmpi(sink, rb, 0, is_64);
    emit_bc_to_label(sink, after_divz, CR0_EQ, false);
    emit_udf(sink, TrapCode::IntegerDivisionByZero);
    sink.bind_label(after_divz);

    let done = sink.get_label();

    match op {
        DivOp::SDiv | DivOp::SRem => {
            // The divisor minus one, which the hardware cannot be trusted with
            // for the least dividend.
            let normal = sink.get_label();
            emit_cmpi(sink, rb, 0xFFFF, is_64);
            emit_bc_to_label(sink, normal, CR0_EQ, false);

            if let DivOp::SDiv = op {
                let min: u64 = if is_64 {
                    0x8000_0000_0000_0000
                } else {
                    0xFFFF_FFFF_8000_0000
                };
                emit_constant(sink, 0, min);
                let no_ovf = sink.get_label();
                sink.put4(enc_cmp(0, l, ra, 0, 0));
                emit_bc_to_label(sink, no_ovf, CR0_EQ, false);
                emit_udf(sink, TrapCode::IntegerOverflow);
                sink.bind_label(no_ovf);
                sink.put4(enc_xo(rd, ra, 0, 104));
            } else {
                sink.put4(enc_d(14, rd, 0, 0));
            }
            emit_b_to_label(sink, done);
            sink.bind_label(normal);
        },
        _ => {},
    }

    match op {
        DivOp::SDiv => sink.put4(enc_divide(false, is_64, rd, ra, rb)),
        DivOp::UDiv => sink.put4(enc_divide(true, is_64, rd, ra, rb)),
        DivOp::SRem | DivOp::URem => {
            let unsigned = match op {
                DivOp::URem => true,
                _ => false,
            };
            if isa_3_0 {
                sink.put4(enc_modulo(unsigned, is_64, rd, ra, rb));
            } else {
                // rd = ra - (ra / rb) * rb, via the r0 scratch.
                sink.put4(enc_divide(unsigned, is_64, 0, ra, rb));
                sink.put4(enc_xo(0, 0, rb, 233));
                sink.put4(enc_xo(rd, 0, ra, 40));
            }
        },
    }

    sink.bind_label(done);
}

} // verus!
