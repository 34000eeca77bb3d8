//! Emission of loads, stores and addresses.
use vstd::prelude::*;
use crate::args::{AMode, LoadOP, StoreOP, CR0_LT};
use crate::buffer::{BufferView, MachBuffer, MachLabel};
use crate::emit_int;
use crate::emit_int::{emit_b_to_label, emit_bc_to_label, emit_constant, emit_island};
use crate::encode::{
    enc_b, enc_bctr, enc_cmp, enc_cmpi, enc_d, enc_ds, enc_md, enc_mflr, enc_mtctr, enc_x,
    enc_xo, enc_xxpermdi, enc_vsx_x, reg_num, vsr_num, BCL_20_31_PLUS4, VEC_SCRATCH,
};
use crate::frame::FrameLayout;
use crate::ir::{ExternalName, MemFlagsData, Reloc};
use crate::label_use::LabelUse;
use crate::mnem;
use crate::regs::Reg;

verus! {

/// A mode that an access can be emitted for: its offset is known, and its base
/// is a physical register other than r0, which would read as zero.
pub open spec fn addressable(mem: AMode, frame: FrameLayout) -> bool {
    &&& mem.resolvable(frame)
    &&& mem.base().is_real()
    &&& mem.base().num() != 0
}

/// Whether an offset fits the 16-bit displacement.
pub open spec fn fits_d(offset: int) -> bool {
    -0x8000 <= offset < 0x8000
}

/// The opcodes of a scalar access: that of the displacement form, the extended
/// opcode of that form if it wants a displacement in whole words, and that of
/// the indexed form.
pub struct Access {
    pub d_opcd: u32,
    pub ds_xo: Option<u32>,
    pub x_xo: u32,
}

impl Access {
    /// Opcodes that fit their fields.
    pub open spec fn wf(self) -> bool {
        &&& self.d_opcd < 64
        &&& self.x_xo < 1024
        &&& self.ds_xo matches Some(xo) ==> xo < 4
    }
}

/// The opcodes of a load.
pub open spec fn load_access(op: LoadOP) -> Access {
    match op {
        LoadOP::Lbz => Access { d_opcd: 34, ds_xo: None, x_xo: 87 },
        LoadOP::Lhz => Access { d_opcd: 40, ds_xo: None, x_xo: 279 },
        LoadOP::Lwz => Access { d_opcd: 32, ds_xo: None, x_xo: 23 },
        LoadOP::Ld => Access { d_opcd: 58, ds_xo: Some(0), x_xo: 21 },
        LoadOP::Lfs => Access { d_opcd: 48, ds_xo: None, x_xo: 535 },
        LoadOP::Lfd => Access { d_opcd: 50, ds_xo: None, x_xo: 599 },
    }
}

/// The opcodes of a load.
pub fn load_opcodes(op: LoadOP) -> (a: Access)
    ensures
        a == load_access(op),
        a.wf(),
{
    match op {
        LoadOP::Lbz => Access { d_opcd: 34, ds_xo: None, x_xo: 87 },
        LoadOP::Lhz => Access { d_opcd: 40, ds_xo: None, x_xo: 279 },
        LoadOP::Lwz => Access { d_opcd: 32, ds_xo: None, x_xo: 23 },
        LoadOP::Ld => Access { d_opcd: 58, ds_xo: Some(0), x_xo: 21 },
        LoadOP::Lfs => Access { d_opcd: 48, ds_xo: None, x_xo: 535 },
        LoadOP::Lfd => Access { d_opcd: 50, ds_xo: None, x_xo: 599 },
    }
}

/// The opcodes of a store.
pub open spec fn store_access(op: StoreOP) -> Access {
    match op {
        StoreOP::Stb => Access { d_opcd: 38, ds_xo: None, x_xo: 215 },
        StoreOP::Sth => Access { d_opcd: 44, ds_xo: None, x_xo: 407 },
        StoreOP::Stw => Access { d_opcd: 36, ds_xo: None, x_xo: 151 },
        StoreOP::Std => Access { d_opcd: 62, ds_xo: Some(0), x_xo: 149 },
        StoreOP::Stfs => Access { d_opcd: 52, ds_xo: None, x_xo: 663 },
        StoreOP::Stfd => Access { d_opcd: 54, ds_xo: None, x_xo: 727 },
    }
}

/// The opcodes of a store.
pub fn store_opcodes(op: StoreOP) -> (a: Access)
    ensures
        a == store_access(op),
        a.wf(),
{
    match op {
        StoreOP::Stb => Access { d_opcd: 38, ds_xo: None, x_xo: 215 },
        StoreOP::Sth => Access { d_opcd: 44, ds_xo: None, x_xo: 407 },
        StoreOP::Stw => Access { d_opcd: 36, ds_xo: None, x_xo: 151 },
        StoreOP::Std => Access { d_opcd: 62, ds_xo: Some(0), x_xo: 149 },
        StoreOP::Stfs => Access { d_opcd: 52, ds_xo: None, x_xo: 663 },
        StoreOP::Stfd => Access { d_opcd: 54, ds_xo: None, x_xo: 727 },
    }
}

/// The log with a scalar access: the displacement form where the offset fits
/// it, and else the offset materialized into r0 and the indexed form, in which
/// RB has no reads-as-zero quirk.
pub open spec fn mem_access(
    b: BufferView,
    rt: u32,
    base: u32,
    offset: int,
    a: Access,
) -> BufferView {
    if fits_d(offset) && (a.ds_xo is Some ==> offset % 4 == 0) {
        match a.ds_xo {
            Some(xo2) => b.word(mnem::ds_access(a.d_opcd, rt, base, offset as i16, xo2)),
            None => b.word(mnem::d_access(a.d_opcd, rt, base, offset as i16 as u16)),
        }
    } else {
        b.words(emit_int::load_constant(0, offset as i64 as u64)).word(
            mnem::x_access(rt, base, 0, a.x_xo),
        )
    }
}

/// Emit the access of a scalar at an addressing mode.
pub(crate) fn emit_mem_access(
    sink: &mut MachBuffer,
    frame: &FrameLayout,
    mem: AMode,
    rt: u32,
    a: Access,
)
    requires
        addressable(mem, *frame),
        rt < 32,
        a.wf(),
        old(sink)@.size + 24 <= u32::MAX,
    ensures
        final(sink)@ == mem_access(old(sink)@, rt, mem.base().num(), mem.offset(*frame), a),
        final(sink)@.size <= old(sink)@.size + 24,
{
    let (base, offset) = mem.to_base_and_offset(frame);
    let base_n: u32 = reg_num(base);
    let fits_d: bool = -0x8000 <= offset && offset < 0x8000;
    let whole_words: bool = offset % 4 == 0;
    if fits_d && (a.ds_xo.is_none() || whole_words) {
        let imm: i16 = offset as i16;
        match a.ds_xo {
            Some(xo2) => sink.put4(enc_ds(a.d_opcd, rt, base_n, imm, xo2)),
            None => sink.put4(enc_d(a.d_opcd, rt, base_n, imm as u16)),
        }
    } else {
        emit_constant(sink, 0, offset as u64);
        sink.put4(enc_x(rt, base_n, 0, a.x_xo));
    }
}

/// The log with the trap record that the flags of an access ask for.
pub open spec fn flagged(b: BufferView, flags: MemFlagsData) -> BufferView {
    match flags.trap {
        Some(code) => b.trap(code),
        None => b,
    }
}

/// Note the trap that an access may raise.
pub(crate) fn emit_flags(sink: &mut MachBuffer, flags: MemFlagsData)
    ensures
        final(sink)@ == flagged(old(sink)@, flags),
{
    if let Some(trap_code) = flags.trap_code() {
        sink.add_trap(trap_code);
    }
}

/// The log with an address: one `addi` where the offset fits it, and else the
/// offset materialized into r0 and added.
pub open spec fn load_addr(b: BufferView, rd: u32, base: u32, offset: int) -> BufferView {
    if fits_d(offset) {
        b.word(mnem::addi(rd, base, offset as i16 as u16))
    } else {
        b.words(emit_int::load_constant(0, offset as i64 as u64)).word(mnem::add_d(rd, base, 0))
    }
}

/// Emit the computation of an address.
pub(crate) fn emit_load_addr(sink: &mut MachBuffer, frame: &FrameLayout, rd: u32, mem: AMode)
    requires
        addressable(mem, *frame),
        rd < 32,
        old(sink)@.size + 24 <= u32::MAX,
    ensures
        final(sink)@ == load_addr(old(sink)@, rd, mem.base().num(), mem.offset(*frame)),
        final(sink)@.size <= old(sink)@.size + 24,
{
    let (base, offset) = mem.to_base_and_offset(frame);
    let base_n: u32 = reg_num(base);
    if -0x8000 <= offset && offset < 0x8000 {
        sink.put4(enc_d(14, rd, base_n, offset as i16 as u16));
    } else {
        emit_constant(sink, 0, offset as u64);
        sink.put4(enc_xo(rd, base_n, 0, 266));
    }
}

/// The log before an indexed vector access: nothing for a zero offset, and else
/// the offset in r0.
pub open spec fn vec_ea_setup(b: BufferView, offset: int) -> BufferView {
    if offset == 0 {
        b
    } else {
        b.words(emit_int::load_constant(0, offset as i64 as u64))
    }
}

/// The fields RA and RB of an indexed vector access. With a zero offset the base
/// goes in RB and RA is the literal zero.
pub open spec fn vec_ea(base: u32, offset: int) -> (u32, u32) {
    if offset == 0 {
        (0, base)
    } else {
        (base, 0)
    }
}

/// Resolve an addressing mode for the vector accesses, which are indexed only:
/// gives back the fields RA and RB.
pub(crate) fn vec_mem_ea(sink: &mut MachBuffer, frame: &FrameLayout, mem: AMode) -> (r: (u32, u32))
    requires
        addressable(mem, *frame),
        old(sink)@.size + 20 <= u32::MAX,
    ensures
        final(sink)@ == vec_ea_setup(old(sink)@, mem.offset(*frame)),
        final(sink)@.size <= old(sink)@.size + 20,
        r == vec_ea(mem.base().num(), mem.offset(*frame)),
        r.0 < 32,
        r.1 < 32,
{
    let (base, offset) = mem.to_base_and_offset(frame);
    let base_n: u32 = reg_num(base);
    if offset == 0 {
        (0, base_n)
    } else {
        emit_constant(sink, 0, offset as u64);
        (base_n, 0)
    }
}

/// The log with a vector load from the address `ra + rb`: one instruction from
/// ISA 3.0 on; before that, one that loads the doublewords the other way round,
/// and a swap.
pub open spec fn vec_load_words(
    b: BufferView,
    t: u32,
    ra: u32,
    rb: u32,
    isa_3_0: bool,
) -> BufferView {
    if isa_3_0 {
        b.word(mnem::lxvx(t, ra, rb))
    } else {
        b.word(mnem::lxvd2x(t, ra, rb)).word(mnem::xxswapd(t, t))
    }
}

/// Emit a vector load from the address `ra + rb`.
pub(crate) fn emit_vec_load_words(sink: &mut MachBuffer, t: u32, ra: u32, rb: u32, isa_3_0: bool)
    requires
        t < 64,
        ra < 32,
        rb < 32,
        old(sink)@.size + 8 <= u32::MAX,
    ensures
        final(sink)@ == vec_load_words(old(sink)@, t, ra, rb, isa_3_0),
        final(sink)@.size <= old(sink)@.size + 8,
{
    if isa_3_0 {
        sink.put4(enc_vsx_x(t, ra, rb, 268));
    } else {
        sink.put4(enc_vsx_x(t, ra, rb, 844));
        sink.put4(enc_xxpermdi(t, t, t, 2));
    }
}

/// The log with a vector store to the address `ra + rb`: before ISA 3.0 the
/// doublewords are swapped in the scratch register v0 first.
pub open spec fn vec_store_words(
    b: BufferView,
    s: u32,
    ra: u32,
    rb: u32,
    isa_3_0: bool,
) -> BufferView {
    if isa_3_0 {
        b.word(mnem::stxvx(s, ra, rb))
    } else {
        b.word(mnem::xxswapd(VEC_SCRATCH, s)).word(mnem::stxvd2x(VEC_SCRATCH, ra, rb))
    }
}

/// Emit a vector store to the address `ra + rb`. Spill stores are emitted where
/// no temporary can be allocated, hence the reserved scratch register.
pub(crate) fn emit_vec_store_words(sink: &mut MachBuffer, s: u32, ra: u32, rb: u32, isa_3_0: bool)
    requires
        s < 64,
        ra < 32,
        rb < 32,
        old(sink)@.size + 8 <= u32::MAX,
    ensures
        final(sink)@ == vec_store_words(old(sink)@, s, ra, rb, isa_3_0),
        final(sink)@.size <= old(sink)@.size + 8,
{
    if isa_3_0 {
        sink.put4(enc_vsx_x(s, ra, rb, 396));
    } else {
        sink.put4(enc_xxpermdi(VEC_SCRATCH, s, s, 2));
        sink.put4(enc_vsx_x(VEC_SCRATCH, ra, rb, 972));
    }
}

/// The log with a vector load at an addressing mode.
pub open spec fn vec_load(
    b: BufferView,
    t: u32,
    base: u32,
    offset: int,
    isa_3_0: bool,
) -> BufferView {
    let (ra, rb) = vec_ea(base, offset);
    vec_load_words(vec_ea_setup(b, offset), t, ra, rb, isa_3_0)
}

/// Emit a vector load at an addressing mode.
pub(crate) fn emit_vec_load(
    sink: &mut MachBuffer,
    frame: &FrameLayout,
    rd: Reg,
    from: AMode,
    isa_3_0: bool,
)
    requires
        rd.is_real(),
        addressable(from, *frame),
        old(sink)@.size + 28 <= u32::MAX,
    ensures
        final(sink)@ == vec_load(
            old(sink)@,
            rd.vsr(),
            from.base().num(),
            from.offset(*frame),
            isa_3_0,
        ),
        final(sink)@.size <= old(sink)@.size + 28,
{
    let t: u32 = vsr_num(rd);
    let (ra, rb) = vec_mem_ea(sink, frame, from);
    emit_vec_load_words(sink, t, ra, rb, isa_3_0);
}

/// The log with a vector store at an addressing mode.
pub open spec fn vec_store(
    b: BufferView,
    s: u32,
    base: u32,
    offset: int,
    isa_3_0: bool,
) -> BufferView {
    let (ra, rb) = vec_ea(base, offset);
    vec_store_words(vec_ea_setup(b, offset), s, ra, rb, isa_3_0)
}

/// Emit a vector store at an addressing mode.
pub(crate) fn emit_vec_store(
    sink: &mut MachBuffer,
    frame: &FrameLayout,
    to: AMode,
    rs: Reg,
    isa_3_0: bool,
)
    requires
        rs.is_real(),
        addressable(to, *frame),
        old(sink)@.size + 28 <= u32::MAX,
    ensures
        final(sink)@ == vec_store(
            old(sink)@,
            rs.vsr(),
            to.base().num(),
            to.offset(*frame),
            isa_3_0,
        ),
        final(sink)@.size <= old(sink)@.size + 28,
{
    let s: u32 = vsr_num(rs);
    let (ra, rb) = vec_mem_ea(sink, frame, to);
    emit_vec_store_words(sink, s, ra, rb, isa_3_0);
}

/// The log with a load of a vector of 64 bits at an addressing mode. The doubleword
/// goes into the first half of the register, where memory order and lane order agree.
pub open spec fn vec_load64(b: BufferView, t: u32, base: u32, offset: int) -> BufferView {
    let (ra, rb) = vec_ea(base, offset);
    vec_ea_setup(b, offset).word(mnem::lxsdx(t, ra, rb))
}

/// Emit a load of a vector of 64 bits at an addressing mode.
pub(crate) fn emit_vec_load64(sink: &mut MachBuffer, frame: &FrameLayout, rd: Reg, from: AMode)
    requires
        rd.is_real(),
        addressable(from, *frame),
        old(sink)@.size + 24 <= u32::MAX,
    ensures
        final(sink)@ == vec_load64(
            old(sink)@,
            rd.vsr(),
            from.base().num(),
            from.offset(*frame),
        ),
        final(sink)@.size <= old(sink)@.size + 24,
{
    let t: u32 = vsr_num(rd);
    let (ra, rb) = vec_mem_ea(sink, frame, from);
    sink.put4(enc_vsx_x(t, ra, rb, 588));
}

/// The log with a store of a vector of 64 bits at an addressing mode.
pub open spec fn vec_store64(b: BufferView, s: u32, base: u32, offset: int) -> BufferView {
    let (ra, rb) = vec_ea(base, offset);
    vec_ea_setup(b, offset).word(mnem::stxsdx(s, ra, rb))
}

/// Emit a store of a vector of 64 bits at an addressing mode.
pub(crate) fn emit_vec_store64(sink: &mut MachBuffer, frame: &FrameLayout, to: AMode, rs: Reg)
    requires
        rs.is_real(),
        addressable(to, *frame),
        old(sink)@.size + 24 <= u32::MAX,
    ensures
        final(sink)@ == vec_store64(old(sink)@, rs.vsr(), to.base().num(), to.offset(*frame)),
        final(sink)@.size <= old(sink)@.size + 24,
{
    let s: u32 = vsr_num(rs);
    let (ra, rb) = vec_mem_ea(sink, frame, to);
    sink.put4(enc_vsx_x(s, ra, rb, 716));
}

// Addresses of code and names.

/// The log with the address of a name plus an offset. The program counter is
/// read into the register, and the address is loaded from the literal behind
/// the code, which is skipped.
pub open spec fn load_ext_name(
    b: BufferView,
    rd: u32,
    name: ExternalName,
    offset: i64,
) -> BufferView {
    b.word(BCL_20_31_PLUS4).word(mnem::mflr(rd)).word(mnem::ld(rd, 12, rd)).word(
        mnem::b(12),
    ).reloc(Reloc::Abs8, name, offset).quad(0)
}

/// Emit the address of a name plus an offset. The link register is dead here:
/// the prologue saved it and calls clobber it.
pub(crate) fn emit_load_ext_name(sink: &mut MachBuffer, rd: u32, name: ExternalName, offset: i64)
    requires
        old(sink)@.size + 24 <= u32::MAX,
    ensures
        final(sink)@ == load_ext_name(old(sink)@, rd, name, offset),
{
    sink.put4(BCL_20_31_PLUS4);
    sink.put4(enc_mflr(rd));
    sink.put4(enc_ds(58, rd, rd, 12, 0));
    // Skip the literal.
    sink.put4(enc_b(12, false));
    sink.add_reloc(Reloc::Abs8, name, offset);
    sink.put8(0);
}

/// The log with the address of a label: the program counter, and a pair that
/// adds the label's distance once it is known.
pub open spec fn label_address(b: BufferView, rd: u32, label: MachLabel) -> BufferView {
    b.word(BCL_20_31_PLUS4).word(mnem::mflr(rd)).uses(label, LabelUse::PCRelHiLo).word(
        mnem::addis(rd, rd, 0),
    ).word(mnem::addi(rd, rd, 0))
}

/// Emit the address of a label.
pub(crate) fn emit_label_address(sink: &mut MachBuffer, rd: u32, label: MachLabel)
    requires
        rd < 32,
        old(sink)@.size + 16 <= u32::MAX,
    ensures
        final(sink)@ == label_address(old(sink)@, rd, label),
{
    sink.put4(BCL_20_31_PLUS4);
    sink.put4(enc_mflr(rd));
    sink.use_label(label, LabelUse::PCRelHiLo);
    sink.put4(enc_d(15, rd, rd, 0));
    sink.put4(enc_d(14, rd, rd, 0));
}

// Branch tables.

/// The log with the compare of an index with the number of table entries.
pub open spec fn table_bound(b: BufferView, ext: u32, addr: u32, n: usize) -> BufferView {
    if n < 0x1_0000 {
        b.word(mnem::compare_logical_imm(1, ext, n as u16))
    } else {
        b.words(emit_int::load_constant(addr, n as u64)).word(mnem::compare_logical(1, ext, addr))
    }
}

/// The log with the entries of a branch table.
pub open spec fn table_entries(b: BufferView, targets: Seq<MachLabel>) -> BufferView
    decreases targets.len(),
{
    if targets.len() == 0 {
        b
    } else {
        emit_int::b_to(table_entries(b, targets.drop_last()), targets.last())
    }
}

/// The log with a branch through a table. The index, whose upper half is
/// undefined, is narrowed and compared with the number of entries; out of range
/// goes to the default. In range, the program counter plus the distance to the
/// table plus the index in words is branched to, which is a branch to the
/// target.
pub open spec fn br_table(
    b: BufferView,
    index: u32,
    addr: u32,
    ext: u32,
    targets: Seq<MachLabel>,
) -> BufferView {
    let n = (targets.len() - 1) as usize;
    let b = emit_int::island(b, (4 * (12 + n)) as u32).word(mnem::clrldi(ext, index, 32));
    let b = table_bound(b, ext, addr, n);
    let compute = b.fresh();
    let b = emit_int::bc_to(b.with_label(), compute, CR0_LT, true);
    let b = emit_int::b_to(b, targets[0]).bind(compute);
    let b = b.word(BCL_20_31_PLUS4).word(mnem::mflr(addr)).word(
        mnem::rldicr(ext, ext, 2, 61),
    ).word(mnem::add_d(addr, addr, ext)).word(mnem::addi(addr, addr, 24)).word(
        mnem::mtctr(addr),
    ).word(mnem::bctr(false));
    table_entries(b, targets.skip(1))
}

/// The number of entries, for a compare with an immediate.
fn short_count(n: usize) -> (r: Option<u16>)
    ensures
        r == (if n < 0x1_0000 {
            Some(n as u16)
        } else {
            None
        }),
{
    if n < 0x1_0000 {
        Some(n as u16)
    } else {
        None
    }
}

fn wide_count(n: usize) -> (r: u64)
    ensures
        r == n,
{
    n as u64
}

fn table_size(n: usize) -> (r: u32)
    requires
        4 * (12 + n) <= u32::MAX,
    ensures
        r == 4 * (12 + n),
{
    ((12 + n) * 4) as u32
}

/// Emit the compare of an index with the number of table entries.
fn emit_table_bound(sink: &mut MachBuffer, ext: u32, addr: u32, n: usize)
    requires
        addr < 32,
        old(sink)@.size + 24 <= u32::MAX,
    ensures
        final(sink)@ == table_bound(old(sink)@, ext, addr, n),
        final(sink)@.size <= old(sink)@.size + 24,
        final(sink)@.labels == old(sink)@.labels,
{
    match short_count(n) {
        Some(n16) => sink.put4(enc_cmpi(10, 0, 1, ext, n16)),
        None => {
            emit_constant(sink, addr, wide_count(n));
            sink.put4(enc_cmp(0, 1, ext, addr, 32));
        },
    }
}

/// Emit a branch through a table. The setup is a fixed number of instructions
/// and each table entry is one, so an island is kept from landing in the middle.
pub(crate) fn emit_br_table(
    sink: &mut MachBuffer,
    index: u32,
    addr: u32,
    ext: u32,
    targets: &Vec<MachLabel>,
)
    requires
        addr < 32,
        ext < 32,
        targets@.len() >= 1,
        4 * (12 + targets@.len()) + 24 <= u32::MAX,
        old(sink)@.room(4 * (12 + targets@.len()) + 24, 2),
    ensures
        final(sink)@ == br_table(old(sink)@, index, addr, ext, targets@),
{
    let n: usize = targets.len() - 1;
    emit_island(sink, table_size(n));

    // The upper half of the index is undefined, so narrow it before comparing.
    sink.put4(enc_md(index, ext, 0, 32, 0));
    emit_table_bound(sink, ext, addr, n);

    let compute = sink.get_label();
    emit_bc_to_label(sink, compute, CR0_LT, true);
    // Out of range: fall through to a branch to the default.
    emit_b_to_label(sink, targets[0]);
    sink.bind_label(compute);

    // Read the program counter, then index into the table that follows. `bcl`
    // leaves LR pointing at the `mflr`, and the five instructions after it plus
    // the `mflr` itself occupy the 24 bytes before the table.
    sink.put4(BCL_20_31_PLUS4);
    sink.put4(enc_mflr(addr));
    sink.put4(enc_md(ext, ext, 2, 61, 1));
    sink.put4(enc_xo(addr, addr, ext, 266));
    sink.put4(enc_d(14, addr, addr, 24));
    sink.put4(enc_mtctr(addr));
    sink.put4(enc_bctr(false));

    let ghost start = sink@;
    let mut i: usize = 1;
    assert(targets@.skip(1).take(0) =~= Seq::<MachLabel>::empty());
    while i < targets.len()
        invariant
            1 <= i <= targets@.len(),
            start.size + 4 * (targets@.len() - 1) <= u32::MAX,
            sink@.size == start.size + 4 * (i - 1),
            sink@ == table_entries(start, targets@.skip(1).take(i - 1)),
        decreases targets@.len() - i,
    {
        assert(targets@.skip(1).take(i as int).drop_last() =~= targets@.skip(1).take(i - 1));
        emit_b_to_label(sink, targets[i]);
        i = i + 1;
    }
    assert(targets@.skip(1).take(i - 1) =~= targets@.skip(1));
}

} // verus!
