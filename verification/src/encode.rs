//! Instruction encoding: pure bit-field helpers.
//!
//! Every Power ISA instruction is 32 bits wide. The field layouts are named as
//! in the ISA manual, which numbers bits from the most significant one; the
//! helpers shift from the least significant one.
use vstd::prelude::*;
use crate::regs::Reg;

verus! {

/// The word made of a primary opcode, three register-sized fields and the
/// eleven low bits.
pub open spec fn word(opcd: u32, f1: u32, f2: u32, f3: u32, low: u32) -> u32 {
    (opcd << 26) | (f1 << 21) | (f2 << 16) | (f3 << 11) | low
}

/// The word made of a primary opcode, two register-sized fields and the
/// sixteen low bits.
pub open spec fn d_word(opcd: u32, f1: u32, f2: u32, low: u32) -> u32 {
    (opcd << 26) | (f1 << 21) | (f2 << 16) | low
}

fn compose(opcd: u32, f1: u32, f2: u32, f3: u32, low: u32) -> (w: u32)
    ensures
        w == word(opcd, f1, f2, f3, low),
{
    (opcd << 26) | (f1 << 21) | (f2 << 16) | (f3 << 11) | low
}

fn compose_d(opcd: u32, f1: u32, f2: u32, low: u32) -> (w: u32)
    ensures
        w == d_word(opcd, f1, f2, low),
{
    (opcd << 26) | (f1 << 21) | (f2 << 16) | low
}

/// One bit of a word, for a flag.
pub open spec fn flag(b: bool) -> u32 {
    if b {
        1
    } else {
        0
    }
}

fn flag_bit(b: bool) -> (n: u32)
    ensures
        n == flag(b),
{
    if b {
        1
    } else {
        0
    }
}

/// The five-bit number of a physical register.
pub fn reg_num(r: Reg) -> (n: u32)
    requires
        r.is_real(),
    ensures
        n == r.num(),
        n < 32,
{
    match r.to_real_reg() {
        Some(rr) => {
            let enc: u32 = rr.hw_enc as u32;
            assert(enc & 31 == enc % 32) by (bit_vector);
            enc & 31
        },
        None => 0,
    }
}

/// The six-bit number of a register among the vector-scalar registers.
pub fn vsr_num(r: Reg) -> (n: u32)
    requires
        r.is_real(),
    ensures
        n == r.vsr(),
        n < 64,
{
    match r.class() {
        crate::regs::RegClass::Vector => reg_num(r) + 32,
        _ => reg_num(r),
    }
}

/// The reserved vector scratch register v0, as a vector-scalar register number.
pub const VEC_SCRATCH: u32 = 32;

/// D-form, arithmetic layout: `opcd | RT | RA | D16`. Used by addi (14), addis
/// (15) and the load and store opcodes. RA = 0 means literal zero for addi,
/// addis and as the base of a load or store.
pub fn enc_d(opcd: u32, rt: u32, ra: u32, imm16: u16) -> (w: u32)
    requires
        opcd < 64,
        rt < 32,
        ra < 32,
    ensures
        w == d_word(opcd, rt, ra, imm16 as u32),
{
    compose_d(opcd, rt, ra, imm16 as u32)
}

/// D-form, logical layout: `opcd | RS | RA | UI16`, destination in RA. Used by
/// ori (24), oris (25), xori (26), xoris (27) and andi. (28).
pub fn enc_d_logic(opcd: u32, rs: u32, ra: u32, uimm16: u16) -> (w: u32)
    requires
        opcd < 64,
        rs < 32,
        ra < 32,
    ensures
        w == d_word(opcd, rs, ra, uimm16 as u32),
{
    compose_d(opcd, rs, ra, uimm16 as u32)
}

/// The word of a DS-form instruction.
pub open spec fn ds_word(opcd: u32, rt: u32, ra: u32, imm16: i16, xo2: u32) -> u32 {
    (opcd << 26) | (rt << 21) | (ra << 16) | (imm16 as u16 as u32 & 0xFFFC) | xo2
}

/// DS-form: `opcd | RT | RA | DS14 | XO2`. The displacement is 4-aligned; its
/// low two bits carry the extended opcode. Used by ld (58/0), lwa (58/2), std
/// (62/0) and stdu (62/1).
pub fn enc_ds(opcd: u32, rt: u32, ra: u32, imm16: i16, xo2: u32) -> (w: u32)
    requires
        imm16 % 4 == 0,
        xo2 < 4,
    ensures
        w == ds_word(opcd, rt, ra, imm16, xo2),
{
    (opcd << 26) | (rt << 21) | (ra << 16) | (imm16 as u16 as u32 & 0xFFFC) | xo2
}

/// X-form with an explicit primary opcode: `opcd | RT | RA | RB | XO10 | Rc`.
/// Primary opcode 31 covers the integer instructions and 63 the floating-point
/// ones, which share this field layout.
pub fn enc_x_opcd(opcd: u32, rt: u32, ra: u32, rb: u32, xo: u32) -> (w: u32)
    requires
        opcd < 64,
        rt < 32,
        ra < 32,
        rb < 32,
        xo < 1024,
    ensures
        w == word(opcd, rt, ra, rb, xo << 1),
{
    compose(opcd, rt, ra, rb, xo << 1)
}

/// X-form: `31 | RT | RA | RB | XO10 | Rc`.
pub fn enc_x(rt: u32, ra: u32, rb: u32, xo: u32) -> (w: u32)
    requires
        rt < 32,
        ra < 32,
        rb < 32,
        xo < 1024,
    ensures
        w == word(31, rt, ra, rb, xo << 1),
{
    enc_x_opcd(31, rt, ra, rb, xo)
}

/// A-form: `opcd | FRT | FRA | FRB | FRC | XO5 | Rc`. `opcd` is 63 for the
/// double-precision forms and 59 for the single-precision ones. `fmul` takes
/// its second operand in FRC rather than FRB.
pub fn enc_a(opcd: u32, frt: u32, fra: u32, frb: u32, frc: u32, xo: u32) -> (w: u32)
    requires
        opcd < 64,
        frt < 32,
        fra < 32,
        frb < 32,
        frc < 32,
        xo < 32,
    ensures
        w == word(opcd, frt, fra, frb, (frc << 6) | (xo << 1)),
{
    compose(opcd, frt, fra, frb, (frc << 6) | (xo << 1))
}

/// XL-form condition-register logical: `19 | BT | BA | BB | XO10 | 0`.
pub fn enc_xl(bt: u32, ba: u32, bb: u32, xo: u32) -> (w: u32)
    requires
        bt < 32,
        ba < 32,
        bb < 32,
        xo < 1024,
    ensures
        w == word(19, bt, ba, bb, xo << 1),
{
    compose(19, bt, ba, bb, xo << 1)
}

/// `cror BT, BA, BB`: BT = BA | BB, over condition-register bits.
pub fn enc_cror(bt: u32, ba: u32, bb: u32) -> (w: u32)
    requires
        bt < 32,
        ba < 32,
        bb < 32,
    ensures
        w == word(19, bt, ba, bb, 449u32 << 1),
{
    enc_xl(bt, ba, bb, 449)
}

/// XX1-form for the GPR/FPR transfers `mtvsrd` (XO 179, GPR to FPR) and
/// `mfvsrd` (XO 51, FPR to GPR). The `vsr` field selects VSR 0-31, which alias
/// the FPRs, so the extension bit is always zero.
pub fn enc_xx1(vsr: u32, gpr: u32, xo: u32) -> (w: u32)
    requires
        vsr < 32,
        gpr < 32,
    ensures
        w == d_word(31, vsr, gpr, xo << 1),
{
    compose_d(31, vsr, gpr, xo << 1)
}

/// XO-form: `31 | RT | RA | RB | OE=0 | XO9 | Rc=0`. Used by add (266), subf
/// (40) and mulld (233).
pub fn enc_xo(rt: u32, ra: u32, rb: u32, xo: u32) -> (w: u32)
    requires
        xo < 512,
    ensures
        w == word(31, rt, ra, rb, xo << 1),
{
    compose(31, rt, ra, rb, xo << 1)
}

/// X-form logical layout: `31 | RS | RA | RB | XO10 | Rc=0`, destination in RA.
/// Used by and (28), or (444), xor (316), extsb (954), extsh (922) and extsw
/// (986).
pub fn enc_x_logic(rs: u32, ra: u32, rb: u32, xo: u32) -> (w: u32)
    ensures
        w == word(31, rs, ra, rb, xo << 1),
{
    compose(31, rs, ra, rb, xo << 1)
}

/// The low bits of an MD-form word: `m[0:4] m[5] | XO3 | sh[5] | Rc=0`.
pub open spec fn md_low(sh: u32, m: u32, xo3: u32) -> u32 {
    ((m & 0x1F) << 6) | ((m >> 5) << 5) | (xo3 << 2) | ((sh >> 5) << 1)
}

/// MD-form rldicl/rldicr: `30 | RS | RA | sh[0:4] | m[0:4] m[5] | XO3 | sh[5] |
/// Rc=0`. `xo3` is 0 for rldicl (clear left), 1 for rldicr (clear right).
pub fn enc_md(rs: u32, ra: u32, sh: u32, m: u32, xo3: u32) -> (w: u32)
    requires
        sh < 64,
        m < 64,
        xo3 < 8,
    ensures
        w == word(30, rs, ra, sh & 0x1F, md_low(sh, m, xo3)),
{
    compose(
        30,
        rs,
        ra,
        sh & 0x1F,
        ((m & 0x1F) << 6) | ((m >> 5) << 5) | (xo3 << 2) | ((sh >> 5) << 1),
    )
}

/// M-form `rlwinm`: `21 | RS | RA | SH | MB | ME | Rc=0`. The word
/// rotate-and-mask instruction, which supplies the shift-by-immediate forms
/// for 32-bit shifts.
pub fn enc_m(rs: u32, ra: u32, sh: u32, mb: u32, me: u32) -> (w: u32)
    requires
        sh < 32,
        mb < 32,
        me < 32,
    ensures
        w == word(21, rs, ra, sh, (mb << 6) | (me << 1)),
{
    compose(21, rs, ra, sh, (mb << 6) | (me << 1))
}

/// XS-form `sradi`: `31 | RS | RA | sh[0:4] | XO9 | sh[5] | Rc=0`.
pub fn enc_xs(rs: u32, ra: u32, sh: u32) -> (w: u32)
    requires
        sh < 64,
    ensures
        w == word(31, rs, ra, sh & 0x1F, (413u32 << 2) | ((sh >> 5) << 1)),
{
    compose(31, rs, ra, sh & 0x1F, (413u32 << 2) | ((sh >> 5) << 1))
}

/// The field `BF | 0 | L` of a compare.
pub open spec fn bf_l(bf: u32, l: u32) -> u32 {
    (bf << 2) | l
}

/// A 16-bit immediate, at the width of a word.
pub open spec fn imm_field(imm: u16) -> u32 {
    imm as u32
}

fn widen(imm: u16) -> (w: u32)
    ensures
        w == imm_field(imm),
{
    imm as u32
}

/// Compare, X-form: `31 | BF | 0 | L | RA | RB | XO10 | 0`. `xo` is 0 for cmp
/// (signed), 32 for cmpl (logical); `l` selects 64 bits.
pub fn enc_cmp(bf: u32, l: u32, ra: u32, rb: u32, xo: u32) -> (w: u32)
    requires
        bf < 8,
        l < 2,
    ensures
        w == word(31, bf_l(bf, l), ra, rb, xo << 1),
{
    compose(31, (bf << 2) | l, ra, rb, xo << 1)
}

/// Compare immediate, D-form: `opcd | BF | 0 | L | RA | IMM16`. `opcd` is 11
/// for cmpi (signed) or 10 for cmpli (logical).
pub fn enc_cmpi(opcd: u32, bf: u32, l: u32, ra: u32, imm: u16) -> (w: u32)
    requires
        opcd == 10 || opcd == 11,
        bf < 8,
        l < 2,
    ensures
        w == d_word(opcd, bf_l(bf, l), ra, imm_field(imm)),
{
    compose_d(opcd, (bf << 2) | l, ra, widen(imm))
}

/// isel, A-form: `31 | RT | RA | RB | BC5 | 15 | 0`. RT becomes, if CR bit `bc`
/// is set, zero where RA is zero and else GPR RA; if it is clear, GPR RB.
pub fn enc_isel(rt: u32, ra: u32, rb: u32, bc: u32) -> (w: u32)
    requires
        bc < 32,
    ensures
        w == word(31, rt, ra, rb, (bc << 6) | (15u32 << 1)),
{
    compose(31, rt, ra, rb, (bc << 6) | (15u32 << 1))
}

/// The word of an I-form branch.
pub open spec fn b_word(off: i32, lk: bool) -> u32 {
    (18u32 << 26) | ((off as u32) & 0x03FF_FFFC) | flag(lk)
}

/// I-form branch: `18 | LI24 | AA | LK`. `off` is a signed byte offset,
/// 4-aligned, within 32 MiB either way.
pub fn enc_b(off: i32, lk: bool) -> (w: u32)
    requires
        off % 4 == 0,
        -0x200_0000 <= off < 0x200_0000,
    ensures
        w == b_word(off, lk),
{
    (18u32 << 26) | ((off as u32) & 0x03FF_FFFC) | flag_bit(lk)
}

/// The word of a B-form branch.
pub open spec fn bc_word(bo: u32, bi: u32, off: i32, lk: bool) -> u32 {
    (16u32 << 26) | (bo << 21) | (bi << 16) | ((off as u32) & 0xFFFC) | flag(lk)
}

/// B-form conditional branch: `16 | BO | BI | BD14 | AA | LK`. `off` is a
/// signed byte offset, 4-aligned, within 32 KiB either way.
pub fn enc_bc(bo: u32, bi: u32, off: i32, lk: bool) -> (w: u32)
    requires
        bo < 32,
        bi < 32,
        off % 4 == 0,
        -0x8000 <= off < 0x8000,
    ensures
        w == bc_word(bo, bi, off, lk),
{
    (16u32 << 26) | (bo << 21) | (bi << 16) | ((off as u32) & 0xFFFC) | flag_bit(lk)
}

/// The BO field for "branch if the CR bit is set" (12) or "clear" (4).
pub open spec fn spec_bo_for(polarity: bool) -> u32 {
    if polarity {
        12
    } else {
        4
    }
}

/// The BO field for "branch if the CR bit is set" (12) or "clear" (4).
#[verifier::when_used_as_spec(spec_bo_for)]
pub fn bo_for(polarity: bool) -> (bo: u32)
    ensures
        bo == spec_bo_for(polarity),
{
    if polarity {
        12
    } else {
        4
    }
}

/// The word of an mfspr or mtspr.
pub open spec fn spr_word(rt: u32, spr: u32, xo: u32) -> u32 {
    word(31, rt, spr & 0x1F, spr >> 5, xo << 1)
}

/// mfspr/mtspr: `31 | RT | spr[5:9] spr[0:4] | XO10 | 0`. The 10-bit SPR field
/// is stored with its halves swapped.
fn enc_spr(rt: u32, spr: u32, xo: u32) -> (w: u32)
    ensures
        w == spr_word(rt, spr, xo),
{
    compose(31, rt, spr & 0x1F, spr >> 5, xo << 1)
}

/// `mflr RT`.
pub fn enc_mflr(rt: u32) -> (w: u32)
    ensures
        w == spr_word(rt, 8, 339),
{
    enc_spr(rt, 8, 339)
}

/// `mtlr RS`.
pub fn enc_mtlr(rs: u32) -> (w: u32)
    ensures
        w == spr_word(rs, 8, 467),
{
    enc_spr(rs, 8, 467)
}

/// `mtctr RS`.
pub fn enc_mtctr(rs: u32) -> (w: u32)
    ensures
        w == spr_word(rs, 9, 467),
{
    enc_spr(rs, 9, 467)
}

/// bclr (blr when BO=20): `19 | BO | BI | 0 | XO=16 | LK`.
pub fn enc_blr() -> (w: u32)
    ensures
        w == word(19, 20, 0, 0, 16u32 << 1),
{
    compose(19, 20, 0, 0, 16u32 << 1)
}

/// bcctr/bcctrl: `19 | BO=20 | 0 | 0 | XO=528 | LK`.
pub fn enc_bctr(lk: bool) -> (w: u32)
    ensures
        w == word(19, 20, 0, 0, (528u32 << 1) | flag(lk)),
{
    compose(19, 20, 0, 0, (528u32 << 1) | flag_bit(lk))
}

/// `bcl 20,31,$+4`: reads the program counter. Branches to the next
/// instruction with LK=1, so that LR holds the address of the following
/// instruction, in the form that leaves the branch predictor's link stack
/// alone.
pub const BCL_20_31_PLUS4: u32 = 0x429F_0005;

/// The unconditional trap: the all-zeros word, which the Power ISA permanently
/// reserves as an invalid instruction. It raises SIGILL with the program
/// counter at the faulting word.
pub const TRAP_INSTRUCTION: u32 = 0;

/// A no-op: `ori r0, r0, 0`.
pub const NOP_INSTRUCTION: u32 = 0x6000_0000;

/// `sync`, the heavyweight barrier.
pub const SYNC: u32 = 0x7C00_04AC;

/// `isync`.
pub const ISYNC: u32 = 0x4C00_012C;

/// fmr, X-form on FPRs: `63 | FRT | 0 | FRB | 72 | 0`.
pub fn enc_fmr(frt: u32, frb: u32) -> (w: u32)
    ensures
        w == word(63, frt, 0, frb, 72u32 << 1),
{
    compose(63, frt, 0, frb, 72u32 << 1)
}

/// `rlwnm` with the full mask, M-form: `23 | RS | RA | RB | MB=0 | ME=31 | 0`.
pub fn enc_rlwnm(rs: u32, ra: u32, rb: u32) -> (w: u32)
    ensures
        w == word(23, rs, ra, rb, 31u32 << 1),
{
    compose(23, rs, ra, rb, 31u32 << 1)
}

/// `rldcl` with the full mask, MDS-form: `30 | RS | RA | RB | MB=0 | XO=8 | 0`.
pub fn enc_rldcl(rs: u32, ra: u32, rb: u32) -> (w: u32)
    ensures
        w == word(30, rs, ra, rb, 8u32 << 1),
{
    compose(30, rs, ra, rb, 8u32 << 1)
}

/// XX2-form on floating-point registers, the lower half of the vector-scalar
/// registers: `60 | T | 0 | B | XO9 | 0 0`.
pub fn enc_fp_xx2(frt: u32, frb: u32, xo: u32) -> (w: u32)
    ensures
        w == word(60, frt, 0, frb, xo << 2),
{
    compose(60, frt, 0, frb, xo << 2)
}

/// XX3-form on floating-point registers, the lower half of the vector-scalar
/// registers: `60 | T | A | B | XO8 | 0 0 0`.
pub fn enc_fp_xx3(frt: u32, fra: u32, frb: u32, xo: u32) -> (w: u32)
    ensures
        w == word(60, frt, fra, frb, xo << 3),
{
    compose(60, frt, fra, frb, xo << 3)
}

/// XX2-form on vector-scalar registers: `60 | T | 0 | B | XO9 | BX TX`.
pub open spec fn xx2_word(t: u32, uim: u32, b: u32, xo: u32) -> u32 {
    word(60, t & 0x1F, uim, b & 0x1F, (xo << 2) | ((b >> 5) << 1) | (t >> 5))
}

/// XX2-form on vector-scalar registers: `60 | T | 0 | B | XO9 | BX TX`. The
/// sixth bit of each register number is kept at the low end.
pub fn enc_xx2(t: u32, b: u32, xo: u32) -> (w: u32)
    requires
        t < 64,
        b < 64,
        xo < 512,
    ensures
        w == xx2_word(t, 0, b, xo),
{
    compose(60, t & 0x1F, 0, b & 0x1F, (xo << 2) | ((b >> 5) << 1) | (t >> 5))
}

/// `xxspltw XT, XB, UIM`: `60 | T | UIM | B | 164 | BX TX`.
pub fn enc_xxspltw(t: u32, b: u32, uim: u32) -> (w: u32)
    requires
        t < 64,
        b < 64,
        uim < 4,
    ensures
        w == xx2_word(t, uim, b, 164),
{
    compose(60, t & 0x1F, uim, b & 0x1F, (164u32 << 2) | ((b >> 5) << 1) | (t >> 5))
}

/// XX3-form on vector-scalar registers: `60 | T | A | B | XO8 | AX BX TX`.
pub open spec fn xx3_word(t: u32, a: u32, b: u32, xo: u32) -> u32 {
    word(60, t & 0x1F, a & 0x1F, b & 0x1F, (xo << 3) | ((a >> 5) << 2) | ((b >> 5) << 1) | (t >> 5))
}

/// XX3-form on vector-scalar registers: `60 | T | A | B | XO8 | AX BX TX`.
pub fn enc_xx3(t: u32, a: u32, b: u32, xo: u32) -> (w: u32)
    requires
        t < 64,
        a < 64,
        b < 64,
        xo < 256,
    ensures
        w == xx3_word(t, a, b, xo),
{
    compose(
        60,
        t & 0x1F,
        a & 0x1F,
        b & 0x1F,
        (xo << 3) | ((a >> 5) << 2) | ((b >> 5) << 1) | (t >> 5),
    )
}

/// The word of an xxpermdi.
pub open spec fn xxpermdi_word(t: u32, a: u32, b: u32, dm: u32) -> u32 {
    xx3_word(t, a, b, (dm << 5) | 10)
}

/// `xxpermdi XT, XA, XB, DM`: `60 | T | A | B | 0 DM 01010 | AX BX TX`.
pub fn enc_xxpermdi(t: u32, a: u32, b: u32, dm: u32) -> (w: u32)
    requires
        t < 64,
        a < 64,
        b < 64,
        dm < 4,
    ensures
        w == xxpermdi_word(t, a, b, dm),
{
    assert((dm << 5) | 10 < 256) by (bit_vector)
        requires
            dm < 4,
    ;
    enc_xx3(t, a, b, (dm << 5) | 10)
}

/// The word of an xxsel.
pub open spec fn xxsel_word(t: u32, a: u32, b: u32, c: u32) -> u32 {
    word(
        60,
        t & 0x1F,
        a & 0x1F,
        b & 0x1F,
        ((c & 0x1F) << 6) | (3u32 << 4) | ((c >> 5) << 3) | ((a >> 5) << 2) | ((b >> 5) << 1) | (t
            >> 5),
    )
}

/// `xxsel XT, XA, XB, XC`: `60 | T | A | B | C | 3 | CX AX BX TX`. A set bit of
/// XC selects the bit of XB, a clear one that of XA.
pub fn enc_xxsel(t: u32, a: u32, b: u32, c: u32) -> (w: u32)
    requires
        t < 64,
        a < 64,
        b < 64,
        c < 64,
    ensures
        w == xxsel_word(t, a, b, c),
{
    compose(
        60,
        t & 0x1F,
        a & 0x1F,
        b & 0x1F,
        ((c & 0x1F) << 6) | (3u32 << 4) | ((c >> 5) << 3) | ((a >> 5) << 2) | ((b >> 5) << 1) | (t
            >> 5),
    )
}

/// VX-form on vector registers: `4 | VRT | VRA | VRB | XO11`.
pub fn enc_vx(vrt: u32, vra: u32, vrb: u32, xo: u32) -> (w: u32)
    requires
        vrt < 32,
        vra < 32,
        vrb < 32,
        xo < 2048,
    ensures
        w == word(4, vrt, vra, vrb, xo),
{
    compose(4, vrt, vra, vrb, xo)
}

/// VA-form on vector registers: `4 | VRT | VRA | VRB | VRC | XO6`.
pub fn enc_va(vrt: u32, vra: u32, vrb: u32, vrc: u32, xo: u32) -> (w: u32)
    requires
        vrt < 32,
        vra < 32,
        vrb < 32,
        vrc < 32,
        xo < 64,
    ensures
        w == word(4, vrt, vra, vrb, (vrc << 6) | xo),
{
    compose(4, vrt, vra, vrb, (vrc << 6) | xo)
}

/// The word of a VSX indexed access.
pub open spec fn vsx_x_word(t: u32, ra: u32, rb: u32, xo: u32) -> u32 {
    word(31, t & 0x1F, ra, rb, (xo << 1) | (t >> 5))
}

/// X-form VSX access, indexed: `31 | T | RA | RB | XO10 | TX`.
pub fn enc_vsx_x(t: u32, ra: u32, rb: u32, xo: u32) -> (w: u32)
    requires
        t < 64,
        ra < 32,
        rb < 32,
        xo < 1024,
    ensures
        w == vsx_x_word(t, ra, rb, xo),
{
    compose(31, t & 0x1F, ra, rb, (xo << 1) | (t >> 5))
}

/// XX1-form transfer between a GPR and any vector-scalar register: `mtvsrd`
/// (XO 179) and `mfvsrd` (XO 51).
pub fn enc_mxvsrd(vsr: u32, gpr: u32, xo: u32) -> (w: u32)
    requires
        vsr < 64,
        gpr < 32,
        xo < 1024,
    ensures
        w == vsx_x_word(vsr, gpr, 0, xo),
{
    compose(31, vsr & 0x1F, gpr, 0, (xo << 1) | (vsr >> 5))
}

} // verus!
