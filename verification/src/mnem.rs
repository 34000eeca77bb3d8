//! The instructions by their mnemonics: what word each one is.
//!
//! The operands stand in the order of the assembly language, destination first.
use vstd::prelude::*;
use crate::encode;

verus! {

// Fixed-point arithmetic with an immediate.

/// `addi RT, RA, SI`, with literal zero for RA = 0.
pub open spec fn addi(rt: u32, ra: u32, si: u16) -> u32 {
    encode::d_word(14, rt, ra, si as u32)
}

/// `addis RT, RA, SI`, with literal zero for RA = 0.
pub open spec fn addis(rt: u32, ra: u32, si: u16) -> u32 {
    encode::d_word(15, rt, ra, si as u32)
}

/// `li RT, SI`.
pub open spec fn li(rt: u32, si: u16) -> u32 {
    addi(rt, 0, si)
}

/// `lis RT, SI`.
pub open spec fn lis(rt: u32, si: u16) -> u32 {
    addis(rt, 0, si)
}

/// `ori RA, RS, UI`.
pub open spec fn ori(ra: u32, rs: u32, ui: u16) -> u32 {
    encode::d_word(24, rs, ra, ui as u32)
}

/// `oris RA, RS, UI`.
pub open spec fn oris(ra: u32, rs: u32, ui: u16) -> u32 {
    encode::d_word(25, rs, ra, ui as u32)
}

/// `andi. RA, RS, UI`.
pub open spec fn andi_record(ra: u32, rs: u32, ui: u16) -> u32 {
    encode::d_word(28, rs, ra, ui as u32)
}

// Fixed-point arithmetic on registers.

/// An XO-form or X-form instruction of primary opcode 31: `RT, RA, RB`.
pub open spec fn xo_form(rt: u32, ra: u32, rb: u32, xo: u32) -> u32 {
    encode::word(31, rt, ra, rb, xo << 1)
}

/// An X-form logical instruction of primary opcode 31: `RA, RS, RB`.
pub open spec fn logic(ra: u32, rs: u32, rb: u32, xo: u32) -> u32 {
    encode::word(31, rs, ra, rb, xo << 1)
}

/// `add RT, RA, RB`.
pub open spec fn add_d(rt: u32, ra: u32, rb: u32) -> u32 {
    xo_form(rt, ra, rb, 266)
}

/// `subf RT, RA, RB`.
pub open spec fn subf(rt: u32, ra: u32, rb: u32) -> u32 {
    xo_form(rt, ra, rb, 40)
}

/// `addc RT, RA, RB`.
pub open spec fn addc(rt: u32, ra: u32, rb: u32) -> u32 {
    xo_form(rt, ra, rb, 10)
}

/// `adde RT, RA, RB`.
pub open spec fn adde(rt: u32, ra: u32, rb: u32) -> u32 {
    xo_form(rt, ra, rb, 138)
}

/// `subfc RT, RA, RB`.
pub open spec fn subfc(rt: u32, ra: u32, rb: u32) -> u32 {
    xo_form(rt, ra, rb, 8)
}

/// `subfe RT, RA, RB`.
pub open spec fn subfe(rt: u32, ra: u32, rb: u32) -> u32 {
    xo_form(rt, ra, rb, 136)
}

/// `mulld RT, RA, RB`.
pub open spec fn mulld(rt: u32, ra: u32, rb: u32) -> u32 {
    xo_form(rt, ra, rb, 233)
}

/// `mulhd RT, RA, RB`.
pub open spec fn mulhd(rt: u32, ra: u32, rb: u32) -> u32 {
    xo_form(rt, ra, rb, 73)
}

/// `mulhdu RT, RA, RB`.
pub open spec fn mulhdu(rt: u32, ra: u32, rb: u32) -> u32 {
    xo_form(rt, ra, rb, 9)
}

/// `mulhw RT, RA, RB`.
pub open spec fn mulhw(rt: u32, ra: u32, rb: u32) -> u32 {
    xo_form(rt, ra, rb, 75)
}

/// `mulhwu RT, RA, RB`.
pub open spec fn mulhwu(rt: u32, ra: u32, rb: u32) -> u32 {
    xo_form(rt, ra, rb, 11)
}

/// `divd RT, RA, RB`.
pub open spec fn divd(rt: u32, ra: u32, rb: u32) -> u32 {
    xo_form(rt, ra, rb, 489)
}

/// `divw RT, RA, RB`.
pub open spec fn divw(rt: u32, ra: u32, rb: u32) -> u32 {
    xo_form(rt, ra, rb, 491)
}

/// `divdu RT, RA, RB`.
pub open spec fn divdu(rt: u32, ra: u32, rb: u32) -> u32 {
    xo_form(rt, ra, rb, 457)
}

/// `divwu RT, RA, RB`.
pub open spec fn divwu(rt: u32, ra: u32, rb: u32) -> u32 {
    xo_form(rt, ra, rb, 459)
}

/// `modsd RT, RA, RB`.
pub open spec fn modsd(rt: u32, ra: u32, rb: u32) -> u32 {
    xo_form(rt, ra, rb, 777)
}

/// `modsw RT, RA, RB`.
pub open spec fn modsw(rt: u32, ra: u32, rb: u32) -> u32 {
    xo_form(rt, ra, rb, 779)
}

/// `modud RT, RA, RB`.
pub open spec fn modud(rt: u32, ra: u32, rb: u32) -> u32 {
    xo_form(rt, ra, rb, 265)
}

/// `moduw RT, RA, RB`.
pub open spec fn moduw(rt: u32, ra: u32, rb: u32) -> u32 {
    xo_form(rt, ra, rb, 267)
}

/// `neg RT, RA`.
pub open spec fn neg(rt: u32, ra: u32) -> u32 {
    xo_form(rt, ra, 0, 104)
}

/// `and RA, RS, RB`.
pub open spec fn and_x(ra: u32, rs: u32, rb: u32) -> u32 {
    logic(ra, rs, rb, 28)
}

/// `andc RA, RS, RB`.
pub open spec fn andc(ra: u32, rs: u32, rb: u32) -> u32 {
    logic(ra, rs, rb, 60)
}

/// `or RA, RS, RB`.
pub open spec fn or_x(ra: u32, rs: u32, rb: u32) -> u32 {
    logic(ra, rs, rb, 444)
}

/// `xor RA, RS, RB`.
pub open spec fn xor_x(ra: u32, rs: u32, rb: u32) -> u32 {
    logic(ra, rs, rb, 316)
}

/// `nor RA, RS, RB`.
pub open spec fn nor(ra: u32, rs: u32, rb: u32) -> u32 {
    logic(ra, rs, rb, 124)
}

/// `nand RA, RS, RB`.
pub open spec fn nand(ra: u32, rs: u32, rb: u32) -> u32 {
    logic(ra, rs, rb, 476)
}

/// `slw RA, RS, RB`.
pub open spec fn slw(ra: u32, rs: u32, rb: u32) -> u32 {
    logic(ra, rs, rb, 24)
}

/// `srw RA, RS, RB`.
pub open spec fn srw(ra: u32, rs: u32, rb: u32) -> u32 {
    logic(ra, rs, rb, 536)
}

/// `sraw RA, RS, RB`.
pub open spec fn sraw(ra: u32, rs: u32, rb: u32) -> u32 {
    logic(ra, rs, rb, 792)
}

/// `sld RA, RS, RB`.
pub open spec fn sld(ra: u32, rs: u32, rb: u32) -> u32 {
    logic(ra, rs, rb, 27)
}

/// `srd RA, RS, RB`.
pub open spec fn srd(ra: u32, rs: u32, rb: u32) -> u32 {
    logic(ra, rs, rb, 539)
}

/// `srad RA, RS, RB`.
pub open spec fn srad(ra: u32, rs: u32, rb: u32) -> u32 {
    logic(ra, rs, rb, 794)
}

/// `mr RA, RS`.
pub open spec fn mr(ra: u32, rs: u32) -> u32 {
    or_x(ra, rs, rs)
}

/// `extsb RA, RS`.
pub open spec fn extsb(ra: u32, rs: u32) -> u32 {
    logic(ra, rs, 0, 954)
}

/// `extsh RA, RS`.
pub open spec fn extsh(ra: u32, rs: u32) -> u32 {
    logic(ra, rs, 0, 922)
}

/// `extsw RA, RS`.
pub open spec fn extsw(ra: u32, rs: u32) -> u32 {
    logic(ra, rs, 0, 986)
}

/// `cntlzd RA, RS`.
pub open spec fn cntlzd(ra: u32, rs: u32) -> u32 {
    logic(ra, rs, 0, 58)
}

/// `cntlzw RA, RS`.
pub open spec fn cntlzw(ra: u32, rs: u32) -> u32 {
    logic(ra, rs, 0, 26)
}

/// `cnttzd RA, RS`.
pub open spec fn cnttzd(ra: u32, rs: u32) -> u32 {
    logic(ra, rs, 0, 570)
}

/// `cnttzw RA, RS`.
pub open spec fn cnttzw(ra: u32, rs: u32) -> u32 {
    logic(ra, rs, 0, 538)
}

/// `popcntd RA, RS`.
pub open spec fn popcntd(ra: u32, rs: u32) -> u32 {
    logic(ra, rs, 0, 506)
}

/// `popcntw RA, RS`.
pub open spec fn popcntw(ra: u32, rs: u32) -> u32 {
    logic(ra, rs, 0, 378)
}

// Rotates and shifts with an immediate.

/// `rldicl RA, RS, SH, MB`.
pub open spec fn rldicl(ra: u32, rs: u32, sh: u32, mb: u32) -> u32 {
    encode::word(30, rs, ra, sh & 0x1F, encode::md_low(sh, mb, 0))
}

/// `rldicr RA, RS, SH, ME`.
pub open spec fn rldicr(ra: u32, rs: u32, sh: u32, me: u32) -> u32 {
    encode::word(30, rs, ra, sh & 0x1F, encode::md_low(sh, me, 1))
}

/// `rlwinm RA, RS, SH, MB, ME`.
pub open spec fn rlwinm(ra: u32, rs: u32, sh: u32, mb: u32, me: u32) -> u32 {
    encode::word(21, rs, ra, sh, (mb << 6) | (me << 1))
}

/// `sradi RA, RS, SH`.
pub open spec fn sradi(ra: u32, rs: u32, sh: u32) -> u32 {
    encode::word(31, rs, ra, sh & 0x1F, (413u32 << 2) | ((sh >> 5) << 1))
}

/// `srawi RA, RS, SH`.
pub open spec fn srawi(ra: u32, rs: u32, sh: u32) -> u32 {
    logic(ra, rs, sh, 824)
}

/// `rotlw RA, RS, RB`.
pub open spec fn rotlw(ra: u32, rs: u32, rb: u32) -> u32 {
    encode::word(23, rs, ra, rb, 31u32 << 1)
}

/// `rotld RA, RS, RB`.
pub open spec fn rotld(ra: u32, rs: u32, rb: u32) -> u32 {
    encode::word(30, rs, ra, rb, 8u32 << 1)
}

/// `clrldi RA, RS, N`.
pub open spec fn clrldi(ra: u32, rs: u32, n: u32) -> u32 {
    rldicl(ra, rs, 0, n)
}

// Compares, into cr0.

/// `cmpw RA, RB`, or `cmpd RA, RB` for L = 1.
pub open spec fn compare(l: u32, ra: u32, rb: u32) -> u32 {
    encode::word(31, encode::bf_l(0, l), ra, rb, 0u32 << 1)
}

/// `cmplw RA, RB`, or `cmpld RA, RB` for L = 1.
pub open spec fn compare_logical(l: u32, ra: u32, rb: u32) -> u32 {
    encode::word(31, encode::bf_l(0, l), ra, rb, 32u32 << 1)
}

/// `cmpwi RA, SI`, or `cmpdi RA, SI` for L = 1.
pub open spec fn compare_imm(l: u32, ra: u32, si: u16) -> u32 {
    encode::d_word(11, encode::bf_l(0, l), ra, encode::imm_field(si))
}

/// `cmplwi RA, UI`, or `cmpldi RA, UI` for L = 1.
pub open spec fn compare_logical_imm(l: u32, ra: u32, ui: u16) -> u32 {
    encode::d_word(10, encode::bf_l(0, l), ra, encode::imm_field(ui))
}

/// `isel RT, RA, RB, BC`, with literal zero for RA = 0.
pub open spec fn isel(rt: u32, ra: u32, rb: u32, bc: u32) -> u32 {
    encode::word(31, rt, ra, rb, (bc << 6) | (15u32 << 1))
}

/// `cror BT, BA, BB`.
pub open spec fn cror(bt: u32, ba: u32, bb: u32) -> u32 {
    encode::word(19, bt, ba, bb, 449u32 << 1)
}

// Branches.

/// `b $+OFF`.
pub open spec fn b(off: i32) -> u32 {
    encode::b_word(off, false)
}

/// `bl $+OFF`.
pub open spec fn bl(off: i32) -> u32 {
    encode::b_word(off, true)
}

/// `bc $+OFF` if a condition-register bit is set, or if it is clear.
pub open spec fn bc(polarity: bool, bit: u32, off: i32) -> u32 {
    encode::bc_word(encode::spec_bo_for(polarity), bit, off, false)
}

/// `mflr RT`.
pub open spec fn mflr(rt: u32) -> u32 {
    encode::spr_word(rt, 8, 339)
}

/// `mtlr RS`.
pub open spec fn mtlr(rs: u32) -> u32 {
    encode::spr_word(rs, 8, 467)
}

/// `mtctr RS`.
pub open spec fn mtctr(rs: u32) -> u32 {
    encode::spr_word(rs, 9, 467)
}

/// `blr`.
pub open spec fn blr() -> u32 {
    encode::word(19, 20, 0, 0, 16u32 << 1)
}

/// `bctr`, or `bctrl` to link.
pub open spec fn bctr(lk: bool) -> u32 {
    encode::word(19, 20, 0, 0, (528u32 << 1) | encode::flag(lk))
}

// Loads and stores.

/// A D-form access: `RT, D(RA)`.
pub open spec fn d_access(opcd: u32, rt: u32, ra: u32, d: u16) -> u32 {
    encode::d_word(opcd, rt, ra, d as u32)
}

/// A DS-form access: `RT, D(RA)`.
pub open spec fn ds_access(opcd: u32, rt: u32, ra: u32, d: i16, xo: u32) -> u32 {
    encode::ds_word(opcd, rt, ra, d, xo)
}

/// `ld RT, D(RA)`.
pub open spec fn ld(rt: u32, d: i16, ra: u32) -> u32 {
    ds_access(58, rt, ra, d, 0)
}

/// `std RS, D(RA)`.
pub open spec fn std_ds(rs: u32, d: i16, ra: u32) -> u32 {
    ds_access(62, rs, ra, d, 0)
}

/// An indexed access: `RT, RA, RB`, with literal zero for RA = 0.
pub open spec fn x_access(rt: u32, ra: u32, rb: u32, xo: u32) -> u32 {
    encode::word(31, rt, ra, rb, xo << 1)
}

/// An indexed access that sets cr0: `RT, RA, RB`.
pub open spec fn x_access_record(rt: u32, ra: u32, rb: u32, xo: u32) -> u32 {
    x_access(rt, ra, rb, xo) | 1
}

// Floating point.

/// An A-form instruction: `FRT, FRA, FRC, FRB`.
pub open spec fn fp_a(opcd: u32, frt: u32, fra: u32, frb: u32, frc: u32, xo: u32) -> u32 {
    encode::word(opcd, frt, fra, frb, (frc << 6) | (xo << 1))
}

/// An X-form floating-point instruction: `FRT, FRA, FRB`.
pub open spec fn fp_x(opcd: u32, frt: u32, fra: u32, frb: u32, xo: u32) -> u32 {
    encode::word(opcd, frt, fra, frb, xo << 1)
}

/// `fcmpu cr0, FRA, FRB`.
pub open spec fn compare_fp(fra: u32, frb: u32) -> u32 {
    fp_x(63, 0, fra, frb, 0)
}

/// `fadd FRT, FRA, FRB`.
pub open spec fn fadd(frt: u32, fra: u32, frb: u32) -> u32 {
    fp_a(63, frt, fra, frb, 0, 21)
}

/// `fmr FRT, FRB`.
pub open spec fn fmr(frt: u32, frb: u32) -> u32 {
    fp_x(63, frt, 0, frb, 72)
}

/// An XX2-form instruction on floating-point registers: `FRT, FRB`.
pub open spec fn fp_xx2(frt: u32, frb: u32, xo: u32) -> u32 {
    encode::word(60, frt, 0, frb, xo << 2)
}

/// An XX3-form instruction on floating-point registers: `FRT, FRA, FRB`.
pub open spec fn fp_xx3(frt: u32, fra: u32, frb: u32, xo: u32) -> u32 {
    encode::word(60, frt, fra, frb, xo << 3)
}

/// `mfvsrd RA, FRS`.
pub open spec fn mfvsrd_f(ra: u32, frs: u32) -> u32 {
    encode::d_word(31, frs, ra, 51u32 << 1)
}

/// `mtvsrd FRT, RA`.
pub open spec fn mtvsrd_f(frt: u32, ra: u32) -> u32 {
    encode::d_word(31, frt, ra, 179u32 << 1)
}

// Vectors.

/// A VX-form instruction: `VRT, VRA, VRB`.
pub open spec fn vx(vrt: u32, vra: u32, vrb: u32, xo: u32) -> u32 {
    encode::word(4, vrt, vra, vrb, xo)
}

/// A VA-form instruction: `VRT, VRA, VRB, VRC`.
pub open spec fn va(vrt: u32, vra: u32, vrb: u32, vrc: u32, xo: u32) -> u32 {
    encode::word(4, vrt, vra, vrb, (vrc << 6) | xo)
}

/// An XX2-form instruction: `XT, XB`.
pub open spec fn xx2(xt: u32, xb: u32, xo: u32) -> u32 {
    encode::xx2_word(xt, 0, xb, xo)
}

/// An XX3-form instruction: `XT, XA, XB`.
pub open spec fn xx3(xt: u32, xa: u32, xb: u32, xo: u32) -> u32 {
    encode::xx3_word(xt, xa, xb, xo)
}

/// `xxlor XT, XA, XB`.
pub open spec fn xxlor(xt: u32, xa: u32, xb: u32) -> u32 {
    xx3(xt, xa, xb, 146)
}

/// `xxlxor XT, XA, XB`.
pub open spec fn xxlxor(xt: u32, xa: u32, xb: u32) -> u32 {
    xx3(xt, xa, xb, 154)
}

/// `xxpermdi XT, XA, XB, DM`.
pub open spec fn xxpermdi(xt: u32, xa: u32, xb: u32, dm: u32) -> u32 {
    encode::xxpermdi_word(xt, xa, xb, dm)
}

/// `xxswapd XT, XB`.
pub open spec fn xxswapd(xt: u32, xb: u32) -> u32 {
    xxpermdi(xt, xb, xb, 2)
}

/// `xxspltd XT, XB, 0`.
pub open spec fn xxspltd_high(xt: u32, xb: u32) -> u32 {
    xxpermdi(xt, xb, xb, 0)
}

/// `xxspltw XT, XB, UIM`.
pub open spec fn xxspltw(xt: u32, xb: u32, uim: u32) -> u32 {
    encode::xx2_word(xt, uim, xb, 164)
}

/// `xxsel XT, XA, XB, XC`.
pub open spec fn xxsel(xt: u32, xa: u32, xb: u32, xc: u32) -> u32 {
    encode::xxsel_word(xt, xa, xb, xc)
}

/// `xscvspdpn XT, XB`.
pub open spec fn xscvspdpn(xt: u32, xb: u32) -> u32 {
    xx2(xt, xb, 331)
}

/// `vspltb VRT, VRB, UIM`.
pub open spec fn vspltb(vrt: u32, vrb: u32, uim: u32) -> u32 {
    vx(vrt, uim, vrb, 524)
}

/// `vsplth VRT, VRB, UIM`.
pub open spec fn vsplth(vrt: u32, vrb: u32, uim: u32) -> u32 {
    vx(vrt, uim, vrb, 588)
}

/// `vspltw VRT, VRB, UIM`.
pub open spec fn vspltw(vrt: u32, vrb: u32, uim: u32) -> u32 {
    vx(vrt, uim, vrb, 652)
}

/// `mfvsrd RA, XS`.
pub open spec fn mfvsrd(ra: u32, xs: u32) -> u32 {
    encode::vsx_x_word(xs, ra, 0, 51)
}

/// `mtvsrd XT, RA`.
pub open spec fn mtvsrd(xt: u32, ra: u32) -> u32 {
    encode::vsx_x_word(xt, ra, 0, 179)
}

/// `lxvx XT, RA, RB`, with literal zero for RA = 0.
pub open spec fn lxvx(xt: u32, ra: u32, rb: u32) -> u32 {
    encode::vsx_x_word(xt, ra, rb, 268)
}

/// `lxsdx XT, RA, RB`, with literal zero for RA = 0.
pub open spec fn lxsdx(xt: u32, ra: u32, rb: u32) -> u32 {
    encode::vsx_x_word(xt, ra, rb, 588)
}

/// `stxsdx XS, RA, RB`, with literal zero for RA = 0.
pub open spec fn stxsdx(xt: u32, ra: u32, rb: u32) -> u32 {
    encode::vsx_x_word(xt, ra, rb, 716)
}

/// `lxvd2x XT, RA, RB`, with literal zero for RA = 0.
pub open spec fn lxvd2x(xt: u32, ra: u32, rb: u32) -> u32 {
    encode::vsx_x_word(xt, ra, rb, 844)
}

/// `stxvx XS, RA, RB`, with literal zero for RA = 0.
pub open spec fn stxvx(xt: u32, ra: u32, rb: u32) -> u32 {
    encode::vsx_x_word(xt, ra, rb, 396)
}

/// `stxvd2x XS, RA, RB`, with literal zero for RA = 0.
pub open spec fn stxvd2x(xt: u32, ra: u32, rb: u32) -> u32 {
    encode::vsx_x_word(xt, ra, rb, 972)
}

} // verus!
