//! Encodings cross-checked against the output of assemblers.
use ppc64::encode::{
    enc_a, enc_b, enc_bctr, enc_blr, enc_cmp, enc_cmpi, enc_cror, enc_d, enc_d_logic, enc_ds,
    enc_fmr, enc_isel, enc_m, enc_md, enc_mflr, enc_mtctr, enc_mtlr, enc_x, enc_x_logic,
    enc_x_opcd, enc_xo, enc_xs, enc_xx1, BCL_20_31_PLUS4, NOP_INSTRUCTION,
};

#[test]
fn well_known_encodings() {
    // Values cross-checked against GNU as output.
    assert_eq!(enc_d(14, 3, 0, 1), 0x3860_0001); // li r3, 1
    assert_eq!(enc_d(15, 4, 0, 0x1234), 0x3C80_1234); // lis r4, 0x1234
    assert_eq!(enc_d_logic(24, 0, 0, 0), NOP_INSTRUCTION); // nop
    // Shift-by-immediate forms, all verified against llvm-mc.
    assert_eq!(enc_md(4, 3, 7, 56, 1), 0x7883_3E24); // sldi r3, r4, 7
    assert_eq!(enc_md(4, 3, 57, 7, 0), 0x7883_C9C2); // srdi r3, r4, 7
    assert_eq!(enc_md(4, 3, 7, 0, 0), 0x7883_3800); // rotldi r3, r4, 7
    assert_eq!(enc_xs(4, 3, 7), 0x7C83_3E74); // sradi r3, r4, 7
    assert_eq!(enc_m(4, 3, 7, 0, 24), 0x5483_3830); // slwi r3, r4, 7
    assert_eq!(enc_m(4, 3, 25, 7, 31), 0x5483_C9FE); // srwi r3, r4, 7
    assert_eq!(enc_m(4, 3, 7, 0, 31), 0x5483_383E); // rotlwi r3, r4, 7
    assert_eq!(enc_x_logic(4, 3, 7, 824), 0x7C83_3E70); // srawi r3, r4, 7
    assert_eq!(enc_xo(3, 4, 5, 266), 0x7C64_2A14); // add r3, r4, r5
    assert_eq!(enc_xo(3, 4, 5, 40), 0x7C64_2850); // subf r3, r4, r5
    assert_eq!(enc_xo(3, 4, 5, 10), 0x7C64_2814); // addc r3, r4, r5
    assert_eq!(enc_xo(3, 4, 5, 138), 0x7C64_2914); // adde r3, r4, r5
    assert_eq!(enc_xo(3, 5, 4, 8), 0x7C65_2010); // subfc r3, r5, r4
    assert_eq!(enc_xo(3, 5, 4, 136), 0x7C65_2110); // subfe r3, r5, r4
    assert_eq!(enc_x_logic(4, 3, 5, 444), 0x7C83_2B78); // or r3, r4, r5
    assert_eq!(enc_ds(58, 3, 1, 16, 0), 0xE861_0010); // ld r3, 16(r1)
    assert_eq!(enc_ds(62, 3, 1, 16, 0), 0xF861_0010); // std r3, 16(r1)
    assert_eq!(enc_mflr(0), 0x7C08_02A6); // mflr r0
    assert_eq!(enc_mtlr(0), 0x7C08_03A6); // mtlr r0
    assert_eq!(enc_mtctr(12), 0x7D89_03A6); // mtctr r12
    assert_eq!(enc_blr(), 0x4E80_0020); // blr
    assert_eq!(enc_bctr(true), 0x4E80_0421); // bctrl
    assert_eq!(BCL_20_31_PLUS4, 0x429F_0005); // bcl 20,31,$+4
    assert_eq!(enc_b(8, false), 0x4800_0008); // b $+8
    assert_eq!(enc_b(-4, true), 0x4BFF_FFFD); // bl $-4
    assert_eq!(enc_fmr(1, 2), 0xFC20_1090); // fmr f1, f2
    // rldicl r3, r4, 0, 32 == clrldi r3, r4, 32 (zero-extend i32)
    assert_eq!(enc_md(4, 3, 0, 32, 0), 0x7883_0020);
    assert_eq!(enc_md(4, 3, 32, 31, 1), 0x7883_07C6); // sldi r3, r4, 32
    assert_eq!(enc_isel(3, 4, 5, 0), 0x7C64_281E); // isellt r3, r4, r5
    assert_eq!(enc_cmpi(11, 0, 1, 3, 0), 0x2C23_0000); // cmpdi r3, 0
    assert_eq!(enc_cmpi(11, 0, 1, 3, -1i16 as u16), 0x2C23_FFFF); // cmpdi r3, -1
    assert_eq!(enc_cmpi(11, 0, 0, 3, 0), 0x2C03_0000); // cmpwi r3, 0
    assert_eq!(enc_cmp(0, 0, 3, 4, 32), 0x7C03_2040); // cmplw r3, r4
    assert_eq!(enc_d_logic(28, 4, 7, 63), 0x7087_003F); // andi. r7, r4, 63
    assert_eq!(enc_xo(3, 4, 0, 104), 0x7C64_00D0); // neg r3, r4
    assert_eq!(enc_x_logic(4, 3, 4, 124), 0x7C83_20F8); // nor r3, r4, r4
    assert_eq!(enc_x_logic(0, 0, 3, 60), 0x7C00_1878); // andc r0, r0, r3
    assert_eq!(enc_x_logic(3, 3, 4, 794), 0x7C63_2634); // srad r3, r3, r4
    assert_eq!(enc_x_logic(4, 3, 5, 24), 0x7C83_2830); // slw r3, r4, r5
    assert_eq!(enc_x_logic(4, 3, 0, 58), 0x7C83_0074); // cntlzd r3, r4
    assert_eq!(enc_x_logic(4, 3, 0, 506), 0x7C83_03F4); // popcntd r3, r4
    assert_eq!(enc_x_logic(4, 3, 0, 570), 0x7C83_0474); // cnttzd r3, r4
    assert_eq!(enc_xo(3, 4, 5, 489), 0x7C64_2BD2); // divd r3, r4, r5
    assert_eq!(enc_xo(3, 4, 5, 457), 0x7C64_2B92); // divdu r3, r4, r5
    // The modulo instructions are X-form: a 10-bit extended opcode.
    assert_eq!(enc_x(3, 5, 4, 777), 0x7C65_2612); // modsd r3, r5, r4
    assert_eq!(enc_x(3, 5, 4, 265), 0x7C65_2212); // modud r3, r5, r4
}

#[test]
fn well_known_fp_encodings() {
    // Also cross-checked against GNU as / llvm-mc.
    assert_eq!(enc_a(63, 9, 1, 2, 0, 21), 0xFD21_102A); // fadd f9, f1, f2
    assert_eq!(enc_a(59, 5, 1, 2, 0, 21), 0xECA1_102A); // fadds f5, f1, f2
    // `fmul` takes its second operand in FRC, not FRB.
    assert_eq!(enc_a(63, 9, 9, 0, 1, 25), 0xFD29_0072); // fmul f9, f9, f1
    assert_eq!(enc_a(63, 9, 9, 2, 0, 18), 0xFD29_1024); // fdiv f9, f9, f2
    assert_eq!(enc_a(63, 1, 0, 9, 0, 22), 0xFC20_482C); // fsqrt f1, f9
    assert_eq!(enc_a(59, 1, 0, 5, 0, 22), 0xEC20_282C); // fsqrts f1, f5
    // fmadd computes FRA * FRC + FRB.
    assert_eq!(enc_a(63, 7, 1, 3, 2, 29), 0xFCE1_18BA); // fmadd f7, f1, f2, f3
    assert_eq!(enc_x_opcd(63, 9, 0, 9, 40), 0xFD20_4850); // fneg f9, f9
    assert_eq!(enc_x_opcd(63, 9, 0, 9, 264), 0xFD20_4A10); // fabs f9, f9
    assert_eq!(enc_x_opcd(63, 7, 0, 7, 12), 0xFCE0_3818); // frsp f7, f7
    assert_eq!(enc_x_opcd(63, 7, 2, 7, 8), 0xFCE2_3810); // fcpsgn f7, f2, f7
    assert_eq!(enc_x_opcd(63, 0, 1, 2, 0), 0xFC01_1000); // fcmpu cr0, f1, f2
    assert_eq!(enc_x_opcd(63, 0, 0, 0, 846), 0xFC00_069C); // fcfid f0, f0
    assert_eq!(enc_x_opcd(63, 1, 0, 1, 974), 0xFC20_0F9C); // fcfidu f1, f1
    assert_eq!(enc_x_opcd(59, 1, 0, 4, 846), 0xEC20_269C); // fcfids f1, f4
    assert_eq!(enc_cror(2, 0, 2), 0x4C40_1382); // cror cr0eq, cr0lt, cr0eq
    assert_eq!(enc_xx1(6, 4, 179), 0x7CC4_0166); // mtvsrd f6, r4
    assert_eq!(enc_xx1(1, 4, 51), 0x7C24_0066); // mfvsrd r4, f1
}
