//! What instructions come out as: words, and what a disassembler makes of them.
use ppc64::args::{AMode, CondBrTarget, FloatCompare, IntegerCompare, LoadOP, StackAMode, StoreOP};
use ppc64::backend::{isa_builder, Architecture, Ppc64Backend, Triple};
use ppc64::buffer::{Emission, ExceptionHandler, MachBuffer, MachLabel};
use ppc64::emit::{EmitInfo, EmitState};
use ppc64::emit_int::load_constant_words;
use ppc64::frame::FrameLayout;
use ppc64::inst::{
    AluImmOp, AluOp, BitOp, CallInfo, CallRetPair, DivOp, FpuOp1, FpuOp2, FpuRoundMode, Inst,
    RetLocation, RetvalMove, ReturnCallInfo, ShiftOp, TryCallHandler, TryCallInfo, UnaryOp,
    VecAluOp, VecFpuOp2,
};
use ppc64::ir::{
    AtomicRmwOp, CallConv, ExternalName, FloatCC, FunctionCalls, IntCC, MemFlagsData, Ppc64Flags,
    Reloc, SharedFlags, TrapCode, Type,
};
use ppc64::label_use::LabelUse;
use ppc64::regs::{fpr, gpr, vr, RealReg, Reg, RegClass, Writable};

fn shared() -> SharedFlags {
    SharedFlags {
        preserve_frame_pointers: false,
        unwind_info: false,
        enable_multi_ret_implicit_sret: false,
    }
}

fn backend() -> Ppc64Backend {
    isa_builder(Triple { architecture: Architecture::Powerpc64le }).finish(shared())
}

fn frame() -> FrameLayout {
    FrameLayout {
        word_bytes: 8,
        incoming_args_size: 0,
        tail_args_size: 0,
        setup_area_size: 16,
        clobber_size: 0,
        fixed_frame_storage_size: 32,
        stackslots_size: 32,
        outgoing_args_size: 48,
        clobbered_callee_saves: vec![],
        function_calls: FunctionCalls::Regular,
    }
}

fn emit_into(sink: &mut MachBuffer, inst: &Inst, isa_3_0: bool) {
    let info = EmitInfo::new(shared(), Ppc64Flags { has_isa_3_0: isa_3_0, has_isa_3_1: false });
    let mut state = EmitState::new(frame());
    inst.emit(sink, &info, &mut state);
}

fn emitted(inst: Inst, isa_3_0: bool) -> MachBuffer {
    let mut sink = MachBuffer::new();
    emit_into(&mut sink, &inst, isa_3_0);
    sink
}

fn words_of(sink: &MachBuffer) -> Vec<u32> {
    let mut v = vec![];
    for op in sink.log() {
        if let Emission::Word(w) = op {
            v.push(*w);
        }
    }
    v
}

fn words(inst: Inst) -> Vec<u32> {
    words_of(&emitted(inst, false))
}

fn constant(imm: u64) -> Vec<String> {
    text(Inst::LoadConst64 { rd: w(gpr(3)), imm }, false)
}

fn divided(op: DivOp, ty: Type, isa_3_0: bool) -> Vec<String> {
    text(Inst::DivRem { op, rd: w(gpr(3)), ra: gpr(4), rb: gpr(5), ty }, isa_3_0)
}

fn less_than() -> IntegerCompare {
    IntegerCompare { kind: IntCC::SignedLessThan, rs1: gpr(3), rs2: gpr(4), is_64: true }
}

fn text(inst: Inst, isa_3_0: bool) -> Vec<String> {
    let data = emitted(inst, isa_3_0).data();
    let cs = match backend().to_capstone() {
        Ok(cs) => cs,
        Err(_) => panic!("no disassembler"),
    };
    let insns = cs.disasm_all(&data, 0).unwrap();
    insns
        .iter()
        .map(|i| format!("{} {}", i.mnemonic().unwrap(), i.op_str().unwrap()))
        .collect()
}

fn w(r: Reg) -> Writable<Reg> {
    Writable::from_reg(r)
}

#[test]
fn constants_are_materialized() {
    assert_eq!(constant(0), vec!["li r3, 0"]);
    assert_eq!(constant(5), vec!["li r3, 5"]);
    assert_eq!(constant(u64::MAX), vec!["li r3, -1"]);
    assert_eq!(constant(0xFFFF), vec!["lis r3, 0", "ori r3, r3, 0xffff"]);
    assert_eq!(constant(0x1_0000), vec!["lis r3, 1"]);
    assert_eq!(constant(0x1_2345), vec!["lis r3, 1", "ori r3, r3, 0x2345"]);
    assert_eq!(constant(0xFFFF_FFFF_8000_0000), vec!["lis r3, -0x8000"]);
    assert_eq!(constant(0x1_0000_0000), vec!["li r3, 1", "sldi r3, r3, 0x20"]);
    assert_eq!(constant(0x8000_0000), vec!["li r3, 0", "oris r3, r3, 0x8000"]);
    assert_eq!(constant(0x8000_0000_0000_0000), vec!["lis r3, -0x8000", "sldi r3, r3, 0x20"]);
    assert_eq!(constant(0xFFFF_FFFF), vec!["li r3, -1", "clrldi r3, r3, 0x20"]);
    assert_eq!(constant(i64::MAX as u64), vec!["li r3, -1", "clrldi r3, r3, 1"]);
    assert_eq!(
        constant(0x9234_5678_9ABC),
        vec![
            "li r3, 0x248d",
            "sldi r3, r3, 0x22",
            "oris r3, r3, 0x5678",
            "ori r3, r3, 0x9abc",
        ]
    );
    assert_eq!(
        constant(0xFFFF_9234_5678),
        vec!["lis r3, -0x6dcc", "clrldi r3, r3, 0x10", "ori r3, r3, 0x5678"]
    );
    assert_eq!(
        constant(0x1_2345_6780_0000),
        vec!["lis r3, 0x246", "ori r3, r3, 0x8acf", "sldi r3, r3, 0x17"]
    );
    assert_eq!(
        constant(0x1234_0000_5678),
        vec!["li r3, 0x48d", "sldi r3, r3, 0x22", "ori r3, r3, 0x5678"]
    );
    assert_eq!(
        constant(0x1234_5678_0000_9ABC),
        vec![
            "lis r3, 0x1234",
            "ori r3, r3, 0x5678",
            "sldi r3, r3, 0x20",
            "ori r3, r3, 0x9abc",
        ]
    );
    assert_eq!(
        constant(0x1234_5678_9ABC_DEF0),
        vec![
            "lis r3, 0x1234",
            "ori r3, r3, 0x5678",
            "sldi r3, r3, 0x20",
            "oris r3, r3, 0x9abc",
            "ori r3, r3, 0xdef0",
        ]
    );
}

#[test]
fn constant_words_match_the_instruction() {
    assert_eq!(load_constant_words(3, 5).to_vec(), vec![0x3860_0005]);
    assert_eq!(load_constant_words(3, 0x1_2345).to_vec(), vec![0x3C60_0001, 0x6063_2345]);
    assert_eq!(load_constant_words(3, 0x1_0000_0000).to_vec(), vec![0x3860_0001, 0x7863_07C6]);
    // Rotations that wrap around save instructions.
    assert_eq!(load_constant_words(3, 0xFFFF_8001_FFFF_FFFF).to_vec(), vec![0x3860_C000, 0x7863_0FE6]);
    assert_eq!(load_constant_words(3, 0xFFFF_FFFF_7FFF_FFFF).to_vec(), vec![0x3860_FFFE, 0x7863_FFE4]);
    assert_eq!(load_constant_words(3, 0xF000_0000_0000_000F).to_vec(), vec![0x3860_00FF, 0x7863_E7E6]);
    assert_eq!(load_constant_words(3, 0xFFFF_FFFF).to_vec(), vec![0x3860_FFFF, 0x7863_0020]);
    // So do rotations of the lower half, and an add at the end.
    assert_eq!(load_constant_words(3, 0xE7FF_E000).to_vec().len(), 2);
    let edge: u64 = 0xFFFF_FFFF_7FFF_9ABC;
    assert_eq!(load_constant_words(3, edge).to_vec(), vec![0x3C60_8000, 0x3863_9ABC]);
    assert_eq!(load_constant_words(0, edge).to_vec().len(), 3);
    assert_eq!(load_constant_words(3, 0xFEDC_FFFF_FFFF_1234).to_vec().len(), 3);
    for imm in [0xE7FF_E000, edge, 0x1234_5677_FFFF_8001, 0xFEDC_FFFF_FFFF_1234] {
        assert_eq!(interpret(&load_constant_words(3, imm).to_vec()), imm);
    }
    for imm in [0u64, 1, 0x8000, 0xFFFF_8000, 0x1234_5678_9ABC_DEF0, u64::MAX] {
        let inst = Inst::LoadConst64 { rd: w(gpr(9)), imm };
        assert_eq!(words(inst), load_constant_words(9, imm).to_vec());
    }
}

/// The value that the words of a constant leave in their register.
fn interpret(ws: &[u32]) -> u64 {
    let mut v: u64 = 0;
    for x in ws {
        let low = (*x & 0xFFFF) as u64;
        let signed = low as i16 as i64 as u64;
        // The register is r3, so an operand of zero stands for none.
        let base = if x >> 16 & 31 == 0 { 0 } else { v };
        v = match x >> 26 {
            14 => base.wrapping_add(signed),
            15 => base.wrapping_add(signed << 16),
            24 => v | low,
            25 => v | (low << 16),
            30 => {
                let turned = v.rotate_left((x >> 11 & 31) | (x >> 1 & 1) << 5);
                let bound = (x >> 6 & 31) | (x >> 5 & 1) << 5;
                match x >> 2 & 7 {
                    0 => turned & (u64::MAX >> bound),
                    1 => turned & (u64::MAX << (63 - bound)),
                    _ => panic!("not part of a constant"),
                }
            }
            21 => {
                let turned = ((v as u32).rotate_left(x >> 11 & 31)) as u64;
                turned & (u32::MAX >> (x >> 6 & 31)) as u64 & u64::MAX << (31 - (x >> 1 & 31))
            }
            31 if x >> 1 & 0x3FF == 124 => !v,
            _ => panic!("not part of a constant"),
        };
    }
    v
}

#[test]
fn no_fewer_instructions_build_a_constant() {
    // What a few instructions build, in all orders, takes no more of them.
    let mut seed: u64 = 0x9E37_79B9_7F4A_7C15;
    for round in 0..2_000u32 {
        let n = if round % 50 == 0 { 4 } else { 1 + round as usize % 3 };
        let mut v: u64 = 0;
        for k in 0..n {
            seed = seed.wrapping_mul(6_364_136_223_846_793_005).wrapping_add(1_442_695_040_888_963_407);
            let h = seed >> 48;
            let signed = h as u16 as i16 as i64 as u64;
            let turned = v.rotate_left((seed >> 32 & 63) as u32);
            v = match (k, seed >> 40 & 15) {
                (0, 0..=4) => signed << 16,
                (0, _) => signed,
                (_, 0 | 1) if k == n - 1 => v.wrapping_add(signed),
                (_, 2) if k == n - 1 => v.wrapping_add(signed << 16),
                (_, 0..=2) => v | h,
                (_, 3..=5) => v | (h << 16),
                (_, 6..=8) => turned & (u64::MAX >> (seed >> 26 & 63)),
                (_, 9..=11) => turned & (u64::MAX << (seed >> 26 & 63)),
                (_, 12 | 13) => {
                    let turned = (v as u32).rotate_left((seed >> 32 & 31) as u32);
                    (turned & u32::MAX >> (seed >> 26 & 15) & u32::MAX << (seed >> 20 & 15)) as u64
                }
                _ => !v,
            };
        }
        let ws = load_constant_words(3, v).to_vec();
        assert_eq!(interpret(&ws), v);
        assert!(ws.len() <= n, "{v:#x} takes {} of {n}", ws.len());
    }
}

#[test]
fn one_word_is_used_where_one_does() {
    for imm in [0u64, 1, 32, 64, 0x7FFF, 0x1_0000, 0x7FFF_0000, u64::MAX, !0x7FFF, !0x7FFF_FFFF] {
        assert_eq!(load_constant_words(3, imm).to_vec().len(), 1);
    }
    for imm in [0x8000u64, 0xFFFF, 0x1_0001, 0x7FFF_FFFF, 0x8000_0000, 1 << 63, !0x8000] {
        assert_eq!(load_constant_words(3, imm).to_vec().len(), 2);
    }
}

#[test]
fn constants_come_back() {
    let mut imm: u64 = 1;
    for k in 0..64u32 {
        let mixed = if k % 16 == 0 { imm.rotate_left(k) ^ 0x1234_5678_9ABC_DEF0 } else { k as u64 };
        for c in [imm, imm - 1, !imm, mixed] {
            let ws = load_constant_words(3, c).to_vec();
            assert!(ws.len() <= 5);
            assert_eq!(interpret(&ws), c);
        }
        imm = imm.wrapping_mul(2).max(1);
    }
}

#[test]
fn fixed_point_operations() {
    let alu = |op| text(Inst::AluRRR { op, rd: w(gpr(3)), ra: gpr(4), rb: gpr(5) }, false);
    assert_eq!(alu(AluOp::Add), vec!["add r3, r4, r5"]);
    // The subtract instructions compute RB - RA.
    assert_eq!(alu(AluOp::Sub), vec!["subf r3, r5, r4"]);
    assert_eq!(alu(AluOp::Addc), vec!["addc r3, r4, r5"]);
    assert_eq!(alu(AluOp::Adde), vec!["adde r3, r4, r5"]);
    assert_eq!(alu(AluOp::Subfc), vec!["subfc r3, r5, r4"]);
    assert_eq!(alu(AluOp::Subfe), vec!["subfe r3, r5, r4"]);
    assert_eq!(alu(AluOp::Mulld), vec!["mulld r3, r4, r5"]);
    assert_eq!(alu(AluOp::Mulhd), vec!["mulhd r3, r4, r5"]);
    assert_eq!(alu(AluOp::Mulhdu), vec!["mulhdu r3, r4, r5"]);
    assert_eq!(alu(AluOp::Mulhw), vec!["mulhw r3, r4, r5"]);
    assert_eq!(alu(AluOp::Mulhwu), vec!["mulhwu r3, r4, r5"]);
    assert_eq!(alu(AluOp::And), vec!["and r3, r4, r5"]);
    assert_eq!(alu(AluOp::Or), vec!["or r3, r4, r5"]);
    assert_eq!(alu(AluOp::Xor), vec!["xor r3, r4, r5"]);
    let unary = |op| text(Inst::UnaryRR { op, rd: w(gpr(3)), rn: gpr(4) }, false);
    assert_eq!(unary(UnaryOp::Neg), vec!["neg r3, r4"]);
    assert_eq!(unary(UnaryOp::Not), vec!["nor r3, r4, r4"]);
    let imm = |op, imm| text(Inst::AluRRImm16 { op, rd: w(gpr(3)), ra: gpr(4), imm }, false);
    assert_eq!(imm(AluImmOp::Addi, 0xFFFF), vec!["addi r3, r4, -1"]);
    assert_eq!(imm(AluImmOp::Andi, 0xFF), vec!["andi. r3, r4, 0xff"]);
}

#[test]
fn shifts_and_rotates() {
    let by_imm = |op, imm| text(Inst::ShiftRRImm { op, rd: w(gpr(3)), ra: gpr(4), imm }, false);
    let by_reg =
        |op| text(Inst::ShiftRRR { op, rd: w(gpr(3)), ra: gpr(4), rb: gpr(5) }, false);
    assert_eq!(by_imm(ShiftOp::Slw, 7), vec!["slwi r3, r4, 7"]);
    assert_eq!(by_imm(ShiftOp::Srw, 7), vec!["srwi r3, r4, 7"]);
    assert_eq!(by_imm(ShiftOp::Sraw, 7), vec!["srawi r3, r4, 7"]);
    assert_eq!(by_imm(ShiftOp::Sld, 7), vec!["sldi r3, r4, 7"]);
    assert_eq!(by_imm(ShiftOp::Srd, 7), vec!["rldicl r3, r4, 0x39, 7"]);
    assert_eq!(by_imm(ShiftOp::Srad, 63), vec!["sradi r3, r4, 0x3f"]);
    assert_eq!(by_imm(ShiftOp::Rotlw, 7), vec!["rotlwi r3, r4, 7"]);
    assert_eq!(by_imm(ShiftOp::Rotld, 7), vec!["rotldi r3, r4, 7"]);
    assert_eq!(by_reg(ShiftOp::Slw), vec!["slw r3, r4, r5"]);
    assert_eq!(by_reg(ShiftOp::Srw), vec!["srw r3, r4, r5"]);
    assert_eq!(by_reg(ShiftOp::Sraw), vec!["sraw r3, r4, r5"]);
    assert_eq!(by_reg(ShiftOp::Sld), vec!["sld r3, r4, r5"]);
    assert_eq!(by_reg(ShiftOp::Srd), vec!["srd r3, r4, r5"]);
    assert_eq!(by_reg(ShiftOp::Srad), vec!["srad r3, r4, r5"]);
    assert_eq!(by_reg(ShiftOp::Rotlw), vec!["rotlw r3, r4, r5"]);
    assert_eq!(by_reg(ShiftOp::Rotld), vec!["rotld r3, r4, r5"]);
    // By nothing, each leaves the value alone.
    assert_eq!(words(Inst::ShiftRRImm { op: ShiftOp::Srd, rd: w(gpr(3)), ra: gpr(4), imm: 0 }),
        vec![0x7883_0000]);
}

#[test]
fn extensions() {
    let ext = |signed, from_bits| {
        text(Inst::Extend { rd: w(gpr(3)), rn: gpr(4), signed, from_bits, to_bits: 64 }, false)
    };
    assert_eq!(ext(true, 8), vec!["extsb r3, r4"]);
    assert_eq!(ext(true, 16), vec!["extsh r3, r4"]);
    assert_eq!(ext(true, 32), vec!["extsw r3, r4"]);
    assert_eq!(ext(false, 8), vec!["clrldi r3, r4, 0x38"]);
    assert_eq!(ext(false, 32), vec!["clrldi r3, r4, 0x20"]);
}

#[test]
fn trailing_zeros_with_and_without_the_instruction() {
    let ctz = |ty, isa| {
        text(Inst::BitCount { op: BitOp::Ctz, rd: w(gpr(3)), rn: gpr(4), ty }, isa)
    };
    assert_eq!(ctz(Type::I64, true), vec!["cnttzd r3, r4"]);
    assert_eq!(ctz(Type::I32, true), vec!["cnttzw r3, r4"]);
    assert_eq!(
        ctz(Type::I64, false),
        vec!["addi r0, r4, -1", "andc r0, r0, r4", "popcntd r3, r0"]
    );
    assert_eq!(
        ctz(Type::I32, false),
        vec![
            "li r0, -1",
            "sldi r0, r0, 0x20",
            "or r11, r4, r0",
            "addi r0, r11, -1",
            "andc r0, r0, r11",
            "popcntd r3, r0",
        ]
    );
    for x in [0u64, 1, 2, 12, 0x8000_0000, 0x1_0000_0000, 1 << 63, u64::MAX] {
        assert_eq!((x.wrapping_sub(1) & !x).count_ones(), x.trailing_zeros());
        let y = x | 0xFFFF_FFFF_0000_0000;
        assert_eq!((y.wrapping_sub(1) & !y).count_ones(), (x as u32).trailing_zeros());
    }
}

#[test]
fn division_is_checked() {
    let trap = ".byte 0x00, 0x00, 0x00, 0x00";
    assert_eq!(
        divided(DivOp::UDiv, Type::I64, false),
        vec!["cmpdi r5, 0", "bne ", trap, "divdu r3, r4, r5"]
    );
    assert_eq!(
        divided(DivOp::SDiv, Type::I32, false),
        vec![
            "cmpwi r5, 0", "bne ", trap, "cmpwi r5, -1", "bne ", "lis r0, -0x8000", "cmpw r4, r0",
            "bne ", trap, "neg r3, r4", "b 0x28", "divw r3, r4, r5",
        ]
    );
    assert_eq!(
        divided(DivOp::SDiv, Type::I64, false),
        vec![
            "cmpdi r5, 0", "bne ", trap, "cmpdi r5, -1", "bne ", "lis r0, -0x8000",
            "sldi r0, r0, 0x20", "cmpd r4, r0", "bne ", trap, "neg r3, r4", "b 0x2c",
            "divd r3, r4, r5",
        ]
    );
    assert_eq!(
        divided(DivOp::SRem, Type::I64, true),
        vec![
            "cmpdi r5, 0", "bne ", trap, "cmpdi r5, -1", "bne ", "li r3, 0", "b 0x18",
            "modsd r3, r4, r5",
        ]
    );
    assert_eq!(
        divided(DivOp::URem, Type::I32, true),
        vec!["cmpwi r5, 0", "bne ", trap, "moduw r3, r4, r5"]
    );
    assert_eq!(
        divided(DivOp::URem, Type::I64, false),
        vec![
            "cmpdi r5, 0", "bne ", trap, "divdu r0, r4, r5", "mulld r0, r0, r5",
            "subf r3, r0, r4",
        ]
    );
}

#[test]
fn division_binds_its_labels_and_records_its_traps() {
    let sink = emitted(
        Inst::DivRem { op: DivOp::SDiv, rd: w(gpr(3)), ra: gpr(4), rb: gpr(5), ty: Type::I64 },
        false,
    );
    let mut used = vec![];
    let mut bound = vec![];
    let mut traps = vec![];
    for op in sink.log() {
        match op {
            Emission::UseLabel { label, .. } => used.push(label.index),
            Emission::BindLabel { label } => bound.push(label.index),
            Emission::Trap { code } => traps.push(*code),
            _ => {}
        }
    }
    assert_eq!(used, vec![0, 2, 3, 1]);
    assert_eq!(bound, vec![0, 3, 2, 1]);
    assert_eq!(traps, vec![TrapCode::IntegerDivisionByZero, TrapCode::IntegerOverflow]);
}

#[test]
fn floating_point_operations() {
    let rrr = |op, ty| {
        text(Inst::FpuRRR { op, rd: w(fpr(1)), ra: fpr(2), rb: fpr(3), ty }, false)
    };
    assert_eq!(rrr(FpuOp2::Add, Type::F32), vec!["fadds f1, f2, f3"]);
    assert_eq!(rrr(FpuOp2::Add, Type::F64), vec!["fadd f1, f2, f3"]);
    assert_eq!(rrr(FpuOp2::Sub, Type::F32), vec!["fsubs f1, f2, f3"]);
    assert_eq!(rrr(FpuOp2::Mul, Type::F32), vec!["fmuls f1, f2, f3"]);
    assert_eq!(rrr(FpuOp2::Mul, Type::F64), vec!["fmul f1, f2, f3"]);
    assert_eq!(rrr(FpuOp2::Div, Type::F64), vec!["fdiv f1, f2, f3"]);
    assert_eq!(rrr(FpuOp2::CopySign, Type::F64), vec!["fcpsgn f1, f2, f3"]);
    let rr = |op| text(Inst::FpuRR { op, rd: w(fpr(1)), rn: fpr(2), ty: Type::F64 }, false);
    assert_eq!(rr(FpuOp1::Neg), vec!["fneg f1, f2"]);
    assert_eq!(rr(FpuOp1::Abs), vec!["fabs f1, f2"]);
    assert_eq!(rr(FpuOp1::Sqrt), vec!["fsqrt f1, f2"]);
    assert_eq!(rr(FpuOp1::Mov), vec!["fmr f1, f2"]);
    assert_eq!(rr(FpuOp1::Demote), vec!["frsp f1, f2"]);
    let round = |mode| text(Inst::FpuRound { rd: w(fpr(1)), rn: fpr(2), mode }, false);
    assert_eq!(round(FpuRoundMode::Floor), vec!["frim f1, f2"]);
    assert_eq!(round(FpuRoundMode::Ceil), vec!["frip f1, f2"]);
    assert_eq!(round(FpuRoundMode::Trunc), vec!["friz f1, f2"]);
    assert_eq!(round(FpuRoundMode::Nearest), vec!["xsrdpic f1, f2"]);
}

#[test]
fn conversion_traps_out_of_bounds() {
    let inst = Inst::FpuToInt {
        rd: w(gpr(3)),
        tmp: w(fpr(1)),
        rn: fpr(2),
        signed: false,
        sat: false,
        in_ty: Type::F64,
        out_ty: Type::I32,
    };
    let sink = emitted(inst, false);
    let mut traps = vec![];
    for op in sink.log() {
        if let Emission::Trap { code } = op {
            traps.push(*code);
        }
    }
    assert_eq!(
        traps,
        vec![
            TrapCode::BadConversionToInteger,
            TrapCode::IntegerOverflow,
            TrapCode::IntegerOverflow,
        ]
    );
}

#[test]
fn vector_operations() {
    let rrr = |op, ty| {
        text(Inst::VecAluRRR { op, rd: w(vr(1)), ra: vr(2), rb: vr(3), ty }, false)
    };
    assert_eq!(rrr(VecAluOp::Add, Type::I8X16), vec!["vaddubm v1, v2, v3"]);
    assert_eq!(rrr(VecAluOp::Add, Type::I16X8), vec!["vadduhm v1, v2, v3"]);
    assert_eq!(rrr(VecAluOp::Add, Type::I32X4), vec!["vadduwm v1, v2, v3"]);
    assert_eq!(rrr(VecAluOp::Add, Type::I64X2), vec!["vaddudm v1, v2, v3"]);
    assert_eq!(rrr(VecAluOp::CmpGtS, Type::I16X8), vec!["vcmpgtsh v1, v2, v3"]);
    assert_eq!(rrr(VecAluOp::MinU, Type::I32X4), vec!["vminuw v1, v2, v3"]);
    assert_eq!(rrr(VecAluOp::ShrS, Type::I64X2), vec!["vsrad v1, v2, v3"]);
    assert_eq!(rrr(VecAluOp::Xor, Type::I32X4), vec!["xxlxor v1, v2, v3"]);
    let fpu = |op| {
        let inst = Inst::VecFpuRRR { op, rd: w(vr(1)), ra: vr(2), rb: vr(3), ty: Type::F64X2 };
        text(inst, false)
    };
    assert_eq!(fpu(VecFpuOp2::Add), vec!["xvadddp v1, v2, v3"]);
    assert_eq!(fpu(VecFpuOp2::CmpGe), vec!["xvcmpgedp v1, v2, v3"]);
    assert_eq!(fpu(VecFpuOp2::Min), vec!["xvmindp v1, v2, v3"]);
    // Lanes count from the other end.
    let lane = Inst::VecExtractLaneInt { rd: w(gpr(3)), rn: vr(4), ty: Type::I16X8, lane: 3 };
    assert_eq!(text(lane, false), vec!["vsplth v0, v4, 4", "mfvsrd r3, v0"]);
    let lanes = Inst::VecTestLanes { rd: w(gpr(3)), rn: vr(4), ty: Type::I16X8, all: true };
    assert_eq!(
        text(lanes, false),
        vec![
            "xxlxor v0, v0, v0",
            "vcmpequh. v0, v4, v0",
            "li r3, 1",
            "li r0, 0",
            "isel r3, r3, r0, cr6eq",
        ]
    );
}

#[test]
fn memory_accesses_reach_their_address() {
    let flags = MemFlagsData::trusted();
    let load = |op, from| text(Inst::Load { rd: w(gpr(3)), op, flags, from }, false);
    assert_eq!(load(LoadOP::Ld, AMode::SPOffset(8)), vec!["ld r3, 8(r1)"]);
    // Not a multiple of four: no displacement form.
    assert_eq!(load(LoadOP::Ld, AMode::SPOffset(6)), vec!["li r0, 6", "ldx r3, r1, r0"]);
    assert_eq!(load(LoadOP::Lwz, AMode::FPOffset(-0x8000)), vec!["lwz r3, -0x8000(r31)"]);
    assert_eq!(
        text(
            Inst::Store { src: gpr(3), op: StoreOP::Stw, flags, to: AMode::RegOffset(gpr(5), 0x8000) },
            false
        ),
        vec!["lis r0, 0", "ori r0, r0, 0x8000", "stwx r3, r5, r0"]
    );
    // Slots lie above the outgoing arguments, incoming arguments above the frame.
    let addr = |mem| text(Inst::LoadAddr { rd: w(gpr(3)), mem }, false);
    assert_eq!(addr(AMode::SlotOffset(8)), vec!["addi r3, r1, 0x38"]);
    assert_eq!(addr(AMode::IncomingArg(8)), vec!["addi r3, r1, 0x58"]);
}

#[test]
fn vector_accesses_depend_on_the_facility() {
    let flags = MemFlagsData::trusted();
    let load =
        |isa| text(Inst::VecLoad { rd: w(vr(3)), from: AMode::SPOffset(16), flags }, isa);
    let store = |isa| text(Inst::VecStore { rs: vr(3), to: AMode::SPOffset(0), flags }, isa);
    assert_eq!(load(true), vec!["li r0, 0x10", "lxvx v3, r1, r0"]);
    assert_eq!(load(false), vec!["li r0, 0x10", "lxvd2x v3, r1, r0", "xxswapd v3, v3"]);
    assert_eq!(store(true), vec!["stxvx v3, 0, r1"]);
    assert_eq!(store(false), vec!["xxswapd v0, v3", "stxvd2x v0, 0, r1"]);
}

#[test]
fn faulting_accesses_are_recorded() {
    let flags = MemFlagsData { trap: Some(TrapCode::HeapOutOfBounds) };
    let inst = Inst::Load { rd: w(gpr(3)), op: LoadOP::Ld, flags, from: AMode::SPOffset(8) };
    let sink = emitted(inst, false);
    assert!(matches!(sink.log()[0], Emission::Trap { code: TrapCode::HeapOutOfBounds }));
    let inst = Inst::Load {
        rd: w(gpr(3)),
        op: LoadOP::Ld,
        flags: MemFlagsData::trusted(),
        from: AMode::SPOffset(8),
    };
    assert_eq!(emitted(inst, false).log().len(), 1);
}

#[test]
fn comparisons_become_registers_and_choices() {
    let kind = less_than();
    assert_eq!(
        text(Inst::CmpSet { rd: w(gpr(5)), kind }, false),
        vec!["cmpd r3, r4", "li r5, 1", "li r0, 0", "isel r5, r5, r0, cr0lt"]
    );
    let ge = kind.inverse();
    assert_eq!(ge.kind, IntCC::SignedGreaterThanOrEqual);
    assert_eq!(
        text(Inst::CmpSet { rd: w(gpr(5)), kind: ge }, false),
        vec!["cmpd r3, r4", "li r5, 1", "isel r5, 0, r5, cr0lt"]
    );
    assert_eq!(
        text(Inst::Select { rd: w(gpr(5)), kind, rt: gpr(6), rf: gpr(7) }, false),
        vec!["cmpd r3, r4", "isel r5, r6, r7, cr0lt"]
    );
    assert_eq!(
        text(Inst::Select { rd: w(gpr(5)), kind: ge, rt: gpr(6), rf: gpr(7) }, false),
        vec!["cmpd r3, r4", "isel r5, r7, r6, cr0lt"]
    );
    let fkind = FloatCompare { kind: FloatCC::LessThanOrEqual, rs1: fpr(3), rs2: fpr(4) };
    assert_eq!(
        text(Inst::FpuCmpSet { rd: w(gpr(5)), kind: fkind }, false),
        vec![
            "fcmpu cr0, f3, f4",
            "cror cr0eq, cr0lt, cr0eq",
            "li r5, 1",
            "li r0, 0",
            "isel r5, r5, r0, cr0eq",
        ]
    );
}

#[test]
fn branches_can_be_inverted() {
    let taken = MachLabel { index: 4 };
    let other = MachLabel { index: 5 };
    let inst = Inst::CondBr {
        taken: CondBrTarget::Label(taken),
        not_taken: CondBrTarget::Label(other),
        kind: less_than(),
    };
    let sink = emitted(inst, false);
    let log = sink.log();
    assert!(matches!(log[1], Emission::UseLabel { label, kind: LabelUse::Branch16 } if label == taken));
    assert!(matches!(log[2], Emission::CondBranch { label, inverted: 0x4080_0000 } if label == taken));
    assert!(matches!(log[3], Emission::Word(0x4180_0000)));
    assert!(matches!(log[4], Emission::UseLabel { label, kind: LabelUse::Branch26 } if label == other));
    assert!(matches!(log[5], Emission::UncondBranch { label } if label == other));
    assert!(matches!(log[6], Emission::Word(0x4800_0000)));
}

#[test]
fn a_trap_on_a_condition_branches_around_it() {
    let inst = Inst::TrapIf { kind: less_than(), trap_code: TrapCode::HeapOutOfBounds };
    assert_eq!(
        text(inst, false),
        vec!["cmpd r3, r4", "bge ", ".byte 0x00, 0x00, 0x00, 0x00"]
    );
}

#[test]
fn a_branch_table_computes_its_entry() {
    let labels: Vec<MachLabel> = (0..3u32).map(|index| MachLabel { index }).collect();
    let inst =
        Inst::BrTable { index: gpr(3), tmp1: w(gpr(4)), tmp2: w(gpr(5)), targets: labels };
    let mut sink = MachBuffer::new();
    for _ in 0..3 {
        sink.get_label();
    }
    emit_into(&mut sink, &inst, false);
    let ws = words_of(&sink);
    // The linked address is that of the mflr, and the table starts 24 bytes behind it.
    let mflr = ws.iter().position(|x| *x == 0x7C88_02A6).unwrap();
    assert_eq!(ws[mflr + 3], 0x3884_0018);
    assert_eq!(&ws[mflr + 6..], &[0x4800_0000, 0x4800_0000]);
    let mut uses = vec![];
    for op in sink.log() {
        if let Emission::UseLabel { label, kind: LabelUse::Branch26 } = op {
            uses.push(label.index);
        }
    }
    assert_eq!(uses, vec![0, 1, 2]);
}

#[test]
fn atomic_loops() {
    let rmw = |op, ty| {
        text(Inst::AtomicRmw { op, rd: w(gpr(3)), addr: gpr(4), src: gpr(5), ty }, false)
    };
    assert_eq!(
        rmw(AtomicRmwOp::Add, Type::I64),
        vec![
            "sync ", "ldarx r3, 0, r4", "add r0, r3, r5", "stdcx. r0, 0, r4", "bne ", "isync ",
        ]
    );
    assert_eq!(
        rmw(AtomicRmwOp::Smax, Type::I32),
        vec![
            "sync ", "lwarx r3, 0, r4", "extsw r0, r3", "cmpd r0, r5",
            "isel r0, r5, r3, cr0lt", "stwcx. r0, 0, r4", "bne ", "isync ",
        ]
    );
    let cas = Inst::AtomicCas {
        rd: w(gpr(3)),
        addr: gpr(4),
        expected: gpr(5),
        new: gpr(6),
        ty: Type::I16,
    };
    assert_eq!(
        text(cas, false),
        vec![
            "sync ", "lharx r3, 0, r4", "cmpld r3, r5", "bne ", "sthcx. r6, 0, r4", "bne ",
            "isync ",
        ]
    );
    let load = Inst::AtomicLoad { rd: w(gpr(3)), addr: gpr(4), ty: Type::I64 };
    assert_eq!(
        text(load, false),
        vec!["sync ", "ldx r3, 0, r4", "cmpd r3, r3", "bne 0x10", "isync "]
    );
    let store = Inst::AtomicStore { src: gpr(3), addr: gpr(4), ty: Type::I32 };
    assert_eq!(text(store, false), vec!["sync ", "stwx r3, 0, r4"]);
    assert_eq!(text(Inst::Fence, false), vec!["sync "]);
}

/// One pass of an atomic loop over a memory of sixteen bytes, where a conditional store
/// finds its reservation kept or lost. Gives back whether the loop goes back.
fn atomic_pass(inst: Inst, gpr: &mut [u64; 32], mem: &mut u128, kept: bool) -> bool {
    let sink = emitted(inst, false);
    let log = sink.log();
    let mut equal = false;
    let mut pc = 0;
    while pc < log.len() {
        match log[pc] {
            Emission::BindLabel { .. } => {}
            Emission::UseLabel { label, .. } => {
                // The branch word is a `bne`.
                assert!(matches!(log[pc + 1], Emission::Word(0x4082_0000)));
                let bound = |op: &Emission| matches!(op, Emission::BindLabel { label: l } if *l == label);
                match log[pc..].iter().position(bound) {
                    _ if equal => pc += 1,
                    Some(k) => pc += k,
                    None => return true,
                }
            }
            Emission::Word(w) => {
                let (r, b) = ((w >> 21 & 31) as usize, (w >> 11 & 31) as usize);
                let a = (w >> 16 & 31) as usize;
                match (w >> 26, w >> 1 & 0x3FF) {
                    (19, 150) | (31, 598) => {}
                    (31, 52) => gpr[r] = *mem as u8 as u64,
                    (31, 116) => gpr[r] = *mem as u16 as u64,
                    (31, 20) => gpr[r] = *mem as u32 as u64,
                    (31, 84) => gpr[r] = *mem as u64,
                    (31, 276) => (gpr[r], gpr[r + 1]) = ((*mem >> 64) as u64, *mem as u64),
                    (31, 32) => equal = gpr[a] == gpr[b],
                    (31, 266) => gpr[r] = gpr[a].wrapping_add(gpr[b]),
                    (31, xo) => {
                        assert_eq!(w & 1, 1);
                        let (value, bits) = match xo {
                            694 => (gpr[r] as u128, 8),
                            726 => (gpr[r] as u128, 16),
                            150 => (gpr[r] as u128, 32),
                            214 => (gpr[r] as u128, 64),
                            182 => ((gpr[r] as u128) << 64 | gpr[r + 1] as u128, 128),
                            _ => panic!("not part of an atomic loop"),
                        };
                        let mask = u128::MAX >> (128 - bits);
                        if kept {
                            *mem = *mem & !mask | value & mask;
                        }
                        equal = kept;
                    }
                    _ => panic!("not part of an atomic loop"),
                }
            }
            _ => panic!("not part of an atomic loop"),
        }
        pc += 1;
    }
    false
}

#[test]
fn a_compare_and_swap_stores_what_it_should() {
    let before: u128 = 0x0123_4567_89AB_CDEF_FEDC_BA98_7654_3210;
    for (ty, bits) in [(Type::I8, 8), (Type::I16, 16), (Type::I32, 32), (Type::I64, 64u32)] {
        let cas = || Inst::AtomicCas {
            rd: w(gpr(3)),
            addr: gpr(4),
            expected: gpr(5),
            new: gpr(6),
            ty,
        };
        let mask = u128::MAX >> (128 - bits);
        let held = (before & mask) as u64;
        for (expected, kept) in [(held, true), (held, false), (held ^ 1, true)] {
            let mut regs = [0u64; 32];
            let mut mem = before;
            (regs[5], regs[6]) = (expected, 0x1122_3344_5566_7788);
            let again = atomic_pass(cas(), &mut regs, &mut mem, kept);
            assert_eq!(regs[3], held);
            assert_eq!(again, expected == held && !kept);
            let stored = before & !mask | 0x1122_3344_5566_7788 & mask;
            assert_eq!(mem, if expected == held && kept { stored } else { before });
        }
    }
}

#[test]
fn a_compare_and_swap_of_a_quadword_stores_what_it_should() {
    let before: u128 = 0x0123_4567_89AB_CDEF_FEDC_BA98_7654_3210;
    let (hi, lo) = ((before >> 64) as u64, before as u64);
    for (x, y, kept) in [(hi, lo, true), (hi, lo, false), (hi ^ 1, lo, true), (hi, lo ^ 1, true)] {
        let cas = Inst::AtomicCas128 {
            rd_lo: w(gpr(9)),
            rd_hi: w(gpr(8)),
            addr: gpr(3),
            exp_lo: gpr(5),
            exp_hi: gpr(4),
            new_lo: gpr(7),
            new_hi: gpr(6),
        };
        let mut regs = [0u64; 32];
        let mut mem = before;
        (regs[4], regs[5], regs[6], regs[7]) = (x, y, 11, 22);
        let equal = (x, y) == (hi, lo);
        let again = atomic_pass(cas, &mut regs, &mut mem, kept);
        assert_eq!((regs[8], regs[9]), (hi, lo));
        assert_eq!(again, equal && !kept);
        assert_eq!(mem, if equal && kept { 11u128 << 64 | 22 } else { before });
    }
}

#[test]
fn a_read_modify_write_stores_what_it_makes() {
    for kept in [true, false] {
        let add = Inst::AtomicRmw {
            op: AtomicRmwOp::Add,
            rd: w(gpr(3)),
            addr: gpr(4),
            src: gpr(5),
            ty: Type::I16,
        };
        let mut regs = [0u64; 32];
        let mut mem: u128 = 0x7_FFFF;
        regs[5] = 3;
        assert_eq!(atomic_pass(add, &mut regs, &mut mem, kept), !kept);
        assert_eq!(regs[3], 0xFFFF);
        assert_eq!(mem, if kept { 0x7_0002 } else { 0x7_FFFF });
    }
}

#[test]
fn bytes_are_swapped_through_memory() {
    let swap = |ty| text(Inst::Bswap { rd: w(gpr(3)), rn: gpr(4), ty }, false);
    assert_eq!(
        swap(Type::I16),
        vec!["addi r0, r1, -0x10", "sth r4, -0x10(r1)", "lhbrx r3, 0, r0"]
    );
    assert_eq!(
        swap(Type::I64),
        vec!["addi r0, r1, -0x10", "std r4, -0x10(r1)", "ldbrx r3, 0, r0"]
    );
}

#[test]
fn calls_are_relocated() {
    let info = CallInfo::empty(ExternalName::User(3), CallConv::SystemV);
    let sink = emitted(Inst::Call { info: Box::new(info) }, false);
    let log = sink.log();
    assert!(matches!(
        log[0],
        Emission::Relocation { kind: Reloc::Ppc64Call, name: ExternalName::User(3), addend: 0 }
    ));
    assert!(matches!(log[1], Emission::Word(0x4800_0001)));
    assert!(matches!(log[2], Emission::CallSite));
}

#[test]
fn a_tail_call_tears_the_frame_down() {
    let info = ReturnCallInfo { dest: gpr(12), uses: vec![], new_stack_arg_size: 0 };
    assert_eq!(
        text(Inst::ReturnCallInd { info: Box::new(info) }, false),
        vec![
            "ld r0, 0x58(r1)",
            "mtlr r0",
            "ld r31, 0x50(r1)",
            "addi r1, r1, 0x60",
            "mtctr r12",
            "bctr ",
        ]
    );
}

#[test]
fn a_tail_call_restores_vectors() {
    let saved = |hw_enc, class| Writable::from_reg(RealReg { hw_enc, class });
    let mut layout = frame();
    layout.clobber_size = 48;
    layout.clobbered_callee_saves = vec![
        saved(14, RegClass::Int),
        saved(15, RegClass::Float),
        saved(20, RegClass::Vector),
    ];
    let info = ReturnCallInfo { dest: gpr(12), uses: vec![], new_stack_arg_size: 0 };
    let inst = Inst::ReturnCallInd { info: Box::new(info) };
    let emit_info = EmitInfo::new(shared(), Ppc64Flags { has_isa_3_0: true, has_isa_3_1: false });
    let mut sink = MachBuffer::new();
    inst.emit(&mut sink, &emit_info, &mut EmitState::new(layout));
    // The frame record is 128 bytes up; the vector has the quadword below the two
    // doublewords.
    let ws = words_of(&sink);
    assert_eq!(ws[0], 0xE9C1_0078); // ld r14, 120(r1)
    assert_eq!(ws[1], 0xC9E1_0070); // lfd f15, 112(r1)
    assert_eq!(ws[2], 0x3800_0060); // li r0, 96
    assert_eq!(ws[3], 0x7E81_0219); // lxvx vs52, r1, r0
    assert_eq!(ws[4], 0xE801_0088); // ld r0, 136(r1)
}

#[test]
fn a_call_fetches_its_results() {
    let result = |vreg, location| CallRetPair { vreg: w(vreg), location };
    let on_stack = StackAMode::OutgoingArg(32);
    let mut info = CallInfo::empty(ExternalName::User(3), CallConv::SystemV);
    info.defs = vec![
        result(gpr(3), RetLocation::Reg(gpr(3), Type::I64)),
        result(gpr(14), RetLocation::Stack(on_stack, Type::I64)),
    ];
    info.retval_moves = vec![
        RetvalMove::Island(40),
        RetvalMove::Load { mem: on_stack, into: w(gpr(14)), ty: Type::I64 },
        RetvalMove::Spill { slot: 8, from: gpr(14), ty: Type::I64 },
    ];
    let sink = emitted(Inst::Call { info: Box::new(info) }, false);
    // The spill slot is above 48 bytes of outgoing arguments and 32 of stack slots.
    assert_eq!(words_of(&sink), vec![0x4800_0001, 0xE9C1_0020, 0xF9C1_0058]);
}

#[test]
fn a_call_with_handlers_goes_on_elsewhere() {
    let label = |index| MachLabel { index };
    let mut info = CallInfo::empty(gpr(12), CallConv::SystemV);
    info.try_call_info = Some(TryCallInfo {
        continuation: label(7),
        handlers: vec![
            TryCallHandler::ContextSpill(16),
            TryCallHandler::Tag(5, label(1)),
            TryCallHandler::ContextReg(gpr(20)),
            TryCallHandler::Default(label(2)),
        ],
        operands: vec![],
    });
    let sink = emitted(Inst::CallInd { info: Box::new(info) }, false);
    let log = sink.log();
    assert!(matches!(log[2], Emission::TryCallSite { sp_to_fp: 80, handlers: 4 }));
    let handler = |i: usize| match &log[i] {
        Emission::Handler { handler } => *handler,
        _ => panic!("no handler"),
    };
    assert_eq!(handler(3), ExceptionHandler::ContextAt(48 + 32 + 16));
    assert_eq!(handler(4), ExceptionHandler::Tag(5, label(1)));
    assert_eq!(handler(5), ExceptionHandler::ContextReg(gpr(20)));
    assert_eq!(handler(6), ExceptionHandler::Default(label(2)));
    assert!(matches!(log[7], Emission::UseLabel { label: MachLabel { index: 7 }, .. }));
    assert_eq!(words_of(&sink), vec![0x7D89_03A6, 0x4E80_0421, 0x4800_0000]);
}

#[test]
fn short_vectors_are_doublewords() {
    let flags = MemFlagsData::trusted();
    let load = Inst::gen_load(w(vr(3)), AMode::SPOffset(16), Type::I8X8, flags);
    assert_eq!(text(load, false), vec!["li r0, 0x10", "lxsdx v3, r1, r0"]);
    let store = Inst::gen_store(AMode::SPOffset(0), vr(3), Type::F32X2, flags);
    assert_eq!(text(store, true), vec!["stxsdx v3, 0, r1"]);
}

#[test]
fn lanes_of_every_width_rotate() {
    let rotate = |ty| {
        text(Inst::VecAluRRR { op: VecAluOp::Rotl, rd: w(vr(3)), ra: vr(4), rb: vr(5), ty }, false)
    };
    assert_eq!(rotate(Type::I8X16), vec!["vrlb v3, v4, v5"]);
    assert_eq!(rotate(Type::I16X8), vec!["vrlh v3, v4, v5"]);
    assert_eq!(rotate(Type::I32X4), vec!["vrlw v3, v4, v5"]);
    assert_eq!(rotate(Type::I64X2), vec!["vrld v3, v4, v5"]);
    assert_eq!(rotate(Type::I8X8), vec!["vrlb v3, v4, v5"]);
}

#[test]
fn names_are_loaded_from_a_literal() {
    let inst = Inst::LoadExtName { rd: w(gpr(3)), name: ExternalName::User(1), offset: 8 };
    let sink = emitted(inst, false);
    assert_eq!(sink.cur_offset(), 24);
    assert_eq!(sink.data().len(), 24);
    let mut found = false;
    for op in sink.log() {
        if let Emission::Relocation { kind: Reloc::Abs8, name, addend } = op {
            assert_eq!((*name, *addend), (ExternalName::User(1), 8));
            found = true;
        }
    }
    assert!(found);
}

#[test]
fn emission_appends() {
    let mut sink = MachBuffer::new();
    emit_into(&mut sink, &Inst::Nop4, false);
    let kind = less_than();
    emit_into(&mut sink, &Inst::CmpSet { rd: w(gpr(5)), kind }, false);
    assert_eq!(words_of(&sink)[0], 0x6000_0000);
    assert_eq!(sink.cur_offset() as usize, sink.data().len());
    assert_eq!(sink.cur_offset(), 20);
    emit_into(&mut sink, &Inst::Nop0, false);
    assert_eq!(sink.cur_offset(), 20);
}
