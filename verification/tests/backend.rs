//! What the backend answers, and the parts that stand beside code generation.
use ppc64::args::{AMode, CondBrTarget, FloatCompare, IntegerCompare, StackAMode};
use ppc64::backend::{
    isa_builder, Architecture, Ppc64Backend, TargetIsa, TargetIsaExtras, Triple, UnwindInfoKind,
};
use ppc64::buffer::{MachBuffer, MachLabel, UnwindInst};
use ppc64::cvt::cvt_to_int_bounds;
use ppc64::disas::{skipping, told, DisassemblerError};
use ppc64::fiber::{initial_stack, initial_stack_address, FiberStart, LR_SLOT};
use ppc64::inst::{
    AluOp, CallArgPair, CallInfo, CallRetPair, CallType, Inst, MachTerminator, RetLocation,
    RetvalMove, TryCallHandler, TryCallInfo,
};
use ppc64::ir::{
    ArgumentExtension, CallConv, CodegenError, ExternalName, FloatCC, IntCC, Ppc64Flags, Reloc,
    SharedFlags, TrapCode, Type,
};
use ppc64::isle::{CallEffects, Ppc64IsleContext, SigData};
use ppc64::label_use::LabelUse;
use ppc64::operands::{Operand, OperandCollector};
use ppc64::regs::{
    a0, call_target_reg, fp_reg, fpr, gpr, pfpr, pgpr, pvr, reg_name, spilltmp_reg, stack_reg, vr,
    zero_scratch_reg, RealReg, Reg, RegClass, Writable,
};
use ppc64::settings::{define, Builder, SettingError, SettingValue};
use ppc64::systemv::{create_cie, map_reg, RegisterMapper};
use ppc64::unwinder::{assert_fp_is_aligned, fp_is_aligned, next_older_pc_index};

fn shared() -> SharedFlags {
    SharedFlags {
        preserve_frame_pointers: true,
        unwind_info: false,
        enable_multi_ret_implicit_sret: false,
    }
}

fn ppc64le() -> Triple {
    Triple { architecture: Architecture::Powerpc64le }
}

fn backend() -> Ppc64Backend {
    isa_builder(ppc64le()).finish(shared())
}

fn w(r: Reg) -> Writable<Reg> {
    Writable::from_reg(r)
}

#[test]
fn a_backend_keeps_what_it_is_made_with() {
    let b = Ppc64Backend::new_with_flags(
        ppc64le(),
        shared(),
        Ppc64Flags { has_isa_3_0: true, has_isa_3_1: false },
    );
    assert_eq!(b.name(), "ppc64");
    assert_eq!(*b.triple(), ppc64le());
    assert_eq!(*b.flags(), shared());
    let flags = b.isa_flags();
    assert_eq!(flags.len(), 2);
    assert_eq!(flags[0].name, "has_isa_3_0");
    assert!(flags[0].value);
    assert_eq!(flags[1].name, "has_isa_3_1");
    assert!(!flags[1].value);
    assert!(b.emit_info().isa_flags.has_isa_3_0);
    assert_eq!(b.dynamic_vector_bytes(Type::I8X16), 16);
    assert_eq!(b.page_size_align_log2(), 16);
    assert_eq!(b.function_alignment().minimum, 4);
    assert!(!b.has_native_fma());
    assert!(b.has_round());
    assert!(!b.has_blendv_lowering(Type::I8X16));
    assert_eq!(b.default_argument_extension(), ArgumentExtension::Unextended);
    assert_eq!(b.pretty_print_reg(gpr(1), 8), "sp");
}

#[test]
fn settings_are_cumulative() {
    let g = define();
    assert_eq!(g.name, "ppc64");
    assert_eq!(g.settings.len(), 2);
    assert_eq!(g.presets[0].name, "power9");
    assert_eq!(g.presets[0].values, vec![true, false]);
    assert_eq!(g.presets[1].values, vec![true, true]);
    let mut b = Builder::new();
    assert!(!b.has_isa_3_0 && !b.has_isa_3_1);
    assert_eq!(b.enable(&"power11".to_string()), Err(SettingError::BadName));
    assert_eq!(b.enable(&"power10".to_string()), Ok(()));
    assert!(b.has_isa_3_0 && b.has_isa_3_1);
    assert_eq!(b.enable(&"power9".to_string()), Ok(()));
    assert!(b.has_isa_3_1);
    let mut b = Builder::new();
    assert_eq!(b.enable(&"has_isa_3_1".to_string()), Ok(()));
    assert!(!b.flags().has_isa_3_0 && b.flags().has_isa_3_1);
}

#[test]
fn the_builder_hands_its_settings_on() {
    let mut builder = isa_builder(ppc64le());
    builder.setup.enable(&"power9".to_string()).unwrap();
    let b = builder.finish(shared());
    assert!(b.isa_flags()[0].value);
    assert!(!b.isa_flags()[1].value);
}

#[test]
fn vectors_are_supported_where_they_are() {
    let flag = |name: &str, value| SettingValue { name: name.to_string(), value };
    let isa = |architecture, isa_flags| TargetIsa { triple: Triple { architecture }, isa_flags };
    assert!(isa(Architecture::Powerpc64le, vec![]).supports_simd());
    assert!(isa(Architecture::Other, vec![]).supports_simd());
    assert!(!isa(Architecture::Riscv64, vec![]).supports_simd());
    assert!(isa(Architecture::Riscv64, vec![flag("has_m", false), flag("has_v", true)])
        .supports_simd());
    assert!(!isa(Architecture::Riscv64, vec![flag("has_v", false), flag("has_v", true)])
        .supports_simd());
}

#[test]
fn the_disassembler_skips_data() {
    let cs = match backend().to_capstone() {
        Ok(cs) => cs,
        Err(_) => panic!("no disassembler"),
    };
    let bytes = [0, 0, 0, 0, 0, 0, 0, 0x60, 0x20, 0, 0x80, 0x4E];
    let insns = cs.disasm_all(&bytes, 0).unwrap();
    let names: Vec<&str> = insns.iter().map(|i| i.mnemonic().unwrap()).collect();
    assert_eq!(names, vec![".byte", "nop", "blr"]);
    let failed: Result<capstone::Capstone, capstone::Error> =
        Err(capstone::Error::UnsupportedArch);
    assert!(matches!(
        skipping(failed),
        Err(DisassemblerError::NotBuilt(capstone::Error::UnsupportedArch))
    ));
    let cs = backend().to_capstone().ok().unwrap();
    let refused = told(cs, Err(capstone::Error::InvalidOption));
    assert!(matches!(
        refused,
        Err(DisassemblerError::NotSkipping(capstone::Error::InvalidOption))
    ));
    let cs = backend().to_capstone().ok().unwrap();
    assert!(told(cs, Ok(())).is_ok());
}

#[test]
fn unwind_information_starts_at_the_stack_pointer() {
    let entry = create_cie();
    let mut same = gimli::write::CommonInformationEntry::new(
        gimli::Encoding { address_size: 8, format: gimli::Format::Dwarf32, version: 1 },
        4,
        -8,
        gimli::Register(65),
    );
    assert!(entry != same);
    same.add_instruction(gimli::write::CallFrameInstruction::Cfa(gimli::Register(1), 0));
    assert!(entry == same);
    assert!(backend().create_systemv_cie().unwrap() == same);
}

#[test]
fn registers_have_dwarf_numbers() {
    assert_eq!(map_reg(gpr(31)).unwrap().0, 31);
    assert_eq!(map_reg(fpr(0)).unwrap().0, 32);
    assert_eq!(map_reg(fpr(31)).unwrap().0, 63);
    assert_eq!(map_reg(vr(0)).unwrap().0, 77);
    assert_eq!(map_reg(vr(31)).unwrap().0, 108);
    assert_eq!(backend().map_regalloc_reg_to_dwarf(fpr(1)), Ok(33));
    let mapper = RegisterMapper;
    assert_eq!(mapper.map(gpr(3)), Ok(3));
    assert_eq!(mapper.fp(), Some(31));
    assert_eq!(mapper.lr(), Some(65));
    assert_eq!(mapper.lr_offset(), Some(8));
    let mut seen = vec![];
    for n in 0..32 {
        for r in [gpr(n), fpr(n), vr(n)] {
            let d = map_reg(r).unwrap().0;
            assert!(!seen.contains(&d));
            seen.push(d);
        }
    }
}

#[test]
fn unwind_records_carry_their_offset() {
    let mut sink = MachBuffer::new();
    sink.put4(0x6000_0000);
    sink.add_unwind(UnwindInst::PushFrameRegs { offset_upward_to_caller_sp: 16 });
    sink.put8(0);
    sink.add_unwind(UnwindInst::DefineNewFrame {
        offset_upward_to_caller_sp: 16,
        offset_downward_to_clobbers: 0,
    });
    let r = backend().emit_unwind_info(&sink, UnwindInfoKind::SystemV).unwrap();
    assert_eq!(r.code_len, 12);
    assert_eq!(r.records.len(), 2);
    assert_eq!(r.records[0].0, 4);
    assert_eq!(r.records[1].0, 12);
    assert!(backend().emit_unwind_info(&sink, UnwindInfoKind::Windows).is_none());
    assert!(backend().emit_unwind_info(&sink, UnwindInfoKind::Nothing).is_none());
}

#[test]
fn register_names_and_numbers() {
    assert_eq!(reg_name(gpr(0)), "r0");
    assert_eq!(reg_name(stack_reg()), "sp");
    assert_eq!(reg_name(fp_reg()), "fp");
    assert_eq!(reg_name(fpr(7)), "f7");
    assert_eq!(reg_name(vr(9)), "v9");
    assert_eq!(zero_scratch_reg(), gpr(0));
    assert_eq!(spilltmp_reg(), gpr(11));
    assert_eq!(call_target_reg(), gpr(12));
    assert_eq!(a0(), gpr(3));
    let ints = regalloc2::RegClass::Int;
    for n in 0..32usize {
        assert_eq!(pgpr(n).index as usize, regalloc2::PReg::new(n, ints).index());
        let float = regalloc2::RegClass::Float;
        assert_eq!(pfpr(n).index as usize, regalloc2::PReg::new(n, float).index());
        let vector = regalloc2::RegClass::Vector;
        assert_eq!(pvr(n).index as usize, regalloc2::PReg::new(n, vector).index());
        assert_eq!(vr(n).to_real_reg().unwrap().hw_enc as usize, n);
    }
    assert!(Reg::virtual_reg(0, RegClass::Int).to_real_reg().is_none());
}

#[test]
fn branches_are_patched() {
    // b $+0 to b $+0x100.
    let mut b = [0x00, 0x00, 0x00, 0x48];
    LabelUse::Branch26.patch(&mut b, 0x1000, 0x1100);
    assert_eq!(u32::from_le_bytes(b), 0x4800_0100);
    // bl backward.
    let mut b = [0x01, 0x00, 0x00, 0x48];
    LabelUse::Branch26.patch(&mut b, 0x1000, 0xFFC);
    assert_eq!(u32::from_le_bytes(b), 0x4BFF_FFFD);
    // blt backward.
    let mut b = [0x00, 0x00, 0x80, 0x41];
    LabelUse::Branch16.patch(&mut b, 0x1000, 0x800);
    assert_eq!(u32::from_le_bytes(b), 0x4180_F800);
    assert_eq!(LabelUse::Branch16.max_pos_range(), 0x7FFC);
    assert_eq!(LabelUse::Branch16.max_neg_range(), 0x8000);
    assert_eq!(LabelUse::Branch26.max_pos_range(), 0x1FF_FFFC);
    assert_eq!(LabelUse::PCRelHiLo.max_pos_range(), 0x7FFF_7FFB);
}

#[test]
fn label_addresses_are_split_in_halves() {
    // addis r3, r3, 0 and addi r3, r3, 0, with 0x18000 + 4 from four bytes before.
    let mut b = [0x00, 0x00, 0x63, 0x3C, 0x00, 0x00, 0x63, 0x38];
    LabelUse::PCRelHiLo.patch(&mut b, 0x100, 0x100 + 0x1_8000);
    let hi = u32::from_le_bytes([b[0], b[1], b[2], b[3]]);
    let lo = u32::from_le_bytes([b[4], b[5], b[6], b[7]]);
    // The low half is negative, so the high half is one more.
    assert_eq!(hi, 0x3C63_0002);
    assert_eq!(lo, 0x3863_8004);
    let sum = ((hi & 0xFFFF) as i16 as i64) * 0x1_0000 + (lo & 0xFFFF) as i16 as i64;
    assert_eq!(sum, 0x1_8004);
    assert_eq!(LabelUse::PCRelHiLo.patch_size(), 8);
}

#[test]
fn conditional_branches_have_veneers() {
    assert!(LabelUse::Branch16.supports_veneer());
    assert!(!LabelUse::Branch26.supports_veneer());
    let mut b = [0xFF; 6];
    let (at, kind) = LabelUse::Branch16.generate_veneer(&mut b, 0x40);
    assert_eq!((at, kind), (0x40, LabelUse::Branch26));
    assert_eq!(b, [0x00, 0x00, 0x00, 0x48, 0xFF, 0xFF]);
    assert_eq!(LabelUse::from_reloc(Reloc::Ppc64Call, 0), Some(LabelUse::Branch26));
    assert_eq!(LabelUse::from_reloc(Reloc::Ppc64Call, 4), None);
    assert_eq!(LabelUse::from_reloc(Reloc::Abs8, 0), None);
}

#[test]
fn comparisons_read_the_right_bit() {
    let c = |kind| IntegerCompare { kind, rs1: gpr(3), rs2: gpr(4), is_64: true };
    assert_eq!(c(IntCC::Equal).bit_and_polarity(), (2, true));
    assert_eq!(c(IntCC::SignedLessThanOrEqual).bit_and_polarity(), (1, false));
    assert_eq!(c(IntCC::UnsignedLessThan).bit_and_polarity(), (0, true));
    assert!(c(IntCC::SignedLessThan).is_signed());
    assert!(!c(IntCC::UnsignedLessThan).is_signed());
    for kind in [IntCC::Equal, IntCC::SignedGreaterThan, IntCC::UnsignedLessThanOrEqual] {
        let (bit, polarity) = c(kind).bit_and_polarity();
        assert_eq!(c(kind).inverse().bit_and_polarity(), (bit, !polarity));
    }
    assert_eq!(c(IntCC::Equal).enc_bc(8), 0x4182_0008);
    let f = |kind| FloatCompare { kind, rs1: fpr(1), rs2: fpr(2) };
    assert_eq!(f(FloatCC::Equal).cr_plan(), (None, 2, true));
    assert_eq!(f(FloatCC::LessThanOrEqual).cr_plan(), (Some((2, 0, 2)), 2, true));
    assert_eq!(f(FloatCC::Ordered).cr_plan(), (None, 3, false));
}

#[test]
fn conversion_bounds_are_exclusive() {
    let bounds = |single, signed, bits| {
        let (lo, hi) = cvt_to_int_bounds(single, signed, bits);
        (f64::from_bits(lo), f64::from_bits(hi))
    };
    assert_eq!(bounds(false, true, 8), (-129.0, 128.0));
    assert_eq!(bounds(false, false, 32), (-1.0, 4294967296.0));
    assert_eq!(bounds(false, true, 32), (-2147483649.0, 2147483648.0));
    assert_eq!(bounds(true, true, 32), (-2147483904.0, 2147483648.0));
    let (lo, hi) = bounds(false, true, 64);
    assert_eq!(hi, 9223372036854775808.0);
    // The next double above the lower bound is the least integer.
    assert!(lo < -9223372036854775808.0);
    assert_eq!(f64::from_bits(lo.to_bits() - 1), -9223372036854775808.0);
}

#[test]
fn a_fiber_starts_in_its_trampoline() {
    let s = FiberStart {
        top_of_stack: 0x1_0000,
        entry_point: 11,
        entry_arg0: 12,
        switch: 13,
        start: 14,
    };
    assert_eq!(initial_stack_address(&s), 0xFE00);
    let image = initial_stack(&s);
    assert_eq!(image.len(), 64);
    assert_eq!(image[0x150 / 8], 11);
    assert_eq!(image[0x158 / 8], 12);
    assert_eq!(image[0x160 / 8], 13);
    assert_eq!(image[0x1D8 / 8], 0x1_0000);
    assert_eq!(image[(LR_SLOT / 8) as usize], 14);
    assert_eq!(image[0x1F0 / 8], 0xFE00);
    assert_eq!(image.iter().filter(|x| **x == 0).count(), 58);
}

#[test]
fn frame_pointers_are_aligned() {
    assert!(fp_is_aligned(0x100));
    assert!(!fp_is_aligned(0x108));
    assert_fp_is_aligned(0x20);
    assert_eq!(next_older_pc_index(), 1);
}

#[test]
fn operands_in_order() {
    let mut c = OperandCollector::new();
    let inst = Inst::AluRRR { op: AluOp::Add, rd: w(gpr(3)), ra: gpr(4), rb: gpr(5) };
    inst.get_operands(&mut c);
    let v = c.operands();
    assert_eq!(v.len(), 3);
    assert!(matches!(v[0], Operand::Use(r) if r == gpr(4)));
    assert!(matches!(v[1], Operand::Use(r) if r == gpr(5)));
    assert!(matches!(v[2], Operand::Def(r) if r == gpr(3)));
    let mut c = OperandCollector::new();
    AMode::SPOffset(8).get_operands(&mut c);
    assert!(c.operands().is_empty());
    AMode::RegOffset(gpr(9), 0).get_operands(&mut c);
    assert!(matches!(c.operands()[0], Operand::Use(r) if r == gpr(9)));
    let mut c = OperandCollector::new();
    let info = CallInfo::empty(ExternalName::User(0), CallConv::SystemV);
    Inst::Call { info: Box::new(info) }.get_operands(&mut c);
    assert!(matches!(c.operands()[0], Operand::Clobbers(_)));
}

#[test]
fn calls_list_what_their_handlers_need() {
    let virtual_reg = |n| Reg::virtual_reg(n, RegClass::Int);
    let mut info = CallInfo::empty(virtual_reg(0), CallConv::SystemV);
    info.uses = vec![CallArgPair { vreg: virtual_reg(1), preg: gpr(3) }];
    info.defs = vec![
        CallRetPair {
            vreg: w(virtual_reg(2)),
            location: RetLocation::Reg(gpr(3), Type::I64),
        },
        CallRetPair {
            vreg: w(virtual_reg(3)),
            location: RetLocation::Stack(StackAMode::OutgoingArg(32), Type::I64),
        },
    ];
    info.try_call_info = Some(TryCallInfo {
        continuation: MachLabel { index: 0 },
        handlers: vec![TryCallHandler::Default(MachLabel { index: 1 })],
        operands: vec![Operand::Use(virtual_reg(4))],
    });
    let mut c = OperandCollector::new();
    Inst::CallInd { info: Box::new(info) }.get_operands(&mut c);
    let v = c.operands();
    assert_eq!(v.len(), 6);
    assert!(matches!(v[0], Operand::FixedUse(r, p) if r == virtual_reg(0) && p == gpr(12)));
    assert!(matches!(v[1], Operand::FixedUse(r, p) if r == virtual_reg(1) && p == gpr(3)));
    assert!(matches!(v[2], Operand::FixedDef(r, p) if r == virtual_reg(2) && p == gpr(3)));
    assert!(matches!(v[3], Operand::AnyDef(r) if r == virtual_reg(3)));
    assert!(matches!(v[4], Operand::Clobbers(_)));
    assert!(matches!(v[5], Operand::Use(r) if r == virtual_reg(4)));
}

#[test]
fn instructions_are_listed() {
    let add = Inst::AluRRR { op: AluOp::Add, rd: w(gpr(3)), ra: gpr(4), rb: gpr(5) };
    assert_eq!(add.pretty_print_inst(), "add r3, r4, r5");
    assert_eq!(AMode::FPOffset(-8).print(), "-8(fp)");
    assert_eq!(AMode::RegOffset(gpr(7), 16).print(), "16(r7)");
    assert_eq!(Inst::Ret.print_with_state(), "blr");
    assert_eq!(CondBrTarget::Label(MachLabel { index: 4 }).print(), "MachLabel(4)");
    assert_eq!(CondBrTarget::Fallthrough.print(), "0");
}

#[test]
fn saved_registers_are_listed_with_their_class() {
    let save = |hw_enc, class| {
        let reg = RealReg { hw_enc, class };
        Inst::Unwind { inst: UnwindInst::SaveReg { clobber_offset: 8, reg } }.print_with_state()
    };
    assert_eq!(save(14, RegClass::Int), "unwind SaveReg { clobber_offset: 8, reg: p14i }");
    assert_eq!(save(31, RegClass::Float), "unwind SaveReg { clobber_offset: 8, reg: p31f }");
    assert_eq!(save(20, RegClass::Vector), "unwind SaveReg { clobber_offset: 8, reg: p20v }");
}

#[test]
fn errors_and_flags_have_a_text() {
    assert_eq!(
        CodegenError::UnsupportedType(Type::F128).message(),
        "type not yet supported by the ppc64 backend: f128"
    );
    assert_eq!(
        CodegenError::TooManyReturnValues.message(),
        "Too many return values to fit in registers. Use a StructReturn argument instead. (#9510)"
    );
    let flags = SharedFlags {
        preserve_frame_pointers: true,
        unwind_info: false,
        enable_multi_ret_implicit_sret: true,
    };
    assert_eq!(
        flags.text(),
        "[shared]\nenable_multi_ret_implicit_sret = true\nunwind_info = false\n\
         preserve_frame_pointers = true\n"
    );
}

#[test]
fn instructions_say_what_they_are() {
    let mov = Inst::gen_move(w(gpr(3)), gpr(4), Type::I64);
    assert_eq!(mov.is_move(), Some((w(gpr(3)), gpr(4))));
    assert!(matches!(Inst::Rets { rets: vec![] }.is_term(), MachTerminator::Ret));
    assert!(matches!(Inst::gen_jump(MachLabel { index: 0 }).is_term(), MachTerminator::Branch));
    assert!(matches!(Inst::Nop4.is_term(), MachTerminator::NotATerminator));
    assert!(Inst::Udf { trap_code: TrapCode::User(1) }.is_trap());
    assert!(!Inst::Nop4.is_trap());
    let info = CallInfo::empty(gpr(12), CallConv::SystemV);
    let call = Inst::CallInd { info: Box::new(info) };
    assert!(call.is_safepoint());
    assert!(matches!(call.call_type(), CallType::Regular));
    assert_eq!(Inst::gen_nop_units(), vec![vec![0x00, 0x00, 0x00, 0x60]]);
    assert_eq!(Inst::worst_case_size(), 96);
}

#[test]
fn lowering_asks_for_temporaries() {
    let mut c = Ppc64IsleContext::new(CallConv::SystemV, vec![0, 64]);
    let r = c.gen_stack_addr(1, 8);
    assert_eq!(r, Reg::virtual_reg(0, RegClass::Int));
    assert!(matches!(c.insts[0], Inst::LoadAddr { mem: AMode::SlotOffset(72), .. }));
    let r = c.read_return_address();
    assert_eq!(r, Reg::virtual_reg(1, RegClass::Int));
    assert!(matches!(c.insts[1], Inst::Load { from: AMode::FPOffset(8), .. }));
    c.lower_br_table(r, vec![MachLabel { index: 0 }]);
    assert!(matches!(c.insts[2], Inst::BrTable { .. }));
    assert_eq!(c.vregs, 4);
    assert_eq!(c.simm16_from_imm64(-1), Some(0xFFFF));
    assert_eq!(c.simm16_from_imm64(0x7FFF), Some(0x7FFF));
    assert_eq!(c.simm16_from_imm64(0x8000), None);
    assert_eq!(c.shift_mask_u16(Type::I8), 7);
    assert_eq!(c.clz_narrow_adjust(Type::I16), 0xFFD0);
    assert_eq!(c.clz_narrow_adjust(Type::I64), 0);
    assert_eq!(c.ty_width_bit(Type::I16), 0x1_0000);
    let cmp = c.int_compare(&IntCC::Equal, gpr(3), gpr(4), Type::I32);
    assert!(!cmp.is_64);
    let sig = SigData {
        call_conv: CallConv::Tail,
        sized_stack_arg_space: 48,
        sized_stack_ret_space: 16,
    };
    let moves = vec![RetvalMove::Load {
        mem: StackAMode::OutgoingArg(48),
        into: w(gpr(14)),
        ty: Type::I64,
    }];
    let effects = CallEffects {
        clobbers: regalloc2::PRegSet::empty(),
        callee_pop_size: 48,
        retval_moves: moves.clone(),
    };
    let info = c.gen_call_info(sig, ExternalName::User(1), vec![], vec![], None, false, effects);
    assert_eq!(info.callee_pop_size, 48);
    assert_eq!(info.retval_moves, moves);
    assert!(info.clobbers == regalloc2::PRegSet::empty());
    assert_eq!(c.outgoing_args_size, 64);
    assert_eq!(info.caller_conv, CallConv::SystemV);
    assert_eq!(info.callee_conv, CallConv::Tail);
}
