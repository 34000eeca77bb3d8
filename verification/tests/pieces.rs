//! The instructions that the calling convention and the lowering rules ask for.
use ppc64::abi::Ppc64MachineDeps;
use ppc64::args::{AMode, CondBrTarget, LoadOP, StackAMode, StoreOP};
use ppc64::backend::{isa_builder, Architecture, Ppc64Backend, Triple};
use ppc64::buffer::{Emission, MachBuffer, MachLabel, UserStackMap};
use ppc64::emit::{EmitInfo, EmitState};
use ppc64::frame::FrameLayout;
use ppc64::inst::{AluOp, CallInfo, Inst};
use ppc64::ir::{
    ArgumentExtension, AtomicRmwOp, CallConv, ExternalName, FloatCC, FunctionCalls, IntCC,
    Ppc64Flags, SharedFlags, Type,
};
use ppc64::isle::{CallEffects, Ppc64IsleContext, SigData};
use ppc64::label_use::LabelUse;
use ppc64::regs::{fpr, gpr, vr, writable_spilltmp_reg, Reg, RegClass, Writable};

fn shared() -> SharedFlags {
    SharedFlags {
        preserve_frame_pointers: false,
        unwind_info: false,
        enable_multi_ret_implicit_sret: false,
    }
}

fn backend() -> Ppc64Backend {
    isa_builder(Triple { architecture: Architecture::Powerpc64le }).finish(shared())
}

fn frame() -> FrameLayout {
    FrameLayout {
        word_bytes: 8,
        incoming_args_size: 0,
        tail_args_size: 0,
        setup_area_size: 16,
        clobber_size: 0,
        fixed_frame_storage_size: 0,
        stackslots_size: 0,
        outgoing_args_size: 0,
        clobbered_callee_saves: vec![],
        function_calls: FunctionCalls::Regular,
    }
}

fn info() -> EmitInfo {
    EmitInfo::new(shared(), Ppc64Flags { has_isa_3_0: false, has_isa_3_1: false })
}

fn listing(inst: Inst) -> Vec<String> {
    let mut sink = MachBuffer::new();
    let mut state = EmitState::new(frame());
    inst.emit(&mut sink, &info(), &mut state);
    let cs = match backend().to_capstone() {
        Ok(cs) => cs,
        Err(_) => panic!("no disassembler"),
    };
    let insns = cs.disasm_all(&sink.data(), 0).unwrap();
    insns
        .iter()
        .map(|i| format!("{} {}", i.mnemonic().unwrap(), i.op_str().unwrap()))
        .collect()
}

fn w(r: Reg) -> Writable<Reg> {
    Writable::from_reg(r)
}

#[test]
fn places_on_the_stack_become_addresses() {
    // An argument counts from the end of its area.
    let i = Ppc64MachineDeps::gen_load_stack(
        StackAMode::IncomingArg(8, 48),
        w(gpr(3)),
        Type::I32,
    );
    assert!(matches!(
        i,
        Inst::Load { rd, op: LoadOP::Lwz, from: AMode::IncomingArg(40), .. } if rd == w(gpr(3))
    ));
    let i = Ppc64MachineDeps::gen_store_stack(StackAMode::OutgoingArg(32), fpr(1), Type::F64);
    assert!(matches!(
        i,
        Inst::Store { src, op: StoreOP::Stfd, to: AMode::SPOffset(32), .. } if src == fpr(1)
    ));
    let i = Ppc64MachineDeps::gen_load_stack(StackAMode::Slot(16), w(vr(2)), Type::I8X16);
    assert!(matches!(i, Inst::VecLoad { from: AMode::SlotOffset(16), .. }));
    let i = Ppc64MachineDeps::gen_store_stack(StackAMode::Slot(16), vr(2), Type::F32X4);
    assert!(matches!(i, Inst::VecStore { to: AMode::SlotOffset(16), .. }));
    let i = Ppc64MachineDeps::gen_get_stack_addr(StackAMode::OutgoingArg(40), w(gpr(3)));
    assert!(matches!(i, Inst::LoadAddr { mem: AMode::SPOffset(40), .. }));
}

#[test]
fn accesses_off_a_base() {
    let i = Ppc64MachineDeps::gen_load_base_offset(w(gpr(3)), gpr(4), -8, Type::I64);
    assert!(matches!(
        i,
        Inst::Load { op: LoadOP::Ld, from: AMode::RegOffset(r, -8), .. } if r == gpr(4)
    ));
    let i = Ppc64MachineDeps::gen_store_base_offset(gpr(4), 12, gpr(5), Type::I8);
    assert!(matches!(
        i,
        Inst::Store { op: StoreOP::Stb, to: AMode::RegOffset(r, 12), .. } if r == gpr(4)
    ));
    let v = Ppc64MachineDeps::gen_add_imm(CallConv::SystemV, w(gpr(3)), gpr(4), 0xFFFF_FFFF);
    assert_eq!(v.len(), 1);
    assert!(matches!(
        v.get(0),
        Inst::LoadAddr { mem: AMode::RegOffset(r, 0xFFFF_FFFF), .. } if *r == gpr(4)
    ));
}

#[test]
fn arguments_and_registers_of_the_convention() {
    let i = Ppc64MachineDeps::gen_extend(w(gpr(3)), gpr(4), true, 8, 64);
    assert_eq!(listing(i), vec!["extsb r3, r4"]);
    assert_eq!(
        Ppc64MachineDeps::get_ext_mode(CallConv::SystemV, ArgumentExtension::Sext),
        ArgumentExtension::Sext
    );
    let args = Ppc64MachineDeps::gen_args(vec![]);
    assert!(args.is_args());
    assert!(!args.is_included_in_clobbers());
    let rets = Ppc64MachineDeps::gen_rets(vec![]);
    assert!(!rets.is_args());
    assert!(rets.is_included_in_clobbers());
    assert_eq!(Ppc64MachineDeps::get_stacklimit_reg(CallConv::SystemV), gpr(11));
    assert_eq!(writable_spilltmp_reg(), w(gpr(11)));
    assert_eq!(Ppc64MachineDeps::retval_temp_reg(CallConv::Tail), w(gpr(10)));
    assert_eq!(Ppc64MachineDeps::word_type(), Type::I64);
    assert_eq!(Ppc64MachineDeps::STACK_ARG_RET_SIZE_LIMIT, 128 * 1024 * 1024);
}

#[test]
fn no_ops_and_memory_accesses() {
    assert!(matches!(Inst::gen_nop(0), Inst::Nop0));
    assert!(matches!(Inst::gen_nop(4), Inst::Nop4));
    assert!(matches!(Inst::gen_nop(16), Inst::Nop4));
    assert_eq!(listing(Inst::Nop4), vec!["nop "]);
    assert!(listing(Inst::Nop0).is_empty());
    assert!(listing(Inst::gen_dummy_use(gpr(3))).is_empty());
    let load = Ppc64MachineDeps::gen_load_base_offset(w(gpr(3)), gpr(4), 0, Type::I64);
    assert!(load.is_mem_access());
    let add = Inst::AluRRR { op: AluOp::Add, rd: w(gpr(3)), ra: gpr(4), rb: gpr(5) };
    assert!(!add.is_mem_access());
    assert_eq!(Inst::worst_case_island_growth(), 32);
}

#[test]
fn veneers_and_answers() {
    assert_eq!(LabelUse::Branch16.veneer_size(), 4);
    assert_eq!(LabelUse::worst_case_veneer_size(), 4);
    assert_eq!(LabelUse::ALIGN, 4);
    let b = backend();
    assert!(!b.has_x86_pshufb_lowering());
    assert!(!b.has_x86_pmulhrsw_lowering());
    assert!(!b.has_x86_pmaddubsw_lowering());
}

#[test]
fn lowering_picks_operations() {
    let mut c = Ppc64IsleContext::new(CallConv::SystemV, vec![]);
    assert_eq!(c.amode(gpr(4), -16), AMode::RegOffset(gpr(4), -16));
    assert_eq!(c.load_op_for_type(Type::I16), LoadOP::Lhz);
    assert_eq!(c.load_op_for_type(Type::F32), LoadOP::Lfs);
    assert_eq!(c.store_op_for_type(Type::I64), StoreOP::Std);
    assert!(c.cc_is_signed(&IntCC::SignedLessThan));
    assert!(c.cc_is_signed(&IntCC::SignedGreaterThanOrEqual));
    assert!(!c.cc_is_signed(&IntCC::Equal));
    assert!(!c.cc_is_signed(&IntCC::UnsignedGreaterThan));
    let f = c.float_compare(&FloatCC::Unordered, fpr(1), fpr(2));
    assert_eq!((f.kind, f.rs1, f.rs2), (FloatCC::Unordered, fpr(1), fpr(2)));
    let label = MachLabel { index: 7 };
    assert_eq!(c.cond_br_target(label), CondBrTarget::Label(label));
    let r = c.load_ext_name(ExternalName::User(3), 40);
    assert_eq!(r, Reg::virtual_reg(0, RegClass::Int));
    assert!(matches!(c.insts[0], Inst::LoadExtName { offset: 40, .. }));
}

fn effects() -> CallEffects {
    CallEffects {
        clobbers: regalloc2::PRegSet::empty(),
        callee_pop_size: 0,
        retval_moves: vec![],
    }
}

#[test]
fn indirect_calls_are_never_patchable() {
    let mut c = Ppc64IsleContext::new(CallConv::Tail, vec![]);
    let sig = SigData {
        call_conv: CallConv::SystemV,
        sized_stack_ret_space: 8,
        sized_stack_arg_space: 96,
    };
    let i = c.gen_call_ind_info(sig, gpr(12), vec![], vec![], None, effects());
    assert!(!i.patchable);
    assert_eq!(i.dest, gpr(12));
    assert_eq!(i.callee_pop_size, 0);
    assert_eq!(c.outgoing_args_size, 104);
    let smaller = SigData {
        call_conv: CallConv::SystemV,
        sized_stack_ret_space: 0,
        sized_stack_arg_space: 8,
    };
    c.gen_call_ind_info(smaller, gpr(12), vec![], vec![], None, effects());
    assert_eq!(c.outgoing_args_size, 104);
}

#[test]
fn a_stack_map_goes_with_the_next_call() {
    let mut sink = MachBuffer::new();
    let mut state = EmitState::new(frame());
    let map = UserStackMap { entries: vec![] };
    state.pre_safepoint(Some(map));
    let call = CallInfo::empty(ExternalName::User(0), CallConv::SystemV);
    Inst::Call { info: Box::new(call) }.emit(&mut sink, &info(), &mut state);
    assert!(sink.log().iter().any(|e| matches!(e, Emission::StackMap { .. })));
    assert!(state.user_stack_map.is_none());
    let before = sink.log().len();
    let call = CallInfo::empty(ExternalName::User(0), CallConv::SystemV);
    Inst::Call { info: Box::new(call) }.emit(&mut sink, &info(), &mut state);
    assert!(!sink.log()[before..].iter().any(|e| matches!(e, Emission::StackMap { .. })));
}

#[test]
fn quadword_loops() {
    // The disassembler lists these two as data: lqarx r8, 0, r3 and stqcx. r10, 0, r3.
    let lqarx = ".byte 0x28, 0x1a, 0x00, 0x7d";
    let stqcx = ".byte 0x6d, 0x19, 0x40, 0x7d";
    let load = Inst::AtomicLoad128 { rd_lo: w(gpr(9)), rd_hi: w(gpr(8)), addr: gpr(3) };
    assert_eq!(
        listing(load),
        vec!["sync ", lqarx, "cmpd r8, r8", "bne 0x10", "isync "]
    );
    let rmw = |op| {
        listing(Inst::AtomicRmw128 {
            op,
            rd_lo: w(gpr(9)),
            rd_hi: w(gpr(8)),
            tmp_hi: w(gpr(10)),
            addr: gpr(3),
            src_lo: gpr(5),
            src_hi: gpr(4),
        })
    };
    assert_eq!(
        rmw(AtomicRmwOp::Add),
        vec![
            "sync ", lqarx, "addc r11, r9, r5", "adde r10, r8, r4", stqcx, "bne ", "isync ",
        ]
    );
    assert_eq!(
        rmw(AtomicRmwOp::Nand),
        vec![
            "sync ", lqarx, "nand r11, r9, r5", "nand r10, r8, r4", stqcx, "bne ", "isync ",
        ]
    );
}
