//! The calling convention: where arguments go, frames, prologues and epilogues.
use ppc64::abi::{compute_clobber_size, Ppc64MachineDeps};
use ppc64::arg_locs::{align_to, ABIArg, ABIArgSlot, ArgsOrRets};
use ppc64::args::{AMode, LoadOP, StoreOP};
use ppc64::buffer::UnwindInst;
use ppc64::frame::FrameLayout;
use ppc64::inst::Inst;
use ppc64::insts::Insts;
use ppc64::ir::{
    AbiParam, ArgumentExtension, ArgumentPurpose, CallConv, CodegenError, ExternalName,
    FunctionCalls, IntCC, LibCall, Ppc64Flags, SharedFlags, TrapCode, Type,
};
use ppc64::reg_sets::{all_clobbers, default_callee_saves, default_clobbers};
use ppc64::regs::{gpr, RealReg, Reg, RegClass, Writable};

fn shared() -> SharedFlags {
    SharedFlags {
        preserve_frame_pointers: false,
        unwind_info: true,
        enable_multi_ret_implicit_sret: false,
    }
}

fn isa_flags() -> Ppc64Flags {
    Ppc64Flags { has_isa_3_0: false, has_isa_3_1: false }
}

fn param(value_type: Type) -> AbiParam {
    AbiParam {
        value_type,
        purpose: ArgumentPurpose::Normal,
        extension: ArgumentExtension::Unextended,
    }
}

fn place(
    conv: CallConv,
    tys: &[Type],
    what: ArgsOrRets,
    ret_ptr: bool,
) -> (Vec<Vec<(RegClass, u8)>>, Vec<Vec<i64>>, u32, Option<usize>) {
    let params: Vec<AbiParam> = tys.iter().map(|t| param(*t)).collect();
    let mut args: Vec<ABIArg> = vec![];
    let (space, pos) =
        Ppc64MachineDeps::compute_arg_locs(conv, &shared(), &params, what, ret_ptr, &mut args)
            .unwrap();
    let mut regs = vec![];
    let mut stack = vec![];
    for a in &args {
        let mut r = vec![];
        let mut s = vec![];
        for slot in &a.slots {
            match slot {
                ABIArgSlot::Reg { reg, .. } => r.push((reg.class, reg.hw_enc)),
                ABIArgSlot::Stack { offset, .. } => s.push(*offset),
            }
        }
        regs.push(r);
        stack.push(s);
    }
    (regs, stack, space, pos)
}

fn in_gpr(n: u8) -> Vec<(RegClass, u8)> {
    vec![(RegClass::Int, n)]
}

fn in_fpr(n: u8) -> Vec<(RegClass, u8)> {
    vec![(RegClass::Float, n)]
}

fn in_vr(n: u8) -> Vec<(RegClass, u8)> {
    vec![(RegClass::Vector, n)]
}

#[test]
fn arguments_take_slots_by_position() {
    // A floating-point argument uses up the general-purpose register of its slot.
    let (regs, _, space, pos) = place(
        CallConv::SystemV,
        &[Type::I64, Type::F64, Type::I32],
        ArgsOrRets::Args,
        false,
    );
    assert_eq!(regs, vec![in_gpr(3), in_fpr(1), in_gpr(5)]);
    assert_eq!(space, 32);
    assert_eq!(pos, None);
    // A vector takes a quadword-aligned pair of slots.
    let (regs, _, _, _) = place(
        CallConv::SystemV,
        &[Type::I64, Type::I32X4, Type::I64],
        ArgsOrRets::Args,
        false,
    );
    assert_eq!(regs, vec![in_gpr(3), in_vr(2), in_gpr(7)]);
}

#[test]
fn the_ninth_argument_goes_on_the_stack() {
    let tys = [Type::I64; 10];
    let (regs, stack, space, _) = place(CallConv::SystemV, &tys, ArgsOrRets::Args, false);
    assert_eq!(regs[7], in_gpr(10));
    assert_eq!(regs[8], vec![]);
    // The header and the slots of the first eight come first.
    assert_eq!(stack[8], vec![32 + 64]);
    assert_eq!(stack[9], vec![32 + 72]);
    assert_eq!(space, 112);
}

#[test]
fn a_wide_integer_can_be_split() {
    let mut tys = vec![Type::I64; 7];
    tys.push(Type::I128);
    let (regs, stack, space, _) = place(CallConv::SystemV, &tys, ArgsOrRets::Args, false);
    assert_eq!(regs[7], in_gpr(10));
    assert_eq!(stack[7], vec![96]);
    assert_eq!(space, 112);
}

#[test]
fn the_tail_convention_packs_densely() {
    let tys =
        [Type::I64, Type::F64, Type::I64, Type::I32X4];
    let (regs, _, space, _) = place(CallConv::Tail, &tys, ArgsOrRets::Args, false);
    assert_eq!(regs, vec![in_gpr(3), in_fpr(1), in_gpr(4), in_vr(2)]);
    assert_eq!(space, 0);
    let tys = [Type::I64; 9];
    let (_, stack, space, _) = place(CallConv::Tail, &tys, ArgsOrRets::Args, false);
    assert_eq!(stack[8], vec![32]);
    assert_eq!(space, 48);
}

#[test]
fn the_return_area_pointer_comes_first() {
    let (regs, _, _, pos) =
        place(CallConv::SystemV, &[Type::I64, Type::I64], ArgsOrRets::Args, true);
    assert_eq!(regs, vec![in_gpr(4), in_gpr(5), in_gpr(3)]);
    assert_eq!(pos, Some(2));
}

#[test]
fn return_values_go_in_few_registers() {
    let (regs, _, space, _) = place(
        CallConv::SystemV,
        &[Type::I64, Type::I64, Type::F64, Type::F64, Type::I32X4],
        ArgsOrRets::Rets,
        false,
    );
    assert_eq!(regs, vec![in_gpr(3), in_gpr(4), in_fpr(1), in_fpr(2), in_vr(2)]);
    assert_eq!(space, 0);
}

#[test]
fn too_many_return_values_are_refused() {
    let params = vec![param(Type::I64), param(Type::I64), param(Type::I64)];
    let mut args = vec![];
    let r = Ppc64MachineDeps::compute_arg_locs(
        CallConv::SystemV,
        &shared(),
        &params,
        ArgsOrRets::Rets,
        false,
        &mut args,
    );
    assert_eq!(r, Err(CodegenError::TooManyReturnValues));
    let flags = SharedFlags { enable_multi_ret_implicit_sret: true, ..shared() };
    let mut args = vec![];
    let r = Ppc64MachineDeps::compute_arg_locs(
        CallConv::SystemV,
        &flags,
        &params,
        ArgsOrRets::Rets,
        false,
        &mut args,
    );
    assert_eq!(r, Ok((16, None)));
}

#[test]
fn unsupported_types_are_refused() {
    let mut args = vec![];
    let r = Ppc64MachineDeps::compute_arg_locs(
        CallConv::SystemV,
        &shared(),
        &vec![param(Type::F128)],
        ArgsOrRets::Args,
        false,
        &mut args,
    );
    assert_eq!(r, Err(CodegenError::UnsupportedType(Type::F128)));
    assert_eq!(
        Inst::rc_for_type(&Type::F16),
        Err(CodegenError::UnsupportedType(Type::F16))
    );
    assert_eq!(
        Inst::rc_for_type(&Type::I128),
        Ok((vec![RegClass::Int, RegClass::Int], vec![Type::I64, Type::I64]))
    );
}

#[test]
fn places_are_apart() {
    let tys = [
        Type::I64, Type::F64, Type::I32X4, Type::I128, Type::F32, Type::I8, Type::I16X8,
        Type::I64, Type::I128, Type::F64, Type::I32X4, Type::I64,
    ];
    for conv in [CallConv::SystemV, CallConv::Tail, CallConv::Fast] {
        let params: Vec<AbiParam> = tys.iter().map(|t| param(*t)).collect();
        let mut args: Vec<ABIArg> = vec![];
        let (space, _) = Ppc64MachineDeps::compute_arg_locs(
            conv,
            &shared(),
            &params,
            ArgsOrRets::Args,
            false,
            &mut args,
        )
        .unwrap();
        assert_eq!(space % 16, 0);
        let mut regs = vec![];
        let mut areas: Vec<(i64, i64)> = vec![];
        for a in &args {
            for slot in &a.slots {
                match slot {
                    ABIArgSlot::Reg { reg, .. } => {
                        assert!(!regs.contains(reg));
                        regs.push(*reg);
                    }
                    ABIArgSlot::Stack { offset, ty, .. } => {
                        let end = *offset + (ty.bytes() as i64).max(8);
                        assert!(*offset >= 32 && end <= space as i64 && offset % 8 == 0);
                        for (s, e) in &areas {
                            assert!(end <= *s || *e <= *offset);
                        }
                        areas.push((*offset, end));
                    }
                }
            }
        }
        assert_eq!(areas.is_empty(), conv == CallConv::Tail);
    }
}

#[test]
fn alignment() {
    assert_eq!(align_to(0, 16), 0);
    assert_eq!(align_to(1, 16), 16);
    assert_eq!(align_to(16, 16), 16);
    assert_eq!(align_to(33, 8), 40);
}

fn physical(class: RegClass, hw_enc: u8) -> Writable<RealReg> {
    Writable::from_reg(RealReg { hw_enc, class })
}

fn layout(regs: Vec<Writable<RealReg>>, incoming: u32, tail: u32) -> FrameLayout {
    Ppc64MachineDeps::compute_frame_layout(
        CallConv::SystemV,
        &shared(),
        &regs,
        FunctionCalls::Regular,
        incoming,
        tail,
        16,
        32,
        48,
    )
}

#[test]
fn the_frame_saves_what_it_must() {
    let frame = layout(
        vec![
            physical(RegClass::Vector, 20),
            physical(RegClass::Int, 3),
            physical(RegClass::Int, 15),
            physical(RegClass::Float, 14),
            physical(RegClass::Int, 14),
        ],
        0,
        0,
    );
    // In order of class and number; r3 is volatile.
    let saved: Vec<(RegClass, u8)> =
        frame.clobbered_callee_saves.iter().map(|r| (r.reg.class, r.reg.hw_enc)).collect();
    assert_eq!(
        saved,
        vec![
            (RegClass::Int, 14),
            (RegClass::Int, 15),
            (RegClass::Float, 14),
            (RegClass::Vector, 20),
        ]
    );
    // Three doublewords, aligned to a quadword, and a quadword.
    assert_eq!(frame.clobber_size, 48);
    assert_eq!(frame.setup_area_size, 16);
    assert_eq!(frame.sp_to_fp(), 48 + 32 + 48);
    assert_eq!(compute_clobber_size(&frame.clobbered_callee_saves), 48);
}

#[test]
fn preserving_all_saves_all() {
    let frame = Ppc64MachineDeps::compute_frame_layout(
        CallConv::PreserveAll,
        &shared(),
        &vec![physical(RegClass::Int, 3)],
        FunctionCalls::Leaf,
        0,
        0,
        0,
        0,
        0,
    );
    assert_eq!(frame.clobbered_callee_saves.len(), 1);
    assert_eq!(frame.clobber_size, 16);
}

#[test]
fn a_leaf_needs_no_frame_record() {
    let frame = Ppc64MachineDeps::compute_frame_layout(
        CallConv::SystemV,
        &shared(),
        &vec![],
        FunctionCalls::Leaf,
        0,
        0,
        0,
        0,
        0,
    );
    assert_eq!(frame.setup_area_size, 0);
    let v = Ppc64MachineDeps::gen_prologue_frame_setup(
        CallConv::SystemV,
        &shared(),
        &isa_flags(),
        &frame,
    );
    assert_eq!(v.len(), 0);
}

/// Memory as doublewords, and the registers that prologues and epilogues use.
struct Image {
    gpr: Vec<u64>,
    fpr: Vec<u64>,
    vr: Vec<(u64, u64)>,
    lr: u64,
    mem: Vec<u64>,
}

fn image() -> Image {
    Image {
        gpr: (0..32u64).map(|n| if n == 1 { 0x800 } else { 1000 + n }).collect(),
        fpr: (0..32u64).map(|n| 2000 + n).collect(),
        vr: (0..32u64).map(|n| (3000 + n, 4000 + n)).collect(),
        lr: 5000,
        mem: vec![0; 0x200],
    }
}

fn number(r: &Reg) -> (RegClass, usize) {
    let rr = r.to_real_reg().unwrap();
    (rr.class, rr.hw_enc as usize)
}

fn offset_of(mem: &AMode) -> i64 {
    match mem {
        AMode::SPOffset(o) => *o,
        _ => panic!("not from the stack pointer"),
    }
}

fn step(s: &mut Image, i: &Inst) {
    let at = |s: &Image, mem: &AMode| ((s.gpr[1] as i64 + offset_of(mem)) / 8) as usize;
    match i {
        Inst::LoadAddr { rd, mem } => {
            let (_, n) = number(&rd.reg);
            s.gpr[n] = (s.gpr[1] as i64 + offset_of(mem)) as u64;
        }
        Inst::Mov { rd, rm, .. } => {
            let (_, d) = number(&rd.reg);
            let (_, m) = number(rm);
            s.gpr[d] = s.gpr[m];
        }
        Inst::Mflr { rd } => {
            let (_, d) = number(&rd.reg);
            s.gpr[d] = s.lr;
        }
        Inst::Mtlr { rs } => {
            let (_, n) = number(rs);
            s.lr = s.gpr[n];
        }
        Inst::Unwind { .. } => {}
        Inst::Load { rd, op, from, .. } => {
            let a = at(s, from);
            let (class, n) = number(&rd.reg);
            match op {
                LoadOP::Ld => s.gpr[n] = s.mem[a],
                LoadOP::Lfd => s.fpr[n] = s.mem[a],
                _ => panic!("a narrow load"),
            }
            assert_eq!(class == RegClass::Float, op.is_fpr());
        }
        Inst::Store { to, op, src, .. } => {
            let a = at(s, to);
            let (_, n) = number(src);
            match op {
                StoreOP::Std => s.mem[a] = s.gpr[n],
                StoreOP::Stfd => s.mem[a] = s.fpr[n],
                _ => panic!("a narrow store"),
            }
        }
        Inst::VecLoad { rd, from, .. } => {
            let a = at(s, from);
            assert_eq!(a % 2, 0);
            let (_, n) = number(&rd.reg);
            s.vr[n] = (s.mem[a], s.mem[a + 1]);
        }
        Inst::VecStore { to, rs, .. } => {
            let a = at(s, to);
            assert_eq!(a % 2, 0);
            let (_, n) = number(rs);
            s.mem[a] = s.vr[n].0;
            s.mem[a + 1] = s.vr[n].1;
        }
        _ => panic!("not part of a prologue or epilogue"),
    }
}

fn run(s: &mut Image, v: &Insts) {
    for k in 0..v.len() {
        step(s, v.get(k));
    }
}

fn round_trip(frame: &FrameLayout, conv: CallConv) {
    let entry = image();
    let mut s = image();
    let flags = shared();
    run(&mut s, &Ppc64MachineDeps::gen_prologue_frame_setup(conv, &flags, &isa_flags(), frame));
    run(&mut s, &Ppc64MachineDeps::gen_clobber_save(conv, &flags, frame));
    let growth = (frame.tail_args_size - frame.incoming_args_size) as u64;
    let fp = 0x800 - 16 - growth;
    // The frame record.
    assert_eq!(s.gpr[31], fp);
    assert_eq!(s.mem[(fp / 8) as usize], entry.gpr[31]);
    assert_eq!(s.mem[(fp / 8 + 1) as usize], entry.lr);
    assert_eq!(s.gpr[1], fp - frame.sp_to_fp() as u64);
    assert_eq!(s.gpr[1] % 16, 0);
    // A body that spoils every register but the stack pointer.
    for n in 0..32 {
        if n != 1 {
            s.gpr[n] = 7;
        }
        s.fpr[n] = 7;
        s.vr[n] = (7, 7);
    }
    s.lr = 7;
    run(&mut s, &Ppc64MachineDeps::gen_clobber_restore(conv, &flags, frame));
    run(&mut s, &Ppc64MachineDeps::gen_epilogue_frame_restore(conv, &flags, &isa_flags(), frame));
    assert_eq!(s.lr, entry.lr);
    assert_eq!(s.gpr[31], entry.gpr[31]);
    let popped = if conv == CallConv::Tail { frame.tail_args_size as u64 } else { 0 };
    assert_eq!(s.gpr[1], 0x800 - growth + popped);
    for r in &frame.clobbered_callee_saves {
        let n = r.reg.hw_enc as usize;
        match r.reg.class {
            RegClass::Int => assert_eq!(s.gpr[n], entry.gpr[n]),
            RegClass::Float => assert_eq!(s.fpr[n], entry.fpr[n]),
            RegClass::Vector => assert_eq!(s.vr[n], entry.vr[n]),
        }
    }
}

#[test]
fn an_epilogue_undoes_a_prologue() {
    let all = vec![
        physical(RegClass::Int, 14),
        physical(RegClass::Int, 30),
        physical(RegClass::Float, 31),
        physical(RegClass::Vector, 20),
        physical(RegClass::Vector, 31),
    ];
    round_trip(&layout(all.clone(), 0, 0), CallConv::SystemV);
    round_trip(&layout(all.clone(), 16, 48), CallConv::Tail);
    round_trip(&layout(all, 32, 32), CallConv::Tail);
    round_trip(&layout(vec![], 0, 0), CallConv::SystemV);
}

#[test]
fn the_prologue_tells_the_unwinder() {
    let frame = layout(vec![physical(RegClass::Int, 14)], 0, 0);
    let v = Ppc64MachineDeps::gen_prologue_frame_setup(
        CallConv::SystemV,
        &shared(),
        &isa_flags(),
        &frame,
    );
    assert!(matches!(
        v.get(4),
        Inst::Unwind { inst: UnwindInst::PushFrameRegs { offset_upward_to_caller_sp: 16 } }
    ));
    let v = Ppc64MachineDeps::gen_clobber_save(CallConv::SystemV, &shared(), &frame);
    assert!(matches!(
        v.get(0),
        Inst::Unwind {
            inst: UnwindInst::DefineNewFrame {
                offset_upward_to_caller_sp: 16,
                offset_downward_to_clobbers: 16,
            }
        }
    ));
    assert!(matches!(
        v.get(3),
        Inst::Unwind { inst: UnwindInst::SaveReg { clobber_offset: 8, .. } }
    ));
}

#[test]
fn probes_touch_every_guard() {
    let mut v = Insts::new();
    Ppc64MachineDeps::gen_inline_probestack(&mut v, CallConv::SystemV, 0x3500, 0x1000);
    let mut sp: i64 = 0;
    let mut touched = vec![];
    for k in 0..v.len() {
        match v.get(k) {
            Inst::LoadAddr { mem, .. } => sp += offset_of(mem),
            Inst::Store { to, op: StoreOP::Stw, .. } => touched.push(sp + offset_of(to)),
            _ => panic!("not a probe"),
        }
    }
    assert_eq!(touched, vec![-0x1000, -0x2000, -0x3000]);
    assert_eq!(sp, 0);
    let mut v = Insts::new();
    Ppc64MachineDeps::gen_probestack(&mut v, 0x1234);
    assert_eq!(v.len(), 4);
    assert!(matches!(v.get(0), Inst::LoadConst64 { imm: 0x1234, .. }));
    match v.get(2) {
        Inst::Call { info } => {
            assert_eq!(info.dest, ExternalName::LibCall(LibCall::Probestack));
            assert_eq!(info.uses.len(), 1);
        }
        _ => panic!("no call"),
    }
}

#[test]
fn the_stack_limit_is_checked() {
    let v = Ppc64MachineDeps::gen_stack_lower_bound_trap(gpr(11));
    assert_eq!(v.len(), 1);
    match v.get(0) {
        Inst::TrapIf { kind, trap_code } => {
            assert_eq!(kind.kind, IntCC::UnsignedLessThan);
            assert_eq!(kind.rs1, gpr(1));
            assert_eq!(kind.rs2, gpr(11));
            assert_eq!(*trap_code, TrapCode::StackOverflow);
        }
        _ => panic!("no trap"),
    }
}

#[test]
fn a_copy_is_a_call() {
    let v = Ppc64MachineDeps::gen_memcpy(
        CallConv::SystemV,
        gpr(20),
        gpr(21),
        100,
        Writable::from_reg(gpr(22)),
    );
    match v.get(1) {
        Inst::Call { info } => {
            assert_eq!(info.dest, ExternalName::LibCall(LibCall::Memcpy));
            let to: Vec<Reg> = info.uses.iter().map(|u| u.preg).collect();
            assert_eq!(to, vec![gpr(3), gpr(4), gpr(5)]);
        }
        _ => panic!("no call"),
    }
}

fn in_set(s: &regalloc2::PRegSet, class: regalloc2::RegClass, n: usize) -> bool {
    s.contains(regalloc2::PReg::new(n, class))
}

#[test]
fn clobbers_and_saves_partition_the_registers() {
    let saves = default_callee_saves();
    let clobbers = default_clobbers();
    let all = all_clobbers();
    let classes =
        [regalloc2::RegClass::Int, regalloc2::RegClass::Float, regalloc2::RegClass::Vector];
    for class in classes {
        for n in 0..32 {
            let reserved =
                class == regalloc2::RegClass::Int && (n == 1 || n == 2 || n == 13);
            let s = in_set(&saves, class, n);
            let c = in_set(&clobbers, class, n);
            assert!(!(s && c));
            assert_eq!(s || c, !reserved);
            assert_eq!(in_set(&all, class, n), !reserved);
        }
    }
    assert!(in_set(&saves, regalloc2::RegClass::Vector, 20));
    assert!(!in_set(&saves, regalloc2::RegClass::Vector, 19));
}

#[test]
fn calls_clobber_by_convention() {
    let ints = regalloc2::RegClass::Int;
    let none = Ppc64MachineDeps::get_regs_clobbered_by_call(CallConv::PreserveAll, false);
    assert!(!in_set(&none, ints, 3));
    let all = Ppc64MachineDeps::get_regs_clobbered_by_call(CallConv::Tail, true);
    assert!(in_set(&all, ints, 14));
    let some = Ppc64MachineDeps::get_regs_clobbered_by_call(CallConv::SystemV, false);
    assert!(in_set(&some, ints, 3));
    assert!(!in_set(&some, ints, 14));
}

#[test]
fn allocatable_registers() {
    let env = Ppc64MachineDeps::get_machine_env(&shared(), CallConv::SystemV);
    let ints = regalloc2::RegClass::Int;
    for n in [0, 1, 2, 11, 13, 31] {
        assert!(!in_set(&env.preferred.int, ints, n));
        assert!(!in_set(&env.non_preferred.int, ints, n));
    }
    assert!(in_set(&env.preferred.int, ints, 12));
    assert!(in_set(&env.non_preferred.int, ints, 30));
    let vector = regalloc2::RegClass::Vector;
    assert!(!in_set(&env.preferred.vector, vector, 0));
    assert!(in_set(&env.non_preferred.vector, vector, 31));
}

#[test]
fn small_answers() {
    assert_eq!(Ppc64MachineDeps::word_bits(), 64);
    assert_eq!(Ppc64MachineDeps::stack_align(CallConv::SystemV), 16);
    let spill = |rc| Ppc64MachineDeps::get_number_of_spillslots_for_value(rc, 16, &isa_flags());
    assert_eq!(spill(RegClass::Int), 1);
    assert_eq!(spill(RegClass::Float), 1);
    assert_eq!(spill(RegClass::Vector), 2);
    assert_eq!(Ppc64MachineDeps::exception_payload_regs(CallConv::SystemV), vec![gpr(3), gpr(4)]);
    let v = Ppc64MachineDeps::gen_return(CallConv::SystemV, &isa_flags(), &layout(vec![], 0, 0));
    assert_eq!(v.len(), 1);
    assert!(matches!(v.get(0), Inst::Ret));
    assert_eq!(Ppc64MachineDeps::gen_sp_reg_adjust(0).len(), 0);
}
