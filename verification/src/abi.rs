//! The standard ELFv2 calling convention, little-endian: frames, prologues and
//! epilogues, and the calls that the compiler makes itself. See `arg_locs` for
//! where arguments go and `frame` for the layout of a frame.
use vstd::prelude::*;
use crate::arg_locs;
use crate::arg_locs::{align_to, ABIArg, ArgsOrRets};
use crate::args::{AMode, IntegerCompare, StackAMode};
use crate::buffer::UnwindInst;
use crate::frame::FrameLayout;
use crate::inst::{ArgPair, CallArgPair, CallInfo, Inst, RetPair};
use crate::insts::Insts;
use crate::ir::{
    AbiParam, ArgumentExtension, CallConv, CodegenError, ExternalName, FunctionCalls, IntCC,
    LibCall, MemFlagsData, Ppc64Flags, SharedFlags, TrapCode, Type,
};
use crate::preg_set;
use crate::preg_set::set_contains;
use crate::reg_sets;
use crate::reg_sets::{
    all_clobbers, create_reg_environment, default_callee_saves, default_clobbers, no_clobbers,
    MachineEnv,
};
use crate::regs;
use crate::regs::{
    a0, fp_reg, gpr, spilltmp_reg, stack_reg, writable_a0, writable_fp_reg, writable_stack_reg,
    zero_scratch_reg, RealReg, Reg, RegClass, Writable,
};

verus! {

/// The calling convention. This type is a place for its functions and has no
/// other content.
#[derive(Clone, Copy, Debug)]
pub struct Ppc64MachineDeps;

// The registers that instructions here name.

/// r0, to be written.
pub open spec fn w_r0() -> Writable<Reg> {
    Writable { reg: r0() }
}

/// r0.
pub open spec fn r0() -> Reg {
    regs::real_reg(0, RegClass::Int)
}

/// The stack pointer.
pub open spec fn sp() -> Reg {
    regs::real_reg(1, RegClass::Int)
}

/// The stack pointer, to be written.
pub open spec fn w_sp() -> Writable<Reg> {
    Writable { reg: sp() }
}

/// The frame pointer.
pub open spec fn fp() -> Reg {
    regs::real_reg(31, RegClass::Int)
}

/// The frame pointer, to be written.
pub open spec fn w_fp() -> Writable<Reg> {
    Writable { reg: fp() }
}

/// A trusted store of a doubleword at an offset from the stack pointer.
pub open spec fn store_sp(offset: int, reg: Reg, ty: Type) -> Inst {
    Inst::spec_gen_store(
        AMode::SPOffset(offset as i64),
        reg,
        ty,
        MemFlagsData::spec_trusted(),
    )
}

/// A trusted load of a type at an offset from the stack pointer.
pub open spec fn load_sp(reg: Writable<Reg>, offset: int, ty: Type) -> Inst {
    Inst::spec_gen_load(
        reg,
        AMode::SPOffset(offset as i64),
        ty,
        MemFlagsData::spec_trusted(),
    )
}

/// The instructions that move the stack pointer: none by nothing.
pub open spec fn sp_adjust(amount: int) -> Seq<Inst> {
    if amount == 0 {
        seq![]
    } else {
        seq![Inst::LoadAddr { rd: w_sp(), mem: AMode::SPOffset(amount as i64) }]
    }
}

// Clobbered registers.

/// The type that saves a whole register of a class.
pub open spec fn clobber_type(class: RegClass) -> Type {
    Inst::spec_canonical_type_for_rc(class)
}

/// The bytes that saving a register takes.
pub open spec fn clobber_bytes(r: RealReg) -> int {
    clobber_type(r.class).bytes() as int
}

/// Where the `i`th register is saved, counted down from the frame record: behind
/// the one before it, aligned to its own size.
pub open spec fn clobber_start(rs: Seq<Writable<RealReg>>, i: int) -> int {
    arg_locs::spec_align_to(clobber_end(rs, i as nat), clobber_bytes(rs[i].reg))
}

/// Where the first `n` registers end, counted down from the frame record.
pub open spec fn clobber_end(rs: Seq<Writable<RealReg>>, n: nat) -> int
    decreases n,
{
    if n == 0 {
        0
    } else {
        arg_locs::spec_align_to(
            clobber_end(rs, (n - 1) as nat),
            clobber_bytes(rs[n - 1].reg),
        ) + clobber_bytes(rs[n - 1].reg)
    }
}

/// Saving registers takes between eight and twenty-four bytes each.
pub proof fn lemma_clobber_end_bounds(rs: Seq<Writable<RealReg>>, n: nat)
    requires
        n <= rs.len(),
    ensures
        8 * n <= clobber_end(rs, n) <= 24 * n,
    decreases n,
{
    if n > 0 {
        lemma_clobber_end_bounds(rs, (n - 1) as nat);
        lemma_clobber_end_multiple(rs, (n - 1) as nat);
    }
}

/// Registers later in the list end later.
pub proof fn lemma_clobber_end_monotone(rs: Seq<Writable<RealReg>>, m: nat, n: nat)
    requires
        m <= n <= rs.len(),
    ensures
        clobber_end(rs, m) <= clobber_end(rs, n),
    decreases n - m,
{
    if m < n {
        lemma_clobber_end_monotone(rs, m, (n - 1) as nat);
    }
}

/// The size of the area that saves registers: a multiple of the stack alignment.
pub open spec fn spec_compute_clobber_size(rs: Seq<Writable<RealReg>>) -> int {
    arg_locs::spec_align_to(clobber_end(rs, rs.len()), 16)
}

/// The greatest number of saved registers: beyond it, sizes might not fit 32
/// bits.
pub const MAX_CLOBBERS: usize = 0x800_0000;

/// The size of the area that saves registers.
pub fn compute_clobber_size(clobbers: &Vec<Writable<RealReg>>) -> (n: u32)
    requires
        clobbers@.len() <= MAX_CLOBBERS,
    ensures
        n == spec_compute_clobber_size(clobbers@),
{
    let mut clobbered_size: u32 = 0;
    let mut i: usize = 0;
    while i < clobbers.len()
        invariant
            i <= clobbers@.len(),
            clobbers@.len() <= MAX_CLOBBERS,
            clobbered_size == clobber_end(clobbers@, i as nat),
            clobbered_size <= 31 * i,
        decreases clobbers@.len() - i,
    {
        proof {
            lemma_clobber_end_multiple(clobbers@, i as nat);
        }
        match clobbers[i].to_reg().class {
            RegClass::Int | RegClass::Float => {
                clobbered_size = clobbered_size + 8;
            },
            RegClass::Vector => {
                clobbered_size = align_to(clobbered_size, 16);
                clobbered_size = clobbered_size + 16;
            },
        }
        i = i + 1;
    }
    align_to(clobbered_size, 16)
}

/// Saved registers end at a multiple of a doubleword.
pub proof fn lemma_clobber_end_multiple(rs: Seq<Writable<RealReg>>, n: nat)
    requires
        n <= rs.len(),
    ensures
        clobber_end(rs, n) % 8 == 0,
    decreases n,
{
    if n > 0 {
        lemma_clobber_end_multiple(rs, (n - 1) as nat);
        let before = clobber_end(rs, (n - 1) as nat);
        if rs[n - 1].reg.class == RegClass::Vector {
            assert(arg_locs::spec_align_to(before, 16) % 8 == 0);
        } else {
            assert(arg_locs::spec_align_to(before, 8) == before);
        }
    }
}

/// Whether a register is saved by the callee: every register under the
/// preserve-all convention.
pub open spec fn is_saved(call_conv: CallConv, r: Writable<RealReg>) -> bool {
    call_conv == CallConv::PreserveAll || reg_sets::is_callee_save(r.reg.index())
}

/// Whether registers stand in the order of their indices: by class, and in a
/// class by number.
pub open spec fn sorted_regs(rs: Seq<Writable<RealReg>>) -> bool {
    forall|i: int, j: int|
        0 <= i < j < rs.len() ==> (#[trigger] rs[i]).reg.index() <= (
        #[trigger] rs[j]).reg.index()
}

/// Whether every register has a number that fits its field.
pub open spec fn wf_regs(rs: Seq<Writable<RealReg>>) -> bool {
    forall|i: int| 0 <= i < rs.len() ==> (#[trigger] rs[i]).reg.wf()
}

/// Put a register into its place among sorted ones.
fn insert_sorted(rs: &mut Vec<Writable<RealReg>>, r: Writable<RealReg>)
    requires
        sorted_regs(old(rs)@),
        wf_regs(old(rs)@),
        r.reg.wf(),
    ensures
        sorted_regs(final(rs)@),
        wf_regs(final(rs)@),
        final(rs)@.to_multiset() == old(rs)@.to_multiset().insert(r),
{
    let key = r.reg.to_preg().index;
    let mut k: usize = 0;
    while k < rs.len() && rs[k].reg.to_preg().index <= key
        invariant
            k <= rs@.len(),
            rs@ == old(rs)@,
            wf_regs(rs@),
            key == r.reg.index(),
            forall|j: int| 0 <= j < k ==> (#[trigger] rs@[j]).reg.index() <= key,
        decreases rs@.len() - k,
    {
        k = k + 1;
    }
    let ghost before = rs@;
    rs.insert(k, r);
    assert(rs@ == before.insert(k as int, r));
    assert(sorted_regs(rs@)) by {
        if k < before.len() {
            assert(before[k as int].reg.index() > key);
        }
        assert forall|i: int, j: int| 0 <= i < j < rs@.len() implies (
        #[trigger] rs@[i]).reg.index() <= (#[trigger] rs@[j]).reg.index() by {
            if i < k && j > k {
                assert(rs@[i] == before[i]);
                assert(rs@[j] == before[j - 1]);
            } else if i < k && j == k {
                assert(rs@[i] == before[i]);
            } else if i < k && j < k {
                assert(rs@[i] == before[i]);
                assert(rs@[j] == before[j]);
            } else if i == k {
                assert(rs@[j] == before[j - 1]);
                if j - 1 > k {
                    assert(before[k as int].reg.index() <= before[j - 1].reg.index());
                }
            } else {
                assert(rs@[i] == before[i - 1]);
                assert(rs@[j] == before[j - 1]);
            }
        }
    }
    assert(wf_regs(rs@)) by {
        assert forall|i: int| 0 <= i < rs@.len() implies (#[trigger] rs@[i]).reg.wf() by {
            if i < k {
                assert(rs@[i] == before[i]);
            } else if i > k {
                assert(rs@[i] == before[i - 1]);
            }
        }
    }
    proof {
        lemma_insert_multiset(before, k as int, r);
    }
}

proof fn lemma_insert_multiset(s: Seq<Writable<RealReg>>, k: int, r: Writable<RealReg>)
    requires
        0 <= k <= s.len(),
    ensures
        s.insert(k, r).to_multiset() == s.to_multiset().insert(r),
{
    let t = s.insert(k, r);
    assert(t.remove(k) =~= s);
    assert(t[k] == r);
    assert(t.contains(r));
    t.to_multiset_ensures();
    assert(t.remove(k).to_multiset() =~= t.to_multiset().remove(r));
    assert(t.to_multiset().count(r) > 0);
    assert(s.to_multiset().insert(r) =~= t.to_multiset());
}

/// Whether a frame keeps its clobbered registers inside the area for them.
pub open spec fn clobbers_fit(frame: FrameLayout) -> bool {
    &&& wf_regs(frame.clobbered_callee_saves@)
    &&& clobber_end(
        frame.clobbered_callee_saves@,
        frame.clobbered_callee_saves@.len(),
    ) <= frame.clobber_size
    &&& frame.spec_sp_to_fp() <= u32::MAX
}

/// The slot of the `i`th clobbered register, from the stack pointer.
pub open spec fn clobber_slot(frame: FrameLayout, i: int) -> int {
    let rs = frame.clobbered_callee_saves@;
    frame.spec_sp_to_fp() - clobber_start(rs, i) - clobber_bytes(rs[i].reg)
}

/// The operand of a saved register.
pub open spec fn clobber_reg(frame: FrameLayout, i: int) -> Reg {
    let r = frame.clobbered_callee_saves@[i].reg;
    regs::real_reg(r.hw_enc as nat, r.class)
}

/// The instructions that save the first `n` clobbered registers.
pub open spec fn save_clobbers(frame: FrameLayout, unwind_info: bool, n: nat) -> Seq<Inst>
    decreases n,
{
    if n == 0 {
        seq![]
    } else {
        let i = n - 1;
        let r = frame.clobbered_callee_saves@[i].reg;
        let rest = save_clobbers(frame, unwind_info, (n - 1) as nat).push(
            store_sp(clobber_slot(frame, i), clobber_reg(frame, i), clobber_type(r.class)),
        );
        if unwind_info {
            rest.push(
                Inst::Unwind {
                    inst: UnwindInst::SaveReg {
                        clobber_offset: (clobber_slot(frame, i) - frame.spec_sp_to_fp()
                            + frame.clobber_size) as u32,
                        reg: r,
                    },
                },
            )
        } else {
            rest
        }
    }
}

/// The instructions that restore the first `n` clobbered registers.
pub open spec fn restore_clobbers(frame: FrameLayout, n: nat) -> Seq<Inst>
    decreases n,
{
    if n == 0 {
        seq![]
    } else {
        let i = n - 1;
        restore_clobbers(frame, (n - 1) as nat).push(
            load_sp(
                Writable { reg: clobber_reg(frame, i) },
                clobber_slot(frame, i),
                clobber_type(frame.clobbered_callee_saves@[i].reg.class),
            ),
        )
    }
}

/// The instructions that make room for the arguments of tail calls beyond the
/// incoming ones, and move the frame record below it.
pub open spec fn grow_incoming(frame: FrameLayout) -> Seq<Inst> {
    let diff = frame.tail_args_size - frame.incoming_args_size;
    if diff <= 0 {
        seq![]
    } else if frame.setup_area_size > 0 {
        sp_adjust(-(diff as u32 as i32)) + seq![
            load_sp(w_r0(), diff + 8, Type::I64),
            store_sp(8, r0(), Type::I64),
            load_sp(w_fp(), diff, Type::I64),
            store_sp(0, fp(), Type::I64),
            Inst::Mov { rd: w_fp(), rm: sp(), ty: Type::I64 },
        ]
    } else {
        sp_adjust(-(diff as u32 as i32))
    }
}

/// The record that the frame was set up.
pub open spec fn define_frame(frame: FrameLayout, unwind_info: bool) -> Seq<Inst> {
    if unwind_info && frame.setup_area_size > 0 {
        seq![
            Inst::Unwind {
                inst: UnwindInst::DefineNewFrame {
                    offset_upward_to_caller_sp: frame.setup_area_size,
                    offset_downward_to_clobbers: frame.clobber_size,
                },
            },
        ]
    } else {
        seq![]
    }
}

/// The instructions that allocate the frame and save clobbered registers.
pub open spec fn clobber_save(frame: FrameLayout, unwind_info: bool) -> Seq<Inst> {
    let stack_size = frame.spec_sp_to_fp();
    grow_incoming(frame) + define_frame(frame, unwind_info) + if stack_size > 0 {
        sp_adjust(-(stack_size as u32 as i32)) + save_clobbers(
            frame,
            unwind_info,
            frame.clobbered_callee_saves@.len(),
        )
    } else {
        seq![]
    }
}

/// The instructions that restore clobbered registers and free the frame.
pub open spec fn clobber_restore(frame: FrameLayout) -> Seq<Inst> {
    let stack_size = frame.spec_sp_to_fp();
    restore_clobbers(frame, frame.clobbered_callee_saves@.len()) + if stack_size > 0 {
        sp_adjust(stack_size as u32 as i32 as int)
    } else {
        seq![]
    }
}

/// The instructions that set up the frame record.
pub open spec fn frame_setup(frame: FrameLayout, unwind_info: bool) -> Seq<Inst> {
    if frame.setup_area_size > 0 {
        seq![Inst::Mflr { rd: w_r0() }] + sp_adjust(-16) + seq![
            store_sp(8, r0(), Type::I64),
            store_sp(0, fp(), Type::I64),
        ] + (if unwind_info {
            seq![
                Inst::Unwind {
                    inst: UnwindInst::PushFrameRegs {
                        offset_upward_to_caller_sp: frame.setup_area_size,
                    },
                },
            ]
        } else {
            seq![]
        }) + seq![Inst::Mov { rd: w_fp(), rm: sp(), ty: Type::I64 }]
    } else {
        seq![]
    }
}

/// The instructions that undo the frame record, and pop the arguments of a
/// function of the tail convention.
pub open spec fn frame_restore(frame: FrameLayout, call_conv: CallConv) -> Seq<Inst> {
    (if frame.setup_area_size > 0 {
        seq![
            load_sp(w_r0(), 8, Type::I64),
            Inst::Mtlr { rs: r0() },
            load_sp(w_fp(), 0, Type::I64),
        ] + sp_adjust(16)
    } else {
        seq![]
    }) + if call_conv == CallConv::Tail {
        sp_adjust(frame.tail_args_size as int)
    } else {
        seq![]
    }
}

/// Whether an instruction is a call of a library routine with the given
/// arguments, no results, and the given clobbers.
pub open spec fn is_lib_call(
    inst: Inst,
    callee: LibCall,
    uses: Seq<CallArgPair>,
    conv: CallConv,
    clobbers: Set<nat>,
) -> bool {
    inst matches Inst::Call { info } && {
        &&& info.dest == ExternalName::LibCall(callee)
        &&& info.uses@ == uses
        &&& info.defs@.len() == 0
        &&& preg_set::members(info.clobbers) == clobbers
        &&& info.caller_conv == conv
        &&& info.callee_conv == conv
        &&& info.callee_pop_size == 0
        &&& info.try_call_info is None
        &&& !info.patchable
        &&& info.retval_moves@.len() == 0
    }
}

/// Whether a register is clobbered by a call. An exception may leave anything
/// behind; the preserve-all convention otherwise preserves everything.
pub open spec fn is_clobbered_by_call(i: nat, call_conv: CallConv, is_exception: bool) -> bool {
    match call_conv {
        CallConv::Tail => if is_exception {
            reg_sets::is_any_clobber(i)
        } else {
            reg_sets::is_default_clobber(i)
        },
        CallConv::PreserveAll => is_exception && reg_sets::is_any_clobber(i),
        _ => reg_sets::is_default_clobber(i),
    }
}

/// The stores that touch each guard region, from the stack pointer down.
pub open spec fn probes(guard_size: u32, n: nat) -> Seq<Inst>
    decreases n,
{
    if n == 0 {
        seq![]
    } else {
        probes(guard_size, (n - 1) as nat) + sp_adjust(-(guard_size as i32)) + seq![
            store_sp(0, r0(), Type::I32),
        ]
    }
}

/// Whether a frame needs a frame record. Arguments that are passed on the stack
/// are addressed relative to the frame pointer.
pub open spec fn needs_setup(
    flags: SharedFlags,
    calls: FunctionCalls,
    incoming_args_size: u32,
    clobber_size: u32,
    fixed_frame_storage_size: u32,
) -> bool {
    ||| flags.preserve_frame_pointers
    ||| calls != FunctionCalls::Leaf
    ||| incoming_args_size > 0
    ||| clobber_size > 0
    ||| fixed_frame_storage_size > 0
}

/// Whether a frame is what a function is laid out with: what it writes and must
/// preserve is saved in order, its areas have the sizes that are asked for, and there is
/// a frame record where one is needed.
pub open spec fn laid_out(
    frame: FrameLayout,
    call_conv: CallConv,
    flags: SharedFlags,
    regs: Seq<Writable<RealReg>>,
    function_calls: FunctionCalls,
) -> bool {
    &&& frame.function_calls == function_calls
    &&& frame.clobber_size == spec_compute_clobber_size(frame.clobbered_callee_saves@)
    &&& frame.setup_area_size == (if needs_setup(
        flags,
        function_calls,
        frame.incoming_args_size,
        frame.clobber_size,
        frame.fixed_frame_storage_size,
    ) {
        16u32
    } else {
        0u32
    })
    &&& frame.clobbered_callee_saves@.to_multiset() == regs.filter(
        |r: Writable<RealReg>| is_saved(call_conv, r),
    ).to_multiset()
}

impl Ppc64MachineDeps {
    /// Limit for the size of argument and return-value areas on the stack: 128
    /// MiB.
    pub const STACK_ARG_RET_SIZE_LIMIT: u32 = 0x800_0000;

    /// The bits of a word.
    pub fn word_bits() -> (n: u32)
        ensures
            n == 64,
    {
        64
    }

    /// The type of a word.
    pub fn word_type() -> (ty: Type)
        ensures
            ty == Type::I64,
    {
        Type::I64
    }

    /// The alignment of the stack: a quadword.
    pub fn stack_align(_call_conv: CallConv) -> (n: u32)
        ensures
            n == 16,
    {
        16
    }

    /// Decide where each parameter goes.
    pub fn compute_arg_locs(
        call_conv: CallConv,
        flags: &SharedFlags,
        params: &Vec<AbiParam>,
        args_or_rets: ArgsOrRets,
        add_ret_area_ptr: bool,
        args: &mut Vec<ABIArg>,
    ) -> (r: Result<(u32, Option<usize>), CodegenError>)
        requires
            call_conv != CallConv::Winch,
            add_ret_area_ptr ==> args_or_rets == ArgsOrRets::Args,
            arg_locs::fits(call_conv, *flags, params@, args_or_rets, add_ret_area_ptr),
            old(args)@.len() + params@.len() < usize::MAX,
            forall|i: int|
                0 <= i < params@.len() ==> !((#[trigger] params@[i]).purpose is StructArgument),
        ensures
            ({
                let out = arg_locs::arg_locs_outcome(
                    call_conv,
                    *flags,
                    params@,
                    args_or_rets,
                    add_ret_area_ptr,
                );
                let s = arg_locs::scheme(call_conv, args_or_rets);
                match r {
                    Ok((space, pos)) => {
                        &&& out.error is None
                        &&& space == arg_locs::stack_space(out.alloc, s, call_conv)
                        &&& arg_locs::arg_views(final(args)@) == arg_locs::arg_views(old(args)@)
                            + out.locs + (if add_ret_area_ptr {
                            seq![arg_locs::ret_area_loc()]
                        } else {
                            seq![]
                        })
                        &&& pos == (if add_ret_area_ptr {
                            Some((old(args)@.len() + params@.len()) as usize)
                        } else {
                            None
                        })
                    },
                    Err(e) => {
                        &&& out.error == Some(e)
                        &&& arg_locs::arg_views(final(args)@) == arg_locs::arg_views(old(args)@)
                            + out.locs
                    },
                }
            }),
    {
        arg_locs::compute_arg_locs(call_conv, flags, params, args_or_rets, add_ret_area_ptr, args)
    }

    /// A load from a place on the stack.
    pub fn gen_load_stack(mem: StackAMode, into_reg: Writable<Reg>, ty: Type) -> (i: Inst)
        requires
            Inst::loadable(ty),
            mem matches StackAMode::IncomingArg(off, size) ==> size - off <= i64::MAX,
        ensures
            i == Inst::spec_gen_load(
                into_reg,
                AMode::spec_from_stack(mem),
                ty,
                MemFlagsData::spec_trusted(),
            ),
    {
        Inst::gen_load(into_reg, AMode::from_stack(mem), ty, MemFlagsData::trusted())
    }

    /// A store to a place on the stack.
    pub fn gen_store_stack(mem: StackAMode, from_reg: Reg, ty: Type) -> (i: Inst)
        requires
            Inst::loadable(ty),
            mem matches StackAMode::IncomingArg(off, size) ==> size - off <= i64::MAX,
        ensures
            i == Inst::spec_gen_store(
                AMode::spec_from_stack(mem),
                from_reg,
                ty,
                MemFlagsData::spec_trusted(),
            ),
    {
        Inst::gen_store(AMode::from_stack(mem), from_reg, ty, MemFlagsData::trusted())
    }

    /// A move between registers.
    pub fn gen_move(to_reg: Writable<Reg>, from_reg: Reg, ty: Type) -> (i: Inst)
        ensures
            i == (Inst::Mov { rd: to_reg, rm: from_reg, ty }),
    {
        Inst::gen_move(to_reg, from_reg, ty)
    }

    /// An extension of a register to more bits.
    pub fn gen_extend(
        to_reg: Writable<Reg>,
        from_reg: Reg,
        signed: bool,
        from_bits: u8,
        to_bits: u8,
    ) -> (i: Inst)
        requires
            from_bits < to_bits,
        ensures
            i == (Inst::Extend { rd: to_reg, rn: from_reg, signed, from_bits, to_bits }),
    {
        Inst::Extend { rd: to_reg, rn: from_reg, signed, from_bits, to_bits }
    }

    /// The extension of an argument: the one that was asked for.
    pub fn get_ext_mode(_call_conv: CallConv, specified: ArgumentExtension) -> (e:
        ArgumentExtension)
        ensures
            e == specified,
    {
        specified
    }

    /// The instruction that takes the arguments.
    pub fn gen_args(args: Vec<ArgPair>) -> (i: Inst)
        ensures
            i == (Inst::Args { args }),
    {
        Inst::Args { args }
    }

    /// The instruction that gives the return values.
    pub fn gen_rets(rets: Vec<RetPair>) -> (i: Inst)
        ensures
            i == (Inst::Rets { rets }),
    {
        Inst::Rets { rets }
    }

    /// The register that the stack limit is computed in.
    pub fn get_stacklimit_reg(_call_conv: CallConv) -> (r: Reg)
        ensures
            r == regs::real_reg(11, RegClass::Int),
    {
        spilltmp_reg()
    }

    /// The addition of an immediate to a register.
    pub fn gen_add_imm(
        _call_conv: CallConv,
        into_reg: Writable<Reg>,
        from_reg: Reg,
        imm: u32,
    ) -> (v: Insts)
        ensures
            v@ == seq![
                Inst::LoadAddr { rd: into_reg, mem: AMode::RegOffset(from_reg, imm as i64) },
            ],
    {
        let mut v = Insts::new();
        v.push(Inst::LoadAddr { rd: into_reg, mem: AMode::RegOffset(from_reg, imm as i64) });
        assert(v@ =~= seq![
            Inst::LoadAddr { rd: into_reg, mem: AMode::RegOffset(from_reg, imm as i64) },
        ]);
        v
    }

    /// A trap where the stack pointer is below a limit.
    pub fn gen_stack_lower_bound_trap(limit_reg: Reg) -> (v: Insts)
        ensures
            v@ == seq![
                Inst::TrapIf {
                    kind: IntegerCompare {
                        kind: IntCC::UnsignedLessThan,
                        rs1: sp(),
                        rs2: limit_reg,
                        is_64: true,
                    },
                    trap_code: TrapCode::StackOverflow,
                },
            ],
    {
        let mut v = Insts::new();
        let kind = IntegerCompare {
            kind: IntCC::UnsignedLessThan,
            rs1: stack_reg(),
            rs2: limit_reg,
            is_64: true,
        };
        v.push(Inst::TrapIf { kind, trap_code: TrapCode::StackOverflow });
        assert(v@ =~= seq![Inst::TrapIf { kind, trap_code: TrapCode::StackOverflow }]);
        v
    }

    /// The address of a place on the stack.
    pub fn gen_get_stack_addr(mem: StackAMode, into_reg: Writable<Reg>) -> (i: Inst)
        requires
            mem matches StackAMode::IncomingArg(off, size) ==> size - off <= i64::MAX,
        ensures
            i == (Inst::LoadAddr { rd: into_reg, mem: AMode::spec_from_stack(mem) }),
    {
        Inst::LoadAddr { rd: into_reg, mem: AMode::from_stack(mem) }
    }

    /// A load at an offset from a register.
    pub fn gen_load_base_offset(into_reg: Writable<Reg>, base: Reg, offset: i32, ty: Type) -> (i:
        Inst)
        requires
            Inst::loadable(ty),
        ensures
            i == Inst::spec_gen_load(
                into_reg,
                AMode::RegOffset(base, offset as i64),
                ty,
                MemFlagsData::spec_trusted(),
            ),
    {
        Inst::gen_load(into_reg, AMode::RegOffset(base, offset as i64), ty, MemFlagsData::trusted())
    }

    /// A store at an offset from a register.
    pub fn gen_store_base_offset(base: Reg, offset: i32, from_reg: Reg, ty: Type) -> (i: Inst)
        requires
            Inst::loadable(ty),
        ensures
            i == Inst::spec_gen_store(
                AMode::RegOffset(base, offset as i64),
                from_reg,
                ty,
                MemFlagsData::spec_trusted(),
            ),
    {
        Inst::gen_store(
            AMode::RegOffset(base, offset as i64),
            from_reg,
            ty,
            MemFlagsData::trusted(),
        )
    }

    /// A move of the stack pointer.
    pub fn gen_sp_reg_adjust(amount: i32) -> (v: Insts)
        ensures
            v@ == sp_adjust(amount as int),
    {
        let mut v = Insts::new();
        if amount == 0 {
            return v;
        }
        v.push(Inst::LoadAddr { rd: writable_stack_reg(), mem: AMode::SPOffset(amount as i64) });
        assert(v@ =~= sp_adjust(amount as int));
        v
    }

    /// Set up the frame record: the return address and the previous frame pointer
    /// go below the stack pointer, and the frame pointer points there.
    pub fn gen_prologue_frame_setup(
        _call_conv: CallConv,
        flags: &SharedFlags,
        _isa_flags: &Ppc64Flags,
        frame_layout: &FrameLayout,
    ) -> (v: Insts)
        ensures
            v@ == frame_setup(*frame_layout, flags.unwind_info),
    {
        let mut insts = Insts::new();
        if frame_layout.setup_area_size > 0 {
            // mflr r0           ;; return address to the emission scratch
            // addi sp, sp, -16  ;; allocate the frame record
            // std  r0, 8(sp)    ;; save return address
            // std  fp, 0(sp)    ;; save previous FP
            // mr   fp, sp       ;; establish the new frame record
            insts.push(Inst::Mflr { rd: Writable::from_reg(zero_scratch_reg()) });
            insts.extend(Self::gen_sp_reg_adjust(-16));
            insts.push(
                Inst::gen_store(
                    AMode::SPOffset(8),
                    zero_scratch_reg(),
                    Type::I64,
                    MemFlagsData::trusted(),
                ),
            );
            insts.push(
                Inst::gen_store(AMode::SPOffset(0), fp_reg(), Type::I64, MemFlagsData::trusted()),
            );
            if flags.unwind_info {
                insts.push(
                    Inst::Unwind {
                        inst: UnwindInst::PushFrameRegs {
                            offset_upward_to_caller_sp: frame_layout.setup_area_size,
                        },
                    },
                );
            }
            insts.push(Inst::Mov { rd: writable_fp_reg(), rm: stack_reg(), ty: Type::I64 });
        }
        assert(insts@ =~= frame_setup(*frame_layout, flags.unwind_info));
        insts
    }

    /// Reverse of `gen_prologue_frame_setup`.
    pub fn gen_epilogue_frame_restore(
        call_conv: CallConv,
        _flags: &SharedFlags,
        _isa_flags: &Ppc64Flags,
        frame_layout: &FrameLayout,
    ) -> (v: Insts)
        requires
            call_conv == CallConv::Tail ==> frame_layout.tail_args_size <= i32::MAX,
        ensures
            v@ == frame_restore(*frame_layout, call_conv),
    {
        let mut insts = Insts::new();
        if frame_layout.setup_area_size > 0 {
            insts.push(
                Inst::gen_load(
                    Writable::from_reg(zero_scratch_reg()),
                    AMode::SPOffset(8),
                    Type::I64,
                    MemFlagsData::trusted(),
                ),
            );
            insts.push(Inst::Mtlr { rs: zero_scratch_reg() });
            insts.push(
                Inst::gen_load(
                    writable_fp_reg(),
                    AMode::SPOffset(0),
                    Type::I64,
                    MemFlagsData::trusted(),
                ),
            );
            insts.extend(Self::gen_sp_reg_adjust(16));
        }
        if call_conv == CallConv::Tail && frame_layout.tail_args_size > 0 {
            insts.extend(Self::gen_sp_reg_adjust(frame_layout.tail_args_size as i32));
        }
        assert(insts@ =~= frame_restore(*frame_layout, call_conv));
        insts
    }

    /// The return.
    pub fn gen_return(
        _call_conv: CallConv,
        _isa_flags: &Ppc64Flags,
        _frame_layout: &FrameLayout,
    ) -> (v: Insts)
        ensures
            v@ == seq![Inst::Ret],
    {
        let mut v = Insts::new();
        v.push(Inst::Ret);
        assert(v@ =~= seq![Inst::Ret]);
        v
    }

    /// Call the stack probe with the size of the frame. The call happens during
    /// the prologue, before any outgoing-argument area exists, and a native callee
    /// stores into the 32 bytes above its stack pointer at entry, so it is given a
    /// scratch header: those writes must not land on the frame record.
    pub fn gen_probestack(insts: &mut Insts, frame_size: u32)
        ensures
            final(insts)@ == old(insts)@ + seq![
                Inst::LoadConst64 {
                    rd: Writable { reg: regs::real_reg(3, RegClass::Int) },
                    imm: frame_size as u64,
                },
            ] + sp_adjust(-32) + seq![final(insts)@[old(insts)@.len() as int + 2]] + sp_adjust(32),
            is_lib_call(
                final(insts)@[old(insts)@.len() as int + 2],
                LibCall::Probestack,
                seq![
                    CallArgPair {
                        vreg: regs::real_reg(3, RegClass::Int),
                        preg: regs::real_reg(3, RegClass::Int),
                    },
                ],
                CallConv::SystemV,
                Set::<nat>::empty(),
            ),
    {
        insts.push(Inst::LoadConst64 { rd: writable_a0(), imm: frame_size as u64 });
        let mut info = CallInfo::empty(
            ExternalName::LibCall(LibCall::Probestack),
            CallConv::SystemV,
        );
        info.uses.push(CallArgPair { vreg: a0(), preg: a0() });
        assert(info.uses@ =~= seq![
            CallArgPair {
                vreg: regs::real_reg(3, RegClass::Int),
                preg: regs::real_reg(3, RegClass::Int),
            },
        ]);
        insts.extend(Self::gen_sp_reg_adjust(-32));
        insts.push(Inst::Call { info: Box::new(info) });
        insts.extend(Self::gen_sp_reg_adjust(32));
        assert(insts@ =~= old(insts)@ + seq![
            Inst::LoadConst64 {
                rd: Writable { reg: regs::real_reg(3, RegClass::Int) },
                imm: frame_size as u64,
            },
        ] + sp_adjust(-32) + seq![insts@[old(insts)@.len() as int + 2]] + sp_adjust(32));
    }

    /// Touch each guard region of the frame: move the stack pointer down one guard
    /// at a time and store a word at the new stack pointer. The number of regions
    /// rounds down: the remainder is covered by the frame's own first access.
    pub fn gen_inline_probestack(
        insts: &mut Insts,
        _call_conv: CallConv,
        frame_size: u32,
        guard_size: u32,
    )
        requires
            guard_size > 0,
            (guard_size as i32) > i32::MIN,
        ensures
            ({
                let count = frame_size / guard_size;
                final(insts)@ == old(insts)@ + probes(guard_size, count as nat) + if count > 0 {
                    sp_adjust(((guard_size * count) as u32 as i32) as int)
                } else {
                    seq![]
                }
            }),
    {
        let probe_count: u32 = frame_size / guard_size;
        assert(guard_size * (frame_size / guard_size) <= frame_size) by (nonlinear_arith)
            requires
                guard_size > 0,
        ;
        let ghost start = insts@;
        let mut k: u32 = 0;
        assert(start + probes(guard_size, 0) =~= start);
        while k < probe_count
            invariant
                k <= probe_count,
                (guard_size as i32) > i32::MIN,
                insts@ =~= start + probes(guard_size, k as nat),
            decreases probe_count - k,
        {
            insts.extend(Self::gen_sp_reg_adjust(-(guard_size as i32)));
            insts.push(
                Inst::gen_store(
                    AMode::SPOffset(0),
                    zero_scratch_reg(),
                    Type::I32,
                    MemFlagsData::trusted(),
                ),
            );
            assert(insts@ =~= start + probes(guard_size, (k + 1) as nat));
            k = k + 1;
        }
        if probe_count > 0 {
            insts.extend(Self::gen_sp_reg_adjust((guard_size * probe_count) as i32));
        }
    }

    /// Allocate the frame below the frame record and save the clobbered registers
    /// at its top.
    pub fn gen_clobber_save(
        _call_conv: CallConv,
        flags: &SharedFlags,
        frame_layout: &FrameLayout,
    ) -> (v: Insts)
        requires
            frame_layout.incoming_args_size <= frame_layout.tail_args_size,
            clobbers_fit(*frame_layout),
            ((frame_layout.tail_args_size - frame_layout.incoming_args_size) as u32 as i32)
                > i32::MIN,
            (frame_layout.spec_sp_to_fp() as u32 as i32) > i32::MIN,
        ensures
            v@ == clobber_save(*frame_layout, flags.unwind_info),
    {
        let mut insts = Insts::new();
        let setup_frame: bool = frame_layout.setup_area_size > 0;
        let incoming_args_diff: u32 = frame_layout.tail_args_size
            - frame_layout.incoming_args_size;
        if incoming_args_diff > 0 {
            // Decrement SP by the amount of additional incoming argument space,
            // and re-establish the frame record below it.
            insts.extend(Self::gen_sp_reg_adjust(-(incoming_args_diff as i32)));
            if setup_frame {
                insts.push(
                    Inst::gen_load(
                        Writable::from_reg(zero_scratch_reg()),
                        AMode::SPOffset(incoming_args_diff as i64 + 8),
                        Type::I64,
                        MemFlagsData::trusted(),
                    ),
                );
                insts.push(
                    Inst::gen_store(
                        AMode::SPOffset(8),
                        zero_scratch_reg(),
                        Type::I64,
                        MemFlagsData::trusted(),
                    ),
                );
                insts.push(
                    Inst::gen_load(
                        writable_fp_reg(),
                        AMode::SPOffset(incoming_args_diff as i64),
                        Type::I64,
                        MemFlagsData::trusted(),
                    ),
                );
                insts.push(
                    Inst::gen_store(
                        AMode::SPOffset(0),
                        fp_reg(),
                        Type::I64,
                        MemFlagsData::trusted(),
                    ),
                );
                insts.push(Inst::gen_move(writable_fp_reg(), stack_reg(), Type::I64));
            }
        }
        assert(insts@ =~= grow_incoming(*frame_layout));

        if flags.unwind_info && setup_frame {
            // The unwind frame, but not the actual frame, starts at the clobbers,
            // just below the saved pair.
            insts.push(
                Inst::Unwind {
                    inst: UnwindInst::DefineNewFrame {
                        offset_upward_to_caller_sp: frame_layout.setup_area_size,
                        offset_downward_to_clobbers: frame_layout.clobber_size,
                    },
                },
            );
        }
        assert(insts@ =~= grow_incoming(*frame_layout) + define_frame(
            *frame_layout,
            flags.unwind_info,
        ));

        // Adjust the stack pointer downward for clobbers, the fixed frame and
        // outgoing arguments.
        let stack_size: u32 = frame_layout.sp_to_fp();
        if stack_size > 0 {
            insts.extend(Self::gen_sp_reg_adjust(-(stack_size as i32)));
            let saves = Self::gen_saves(flags.unwind_info, frame_layout, stack_size);
            insts.extend(saves);
        }
        assert(insts@ =~= clobber_save(*frame_layout, flags.unwind_info));
        insts
    }

    fn gen_saves(unwind_info: bool, frame_layout: &FrameLayout, stack_size: u32) -> (v: Insts)
        requires
            clobbers_fit(*frame_layout),
            stack_size == frame_layout.spec_sp_to_fp(),
        ensures
            v@ == save_clobbers(
                *frame_layout,
                unwind_info,
                frame_layout.clobbered_callee_saves@.len(),
            ),
    {
        let mut insts = Insts::new();
        let ghost rs = frame_layout.clobbered_callee_saves@;
        let mut cur_offset: u32 = 0;
        let mut i: usize = 0;
        while i < frame_layout.clobbered_callee_saves.len()
            invariant
                i <= rs.len(),
                rs == frame_layout.clobbered_callee_saves@,
                clobbers_fit(*frame_layout),
                stack_size == frame_layout.spec_sp_to_fp(),
                cur_offset == clobber_end(rs, i as nat),
                insts@ == save_clobbers(*frame_layout, unwind_info, i as nat),
            decreases rs.len() - i,
        {
            proof {
                lemma_clobber_end_monotone(rs, (i + 1) as nat, rs.len());
                lemma_clobber_end_bounds(rs, i as nat);
            }
            let r_reg = frame_layout.clobbered_callee_saves[i].to_reg();
            let ty = Inst::canonical_type_for_rc(r_reg.class);
            assert(clobber_end(rs, (i + 1) as nat) == clobber_start(rs, i as int) + clobber_bytes(
                r_reg,
            ));
            cur_offset = aligned_offset(cur_offset, ty);
            let slot: u32 = stack_size - cur_offset - ty.bytes();
            insts.push(
                Inst::gen_store(
                    AMode::SPOffset(slot as i64),
                    r_reg.to_reg(),
                    ty,
                    MemFlagsData::trusted(),
                ),
            );
            if unwind_info {
                insts.push(
                    Inst::Unwind {
                        inst: UnwindInst::SaveReg {
                            clobber_offset: frame_layout.clobber_size - cur_offset - ty.bytes(),
                            reg: r_reg,
                        },
                    },
                );
            }
            cur_offset = cur_offset + ty.bytes();
            i = i + 1;
        }
        insts
    }

    /// Restore the clobbered registers and free the frame.
    pub fn gen_clobber_restore(
        _call_conv: CallConv,
        _flags: &SharedFlags,
        frame_layout: &FrameLayout,
    ) -> (v: Insts)
        requires
            clobbers_fit(*frame_layout),
        ensures
            v@ == clobber_restore(*frame_layout),
    {
        let mut insts = Insts::new();
        let stack_size: u32 = frame_layout.sp_to_fp();
        let ghost rs = frame_layout.clobbered_callee_saves@;
        let mut cur_offset: u32 = 0;
        let mut i: usize = 0;
        while i < frame_layout.clobbered_callee_saves.len()
            invariant
                i <= rs.len(),
                rs == frame_layout.clobbered_callee_saves@,
                clobbers_fit(*frame_layout),
                stack_size == frame_layout.spec_sp_to_fp(),
                cur_offset == clobber_end(rs, i as nat),
                insts@ == restore_clobbers(*frame_layout, i as nat),
            decreases rs.len() - i,
        {
            proof {
                lemma_clobber_end_monotone(rs, (i + 1) as nat, rs.len());
                lemma_clobber_end_bounds(rs, i as nat);
            }
            let r_reg = frame_layout.clobbered_callee_saves[i].to_reg();
            let ty = Inst::canonical_type_for_rc(r_reg.class);
            assert(clobber_end(rs, (i + 1) as nat) == clobber_start(rs, i as int) + clobber_bytes(
                r_reg,
            ));
            cur_offset = aligned_offset(cur_offset, ty);
            let slot: u32 = stack_size - cur_offset - ty.bytes();
            insts.push(
                Inst::gen_load(
                    Writable::from_reg(r_reg.to_reg()),
                    AMode::SPOffset(slot as i64),
                    ty,
                    MemFlagsData::trusted(),
                ),
            );
            cur_offset = cur_offset + ty.bytes();
            i = i + 1;
        }
        if stack_size > 0 {
            insts.extend(Self::gen_sp_reg_adjust(stack_size as i32));
        }
        assert(insts@ =~= clobber_restore(*frame_layout));
        insts
    }

    /// A call of the library's memory copy: the size goes through a temporary
    /// register.
    pub fn gen_memcpy(
        call_conv: CallConv,
        dst: Reg,
        src: Reg,
        size: usize,
        tmp: Writable<Reg>,
    ) -> (v: Insts)
        ensures
            v@.len() == 2,
            v@[0] == (Inst::LoadConst64 { rd: tmp, imm: size as u64 }),
            v@[1] matches Inst::Call { info } && {
                &&& info.dest == ExternalName::LibCall(LibCall::Memcpy)
                &&& info.uses@ == seq![
                    CallArgPair { vreg: dst, preg: regs::real_reg(3, RegClass::Int) },
                    CallArgPair { vreg: src, preg: regs::real_reg(4, RegClass::Int) },
                    CallArgPair { vreg: tmp.reg, preg: regs::real_reg(5, RegClass::Int) },
                ]
                &&& info.defs@.len() == 0
                &&& forall|i: nat| #[trigger]
                    preg_set::members(info.clobbers).contains(i) <==> is_clobbered_by_call(
                        i,
                        call_conv,
                        false,
                    )
                &&& info.caller_conv == call_conv
                &&& info.callee_conv == call_conv
                &&& info.callee_pop_size == 0
                &&& info.try_call_info is None
                &&& !info.patchable
                &&& info.retval_moves@.len() == 0
            },
    {
        let mut insts = Insts::new();
        insts.push(Inst::LoadConst64 { rd: tmp, imm: size as u64 });
        let mut info = CallInfo::empty(ExternalName::LibCall(LibCall::Memcpy), call_conv);
        info.uses.push(CallArgPair { vreg: dst, preg: gpr(3) });
        info.uses.push(CallArgPair { vreg: src, preg: gpr(4) });
        info.uses.push(CallArgPair { vreg: tmp.to_reg(), preg: gpr(5) });
        info.clobbers = Self::get_regs_clobbered_by_call(call_conv, false);
        insts.push(Inst::Call { info: Box::new(info) });
        insts
    }

    /// The spill slots that a register of a class takes, in doublewords.
    pub fn get_number_of_spillslots_for_value(
        rc: RegClass,
        _target_vector_bytes: u32,
        _isa_flags: &Ppc64Flags,
    ) -> (n: u32)
        ensures
            n * 8 == Inst::spec_canonical_type_for_rc(rc).bytes(),
    {
        match rc {
            RegClass::Int => 1,
            RegClass::Float => 1,
            RegClass::Vector => 2,
        }
    }

    /// The registers that the allocator may use.
    pub fn get_machine_env(_flags: &SharedFlags, _call_conv: CallConv) -> (env: MachineEnv)
        ensures
            forall|i: nat| #[trigger]
                preg_set::members(env.preferred.int).contains(i) <==> reg_sets::is_preferred(
                    i,
                    RegClass::Int,
                ),
            forall|i: nat| #[trigger]
                preg_set::members(env.preferred.float).contains(i) <==> reg_sets::is_preferred(
                    i,
                    RegClass::Float,
                ),
            forall|i: nat| #[trigger]
                preg_set::members(env.preferred.vector).contains(i) <==> reg_sets::is_preferred(
                    i,
                    RegClass::Vector,
                ),
            forall|i: nat| #[trigger]
                preg_set::members(env.non_preferred.int).contains(i)
                    <==> reg_sets::is_non_preferred(i, RegClass::Int),
            forall|i: nat| #[trigger]
                preg_set::members(env.non_preferred.float).contains(i)
                    <==> reg_sets::is_non_preferred(i, RegClass::Float),
            forall|i: nat| #[trigger]
                preg_set::members(env.non_preferred.vector).contains(i)
                    <==> reg_sets::is_non_preferred(i, RegClass::Vector),
    {
        create_reg_environment()
    }

    /// The registers that a call clobbers, or that an exception out of it does.
    pub fn get_regs_clobbered_by_call(
        call_conv_of_callee: CallConv,
        is_exception: bool,
    ) -> (s: regalloc2::PRegSet)
        ensures
            forall|i: nat| #[trigger]
                preg_set::members(s).contains(i) <==> is_clobbered_by_call(
                    i,
                    call_conv_of_callee,
                    is_exception,
                ),
    {
        match call_conv_of_callee {
            CallConv::Tail => if is_exception {
                all_clobbers()
            } else {
                default_clobbers()
            },
            CallConv::PreserveAll => if is_exception {
                all_clobbers()
            } else {
                no_clobbers()
            },
            _ => default_clobbers(),
        }
    }

    /// The layout of a frame: of the registers that the function writes, those
    /// that it must preserve, in order, and the sizes of the areas.
    pub fn compute_frame_layout(
        call_conv: CallConv,
        flags: &SharedFlags,
        regs: &Vec<Writable<RealReg>>,
        function_calls: FunctionCalls,
        incoming_args_size: u32,
        tail_args_size: u32,
        stackslots_size: u32,
        fixed_frame_storage_size: u32,
        outgoing_args_size: u32,
    ) -> (frame: FrameLayout)
        requires
            wf_regs(regs@),
            forall|i: int| 0 <= i < regs@.len() ==> (#[trigger] regs@[i]).reg.index() < 192,
            regs@.len() <= MAX_CLOBBERS,
        ensures
            frame.word_bytes == 8,
            frame.incoming_args_size == incoming_args_size,
            frame.tail_args_size == tail_args_size,
            frame.clobber_size == spec_compute_clobber_size(frame.clobbered_callee_saves@),
            frame.fixed_frame_storage_size == fixed_frame_storage_size,
            frame.stackslots_size == stackslots_size,
            frame.outgoing_args_size == outgoing_args_size,
            frame.function_calls == function_calls,
            frame.setup_area_size == (if needs_setup(
                *flags,
                function_calls,
                incoming_args_size,
                frame.clobber_size,
                fixed_frame_storage_size,
            ) {
                16u32
            } else {
                0u32
            }),
            sorted_regs(frame.clobbered_callee_saves@),
            wf_regs(frame.clobbered_callee_saves@),
            frame.clobbered_callee_saves@.to_multiset() == regs@.filter(
                |r: Writable<RealReg>| is_saved(call_conv, r),
            ).to_multiset(),
            function_calls != FunctionCalls::Leaf ==> frame.setup_area_size == 16,
            laid_out(frame, call_conv, *flags, regs@, function_calls),
    {
        let ghost p = |r: Writable<RealReg>| is_saved(call_conv, r);
        let callee_saves = default_callee_saves();
        let mut saved: Vec<Writable<RealReg>> = Vec::new();
        let mut i: usize = 0;
        assert(regs@.take(0).filter(p) =~= saved@) by {
            reveal(Seq::filter);
        }
        while i < regs.len()
            invariant
                i <= regs@.len(),
                wf_regs(regs@),
                forall|i: int| 0 <= i < regs@.len() ==> (#[trigger] regs@[i]).reg.index() < 192,
                p == (|r: Writable<RealReg>| is_saved(call_conv, r)),
                forall|j: nat| #[trigger]
                    preg_set::members(callee_saves).contains(j) <==> reg_sets::is_callee_save(j),
                sorted_regs(saved@),
                wf_regs(saved@),
                saved@.len() <= i,
                saved@.to_multiset() == regs@.take(i as int).filter(p).to_multiset(),
            decreases regs@.len() - i,
        {
            let r = regs[i];
            assert(regs@.take(i + 1).drop_last() =~= regs@.take(i as int));
            assert(regs@.take(i + 1).last() == r);
            let keep: bool = match call_conv {
                CallConv::PreserveAll => true,
                _ => set_contains(&callee_saves, r.reg.to_preg()),
            };
            assert(keep == p(r));
            proof {
                reveal(Seq::filter);
            }
            if keep {
                proof {
                    let before = regs@.take(i as int).filter(p);
                    before.to_multiset_ensures();
                    assert(regs@.take(i + 1).filter(p) == before.push(r));
                    saved@.to_multiset_ensures();
                }
                let ghost old_saved = saved@;
                insert_sorted(&mut saved, r);
                proof {
                    saved@.to_multiset_ensures();
                    assert(saved@.len() == old_saved.len() + 1);
                }
            }
            i = i + 1;
        }
        assert(regs@.take(i as int) =~= regs@);
        let clobber_size: u32 = compute_clobber_size(&saved);
        let setup_area_size: u32 = if flags.preserve_frame_pointers || function_calls
            != FunctionCalls::Leaf || incoming_args_size > 0 || clobber_size > 0
            || fixed_frame_storage_size > 0 {
            16
        } else {
            0
        };
        FrameLayout {
            word_bytes: 8,
            incoming_args_size,
            tail_args_size,
            setup_area_size,
            clobber_size,
            fixed_frame_storage_size,
            stackslots_size,
            outgoing_args_size,
            clobbered_callee_saves: saved,
            function_calls,
        }
    }

    /// A register that a call clobbers and that carries no return value: r10.
    pub fn retval_temp_reg(_call_conv_of_callee: CallConv) -> (r: Writable<Reg>)
        ensures
            r.reg == regs::real_reg(10, RegClass::Int),
    {
        Writable::from_reg(gpr(10))
    }

    /// The registers that carry the payload of an exception.
    pub fn exception_payload_regs(call_conv: CallConv) -> (v: Vec<Reg>)
        ensures
            v@ == (match call_conv {
                CallConv::SystemV | CallConv::Tail | CallConv::PreserveAll => seq![
                    regs::real_reg(3, RegClass::Int),
                    regs::real_reg(4, RegClass::Int),
                ],
                _ => Seq::<Reg>::empty(),
            }),
    {
        let mut v: Vec<Reg> = Vec::new();
        match call_conv {
            CallConv::SystemV | CallConv::Tail | CallConv::PreserveAll => {
                v.push(gpr(3));
                v.push(gpr(4));
            },
            _ => {},
        }
        v
    }
}

/// An offset aligned to the size of a type.
pub(crate) fn aligned_offset(offset: u32, ty: Type) -> (n: u32)
    requires
        ty.bytes() > 0,
        arg_locs::spec_align_to(offset as int, ty.bytes() as int) + ty.bytes() <= u32::MAX,
    ensures
        n == arg_locs::spec_align_to(offset as int, ty.bytes() as int),
{
    align_to(offset, ty.bytes())
}

} // verus!
