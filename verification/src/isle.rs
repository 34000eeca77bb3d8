//! What the lowering rules call upon.
use vstd::prelude::*;
use vstd::arithmetic::power2::{lemma2_to64, pow2};
use crate::abi::Ppc64MachineDeps;
use crate::args;
use crate::args::{
    AMode, CondBrTarget, FloatCompare, IntegerCompare, LoadOP, StackAMode, StoreOP,
};
use crate::buffer::MachLabel;
use crate::inst::{CallArgPair, CallInfo, CallRetPair, Inst, RetvalMove, TryCallInfo};
use crate::ir::{CallConv, ExternalName, FloatCC, IntCC, MemFlagsData, Type};
use crate::regs;
use crate::regs::{Reg, RegClass, Writable};

verus! {

/// What a call needs to know of a signature.
#[derive(Clone, Copy, Debug, PartialEq, Eq, Structural)]
pub struct SigData {
    pub call_conv: CallConv,
    pub sized_stack_ret_space: u32,
    pub sized_stack_arg_space: u32,
}

/// What is known of a call besides its operands. It follows from the signature and from
/// where the results go, which other parts of a compiler decide.
#[derive(Debug)]
pub struct CallEffects {
    /// The registers that lose what they hold. No result may be in one of them.
    pub clobbers: regalloc2::PRegSet,
    /// The size of the stack arguments that the callee pops.
    pub callee_pop_size: u32,
    /// The moves that fetch the results left on the stack.
    pub retval_moves: Vec<RetvalMove>,
}

/// The lowering of a function so far.
#[derive(Debug)]
pub struct Ppc64IsleContext {
    /// The calling convention of the function.
    pub call_conv: CallConv,
    /// The instructions emitted.
    pub insts: Vec<Inst>,
    /// The number of virtual registers handed out.
    pub vregs: u32,
    /// The size of the outgoing argument area.
    pub outgoing_args_size: u32,
    /// The offsets of the sized stack slots.
    pub sized_stackslots: Vec<u32>,
}

/// The virtual register that a context hands out next, of a class.
pub open spec fn fresh_reg(vregs: u32, class: RegClass) -> Reg {
    Reg { index: (vregs + regs::PINNED_VREGS) as u32, class }
}

/// The greater of two sizes.
pub open spec fn larger(a: int, b: int) -> int {
    if a < b {
        b
    } else {
        a
    }
}

impl Ppc64IsleContext {
    /// The start of lowering a function.
    pub fn new(call_conv: CallConv, sized_stackslots: Vec<u32>) -> (c: Ppc64IsleContext)
        ensures
            c.call_conv == call_conv,
            c.insts@.len() == 0,
            c.vregs == 0,
            c.outgoing_args_size == 0,
            c.sized_stackslots == sized_stackslots,
    {
        Ppc64IsleContext {
            call_conv,
            insts: Vec::new(),
            vregs: 0,
            outgoing_args_size: 0,
            sized_stackslots,
        }
    }

    /// What does not change but for the instructions emitted and the registers
    /// handed out.
    pub open spec fn same_frame(self, other: Ppc64IsleContext) -> bool {
        &&& self.call_conv == other.call_conv
        &&& self.outgoing_args_size == other.outgoing_args_size
        &&& self.sized_stackslots == other.sized_stackslots
    }

    /// Emit an instruction.
    pub fn emit(&mut self, inst: Inst)
        ensures
            final(self).insts@ == old(self).insts@.push(inst),
            final(self).vregs == old(self).vregs,
            final(self).same_frame(*old(self)),
    {
        self.insts.push(inst);
    }

    /// A new virtual register of the integer class.
    pub fn temp_writable_reg(&mut self) -> (r: Writable<Reg>)
        requires
            old(self).vregs < u32::MAX - regs::PINNED_VREGS,
        ensures
            r.reg == fresh_reg(old(self).vregs, RegClass::Int),
            final(self).vregs == old(self).vregs + 1,
            final(self).insts@ == old(self).insts@,
            final(self).same_frame(*old(self)),
    {
        let r = Reg::virtual_reg(self.vregs, RegClass::Int);
        self.vregs = self.vregs + 1;
        Writable::from_reg(r)
    }

    /// Note that a call needs so much space for arguments and return values.
    fn accumulate_outgoing_args_size(&mut self, size: u32)
        ensures
            final(self).outgoing_args_size == larger(
                old(self).outgoing_args_size as int,
                size as int,
            ),
            final(self).insts@ == old(self).insts@,
            final(self).vregs == old(self).vregs,
            final(self).call_conv == old(self).call_conv,
            final(self).sized_stackslots == old(self).sized_stackslots,
    {
        if self.outgoing_args_size < size {
            self.outgoing_args_size = size;
        }
    }

    /// The information of a call to `dest`. The frame makes room for what the call
    /// passes on the stack either way.
    fn call_info<T>(
        &mut self,
        sig: SigData,
        dest: T,
        uses: Vec<CallArgPair>,
        defs: Vec<CallRetPair>,
        try_call_info: Option<TryCallInfo>,
        patchable: bool,
        effects: CallEffects,
    ) -> (info: Box<CallInfo<T>>)
        requires
            sig.sized_stack_ret_space + sig.sized_stack_arg_space <= u32::MAX,
        ensures
            is_call_info(
                *info,
                sig,
                dest,
                uses,
                defs,
                try_call_info,
                patchable,
                effects,
                old(self).call_conv,
            ),
            final(self).outgoing_args_size == larger(
                old(self).outgoing_args_size as int,
                sig.sized_stack_ret_space + sig.sized_stack_arg_space,
            ),
            final(self).insts@ == old(self).insts@,
            final(self).vregs == old(self).vregs,
            final(self).call_conv == old(self).call_conv,
            final(self).sized_stackslots == old(self).sized_stackslots,
    {
        self.accumulate_outgoing_args_size(sig.sized_stack_ret_space + sig.sized_stack_arg_space);
        Box::new(
            CallInfo {
                dest,
                uses,
                defs,
                clobbers: effects.clobbers,
                caller_conv: self.call_conv,
                callee_conv: sig.call_conv,
                callee_pop_size: effects.callee_pop_size,
                try_call_info,
                patchable,
                retval_moves: effects.retval_moves,
            },
        )
    }

    /// The information of a direct call.
    pub fn gen_call_info(
        &mut self,
        sig: SigData,
        dest: ExternalName,
        uses: Vec<CallArgPair>,
        defs: Vec<CallRetPair>,
        try_call_info: Option<TryCallInfo>,
        patchable: bool,
        effects: CallEffects,
    ) -> (info: Box<CallInfo<ExternalName>>)
        requires
            sig.sized_stack_ret_space + sig.sized_stack_arg_space <= u32::MAX,
        ensures
            is_call_info(
                *info,
                sig,
                dest,
                uses,
                defs,
                try_call_info,
                patchable,
                effects,
                old(self).call_conv,
            ),
            final(self).outgoing_args_size == larger(
                old(self).outgoing_args_size as int,
                sig.sized_stack_ret_space + sig.sized_stack_arg_space,
            ),
            final(self).insts@ == old(self).insts@,
            final(self).vregs == old(self).vregs,
            final(self).call_conv == old(self).call_conv,
            final(self).sized_stackslots == old(self).sized_stackslots,
    {
        self.call_info(sig, dest, uses, defs, try_call_info, patchable, effects)
    }

    /// The information of an indirect call, which is never patchable.
    pub fn gen_call_ind_info(
        &mut self,
        sig: SigData,
        dest: Reg,
        uses: Vec<CallArgPair>,
        defs: Vec<CallRetPair>,
        try_call_info: Option<TryCallInfo>,
        effects: CallEffects,
    ) -> (info: Box<CallInfo<Reg>>)
        requires
            sig.sized_stack_ret_space + sig.sized_stack_arg_space <= u32::MAX,
        ensures
            is_call_info(
                *info,
                sig,
                dest,
                uses,
                defs,
                try_call_info,
                false,
                effects,
                old(self).call_conv,
            ),
            final(self).outgoing_args_size == larger(
                old(self).outgoing_args_size as int,
                sig.sized_stack_ret_space + sig.sized_stack_arg_space,
            ),
            final(self).insts@ == old(self).insts@,
            final(self).vregs == old(self).vregs,
            final(self).call_conv == old(self).call_conv,
            final(self).sized_stackslots == old(self).sized_stackslots,
    {
        self.call_info(sig, dest, uses, defs, try_call_info, false, effects)
    }

    /// The addressing mode of an offset from an address.
    pub fn amode(&self, addr: Reg, offset: i32) -> (m: AMode)
        ensures
            m == AMode::RegOffset(addr, offset as i64),
    {
        AMode::RegOffset(addr, offset as i64)
    }

    /// The load of a type.
    pub fn load_op_for_type(&self, ty: Type) -> (op: LoadOP)
        requires
            args::is_scalar_access(ty),
        ensures
            op == LoadOP::spec_from_type(ty),
    {
        LoadOP::from_type(ty)
    }

    /// The store of a type.
    pub fn store_op_for_type(&self, ty: Type) -> (op: StoreOP)
        requires
            args::is_scalar_access(ty),
        ensures
            op == StoreOP::spec_from_type(ty),
    {
        StoreOP::from_type(ty)
    }

    /// An integer comparison: of 64 bits for that type, and else of 32.
    pub fn int_compare(&self, cc: &IntCC, rs1: Reg, rs2: Reg, ty: Type) -> (c: IntegerCompare)
        ensures
            c == (IntegerCompare { kind: *cc, rs1, rs2, is_64: ty == Type::I64 }),
    {
        IntegerCompare { kind: *cc, rs1, rs2, is_64: ty == Type::I64 }
    }

    /// Whether a condition compares signed numbers.
    pub fn cc_is_signed(&self, cc: &IntCC) -> (b: bool)
        ensures
            b == cc.spec_is_signed(),
    {
        match cc {
            IntCC::SignedLessThan | IntCC::SignedLessThanOrEqual | IntCC::SignedGreaterThan
            | IntCC::SignedGreaterThanOrEqual => true,
            _ => false,
        }
    }

    /// A floating-point comparison.
    pub fn float_compare(&self, cc: &FloatCC, rs1: Reg, rs2: Reg) -> (c: FloatCompare)
        ensures
            c == (FloatCompare { kind: *cc, rs1, rs2 }),
    {
        FloatCompare { kind: *cc, rs1, rs2 }
    }

    /// A branch target.
    pub fn cond_br_target(&self, label: MachLabel) -> (t: CondBrTarget)
        ensures
            t == CondBrTarget::Label(label),
    {
        CondBrTarget::Label(label)
    }

    /// The 16-bit field of a constant that sign-extends from sixteen bits.
    pub fn simm16_from_imm64(&self, imm: i64) -> (r: Option<u16>)
        ensures
            r is Some <==> -0x8000 <= imm < 0x8000,
            r is Some ==> r->0 as int == imm % 0x1_0000,
    {
        if -0x8000 <= imm && imm < 0 {
            Some((imm + 0x1_0000) as u16)
        } else if 0 <= imm && imm < 0x8000 {
            Some(imm as u16)
        } else {
            None
        }
    }

    /// The mask of shift amounts of a type.
    pub fn shift_mask_u16(&self, ty: Type) -> (m: u16)
        ensures
            m == ty.bits() - 1,
    {
        (ty.bits() - 1) as u16
    }

    /// What to add to a count of leading zeros that was taken over a 64-bit
    /// zero-extension, as a 16-bit field: minus the bits that the extension added.
    pub fn clz_narrow_adjust(&self, ty: Type) -> (n: u16)
        requires
            ty.bits() <= 64,
        ensures
            n == (ty.bits() as int - 64) % 0x1_0000,
    {
        let added: u32 = 64 - ty.bits();
        if added == 0 {
            0
        } else {
            (0x1_0000 - added) as u16
        }
    }

    /// The bit just above a type.
    pub fn ty_width_bit(&self, ty: Type) -> (n: u64)
        requires
            ty.bits() < 64,
        ensures
            n == pow2(ty.bits() as nat),
    {
        proof {
            lemma2_to64();
        }
        assert(1u64 << 8u32 == 0x100 && 1u64 << 16u32 == 0x1_0000 && 1u64 << 32u32
            == 0x1_0000_0000) by (bit_vector);
        1u64 << ty.bits()
    }

    /// Emit the address of a place in a stack slot, and give back the register
    /// that holds it.
    pub fn gen_stack_addr(&mut self, slot: usize, offset: i32) -> (r: Reg)
        requires
            slot < old(self).sized_stackslots@.len(),
            old(self).vregs < u32::MAX - regs::PINNED_VREGS,
        ensures
            r == fresh_reg(old(self).vregs, RegClass::Int),
            final(self).vregs == old(self).vregs + 1,
            final(self).insts@ == old(self).insts@.push(
                Inst::LoadAddr {
                    rd: Writable { reg: r },
                    mem: AMode::SlotOffset(
                        (old(self).sized_stackslots@[slot as int] + offset as u32) as i64,
                    ),
                },
            ),
            final(self).same_frame(*old(self)),
    {
        let result = self.temp_writable_reg();
        let at: i64 = self.sized_stackslots[slot] as i64 + (offset as u32) as i64;
        let i = Ppc64MachineDeps::gen_get_stack_addr(StackAMode::Slot(at), result);
        self.emit(i);
        result.to_reg()
    }

    /// Emit a branch through a table, with two temporaries. The first target is
    /// the default.
    pub fn lower_br_table(&mut self, index: Reg, targets: Vec<MachLabel>)
        requires
            old(self).vregs < u32::MAX - regs::PINNED_VREGS - 1,
        ensures
            final(self).vregs == old(self).vregs + 2,
            final(self).insts@ == old(self).insts@.push(
                Inst::BrTable {
                    index,
                    tmp1: Writable { reg: fresh_reg(old(self).vregs, RegClass::Int) },
                    tmp2: Writable { reg: fresh_reg((old(self).vregs + 1) as u32, RegClass::Int) },
                    targets,
                },
            ),
            final(self).same_frame(*old(self)),
    {
        let tmp1 = self.temp_writable_reg();
        let tmp2 = self.temp_writable_reg();
        self.emit(Inst::BrTable { index, tmp1, tmp2, targets });
    }

    /// Emit a load of the return address from the frame record.
    pub fn read_return_address(&mut self) -> (r: Reg)
        requires
            old(self).vregs < u32::MAX - regs::PINNED_VREGS,
        ensures
            r == fresh_reg(old(self).vregs, RegClass::Int),
            final(self).vregs == old(self).vregs + 1,
            final(self).insts@ == old(self).insts@.push(
                Inst::Load {
                    rd: Writable { reg: r },
                    op: LoadOP::Ld,
                    flags: MemFlagsData::spec_trusted(),
                    from: AMode::FPOffset(8),
                },
            ),
            final(self).same_frame(*old(self)),
    {
        let dst = self.temp_writable_reg();
        self.emit(Inst::gen_load(dst, AMode::FPOffset(8), Type::I64, MemFlagsData::trusted()));
        dst.to_reg()
    }

    /// Emit the address of a name plus an offset.
    pub fn load_ext_name(&mut self, name: ExternalName, offset: i64) -> (r: Reg)
        requires
            old(self).vregs < u32::MAX - regs::PINNED_VREGS,
        ensures
            r == fresh_reg(old(self).vregs, RegClass::Int),
            final(self).vregs == old(self).vregs + 1,
            final(self).insts@ == old(self).insts@.push(
                Inst::LoadExtName { rd: Writable { reg: r }, name, offset },
            ),
            final(self).same_frame(*old(self)),
    {
        let dst = self.temp_writable_reg();
        self.emit(Inst::LoadExtName { rd: dst, name, offset });
        dst.to_reg()
    }
}

/// Whether the information of a call is what its ingredients make it.
pub open spec fn is_call_info<T>(
    info: CallInfo<T>,
    sig: SigData,
    dest: T,
    uses: Vec<CallArgPair>,
    defs: Vec<CallRetPair>,
    try_call_info: Option<TryCallInfo>,
    patchable: bool,
    effects: CallEffects,
    caller_conv: CallConv,
) -> bool {
    &&& info.dest == dest
    &&& info.uses == uses
    &&& info.defs == defs
    &&& info.clobbers == effects.clobbers
    &&& info.caller_conv == caller_conv
    &&& info.callee_conv == sig.call_conv
    &&& info.callee_pop_size == effects.callee_pop_size
    &&& info.try_call_info == try_call_info
    &&& info.patchable == patchable
    &&& info.retval_moves == effects.retval_moves
}

} // verus!
