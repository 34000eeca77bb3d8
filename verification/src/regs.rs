//! Registers.
//!
//! Register conventions (ELFv2, little-endian):
//!
//! | Reg     | Role                                | Allocatable? |
//! |---------|-------------------------------------|--------------|
//! | r0      | Reads as zero when used as a base   | no (emission scratch) |
//! | r1      | Stack pointer                       | no |
//! | r2      | TOC pointer (never touched)         | no |
//! | r3-r10  | Arguments / return values, volatile | yes (preferred) |
//! | r11     | Scratch (`spilltmp`)                | no |
//! | r12     | Indirect-call target                | yes (preferred) |
//! | r13     | Thread pointer; never written       | no |
//! | r14-r30 | Callee-saved                        | yes (non-preferred) |
//! | r31     | Frame pointer                       | no |
//! | f0-f13  | FP scratch / arguments, volatile    | yes (preferred) |
//! | f14-f31 | FP callee-saved                     | yes (non-preferred) |
//! | v0      | Vector emission scratch             | no |
//! | v1-v19  | Vector, volatile                    | yes (preferred) |
//! | v20-v31 | Vector, callee-saved                | yes (non-preferred) |
//!
//! LR and CTR are special registers that no value lives in: LR is saved by the
//! prologue and is free afterwards, CTR is used momentarily by indirect
//! branches. Condition-register fields are not allocated either: every
//! sequence that sets one also consumes it.
use vstd::prelude::*;
use crate::text;
use crate::text::push_decimal;

verus! {

/// A register class.
#[derive(Clone, Copy, Debug, PartialEq, Eq, Structural)]
pub enum RegClass {
    Int,
    Float,
    Vector,
}

impl RegClass {
    /// The position of the class in the common index space of all registers.
    pub open spec fn num(self) -> nat {
        match self {
            RegClass::Int => 0,
            RegClass::Float => 1,
            RegClass::Vector => 2,
        }
    }
}

/// The index of register `hw_enc` of class `class` in the index space that all
/// classes share: sixty-four registers to a class.
pub open spec fn reg_index(hw_enc: nat, class: RegClass) -> nat {
    class.num() * 64 + hw_enc
}

/// The index that `regalloc2::PReg::index` gives the register made by
/// `regalloc2::PReg::new`: the class, times sixty-four, plus the number.
/// `PReg::new` takes numbers of six bits only.
#[verifier::external_body]
fn preg_index(hw_enc: usize, class: RegClass) -> (index: usize)
    requires
        hw_enc < 64,
    ensures
        index == reg_index(hw_enc as nat, class),
{
    let class = match class {
        RegClass::Int => regalloc2::RegClass::Int,
        RegClass::Float => regalloc2::RegClass::Float,
        RegClass::Vector => regalloc2::RegClass::Vector,
    };
    regalloc2::PReg::new(hw_enc, class).index()
}

/// The hardware number that `regalloc2::PReg::hw_enc` reads from the register
/// that `regalloc2::PReg::from_index` makes of an index: the index modulo
/// sixty-four.
#[verifier::external_body]
fn preg_hw_enc(index: usize) -> (hw_enc: usize)
    requires
        index < 256,
    ensures
        hw_enc == index % 64,
{
    regalloc2::PReg::from_index(index).hw_enc()
}

/// A physical register, by its index in the space that all classes share.
#[derive(Clone, Copy, Debug, PartialEq, Eq, Structural)]
pub struct PReg {
    pub index: u8,
}

/// A physical register as class and number.
#[derive(Clone, Copy, Debug, PartialEq, Eq, Structural)]
pub struct RealReg {
    pub hw_enc: u8,
    pub class: RegClass,
}

impl RealReg {
    /// The index in the space that all classes share.
    pub open spec fn index(self) -> nat {
        reg_index(self.hw_enc as nat, self.class)
    }

    /// A number that fits the six bits of a register number.
    pub open spec fn wf(self) -> bool {
        self.hw_enc < 64
    }

    /// The physical register with this class and number.
    pub fn to_preg(self) -> (p: PReg)
        requires
            self.wf(),
        ensures
            p.index == self.index(),
    {
        PReg { index: preg_index(self.hw_enc as usize, self.class) as u8 }
    }

    /// The register as an operand.
    pub fn to_reg(self) -> (r: Reg)
        requires
            self.wf(),
        ensures
            r == real_reg(self.hw_enc as nat, self.class),
    {
        Reg { index: preg_index(self.hw_enc as usize, self.class) as u32, class: self.class }
    }
}

/// The indices below this number stand for physical registers; from it on, for
/// virtual ones.
pub const PINNED_VREGS: u32 = 192;

/// A register operand: physical, or still virtual.
#[derive(Clone, Copy, Debug, PartialEq, Eq, Structural)]
pub struct Reg {
    pub index: u32,
    pub class: RegClass,
}

/// The physical register `hw_enc` of `class`, as an operand.
pub open spec fn real_reg(hw_enc: nat, class: RegClass) -> Reg {
    Reg { index: reg_index(hw_enc, class) as u32, class }
}

impl Reg {
    /// Whether this is a physical register.
    pub open spec fn is_real(self) -> bool {
        self.index < PINNED_VREGS
    }

    /// A physical register carries the class that its index says.
    pub open spec fn wf(self) -> bool {
        self.is_real() ==> self.index / 64 == self.class.num()
    }

    /// The five-bit field that names a physical register in an instruction.
    pub open spec fn num(self) -> u32 {
        (self.index % 64) % 32
    }

    /// The six-bit number of a register among the vector-scalar registers: the
    /// floating-point registers are the lower half, the vector registers the
    /// upper.
    pub open spec fn vsr(self) -> u32 {
        if self.class == RegClass::Vector {
            (self.num() + 32) as u32
        } else {
            self.num()
        }
    }

    /// The virtual register with the given number.
    pub fn virtual_reg(number: u32, class: RegClass) -> (r: Reg)
        requires
            number <= u32::MAX - PINNED_VREGS,
        ensures
            !r.is_real(),
            r.index == number + PINNED_VREGS,
            r.class == class,
    {
        Reg { index: number + PINNED_VREGS, class }
    }

    /// The class of the register.
    pub fn class(&self) -> (class: RegClass)
        ensures
            class == self.class,
    {
        self.class
    }

    /// The physical register that this is, unless it is virtual.
    pub open spec fn spec_to_real_reg(self) -> Option<RealReg> {
        if self.is_real() {
            Some(RealReg { hw_enc: (self.index % 64) as u8, class: self.class })
        } else {
            None
        }
    }

    /// The physical register that this is, unless it is virtual.
    pub fn to_real_reg(&self) -> (r: Option<RealReg>)
        ensures
            r == self.spec_to_real_reg(),
            r is Some ==> r->0.wf(),
    {
        if self.index < PINNED_VREGS {
            Some(RealReg { hw_enc: preg_hw_enc(self.index as usize) as u8, class: self.class })
        } else {
            None
        }
    }
}

/// A register that the holder may write.
#[derive(Clone, Copy, Debug, PartialEq, Eq, Structural)]
pub struct Writable<T> {
    pub reg: T,
}

impl<T> Writable<T> {
    /// Allow a register to be written.
    pub fn from_reg(reg: T) -> (w: Writable<T>)
        ensures
            w.reg == reg,
    {
        Writable { reg }
    }
}

impl<T: Copy> Writable<T> {
    /// The register itself.
    pub fn to_reg(&self) -> (r: T)
        ensures
            r == self.reg,
    {
        self.reg
    }
}

/// General-purpose register `enc`, as an operand.
pub fn gpr(enc: usize) -> (r: Reg)
    requires
        enc < 64,
    ensures
        r == real_reg(enc as nat, RegClass::Int),
        r.is_real(),
        r.wf(),
        r.num() == enc % 32,
{
    Reg { index: preg_index(enc, RegClass::Int) as u32, class: RegClass::Int }
}

/// General-purpose register `enc`, as a physical register.
pub fn pgpr(enc: usize) -> (p: PReg)
    requires
        enc < 64,
    ensures
        p.index == reg_index(enc as nat, RegClass::Int),
{
    PReg { index: preg_index(enc, RegClass::Int) as u8 }
}

/// Floating-point register `enc`, as an operand.
pub fn fpr(enc: usize) -> (r: Reg)
    requires
        enc < 64,
    ensures
        r == real_reg(enc as nat, RegClass::Float),
        r.is_real(),
        r.wf(),
        r.num() == enc % 32,
{
    Reg { index: preg_index(enc, RegClass::Float) as u32, class: RegClass::Float }
}

/// Floating-point register `enc`, as a physical register.
pub fn pfpr(enc: usize) -> (p: PReg)
    requires
        enc < 64,
    ensures
        p.index == reg_index(enc as nat, RegClass::Float),
{
    PReg { index: preg_index(enc, RegClass::Float) as u8 }
}

/// Vector register `enc`, as an operand.
pub fn vr(enc: usize) -> (r: Reg)
    requires
        enc < 64,
    ensures
        r == real_reg(enc as nat, RegClass::Vector),
        r.is_real(),
        r.wf(),
        r.num() == enc % 32,
{
    Reg { index: preg_index(enc, RegClass::Vector) as u32, class: RegClass::Vector }
}

/// Vector register `enc`, as a physical register.
pub fn pvr(enc: usize) -> (p: PReg)
    requires
        enc < 64,
    ensures
        p.index == reg_index(enc as nat, RegClass::Vector),
{
    PReg { index: preg_index(enc, RegClass::Vector) as u8 }
}

/// r0: usable as a plain register in most places, but read as literal zero as
/// the base of a load or store and as the RA operand of `addi` and `addis`.
/// Reserved as a scratch register within single expansions.
pub fn zero_scratch_reg() -> (r: Reg)
    ensures
        r == real_reg(0, RegClass::Int),
{
    gpr(0)
}

/// r1: the stack pointer.
pub fn stack_reg() -> (r: Reg)
    ensures
        r == real_reg(1, RegClass::Int),
{
    gpr(1)
}

/// r1, to be written.
pub fn writable_stack_reg() -> (w: Writable<Reg>)
    ensures
        w.reg == real_reg(1, RegClass::Int),
{
    Writable::from_reg(stack_reg())
}

/// r31: the frame pointer. The prologue establishes the frame record: at FP the
/// previous FP, at FP + 8 the return address.
pub fn fp_reg() -> (r: Reg)
    ensures
        r == real_reg(31, RegClass::Int),
{
    gpr(31)
}

/// r31, to be written.
pub fn writable_fp_reg() -> (w: Writable<Reg>)
    ensures
        w.reg == real_reg(31, RegClass::Int),
{
    Writable::from_reg(fp_reg())
}

/// r11: the reserved scratch register.
pub fn spilltmp_reg() -> (r: Reg)
    ensures
        r == real_reg(11, RegClass::Int),
{
    gpr(11)
}

/// r11, to be written.
pub fn writable_spilltmp_reg() -> (w: Writable<Reg>)
    ensures
        w.reg == real_reg(11, RegClass::Int),
{
    Writable::from_reg(spilltmp_reg())
}

/// r12: the target of an indirect call. The ELFv2 global-entry convention wants
/// the callee's entry address there.
pub fn call_target_reg() -> (r: Reg)
    ensures
        r == real_reg(12, RegClass::Int),
{
    gpr(12)
}

/// The first integer argument and return register (r3).
pub fn a0() -> (r: Reg)
    ensures
        r == real_reg(3, RegClass::Int),
{
    gpr(3)
}

/// r3, to be written.
pub fn writable_a0() -> (w: Writable<Reg>)
    ensures
        w.reg == real_reg(3, RegClass::Int),
{
    Writable::from_reg(a0())
}

/// The name of a register: `sp` and `fp` for those two, else a letter for the
/// class and the number. A virtual register is the letter `v` and
/// its index, which is beyond every physical number.
pub open spec fn reg_text(reg: Reg) -> Seq<char> {
    match reg.spec_to_real_reg() {
        Some(rr) => match rr.class {
            RegClass::Int => if rr.hw_enc == 1 {
                "sp"@
            } else if rr.hw_enc == 31 {
                "fp"@
            } else {
                "r"@ + text::decimal(rr.hw_enc as nat)
            },
            RegClass::Float => "f"@ + text::decimal(rr.hw_enc as nat),
            RegClass::Vector => "v"@ + text::decimal(rr.hw_enc as nat),
        },
        None => "v"@ + text::decimal(reg.index as nat),
    }
}

/// The name of a register.
pub fn reg_name(reg: Reg) -> (name: String)
    ensures
        name@ == reg_text(reg),
{
    match reg.to_real_reg() {
        Some(rr) => {
            if rr.class == RegClass::Int && rr.hw_enc == 1 {
                return "sp".to_owned();
            }
            if rr.class == RegClass::Int && rr.hw_enc == 31 {
                return "fp".to_owned();
            }
            let mut name = match rr.class {
                RegClass::Int => "r".to_owned(),
                RegClass::Float => "f".to_owned(),
                RegClass::Vector => "v".to_owned(),
            };
            push_decimal(&mut name, rr.hw_enc as u64);
            name
        },
        None => {
            let mut name = "v".to_owned();
            push_decimal(&mut name, reg.index as u64);
            name
        },
    }
}

} // verus!
