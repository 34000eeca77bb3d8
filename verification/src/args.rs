//! Instruction arguments: addressing modes and compare kinds.
use vstd::prelude::*;
use crate::buffer::MachLabel;
use crate::frame::FrameLayout;
use crate::ir::{FloatCC, IntCC, Type};
use crate::regs;
use crate::regs::{fp_reg, stack_reg, Reg, RegClass};

verus! {

/// An addressing mode. The D-form reaches 32 KiB either way from a base
/// register, with a 4-alignment restriction on the 64-bit DS-forms; anything
/// beyond that is emitted as an X-form indexed access with the offset
/// materialized into r0.
#[derive(Clone, Copy, Debug, PartialEq, Eq, Structural)]
pub enum AMode {
    /// Arbitrary offset from a register.
    RegOffset(Reg, i64),
    /// Offset from the stack pointer.
    SPOffset(i64),
    /// Offset from the frame pointer.
    FPOffset(i64),
    /// Offset into the slot area of the stack, which lies just above the
    /// outgoing argument area.
    SlotOffset(i64),
    /// Offset into the argument area, downward from its end.
    IncomingArg(i64),
}

/// A place on the stack, as the calling convention speaks of it.
#[derive(Clone, Copy, Debug, PartialEq, Eq, Structural)]
pub enum StackAMode {
    /// Offset into the incoming argument area, and the size of that area.
    IncomingArg(i64, u32),
    /// Offset into the outgoing argument area.
    OutgoingArg(i64),
    /// Offset into the slot area.
    Slot(i64),
}

impl AMode {
    /// The base register that the mode comes down to.
    pub open spec fn base(self) -> Reg {
        match self {
            AMode::RegOffset(reg, _) => reg,
            AMode::FPOffset(_) => regs::real_reg(31, RegClass::Int),
            _ => regs::real_reg(1, RegClass::Int),
        }
    }

    /// The offset from the base register, in a given frame.
    pub open spec fn offset(self, frame: FrameLayout) -> int {
        match self {
            AMode::RegOffset(_, off) => off as int,
            AMode::SPOffset(off) => off as int,
            AMode::FPOffset(off) => off as int,
            AMode::SlotOffset(off) => off + frame.outgoing_args_size,
            AMode::IncomingArg(off) => frame.whole() - off,
        }
    }

    /// A mode whose offset in the frame is a 64-bit number.
    pub open spec fn resolvable(self, frame: FrameLayout) -> bool {
        &&& i64::MIN <= self.offset(frame) <= i64::MAX
        &&& self is IncomingArg ==> frame.wf()
    }

    /// Resolve to a base register and an offset, given the frame layout.
    pub fn to_base_and_offset(self, frame: &FrameLayout) -> (r: (Reg, i64))
        requires
            self.resolvable(*frame),
        ensures
            r.0 == self.base(),
            r.1 == self.offset(*frame),
    {
        match self {
            AMode::RegOffset(reg, off) => (reg, off),
            AMode::SPOffset(off) => (stack_reg(), off),
            AMode::FPOffset(off) => (fp_reg(), off),
            AMode::SlotOffset(off) => (stack_reg(), off + frame.outgoing_args_size as i64),
            // Through the whole frame.
            AMode::IncomingArg(off) => {
                let sp_offset: u32 = frame.tail_args_size + frame.setup_area_size
                    + frame.clobber_size + frame.fixed_frame_storage_size
                    + frame.outgoing_args_size;
                (stack_reg(), sp_offset as i64 - off)
            },
        }
    }

    /// The mode that a place on the stack amounts to.
    pub open spec fn spec_from_stack(stack: StackAMode) -> AMode {
        match stack {
            StackAMode::IncomingArg(offset, size) => AMode::IncomingArg((size - offset) as i64),
            StackAMode::OutgoingArg(offset) => AMode::SPOffset(offset),
            StackAMode::Slot(offset) => AMode::SlotOffset(offset),
        }
    }

    /// The mode that a place on the stack amounts to. An incoming argument
    /// counts from the end of its area, because that is the end that the frame
    /// layout fixes.
    pub fn from_stack(stack: StackAMode) -> (mode: AMode)
        requires
            stack matches StackAMode::IncomingArg(offset, size) ==> size - offset <= i64::MAX,
        ensures
            mode == AMode::spec_from_stack(stack),
    {
        match stack {
            StackAMode::IncomingArg(offset, size) => AMode::IncomingArg(size as i64 - offset),
            StackAMode::OutgoingArg(offset) => AMode::SPOffset(offset),
            StackAMode::Slot(offset) => AMode::SlotOffset(offset),
        }
    }
}

/// The condition-register bit "less than" of cr0, as the BI field of `bc` and
/// the BC field of `isel` number it.
pub const CR0_LT: u32 = 0;

/// The bit "greater than" of cr0.
pub const CR0_GT: u32 = 1;

/// The bit "equal" of cr0.
pub const CR0_EQ: u32 = 2;

/// The bit "unordered" of cr0, set by a floating-point compare.
pub const CR0_UN: u32 = 3;

/// The bit of cr6 that a recording vector compare sets when it holds of every
/// lane.
pub const CR6_LT: u32 = 24;

/// The bit of cr6 that a recording vector compare sets when it holds of no
/// lane.
pub const CR6_EQ: u32 = 26;

/// A comparison to be performed with a fixed-point compare, consumed by a
/// conditional branch, select, or trap within the same instruction. The
/// condition-register field used is always cr0.
#[derive(Clone, Copy, Debug, PartialEq, Eq, Structural)]
pub struct IntegerCompare {
    pub kind: IntCC,
    pub rs1: Reg,
    pub rs2: Reg,
    /// Compare on 64 bits rather than 32.
    pub is_64: bool,
}

impl IntegerCompare {
    /// Whether the compare is of signed numbers rather than logical.
    pub fn is_signed(&self) -> (b: bool)
        ensures
            b == self.kind.spec_is_signed(),
    {
        match self.kind {
            IntCC::SignedLessThan | IntCC::SignedLessThanOrEqual | IntCC::SignedGreaterThan
            | IntCC::SignedGreaterThanOrEqual => true,
            _ => false,
        }
    }

    /// The cr0 bit to test, and whether the condition holds when the bit is set.
    pub open spec fn spec_bit_and_polarity(self) -> (u32, bool) {
        match self.kind {
            IntCC::Equal => (CR0_EQ, true),
            IntCC::NotEqual => (CR0_EQ, false),
            IntCC::SignedLessThan | IntCC::UnsignedLessThan => (CR0_LT, true),
            IntCC::SignedGreaterThanOrEqual | IntCC::UnsignedGreaterThanOrEqual => (CR0_LT, false),
            IntCC::SignedGreaterThan | IntCC::UnsignedGreaterThan => (CR0_GT, true),
            IntCC::SignedLessThanOrEqual | IntCC::UnsignedLessThanOrEqual => (CR0_GT, false),
        }
    }

    /// The cr0 bit to test, and whether the condition holds when the bit is set.
    pub fn bit_and_polarity(&self) -> (r: (u32, bool))
        ensures
            r == self.spec_bit_and_polarity(),
            forall|x: int, y: int| #[trigger]
                self.kind.holds(x, y) == (order_bit(x, y, r.0) == r.1),
    {
        match self.kind {
            IntCC::Equal => (CR0_EQ, true),
            IntCC::NotEqual => (CR0_EQ, false),
            IntCC::SignedLessThan | IntCC::UnsignedLessThan => (CR0_LT, true),
            IntCC::SignedGreaterThanOrEqual | IntCC::UnsignedGreaterThanOrEqual => (CR0_LT, false),
            IntCC::SignedGreaterThan | IntCC::UnsignedGreaterThan => (CR0_GT, true),
            IntCC::SignedLessThanOrEqual | IntCC::UnsignedLessThanOrEqual => (CR0_GT, false),
        }
    }

    /// The compare that holds exactly where this one does not.
    pub open spec fn spec_inverse(self) -> IntegerCompare {
        IntegerCompare { kind: self.kind.spec_complement(), ..self }
    }

    /// The compare that holds exactly where this one does not.
    pub fn inverse(self) -> (c: IntegerCompare)
        ensures
            c == self.spec_inverse(),
    {
        IntegerCompare {
            kind: self.kind.complement(),
            rs1: self.rs1,
            rs2: self.rs2,
            is_64: self.is_64,
        }
    }

    /// Both registers are physical.
    pub open spec fn real_regs(self) -> bool {
        self.rs1.is_real() && self.rs2.is_real()
    }
}

/// The value of a cr0 bit after a fixed-point compare of `x` with `y`.
pub open spec fn order_bit(x: int, y: int, bit: u32) -> bool {
    if bit == CR0_LT {
        x < y
    } else if bit == CR0_GT {
        x > y
    } else if bit == CR0_EQ {
        x == y
    } else {
        false
    }
}

/// A floating-point comparison, consumed by a branch or select within the same
/// instruction. `fcmpu` records four mutually exclusive results in cr0 (less
/// than, greater than, equal and unordered), and each condition is a set of
/// those results, so some conditions need two bits combined with a `cror`
/// before they can be tested.
#[derive(Clone, Copy, Debug, PartialEq, Eq, Structural)]
pub struct FloatCompare {
    pub kind: FloatCC,
    pub rs1: Reg,
    pub rs2: Reg,
}

/// How a floating-point condition is read from cr0: an optional `cror` of
/// destination and two sources, the bit to test, and whether the condition
/// holds when the bit is set.
pub type CrPlan = (Option<(u32, u32, u32)>, u32, bool);

/// The value of a cr0 bit after `fcmpu` with the given outcome.
pub open spec fn outcome_bit(o: crate::ir::FloatOrder, bit: u32) -> bool {
    match o {
        crate::ir::FloatOrder::Less => bit == CR0_LT,
        crate::ir::FloatOrder::Greater => bit == CR0_GT,
        crate::ir::FloatOrder::Equal => bit == CR0_EQ,
        crate::ir::FloatOrder::Unordered => bit == CR0_UN,
    }
}

/// Whether a plan reports the condition after `fcmpu` with the given outcome.
pub open spec fn plan_reports(plan: CrPlan, o: crate::ir::FloatOrder) -> bool {
    let value = match plan.0 {
        Some((bt, ba, bb)) if bt == plan.1 => outcome_bit(o, ba) || outcome_bit(o, bb),
        _ => outcome_bit(o, plan.1),
    };
    value == plan.2
}

impl FloatCompare {
    /// How the condition is read from cr0.
    pub open spec fn spec_cr_plan(self) -> CrPlan {
        match self.kind {
            FloatCC::Equal => (None, CR0_EQ, true),
            FloatCC::LessThan => (None, CR0_LT, true),
            FloatCC::GreaterThan => (None, CR0_GT, true),
            FloatCC::Unordered => (None, CR0_UN, true),
            FloatCC::NotEqual => (None, CR0_EQ, false),
            FloatCC::Ordered => (None, CR0_UN, false),
            FloatCC::UnorderedOrLessThanOrEqual => (None, CR0_GT, false),
            FloatCC::UnorderedOrGreaterThanOrEqual => (None, CR0_LT, false),
            FloatCC::LessThanOrEqual => (Some((CR0_EQ, CR0_LT, CR0_EQ)), CR0_EQ, true),
            FloatCC::GreaterThanOrEqual => (Some((CR0_EQ, CR0_GT, CR0_EQ)), CR0_EQ, true),
            FloatCC::OrderedNotEqual => (Some((CR0_LT, CR0_LT, CR0_GT)), CR0_LT, true),
            FloatCC::UnorderedOrEqual => (Some((CR0_EQ, CR0_UN, CR0_EQ)), CR0_EQ, true),
            FloatCC::UnorderedOrLessThan => (Some((CR0_LT, CR0_UN, CR0_LT)), CR0_LT, true),
            FloatCC::UnorderedOrGreaterThan => (Some((CR0_GT, CR0_UN, CR0_GT)), CR0_GT, true),
        }
    }

    /// How the condition is read from cr0. Conditions covering three of the
    /// four results are expressed as the complement of the fourth rather than
    /// with two `cror`s. The `cror` destination deliberately overwrites one of
    /// the inputs, which is dead once the combined bit has been formed.
    pub fn cr_plan(&self) -> (plan: CrPlan)
        ensures
            plan == self.spec_cr_plan(),
            forall|o: crate::ir::FloatOrder| #[trigger]
                self.kind.holds(o) == plan_reports(plan, o),
            plan.1 < 4,
            plan.0 matches Some(c) ==> c.0 < 4 && c.1 < 4 && c.2 < 4,
    {
        match self.kind {
            // A single result.
            FloatCC::Equal => (None, CR0_EQ, true),
            FloatCC::LessThan => (None, CR0_LT, true),
            FloatCC::GreaterThan => (None, CR0_GT, true),
            FloatCC::Unordered => (None, CR0_UN, true),
            // The complement of a single result.
            FloatCC::NotEqual => (None, CR0_EQ, false),
            FloatCC::Ordered => (None, CR0_UN, false),
            FloatCC::UnorderedOrLessThanOrEqual => (None, CR0_GT, false),
            FloatCC::UnorderedOrGreaterThanOrEqual => (None, CR0_LT, false),
            // Two results combined.
            FloatCC::LessThanOrEqual => (Some((CR0_EQ, CR0_LT, CR0_EQ)), CR0_EQ, true),
            FloatCC::GreaterThanOrEqual => (Some((CR0_EQ, CR0_GT, CR0_EQ)), CR0_EQ, true),
            FloatCC::OrderedNotEqual => (Some((CR0_LT, CR0_LT, CR0_GT)), CR0_LT, true),
            FloatCC::UnorderedOrEqual => (Some((CR0_EQ, CR0_UN, CR0_EQ)), CR0_EQ, true),
            FloatCC::UnorderedOrLessThan => (Some((CR0_LT, CR0_UN, CR0_LT)), CR0_LT, true),
            FloatCC::UnorderedOrGreaterThan => (Some((CR0_GT, CR0_UN, CR0_GT)), CR0_GT, true),
        }
    }

    /// Both registers are physical.
    pub open spec fn real_regs(self) -> bool {
        self.rs1.is_real() && self.rs2.is_real()
    }
}

/// A conditional branch target.
#[derive(Clone, Copy, Debug, PartialEq, Eq, Structural)]
pub enum CondBrTarget {
    /// An unresolved reference to a label.
    Label(MachLabel),
    /// No jump; fall through to the next instruction.
    Fallthrough,
}

/// The scalar loads.
#[derive(Clone, Copy, Debug, PartialEq, Eq, Structural)]
pub enum LoadOP {
    Lbz,
    Lhz,
    Lwz,
    Ld,
    Lfs,
    Lfd,
}

/// The scalar stores.
#[derive(Clone, Copy, Debug, PartialEq, Eq, Structural)]
pub enum StoreOP {
    Stb,
    Sth,
    Stw,
    Std,
    Stfs,
    Stfd,
}

/// The types that one scalar load or store moves.
pub open spec fn is_scalar_access(ty: Type) -> bool {
    match ty {
        Type::I8 | Type::I16 | Type::I32 | Type::I64 | Type::F32 | Type::F64 => true,
        _ => false,
    }
}

impl LoadOP {
    /// The load of a type.
    pub open spec fn spec_from_type(ty: Type) -> LoadOP {
        match ty {
            Type::I8 => LoadOP::Lbz,
            Type::I16 => LoadOP::Lhz,
            Type::I32 => LoadOP::Lwz,
            Type::F32 => LoadOP::Lfs,
            Type::F64 => LoadOP::Lfd,
            _ => LoadOP::Ld,
        }
    }

    /// The load of a type.
    pub fn from_type(ty: Type) -> (op: LoadOP)
        requires
            is_scalar_access(ty),
        ensures
            op == LoadOP::spec_from_type(ty),
            op.width() == ty.bytes(),
    {
        match ty {
            Type::I8 => LoadOP::Lbz,
            Type::I16 => LoadOP::Lhz,
            Type::I32 => LoadOP::Lwz,
            Type::F32 => LoadOP::Lfs,
            Type::F64 => LoadOP::Lfd,
            _ => LoadOP::Ld,
        }
    }

    /// The number of bytes that the load reads.
    pub open spec fn width(self) -> u32 {
        match self {
            LoadOP::Lbz => 1,
            LoadOP::Lhz => 2,
            LoadOP::Lwz | LoadOP::Lfs => 4,
            LoadOP::Ld | LoadOP::Lfd => 8,
        }
    }

    /// Whether the load is into a floating-point register.
    pub fn is_fpr(&self) -> (b: bool)
        ensures
            b == (*self == LoadOP::Lfs || *self == LoadOP::Lfd),
    {
        match self {
            LoadOP::Lfs | LoadOP::Lfd => true,
            _ => false,
        }
    }
}

impl StoreOP {
    /// The store of a type.
    pub open spec fn spec_from_type(ty: Type) -> StoreOP {
        match ty {
            Type::I8 => StoreOP::Stb,
            Type::I16 => StoreOP::Sth,
            Type::I32 => StoreOP::Stw,
            Type::F32 => StoreOP::Stfs,
            Type::F64 => StoreOP::Stfd,
            _ => StoreOP::Std,
        }
    }

    /// The store of a type.
    pub fn from_type(ty: Type) -> (op: StoreOP)
        requires
            is_scalar_access(ty),
        ensures
            op == StoreOP::spec_from_type(ty),
            op.width() == ty.bytes(),
    {
        match ty {
            Type::I8 => StoreOP::Stb,
            Type::I16 => StoreOP::Sth,
            Type::I32 => StoreOP::Stw,
            Type::F32 => StoreOP::Stfs,
            Type::F64 => StoreOP::Stfd,
            _ => StoreOP::Std,
        }
    }

    /// The number of bytes that the store writes.
    pub open spec fn width(self) -> u32 {
        match self {
            StoreOP::Stb => 1,
            StoreOP::Sth => 2,
            StoreOP::Stw | StoreOP::Stfs => 4,
            StoreOP::Std | StoreOP::Stfd => 8,
        }
    }

    /// Whether the store is from a floating-point register.
    pub fn is_fpr(&self) -> (b: bool)
        ensures
            b == (*self == StoreOP::Stfs || *self == StoreOP::Stfd),
    {
        match self {
            StoreOP::Stfs | StoreOP::Stfd => true,
            _ => false,
        }
    }
}

/// An inverted compare tests the same bit with the other polarity, so that its
/// branch differs from the first one in the branch-option field alone.
pub proof fn law_inverse_flips_polarity(c: IntegerCompare)
    ensures
        c.spec_inverse().spec_bit_and_polarity().0 == c.spec_bit_and_polarity().0,
        c.spec_inverse().spec_bit_and_polarity().1 == !c.spec_bit_and_polarity().1,
        c.spec_inverse().kind.spec_is_signed() == c.kind.spec_is_signed(),
        forall|x: int, y: int| #[trigger]
            c.spec_inverse().kind.holds(x, y) == !c.kind.holds(x, y),
        c.spec_inverse().spec_inverse() == c,
{
}

} // verus!
