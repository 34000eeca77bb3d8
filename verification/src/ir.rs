//! The vocabulary that the code generator shares with its front end: value
//! types, condition codes, trap codes, memory flags, symbols and calling
//! conventions.
use vstd::prelude::*;

verus! {

/// A byte offset into a function's code.
pub type CodeOffset = u32;

/// A value type. Vector types are named by lane type and lane count.
#[derive(Clone, Copy, Debug, PartialEq, Eq, Structural)]
pub enum Type {
    I8,
    I16,
    I32,
    I64,
    I128,
    F16,
    F32,
    F64,
    F128,
    I8X8,
    I16X4,
    I32X2,
    F16X4,
    F32X2,
    I8X16,
    I16X8,
    I32X4,
    I64X2,
    F16X8,
    F32X4,
    F64X2,
}

impl Type {
    /// The width of one lane, in bits; a scalar has one lane.
    pub open spec fn spec_lane_bits(self) -> u32 {
        match self {
            Type::I8 | Type::I8X8 | Type::I8X16 => 8,
            Type::I16 | Type::F16 | Type::I16X4 | Type::F16X4 | Type::I16X8 | Type::F16X8 => 16,
            Type::I32 | Type::F32 | Type::I32X2 | Type::F32X2 | Type::I32X4 | Type::F32X4 => 32,
            Type::I64 | Type::F64 | Type::I64X2 | Type::F64X2 => 64,
            Type::I128 | Type::F128 => 128,
        }
    }

    /// The number of lanes; one for a scalar.
    pub open spec fn spec_lane_count(self) -> u32 {
        match self {
            Type::I8 | Type::I16 | Type::I32 | Type::I64 | Type::I128 | Type::F16 | Type::F32
            | Type::F64 | Type::F128 => 1,
            Type::I64X2 | Type::F64X2 | Type::I32X2 | Type::F32X2 => 2,
            Type::I16X4 | Type::F16X4 | Type::I32X4 | Type::F32X4 => 4,
            Type::I8X8 | Type::I16X8 | Type::F16X8 => 8,
            Type::I8X16 => 16,
        }
    }

    /// The width of the whole value, in bits.
    pub open spec fn spec_bits(self) -> u32 {
        match self {
            Type::I8 => 8,
            Type::I16 | Type::F16 => 16,
            Type::I32 | Type::F32 => 32,
            Type::I64 | Type::F64 | Type::I8X8 | Type::I16X4 | Type::I32X2 | Type::F16X4
            | Type::F32X2 => 64,
            _ => 128,
        }
    }

    /// The width of the whole value, in bytes.
    pub open spec fn spec_bytes(self) -> u32 {
        self.spec_bits() / 8
    }

    /// Whether the lanes are floating-point numbers.
    pub open spec fn spec_lane_is_float(self) -> bool {
        match self {
            Type::F16 | Type::F32 | Type::F64 | Type::F128 | Type::F16X4 | Type::F32X2
            | Type::F16X8 | Type::F32X4 | Type::F64X2 => true,
            _ => false,
        }
    }

    /// Whether this is a vector type.
    pub open spec fn spec_is_vector(self) -> bool {
        self.spec_lane_count() > 1
    }

    /// The width of one lane, in bits; a scalar has one lane.
    #[verifier::when_used_as_spec(spec_lane_bits)]
    pub fn lane_bits(self) -> (n: u32)
        ensures
            n == self.spec_lane_bits(),
    {
        match self {
            Type::I8 | Type::I8X8 | Type::I8X16 => 8,
            Type::I16 | Type::F16 | Type::I16X4 | Type::F16X4 | Type::I16X8 | Type::F16X8 => 16,
            Type::I32 | Type::F32 | Type::I32X2 | Type::F32X2 | Type::I32X4 | Type::F32X4 => 32,
            Type::I64 | Type::F64 | Type::I64X2 | Type::F64X2 => 64,
            Type::I128 | Type::F128 => 128,
        }
    }

    /// The number of lanes; one for a scalar.
    #[verifier::when_used_as_spec(spec_lane_count)]
    pub fn lane_count(self) -> (n: u32)
        ensures
            n == self.spec_lane_count(),
    {
        match self {
            Type::I8 | Type::I16 | Type::I32 | Type::I64 | Type::I128 | Type::F16 | Type::F32
            | Type::F64 | Type::F128 => 1,
            Type::I64X2 | Type::F64X2 | Type::I32X2 | Type::F32X2 => 2,
            Type::I16X4 | Type::F16X4 | Type::I32X4 | Type::F32X4 => 4,
            Type::I8X8 | Type::I16X8 | Type::F16X8 => 8,
            Type::I8X16 => 16,
        }
    }

    /// The width of the whole value, in bits.
    #[verifier::when_used_as_spec(spec_bits)]
    pub fn bits(self) -> (n: u32)
        ensures
            n == self.spec_bits(),
            8 <= n <= 128,
            n % 8 == 0,
    {
        match self {
            Type::I8 => 8,
            Type::I16 | Type::F16 => 16,
            Type::I32 | Type::F32 => 32,
            Type::I64 | Type::F64 | Type::I8X8 | Type::I16X4 | Type::I32X2 | Type::F16X4
            | Type::F32X2 => 64,
            _ => 128,
        }
    }

    /// The width of the whole value, in bytes.
    #[verifier::when_used_as_spec(spec_bytes)]
    pub fn bytes(self) -> (n: u32)
        ensures
            n == self.spec_bytes(),
            1 <= n <= 16,
            8 * n == self.spec_bits(),
    {
        self.bits() / 8
    }

    /// Whether the lanes are floating-point numbers.
    #[verifier::when_used_as_spec(spec_lane_is_float)]
    pub fn lane_is_float(self) -> (b: bool)
        ensures
            b == self.spec_lane_is_float(),
    {
        match self {
            Type::F16 | Type::F32 | Type::F64 | Type::F128 | Type::F16X4 | Type::F32X2
            | Type::F16X8 | Type::F32X4 | Type::F64X2 => true,
            _ => false,
        }
    }

    /// Whether this is a vector type.
    #[verifier::when_used_as_spec(spec_is_vector)]
    pub fn is_vector(self) -> (b: bool)
        ensures
            b == self.spec_is_vector(),
    {
        self.lane_count() > 1
    }
}

/// An integer condition.
#[derive(Clone, Copy, Debug, PartialEq, Eq, Structural)]
pub enum IntCC {
    Equal,
    NotEqual,
    SignedLessThan,
    SignedGreaterThanOrEqual,
    SignedGreaterThan,
    SignedLessThanOrEqual,
    UnsignedLessThan,
    UnsignedGreaterThanOrEqual,
    UnsignedGreaterThan,
    UnsignedLessThanOrEqual,
}

impl IntCC {
    /// Whether the condition compares its operands as signed numbers.
    pub open spec fn spec_is_signed(self) -> bool {
        match self {
            IntCC::SignedLessThan | IntCC::SignedLessThanOrEqual | IntCC::SignedGreaterThan
            | IntCC::SignedGreaterThanOrEqual => true,
            _ => false,
        }
    }

    /// Whether the condition holds of the numbers `x` and `y`, each already
    /// read with the condition's signedness.
    pub open spec fn holds(self, x: int, y: int) -> bool {
        match self {
            IntCC::Equal => x == y,
            IntCC::NotEqual => x != y,
            IntCC::SignedLessThan | IntCC::UnsignedLessThan => x < y,
            IntCC::SignedGreaterThanOrEqual | IntCC::UnsignedGreaterThanOrEqual => x >= y,
            IntCC::SignedGreaterThan | IntCC::UnsignedGreaterThan => x > y,
            IntCC::SignedLessThanOrEqual | IntCC::UnsignedLessThanOrEqual => x <= y,
        }
    }

    /// The condition that holds exactly where `self` does not.
    pub open spec fn spec_complement(self) -> IntCC {
        match self {
            IntCC::Equal => IntCC::NotEqual,
            IntCC::NotEqual => IntCC::Equal,
            IntCC::SignedLessThan => IntCC::SignedGreaterThanOrEqual,
            IntCC::SignedGreaterThanOrEqual => IntCC::SignedLessThan,
            IntCC::SignedGreaterThan => IntCC::SignedLessThanOrEqual,
            IntCC::SignedLessThanOrEqual => IntCC::SignedGreaterThan,
            IntCC::UnsignedLessThan => IntCC::UnsignedGreaterThanOrEqual,
            IntCC::UnsignedGreaterThanOrEqual => IntCC::UnsignedLessThan,
            IntCC::UnsignedGreaterThan => IntCC::UnsignedLessThanOrEqual,
            IntCC::UnsignedLessThanOrEqual => IntCC::UnsignedGreaterThan,
        }
    }

    /// The condition that holds exactly where `self` does not.
    pub fn complement(self) -> (cc: IntCC)
        ensures
            cc == self.spec_complement(),
            forall|x: int, y: int| #[trigger] cc.holds(x, y) == !self.holds(x, y),
            cc.spec_is_signed() == self.spec_is_signed(),
    {
        match self {
            IntCC::Equal => IntCC::NotEqual,
            IntCC::NotEqual => IntCC::Equal,
            IntCC::SignedLessThan => IntCC::SignedGreaterThanOrEqual,
            IntCC::SignedGreaterThanOrEqual => IntCC::SignedLessThan,
            IntCC::SignedGreaterThan => IntCC::SignedLessThanOrEqual,
            IntCC::SignedLessThanOrEqual => IntCC::SignedGreaterThan,
            IntCC::UnsignedLessThan => IntCC::UnsignedGreaterThanOrEqual,
            IntCC::UnsignedGreaterThanOrEqual => IntCC::UnsignedLessThan,
            IntCC::UnsignedGreaterThan => IntCC::UnsignedLessThanOrEqual,
            IntCC::UnsignedLessThanOrEqual => IntCC::UnsignedGreaterThan,
        }
    }
}

/// The outcome of comparing two floating-point numbers. Exactly one of the
/// four holds of any pair.
#[derive(Clone, Copy, Debug, PartialEq, Eq, Structural)]
pub enum FloatOrder {
    Less,
    Greater,
    Equal,
    Unordered,
}

/// A floating-point condition: a set of comparison outcomes.
#[derive(Clone, Copy, Debug, PartialEq, Eq, Structural)]
pub enum FloatCC {
    Ordered,
    Unordered,
    Equal,
    NotEqual,
    OrderedNotEqual,
    UnorderedOrEqual,
    LessThan,
    LessThanOrEqual,
    GreaterThan,
    GreaterThanOrEqual,
    UnorderedOrLessThan,
    UnorderedOrLessThanOrEqual,
    UnorderedOrGreaterThan,
    UnorderedOrGreaterThanOrEqual,
}

impl FloatCC {
    /// Whether the condition holds of a pair that compares as `o`.
    pub open spec fn holds(self, o: FloatOrder) -> bool {
        let lt = o == FloatOrder::Less;
        let gt = o == FloatOrder::Greater;
        let eq = o == FloatOrder::Equal;
        let un = o == FloatOrder::Unordered;
        match self {
            FloatCC::Ordered => lt || gt || eq,
            FloatCC::Unordered => un,
            FloatCC::Equal => eq,
            FloatCC::NotEqual => lt || gt || un,
            FloatCC::OrderedNotEqual => lt || gt,
            FloatCC::UnorderedOrEqual => un || eq,
            FloatCC::LessThan => lt,
            FloatCC::LessThanOrEqual => lt || eq,
            FloatCC::GreaterThan => gt,
            FloatCC::GreaterThanOrEqual => gt || eq,
            FloatCC::UnorderedOrLessThan => un || lt,
            FloatCC::UnorderedOrLessThanOrEqual => un || lt || eq,
            FloatCC::UnorderedOrGreaterThan => un || gt,
            FloatCC::UnorderedOrGreaterThanOrEqual => un || gt || eq,
        }
    }
}

/// Why an instruction may trap.
#[derive(Clone, Copy, Debug, PartialEq, Eq, Structural)]
pub enum TrapCode {
    StackOverflow,
    HeapOutOfBounds,
    IntegerOverflow,
    IntegerDivisionByZero,
    BadConversionToInteger,
    User(u8),
}

/// What is known of a memory access.
#[derive(Clone, Copy, Debug, PartialEq, Eq, Structural)]
pub struct MemFlagsData {
    /// The trap that a faulting access raises; `None` if it cannot fault.
    pub trap: Option<TrapCode>,
}

impl MemFlagsData {
    /// The flags of an access that is known not to fault.
    pub open spec fn spec_trusted() -> MemFlagsData {
        MemFlagsData { trap: None }
    }

    /// The flags of an access that is known not to fault.
    pub fn trusted() -> (f: MemFlagsData)
        ensures
            f == MemFlagsData::spec_trusted(),
    {
        MemFlagsData { trap: None }
    }

    /// The trap that a faulting access raises.
    pub fn trap_code(&self) -> (t: Option<TrapCode>)
        ensures
            t == self.trap,
    {
        self.trap
    }
}

/// A routine of the run-time library.
#[derive(Clone, Copy, Debug, PartialEq, Eq, Structural)]
pub enum LibCall {
    Probestack,
    Memcpy,
}

/// A symbol that a relocation refers to.
#[derive(Clone, Copy, Debug, PartialEq, Eq, Structural)]
pub enum ExternalName {
    LibCall(LibCall),
    User(u32),
}

/// A calling convention.
#[derive(Clone, Copy, Debug, PartialEq, Eq, Structural)]
pub enum CallConv {
    Fast,
    Tail,
    SystemV,
    WindowsFastcall,
    AppleAarch64,
    Probestack,
    Winch,
    PreserveAll,
}

/// How a narrow argument is widened to its register or slot.
#[derive(Clone, Copy, Debug, PartialEq, Eq, Structural)]
pub enum ArgumentExtension {
    Unextended,
    Uext,
    Sext,
}

/// What a parameter is for.
#[derive(Clone, Copy, Debug, PartialEq, Eq, Structural)]
pub enum ArgumentPurpose {
    Normal,
    StructArgument(u32),
    StructReturn,
    VMContext,
}

/// One parameter or return value of a signature.
#[derive(Clone, Copy, Debug, PartialEq, Eq, Structural)]
pub struct AbiParam {
    pub value_type: Type,
    pub purpose: ArgumentPurpose,
    pub extension: ArgumentExtension,
}

/// The operation of an atomic read-modify-write.
#[derive(Clone, Copy, Debug, PartialEq, Eq, Structural)]
pub enum AtomicRmwOp {
    Add,
    Sub,
    And,
    Nand,
    Or,
    Xor,
    Xchg,
    Umin,
    Umax,
    Smin,
    Smax,
}

/// Which calls a function makes.
#[derive(Clone, Copy, Debug, PartialEq, Eq, Structural)]
pub enum FunctionCalls {
    Leaf,
    TailOnly,
    Regular,
}

/// The kind of a relocation.
#[derive(Clone, Copy, Debug, PartialEq, Eq, Structural)]
pub enum Reloc {
    /// An absolute 64-bit address.
    Abs8,
    /// The 24-bit word offset of a `b` or `bl`.
    Ppc64Call,
    /// Any relocation that this target does not resolve to a label.
    Other,
}

/// An error of the code generator.
#[derive(Clone, Copy, Debug, PartialEq, Eq, Structural)]
pub enum CodegenError {
    /// A value type that the target cannot hold in registers.
    UnsupportedType(Type),
    /// More return values than fit in registers, where none may go to memory.
    TooManyReturnValues,
}

/// The target-independent settings that the code generator reads.
#[derive(Clone, Copy, Debug, PartialEq, Eq, Structural)]
pub struct SharedFlags {
    pub preserve_frame_pointers: bool,
    pub unwind_info: bool,
    pub enable_multi_ret_implicit_sret: bool,
}

/// The settings of this target.
#[derive(Clone, Copy, Debug, PartialEq, Eq, Structural)]
pub struct Ppc64Flags {
    /// ISA 3.0 (POWER9) instructions may be used.
    pub has_isa_3_0: bool,
    /// ISA 3.1 (POWER10) instructions may be used.
    pub has_isa_3_1: bool,
}

} // verus!
