//! The backend: what it answers about itself and its target.
use vstd::prelude::*;
use crate::buffer;
use crate::buffer::{MachBuffer, UnwindInst};
use crate::disas;
use crate::disas::{build, skipping, ArchMode, DisassemblerError, Endian};
use crate::emit::EmitInfo;
use crate::inst::{FunctionAlignment, Inst};
use crate::ir::{ArgumentExtension, CodeOffset, Ppc64Flags, SharedFlags, Type};
use crate::regs;
use crate::regs::{reg_name, Reg};
use crate::settings::{flag_values, Builder, SettingValue};
use crate::systemv;
use crate::systemv::{create_cie, map_reg, RegisterMappingError};

verus! {

/// The architectures that a target can have, as far as they make a difference.
#[derive(Clone, Copy, Debug, PartialEq, Eq, Structural)]
pub enum Architecture {
    Powerpc64le,
    Riscv64,
    Other,
}

/// A target.
#[derive(Clone, Copy, Debug, PartialEq, Eq, Structural)]
pub struct Triple {
    pub architecture: Architecture,
}

/// A backend.
#[derive(Clone, Copy, Debug)]
pub struct Ppc64Backend {
    triple: Triple,
    flags: SharedFlags,
    isa_flags: Ppc64Flags,
}

/// The ingredients of a backend: the target, and the settings to adjust.
#[derive(Clone, Copy, Debug)]
pub struct IsaBuilder {
    pub triple: Triple,
    pub setup: Builder,
}

/// The kinds of unwind information.
#[derive(Clone, Copy, Debug, PartialEq, Eq, Structural)]
pub enum UnwindInfoKind {
    Nothing,
    SystemV,
    Windows,
}

/// What unwind information is made from.
#[derive(Debug)]
pub struct UnwindRecords {
    /// What the code does to the frame, each with its offset in the code.
    pub records: Vec<(CodeOffset, UnwindInst)>,
    /// The size of the code.
    pub code_len: CodeOffset,
}

impl Ppc64Backend {
    /// The target.
    pub closed spec fn spec_triple(self) -> Triple {
        self.triple
    }

    /// The shared flags.
    pub closed spec fn spec_flags(self) -> SharedFlags {
        self.flags
    }

    /// The flags of the instruction set.
    pub closed spec fn spec_isa_flags(self) -> Ppc64Flags {
        self.isa_flags
    }

    /// Create a new backend with the given flags.
    pub fn new_with_flags(triple: Triple, flags: SharedFlags, isa_flags: Ppc64Flags) -> (b:
        Ppc64Backend)
        ensures
            b.spec_triple() == triple,
            b.spec_flags() == flags,
            b.spec_isa_flags() == isa_flags,
    {
        Ppc64Backend { triple, flags, isa_flags }
    }

    /// What emission needs to know.
    pub fn emit_info(&self) -> (info: EmitInfo)
        ensures
            info.shared_flags == self.spec_flags(),
            info.isa_flags == self.spec_isa_flags(),
    {
        EmitInfo::new(self.flags, self.isa_flags)
    }

    /// The name of the backend.
    pub fn name(&self) -> (s: &'static str)
        ensures
            s@ == "ppc64"@,
    {
        "ppc64"
    }

    /// The size of a vector of a dynamic type.
    pub fn dynamic_vector_bytes(&self, _dynamic_ty: Type) -> (n: u32)
        ensures
            n == 16,
    {
        16
    }

    /// The target.
    pub fn triple(&self) -> (t: &Triple)
        ensures
            *t == self.spec_triple(),
    {
        &self.triple
    }

    /// The shared flags.
    pub fn flags(&self) -> (f: &SharedFlags)
        ensures
            *f == self.spec_flags(),
    {
        &self.flags
    }

    /// The flags of the instruction set, by name.
    pub fn isa_flags(&self) -> (v: Vec<SettingValue>)
        ensures
            v@.len() == 2,
            v@[0].name@ == "has_isa_3_0"@,
            v@[0].value == self.spec_isa_flags().has_isa_3_0,
            v@[1].name@ == "has_isa_3_1"@,
            v@[1].value == self.spec_isa_flags().has_isa_3_1,
    {
        flag_values(&self.isa_flags)
    }

    /// What unwind information is made from: the records of the code and its size,
    /// for the kind of unwind information that the target has.
    pub fn emit_unwind_info(&self, buffer: &MachBuffer, kind: UnwindInfoKind) -> (u:
        Option<UnwindRecords>)
        ensures
            u is Some <==> kind == UnwindInfoKind::SystemV,
            u matches Some(r) ==> r.records@ == buffer::unwind_records(buffer@.ops) && r.code_len
                == buffer@.size,
    {
        match kind {
            UnwindInfoKind::SystemV => Some(
                UnwindRecords { records: buffer.unwind_info(), code_len: buffer.cur_offset() },
            ),
            // There is no Windows on this architecture.
            _ => None,
        }
    }

    /// The common information entry of unwind information.
    pub fn create_systemv_cie(&self) -> (c: Option<gimli::write::CommonInformationEntry>)
        ensures
            c is Some,
            systemv::cie_parameters(c->0) == seq![
                32int,
                8,
                1,
                4,
                -8,
                systemv::DWARF_LR as int,
            ],
            systemv::cie_instructions(c->0) == seq![(1u16, 0i32)],
    {
        Some(create_cie())
    }

    /// The DWARF number of a physical register.
    pub fn map_regalloc_reg_to_dwarf(&self, reg: Reg) -> (r: Result<u16, RegisterMappingError>)
        requires
            reg.is_real(),
        ensures
            r is Ok,
            r->Ok_0 == systemv::class_base(reg.class) + reg.index % 64,
    {
        match map_reg(reg) {
            Ok(reg) => Ok(reg.0),
            Err(e) => Err(e),
        }
    }

    /// The alignment of functions.
    pub fn function_alignment(&self) -> (a: FunctionAlignment)
        ensures
            a == (FunctionAlignment { minimum: 4, preferred: 16 }),
    {
        Inst::function_alignment()
    }

    /// The size of a page, as a power of two: 64 KiB by default.
    pub fn page_size_align_log2(&self) -> (n: u8)
        ensures
            n == 16,
    {
        16
    }

    /// The disassembler of the code that the backend makes: of 64-bit little-endian
    /// code, skipping what it cannot decode. Only making it can fail.
    pub fn to_capstone(&self) -> (r: Result<capstone::Capstone, DisassemblerError>)
        ensures
            r matches Ok(cs) ==> disas::capstone_setup(cs) == (64int, false, true),
            r matches Err(e) ==> e is NotBuilt,
    {
        skipping(build(ArchMode::Mode64, Endian::Little))
    }

    /// The name of a register.
    pub fn pretty_print_reg(&self, reg: Reg, _size: u8) -> (s: String)
        ensures
            s@ == regs::reg_text(reg),
    {
        reg_name(reg)
    }

    /// Whether a fused multiply-add is lowered natively.
    pub fn has_native_fma(&self) -> (b: bool)
        ensures
            !b,
    {
        false
    }

    /// Whether rounding is lowered natively.
    pub fn has_round(&self) -> (b: bool)
        ensures
            b,
    {
        true
    }

    /// Whether a blend by sign bits is lowered.
    pub fn has_blendv_lowering(&self, _ty: Type) -> (b: bool)
        ensures
            !b,
    {
        false
    }

    /// Whether the x86 byte shuffle is lowered.
    pub fn has_x86_pshufb_lowering(&self) -> (b: bool)
        ensures
            !b,
    {
        false
    }

    /// Whether the x86 rounding high multiply is lowered.
    pub fn has_x86_pmulhrsw_lowering(&self) -> (b: bool)
        ensures
            !b,
    {
        false
    }

    /// Whether the x86 multiply-add of bytes is lowered.
    pub fn has_x86_pmaddubsw_lowering(&self) -> (b: bool)
        ensures
            !b,
    {
        false
    }

    /// The extension of an argument that asks for none. Signatures carry explicit
    /// annotations where interoperation needs an extension.
    pub fn default_argument_extension(&self) -> (e: ArgumentExtension)
        ensures
            e == ArgumentExtension::Unextended,
    {
        ArgumentExtension::Unextended
    }

    /// The register that code is told never to allocate: none.
    pub fn maybe_pinned_reg(&self) -> (r: Option<Reg>)
        ensures
            r is None,
    {
        None
    }
}

/// Start to make a backend, for the little-endian target only.
pub fn isa_builder(triple: Triple) -> (b: IsaBuilder)
    requires
        triple.architecture == Architecture::Powerpc64le,
    ensures
        b.triple == triple,
        !b.setup.has_isa_3_0,
        !b.setup.has_isa_3_1,
{
    IsaBuilder { triple, setup: Builder::new() }
}

impl IsaBuilder {
    /// Make the backend.
    pub fn finish(&self, shared_flags: SharedFlags) -> (b: Ppc64Backend)
        ensures
            b.spec_triple() == self.triple,
            b.spec_flags() == shared_flags,
            b.spec_isa_flags().has_isa_3_0 == self.setup.has_isa_3_0,
            b.spec_isa_flags().has_isa_3_1 == self.setup.has_isa_3_1,
    {
        isa_constructor(self.triple, shared_flags, &self.setup)
    }
}

fn isa_constructor(triple: Triple, shared_flags: SharedFlags, builder: &Builder) -> (b:
    Ppc64Backend)
    ensures
        b.spec_triple() == triple,
        b.spec_flags() == shared_flags,
        b.spec_isa_flags().has_isa_3_0 == builder.has_isa_3_0,
        b.spec_isa_flags().has_isa_3_1 == builder.has_isa_3_1,
{
    Ppc64Backend::new_with_flags(triple, shared_flags, builder.flags())
}

/// A target and its flags by name, as a test generator sees it.
#[derive(Debug)]
pub struct TargetIsa {
    pub triple: Triple,
    pub isa_flags: Vec<SettingValue>,
}

/// The value of the first flag of a name, if there is one.
pub open spec fn first_flag(flags: Seq<SettingValue>, name: Seq<char>) -> Option<bool>
    decreases flags.len(),
{
    if flags.len() == 0 {
        None
    } else if flags[0].name@ == name {
        Some(flags[0].value)
    } else {
        first_flag(flags.skip(1), name)
    }
}

/// What a test generator asks of a target.
pub trait TargetIsaExtras {
    /// Whether vector code can be generated.
    spec fn simd(&self) -> bool;

    /// Whether vector code can be generated.
    fn supports_simd(&self) -> (b: bool)
        ensures
            b == self.simd(),
    ;
}

impl TargetIsaExtras for TargetIsa {
    /// RISC-V has vectors with its vector extension only; every other target has
    /// them.
    open spec fn simd(&self) -> bool {
        self.triple.architecture == Architecture::Riscv64 ==> first_flag(
            self.isa_flags@,
            "has_v"@,
        ) == Some(true)
    }

    fn supports_simd(&self) -> (b: bool) {
        match self.triple.architecture {
            Architecture::Riscv64 => {
                let wanted = "has_v".to_owned();
                let mut i: usize = 0;
                assert(self.isa_flags@.skip(0) =~= self.isa_flags@);
                while i < self.isa_flags.len()
                    invariant
                        i <= self.isa_flags@.len(),
                        self.triple.architecture == Architecture::Riscv64,
                        wanted@ == "has_v"@,
                        first_flag(self.isa_flags@, "has_v"@) == first_flag(
                            self.isa_flags@.skip(i as int),
                            "has_v"@,
                        ),
                    decreases self.isa_flags@.len() - i,
                {
                    if self.isa_flags[i].name == wanted {
                        return self.isa_flags[i].value;
                    }
                    assert(self.isa_flags@.skip(i as int).skip(1) =~= self.isa_flags@.skip(i + 1));
                    i = i + 1;
                }
                false
            },
            _ => true,
        }
    }
}

} // verus!
