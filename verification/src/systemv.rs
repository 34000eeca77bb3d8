//! Unwind information for the System V convention.
//!
//! DWARF register numbering per ELFv2: general-purpose registers are 0-31,
//! floating-point registers 32-63, LR is 65, vector registers are 77-108.
use vstd::prelude::*;
use crate::regs::{fp_reg, stack_reg, Reg, RegClass};

verus! {

/// DWARF register number for the link register.
pub const DWARF_LR: u16 = 65;

/// A DWARF register number.
#[derive(Clone, Copy, Debug, PartialEq, Eq, Structural)]
pub struct Register(pub u16);

/// A register that has no DWARF number. Every physical register has one.
#[derive(Clone, Copy, Debug, PartialEq, Eq, Structural)]
pub enum RegisterMappingError {
    UnsupportedRegisterBank,
}

/// The common information entry of unwind information.
#[verifier::external_type_specification]
#[verifier::external_body]
pub struct ExCommonInformationEntry(gimli::write::CommonInformationEntry);

/// The initial instructions of an entry, in order: each defines the call frame
/// address as a register plus an offset.
pub uninterp spec fn cie_instructions(c: gimli::write::CommonInformationEntry) -> Seq<(u16, i32)>;

/// The format of unwind information, by the size of its offsets.
#[derive(Clone, Copy, Debug, PartialEq, Eq, Structural)]
pub enum DwarfFormat {
    /// Offsets of 32 bits.
    Dwarf32,
    /// Offsets of 64 bits.
    Dwarf64,
}

/// The bits of an offset.
pub open spec fn offset_bits(format: DwarfFormat) -> int {
    match format {
        DwarfFormat::Dwarf32 => 32,
        DwarfFormat::Dwarf64 => 64,
    }
}

/// What an entry was made with: the bits of an offset, the size of an address in
/// bytes, the version, the code alignment factor, the data alignment factor, and the
/// number of the return address register.
pub uninterp spec fn cie_parameters(c: gimli::write::CommonInformationEntry) -> Seq<int>;

/// `gimli::write::CommonInformationEntry::new`: an entry with what it was made with
/// and no instructions.
#[verifier::external_body]
fn new_entry(
    format: DwarfFormat,
    address_size: u8,
    version: u16,
    code_align: u8,
    data_align: i8,
    ra: u16,
) -> (c: gimli::write::CommonInformationEntry)
    ensures
        cie_instructions(c) == Seq::<(u16, i32)>::empty(),
        cie_parameters(c) == seq![
            offset_bits(format),
            address_size as int,
            version as int,
            code_align as int,
            data_align as int,
            ra as int,
        ],
{
    let format = match format {
        DwarfFormat::Dwarf32 => gimli::Format::Dwarf32,
        DwarfFormat::Dwarf64 => gimli::Format::Dwarf64,
    };
    gimli::write::CommonInformationEntry::new(
        gimli::Encoding { address_size, format, version },
        code_align,
        data_align,
        gimli::Register(ra),
    )
}

/// `gimli::write::CommonInformationEntry::add_instruction` of the instruction that
/// defines the call frame address: one more instruction at the end.
#[verifier::external_body]
fn add_cfa(c: &mut gimli::write::CommonInformationEntry, reg: u16, offset: i32)
    ensures
        cie_instructions(*final(c)) == cie_instructions(*old(c)).push((reg, offset)),
        cie_parameters(*final(c)) == cie_parameters(*old(c)),
{
    c.add_instruction(gimli::write::CallFrameInstruction::Cfa(gimli::Register(reg), offset));
}

/// Creates a new common information entry. Every frame starts with the call frame
/// address at the stack pointer.
pub fn create_cie() -> (c: gimli::write::CommonInformationEntry)
    ensures
        cie_parameters(c) == seq![32int, 8, 1, 4, -8, DWARF_LR as int],
        cie_instructions(c) == seq![(1u16, 0i32)],
{
    let mut entry = new_entry(DwarfFormat::Dwarf32, 8, 1, 4, -8, DWARF_LR);
    let sp: u16 = hw_number(stack_reg());
    add_cfa(&mut entry, sp, 0);
    assert(cie_instructions(entry) =~= seq![(1u16, 0i32)]);
    entry
}

fn hw_number(reg: Reg) -> (n: u16)
    requires
        reg.is_real(),
    ensures
        n == reg.index % 64,
{
    match reg.to_real_reg() {
        Some(rr) => rr.hw_enc as u16,
        None => 0,
    }
}

/// The first DWARF number of a register class.
pub open spec fn class_base(class: RegClass) -> int {
    match class {
        RegClass::Int => 0,
        RegClass::Float => 32,
        RegClass::Vector => 77,
    }
}

/// Map a physical register to its DWARF number.
pub fn map_reg(reg: Reg) -> (r: Result<Register, RegisterMappingError>)
    requires
        reg.is_real(),
    ensures
        r is Ok,
        r->Ok_0.0 == class_base(reg.class) + reg.index % 64,
{
    let reg_offset: u16 = match reg.class() {
        RegClass::Int => 0,
        RegClass::Float => 32,
        RegClass::Vector => 77,
    };
    Ok(Register(reg_offset + hw_number(reg)))
}

/// The mapping of registers that unwind information is made with.
#[derive(Clone, Copy, Debug)]
pub struct RegisterMapper;

impl RegisterMapper {
    /// The DWARF number of a physical register.
    pub fn map(&self, reg: Reg) -> (r: Result<u16, RegisterMappingError>)
        requires
            reg.is_real(),
        ensures
            r is Ok,
            r->Ok_0 == class_base(reg.class) + reg.index % 64,
    {
        match map_reg(reg) {
            Ok(reg) => Ok(reg.0),
            Err(e) => Err(e),
        }
    }

    /// The DWARF number of the frame pointer.
    pub fn fp(&self) -> (n: Option<u16>)
        ensures
            n == Some(31u16),
    {
        Some(hw_number(fp_reg()))
    }

    /// The DWARF number of the link register.
    pub fn lr(&self) -> (n: Option<u16>)
        ensures
            n == Some(DWARF_LR),
    {
        Some(DWARF_LR)
    }

    /// Where the prologue stores the return address, from the frame pointer.
    pub fn lr_offset(&self) -> (n: Option<u32>)
        ensures
            n == Some(8u32),
    {
        Some(8)
    }
}

/// The DWARF number of a physical register of the machine.
pub open spec fn dwarf_number(hw_enc: nat, class: RegClass) -> int {
    class_base(class) + hw_enc
}

/// No two registers share a DWARF number, and none has that of the link register.
pub proof fn law_dwarf_numbers_distinct(n: nat, c: RegClass, m: nat, d: RegClass)
    requires
        n < 32,
        m < 32,
    ensures
        dwarf_number(n, c) == dwarf_number(m, d) ==> n == m && c == d,
        dwarf_number(n, c) != DWARF_LR,
{
}

} // verus!
