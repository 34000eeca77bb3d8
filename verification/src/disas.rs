//! A disassembler for the code that the backend makes.
use vstd::prelude::*;
use capstone::arch::{BuildsCapstone, BuildsCapstoneEndian};

verus! {

/// `capstone::Capstone`, an instance of the disassembler.
#[verifier::external_type_specification]
#[verifier::external_body]
pub struct ExCapstone(capstone::Capstone);

/// `capstone::Error`, why a call into the disassembler failed.
#[verifier::external_type_specification]
#[verifier::external_body]
pub struct ExCapstoneError(capstone::Error);

/// The width of the instruction set to disassemble.
#[derive(Clone, Copy, Debug, PartialEq, Eq, Structural)]
pub enum ArchMode {
    Mode32,
    Mode64,
}

/// The order of the bytes of a word to disassemble.
#[derive(Clone, Copy, Debug, PartialEq, Eq, Structural)]
pub enum Endian {
    Little,
    Big,
}

/// Why there is no disassembler.
pub enum DisassemblerError {
    /// It could not be made.
    NotBuilt(capstone::Error),
    /// It could not be told to skip data.
    NotSkipping(capstone::Error),
}

/// How an instance of the disassembler is set up: the bits of an address, whether the
/// bytes of a word come most significant first, and whether bytes that are no
/// instruction are skipped.
pub uninterp spec fn capstone_setup(cs: capstone::Capstone) -> (int, bool, bool);

/// The bits of an address.
pub open spec fn address_bits(mode: ArchMode) -> int {
    match mode {
        ArchMode::Mode32 => 32,
        ArchMode::Mode64 => 64,
    }
}

/// The disassembler of the Power architecture, of `capstone::Capstone::new` and its
/// builder, with a mode and a byte order: one that is made has these, and does not
/// skip data. Whether it can be made depends on how the disassembler was built and on
/// memory, so that is left open.
#[verifier::external_body]
pub(crate) fn build(
    mode: ArchMode,
    endian: Endian,
) -> (r: Result<capstone::Capstone, capstone::Error>)
    ensures
        r matches Ok(cs) ==> capstone_setup(cs) == (
            address_bits(mode),
            endian == Endian::Big,
            false,
        ),
{
    let mode = match mode {
        ArchMode::Mode32 => capstone::arch::ppc::ArchMode::Mode32,
        ArchMode::Mode64 => capstone::arch::ppc::ArchMode::Mode64,
    };
    let endian = match endian {
        Endian::Little => capstone::Endian::Little,
        Endian::Big => capstone::Endian::Big,
    };
    capstone::Capstone::new().ppc().mode(mode).endian(endian).build()
}

/// `capstone::Capstone::set_skipdata`: whether bytes that are no instruction are
/// skipped from now on. It does not fail: an instance has a live handle, and this
/// option takes both values.
#[verifier::external_body]
fn set_skipdata(cs: &mut capstone::Capstone, on: bool) -> (r: Result<(), capstone::Error>)
    ensures
        r is Ok,
        capstone_setup(*final(cs)) == (
            capstone_setup(*old(cs)).0,
            capstone_setup(*old(cs)).1,
            on,
        ),
{
    cs.set_skipdata(on)
}

/// A disassembler, by what it answered when it was told to skip data.
pub fn told(cs: capstone::Capstone, answer: Result<(), capstone::Error>) -> (r: Result<
    capstone::Capstone,
    DisassemblerError,
>)
    ensures
        answer is Ok ==> r == Ok::<_, DisassemblerError>(cs),
        answer matches Err(e) ==> r == Err::<capstone::Capstone, _>(
            DisassemblerError::NotSkipping(e),
        ),
{
    match answer {
        Ok(()) => Ok(cs),
        Err(e) => Err(DisassemblerError::NotSkipping(e)),
    }
}

/// A disassembler that was made, told to skip over bytes that it cannot decode, such
/// as inline constants, instead of stopping at them. Only making it can have failed.
pub fn skipping(built: Result<capstone::Capstone, capstone::Error>) -> (r: Result<
    capstone::Capstone,
    DisassemblerError,
>)
    ensures
        built matches Err(e) ==> r == Err::<capstone::Capstone, _>(DisassemblerError::NotBuilt(e)),
        built matches Ok(was) ==> r matches Ok(cs) && capstone_setup(cs) == (
            capstone_setup(was).0,
            capstone_setup(was).1,
            true,
        ),
{
    match built {
        Ok(cs) => {
            let mut cs = cs;
            let answer = set_skipdata(&mut cs, true);
            told(cs, answer)
        },
        Err(e) => Err(DisassemblerError::NotBuilt(e)),
    }
}

} // verus!
