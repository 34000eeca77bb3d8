//! Label uses: branch fixups and veneers.
use vstd::prelude::*;
use crate::bytes;
use crate::bytes::{read_word, write_word};
use crate::encode;
use crate::encode::enc_b;
use crate::ir::{CodeOffset, Reloc};

verus! {

/// Different forms of label references for different instruction formats.
#[derive(Clone, Copy, Debug, PartialEq, Eq, Structural)]
pub enum LabelUse {
    /// I-form branch (`b`, `bl`): 24-bit word offset, range 32 MiB either way.
    Branch26,
    /// B-form conditional branch (`bc`): 14-bit word offset, range 32 KiB
    /// either way. Promoted to a `b` veneer when out of range.
    Branch16,
    /// An `addis`/`addi` pair adding a label's offset, relative to the
    /// instruction four bytes before the pair, where a `bcl 20,31,$+4; mflr`
    /// sequence read the program counter. Range 2 GiB either way, but for the last
    /// 32 KiB forward, where the low half is negative and the high half too large.
    PCRelHiLo,
}

/// The low half of a displacement, as `addi` adds it.
pub open spec fn lo16(delta: i64) -> i16 {
    delta as i16
}

/// The high half of a displacement, adjusted for the sign of the low half, as
/// `addis` adds it.
pub open spec fn ha16(delta: i64) -> u16 {
    (((delta - lo16(delta)) as i64) >> 16) as u16
}

impl LabelUse {
    /// Every instruction is four bytes long and aligned to as many.
    pub const ALIGN: CodeOffset = 4;

    /// The farthest forward distance that the use can express.
    pub open spec fn spec_max_pos_range(self) -> CodeOffset {
        match self {
            LabelUse::Branch26 => 0x1FF_FFFC,
            LabelUse::Branch16 => 0x7FFC,
            LabelUse::PCRelHiLo => 0x7FFF_7FFB,
        }
    }

    /// The farthest forward distance that the use can express.
    #[verifier::when_used_as_spec(spec_max_pos_range)]
    pub fn max_pos_range(self) -> (n: CodeOffset)
        ensures
            n == self.spec_max_pos_range(),
    {
        match self {
            LabelUse::Branch26 => 0x200_0000 - 4,
            LabelUse::Branch16 => 0x8000 - 4,
            LabelUse::PCRelHiLo => 0x7FFF_7FFF - 4,
        }
    }

    /// The farthest backward distance that the use can express.
    pub open spec fn spec_max_neg_range(self) -> CodeOffset {
        match self {
            LabelUse::Branch26 => 0x200_0000,
            LabelUse::Branch16 => 0x8000,
            LabelUse::PCRelHiLo => 0x8000_0000,
        }
    }

    /// The farthest backward distance that the use can express.
    #[verifier::when_used_as_spec(spec_max_neg_range)]
    pub fn max_neg_range(self) -> (n: CodeOffset)
        ensures
            n == self.spec_max_neg_range(),
    {
        match self {
            LabelUse::Branch26 => 0x200_0000,
            LabelUse::Branch16 => 0x8000,
            LabelUse::PCRelHiLo => 0x8000_0000,
        }
    }

    /// The number of bytes that a patch touches.
    pub open spec fn spec_patch_size(self) -> CodeOffset {
        match self {
            LabelUse::PCRelHiLo => 8,
            _ => 4,
        }
    }

    /// The number of bytes that a patch touches.
    #[verifier::when_used_as_spec(spec_patch_size)]
    pub fn patch_size(self) -> (n: CodeOffset)
        ensures
            n == self.spec_patch_size(),
    {
        match self {
            LabelUse::PCRelHiLo => 8,
            _ => 4,
        }
    }

    /// Whether the use can express the distance from one offset to another.
    pub open spec fn reaches(self, use_offset: CodeOffset, label_offset: CodeOffset) -> bool {
        &&& -(self.max_neg_range() as int) <= label_offset - use_offset <= self.max_pos_range()
        &&& (label_offset - use_offset) % 4 == 0
    }

    /// The bits of a branch that hold the displacement.
    pub open spec fn field_mask(self) -> u32 {
        match self {
            LabelUse::Branch16 => 0xFFFC,
            _ => 0x03FF_FFFC,
        }
    }

    /// Fill in the displacement from the use to the label. A branch has its
    /// displacement field replaced; an `addis`/`addi` pair has the two halves
    /// of the distance from four bytes before it put into its zero immediates.
    pub fn patch(self, buffer: &mut [u8], use_offset: CodeOffset, label_offset: CodeOffset)
        requires
            self.reaches(use_offset, label_offset),
            self.patch_size() <= old(buffer)@.len(),
        ensures
            final(buffer)@.len() == old(buffer)@.len(),
            self == LabelUse::PCRelHiLo ==> {
                let delta = (label_offset - use_offset + 4) as i64;
                &&& bytes::le_word(final(buffer)@, 0) == bytes::le_word(
                    old(buffer)@,
                    0,
                ) as u32 | ha16(delta) as u32
                &&& bytes::le_word(final(buffer)@, 4) == bytes::le_word(
                    old(buffer)@,
                    4,
                ) as u32 | lo16(delta) as u16 as u32
            },
            self != LabelUse::PCRelHiLo ==> bytes::le_word(final(buffer)@, 0) == (
            bytes::le_word(old(buffer)@, 0) as u32 & !self.field_mask()) | (((label_offset
                - use_offset) as i64) as u32 & self.field_mask()),
            forall|i: int|
                self.patch_size() <= i < old(buffer)@.len() ==> #[trigger] final(buffer)@[i] == old(
                    buffer,
                )@[i],
    {
        let offset: i64 = label_offset as i64 - use_offset as i64;
        match self {
            LabelUse::PCRelHiLo => {
                let delta: i64 = offset + 4;
                let lo: i16 = delta as i16;
                let ha: u16 = ((delta - lo as i64) >> 16) as u16;
                let addis: u32 = read_word(buffer, 0);
                let addi: u32 = read_word(buffer, 4);
                write_word(buffer, 0, addis | ha as u32);
                write_word(buffer, 4, addi | (lo as u16 as u32));
            },
            LabelUse::Branch26 => {
                let insn: u32 = read_word(buffer, 0);
                write_word(buffer, 0, (insn & !0x03FF_FFFCu32) | (offset as u32 & 0x03FF_FFFC));
            },
            LabelUse::Branch16 => {
                let insn: u32 = read_word(buffer, 0);
                write_word(buffer, 0, (insn & !0xFFFCu32) | (offset as u32 & 0xFFFC));
            },
        }
    }

    /// Whether an out-of-range use can go through a veneer.
    pub open spec fn spec_supports_veneer(self) -> bool {
        self == LabelUse::Branch16
    }

    /// Whether an out-of-range use can go through a veneer.
    #[verifier::when_used_as_spec(spec_supports_veneer)]
    pub fn supports_veneer(self) -> (b: bool)
        ensures
            b == self.spec_supports_veneer(),
    {
        match self {
            LabelUse::Branch26 | LabelUse::PCRelHiLo => false,
            LabelUse::Branch16 => true,
        }
    }

    /// The size of a veneer.
    pub fn veneer_size(self) -> (n: CodeOffset)
        ensures
            n == 4,
    {
        4
    }

    /// The size of the largest veneer.
    pub fn worst_case_veneer_size() -> (n: CodeOffset)
        ensures
            n == 4,
    {
        4
    }

    /// Write the veneer of a conditional branch: a plain `b`, which the
    /// conditional branch now targets instead. Gives back where the veneer's
    /// own label use is and of what form.
    pub fn generate_veneer(self, buffer: &mut [u8], veneer_offset: CodeOffset) -> (r: (
        CodeOffset,
        LabelUse,
    ))
        requires
            self.supports_veneer(),
            4 <= old(buffer)@.len(),
        ensures
            r == (veneer_offset, LabelUse::Branch26),
            final(buffer)@.len() == old(buffer)@.len(),
            bytes::le_word(final(buffer)@, 0) == encode::b_word(0, false),
            forall|i: int|
                4 <= i < old(buffer)@.len() ==> #[trigger] final(buffer)@[i] == old(buffer)@[i],
    {
        write_word(buffer, 0, enc_b(0, false));
        (veneer_offset, LabelUse::Branch26)
    }

    /// The label use that a relocation amounts to, if any: that of a direct
    /// call with nothing added.
    pub open spec fn spec_from_reloc(reloc: Reloc, addend: i64) -> Option<LabelUse> {
        if reloc == Reloc::Ppc64Call && addend == 0 {
            Some(LabelUse::Branch26)
        } else {
            None
        }
    }

    /// The label use that a relocation amounts to, if any: that of a direct
    /// call with nothing added.
    pub fn from_reloc(reloc: Reloc, addend: i64) -> (u: Option<LabelUse>)
        ensures
            u == Self::spec_from_reloc(reloc, addend),
    {
        match reloc {
            Reloc::Ppc64Call => if addend == 0 {
                Some(LabelUse::Branch26)
            } else {
                None
            },
            _ => None,
        }
    }
}

/// Patching a branch that was encoded with no displacement gives the branch
/// encoded with the displacement from the use to the label.
pub proof fn law_patched_branch(off: i32, lk: bool)
    requires
        off % 4 == 0,
        -0x200_0000 <= off < 0x200_0000,
    ensures
        (encode::b_word(0, lk) & !LabelUse::Branch26.field_mask()) | ((off as i64) as u32
            & LabelUse::Branch26.field_mask()) == encode::b_word(off, lk),
{
    let k = encode::flag(lk);
    assert(((((18u32 << 26) | ((0i32 as u32) & 0x03FF_FFFC) | k) & !0x03FF_FFFCu32) | ((off as i64)
        as u32 & 0x03FF_FFFC)) == (18u32 << 26) | ((off as u32) & 0x03FF_FFFC) | k) by (bit_vector)
        requires
            k < 2,
    ;
}

/// The same of a conditional branch.
pub proof fn law_patched_conditional_branch(bo: u32, bi: u32, off: i32, lk: bool)
    requires
        bo < 32,
        bi < 32,
        off % 4 == 0,
        -0x8000 <= off < 0x8000,
    ensures
        (encode::bc_word(bo, bi, 0, lk) & !LabelUse::Branch16.field_mask()) | ((off as i64)
            as u32 & LabelUse::Branch16.field_mask()) == encode::bc_word(bo, bi, off, lk),
{
    let k = encode::flag(lk);
    assert(((((16u32 << 26) | (bo << 21) | (bi << 16) | ((0i32 as u32) & 0xFFFC) | k) & !0xFFFCu32)
        | ((off as i64) as u32 & 0xFFFC)) == (16u32 << 26) | (bo << 21) | (bi << 16) | ((off as u32)
        & 0xFFFC) | k) by (bit_vector)
        requires
            k < 2,
            bo < 32,
            bi < 32,
    ;
}

/// The two halves of a displacement add up to it, as `addis` and `addi` add
/// them: the high half counts as a signed number of 65536s, the low half as a
/// signed number.
pub proof fn law_hi_lo_halves_add_up(delta: i64)
    requires
        -0x8000_0000 <= delta <= 0x7FFF_7FFF,
    ensures
        0x1_0000 * (ha16(delta) as i16) + lo16(delta) == delta,
{
    assert((0x1_0000i64 * (((((delta - (delta as i16) as i64) as i64) >> 16) as u16) as i16) as i64)
        + (delta as i16) as i64 == delta) by (bit_vector)
        requires
            -0x8000_0000 <= delta <= 0x7FFF_7FFF,
    ;
}

} // verus!
