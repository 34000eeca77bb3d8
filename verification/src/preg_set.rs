//! Sets of physical registers.
use vstd::prelude::*;
use crate::regs::PReg;

verus! {

/// The register allocator's set of physical registers.
#[verifier::external_type_specification]
#[verifier::external_body]
pub struct ExPRegSet(regalloc2::PRegSet);

/// The indices of the registers in a set.
pub uninterp spec fn members(s: regalloc2::PRegSet) -> Set<nat>;

/// `regalloc2::PRegSet::empty`: the set with no member.
#[verifier::external_body]
pub(crate) fn empty_set() -> (s: regalloc2::PRegSet)
    ensures
        members(s) == Set::<nat>::empty(),
{
    regalloc2::PRegSet::empty()
}

/// `regalloc2::PRegSet::with`: the set and one register more. The index of a
/// register has eight bits, of which a set has room for the three classes.
#[verifier::external_body]
pub(crate) fn set_with(s: regalloc2::PRegSet, reg: PReg) -> (t: regalloc2::PRegSet)
    requires
        reg.index < 192,
    ensures
        members(t) == members(s).insert(reg.index as nat),
{
    s.with(regalloc2::PReg::from_index(reg.index as usize))
}

/// `regalloc2::PRegSet::contains`: whether a register is in the set.
#[verifier::external_body]
pub(crate) fn set_contains(s: &regalloc2::PRegSet, reg: PReg) -> (b: bool)
    requires
        reg.index < 192,
    ensures
        b == members(*s).contains(reg.index as nat),
{
    s.contains(regalloc2::PReg::from_index(reg.index as usize))
}

} // verus!
