//! Short sequences of instructions.
use vstd::prelude::*;
use crate::inst::Inst;

verus! {

/// Instructions, kept inline up to four.
#[verifier::external_body]
#[derive(Debug)]
pub struct Insts {
    inner: smallvec::SmallVec<[Inst; 4]>,
}

/// The instructions that an `Insts` holds, in order.
pub uninterp spec fn insts_of(v: Insts) -> Seq<Inst>;

impl View for Insts {
    type V = Seq<Inst>;

    open spec fn view(&self) -> Seq<Inst> {
        insts_of(*self)
    }
}

impl Insts {
    /// `smallvec::SmallVec::new`: an empty vector.
    #[verifier::external_body]
    pub(crate) fn empty() -> (v: Insts)
        ensures
            insts_of(v) == Seq::<Inst>::empty(),
    {
        Insts { inner: smallvec::SmallVec::new() }
    }

    /// `smallvec::SmallVec::push`: the vector with one more item at the end.
    #[verifier::external_body]
    pub(crate) fn push_back(&mut self, inst: Inst)
        ensures
            insts_of(*final(self)) == insts_of(*old(self)).push(inst),
    {
        self.inner.push(inst)
    }

    /// `smallvec::SmallVec::append`: the vector with the items of another at the
    /// end; the other is left empty.
    #[verifier::external_body]
    pub(crate) fn append(&mut self, other: &mut Insts)
        ensures
            insts_of(*final(self)) == insts_of(*old(self)) + insts_of(*old(other)),
            insts_of(*final(other)) == Seq::<Inst>::empty(),
    {
        self.inner.append(&mut other.inner)
    }

    /// `smallvec::SmallVec::len`, through the slice that the vector
    /// dereferences to: the number of items.
    #[verifier::external_body]
    pub(crate) fn count(&self) -> (n: usize)
        ensures
            n == insts_of(*self).len(),
    {
        self.inner.len()
    }

    /// Indexing a `smallvec::SmallVec`, as a slice: the item at the index.
    #[verifier::external_body]
    pub(crate) fn item(&self, i: usize) -> (inst: &Inst)
        requires
            i < insts_of(*self).len(),
        ensures
            *inst == insts_of(*self)[i as int],
    {
        &self.inner[i]
    }

    /// No instructions.
    pub fn new() -> (v: Insts)
        ensures
            v@ == Seq::<Inst>::empty(),
    {
        Insts::empty()
    }

    /// Add an instruction.
    pub fn push(&mut self, inst: Inst)
        ensures
            final(self)@ == old(self)@.push(inst),
    {
        self.push_back(inst);
    }

    /// Add instructions.
    pub fn extend(&mut self, other: Insts)
        ensures
            final(self)@ == old(self)@ + other@,
    {
        let mut other = other;
        self.append(&mut other);
    }

    /// The number of instructions.
    pub fn len(&self) -> (n: usize)
        ensures
            n == self@.len(),
    {
        self.count()
    }

    /// The instruction at an index.
    pub fn get(&self, i: usize) -> (inst: &Inst)
        requires
            i < self@.len(),
        ensures
            *inst == self@[i as int],
    {
        self.item(i)
    }
}

} // verus!
