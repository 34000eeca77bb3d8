//! Short sequences of instruction words.
use vstd::prelude::*;

verus! {

/// Instruction words, kept inline up to five: the longest constant.
#[verifier::external_body]
#[derive(Debug)]
pub struct Words {
    inner: smallvec::SmallVec<[u32; 5]>,
}

/// The words that a `Words` holds, in order.
pub uninterp spec fn words_of(v: Words) -> Seq<u32>;

impl View for Words {
    type V = Seq<u32>;

    open spec fn view(&self) -> Seq<u32> {
        words_of(*self)
    }
}

impl Words {
    /// `smallvec::SmallVec::new`: an empty vector.
    #[verifier::external_body]
    pub(crate) fn new() -> (v: Words)
        ensures
            words_of(v) == Seq::<u32>::empty(),
    {
        Words { inner: smallvec::SmallVec::new() }
    }

    /// `smallvec::SmallVec::push`: the vector with one more item at the end.
    #[verifier::external_body]
    pub(crate) fn push(&mut self, w: u32)
        ensures
            words_of(*final(self)) == words_of(*old(self)).push(w),
    {
        self.inner.push(w)
    }

    /// `smallvec::SmallVec::len`, through the slice that the vector
    /// dereferences to: the number of items.
    #[verifier::external_body]
    pub(crate) fn len(&self) -> (n: usize)
        ensures
            n == words_of(*self).len(),
    {
        self.inner.len()
    }

    /// Indexing a `smallvec::SmallVec`, as a slice: the item at the index.
    #[verifier::external_body]
    pub(crate) fn at(&self, i: usize) -> (w: u32)
        requires
            i < words_of(*self).len(),
        ensures
            w == words_of(*self)[i as int],
    {
        self.inner[i]
    }

    /// The words as a vector.
    pub fn to_vec(&self) -> (v: Vec<u32>)
        ensures
            v@ == self@,
    {
        let mut v: Vec<u32> = Vec::new();
        let mut i: usize = 0;
        while i < self.len()
            invariant
                i <= self@.len(),
                v@ == self@.take(i as int),
            decreases self@.len() - i,
        {
            v.push(self.at(i));
            i = i + 1;
        }
        assert(self@.take(i as int) =~= self@);
        v
    }
}

} // verus!
