//! An iterator that contains no elements.

use vstd::prelude::*;
use vstd::std_specs::iter::IteratorSpec;
use std::marker::PhantomData;

verus! {

/// An iterator over elements of type `Elt` that is exhausted from the start.
pub struct Empty<Elt> {
    phantom: PhantomData<Elt>,
}

impl<Elt> Empty<Elt> {
    /// Create an iterator that yields nothing.
    pub fn new() -> (e: Empty<Elt>)
        ensures
            e.obeys_prophetic_iter_laws(),
            e.remaining() == Seq::<Elt>::empty(),
    {
        Empty { phantom: PhantomData }
    }
}

impl<Elt> Iterator for Empty<Elt> {
    type Item = Elt;

    /// Report exhaustion, every time.
    fn next(&mut self) -> (r: Option<Elt>)
        ensures
            r is None,
    {
        None
    }
}

impl<Elt> vstd::std_specs::iter::IteratorSpecImpl for Empty<Elt> {
    open spec fn obeys_prophetic_iter_laws(&self) -> bool {
        true
    }

    open spec fn remaining(&self) -> Seq<Elt> {
        Seq::empty()
    }

    open spec fn will_return_none(&self) -> bool {
        true
    }

    open spec fn decrease(&self) -> Option<nat> {
        Some(0nat)
    }

    open spec fn initial_value_relation(&self, init: &Self) -> bool {
        true
    }

    open spec fn peek(&self, index: int) -> Option<Elt> {
        None
    }
}

} // verus!
