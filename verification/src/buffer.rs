//! Iterator buffer: temporarily store and allow access to several elements
//! of an iterator.
//!
//! What each operation does is stated over [`Lookahead`], the buffer's state
//! as plain values. The elements that the iterator has yet to yield are part
//! of that state; they are known for an iterator that keeps to the laws of
//! iterators, and the contracts are exact for such an iterator. For any
//! other they still say how the latches, the capacity and the old window
//! fare.

use vstd::prelude::*;
use vstd::std_specs::iter::IteratorSpec;
use vstd::std_specs::cmp::PartialEqSpec;
use crate::lookahead::{agree, Lookahead};

verus! {

/// The ways in which a caller can misuse a buffer.
#[derive(Debug, Clone, Copy, PartialEq, Eq, Structural)]
pub enum BufferError {
    /// The position is not less than the current length of the window.
    IndexOutOfRange,
    /// More elements were to be removed than the window holds.
    InvalidRemoveCount,
}

/// A variable-size buffer reading from an iterator and providing access to
/// future elements of the stream.
///
/// The buffer owns its iterator and keeps a window of the elements that come
/// next. A refill tops the window up to the capacity, which is the requested
/// size plus one, so that the requested number of elements is still in view
/// after one has been popped. Two latches record where the stream stands:
/// `opening` holds until the first element is popped, `closing` from the
/// moment the iterator has reported that it is exhausted.
pub struct IteratorBuffer<I: Iterator> {
    iterator: I,
    opening: bool,
    closing: bool,
    size: usize,
    buffer: Vec<I::Item>,
}

impl<I: Iterator> View for IteratorBuffer<I> {
    type V = Seq<I::Item>;

    /// The window: the elements pulled from the source and not yet consumed.
    closed spec fn view(&self) -> Seq<I::Item> {
        self.buffer@
    }
}

impl<I> IteratorBuffer<I> where I: Iterator, I::Item: Clone {
    /// The iterator that the buffer reads from.
    pub closed spec fn source(&self) -> I {
        self.iterator
    }

    /// Whether no element has been popped yet.
    pub closed spec fn opening(&self) -> bool {
        self.opening
    }

    /// Whether the source has reported that it is exhausted.
    pub closed spec fn closing(&self) -> bool {
        self.closing
    }

    /// The length up to which a refill tops the window up: one more than
    /// the size that the buffer was made for.
    pub closed spec fn capacity(&self) -> nat {
        (self.size + 1) as nat
    }

    /// Whether the source keeps to the laws of iterators: it yields a finite
    /// sequence of elements and reports exhaustion from then on. What the
    /// buffer holds is known exactly only over such a source.
    pub open spec fn lawful(&self) -> bool {
        self.source().obeys_prophetic_iter_laws()
    }

    /// The buffer's state, given the elements that its source has yet to
    /// hand over.
    pub open spec fn state(&self, pending: Seq<I::Item>) -> Lookahead<I::Item> {
        Lookahead {
            opening: self.opening(),
            closing: self.closing(),
            capacity: self.capacity(),
            window: self@,
            pending,
        }
    }

    /// Create a buffer for the iterator `it`, with a window of `size`
    /// elements. The window is filled before the buffer is handed out.
    pub fn new(it: I, size: usize) -> (ib: IteratorBuffer<I>)
        ensures
            ib.opening(),
            ib.capacity() == size + 1,
            ib@.len() <= size + 1,
            ib.closing() || ib@.len() == size + 1,
            ib.lawful() == it.obeys_prophetic_iter_laws(),
            it.obeys_prophetic_iter_laws() ==> {
                &&& ib.state(ib.source().remaining()) == Lookahead::initial(
                    it.remaining(),
                    size as nat,
                )
                &&& ib.state(ib.source().remaining()).wf()
            },
    {
        let mut ib = IteratorBuffer {
            iterator: it,
            opening: true,
            closing: false,
            size,
            buffer: Vec::new(),
        };
        ib.fill();
        ib
    }

    /// Return true if the buffer has not yielded any elements from the
    /// contained iterator.
    pub fn is_opening(&self) -> (r: bool)
        ensures
            r == self.opening(),
    {
        self.opening
    }

    /// Return true if the contained iterator has yielded `None`; the only
    /// remaining elements are in the buffer.
    pub fn is_closing(&self) -> (r: bool)
        ensures
            r == self.closing(),
    {
        self.closing
    }

    /// The current length of the buffer. Pending elements from the iterator,
    /// if any, are not counted.
    pub fn len(&self) -> (r: usize)
        ensures
            r == self@.len(),
    {
        self.buffer.len()
    }

    /// Provide read-only access to the buffer itself.
    pub fn buffer<'a>(&'a self) -> (r: &'a [I::Item])
        ensures
            r@ == self@,
    {
        self.buffer.as_slice()
    }

    /// Yield the next element from the buffer, or `None` if the buffer is
    /// empty and the iterator has terminated.
    pub fn pop(&mut self) -> (r: Option<I::Item>)
        ensures
            !final(self).opening(),
            final(self).capacity() == old(self).capacity(),
            final(self).lawful() == old(self).lawful(),
            old(self).closing() ==> final(self).closing(),
            old(self)@.len() > 0 ==> r == Some(old(self)@[0])
                && old(self)@.drop_first().is_prefix_of(final(self)@),
            r is None ==> final(self)@.len() == 0,
            final(self).closing() || final(self)@.len() >= final(self).capacity(),
            old(self).lawful() ==> {
                let before = old(self).state(old(self).source().remaining());
                let after = final(self).state(final(self).source().remaining());
                &&& after == before.pop()
                &&& r == before.front()
                &&& before.wf() ==> after.wf()
            },
    {
        self.opening = false;
        self.fill();
        if self.buffer.is_empty() {
            None
        } else {
            let res = self.buffer.remove(0);
            self.fill();
            Some(res)
        }
    }

    /// Fill the buffer from the iterator, setting closing if needed.
    fn fill(&mut self)
        ensures
            final(self).opening() == old(self).opening(),
            final(self).capacity() == old(self).capacity(),
            final(self).lawful() == old(self).lawful(),
            old(self).closing() ==> final(self).closing(),
            old(self)@.is_prefix_of(final(self)@),
            final(self)@.len() == old(self)@.len() || final(self)@.len() <= final(self).capacity(),
            final(self).closing() || final(self)@.len() >= final(self).capacity(),
            old(self).lawful() ==> final(self).state(final(self).source().remaining())
                == old(self).state(old(self).source().remaining()).fill(),
    {
        let ghost before = self.state(self.iterator.remaining());
        let ghost mut pulled: nat = 0;
        while !self.closing && self.buffer.len() <= self.size
            invariant
                self.opening == old(self).opening,
                self.size == old(self).size,
                self.lawful() == old(self).lawful(),
                old(self).closing ==> self.closing,
                old(self)@.is_prefix_of(self@),
                self@.len() == old(self)@.len() || self@.len() <= self.size + 1,
                before == old(self).state(old(self).iterator.remaining()),
                self.lawful() ==> {
                    &&& pulled <= before.pending.len()
                    &&& self.buffer@ == before.window + before.pending.take(pulled as int)
                    &&& self.iterator.remaining() == before.pending.skip(pulled as int)
                    &&& pulled > 0 ==> !before.closing && self.buffer@.len() <= self.size + 1
                    &&& self.closing && !before.closing ==> self.iterator.remaining().len() == 0
                        && self.buffer@.len() <= self.size
                },
            decreases self.size + 1 - self.buffer.len() + (if self.closing { 0int } else { 1int }),
        {
            match self.iterator.next() {
                Some(item) => {
                    proof {
                        pulled = pulled + 1;
                    }
                    self.buffer.push(item);
                }
                None => {
                    self.closing = true;
                }
            }
        }
    }

    /// Replace `len` elements at the front of the buffer with copies of the
    /// contents of `replacement`. The iterator is not touched and the buffer
    /// is not refilled, so the buffer may end up longer than its capacity.
    /// Where `len` exceeds the length of the buffer, nothing changes.
    pub fn replace(&mut self, len: usize, replacement: &[I::Item]) -> (r: Result<(), BufferError>)
        ensures
            final(self).source() == old(self).source(),
            final(self).opening() == old(self).opening(),
            final(self).closing() == old(self).closing(),
            final(self).capacity() == old(self).capacity(),
            len > old(self)@.len() ==> r == Err::<(), BufferError>(BufferError::InvalidRemoveCount)
                && final(self)@ == old(self)@,
            len <= old(self)@.len() ==> {
                let copies = final(self)@.take(replacement@.len() as int);
                &&& r is Ok
                &&& final(self)@.len() == old(self)@.len() - len + replacement@.len()
                &&& forall|i: int|
                    0 <= i < replacement@.len() ==> cloned(replacement@[i], #[trigger] copies[i])
                &&& final(self).state(final(self).source().remaining()) == old(self).state(
                    old(self).source().remaining(),
                ).replace(len as nat, copies)
            },
    {
        if len > self.buffer.len() {
            return Err(BufferError::InvalidRemoveCount);
        }
        let mut removed: usize = 0;
        while removed < len
            invariant
                removed <= len <= old(self).buffer@.len(),
                self.iterator == old(self).iterator,
                self.opening == old(self).opening,
                self.closing == old(self).closing,
                self.size == old(self).size,
                self.buffer@ == old(self).buffer@.skip(removed as int),
            decreases len - removed,
        {
            self.buffer.remove(0);
            removed = removed + 1;
        }
        let ghost kept = self.buffer@;
        let mut i: usize = 0;
        while i < replacement.len()
            invariant
                i <= replacement@.len(),
                self.iterator == old(self).iterator,
                self.opening == old(self).opening,
                self.closing == old(self).closing,
                self.size == old(self).size,
                kept == old(self).buffer@.skip(len as int),
                self.buffer@.len() == i + kept.len(),
                self.buffer@.skip(i as int) == kept,
                forall|j: int| 0 <= j < i ==> cloned(replacement@[j], #[trigger] self.buffer@[j]),
            decreases replacement@.len() - i,
        {
            self.buffer.insert(i, replacement[i].clone());
            i = i + 1;
        }
        assert(self.buffer@ =~= self.buffer@.take(replacement@.len() as int) + kept);
        Ok(())
    }

    /// Provide access to the element at position `index` of the buffer. The
    /// buffer is not refilled.
    pub fn at(&self, index: usize) -> (r: Result<&I::Item, BufferError>)
        ensures
            index < self@.len() ==> r == Ok::<&I::Item, BufferError>(&self@[index as int]),
            index >= self@.len() ==> r == Err::<&I::Item, BufferError>(
                BufferError::IndexOutOfRange,
            ),
    {
        if index < self.buffer.len() {
            Ok(&self.buffer[index])
        } else {
            Err(BufferError::IndexOutOfRange)
        }
    }

    /// Refill the buffer, then provide mutable access to the element at
    /// position `index`.
    pub fn at_mut(&mut self, index: usize) -> (r: Result<&mut I::Item, BufferError>)
        ensures
            final(self).opening() == old(self).opening(),
            final(self).capacity() == old(self).capacity(),
            final(self).lawful() == old(self).lawful(),
            old(self).closing() ==> final(self).closing(),
            final(self)@.len() >= old(self)@.len(),
            final(self).closing() || final(self)@.len() >= final(self).capacity(),
            r is Ok <==> index < final(self)@.len(),
            match r {
                Ok(slot) => {
                    &&& index < old(self)@.len() ==> *slot == old(self)@[index as int]
                    &&& *final(slot) == final(self)@[index as int]
                },
                Err(e) => e == BufferError::IndexOutOfRange,
            },
            old(self).lawful() ==> {
                let before = old(self).state(old(self).source().remaining());
                let after = final(self).state(final(self).source().remaining());
                &&& before.wf() ==> after.wf()
                &&& match r {
                    Ok(slot) => {
                        &&& index < before.fill().window.len()
                        &&& *slot == before.fill().window[index as int]
                        &&& after == before.write(index as int, *final(slot))
                    },
                    Err(_) => {
                        &&& index >= before.fill().window.len()
                        &&& after == before.fill()
                    },
                }
            },
    {
        self.fill();
        if index < self.buffer.len() {
            Ok(&mut self.buffer[index])
        } else {
            Err(BufferError::IndexOutOfRange)
        }
    }
}

/// Functions for testing the contents of the buffer.
impl<I> IteratorBuffer<I> where I: Iterator, I::Item: Clone + PartialEq {
    /// Return true if the iterator stream starts with the prefix. This is
    /// true if the buffer has not yielded any elements, and if the buffer
    /// starts with the prefix. For this to be meaningful, the buffer must be
    /// at least as long as the prefix.
    pub fn starts_with(&self, prefix: &[I::Item]) -> (r: bool)
        ensures
            r ==> self.opening() && prefix@.len() <= self@.len(),
            self.opening() && prefix@.len() == 0 ==> r,
            I::Item::obeys_eq_spec() ==> r == self.state(self.source().remaining()).starts_with(
                prefix@,
            ),
    {
        if self.opening && prefix.len() <= self.buffer.len() {
            front_agrees(self.buffer.as_slice(), prefix)
        } else {
            false
        }
    }

    /// Return true if the iterator stream ends with the suffix. This is true
    /// if the buffer is closing (i.e. the iterator has returned `None`) and
    /// if the buffer is exactly the suffix.
    pub fn ends_with(&self, suffix: &[I::Item]) -> (r: bool)
        ensures
            r ==> self.closing() && suffix@.len() == self@.len(),
            self.closing() && suffix@.len() == 0 && self@.len() == 0 ==> r,
            I::Item::obeys_eq_spec() ==> r == self.state(self.source().remaining()).ends_with(
                suffix@,
            ),
    {
        if self.closing && suffix.len() == self.buffer.len() {
            front_agrees(self.buffer.as_slice(), suffix)
        } else {
            false
        }
    }
}

impl<I> std::ops::Index<usize> for IteratorBuffer<I> where I: Iterator, I::Item: Clone {
    type Output = I::Item;

    /// Provide access to an element in the buffer, which must be there.
    fn index<'a>(&'a self, index: usize) -> (r: &'a I::Item)
        ensures
            *r == self@[index as int],
    {
        &self.buffer[index]
    }
}

impl<I> vstd::std_specs::core::IndexSpecImpl<usize> for IteratorBuffer<I> where I: Iterator, I::Item: Clone {
    open spec fn index_req(&self, index: &usize) -> bool {
        *index < self@.len()
    }
}

/// Whether `pattern` agrees with the front of `window`, element by element,
/// each element of `pattern` on the left-hand side of the comparison.
fn front_agrees<T: PartialEq>(window: &[T], pattern: &[T]) -> (r: bool)
    requires
        pattern@.len() <= window@.len(),
    ensures
        pattern@.len() == 0 ==> r,
        T::obeys_eq_spec() ==> r == agree(pattern@, window@.take(pattern@.len() as int)),
{
    let mut i: usize = 0;
    while i < pattern.len()
        invariant
            i <= pattern@.len() <= window@.len(),
            T::obeys_eq_spec() ==> forall|j: int|
                0 <= j < i ==> (#[trigger] pattern@[j]).eq_spec(&window@[j]),
        decreases pattern@.len() - i,
    {
        if pattern[i] != window[i] {
            return false;
        }
        i = i + 1;
    }
    true
}

} // verus!
