//! The lookahead buffer as a state machine over plain values.
//!
//! The executable buffer wraps an iterator, which is opaque. Its contracts
//! are stated over the state below, which holds the elements still to come
//! from the source next to the window itself.

use vstd::prelude::*;
use vstd::std_specs::cmp::PartialEqSpec;

verus! {

/// Whether two sequences have the same length and agree position by
/// position, as the elements' own `==` compares them, each element of `left`
/// on the left-hand side.
pub open spec fn agree<E: PartialEq>(left: Seq<E>, right: Seq<E>) -> bool {
    &&& left.len() == right.len()
    &&& forall|i: int| 0 <= i < left.len() ==> (#[trigger] left[i]).eq_spec(&right[i])
}

/// The state of a lookahead buffer.
pub struct Lookahead<E> {
    /// No element has been popped yet.
    pub opening: bool,
    /// The source has reported that it is exhausted.
    pub closing: bool,
    /// The length up to which a refill tops the window up: the requested
    /// window size plus one.
    pub capacity: nat,
    /// The elements pulled from the source and not yet consumed, oldest first.
    pub window: Seq<E>,
    /// The elements that the source has not handed over yet, in order.
    pub pending: Seq<E>,
}

impl<E> Lookahead<E> {
    /// The capacity leaves room for at least one element, and a source that
    /// has reported exhaustion has nothing left to hand over.
    pub open spec fn wf(self) -> bool {
        &&& self.capacity >= 1
        &&& self.closing ==> self.pending.len() == 0
    }

    /// Everything the consumer has yet to see: the window, then the rest of
    /// the source.
    pub open spec fn stream(self) -> Seq<E> {
        self.window + self.pending
    }

    /// The number of elements that a refill moves from the source into the
    /// window.
    pub open spec fn pulls(self) -> nat {
        if self.closing || self.window.len() >= self.capacity {
            0
        } else if self.pending.len() <= self.capacity - self.window.len() {
            self.pending.len()
        } else {
            (self.capacity - self.window.len()) as nat
        }
    }

    /// Refill: elements move from the source to the back of the window until
    /// the window holds `capacity` elements or the source reports exhaustion.
    /// The source is asked once more than it has elements exactly when the
    /// window cannot be topped up, and that is when `closing` latches.
    pub open spec fn fill(self) -> Self {
        Lookahead {
            closing: self.closing || self.window.len() + self.pending.len() < self.capacity,
            window: self.window + self.pending.take(self.pulls() as int),
            pending: self.pending.skip(self.pulls() as int),
            ..self
        }
    }

    /// The state right after construction over a source that will yield
    /// `source`, for a requested window of `size` elements.
    pub open spec fn initial(source: Seq<E>, size: nat) -> Self {
        Lookahead {
            opening: true,
            closing: false,
            capacity: size + 1,
            window: Seq::empty(),
            pending: source,
        }.fill()
    }

    /// What a consuming read returns: the front of the refilled window, if
    /// there is one.
    pub open spec fn front(self) -> Option<E> {
        if self.fill().window.len() == 0 {
            None
        } else {
            Some(self.fill().window[0])
        }
    }

    /// The state after a consuming read: `opening` is cleared, the window is
    /// refilled, its front element leaves, and the window is refilled again.
    pub open spec fn pop(self) -> Self {
        let filled = Lookahead { opening: false, ..self }.fill();
        if filled.window.len() == 0 {
            filled
        } else {
            Lookahead { window: filled.window.drop_first(), ..filled }.fill()
        }
    }

    /// The state after `n` consuming reads in a row.
    pub open spec fn pop_n(self, n: nat) -> Self
        decreases n,
    {
        if n == 0 {
            self
        } else {
            self.pop().pop_n((n - 1) as nat)
        }
    }

    /// The state after `count` elements at the front of the window have given
    /// way to `items`. The source is not touched and nothing is refilled.
    pub open spec fn replace(self, count: nat, items: Seq<E>) -> Self
        recommends
            count <= self.window.len(),
    {
        Lookahead { window: items + self.window.skip(count as int), ..self }
    }

    /// The state after a refill and a write of `value` at position `index`.
    pub open spec fn write(self, index: int, value: E) -> Self
        recommends
            0 <= index < self.fill().window.len(),
    {
        Lookahead { window: self.fill().window.update(index, value), ..self.fill() }
    }
}

impl<E: PartialEq> Lookahead<E> {
    /// Whether the whole stream starts with `prefix`, as far as the buffer
    /// can tell: nothing has been popped yet, and the window is at least as
    /// long as `prefix` and agrees with it at its front.
    pub open spec fn starts_with(self, prefix: Seq<E>) -> bool {
        &&& self.opening
        &&& prefix.len() <= self.window.len()
        &&& agree(prefix, self.window.take(prefix.len() as int))
    }

    /// Whether the whole stream ends with `suffix`: the source is exhausted,
    /// and the window is exactly as long as `suffix` and agrees with it.
    pub open spec fn ends_with(self, suffix: Seq<E>) -> bool {
        &&& self.closing
        &&& agree(suffix, self.window)
    }
}

/// Whether the elements' own `==` is equality of values.
pub open spec fn eq_is_identity<E: PartialEq>() -> bool {
    forall|a: E, b: E| #[trigger] a.eq_spec(&b) <==> a == b
}

/// Where `==` is equality of values, two sequences agree exactly when they
/// are equal.
pub proof fn lemma_agree_is_equality<E: PartialEq>(left: Seq<E>, right: Seq<E>)
    requires
        eq_is_identity::<E>(),
    ensures
        agree(left, right) <==> left == right,
{
    if agree(left, right) {
        assert(left =~= right);
    }
}

impl<E> Lookahead<E> {
    /// A refill moves elements from the source to the window and loses none:
    /// the old window is the front of the new one, the stream is unchanged,
    /// and the window ends up at capacity unless the source ran dry.
    /// `closing` latches exactly when the source is found to have too few
    /// elements to reach capacity, and a second refill changes nothing.
    pub proof fn lemma_fill(self)
        ensures
            self.fill().stream() == self.stream(),
            self.window.is_prefix_of(self.fill().window),
            self.fill().opening == self.opening,
            self.fill().capacity == self.capacity,
            self.fill().closing <==> self.closing || self.window.len() + self.pending.len()
                < self.capacity,
            self.fill().closing || self.fill().window.len() >= self.capacity,
            self.window.len() <= self.capacity ==> self.fill().window.len() <= self.capacity,
            self.wf() ==> self.fill().wf(),
            self.fill().fill() == self.fill(),
    {
        assert(self.fill().pending.skip(0) =~= self.fill().pending);
    }

    /// Right after construction the window holds the first elements of the
    /// source, as many as the capacity allows: at most `size + 1`, and
    /// exactly `size + 1`, with `closing` still false, where the source has
    /// that many. Nothing has been popped, and nothing of the source is lost.
    pub proof fn lemma_initial(source: Seq<E>, size: nat)
        ensures
            Self::initial(source, size).wf(),
            Self::initial(source, size).opening,
            Self::initial(source, size).capacity == size + 1,
            Self::initial(source, size).stream() == source,
            Self::initial(source, size).window.is_prefix_of(source),
            Self::initial(source, size).window.len() <= size + 1,
            source.len() >= size + 1 ==> Self::initial(source, size).window.len() == size + 1
                && !Self::initial(source, size).closing,
            source.len() < size + 1 ==> Self::initial(source, size).window == source
                && Self::initial(source, size).closing,
    {
        let start = Lookahead {
            opening: true,
            closing: false,
            capacity: size + 1,
            window: Seq::<E>::empty(),
            pending: source,
        };
        start.lemma_fill();
    }

    /// A consuming read hands out the front of the stream and leaves the rest
    /// of it, in order, with nothing lost and nothing repeated; it yields no
    /// value exactly when the stream is empty. It clears `opening`, never
    /// clears `closing`, and keeps the state well formed. Afterwards the
    /// window is at capacity again unless the source has run dry, and it has
    /// not grown beyond the capacity if it was within it.
    pub proof fn lemma_pop(self)
        requires
            self.wf(),
        ensures
            self.pop().wf(),
            !self.pop().opening,
            self.closing ==> self.pop().closing,
            self.pop().capacity == self.capacity,
            self.stream().len() == 0 ==> self.front() == None::<E> && self.pop().stream().len()
                == 0,
            self.stream().len() > 0 ==> self.front() == Some(self.stream()[0])
                && self.pop().stream() == self.stream().drop_first(),
            self.window.len() <= self.capacity ==> self.pop().window.len() <= self.capacity,
            self.pop().closing || self.pop().window.len() >= self.capacity,
    {
        let begun = Lookahead { opening: false, ..self };
        begun.lemma_fill();
        let filled = begun.fill();
        if filled.window.len() > 0 {
            let taken = Lookahead { window: filled.window.drop_first(), ..filled };
            taken.lemma_fill();
        }
    }

    /// Popping until there is no value yields the elements of the stream in
    /// order, each once: the read after `n` earlier ones returns the element
    /// at position `n` of the stream, and no value from the end of the stream
    /// on.
    pub proof fn lemma_pop_n(self, n: nat)
        requires
            self.wf(),
        ensures
            self.pop_n(n).wf(),
            n <= self.stream().len() ==> self.pop_n(n).stream() == self.stream().skip(n as int),
            n < self.stream().len() ==> self.pop_n(n).front() == Some(self.stream()[n as int]),
            n >= self.stream().len() ==> self.pop_n(n).front() == None::<E> && self.pop_n(
                n,
            ).stream().len() == 0,
            n > 0 ==> !self.pop_n(n).opening,
            self.closing ==> self.pop_n(n).closing,
        decreases n,
    {
        self.lemma_pop();
        if n > 0 {
            self.pop().lemma_pop_n((n - 1) as nat);
        }
    }

    /// Popping a fresh buffer until there is no value yields the source: the
    /// read after `n` earlier ones returns the element at position `n` of
    /// the source, and there is no value once as many elements were read as
    /// the source has.
    pub proof fn lemma_drain_yields_source(source: Seq<E>, size: nat, n: nat)
        ensures
            n < source.len() ==> Self::initial(source, size).pop_n(n).front() == Some(
                source[n as int],
            ),
            n >= source.len() ==> Self::initial(source, size).pop_n(n).front() == None::<E>,
    {
        Self::lemma_initial(source, size);
        Self::initial(source, size).lemma_pop_n(n);
    }

    /// `opening` is true only until the first consuming read: a read clears
    /// it, and no operation sets it again.
    pub proof fn lemma_opening_latch(self, count: nat, items: Seq<E>, index: int, value: E)
        ensures
            !self.pop().opening,
            self.fill().opening == self.opening,
            self.replace(count, items).opening == self.opening,
            self.write(index, value).opening == self.opening,
    {
    }

    /// `closing` never reverts: every operation keeps it once it is set. Only
    /// a refill sets it, and only when it finds the source exhausted.
    pub proof fn lemma_closing_latch(self, count: nat, items: Seq<E>, index: int, value: E)
        ensures
            self.closing ==> self.fill().closing && self.pop().closing && self.write(
                index,
                value,
            ).closing,
            self.replace(count, items).closing == self.closing,
            self.fill().closing && !self.closing ==> self.fill().pending.len() == 0
                && self.fill().window.len() < self.capacity,
    {
    }

    /// Replacing and writing keep a well-formed state well formed, and touch
    /// neither the capacity nor, in the case of replacing, the source.
    pub proof fn lemma_edits_keep_wf(self, count: nat, items: Seq<E>, index: int, value: E)
        requires
            self.wf(),
        ensures
            self.replace(count, items).wf(),
            self.replace(count, items).pending == self.pending,
            self.replace(count, items).capacity == self.capacity,
            self.write(index, value).wf(),
            self.write(index, value).capacity == self.capacity,
    {
        self.lemma_fill();
    }

    /// Replacing the first `count` elements of the window with nothing, and
    /// refilling, is to remove those elements and leave the rest untouched:
    /// what survives of the old window is the front of the new one, and the
    /// stream is the old one without its first `count` elements.
    pub proof fn lemma_replace_with_nothing(self, count: nat)
        requires
            count <= self.window.len(),
        ensures
            self.replace(count, Seq::empty()).window == self.window.skip(count as int),
            self.window.skip(count as int).is_prefix_of(
                self.replace(count, Seq::empty()).fill().window,
            ),
            self.replace(count, Seq::empty()).fill().stream() == self.stream().skip(count as int),
    {
        self.replace(count, Seq::empty()).lemma_fill();
    }
}

impl<E: PartialEq> Lookahead<E> {
    /// Before anything is popped or edited, a pattern that fits into the
    /// capacity starts the buffer exactly when it starts the whole source:
    /// when the source is at least as long and agrees with it at its front.
    /// Where `==` is equality of values, that is to be a prefix of the
    /// source.
    pub proof fn lemma_starts_with_initial(source: Seq<E>, size: nat, prefix: Seq<E>)
        requires
            prefix.len() <= size + 1,
        ensures
            Self::initial(source, size).starts_with(prefix) <==> prefix.len() <= source.len()
                && agree(prefix, source.take(prefix.len() as int)),
            eq_is_identity::<E>() ==> (Self::initial(source, size).starts_with(prefix)
                <==> prefix.is_prefix_of(source)),
    {
        Self::lemma_initial(source, size);
        if eq_is_identity::<E>() && prefix.len() <= source.len() {
            lemma_agree_is_equality(prefix, source.take(prefix.len() as int));
        }
    }

    /// After a consuming read nothing starts the buffer any more, whatever
    /// the window holds and whatever is done next.
    pub proof fn lemma_starts_with_after_pop(self, prefix: Seq<E>)
        ensures
            !self.pop().starts_with(prefix),
            !self.opening ==> !self.starts_with(prefix),
    {
    }

    /// A pattern ends the buffer exactly when the source has reported
    /// exhaustion and the pattern agrees with the window, which is then all
    /// that is left of the stream. Where `==` is equality of values, the
    /// pattern is the window.
    pub proof fn lemma_ends_with(self, suffix: Seq<E>)
        requires
            self.wf(),
        ensures
            self.ends_with(suffix) <==> self.closing && agree(suffix, self.stream()),
            eq_is_identity::<E>() ==> (self.ends_with(suffix) <==> self.closing && suffix
                == self.window),
    {
        if eq_is_identity::<E>() {
            lemma_agree_is_equality(suffix, self.window);
        }
    }
}

} // verus!
