//! An iterator of iterators over the equivalence classes in a slice.
//!
//! The classes are the maximal runs of adjacent elements that a predicate
//! relates to the first element of their run. What they are is defined on
//! sequences by [`classes_from`], for any relation; the iterator computes
//! them for the relation that its predicate tests.

use vstd::prelude::*;
use vstd::std_specs::iter::IteratorSpec;
use vstd::std_specs::slice::spec_slice_iter;
use std::slice::Iter;

verus! {

/// The end of the run that starts at `start`, found by scanning from `i`:
/// the first position from `i` on that lies past the end of `s` or holds an
/// element unrelated to the one at `start`.
pub open spec fn run_end<T>(s: Seq<T>, same: spec_fn(T, T) -> bool, start: int, i: int) -> int
    decreases s.len() - i,
{
    if 0 <= start < i < s.len() && same(s[start], s[i]) {
        run_end(s, same, start, i + 1)
    } else {
        i
    }
}

/// The runs into which `s` falls from position `from` on. A run starts with
/// the element at `from`, whatever `same` says of it and itself, and goes on
/// for as long as the elements are related to that first one.
pub open spec fn classes_from<T>(s: Seq<T>, same: spec_fn(T, T) -> bool, from: int) -> Seq<Seq<T>>
    decreases s.len() - from,
    via classes_from_decreases::<T>
{
    if 0 <= from < s.len() {
        seq![s.subrange(from, run_end(s, same, from, from + 1))] + classes_from(
            s,
            same,
            run_end(s, same, from, from + 1),
        )
    } else {
        Seq::empty()
    }
}

#[via_fn]
proof fn classes_from_decreases<T>(s: Seq<T>, same: spec_fn(T, T) -> bool, from: int) {
    if 0 <= from < s.len() {
        lemma_run_end(s, same, from, from + 1);
    }
}

/// A run ends after the position where its scan began and within `s`; every
/// element that the scan passes is related to the first one; and the element
/// at which it stops, if there is one, is not.
pub proof fn lemma_run_end<T>(s: Seq<T>, same: spec_fn(T, T) -> bool, start: int, i: int)
    requires
        0 <= start < i <= s.len(),
    ensures
        i <= run_end(s, same, start, i) <= s.len(),
        forall|k: int| i <= k < run_end(s, same, start, i) ==> same(s[start], #[trigger] s[k]),
        run_end(s, same, start, i) < s.len() ==> !same(s[start], s[run_end(s, same, start, i)]),
    decreases s.len() - i,
{
    if i < s.len() && same(s[start], s[i]) {
        lemma_run_end(s, same, start, i + 1);
    }
}

/// The runs, laid end to end, are the elements of `s` from `from` on: none is
/// left out, none comes twice, and their order is kept.
pub proof fn lemma_classes_cover<T>(s: Seq<T>, same: spec_fn(T, T) -> bool, from: int)
    requires
        0 <= from <= s.len(),
    ensures
        classes_from(s, same, from).flatten() == s.skip(from),
    decreases s.len() - from,
{
    let classes = classes_from(s, same, from);
    if from < s.len() {
        let end = run_end(s, same, from, from + 1);
        lemma_run_end(s, same, from, from + 1);
        lemma_classes_cover(s, same, end);
        assert(classes.drop_first() =~= classes_from(s, same, end));
    }
}

/// Each run is a maximal run: it is not empty, every element of it is related
/// to its first, and the first element of the run that follows is not.
pub proof fn lemma_classes_are_maximal_runs<T>(
    s: Seq<T>,
    same: spec_fn(T, T) -> bool,
    from: int,
    k: int,
)
    requires
        0 <= from <= s.len(),
        0 <= k < classes_from(s, same, from).len(),
    ensures
        classes_from(s, same, from)[k].len() > 0,
        forall|i: int|
            0 < i < classes_from(s, same, from)[k].len() ==> same(
                classes_from(s, same, from)[k][0],
                #[trigger] classes_from(s, same, from)[k][i],
            ),
        k + 1 < classes_from(s, same, from).len() ==> !same(
            classes_from(s, same, from)[k][0],
            classes_from(s, same, from)[k + 1][0],
        ),
    decreases k,
{
    let end = run_end(s, same, from, from + 1);
    lemma_run_end(s, same, from, from + 1);
    if k > 0 {
        lemma_classes_are_maximal_runs(s, same, end, k - 1);
    } else if 1 < classes_from(s, same, from).len() {
        lemma_run_end(s, same, end, end + 1);
    }
}

/// Whether `rel` is the relation that `pred` tests on the elements of `s`:
/// whatever `pred` answers for two of them is what `rel` says, and `rel`
/// relates each of them to itself.
pub open spec fn decides<'t, T: 't, F: Fn(&'t T, &'t T) -> bool>(
    pred: F,
    s: Seq<T>,
    rel: spec_fn(T, T) -> bool,
) -> bool {
    &&& forall|i: int, j: int|
        0 <= i < s.len() && 0 <= j < s.len() ==> {
            &&& call_ensures(pred, (&s[i], &s[j]), true) ==> #[trigger] rel(s[i], s[j])
            &&& call_ensures(pred, (&s[i], &s[j]), false) ==> !rel(s[i], s[j])
        }
    &&& forall|i: int| 0 <= i < s.len() ==> rel(#[trigger] s[i], s[i])
}

/// Whether `pred` tests some relation on the elements of `s`.
pub open spec fn tests_a_relation<'t, T: 't, F: Fn(&'t T, &'t T) -> bool>(pred: F, s: Seq<T>) -> bool {
    exists|rel: spec_fn(T, T) -> bool| decides(pred, s, rel)
}

/// A relation that `pred` tests on the elements of `s`, where there is one.
pub open spec fn tested_relation<'t, T: 't, F: Fn(&'t T, &'t T) -> bool>(pred: F, s: Seq<T>) -> spec_fn(
    T,
    T,
) -> bool {
    choose|rel: spec_fn(T, T) -> bool| decides(pred, s, rel)
}

/// The iterator over a part of a slice that holds the elements `run`.
pub closed spec fn run_iter<'t, T>(run: Seq<T>) -> Iter<'t, T> {
    spec_slice_iter(choose|part: &'t [T]| part@ == run)
}

/// An iterator over the equivalence classes of a slice: the maximal runs of
/// adjacent elements that are all equivalent to the first of their run.
pub struct EqClIter<'t, T, F> where T: 't, F: Fn(&'t T, &'t T) -> bool {
    vect: &'t [T],
    pred: F,
    last: usize,
}

impl<'t, T, F> EqClIter<'t, T, F> where T: 't, F: Fn(&'t T, &'t T) -> bool {
    /// The elements of the slice that is walked.
    pub closed spec fn elements(&self) -> Seq<T> {
        self.vect@
    }

    /// The position at which the next run starts.
    pub closed spec fn cursor(&self) -> int {
        self.last as int
    }

    /// The predicate that decides whether two elements are equivalent.
    pub closed spec fn predicate(&self) -> F {
        self.pred
    }

    /// Whether `rel` is the relation that the predicate tests on the elements
    /// of the slice.
    pub open spec fn decided_by(&self, rel: spec_fn(T, T) -> bool) -> bool {
        decides(self.predicate(), self.elements(), rel)
    }

    /// Whether the predicate tests a relation on the elements of the slice.
    /// Only then are the runs determined.
    pub open spec fn lawful(&self) -> bool {
        tests_a_relation(self.predicate(), self.elements())
    }

    /// A relation that the predicate tests, where there is one.
    pub open spec fn relation(&self) -> spec_fn(T, T) -> bool {
        tested_relation(self.predicate(), self.elements())
    }

    /// The runs that are still to come, for elements related by `rel`.
    pub open spec fn classes(&self, rel: spec_fn(T, T) -> bool) -> Seq<Seq<T>> {
        classes_from(self.elements(), rel, self.cursor())
    }

    /// The iterators over the runs that are still to come, one for each run
    /// of the relation that the predicate tests.
    pub open spec fn walks(&self) -> Seq<Iter<'t, T>> {
        self.classes(self.relation()).map_values(|run: Seq<T>| run_iter(run))
    }

    #[verifier::type_invariant]
    spec fn inv(&self) -> bool {
        &&& self.last <= self.vect@.len()
        &&& forall|i: int, j: int|
            0 <= i < self.vect@.len() && 0 <= j < self.vect@.len() ==> call_requires(
                self.pred,
                (&#[trigger] self.vect@[i], &#[trigger] self.vect@[j]),
            )
    }
}

impl<'t, T, F> Iterator for EqClIter<'t, T, F> where T: 't, F: Fn(&'t T, &'t T) -> bool {
    type Item = Iter<'t, T>;

    /// Yield an iterator over the next run, or `None` when the slice has been
    /// walked to its end.
    ///
    /// The run starts at the cursor and ends where the cursor stands
    /// afterwards: the predicate has answered `true` for the first element
    /// of the run and each element of it, and `false` for the element after
    /// it, if there is one. For every relation that the predicate tests on
    /// the elements, the run is the first of the runs still to come, and the
    /// others are left for the calls that follow.
    fn next(&mut self) -> (r: Option<Iter<'t, T>>)
        ensures
            final(self).elements() == old(self).elements(),
            final(self).predicate() == old(self).predicate(),
            old(self).cursor() <= final(self).cursor() <= old(self).elements().len(),
            match r {
                Some(run) => {
                    &&& old(self).cursor() < old(self).elements().len()
                    &&& run.remaining() == old(self).elements().subrange(
                        old(self).cursor(),
                        final(self).cursor(),
                    ).as_ref()
                    &&& forall|k: int|
                        old(self).cursor() <= k < final(self).cursor() ==> call_ensures(
                            old(self).predicate(),
                            (
                                &old(self).elements()[old(self).cursor()],
                                &#[trigger] old(self).elements()[k],
                            ),
                            true,
                        )
                    &&& final(self).cursor() < old(self).elements().len() ==> call_ensures(
                        old(self).predicate(),
                        (
                            &old(self).elements()[old(self).cursor()],
                            &old(self).elements()[final(self).cursor()],
                        ),
                        false,
                    )
                },
                None => {
                    &&& old(self).cursor() >= old(self).elements().len()
                    &&& final(self).cursor() == old(self).cursor()
                },
            },
            forall|rel: spec_fn(T, T) -> bool| #[trigger]
                old(self).decided_by(rel) ==> match r {
                    Some(run) => {
                        &&& old(self).classes(rel).len() > 0
                        &&& run.remaining() == old(self).classes(rel)[0].as_ref()
                        &&& final(self).classes(rel) == old(self).classes(rel).drop_first()
                    },
                    None => old(self).classes(rel).len() == 0,
                },
    {
        proof {
            use_type_invariant(&*self);
        }
        if self.last >= self.vect.len() {
            None
        } else {
            let mut i: usize = self.last;
            loop
                invariant
                    self.inv(),
                    self.vect == old(self).vect,
                    self.pred == old(self).pred,
                    self.last == old(self).last,
                    self.last < self.vect@.len(),
                    self.last <= i <= self.vect@.len(),
                    forall|k: int|
                        self.last <= k < i ==> call_ensures(
                            self.pred,
                            (&self.vect@[self.last as int], &#[trigger] self.vect@[k]),
                            true,
                        ),
                    forall|rel: spec_fn(T, T) -> bool| #[trigger]
                        self.decided_by(rel) ==> i == self.last || run_end(
                            self.vect@,
                            rel,
                            self.last as int,
                            i as int,
                        ) == run_end(self.vect@, rel, self.last as int, self.last + 1),
                ensures
                    i < self.vect@.len() ==> call_ensures(
                        self.pred,
                        (&self.vect@[self.last as int], &self.vect@[i as int]),
                        false,
                    ),
                    forall|rel: spec_fn(T, T) -> bool| #[trigger]
                        self.decided_by(rel) ==> i == run_end(
                            self.vect@,
                            rel,
                            self.last as int,
                            self.last + 1,
                        ),
                decreases self.vect@.len() - i,
            {
                if i >= self.vect.len() {
                    break ;
                }
                let related = (self.pred)(&self.vect[self.last], &self.vect[i]);
                if !related {
                    break ;
                }
                i += 1;
            }
            let part = &self.vect[self.last..i];
            let iter = part.iter();
            self.last = i;
            proof {
                assert forall|rel: spec_fn(T, T) -> bool| #[trigger]
                    old(self).decided_by(rel) implies old(self).classes(rel).len() > 0
                    && iter.remaining() == old(self).classes(rel)[0].as_ref() && self.classes(rel)
                    == old(self).classes(rel).drop_first() by {
                    lemma_run_end(self.vect@, rel, old(self).last as int, old(self).last + 1);
                }
                if old(self).lawful() {
                    let rel = old(self).relation();
                    assert(old(self).decided_by(rel));
                    let run = old(self).classes(rel)[0];
                    let chosen = choose|c: &'t [T]| c@ == run;
                    assert(chosen =~= part);
                }
            }
            Some(iter)
        }
    }
}

impl<'t, T, F> vstd::std_specs::iter::IteratorSpecImpl for EqClIter<'t, T, F> where T: 't, F: Fn(&'t T, &'t T) -> bool {
    open spec fn obeys_prophetic_iter_laws(&self) -> bool {
        self.lawful()
    }

    open spec fn remaining(&self) -> Seq<Iter<'t, T>> {
        self.walks()
    }

    open spec fn will_return_none(&self) -> bool {
        true
    }

    open spec fn decrease(&self) -> Option<nat> {
        Some((self.elements().len() - self.cursor()) as nat)
    }

    open spec fn initial_value_relation(&self, init: &Self) -> bool {
        true
    }

    open spec fn peek(&self, index: int) -> Option<Iter<'t, T>> {
        None
    }
}

/// Iterate over sub-slices of the argument slice, where the elements of each
/// sub-slice are adjacent and equivalent under the predicate.
///
/// The predicate is asked of the first element of a run and each element
/// after it in turn, so it must accept any two elements of the slice.
pub fn equivalence_classes<'t, T, F>(slice: &'t Vec<T>, predicate: F) -> (it: EqClIter<'t, T, F>) where
    F: Fn(&T, &T) -> bool,

    requires
        forall|i: int, j: int|
            0 <= i < slice@.len() && 0 <= j < slice@.len() ==> call_requires(
                predicate,
                (&#[trigger] slice@[i], &#[trigger] slice@[j]),
            ),
    ensures
        it.elements() == slice@,
        it.cursor() == 0,
        it.predicate() == predicate,
{
    EqClIter { vect: slice.as_slice(), pred: predicate, last: 0 }
}

} // verus!
