//! Outcomes gathered from many workers: what succeeded, and how much failed.
//!
//! Each worker keeps a tally of its own; tallies are merged pairwise in any grouping.

use vstd::prelude::*;
use vstd::seq_lib::to_multiset_build;

use crate::error::{AppError, AppResult, Fault};
use crate::track::TrackResult;

verus! {

/// Items that succeeded, in the order in which they were recorded, and a count of failures.
#[derive(Debug)]
pub struct Tally<T> {
    pub items: Vec<T>,
    pub failed: usize,
}

/// A tally as its contracts see it.
#[verifier::ext_equal]
pub struct Count<T> {
    pub items: Seq<T>,
    pub failed: nat,
}

impl<T> View for Tally<T> {
    type V = Count<T>;

    open spec fn view(&self) -> Count<T> {
        Count { items: self.items@, failed: self.failed as nat }
    }
}

impl<T> Count<T> {
    /// Nothing recorded.
    pub open spec fn nothing() -> Count<T> {
        Count { items: Seq::empty(), failed: 0 }
    }

    /// One more outcome; `None` is a failure.
    pub open spec fn with(self, outcome: Option<T>) -> Count<T> {
        match outcome {
            Some(item) => Count { items: self.items.push(item), ..self },
            None => Count { failed: self.failed + 1, ..self },
        }
    }

    /// This count followed by another.
    pub open spec fn plus(self, other: Count<T>) -> Count<T> {
        Count { items: self.items + other.items, failed: self.failed + other.failed }
    }

    /// The count of a sequence of outcomes.
    pub open spec fn of(outcomes: Seq<Option<T>>) -> Count<T>
        decreases outcomes.len(),
    {
        if outcomes.len() == 0 {
            Count::nothing()
        } else {
            Count::of(outcomes.drop_last()).with(outcomes.last())
        }
    }
}

impl<T> Tally<T> {
    /// An empty tally.
    pub fn new() -> (tally: Tally<T>)
        ensures
            tally@ == Count::<T>::nothing(),
            tally.items@.len() == 0,
            tally.failed == 0,
    {
        Tally { items: Vec::new(), failed: 0 }
    }

    /// Records one outcome; `None` is a failure.
    pub fn record(&mut self, outcome: Option<T>)
        requires
            outcome is None ==> old(self).failed < usize::MAX,
        ensures
            final(self)@ == old(self)@.with(outcome),
            outcome matches Some(item) ==> final(self).items@ == old(self).items@.push(item)
                && final(self).failed == old(self).failed,
            outcome is None ==> final(self).items@ == old(self).items@ && final(self).failed
                == old(self).failed + 1,
    {
        match outcome {
            Some(item) => self.items.push(item),
            None => self.failed = self.failed + 1,
        }
    }

    /// Appends another tally to this one.
    pub fn merge(self, other: Tally<T>) -> (both: Tally<T>)
        requires
            self.failed + other.failed <= usize::MAX,
        ensures
            both@ == self@.plus(other@),
            both.items@ == self.items@ + other.items@,
            both.failed == self.failed + other.failed,
    {
        let mut items = self.items;
        let mut more = other.items;
        items.append(&mut more);
        let both = Tally { items, failed: self.failed + other.failed };
        assert(both@ =~= self@.plus(other@));
        both
    }
}

/// The tracks that a scan measured. Files that failed are left out; a directory scanner
/// that panicked fails the scan as a whole.
pub fn scan_results(tally: Tally<TrackResult>, scanner_returned: bool) -> (results: AppResult<
    Vec<TrackResult>,
>)
    ensures
        match results {
            Ok(results) => scanner_returned && results@ == tally@.items && results@ == tally.items@,
            Err(error) => !scanner_returned && error.reports(Fault::ScannerPanic),
        },
{
    if scanner_returned {
        Ok(tally.items)
    } else {
        Err(AppError::decode(Fault::ScannerPanic))
    }
}

/// Counting work done in two parts and merging the counts is counting all of it.
pub proof fn law_merging_parts_counts_all<T>(first: Seq<Option<T>>, second: Seq<Option<T>>)
    ensures
        Count::of(first + second) == Count::of(first).plus(Count::of(second)),
    decreases second.len(),
{
    if second.len() == 0 {
        assert(first + second =~= first);
        assert(Count::of(first).plus(Count::nothing()) =~= Count::of(first));
    } else {
        let all = first + second;
        assert(all.drop_last() =~= first + second.drop_last());
        law_merging_parts_counts_all(first, second.drop_last());
        let rest = Count::of(second.drop_last());
        assert(Count::of(first).plus(rest).with(second.last()) =~= Count::of(first).plus(
            rest.with(second.last()),
        ));
    }
}

/// The grouping of merges does not matter, and merging an empty tally changes nothing.
pub proof fn law_merging_groups_freely<T>(a: Count<T>, b: Count<T>, c: Count<T>)
    ensures
        a.plus(b).plus(c) == a.plus(b.plus(c)),
        a.plus(Count::nothing()) == a,
        Count::nothing().plus(a) == a,
{
    assert(a.plus(b).plus(c) =~= a.plus(b.plus(c)));
    assert(a.plus(Count::nothing()) =~= a);
    assert(Count::nothing().plus(a) =~= a);
}

/// Every outcome is counted once, as a success or as a failure.
pub proof fn law_every_outcome_counts<T>(outcomes: Seq<Option<T>>)
    ensures
        Count::of(outcomes).items.len() + Count::of(outcomes).failed == outcomes.len(),
    decreases outcomes.len(),
{
    if outcomes.len() > 0 {
        law_every_outcome_counts(outcomes.drop_last());
    }
}

/// The items are exactly those of the successful outcomes.
pub proof fn law_items_are_the_successes<T>(outcomes: Seq<Option<T>>, item: T)
    ensures
        Count::of(outcomes).items.contains(item) <==> outcomes.contains(Some(item)),
    decreases outcomes.len(),
{
    if outcomes.len() > 0 {
        let before = outcomes.drop_last();
        law_items_are_the_successes(before, item);
        let items = Count::of(before).items;
        assert(outcomes =~= before.push(outcomes.last()));
        assert(outcomes.contains(Some(item)) <==> before.contains(Some(item)) || outcomes.last()
            == Some(item)) by {
            broadcast use vstd::seq_lib::group_seq_properties;

        }
        if let Some(last) = outcomes.last() {
            assert(items.push(last).contains(item) <==> items.contains(item) || last == item) by {
                broadcast use vstd::seq_lib::group_seq_properties;

            }
        }
    }
}

proof fn lemma_count_as_multiset<T>(outcomes: Seq<Option<T>>)
    ensures
        forall|item: T|
            #[trigger] Count::of(outcomes).items.to_multiset().count(item)
                == outcomes.to_multiset().count(Some(item)),
        Count::of(outcomes).failed == outcomes.to_multiset().count(None),
    decreases outcomes.len(),
{
    broadcast use vstd::multiset::group_multiset_axioms;
    broadcast use vstd::seq_lib::group_to_multiset_ensures;

    if outcomes.len() > 0 {
        let before = outcomes.drop_last();
        lemma_count_as_multiset(before);
        assert(outcomes =~= before.push(outcomes.last()));
        to_multiset_build(before, outcomes.last());
        if let Some(item) = outcomes.last() {
            to_multiset_build(Count::of(before).items, item);
        }
    } else {
        assert(outcomes.to_multiset().len() == 0);
        assert(Count::of(outcomes).items.to_multiset().len() == 0);
    }
}

/// Workers may finish in any order: the same items succeed and as many fail.
pub proof fn law_order_of_work_is_immaterial<T>(one: Seq<Option<T>>, other: Seq<Option<T>>)
    requires
        one.to_multiset() == other.to_multiset(),
    ensures
        Count::of(one).items.to_multiset() == Count::of(other).items.to_multiset(),
        Count::of(one).failed == Count::of(other).failed,
{
    lemma_count_as_multiset(one);
    lemma_count_as_multiset(other);
    assert(Count::of(one).items.to_multiset() =~= Count::of(other).items.to_multiset());
}

/// A success adds its item at the end and no failure; a failure adds one failure and no
/// item. Merging keeps the items of both, those of the first before those of the second,
/// and the failures of both.
pub proof fn law_outcomes_add_up<T>(count: Count<T>, item: T, other: Count<T>)
    ensures
        count.with(Some(item)).items.len() == count.items.len() + 1,
        count.with(Some(item)).items.last() == item,
        count.with(Some(item)).items.drop_last() == count.items,
        count.with(Some(item)).failed == count.failed,
        count.with(None).items == count.items,
        count.with(None).failed == count.failed + 1,
        count.plus(other).items.len() == count.items.len() + other.items.len(),
        count.plus(other).items.take(count.items.len() as int) == count.items,
        count.plus(other).items.skip(count.items.len() as int) == other.items,
        count.plus(other).failed == count.failed + other.failed,
        Count::<T>::nothing().items.len() == 0,
        Count::<T>::nothing().failed == 0,
{
    assert(count.with(Some(item)).items.drop_last() =~= count.items);
    assert(count.plus(other).items.take(count.items.len() as int) =~= count.items);
    assert(count.plus(other).items.skip(count.items.len() as int) =~= other.items);
}

} // verus!
