//! Writing the tags of many tracks: which are written, and what it came to.

use vstd::prelude::*;

use crate::error::{AppError, AppResult};
use crate::tally::{law_merging_groups_freely, Count, Tally};
use crate::track::{Signature, TrackResult};

verus! {

/// Whether a track's tags are to be written, once tags are written at all.
pub fn write_wanted(track: &TrackResult) -> (wanted: bool)
    ensures
        wanted == track.needs_write,
{
    track.needs_write
}

/// What writing one track's tags came to. A track whose tags already hold its gain was
/// not written and counts as a success; `written` then says nothing.
pub fn write_outcome(track: &TrackResult, written: bool) -> (outcome: Option<Signature>)
    ensures
        outcome == if !track.needs_write || written {
            Some(track.signature)
        } else {
            None
        },
{
    if !track.needs_write || written {
        Some(track.signature)
    } else {
        None
    }
}

/// The failure of an operation, if it is one of the operating system.
pub open spec fn refusal(outcome: AppResult<()>) -> Option<AppError> {
    match outcome {
        Err(AppError::Io(error)) => Some(AppError::Io(error)),
        _ => None,
    }
}

/// What writing the tags of many tracks came to.
#[derive(Debug)]
pub struct WriteTally {
    /// The tracks whose tags are up to date, and a count of the others.
    pub tally: Tally<Signature>,
    /// The first failure of the operating system.
    pub refused: Option<AppError>,
}

/// A tally of writes as its contracts see it.
#[verifier::ext_equal]
pub struct WriteCount {
    pub count: Count<Signature>,
    pub refused: Option<AppError>,
}

impl View for WriteTally {
    type V = WriteCount;

    open spec fn view(&self) -> WriteCount {
        WriteCount { count: self.tally@, refused: self.refused }
    }
}

impl WriteCount {
    /// Nothing written.
    pub open spec fn nothing() -> WriteCount {
        WriteCount { count: Count::nothing(), refused: None }
    }

    /// One more track, and what writing its tags came to if it was to be written.
    pub open spec fn with(self, track: TrackResult, outcome: AppResult<()>) -> WriteCount {
        if !track.needs_write {
            WriteCount { count: self.count.with(Some(track.signature)), ..self }
        } else {
            WriteCount {
                count: self.count.with(
                    if outcome is Ok {
                        Some(track.signature)
                    } else {
                        None
                    },
                ),
                refused: if self.refused is Some {
                    self.refused
                } else {
                    refusal(outcome)
                },
            }
        }
    }

    /// This count followed by another.
    pub open spec fn plus(self, other: WriteCount) -> WriteCount {
        WriteCount {
            count: self.count.plus(other.count),
            refused: if self.refused is Some {
                self.refused
            } else {
                other.refused
            },
        }
    }

    /// The count of a sequence of writes.
    pub open spec fn of(writes: Seq<(TrackResult, AppResult<()>)>) -> WriteCount
        decreases writes.len(),
    {
        if writes.len() == 0 {
            WriteCount::nothing()
        } else {
            WriteCount::of(writes.drop_last()).with(writes.last().0, writes.last().1)
        }
    }
}

impl WriteTally {
    /// An empty tally.
    pub fn new() -> (writes: WriteTally)
        ensures
            writes@ == WriteCount::nothing(),
            writes.tally.items@.len() == 0,
            writes.tally.failed == 0,
            writes.refused is None,
    {
        WriteTally { tally: Tally::new(), refused: None }
    }

    /// Records what writing a track's tags came to. A track that was not to be written
    /// counts as written; `outcome` then says nothing.
    pub fn record(&mut self, track: &TrackResult, outcome: AppResult<()>)
        requires
            track.needs_write && outcome is Err ==> old(self).tally.failed < usize::MAX,
        ensures
            final(self)@ == old(self)@.with(*track, outcome),
            !track.needs_write || outcome is Ok ==> final(self).tally.items@
                == old(self).tally.items@.push(track.signature) && final(self).tally.failed
                == old(self).tally.failed && final(self).refused == old(self).refused,
            track.needs_write && outcome is Err ==> final(self).tally.items@
                == old(self).tally.items@ && final(self).tally.failed == old(self).tally.failed + 1,
            track.needs_write && old(self).refused is None ==> (outcome matches Err(
                AppError::Io(error),
            ) ==> final(self).refused == Some(AppError::Io(error))),
            outcome matches Err(AppError::Decode(_)) ==> final(self).refused == old(self).refused,
            old(self).refused is Some ==> final(self).refused == old(self).refused,
    {
        self.tally.record(write_outcome(track, outcome.is_ok()));
        if track.needs_write && self.refused.is_none() {
            if let Err(AppError::Io(error)) = outcome {
                self.refused = Some(AppError::Io(error));
            }
        }
    }

    /// Appends another tally to this one.
    pub fn merge(self, other: WriteTally) -> (both: WriteTally)
        requires
            self.tally.failed + other.tally.failed <= usize::MAX,
        ensures
            both@ == self@.plus(other@),
            both.tally.items@ == self.tally.items@ + other.tally.items@,
            both.tally.failed == self.tally.failed + other.tally.failed,
            self.refused is Some ==> both.refused == self.refused,
            self.refused is None ==> both.refused == other.refused,
    {
        let refused = match self.refused {
            Some(error) => Some(error),
            None => other.refused,
        };
        WriteTally { tally: self.tally.merge(other.tally), refused }
    }
}

/// Counting writes done in two parts and merging the counts is counting all of them.
pub proof fn law_merging_writes_counts_all(
    first: Seq<(TrackResult, AppResult<()>)>,
    second: Seq<(TrackResult, AppResult<()>)>,
)
    ensures
        WriteCount::of(first + second) == WriteCount::of(first).plus(WriteCount::of(second)),
    decreases second.len(),
{
    let done = WriteCount::of(first);
    if second.len() == 0 {
        assert(first + second =~= first);
        assert(done.plus(WriteCount::nothing()) =~= done);
    } else {
        let all = first + second;
        assert(all.drop_last() =~= first + second.drop_last());
        law_merging_writes_counts_all(first, second.drop_last());
        let rest = WriteCount::of(second.drop_last());
        let (track, outcome) = second.last();
        assert(done.plus(rest).with(track, outcome) =~= done.plus(rest.with(track, outcome)));
    }
}

/// The grouping of merges does not matter, and merging an empty tally changes nothing.
pub proof fn law_merging_writes_groups_freely(a: WriteCount, b: WriteCount, c: WriteCount)
    ensures
        a.plus(b).plus(c) == a.plus(b.plus(c)),
        a.plus(WriteCount::nothing()) == a,
        WriteCount::nothing().plus(a) == a,
{
    law_merging_groups_freely(a.count, b.count, c.count);
}

/// Whether the operating system refused to write a track that was to be written.
pub open spec fn refused_at(writes: Seq<(TrackResult, AppResult<()>)>, i: int) -> bool {
    0 <= i < writes.len() && writes[i].0.needs_write && refusal(writes[i].1) is Some
}

/// A refused write is never lost: the tally has a failure of the operating system exactly
/// if one of the writes has, and it is the first of them.
pub proof fn law_first_refusal_is_kept(writes: Seq<(TrackResult, AppResult<()>)>)
    ensures
        match WriteCount::of(writes).refused {
            Some(error) => exists|i: int|
                {
                    &&& #[trigger] refused_at(writes, i)
                    &&& refusal(writes[i].1) == Some(error)
                    &&& forall|j: int| 0 <= j < i ==> !#[trigger] refused_at(writes, j)
                },
            None => forall|i: int| !#[trigger] refused_at(writes, i),
        },
    decreases writes.len(),
{
    if writes.len() > 0 {
        let before = writes.drop_last();
        law_first_refusal_is_kept(before);
        assert forall|i: int| i != before.len() implies #[trigger] refused_at(writes, i)
            == refused_at(before, i) by {}
        if let Some(error) = WriteCount::of(before).refused {
            let i = choose|i: int|
                {
                    &&& #[trigger] refused_at(before, i)
                    &&& refusal(before[i].1) == Some(error)
                    &&& forall|j: int| 0 <= j < i ==> !#[trigger] refused_at(before, j)
                };
            assert(refused_at(writes, i));
        } else {
            assert(refused_at(writes, before.len() as int) == (writes.last().0.needs_write
                && refusal(writes.last().1) is Some));
        }
    }
}

/// The tracks that were written are exactly those that were not to be written or whose
/// write succeeded, and every other one counts as a failure.
pub proof fn law_every_write_counts(writes: Seq<(TrackResult, AppResult<()>)>, signature: Signature)
    ensures
        WriteCount::of(writes).count.items.len() + WriteCount::of(writes).count.failed
            == writes.len(),
        WriteCount::of(writes).count.items.contains(signature) <==> exists|i: int|
            0 <= i < writes.len() && (#[trigger] writes[i]).0.signature == signature && (
            !writes[i].0.needs_write || writes[i].1 is Ok),
    decreases writes.len(),
{
    if writes.len() > 0 {
        let before = writes.drop_last();
        law_every_write_counts(before, signature);
        let items = WriteCount::of(before).count.items;
        let (track, outcome) = writes.last();
        assert(writes[before.len() as int] == (track, outcome));
        assert(forall|i: int| 0 <= i < before.len() ==> #[trigger] writes[i] == before[i]);
        assert(forall|i: int| 0 <= i < before.len() ==> #[trigger] before[i] == writes[i]);
        assert(items.push(track.signature).contains(signature) <==> items.contains(signature)
            || track.signature == signature) by {
            broadcast use vstd::seq_lib::group_seq_properties;

        }
    }
}

/// A write that the operating system refuses fails the track and is noted unless an
/// earlier one is; tags that cannot be parsed fail the track and nothing else; a track that
/// is written, or was not to be written, counts as up to date whatever happened before.
pub proof fn law_write_is_recorded(
    count: WriteCount,
    track: TrackResult,
    outcome: AppResult<()>,
    error: std::io::Error,
    text: String,
)
    ensures
        !track.needs_write ==> count.with(track, outcome) == count.with(track, Ok(())),
        count.with(track, Ok(())).count.items == count.count.items.push(track.signature),
        count.with(track, Ok(())).count.failed == count.count.failed,
        count.with(track, Ok(())).refused == count.refused,
        track.needs_write ==> {
            let refused = count.with(track, Err(AppError::Io(error)));
            let broken = count.with(track, Err(AppError::Decode(text)));
            &&& refused.count.items == count.count.items && broken.count == refused.count
            &&& refused.count.failed == count.count.failed + 1
            &&& count.refused is None ==> refused.refused == Some(AppError::Io(error))
            &&& count.refused is Some ==> refused.refused == count.refused
            &&& broken.refused == count.refused
        },
{
}

/// A run of writes notes a failure exactly if the operating system refused one that was to
/// be made, and then the first such failure.
pub proof fn law_first_failure_of_the_system_counts(
    writes: Seq<(TrackResult, AppResult<()>)>,
    first: int,
    error: std::io::Error,
)
    ensures
        0 <= first < writes.len() && writes[first].0.needs_write && writes[first].1 == Err::<
            (),
            AppError,
        >(AppError::Io(error)) && (forall|j: int|
            0 <= j < first && (#[trigger] writes[j]).0.needs_write ==> !(writes[j].1 matches Err(
                AppError::Io(_),
            ))) ==> WriteCount::of(writes).refused == Some(AppError::Io(error)),
        (forall|j: int|
            0 <= j < writes.len() && (#[trigger] writes[j]).0.needs_write ==> !(
            writes[j].1 matches Err(AppError::Io(_)))) ==> WriteCount::of(writes).refused is None,
    decreases writes.len(),
{
    if writes.len() > 0 {
        let before = writes.drop_last();
        assert(forall|j: int| 0 <= j < before.len() ==> #[trigger] before[j] == writes[j]);
        assert(forall|j: int| 0 <= j < before.len() ==> #[trigger] writes[j] == before[j]);
        law_first_failure_of_the_system_counts(before, first, error);
        assert(writes.last() == writes[before.len() as int]);
    }
}

} // verus!
