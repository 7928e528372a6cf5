//! One run of the program: scan, remember, report, write tags, store the cache.
//!
//! The session decides; its driver performs what [`Session::request`] states and hands
//! the outcome back to [`Session::advance`], until it is told to stop.

use vstd::prelude::*;

use crate::cache::{
    absorbed, applied, lists, names_key, restored, write_needed, CacheEntry, GlobalCache,
};
use crate::cache_laws::{
    law_measured_tracks_are_remembered, law_same_offset_is_not_written_again, measured,
};
use crate::error::{AppError, AppResult};
use crate::track::{Real32, Signature, TrackResult};
use crate::writes::{law_first_refusal_is_kept, refused_at, WriteCount};

verus! {

/// How many workers to run: as many as were asked for, else as many as the machine
/// runs at once, else one.
pub fn worker_count(requested: usize, available: Option<usize>) -> (count: usize)
    ensures
        count == if requested > 0 {
            requested
        } else {
            match available {
                Some(available) => available,
                None => 1,
            }
        },
        available != Some(0usize) ==> count >= 1,
{
    if requested > 0 {
        requested
    } else {
        match available {
            Some(available) => available,
            None => 1,
        }
    }
}

/// A number of tracks as 32 bits, or the largest such number if it does not fit.
pub fn track_count(tracks: usize) -> (count: u32)
    ensures
        count == if tracks <= u32::MAX {
            tracks as int
        } else {
            u32::MAX as int
        },
{
    if tracks as u64 <= u32::MAX as u64 {
        tracks as u32
    } else {
        u32::MAX
    }
}

/// What the session asks of its driver.
#[derive(Debug, Clone, Copy, PartialEq, Eq, Structural)]
pub enum SessionRequest {
    /// Measure the tracks.
    Scan,
    /// Add the offset to the gains and export the report.
    Report,
    /// Write the tags of the tracks that need it.
    WriteTags,
    /// Create a temporary file for the cache.
    CreateTemporary,
    /// Write the cache to the temporary file.
    FillTemporary,
    /// Put the temporary file in the cache's place.
    Publish,
    /// Stop.
    Stop,
}

/// What became of a request.
#[derive(Debug)]
pub enum SessionEvent<'a> {
    /// The tracks were measured.
    Scanned(&'a Vec<TrackResult>),
    /// The tags were written of the tracks with these signatures, or were up to date; and
    /// the first failure of the operating system to write tags.
    Written(&'a Vec<Signature>, Option<AppError>),
    /// Anything else that was asked for is done.
    Done,
    /// What was asked for failed.
    Failed(AppError),
}

/// Where a session stands.
#[derive(Debug)]
pub enum SessionPhase {
    Scanning,
    Reporting,
    Writing,
    Creating,
    Filling,
    Publishing,
    Finished,
    Failed(AppError),
}

/// A run in progress.
#[derive(Debug)]
pub struct Session {
    write: bool,
    offset: Option<Real32>,
    cache: GlobalCache,
    write_error: Option<AppError>,
    phase: SessionPhase,
}

/// A session as its contracts see it.
#[verifier::ext_equal]
pub struct Course {
    /// Whether tags are to be written.
    pub write: bool,
    /// The offset that was given for this run.
    pub offset: Option<Real32>,
    /// The contents of the cache.
    pub contents: Map<Seq<u8>, CacheEntry>,
    /// A failure to write tags, with which the run ends once the cache is stored.
    pub write_error: Option<AppError>,
    pub phase: SessionPhase,
}

impl View for Session {
    type V = Course;

    closed spec fn view(&self) -> Course {
        Course {
            write: self.write,
            offset: self.offset,
            contents: self.cache@,
            write_error: self.write_error,
            phase: self.phase,
        }
    }
}

impl Course {
    /// A session about to scan.
    pub open spec fn start(
        contents: Map<Seq<u8>, CacheEntry>,
        write: bool,
        offset: Option<Real32>,
    ) -> Course {
        Course { write, offset, contents, write_error: None, phase: SessionPhase::Scanning }
    }

    /// The request that a session waits on.
    pub open spec fn request(self) -> SessionRequest {
        match self.phase {
            SessionPhase::Scanning => SessionRequest::Scan,
            SessionPhase::Reporting => SessionRequest::Report,
            SessionPhase::Writing => SessionRequest::WriteTags,
            SessionPhase::Creating => SessionRequest::CreateTemporary,
            SessionPhase::Filling => SessionRequest::FillTemporary,
            SessionPhase::Publishing => SessionRequest::Publish,
            SessionPhase::Finished => SessionRequest::Stop,
            SessionPhase::Failed(_) => SessionRequest::Stop,
        }
    }

    /// The session after an event. An event that does not answer the pending request
    /// changes nothing. A failure to write tags does not keep the cache from being stored.
    pub open spec fn next(self, event: SessionEvent<'_>) -> Course {
        match (self.phase, event) {
            (SessionPhase::Scanning, SessionEvent::Scanned(results)) => if results@.len() == 0 {
                Course { phase: SessionPhase::Finished, ..self }
            } else {
                Course {
                    contents: absorbed(self.contents, results@),
                    phase: SessionPhase::Reporting,
                    ..self
                }
            },
            (SessionPhase::Reporting, SessionEvent::Done) => Course {
                phase: if self.write {
                    SessionPhase::Writing
                } else {
                    SessionPhase::Creating
                },
                ..self
            },
            (SessionPhase::Writing, SessionEvent::Written(signatures, error)) => Course {
                contents: applied(self.contents, signatures@, self.offset),
                write_error: error,
                phase: SessionPhase::Creating,
                ..self
            },
            (SessionPhase::Creating, SessionEvent::Done) => Course {
                phase: SessionPhase::Filling,
                ..self
            },
            (SessionPhase::Filling, SessionEvent::Done) => Course {
                phase: SessionPhase::Publishing,
                ..self
            },
            (SessionPhase::Publishing, SessionEvent::Done) => Course {
                write_error: None,
                phase: match self.write_error {
                    Some(error) => SessionPhase::Failed(error),
                    None => SessionPhase::Finished,
                },
                ..self
            },
            (_, SessionEvent::Failed(error)) => match self.phase {
                SessionPhase::Writing => Course {
                    write_error: Some(error),
                    phase: SessionPhase::Creating,
                    ..self
                },
                SessionPhase::Finished => self,
                SessionPhase::Failed(_) => self,
                _ => Course { phase: SessionPhase::Failed(error), ..self },
            },
            _ => self,
        }
    }

    /// The session after several events.
    pub open spec fn after(self, events: Seq<SessionEvent<'_>>) -> Course
        decreases events.len(),
    {
        if events.len() == 0 {
            self
        } else {
            self.after(events.drop_last()).next(events.last())
        }
    }
}

impl Session {
    /// Starts a run with the cache of the last one.
    pub fn start(cache: GlobalCache, write: bool, offset: Option<Real32>) -> (session: Session)
        ensures
            session@ == Course::start(cache@, write, offset),
            session@.write == write,
            session@.offset == offset,
            session@.contents == cache@,
            session@.write_error is None,
            session@.phase is Scanning,
    {
        Session { write, offset, cache, write_error: None, phase: SessionPhase::Scanning }
    }

    /// What the driver is to do next.
    pub fn request(&self) -> (request: SessionRequest)
        ensures
            request == self@.request(),
    {
        match &self.phase {
            SessionPhase::Scanning => SessionRequest::Scan,
            SessionPhase::Reporting => SessionRequest::Report,
            SessionPhase::Writing => SessionRequest::WriteTags,
            SessionPhase::Creating => SessionRequest::CreateTemporary,
            SessionPhase::Filling => SessionRequest::FillTemporary,
            SessionPhase::Publishing => SessionRequest::Publish,
            SessionPhase::Finished => SessionRequest::Stop,
            SessionPhase::Failed(_) => SessionRequest::Stop,
        }
    }

    /// The cache as it stands.
    pub fn cache(&self) -> (cache: &GlobalCache)
        ensures
            cache@ == self@.contents,
    {
        &self.cache
    }

    /// Takes the outcome of the pending request.
    pub fn advance(&mut self, event: SessionEvent<'_>)
        ensures
            final(self)@ == old(self)@.next(event),
    {
        match (&self.phase, event) {
            (SessionPhase::Scanning, SessionEvent::Scanned(results)) => {
                if results.len() == 0 {
                    self.phase = SessionPhase::Finished;
                } else {
                    self.cache.absorb(results);
                    self.phase = SessionPhase::Reporting;
                }
            },
            (SessionPhase::Reporting, SessionEvent::Done) => {
                if self.write {
                    self.phase = SessionPhase::Writing;
                } else {
                    self.phase = SessionPhase::Creating;
                }
            },
            (SessionPhase::Writing, SessionEvent::Written(signatures, error)) => {
                self.cache.mark_applied(signatures, self.offset);
                self.write_error = error;
                self.phase = SessionPhase::Creating;
            },
            (SessionPhase::Creating, SessionEvent::Done) => {
                self.phase = SessionPhase::Filling;
            },
            (SessionPhase::Filling, SessionEvent::Done) => {
                self.phase = SessionPhase::Publishing;
            },
            (SessionPhase::Publishing, SessionEvent::Done) => {
                self.phase = match self.write_error.take() {
                    Some(error) => SessionPhase::Failed(error),
                    None => SessionPhase::Finished,
                };
            },
            (SessionPhase::Writing, SessionEvent::Failed(error)) => {
                self.write_error = Some(error);
                self.phase = SessionPhase::Creating;
            },
            (SessionPhase::Finished, SessionEvent::Failed(_)) => {},
            (SessionPhase::Failed(_), SessionEvent::Failed(_)) => {},
            (_, SessionEvent::Failed(error)) => {
                self.phase = SessionPhase::Failed(error);
            },
            _ => {},
        }
    }

    /// How the run ended; nothing while it goes on.
    pub fn outcome(self) -> (outcome: Option<AppResult<()>>)
        ensures
            outcome == match self@.phase {
                SessionPhase::Finished => Some(Ok::<(), AppError>(())),
                SessionPhase::Failed(error) => Some(Err::<(), AppError>(error)),
                _ => None,
            },
    {
        match self.phase {
            SessionPhase::Finished => Some(Ok(())),
            SessionPhase::Failed(error) => Some(Err(error)),
            _ => None,
        }
    }
}

/// Without the wish to write, no run ever asks for tags to be written, and the offset
/// and the wish stay what they were, whatever happens.
pub proof fn law_read_only_run_writes_no_tags(course: Course, events: Seq<SessionEvent<'_>>)
    requires
        course.phase is Writing ==> course.write,
    ensures
        course.after(events).write == course.write,
        course.after(events).offset == course.offset,
        course.after(events).request() is WriteTags ==> course.write,
    decreases events.len(),
{
    if events.len() > 0 {
        law_read_only_run_writes_no_tags(course, events.drop_last());
    }
}

/// The cache's file is replaced only by a temporary file that was created and filled
/// without failure: no other event leads there.
pub proof fn law_cache_is_published_only_when_filled(course: Course, event: SessionEvent<'_>)
    ensures
        course.next(event).phase is Publishing ==> course.phase is Publishing
            || course.phase is Filling && event is Done,
        course.next(event).phase is Filling ==> course.phase is Filling || course.phase is Creating
            && event is Done,
        course.phase is Creating || course.phase is Filling || course.phase is Publishing
            ==> course.next(event).contents == course.contents,
{
}

/// A scan that finds nothing ends the run without a report, a write or a change to the
/// cache.
pub proof fn law_empty_scan_changes_nothing(
    contents: Map<Seq<u8>, CacheEntry>,
    write: bool,
    offset: Option<Real32>,
    results: &Vec<TrackResult>,
)
    requires
        results@.len() == 0,
    ensures
        ({
            let end = Course::start(contents, write, offset).next(SessionEvent::Scanned(results));
            &&& end.phase is Finished
            &&& end.contents == contents
        }),
{
}

/// A failure of any step but the writing of tags ends the run with that very error; a
/// failure to write tags does so once the cache is stored. A run that has ended stays as
/// it ended.
pub proof fn law_failure_ends_the_run(course: Course, error: AppError, events: Seq<SessionEvent<'_>>)
    ensures
        !(course.request() is Stop) && !(course.request() is WriteTags) ==> course.next(
            SessionEvent::Failed(error),
        ) == (Course { phase: SessionPhase::Failed(error), ..course }),
        course.request() is WriteTags ==> ({
            let end = course.next(SessionEvent::Failed(error)).next(SessionEvent::Done).next(
                SessionEvent::Done,
            ).next(SessionEvent::Done);
            end.phase == SessionPhase::Failed(error) && end.contents == course.contents
        }),
        course.request() is Stop ==> course.after(events) == course,
    decreases events.len(),
{
    if events.len() > 0 {
        law_failure_ends_the_run(course, error, events.drop_last());
    }
}

/// A run in which nothing fails remembers the tracks that were measured, notes the
/// offset for those whose tags were written, if tags were to be written, stores that
/// cache and ends well.
pub proof fn law_successful_run(
    contents: Map<Seq<u8>, CacheEntry>,
    write: bool,
    offset: Option<Real32>,
    results: &Vec<TrackResult>,
    signatures: &Vec<Signature>,
)
    requires
        results@.len() > 0,
    ensures
        ({
            let start = Course::start(contents, write, offset);
            let scanned = start.next(SessionEvent::Scanned(results));
            let reported = scanned.next(SessionEvent::Done);
            let ready = if write {
                reported.next(SessionEvent::Written(signatures, None))
            } else {
                reported
            };
            let filling = ready.next(SessionEvent::Done);
            let publishing = filling.next(SessionEvent::Done);
            let end = publishing.next(SessionEvent::Done);
            &&& start.request() is Scan
            &&& scanned.request() is Report
            &&& write ==> reported.request() is WriteTags
            &&& ready.request() is CreateTemporary
            &&& filling.request() is FillTemporary
            &&& publishing.request() is Publish
            &&& end.phase is Finished
            &&& end.contents == if write {
                applied(absorbed(contents, results@), signatures@, offset)
            } else {
                absorbed(contents, results@)
            }
            &&& filling.contents == end.contents
        }),
{
}

/// A run in which the operating system refuses to write tags that were to be written ends
/// with such a refusal. What was measured, and the offset for the tracks whose tags were
/// written, is stored all the same.
pub proof fn law_refused_write_fails_the_run(
    contents: Map<Seq<u8>, CacheEntry>,
    offset: Option<Real32>,
    results: &Vec<TrackResult>,
    writes: Seq<(TrackResult, AppResult<()>)>,
    signatures: &Vec<Signature>,
    i: int,
)
    requires
        results@.len() > 0,
        refused_at(writes, i),
        signatures@ == WriteCount::of(writes).count.items,
    ensures
        ({
            let start = Course::start(contents, true, offset);
            let reported = start.next(SessionEvent::Scanned(results)).next(SessionEvent::Done);
            let ready = reported.next(
                SessionEvent::Written(signatures, WriteCount::of(writes).refused),
            );
            let publishing = ready.next(SessionEvent::Done).next(SessionEvent::Done);
            let end = publishing.next(SessionEvent::Done);
            &&& reported.request() is WriteTags
            &&& publishing.request() is Publish
            &&& publishing.contents == applied(
                absorbed(contents, results@),
                WriteCount::of(writes).count.items,
                offset,
            )
            &&& end.contents == publishing.contents
            &&& end.phase matches SessionPhase::Failed(AppError::Io(_))
        }),
{
    law_first_refusal_is_kept(writes);
}

/// A track that was measured and written in a run with an offset is not to be written in
/// the next run with the same offset, which starts from the stored cache: no result of
/// that run with the track's signature asks for it.
pub proof fn law_next_run_skips_written_tracks(
    contents: Map<Seq<u8>, CacheEntry>,
    offset: Real32,
    results: &Vec<TrackResult>,
    signatures: &Vec<Signature>,
    error: Option<AppError>,
    stored: Seq<(String, CacheEntry)>,
    key: Seq<u8>,
    next: TrackResult,
)
    requires
        forall|k: Seq<u8>| #[trigger] contents.contains_key(k) ==> k.len() == 32,
        !offset.is_nan(),
        measured(results@, key),
        names_key(signatures@, key),
        lists(
            stored,
            Course::start(contents, true, Some(offset)).next(SessionEvent::Scanned(results)).next(
                SessionEvent::Done,
            ).next(SessionEvent::Written(signatures, error)).contents,
        ),
        next.signature@ == key,
        next.needs_write == write_needed(
            Course::start(restored(stored), true, Some(offset)).contents,
            next.signature@,
            Some(offset),
        ),
    ensures
        !write_needed(
            Course::start(restored(stored), true, Some(offset)).contents,
            key,
            Some(offset),
        ),
        !next.needs_write,
{
    assert(results@.len() > 0);
    let scanned = absorbed(contents, results@);
    assert forall|k: Seq<u8>| #[trigger] scanned.contains_key(k) implies k.len() == 32 by {
        law_measured_tracks_are_remembered(contents, results@, k);
        if measured(results@, k) {
            let i = choose|i: int| 0 <= i < results@.len() && (#[trigger] results@[i]).signature@
                == k;
            assert(results@[i].signature@.len() == 32);
        }
    }
    law_measured_tracks_are_remembered(contents, results@, key);
    law_same_offset_is_not_written_again(scanned, signatures@, key, offset, Some(offset));
}

/// What a session asks for tells where it stands; it asks to stop exactly once it has ended.
pub proof fn law_session_asks_for_its_phase(course: Course)
    ensures
        course.request() is Scan <==> course.phase is Scanning,
        course.request() is Report <==> course.phase is Reporting,
        course.request() is WriteTags <==> course.phase is Writing,
        course.request() is CreateTemporary <==> course.phase is Creating,
        course.request() is FillTemporary <==> course.phase is Filling,
        course.request() is Publish <==> course.phase is Publishing,
        course.request() is Stop <==> course.phase is Finished || course.phase is Failed,
{
}

/// How a run goes on. It reports once tracks were found, writes tags only if that was asked
/// for and after the report, and stores the cache after that in three steps, each once the
/// one before is done.
pub proof fn law_steps_follow_each_other(course: Course, event: SessionEvent<'_>)
    ensures
        ({
            let next = course.next(event);
            &&& next.phase is Scanning ==> course.phase is Scanning
            &&& next.phase is Reporting && !(course.phase is Reporting) <==> course.phase is Scanning
                && (event matches SessionEvent::Scanned(results) && results@.len() > 0)
            &&& next.phase is Writing && !(course.phase is Writing) <==> course.phase is Reporting
                && event is Done && course.write
            &&& next.phase is Creating && !(course.phase is Creating) <==> course.phase is Reporting
                && event is Done && !course.write || course.phase is Writing && (event is Written
                || event is Failed)
            &&& next.phase is Filling && !(course.phase is Filling) <==> course.phase is Creating
                && event is Done
            &&& next.phase is Publishing && !(course.phase is Publishing)
                <==> course.phase is Filling && event is Done
            &&& next.phase is Finished && !(course.phase is Finished) <==> course.phase is Scanning
                && (event matches SessionEvent::Scanned(results) && results@.len() == 0)
                || course.phase is Publishing && event is Done && course.write_error is None
            &&& course.phase is Finished || course.phase is Failed ==> next == course
        }),
{
}

/// How a run fails: with the error of the step that failed, or, once the cache is stored,
/// with that of writing tags; and in no other way.
pub proof fn law_run_fails_with_the_error_that_occurred(
    course: Course,
    event: SessionEvent<'_>,
    error: AppError,
)
    requires
        !(course.phase is Failed),
    ensures
        course.next(event).phase == SessionPhase::Failed(error) <==> {
            ||| event == SessionEvent::Failed(error) && !(course.phase is Writing) && !(
            course.phase is Finished)
            ||| course.phase is Publishing && event is Done && course.write_error == Some(error)
        },
{
}

/// What a run keeps. The offset and the wish to write never change. The cache changes only
/// when tracks were found, which are then remembered, and when tags were written, which is
/// then noted with the offset of the run. A failure to write tags is kept until the cache
/// is stored.
pub proof fn law_cache_changes_by_scan_and_write_only(course: Course, event: SessionEvent<'_>)
    ensures
        ({
            let next = course.next(event);
            &&& next.write == course.write && next.offset == course.offset
            &&& course.phase is Scanning ==> (event matches SessionEvent::Scanned(results)
                ==> next.contents == absorbed(course.contents, results@))
            &&& course.phase is Writing ==> (event matches SessionEvent::Written(signatures, error)
                ==> next.contents == applied(course.contents, signatures@, course.offset)
                && next.write_error == error)
            &&& course.phase is Writing ==> (event matches SessionEvent::Failed(error)
                ==> next.contents == course.contents && next.write_error == Some(error))
            &&& !(course.phase is Scanning && event is Scanned) && !(course.phase is Writing
                && event is Written) ==> next.contents == course.contents
            &&& !(course.phase is Writing && (event is Written || event is Failed)) && !(
            course.phase is Publishing && event is Done) ==> next.write_error == course.write_error
        }),
{
}

} // verus!
