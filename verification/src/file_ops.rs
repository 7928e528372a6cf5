//! The directory scan: a depth-first walk that hands every supported audio file to
//! a consumer as soon as it is met.
//!
//! The walk decides; its driver touches the file system. The driver performs the
//! request that [`Traversal::request`] states and hands the outcome back to
//! [`Traversal::advance`], until the walk is finished.

use vstd::prelude::*;

use crate::error::{AppError, AppResult};
use crate::paths::{is_supported_name, names_supported_audio};

verus! {

/// What a directory entry is. Symbolic links and devices are `Other`.
#[derive(Debug, Clone, Copy, PartialEq, Eq, Structural)]
pub enum EntryKind {
    Directory,
    File,
    Other,
}

/// What the walk asks of its driver. Paths are the names to follow from the root of
/// the walk, outermost first.
#[derive(Debug)]
pub enum ScanRequest {
    /// Open the directory at this path for reading; it becomes the innermost open one.
    Open(Vec<Vec<u8>>),
    /// Take the next entry of the innermost open directory, or close it at its end.
    NextEntry,
    /// Hand the file at this path to the consumer.
    Send(Vec<Vec<u8>>),
    /// Stop. `false` means that the consumer went away before the walk was complete.
    Finish(bool),
}

/// What became of a request.
#[derive(Debug)]
pub enum ScanEvent {
    /// Whether the directory could be opened.
    Opened(bool),
    /// The innermost open directory has no more entries; it is closed.
    Exhausted,
    /// The next entry, or its kind, could not be read.
    Unreadable,
    /// The next entry.
    Found(Vec<u8>, EntryKind),
    /// Whether the consumer took the file.
    Sent(bool),
}

/// Where a walk stands.
#[derive(Debug, Clone, Copy, PartialEq, Eq, Structural)]
pub enum ScanPhase {
    /// The directory at the current path is to be opened.
    Opening,
    /// The directory at the current path is being read.
    Reading,
    /// The file at the current path is being handed over.
    Sending,
    /// The walk is over, completely or not.
    Finished(bool),
}

/// A walk in progress.
#[derive(Debug)]
pub struct Traversal {
    max_depth: usize,
    path: Vec<Vec<u8>>,
    phase: ScanPhase,
}

/// Names, each taken as the bytes it holds.
pub open spec fn names(path: Seq<Vec<u8>>) -> Seq<Seq<u8>> {
    path.map_values(|name: Vec<u8>| name@)
}

/// A walk as its contracts see it.
#[verifier::ext_equal]
pub struct Walk {
    /// Directories deeper than this are not entered; the root's own depth is 0.
    pub max_depth: nat,
    /// The names from the root to the current directory or file.
    pub path: Seq<Seq<u8>>,
    pub phase: ScanPhase,
}

/// A request as its contracts see it.
#[verifier::ext_equal]
pub enum Request {
    Open(Seq<Seq<u8>>),
    NextEntry,
    Send(Seq<Seq<u8>>),
    Finish(bool),
}

/// An event as its contracts see it.
#[verifier::ext_equal]
pub enum Event {
    Opened(bool),
    Exhausted,
    Unreadable,
    Found(Seq<u8>, EntryKind),
    Sent(bool),
}

impl View for ScanRequest {
    type V = Request;

    open spec fn view(&self) -> Request {
        match self {
            ScanRequest::Open(path) => Request::Open(names(path@)),
            ScanRequest::NextEntry => Request::NextEntry,
            ScanRequest::Send(path) => Request::Send(names(path@)),
            ScanRequest::Finish(complete) => Request::Finish(*complete),
        }
    }
}

impl View for ScanEvent {
    type V = Event;

    open spec fn view(&self) -> Event {
        match self {
            ScanEvent::Opened(opened) => Event::Opened(*opened),
            ScanEvent::Exhausted => Event::Exhausted,
            ScanEvent::Unreadable => Event::Unreadable,
            ScanEvent::Found(name, kind) => Event::Found(name@, *kind),
            ScanEvent::Sent(taken) => Event::Sent(*taken),
        }
    }
}

impl View for Traversal {
    type V = Walk;

    closed spec fn view(&self) -> Walk {
        Walk { max_depth: self.max_depth as nat, path: names(self.path@), phase: self.phase }
    }
}

impl Walk {
    /// A walk about to open its root.
    pub open spec fn start(max_depth: nat) -> Walk {
        Walk { max_depth, path: Seq::empty(), phase: ScanPhase::Opening }
    }

    /// The request that a walk waits on.
    pub open spec fn request(self) -> Request {
        match self.phase {
            ScanPhase::Opening => Request::Open(self.path),
            ScanPhase::Reading => Request::NextEntry,
            ScanPhase::Sending => Request::Send(self.path),
            ScanPhase::Finished(complete) => Request::Finish(complete),
        }
    }

    /// Done with the current directory or file: back to reading the one around it.
    pub open spec fn leave(self) -> Walk {
        if self.path.len() == 0 {
            Walk { phase: ScanPhase::Finished(true), ..self }
        } else {
            Walk { path: self.path.drop_last(), phase: ScanPhase::Reading, ..self }
        }
    }

    /// The walk after an event. An event that does not answer the pending request
    /// changes nothing.
    pub open spec fn next(self, event: Event) -> Walk {
        match (self.phase, event) {
            (ScanPhase::Opening, Event::Opened(true)) => Walk {
                phase: ScanPhase::Reading,
                ..self
            },
            (ScanPhase::Opening, Event::Opened(false)) => self.leave(),
            (ScanPhase::Reading, Event::Exhausted) => self.leave(),
            (ScanPhase::Reading, Event::Found(name, EntryKind::Directory)) => if self.path.len()
                < self.max_depth {
                Walk { path: self.path.push(name), phase: ScanPhase::Opening, ..self }
            } else {
                self
            },
            (ScanPhase::Reading, Event::Found(name, EntryKind::File)) => if names_supported_audio(
                name,
            ) {
                Walk { path: self.path.push(name), phase: ScanPhase::Sending, ..self }
            } else {
                self
            },
            (ScanPhase::Sending, Event::Sent(true)) => self.leave(),
            (ScanPhase::Sending, Event::Sent(false)) => Walk {
                phase: ScanPhase::Finished(false),
                ..self
            },
            _ => self,
        }
    }
}

/// The error that `std::io::Error::new` makes of the kind `NotFound` and a text.
pub uninterp spec fn not_found(text: Seq<char>) -> std::io::Error;

/// `std::io::Error::new` with the kind `NotFound` and the given text.
///
/// Claimed: the error is fixed by its text.
#[verifier::external_body]
fn not_found_error(text: &str) -> (error: std::io::Error)
    ensures
        error == not_found(text@),
{
    std::io::Error::new(std::io::ErrorKind::NotFound, text)
}

/// Starts a walk of the directories below a root, down to `max_depth` levels.
/// Fails only where the root itself cannot be read, and then always as not found.
pub fn traverse_dirs(root_readable: bool, max_depth: usize) -> (walk: AppResult<Traversal>)
    ensures
        match walk {
            Ok(walk) => {
                &&& root_readable
                &&& walk@ == Walk::start(max_depth as nat)
                &&& walk@.max_depth == max_depth
                &&& walk@.path.len() == 0
                &&& walk@.phase is Opening
            },
            Err(error) => !root_readable && error == AppError::Io(
                not_found("起始目录不存在或无法访问"@),
            ),
        },
{
    if !root_readable {
        return Err(AppError::from(not_found_error("起始目录不存在或无法访问")));
    }
    let walk = Traversal { max_depth, path: Vec::new(), phase: ScanPhase::Opening };
    assert(walk@ =~= Walk::start(max_depth as nat));
    Ok(walk)
}

fn copy_names(path: &Vec<Vec<u8>>) -> (copy: Vec<Vec<u8>>)
    ensures
        names(copy@) == names(path@),
{
    let mut copy: Vec<Vec<u8>> = Vec::new();
    let mut i: usize = 0;
    while i < path.len()
        invariant
            i <= path@.len(),
            copy@.len() == i,
            forall|j: int| 0 <= j < i ==> (#[trigger] copy@[j])@ == path@[j]@,
        decreases path@.len() - i,
    {
        copy.push(vstd::slice::slice_to_vec(path[i].as_slice()));
        i = i + 1;
    }
    assert(names(copy@) =~= names(path@));
    copy
}

impl Traversal {
    /// What the driver is to do next.
    pub fn request(&self) -> (request: ScanRequest)
        ensures
            request@ == self@.request(),
            request matches ScanRequest::Open(path) ==> path@.len() == self@.path.len()
                && forall|i: int| 0 <= i < path@.len() ==> (#[trigger] path@[i])@ == self@.path[i],
            request matches ScanRequest::Send(path) ==> path@.len() == self@.path.len()
                && forall|i: int| 0 <= i < path@.len() ==> (#[trigger] path@[i])@ == self@.path[i],
            request is Open <==> self@.phase is Opening,
            request is NextEntry <==> self@.phase is Reading,
            request is Send <==> self@.phase is Sending,
            request matches ScanRequest::Finish(complete) ==> self@.phase == ScanPhase::Finished(
                complete,
            ),
    {
        match self.phase {
            ScanPhase::Opening => ScanRequest::Open(copy_names(&self.path)),
            ScanPhase::Reading => ScanRequest::NextEntry,
            ScanPhase::Sending => ScanRequest::Send(copy_names(&self.path)),
            ScanPhase::Finished(complete) => ScanRequest::Finish(complete),
        }
    }

    fn leave(&mut self)
        ensures
            final(self)@ == old(self)@.leave(),
    {
        if self.path.len() == 0 {
            self.phase = ScanPhase::Finished(true);
        } else {
            let ghost before = self.path@;
            let _ = self.path.pop();
            assert(names(self.path@) =~= names(before).drop_last());
            self.phase = ScanPhase::Reading;
        }
    }

    fn enter(&mut self, name: Vec<u8>, phase: ScanPhase)
        ensures
            final(self)@ == (Walk { path: old(self)@.path.push(name@), phase, ..old(self)@ }),
    {
        let ghost before = self.path@;
        self.path.push(name);
        assert(names(self.path@) =~= names(before).push(name@));
        self.phase = phase;
    }

    /// Takes the outcome of the pending request. Directories and entries that cannot
    /// be read are passed over; a consumer that went away ends the walk at once.
    pub fn advance(&mut self, event: ScanEvent)
        ensures
            final(self)@ == old(self)@.next(event@),
    {
        match (self.phase, event) {
            (ScanPhase::Opening, ScanEvent::Opened(opened)) => {
                if opened {
                    self.phase = ScanPhase::Reading;
                } else {
                    self.leave();
                }
            },
            (ScanPhase::Reading, ScanEvent::Exhausted) => {
                self.leave();
            },
            (ScanPhase::Reading, ScanEvent::Found(name, EntryKind::Directory)) => {
                if self.path.len() < self.max_depth {
                    self.enter(name, ScanPhase::Opening);
                }
            },
            (ScanPhase::Reading, ScanEvent::Found(name, EntryKind::File)) => {
                if is_supported_name(name.as_slice()) {
                    self.enter(name, ScanPhase::Sending);
                }
            },
            (ScanPhase::Sending, ScanEvent::Sent(taken)) => {
                if taken {
                    self.leave();
                } else {
                    self.phase = ScanPhase::Finished(false);
                }
            },
            _ => {},
        }
    }
}

} // verus!
