//! What a walk does on a whole directory tree.

use vstd::prelude::*;

use crate::file_ops::{
    names, EntryKind, Event, Request, ScanEvent, ScanPhase, ScanRequest, Walk,
};
use crate::paths::names_supported_audio;

verus! {

/// A directory entry with everything below it.
pub enum TreeEntry {
    /// An entry that cannot be read.
    Unreadable,
    /// A directory; without entries to show where it cannot be opened.
    Directory { name: Seq<u8>, entries: Option<Seq<TreeEntry>> },
    /// A regular file.
    File { name: Seq<u8> },
    /// Anything else.
    Other { name: Seq<u8> },
}

/// The files that one entry of the directory at `path` contributes to a scan.
pub open spec fn entry_files(
    entry: TreeEntry,
    path: Seq<Seq<u8>>,
    max_depth: nat,
) -> Seq<Seq<Seq<u8>>>
    decreases entry,
{
    match entry {
        TreeEntry::File { name } => if names_supported_audio(name) {
            seq![path.push(name)]
        } else {
            Seq::empty()
        },
        TreeEntry::Directory { name, entries: Some(entries) } => if path.len() < max_depth {
            audio_files(entries, path.push(name), max_depth)
        } else {
            Seq::empty()
        },
        _ => Seq::empty(),
    }
}

/// The supported audio files below the directory at `path` with these entries, depth
/// first, in the order of the entries; directories deeper than `max_depth` are left out.
pub open spec fn audio_files(
    entries: Seq<TreeEntry>,
    path: Seq<Seq<u8>>,
    max_depth: nat,
) -> Seq<Seq<Seq<u8>>>
    decreases entries,
{
    if entries.len() == 0 {
        Seq::empty()
    } else {
        entry_files(entries[0], path, max_depth) + audio_files(
            entries.subrange(1, entries.len() as int),
            path,
            max_depth,
        )
    }
}

/// A file system and a consumer that answer a walk's requests.
pub struct World {
    /// The open directories, outermost first: the path of each and its entries still to come.
    pub open: Seq<(Seq<Seq<u8>>, Seq<TreeEntry>)>,
    /// The path of the directory reported last, and its entries if it can be opened.
    pub reported: (Seq<Seq<u8>>, Option<Seq<TreeEntry>>),
    /// How many more files the consumer takes before it goes away.
    pub room: nat,
    /// The files taken so far.
    pub taken: Seq<Seq<Seq<u8>>>,
}

impl World {
    /// A world in which nothing has happened yet.
    pub open spec fn start(root: Option<Seq<TreeEntry>>, room: nat) -> World {
        World { open: Seq::empty(), reported: (Seq::empty(), root), room, taken: Seq::empty() }
    }

    /// The world after a request, and the answer. Opening anything but the directory
    /// reported last fails.
    pub open spec fn respond(self, request: Request) -> (World, Event) {
        match request {
            Request::Open(path) => match self.reported.1 {
                Some(entries) if path == self.reported.0 => (
                    World { open: self.open.push((path, entries)), ..self },
                    Event::Opened(true),
                ),
                _ => (self, Event::Opened(false)),
            },
            Request::NextEntry => {
                let (path, entries) = self.open.last();
                if entries.len() == 0 {
                    (World { open: self.open.drop_last(), ..self }, Event::Exhausted)
                } else {
                    let rest = World {
                        open: self.open.drop_last().push(
                            (path, entries.subrange(1, entries.len() as int)),
                        ),
                        ..self
                    };
                    match entries[0] {
                        TreeEntry::Unreadable => (rest, Event::Unreadable),
                        TreeEntry::Directory { name, entries } => (
                            World { reported: (path.push(name), entries), ..rest },
                            Event::Found(name, EntryKind::Directory),
                        ),
                        TreeEntry::File { name } => (rest, Event::Found(name, EntryKind::File)),
                        TreeEntry::Other { name } => (rest, Event::Found(name, EntryKind::Other)),
                    }
                }
            },
            Request::Send(path) => if self.room > 0 {
                (
                    World { room: (self.room - 1) as nat, taken: self.taken.push(path), ..self },
                    Event::Sent(true),
                )
            } else {
                (self, Event::Sent(false))
            },
            Request::Finish(_) => (self, Event::Sent(false)),
        }
    }
}

/// A walk and its world after `steps` requests and answers.
pub open spec fn run(walk: Walk, world: World, steps: nat) -> (Walk, World)
    decreases steps,
{
    if steps == 0 {
        (walk, world)
    } else {
        let (answered, event) = world.respond(walk.request());
        run(walk.next(event), answered, (steps - 1) as nat)
    }
}

proof fn lemma_run_adds(walk: Walk, world: World, first: nat, second: nat)
    ensures
        run(walk, world, first + second) == ({
            let (w, v) = run(walk, world, first);
            run(w, v, second)
        }),
    decreases first,
{
    if first > 0 {
        let (answered, event) = world.respond(walk.request());
        lemma_run_adds(walk.next(event), answered, (first - 1) as nat, second);
    }
}

/// What is to hold once `files` have been offered to the consumer of `before`, in
/// order, and the walk has then come to `end` with `open` directories left.
spec fn offered(
    before: World,
    files: Seq<Seq<Seq<u8>>>,
    end: Walk,
    open: Seq<(Seq<Seq<u8>>, Seq<TreeEntry>)>,
    walk: Walk,
    world: World,
) -> bool {
    if files.len() <= before.room {
        &&& walk == end
        &&& world.open == open
        &&& world.room == before.room - files.len()
        &&& world.taken == before.taken + files
    } else {
        &&& walk.phase == ScanPhase::Finished(false)
        &&& world.taken == before.taken + files.take(before.room as int)
    }
}

proof fn lemma_step(walk: Walk, world: World)
    ensures
        run(walk, world, 1) == ({
            let (answered, event) = world.respond(walk.request());
            (walk.next(event), answered)
        }),
{
    reveal_with_fuel(run, 2);
}

/// Reading one directory to its end offers exactly its audio files.
proof fn lemma_read_directory(walk: Walk, world: World, entries: Seq<TreeEntry>) -> (steps: nat)
    requires
        walk.phase == ScanPhase::Reading,
        world.open.len() > 0,
        world.open.last() == (walk.path, entries),
    ensures
        ({
            let (w, v) = run(walk, world, steps);
            offered(
                world,
                audio_files(entries, walk.path, walk.max_depth),
                walk.leave(),
                world.open.drop_last(),
                w,
                v,
            )
        }),
    decreases entries, 1nat,
{
    if entries.len() == 0 {
        lemma_step(walk, world);
        assert(world.taken + audio_files(entries, walk.path, walk.max_depth) =~= world.taken);
        1
    } else {
        let rest = entries.subrange(1, entries.len() as int);
        let mine = entry_files(entries[0], walk.path, walk.max_depth);
        let others = audio_files(rest, walk.path, walk.max_depth);
        let first = lemma_read_entry(walk, world, entries);
        if mine.len() <= world.room {
            let (w, v) = run(walk, world, first);
            let b = lemma_read_directory(w, v, rest);
            lemma_run_adds(walk, world, first, b);
            assert(v.open.drop_last() =~= world.open.drop_last());
            assert(world.taken + mine + others =~= world.taken + (mine + others));
            if mine.len() + others.len() > world.room {
                assert(world.taken + mine + others.take(v.room as int) =~= world.taken + (mine
                    + others).take(world.room as int));
            }
            first + b
        } else {
            assert((mine + others).take(world.room as int) =~= mine.take(world.room as int));
            first
        }
    }
}

/// Reading one entry offers exactly the audio files that it contributes.
proof fn lemma_read_entry(walk: Walk, world: World, entries: Seq<TreeEntry>) -> (steps: nat)
    requires
        walk.phase == ScanPhase::Reading,
        entries.len() > 0,
        world.open.len() > 0,
        world.open.last() == (walk.path, entries),
    ensures
        ({
            let (w, v) = run(walk, world, steps);
            offered(
                world,
                entry_files(entries[0], walk.path, walk.max_depth),
                walk,
                world.open.drop_last().push((walk.path, entries.subrange(1, entries.len() as int))),
                w,
                v,
            )
        }),
    decreases entries, 0nat,
{
    let path = walk.path;
    let files = entry_files(entries[0], path, walk.max_depth);
    let left = world.open.drop_last().push((path, entries.subrange(1, entries.len() as int)));
    lemma_step(walk, world);
    let (w1, v1) = run(walk, world, 1);
    assert(v1.open == left);
    match entries[0] {
        TreeEntry::File { name } if names_supported_audio(name) => {
            assert(files =~= seq![path.push(name)]);
            lemma_step(w1, v1);
            lemma_run_adds(walk, world, 1, 1);
            assert(path.push(name).drop_last() =~= path);
            assert(world.taken.push(path.push(name)) =~= world.taken + files);
            assert(world.taken + files.take(0) =~= world.taken);
            2
        },
        TreeEntry::Directory { name, entries: inside } if path.len() < walk.max_depth => {
            let deeper = path.push(name);
            lemma_step(w1, v1);
            lemma_run_adds(walk, world, 1, 1);
            let (w2, v2) = run(walk, world, 2);
            assert(deeper.drop_last() =~= path);
            match inside {
                None => {
                    assert(world.taken + files =~= world.taken);
                    2
                },
                Some(inner) => {
                    assert(v2.open.last() == (deeper, inner));
                    assert(decreases_to!(entries => entries[0]));
                    let c = lemma_read_directory(w2, v2, inner);
                    lemma_run_adds(walk, world, 2, c);
                    assert(v2.open.drop_last() =~= left);
                    2 + c
                },
            }
        },
        _ => {
            assert(world.taken + files =~= world.taken);
            1
        },
    }
}

/// A walk of any tree comes to an end. By then it has handed over the supported audio
/// files of the tree, depth first and within the depth limit, up to as many
/// as the consumer took; and it reports that it was complete exactly if the consumer
/// took them all. What cannot be read is passed over and stops nothing.
pub proof fn law_walk_finds_the_audio_files(
    root: Option<Seq<TreeEntry>>,
    max_depth: nat,
    room: nat,
)
    ensures
        exists|steps: nat|
            ({
                let files = match root {
                    Some(entries) => audio_files(entries, Seq::empty(), max_depth),
                    None => Seq::empty(),
                };
                let (walk, world) = #[trigger] run(
                    Walk::start(max_depth),
                    World::start(root, room),
                    steps,
                );
                &&& walk.phase == ScanPhase::Finished(files.len() <= room)
                &&& world.taken == if files.len() <= room {
                    files
                } else {
                    files.take(room as int)
                }
            }),
{
    let walk = Walk::start(max_depth);
    let world = World::start(root, room);
    lemma_step(walk, world);
    let (w1, v1) = run(walk, world, 1);
    match root {
        Some(entries) => {
            let files = audio_files(entries, Seq::empty(), max_depth);
            assert(v1.open.last() == (w1.path, entries));
            let steps = lemma_read_directory(w1, v1, entries);
            lemma_run_adds(walk, world, 1, steps);
            assert(world.taken + files =~= files);
            assert(files.len() > room ==> world.taken + files.take(room as int) =~= files.take(
                room as int,
            ));
            let all = 1 + steps;
            assert(run(walk, world, all).0.phase is Finished);
        },
        None => {},
    }
}

/// A finished walk stays finished and asks for nothing more of the file system.
pub proof fn law_finished_walk_rests(walk: Walk, event: Event)
    requires
        walk.phase is Finished,
    ensures
        walk.next(event) == walk,
        walk.request() is Finish,
{
}

/// Requests and events are seen as they are: the names in them are the bytes that were
/// handed over, in their order.
pub proof fn law_names_are_seen_whole(path: Vec<Vec<u8>>, name: Vec<u8>, kind: EntryKind, flag: bool)
    ensures
        names(path@).len() == path@.len(),
        forall|i: int| 0 <= i < path@.len() ==> #[trigger] names(path@)[i] == path@[i]@,
        ScanRequest::Open(path)@ == Request::Open(names(path@)),
        ScanRequest::NextEntry@ == Request::NextEntry,
        ScanRequest::Send(path)@ == Request::Send(names(path@)),
        ScanRequest::Finish(flag)@ == Request::Finish(flag),
        ScanEvent::Found(name, kind)@ == Event::Found(name@, kind),
        ScanEvent::Opened(flag)@ == Event::Opened(flag),
        ScanEvent::Sent(flag)@ == Event::Sent(flag),
        ScanEvent::Exhausted@ == Event::Exhausted,
        ScanEvent::Unreadable@ == Event::Unreadable,
{
}

/// A walk asks to open or to send what its path leads to, and finishes only when it is over.
pub proof fn law_walk_asks_for_its_path(walk: Walk, path: Seq<Seq<u8>>, complete: bool)
    ensures
        walk.request() == Request::Open(path) <==> walk.phase is Opening && path == walk.path,
        walk.request() == Request::Send(path) <==> walk.phase is Sending && path == walk.path,
        walk.request() is NextEntry <==> walk.phase is Reading,
        walk.request() == Request::Finish(complete) <==> walk.phase == ScanPhase::Finished(
            complete,
        ),
        walk.request() is Open || walk.request() is Send || walk.request() is NextEntry
            || walk.request() is Finish,
{
}

/// A file is sent exactly if it is a regular file, met while its directory is read, whose
/// name ends in an audio extension; what is sent is that file.
pub proof fn law_only_audio_files_are_sent(walk: Walk, event: Event)
    requires
        !(walk.phase is Sending),
    ensures
        walk.next(event).phase is Sending <==> walk.phase is Reading && (event matches Event::Found(
            name,
            EntryKind::File,
        ) && names_supported_audio(name)),
        walk.next(event).phase is Sending ==> (event matches Event::Found(name, _) && walk.next(
            event,
        ).path == walk.path.push(name)),
{
}

/// A directory is opened exactly if it is met while the directory around it is read and is
/// no deeper than the limit; what is opened is that directory.
pub proof fn law_directories_are_opened_within_the_limit(walk: Walk, event: Event)
    requires
        !(walk.phase is Opening),
    ensures
        walk.next(event).phase is Opening <==> walk.phase is Reading && walk.path.len()
            < walk.max_depth && (event matches Event::Found(_, EntryKind::Directory)),
        walk.next(event).phase is Opening ==> (event matches Event::Found(name, _) && walk.next(
            event,
        ).path == walk.path.push(name)),
{
}

/// A directory that is read to its end or cannot be opened, and a file that was taken, lead
/// back to the directory around them, and from the root to the end of the walk. A directory
/// that was opened is read. A consumer that went away ends the walk at once. In between the
/// limit never changes, and no other event changes anything.
pub proof fn law_walk_returns_to_the_directory_around(walk: Walk, event: Event)
    ensures
        walk.next(event).max_depth == walk.max_depth,
        walk.phase is Opening && event == Event::Opened(true) ==> walk.next(event).phase is Reading
            && walk.next(event).path == walk.path,
        walk.phase is Sending && event == Event::Sent(false) ==> walk.next(event).phase
            == ScanPhase::Finished(false),
        walk.phase is Opening && event == Event::Opened(false) || walk.phase is Reading
            && event is Exhausted || walk.phase is Sending && event == Event::Sent(true) ==> {
            if walk.path.len() == 0 {
                walk.next(event).phase == ScanPhase::Finished(true)
            } else {
                &&& walk.next(event).phase is Reading
                &&& walk.next(event).path.len() == walk.path.len() - 1
                &&& forall|i: int|
                    0 <= i < walk.path.len() - 1 ==> #[trigger] walk.next(event).path[i]
                        == walk.path[i]
            }
        },
        walk.phase is Opening && !(event is Opened) || walk.phase is Sending && !(event is Sent)
            || walk.phase is Finished || walk.phase is Reading && (event is Opened || event is Sent
            || event is Unreadable || (event matches Event::Found(_, EntryKind::Other)))
            ==> walk.next(event) == walk,
        walk.phase is Reading && (event matches Event::Found(_, EntryKind::Directory))
            && walk.path.len() >= walk.max_depth ==> walk.next(event) == walk,
        walk.phase is Reading && (event matches Event::Found(name, EntryKind::File)
            && !names_supported_audio(name)) ==> walk.next(event) == walk,
{
}

/// Every file that a scan of a tree hands over lies below the directory it started from,
/// no deeper than the limit, and its name ends in an audio extension.
pub proof fn law_found_files_are_audio_within_the_limit(
    entries: Seq<TreeEntry>,
    path: Seq<Seq<u8>>,
    max_depth: nat,
    i: int,
)
    requires
        path.len() <= max_depth,
        0 <= i < audio_files(entries, path, max_depth).len(),
    ensures
        ({
            let file = audio_files(entries, path, max_depth)[i];
            &&& path.len() < file.len() <= max_depth + 1
            &&& file.take(path.len() as int) == path
            &&& names_supported_audio(file.last())
        }),
    decreases entries, 1nat,
{
    let mine = entry_files(entries[0], path, max_depth);
    let rest = entries.subrange(1, entries.len() as int);
    if i < mine.len() {
        match entries[0] {
            TreeEntry::File { name } => {
                assert(path.push(name).take(path.len() as int) =~= path);
            },
            TreeEntry::Directory { name, entries: Some(inside) } => {
                assert(decreases_to!(entries => entries[0]));
                law_found_files_are_audio_within_the_limit(inside, path.push(name), max_depth, i);
                let file = mine[i];
                assert(file.take(path.len() as int) =~= file.take(path.len() as int + 1).take(
                    path.len() as int,
                ));
                assert(path.push(name).take(path.len() as int) =~= path);
            },
            _ => {},
        }
    } else {
        law_found_files_are_audio_within_the_limit(rest, path, max_depth, i - mine.len());
    }
}

} // verus!
