use rgain::{traverse_dirs, AppError, EntryKind, ScanEvent, ScanRequest};

enum Node {
    Dir(&'static str, Option<Vec<Node>>),
    File(&'static str),
    Link(&'static str),
    Broken,
}

use Node::{Broken, Dir, File, Link};

fn lookup<'a>(root: &'a [Node], path: &[Vec<u8>]) -> Option<&'a [Node]> {
    let mut here: &[Node] = root;
    for name in path {
        let mut inside: Option<&[Node]> = None;
        for node in here {
            if let Dir(n, entries) = node {
                if n.as_bytes() == name.as_slice() {
                    inside = entries.as_ref().map(|e| e.as_slice());
                }
            }
        }
        here = inside?;
    }
    Some(here)
}

fn text(path: &[Vec<u8>]) -> String {
    let names: Vec<String> = path.iter().map(|n| String::from_utf8(n.clone()).unwrap()).collect();
    names.join("/")
}

/// Drives a walk over a tree; the consumer takes `room` files.
fn drive(root: &[Node], max_depth: usize, room: usize) -> (Vec<String>, bool) {
    let mut walk = traverse_dirs(true, max_depth).unwrap();
    let mut open: Vec<std::slice::Iter<Node>> = Vec::new();
    let mut taken: Vec<String> = Vec::new();
    loop {
        let event = match walk.request() {
            ScanRequest::Open(path) => match lookup(root, &path) {
                Some(entries) => {
                    open.push(entries.iter());
                    ScanEvent::Opened(true)
                }
                None => ScanEvent::Opened(false),
            },
            ScanRequest::NextEntry => match open.last_mut().unwrap().next() {
                None => {
                    open.pop();
                    ScanEvent::Exhausted
                }
                Some(Dir(n, _)) => ScanEvent::Found(n.as_bytes().to_vec(), EntryKind::Directory),
                Some(File(n)) => ScanEvent::Found(n.as_bytes().to_vec(), EntryKind::File),
                Some(Link(n)) => ScanEvent::Found(n.as_bytes().to_vec(), EntryKind::Other),
                Some(Broken) => ScanEvent::Unreadable,
            },
            ScanRequest::Send(path) => {
                if taken.len() < room {
                    taken.push(text(&path));
                    ScanEvent::Sent(true)
                } else {
                    ScanEvent::Sent(false)
                }
            }
            ScanRequest::Finish(complete) => return (taken, complete),
        };
        walk.advance(event);
    }
}

fn library() -> Vec<Node> {
    vec![
        File("top.mp3"),
        Dir(
            "album",
            Some(vec![
                File("cover.jpg"),
                File("one.FLAC"),
                Broken,
                Dir("disc 2", Some(vec![File("two.wav"), Link("loop.mp3")])),
                File("three.mp3"),
            ]),
        ),
        Dir("locked", None),
        Dir("fake.mp3", Some(vec![])),
        File("last.wav"),
    ]
}

#[test]
fn a_walk_finds_the_audio_files_depth_first() {
    let (files, complete) = drive(&library(), usize::MAX, usize::MAX);
    assert_eq!(
        files,
        ["top.mp3", "album/one.FLAC", "album/disc 2/two.wav", "album/three.mp3", "last.wav"]
    );
    assert!(complete);
}

#[test]
fn depth_is_limited() {
    assert_eq!(drive(&library(), 0, 99), (vec!["top.mp3".to_string(), "last.wav".to_string()], true));
    let (files, complete) = drive(&library(), 1, 99);
    assert_eq!(files, ["top.mp3", "album/one.FLAC", "album/three.mp3", "last.wav"]);
    assert!(complete);
}

#[test]
fn a_consumer_that_goes_away_ends_the_walk() {
    let (files, complete) = drive(&library(), usize::MAX, 2);
    assert_eq!(files, ["top.mp3", "album/one.FLAC"]);
    assert!(!complete);
    let (files, complete) = drive(&library(), usize::MAX, 5);
    assert_eq!(files.len(), 5);
    assert!(complete);
}

#[test]
fn an_empty_tree_has_no_files() {
    assert_eq!(drive(&[], 3, 3), (vec![], true));
}

#[test]
fn an_unreadable_root_is_an_error() {
    match traverse_dirs(false, 5) {
        Err(AppError::Io(error)) => {
            assert_eq!(error.kind(), std::io::ErrorKind::NotFound);
            assert_eq!(error.to_string(), "起始目录不存在或无法访问");
        }
        _ => panic!("an unreadable root was accepted"),
    }
}

#[test]
fn a_root_that_vanishes_is_an_empty_tree() {
    let mut walk = traverse_dirs(true, 5).unwrap();
    assert!(matches!(walk.request(), ScanRequest::Open(path) if path.is_empty()));
    walk.advance(ScanEvent::Opened(false));
    assert!(matches!(walk.request(), ScanRequest::Finish(true)));
    walk.advance(ScanEvent::Opened(true));
    assert!(matches!(walk.request(), ScanRequest::Finish(true)));
}

#[test]
fn events_that_answer_nothing_are_ignored() {
    let mut walk = traverse_dirs(true, 5).unwrap();
    walk.advance(ScanEvent::Exhausted);
    walk.advance(ScanEvent::Sent(false));
    walk.advance(ScanEvent::Found(b"a.mp3".to_vec(), EntryKind::File));
    assert!(matches!(walk.request(), ScanRequest::Open(path) if path.is_empty()));
}
