use std::path::{Component, Path};

use rgain::{is_supported_audio, is_supported_name, path_extension, probe_hint, PathPart};

fn parts(path: &str) -> Vec<PathPart> {
    Path::new(path)
        .components()
        .map(|part| match part {
            Component::Prefix(_) => PathPart::Prefix,
            Component::RootDir => PathPart::Root,
            Component::CurDir => PathPart::Current,
            Component::ParentDir => PathPart::Parent,
            Component::Normal(name) => PathPart::Name(name.as_encoded_bytes().to_vec()),
        })
        .collect()
}

fn name(name: &[u8]) -> PathPart {
    PathPart::Name(name.to_vec())
}

fn supported(path: &str) -> bool {
    is_supported_audio(&parts(path))
}

#[test]
fn supports_the_three_formats_in_any_case() {
    assert!(supported("album/01 - intro.flac"));
    assert!(supported("a.MP3"));
    assert!(supported("/music/b.WaV"));
    assert!(!supported("cover.jpg"));
    assert!(!supported("song.flacx"));
    assert!(!supported("song.fla"));
}

#[test]
fn names_without_an_extension_are_not_supported() {
    assert!(!supported(""));
    assert!(!supported("mp3"));
    assert!(!supported(".mp3"));
    assert!(!supported("a/.mp3"));
    assert!(!supported("album.mp3/readme"));
    assert!(!supported("song."));
    assert!(!supported("song.mp3/.."));
    assert!(!supported(".."));
    assert!(!supported("/"));
}

#[test]
fn only_the_last_dot_counts() {
    assert!(supported("01.intro.wav"));
    assert!(supported("..mp3"));
    assert!(!supported("song.mp3.part"));
}

#[test]
fn trailing_separators_and_dots_are_passed_over() {
    assert!(supported("album/song.mp3/"));
    assert!(supported("album/song.mp3//./"));
    assert!(!supported("./"));
    assert!(!supported("."));
}

#[test]
fn names_need_not_be_text() {
    assert!(is_supported_audio(&[name(b"\xff\xfe"), name(b"song.mp3")]));
    assert!(is_supported_audio(&[name(b"\xff.mp3")]));
    assert!(!is_supported_audio(&[name(b"song.mp\xff")]));
}

#[test]
fn only_a_last_part_that_is_a_name_counts() {
    assert!(is_supported_audio(&[PathPart::Prefix, PathPart::Root, name(b"a.mp3")]));
    assert!(!is_supported_audio(&[PathPart::Prefix, name(b".mp3")]));
    assert!(!is_supported_audio(&[name(b"a"), name(b".mp3")]));
    assert!(is_supported_audio(&[name(b"a\\.mp3")]));
    for last in [PathPart::Prefix, PathPart::Root, PathPart::Current, PathPart::Parent] {
        assert!(!is_supported_audio(&[name(b"a.mp3"), last]));
    }
}

#[test]
fn extensions_agree_with_the_standard_library() {
    let paths = [
        "a.flac", "a", ".a", "..a", "a.", "a/b.c", "a.b/c", "a.b/", "a.b/.", "a.b/..", "/", "",
        "./x.y", "../x.y", "x..y", "a//b.c//", "...", "....x", "é.ü", "a/./.b/./", "a\\.b",
    ];
    for path in paths {
        let expected = Path::new(path).extension().map(|e| e.as_encoded_bytes().to_vec());
        assert_eq!(path_extension(&parts(path)), expected.as_deref(), "{path}");
        assert_eq!(
            probe_hint(&parts(path)),
            expected.map(|e| String::from_utf8(e).unwrap()),
            "{path}"
        );
    }
}

#[test]
fn a_hint_is_text() {
    assert_eq!(probe_hint(&parts("a/b.FLAC")), Some(String::from("FLAC")));
    assert_eq!(probe_hint(&parts("x.мп3")), Some(String::from("мп3")));
    assert_eq!(probe_hint(&[name(b"x.\xff")]), None);
    assert_eq!(probe_hint(&parts("x")), None);
}

#[test]
fn support_depends_on_the_name_alone() {
    for name in ["a.mp3", "b.txt", ".wav", "c.Flac"] {
        assert_eq!(supported(&format!("some/dir.mp3/{name}")), supported(name));
        assert_eq!(is_supported_name(name.as_bytes()), supported(name));
    }
}
