//! The part of a path that names the audio format.
//!
//! A path is the sequence of its parts, as the platform's own rules divide it: what
//! separates them is not seen here. Names are the bytes that the operating system knows
//! them by. Nothing is assumed of their encoding: a directory name need not be text for
//! the file below it to be recognised.

use vstd::prelude::*;
use vstd::string::is_ascii_spec_bytes;
use vstd::utf8::{decode_utf8, valid_utf8};

verus! {

/// A part of a path, as `std::path::Component` tells them apart.
#[derive(Debug)]
pub enum PathPart {
    /// What a platform puts before the root, such as a drive.
    Prefix,
    /// The root directory.
    Root,
    /// The current directory.
    Current,
    /// The directory around the one before.
    Parent,
    /// A file or directory by its name.
    Name(Vec<u8>),
}

/// The byte before a file name's extension.
pub const DOT: u8 = 0x2e;

/// Where the part after the last `mark` in `bytes` starts: 0 if there is no `mark`.
pub open spec fn tail_start(bytes: Seq<u8>, mark: u8) -> nat
    decreases bytes.len(),
{
    if bytes.len() == 0 {
        0
    } else if bytes.last() == mark {
        bytes.len()
    } else {
        tail_start(bytes.drop_last(), mark)
    }
}

/// The name of the file that a path leads to: its last part, if that is a name.
pub open spec fn file_name(path: Seq<PathPart>) -> Option<Seq<u8>> {
    if path.len() == 0 {
        None
    } else {
        match path.last() {
            PathPart::Name(name) => Some(name@),
            _ => None,
        }
    }
}

/// What follows the last dot of a file name. A name without a dot, or whose only
/// dot comes first, has none.
pub open spec fn name_extension(name: Seq<u8>) -> Option<Seq<u8>> {
    let start = tail_start(name, DOT) as int;
    if start <= 1 {
        None
    } else {
        Some(name.skip(start))
    }
}

/// The extension of a path's file name.
pub open spec fn extension(path: Seq<PathPart>) -> Option<Seq<u8>> {
    match file_name(path) {
        Some(name) => name_extension(name),
        None => None,
    }
}

/// An ASCII capital letter's small letter; any other byte itself.
pub open spec fn ascii_lower(byte: u8) -> u8 {
    if 0x41 <= byte <= 0x5a {
        (byte + 0x20) as u8
    } else {
        byte
    }
}

/// Whether `bytes` spells `word`, small and capital ASCII letters counting as the same.
pub open spec fn spells(bytes: Seq<u8>, word: Seq<char>) -> bool {
    &&& bytes.len() == word.len()
    &&& forall|i: int|
        0 <= i < bytes.len() ==> ascii_lower(#[trigger] bytes[i]) == ascii_lower(word[i] as u8)
}

/// Whether an extension is that of an audio format that is scanned.
pub open spec fn is_audio_extension(ext: Seq<u8>) -> bool {
    ||| spells(ext, "flac"@)
    ||| spells(ext, "mp3"@)
    ||| spells(ext, "wav"@)
}

/// Whether a file of this name is scanned.
pub open spec fn names_supported_audio(name: Seq<u8>) -> bool {
    name_extension(name) matches Some(ext) && is_audio_extension(ext)
}

/// Whether the file that a path leads to is scanned.
pub open spec fn leads_to_supported_audio(path: Seq<PathPart>) -> bool {
    extension(path) matches Some(ext) && is_audio_extension(ext)
}

proof fn lemma_tail_start(bytes: Seq<u8>, mark: u8)
    ensures
        tail_start(bytes, mark) <= bytes.len(),
    decreases bytes.len(),
{
    if bytes.len() > 0 && bytes.last() != mark {
        lemma_tail_start(bytes.drop_last(), mark);
    }
}

fn find_tail(bytes: &[u8], mark: u8) -> (start: usize)
    ensures
        start == tail_start(bytes@, mark),
        start <= bytes@.len(),
{
    let mut start: usize = bytes.len();
    assert(bytes@.take(start as int) =~= bytes@);
    while start > 0 && bytes[start - 1] != mark
        invariant
            start <= bytes@.len(),
            tail_start(bytes@, mark) == tail_start(bytes@.take(start as int), mark),
        decreases start,
    {
        assert(bytes@.take(start as int).drop_last() =~= bytes@.take(start - 1));
        start = start - 1;
    }
    start
}

fn name_tail(name: &[u8]) -> (ext: Option<&[u8]>)
    ensures
        match ext {
            Some(ext) => name_extension(name@) == Some(ext@),
            None => name_extension(name@) is None,
        },
{
    let dot = find_tail(name, DOT);
    if dot <= 1 {
        None
    } else {
        let tail: &[u8] = vstd::slice::slice_subrange(name, dot, name.len());
        assert(tail@ =~= name@.skip(dot as int));
        Some(tail)
    }
}

/// The extension of the path's file name, if it has one.
pub fn path_extension(path: &[PathPart]) -> (ext: Option<&[u8]>)
    ensures
        match ext {
            Some(ext) => extension(path@) == Some(ext@),
            None => extension(path@) is None,
        },
{
    if path.len() == 0 {
        return None;
    }
    match &path[path.len() - 1] {
        PathPart::Name(name) => name_tail(name.as_slice()),
        _ => None,
    }
}

fn lower(byte: u8) -> (small: u8)
    ensures
        small == ascii_lower(byte),
{
    if 0x41 <= byte && byte <= 0x5a {
        byte + 0x20
    } else {
        byte
    }
}

fn reads(bytes: &[u8], word: &str) -> (same: bool)
    requires
        vstd::string::is_ascii(word),
    ensures
        same == spells(bytes@, word@),
{
    proof {
        is_ascii_spec_bytes(word);
    }
    let letters: &[u8] = word.as_bytes();
    if bytes.len() != letters.len() {
        return false;
    }
    let mut i: usize = 0;
    while i < bytes.len()
        invariant
            i <= bytes@.len(),
            bytes@.len() == letters@.len() == word@.len(),
            forall|j: int| 0 <= j < word@.len() ==> letters@[j] == word@[j] as u8,
            forall|j: int|
                0 <= j < i ==> ascii_lower(#[trigger] bytes@[j]) == ascii_lower(word@[j] as u8),
        decreases bytes@.len() - i,
    {
        if lower(bytes[i]) != lower(letters[i]) {
            return false;
        }
        i = i + 1;
    }
    true
}

fn reads_audio(ext: &[u8]) -> (audio: bool)
    ensures
        audio == is_audio_extension(ext@),
{
    proof {
        reveal_strlit("flac");
        reveal_strlit("mp3");
        reveal_strlit("wav");
    }
    reads(ext, "flac") || reads(ext, "mp3") || reads(ext, "wav")
}

/// Whether the extension of the file that a path leads to is `flac`, `mp3` or `wav`, in
/// any mix of small and capital letters.
pub fn is_supported_audio(path: &[PathPart]) -> (supported: bool)
    ensures
        supported == leads_to_supported_audio(path@),
{
    match path_extension(path) {
        Some(ext) => reads_audio(ext),
        None => false,
    }
}

/// The same of a directory entry by its name.
pub fn is_supported_name(name: &[u8]) -> (supported: bool)
    ensures
        supported == names_supported_audio(name@),
{
    match name_tail(name) {
        Some(ext) => reads_audio(ext),
        None => false,
    }
}

/// `String::from_utf8`.
///
/// Claimed: it succeeds exactly on valid UTF-8, and the text is what the bytes encode.
#[verifier::external_body]
fn text_from_utf8(bytes: Vec<u8>) -> (text: Option<String>)
    ensures
        match text {
            Some(text) => valid_utf8(bytes@) && text@ == decode_utf8(bytes@),
            None => !valid_utf8(bytes@),
        },
{
    String::from_utf8(bytes).ok()
}

/// The extension to hint at when the container format is probed: the file's own, if
/// it is text.
pub fn probe_hint(path: &[PathPart]) -> (hint: Option<String>)
    ensures
        match hint {
            Some(hint) => extension(path@) matches Some(ext) && valid_utf8(ext) && hint@
                == decode_utf8(ext),
            None => extension(path@) matches Some(ext) ==> !valid_utf8(ext),
        },
{
    match path_extension(path) {
        Some(ext) => text_from_utf8(vstd::slice::slice_to_vec(ext)),
        None => None,
    }
}

/// Whether an entry of a directory is supported audio depends on its name alone,
/// whatever directory it lies in.
pub proof fn law_support_depends_on_name(directory: Seq<PathPart>, name: Vec<u8>)
    ensures
        file_name(directory.push(PathPart::Name(name))) == Some(name@),
        leads_to_supported_audio(directory.push(PathPart::Name(name))) == names_supported_audio(
            name@,
        ),
{
}

proof fn lemma_tail_start_lower(a: Seq<u8>, b: Seq<u8>)
    requires
        a.len() == b.len(),
        forall|i: int| 0 <= i < a.len() ==> ascii_lower(#[trigger] a[i]) == ascii_lower(b[i]),
    ensures
        tail_start(a, DOT) == tail_start(b, DOT),
    decreases a.len(),
{
    if a.len() > 0 {
        assert(ascii_lower(a[a.len() - 1]) == ascii_lower(b[b.len() - 1]));
        lemma_tail_start_lower(a.drop_last(), b.drop_last());
    }
}

/// Support ignores the case of ASCII letters in a file's name.
pub proof fn law_support_ignores_case(a: Seq<u8>, b: Seq<u8>)
    requires
        a.len() == b.len(),
        forall|i: int| 0 <= i < a.len() ==> ascii_lower(#[trigger] a[i]) == ascii_lower(b[i]),
    ensures
        names_supported_audio(a) == names_supported_audio(b),
{
    lemma_tail_start_lower(a, b);
    lemma_tail_start(a, DOT);
    let start = tail_start(a, DOT) as int;
    let p = a.skip(start);
    let q = b.skip(start);
    assert forall|i: int| 0 <= i < p.len() implies ascii_lower(#[trigger] p[i]) == ascii_lower(
        q[i],
    ) by {
        assert(ascii_lower(a[start + i]) == ascii_lower(b[start + i]));
    }
    assert forall|word: Seq<char>| #[trigger] spells(p, word) == spells(q, word) by {
        if p.len() == word.len() {
            assert(forall|i: int| 0 <= i < p.len() ==> ascii_lower(#[trigger] p[i]) == ascii_lower(
                q[i],
            ));
            assert(forall|i: int| 0 <= i < q.len() ==> ascii_lower(#[trigger] q[i]) == ascii_lower(
                p[i],
            ));
        }
    }
}

/// Where the part after a mark starts: behind the last mark, and at 0 without one.
proof fn lemma_tail_starts_behind_the_last_mark(bytes: Seq<u8>, mark: u8, at: int)
    ensures
        0 <= at < bytes.len() && bytes[at] == mark && (forall|j: int|
            at < j < bytes.len() ==> #[trigger] bytes[j] != mark) ==> tail_start(bytes, mark) == at
            + 1,
        tail_start(bytes, mark) <= bytes.len(),
        tail_start(bytes, mark) > 0 ==> bytes[tail_start(bytes, mark) - 1] == mark,
        forall|j: int|
            tail_start(bytes, mark) <= j < bytes.len() ==> #[trigger] bytes[j] != mark,
    decreases bytes.len(),
{
    if bytes.len() > 0 {
        let before = bytes.drop_last();
        lemma_tail_starts_behind_the_last_mark(before, mark, at);
        assert(forall|j: int| 0 <= j < before.len() ==> #[trigger] before[j] == bytes[j]);
        assert(forall|j: int| 0 <= j < before.len() ==> #[trigger] bytes[j] == before[j]);
        assert(bytes.last() == bytes[bytes.len() - 1]);
    }
}

/// A name's extension is what follows its last dot, unless that dot comes first; without
/// another dot there is none.
pub proof fn law_extension_follows_the_last_dot(name: Seq<u8>, dot: int)
    ensures
        0 < dot < name.len() && name[dot] == 0x2e && (forall|j: int|
            dot < j < name.len() ==> #[trigger] name[j] != 0x2e) ==> name_extension(name) == Some(
            name.subrange(dot + 1, name.len() as int),
        ),
        (forall|j: int| 0 < j < name.len() ==> #[trigger] name[j] != 0x2e) ==> name_extension(
            name,
        ) is None,
{
    lemma_tail_starts_behind_the_last_mark(name, DOT, dot);
    assert(0 < dot < name.len() ==> name.skip(dot + 1) =~= name.subrange(
        dot + 1,
        name.len() as int,
    ));
}

/// A path has the extension of its last part, and none if that is not a name or if the
/// path has no parts.
pub proof fn law_extension_is_of_the_last_part(directory: Seq<PathPart>, last: PathPart)
    ensures
        extension(Seq::<PathPart>::empty()) is None,
        !leads_to_supported_audio(Seq::<PathPart>::empty()),
        last matches PathPart::Name(name) ==> extension(directory.push(last)) == name_extension(
            name@,
        ),
        !(last is Name) ==> extension(directory.push(last)) is None && !leads_to_supported_audio(
            directory.push(last),
        ),
{
}

/// The names that are scanned are exactly those that end in `.flac`, `.mp3` or `.wav`,
/// each letter small or capital, with something before that dot.
pub proof fn law_scanned_names_end_in_three_extensions(name: Seq<u8>)
    ensures
        ({
            let n = name.len() as int;
            names_supported_audio(name) <==> {
                ||| n > 5 && name[n - 5] == 0x2e && (name[n - 4] == 0x66 || name[n - 4] == 0x46) && (
                name[n - 3] == 0x6c || name[n - 3] == 0x4c) && (name[n - 2] == 0x61 || name[n - 2]
                    == 0x41) && (name[n - 1] == 0x63 || name[n - 1] == 0x43)
                ||| n > 4 && name[n - 4] == 0x2e && (name[n - 3] == 0x6d || name[n - 3] == 0x4d) && (
                name[n - 2] == 0x70 || name[n - 2] == 0x50) && name[n - 1] == 0x33
                ||| n > 4 && name[n - 4] == 0x2e && (name[n - 3] == 0x77 || name[n - 3] == 0x57) && (
                name[n - 2] == 0x61 || name[n - 2] == 0x41) && (name[n - 1] == 0x76 || name[n - 1]
                    == 0x56)
            }
        }),
{
    let n = name.len() as int;
    reveal_strlit("flac");
    reveal_strlit("mp3");
    reveal_strlit("wav");
    lemma_tail_starts_behind_the_last_mark(name, DOT, n - 5);
    lemma_tail_starts_behind_the_last_mark(name, DOT, n - 4);
    let start = tail_start(name, DOT) as int;
    let ext = name.skip(start);
    if start == n - 4 {
        assert(ext[0] == name[n - 4] && ext[1] == name[n - 3] && ext[2] == name[n - 2] && ext[3]
            == name[n - 1]);
    }
    if start == n - 3 {
        assert(ext[0] == name[n - 3] && ext[1] == name[n - 2] && ext[2] == name[n - 1]);
    }
}

} // verus!
