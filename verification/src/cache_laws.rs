//! What holds of the cache across operations and runs.

use vstd::prelude::*;

use crate::cache::{
    absorbed, applied, fresh_entry, gathered, lists, names_key, restored, well_named, write_needed,
    CacheEntry,
};
use crate::hex_text::{bytes_of, hex_of, is_signature_text, law_hex_reads_back};
use crate::track::{Real32, Signature, TrackResult};

verus! {

/// What a member contributes, given that no later member has its signature.
proof fn lemma_gathered_member(members: Seq<(String, CacheEntry)>, i: int)
    requires
        0 <= i < members.len(),
        forall|j: int|
            i < j < members.len() ==> bytes_of((#[trigger] members[j]).0@) != bytes_of(
                members[i].0@,
            ),
    ensures
        gathered(members).contains_key(bytes_of(members[i].0@)),
        gathered(members)[bytes_of(members[i].0@)] == members[i].1,
    decreases members.len(),
{
    let last = members.len() - 1;
    if i < last {
        let before = members.drop_last();
        assert(before[i] == members[i]);
        assert(forall|j: int| 0 <= j < before.len() ==> before[j] == members[j]);
        lemma_gathered_member(before, i);
        assert(members.last() == members[last]);
    }
}

/// A gathered key comes from some member.
proof fn lemma_gathered_key(members: Seq<(String, CacheEntry)>, key: Seq<u8>) -> (i: int)
    requires
        gathered(members).contains_key(key),
    ensures
        0 <= i < members.len(),
        bytes_of(members[i].0@) == key,
    decreases members.len(),
{
    if bytes_of(members.last().0@) == key {
        members.len() - 1
    } else {
        lemma_gathered_key(members.drop_last(), key)
    }
}

/// Loading is all or nothing: if one member of a stored cache is not named by a
/// signature, nothing of it is restored; otherwise every member is, the last one of
/// those with one signature.
pub proof fn law_loading_is_all_or_nothing(members: Seq<(String, CacheEntry)>, i: int)
    requires
        0 <= i < members.len(),
    ensures
        !is_signature_text(members[i].0@) ==> restored(members) == Map::<
            Seq<u8>,
            CacheEntry,
        >::empty(),
        well_named(members) <==> forall|j: int|
            0 <= j < members.len() ==> is_signature_text((#[trigger] members[j]).0@),
        well_named(members) ==> restored(members).contains_key(bytes_of(members[i].0@)),
        well_named(members) && (forall|j: int|
            i < j < members.len() ==> bytes_of((#[trigger] members[j]).0@) != bytes_of(
                members[i].0@,
            )) ==> restored(members)[bytes_of(members[i].0@)] == members[i].1,
{
    lemma_gathered_has_key(members, i);
    if forall|j: int|
        i < j < members.len() ==> bytes_of((#[trigger] members[j]).0@) != bytes_of(members[i].0@) {
        lemma_gathered_member(members, i);
    }
}

proof fn lemma_gathered_has_key(members: Seq<(String, CacheEntry)>, i: int)
    requires
        0 <= i < members.len(),
    ensures
        gathered(members).contains_key(bytes_of(members[i].0@)),
    decreases members.len(),
{
    if i < members.len() - 1 {
        lemma_gathered_has_key(members.drop_last(), i);
    }
}

/// A cache that was stored is restored as it was, in whatever order its members come
/// back.
pub proof fn law_stored_cache_is_restored(
    contents: Map<Seq<u8>, CacheEntry>,
    members: Seq<(String, CacheEntry)>,
)
    requires
        forall|key: Seq<u8>| #[trigger] contents.contains_key(key) ==> key.len() == 32,
        lists(members, contents),
    ensures
        restored(members) == contents,
{
    assert forall|i: int, j: int| 0 <= i < j < members.len() implies bytes_of(
        (#[trigger] members[i]).0@,
    ) != bytes_of((#[trigger] members[j]).0@) by {
        assert(members[i].0@ == hex_of(bytes_of(members[i].0@)));
        assert(members[j].0@ == hex_of(bytes_of(members[j].0@)));
    }
    assert forall|key: Seq<u8>| #[trigger] restored(members).dom().contains(
        key,
    ) implies contents.dom().contains(key) && restored(members)[key] == contents[key] by {
        let i = lemma_gathered_key(members, key);
        lemma_gathered_member(members, i);
        assert(contents.contains_key(bytes_of(members[i].0@)));
    }
    assert forall|key: Seq<u8>| #[trigger] contents.dom().contains(key) implies restored(
        members,
    ).dom().contains(key) by {
        assert(contents.contains_key(key));
        let i = choose|i: int| 0 <= i < members.len() && (#[trigger] members[i]).0@ == hex_of(key);
        law_hex_reads_back(key);
        lemma_gathered_member(members, i);
    }
    assert(restored(members) =~= contents);
}

/// Whether one of the tracks has the signature `key`.
pub open spec fn measured(tracks: Seq<TrackResult>, key: Seq<u8>) -> bool {
    exists|i: int| 0 <= i < tracks.len() && (#[trigger] tracks[i]).signature@ == key
}

/// Measuring tracks again never changes what is remembered of them.
pub proof fn law_remembered_entries_stay(
    contents: Map<Seq<u8>, CacheEntry>,
    tracks: Seq<TrackResult>,
    key: Seq<u8>,
)
    requires
        contents.contains_key(key),
    ensures
        absorbed(contents, tracks).contains_key(key),
        absorbed(contents, tracks)[key] == contents[key],
    decreases tracks.len(),
{
    if tracks.len() > 0 {
        law_remembered_entries_stay(contents, tracks.drop_last(), key);
    }
}

/// After a scan exactly the tracks remembered before and the tracks measured are
/// remembered.
pub proof fn law_measured_tracks_are_remembered(
    contents: Map<Seq<u8>, CacheEntry>,
    tracks: Seq<TrackResult>,
    key: Seq<u8>,
)
    ensures
        absorbed(contents, tracks).contains_key(key) <==> contents.contains_key(key) || measured(
            tracks,
            key,
        ),
        measured(tracks, key) <==> exists|i: int|
            0 <= i < tracks.len() && (#[trigger] tracks[i]).signature@ == key,
    decreases tracks.len(),
{
    if tracks.len() > 0 {
        let before = tracks.drop_last();
        law_measured_tracks_are_remembered(contents, before, key);
        if measured(before, key) {
            let i = choose|i: int| 0 <= i < before.len() && (#[trigger] before[i]).signature@
                == key;
            assert(tracks[i].signature@ == key);
        }
        if tracks.last().signature@ == key {
            assert(tracks[tracks.len() - 1].signature@ == key);
        }
        if measured(tracks, key) {
            let i = choose|i: int| 0 <= i < tracks.len() && (#[trigger] tracks[i]).signature@
                == key;
            if i < before.len() {
                assert(before[i].signature@ == key);
            }
        }
    }
}

/// A track that was not remembered is remembered with the loudness and the peak of its
/// first measurement, as never written.
pub proof fn law_first_measurement_counts(
    contents: Map<Seq<u8>, CacheEntry>,
    tracks: Seq<TrackResult>,
    first: int,
)
    requires
        0 <= first < tracks.len(),
        !contents.contains_key(tracks[first].signature@),
        forall|i: int|
            0 <= i < first ==> (#[trigger] tracks[i]).signature@ != tracks[first].signature@,
    ensures
        absorbed(contents, tracks).contains_key(tracks[first].signature@),
        absorbed(contents, tracks)[tracks[first].signature@] == fresh_entry(tracks[first]),
        absorbed(contents, tracks)[tracks[first].signature@].raw_lufs == tracks[first].raw_lufs,
        absorbed(contents, tracks)[tracks[first].signature@].peak == tracks[first].peak,
        absorbed(contents, tracks)[tracks[first].signature@].last_applied_offset is None,
    decreases tracks.len(),
{
    let key = tracks[first].signature@;
    let before = tracks.drop_last();
    if first < before.len() {
        law_first_measurement_counts(contents, before, first);
    } else {
        law_measured_tracks_are_remembered(contents, before, key);
        assert(!measured(before, key)) by {
            if measured(before, key) {
                let i = choose|i: int| 0 <= i < before.len() && (#[trigger] before[i]).signature@
                    == key;
                assert(tracks[i].signature@ == key);
            }
        }
    }
}

/// A track whose tags were written with an offset is not written again in a run with
/// the same offset, also if the cache was stored and restored in between. It is
/// written again in a run with any other offset. Offsets that are not a number are
/// left out: none is the same as itself.
pub proof fn law_same_offset_is_not_written_again(
    contents: Map<Seq<u8>, CacheEntry>,
    written: Seq<Signature>,
    key: Seq<u8>,
    offset: Real32,
    next: Option<Real32>,
)
    requires
        contents.contains_key(key),
        names_key(written, key),
        !offset.is_nan(),
    ensures
        write_needed(applied(contents, written, Some(offset)), key, next) <==> !(next matches Some(
            next,
        ) && offset.same_number(next)),
        !write_needed(applied(contents, written, Some(offset)), key, Some(offset)),
        forall|members: Seq<(String, CacheEntry)>|
            (forall|k: Seq<u8>| #[trigger] contents.contains_key(k) ==> k.len() == 32)
                && #[trigger] lists(members, applied(contents, written, Some(offset)))
                ==> !write_needed(restored(members), key, Some(offset)),
{
    let marked = applied(contents, written, Some(offset));
    assert forall|members: Seq<(String, CacheEntry)>|
        (forall|k: Seq<u8>| #[trigger] contents.contains_key(k) ==> k.len() == 32)
            && #[trigger] lists(members, marked) implies !write_needed(
        restored(members),
        key,
        Some(offset),
    ) by {
        assert forall|k: Seq<u8>| #[trigger] marked.contains_key(k) implies k.len() == 32 by {
            assert(contents.contains_key(k));
        }
        law_stored_cache_is_restored(marked, members);
    }
}

/// Writing some tracks' tags leaves what is remembered of every other track as it was,
/// forgets nothing and adds nothing.
pub proof fn law_unwritten_tracks_keep_their_entry(
    contents: Map<Seq<u8>, CacheEntry>,
    written: Seq<Signature>,
    offset: Option<Real32>,
    key: Seq<u8>,
)
    ensures
        applied(contents, written, offset).dom() == contents.dom(),
        contents.contains_key(key) && !names_key(written, key) ==> applied(
            contents,
            written,
            offset,
        )[key] == contents[key],
        contents.contains_key(key) ==> applied(contents, written, offset)[key].raw_lufs
            == contents[key].raw_lufs && applied(contents, written, offset)[key].peak
            == contents[key].peak,
{
    assert(applied(contents, written, offset).dom() =~= contents.dom());
}

/// A track that was never written successfully is always written.
pub proof fn law_unwritten_tracks_are_written(
    contents: Map<Seq<u8>, CacheEntry>,
    key: Seq<u8>,
    offset: Option<Real32>,
)
    requires
        contents.contains_key(key) ==> contents[key].last_applied_offset is None,
    ensures
        write_needed(contents, key, offset),
{
}

/// Once tags were written, the entry of every remembered track that was written has the
/// run's offset, also if the run had none, and its measurement as before. Every other entry
/// stays as it was, none goes and none comes.
pub proof fn law_written_tracks_have_the_offset_of_the_run(
    contents: Map<Seq<u8>, CacheEntry>,
    written: Seq<Signature>,
    offset: Option<Real32>,
    key: Seq<u8>,
)
    ensures
        applied(contents, written, offset).contains_key(key) <==> contents.contains_key(key),
        contents.contains_key(key) && (exists|i: int|
            0 <= i < written.len() && (#[trigger] written[i])@ == key) ==> {
            let entry = applied(contents, written, offset)[key];
            &&& entry.last_applied_offset == offset
            &&& entry.raw_lufs == contents[key].raw_lufs
            &&& entry.peak == contents[key].peak
        },
        contents.contains_key(key) && (forall|i: int|
            0 <= i < written.len() ==> (#[trigger] written[i])@ != key) ==> applied(
            contents,
            written,
            offset,
        )[key] == contents[key],
{
}

/// A write is left out only if the track is remembered as written with an offset whose bits
/// are those of the run's offset, which is a number, or if both are zeros.
pub proof fn law_write_is_decided_by_the_bits_of_the_offsets(
    contents: Map<Seq<u8>, CacheEntry>,
    key: Seq<u8>,
    offset: Option<Real32>,
)
    ensures
        !contents.contains_key(key) ==> write_needed(contents, key, offset),
        offset is None ==> write_needed(contents, key, offset),
        contents[key].last_applied_offset is None ==> write_needed(contents, key, offset),
        contents.contains_key(key) ==> (offset matches Some(now) ==> (
        contents[key].last_applied_offset matches Some(last) ==> {
            &&& last.bits != now.bits && !(last.bits % 0x8000_0000 == 0 && now.bits % 0x8000_0000
                == 0) ==> write_needed(contents, key, offset)
            &&& now.bits % 0x8000_0000 > 0x7f80_0000 ==> write_needed(contents, key, offset)
            &&& last.bits == now.bits && now.bits % 0x8000_0000 <= 0x7f80_0000 ==> !write_needed(
                contents,
                key,
                offset,
            )
            &&& last.bits % 0x8000_0000 == 0 && now.bits % 0x8000_0000 == 0 ==> !write_needed(
                contents,
                key,
                offset,
            )
        })),
{
}

/// After a track's tags were written with an offset, a run with an offset of other bits
/// writes them again, unless both are zeros, and a run with the very same offset does not,
/// if it is a number. After a run without an offset the tags are always written again.
pub proof fn law_another_offset_is_written(
    contents: Map<Seq<u8>, CacheEntry>,
    written: Seq<Signature>,
    place: int,
    offset: Real32,
    next: Real32,
    any: Option<Real32>,
)
    requires
        0 <= place < written.len(),
        contents.contains_key(written[place]@),
    ensures
        offset.bits != next.bits && !((offset.bits == 0 || offset.bits == 0x8000_0000) && (next.bits
            == 0 || next.bits == 0x8000_0000)) ==> write_needed(
            applied(contents, written, Some(offset)),
            written[place]@,
            Some(next),
        ),
        offset.bits == next.bits && (offset.bits <= 0x7f80_0000 || 0x8000_0000 <= offset.bits
            <= 0xff80_0000) ==> !write_needed(
            applied(contents, written, Some(offset)),
            written[place]@,
            Some(next),
        ),
        write_needed(applied(contents, written, Some(offset)), written[place]@, None),
        write_needed(applied(contents, written, None), written[place]@, any),
{
    assert(names_key(written, written[place]@));
}

/// A stored cache has one member for every entry and no other, each named by the digits of
/// its signature, and no two of one name.
pub proof fn law_members_are_the_entries(
    members: Seq<(String, CacheEntry)>,
    contents: Map<Seq<u8>, CacheEntry>,
    i: int,
    j: int,
    key: Seq<u8>,
)
    requires
        lists(members, contents),
    ensures
        0 <= i < members.len() ==> exists|k: Seq<u8>| #[trigger]
            contents.contains_key(k) && members[i].0@ == hex_of(k) && members[i].1 == contents[k],
        contents.contains_key(key) && key.len() == 32 ==> exists|m: int|
            0 <= m < members.len() && (#[trigger] members[m]).0@ == hex_of(key) && members[m].1
                == contents[key],
        0 <= i < j < members.len() ==> members[i].0@ != members[j].0@,
{
    if 0 <= i < members.len() {
        assert(contents.contains_key(bytes_of(members[i].0@)));
    }
    if contents.contains_key(key) && key.len() == 32 {
        let m = choose|m: int| 0 <= m < members.len() && (#[trigger] members[m]).0@ == hex_of(key);
        law_hex_reads_back(key);
        assert(members[m].1 == contents[bytes_of(members[m].0@)]);
    }
}

/// What is restored comes from a member: every restored entry is that of a member with its
/// signature, and there is none unless every member is named by a signature.
pub proof fn law_restored_entries_come_from_members(
    members: Seq<(String, CacheEntry)>,
    key: Seq<u8>,
)
    requires
        restored(members).contains_key(key),
    ensures
        forall|i: int| 0 <= i < members.len() ==> is_signature_text((#[trigger] members[i]).0@),
        exists|i: int|
            0 <= i < members.len() && bytes_of((#[trigger] members[i]).0@) == key && members[i].1
                == restored(members)[key],
{
    lemma_gathered_entry(members, key);
}

proof fn lemma_gathered_entry(members: Seq<(String, CacheEntry)>, key: Seq<u8>)
    requires
        gathered(members).contains_key(key),
    ensures
        exists|i: int|
            0 <= i < members.len() && bytes_of((#[trigger] members[i]).0@) == key && members[i].1
                == gathered(members)[key],
    decreases members.len(),
{
    let before = members.drop_last();
    let last = members.len() - 1;
    if bytes_of(members.last().0@) == key {
        assert(bytes_of(members[last].0@) == key);
    } else {
        lemma_gathered_entry(before, key);
        let i = choose|i: int|
            0 <= i < before.len() && bytes_of((#[trigger] before[i]).0@) == key && before[i].1
                == gathered(before)[key];
        assert(members[i] == before[i]);
    }
}

} // verus!
