//! What is remembered of a track between runs, keyed by its signature.

use vstd::prelude::*;

use crate::hex_text::{
    bytes_of, decode_signature, encode_signature, hex_of, is_signature_text, law_hex_reads_back,
};
use crate::track::{Measurement, Real32, Signature, TrackResult};

verus! {

/// What is remembered of one track.
#[derive(Debug, Clone, Copy, PartialEq, Eq, Structural)]
pub struct CacheEntry {
    /// The integrated loudness that was measured.
    pub raw_lufs: Real32,
    /// The highest sample of any channel.
    pub peak: Real32,
    /// The offset of the last successful write of the file's tags. A run with the same
    /// offset does not write them again.
    pub last_applied_offset: Option<Real32>,
}

/// The entries of all tracks, in ascending order of their signatures.
#[derive(Debug)]
pub struct GlobalCache {
    entries: Vec<(Signature, CacheEntry)>,
}

/// The lexicographic order of two byte strings of one length.
spec fn precedes(a: Seq<u8>, b: Seq<u8>) -> bool {
    exists|i: int|
        0 <= i < a.len() && #[trigger] a[i] < b[i] && forall|j: int| 0 <= j < i ==> a[j] == b[j]
}

spec fn ascending(entries: Seq<(Signature, CacheEntry)>) -> bool {
    forall|i: int, j: int|
        0 <= i < j < entries.len() ==> precedes(
            (#[trigger] entries[i]).0@,
            (#[trigger] entries[j]).0@,
        )
}

spec fn has_entry(entries: Seq<(Signature, CacheEntry)>, key: Seq<u8>, i: int) -> bool {
    0 <= i < entries.len() && entries[i].0@ == key
}

spec fn contents(entries: Seq<(Signature, CacheEntry)>) -> Map<Seq<u8>, CacheEntry> {
    Map::new(
        |key: Seq<u8>| exists|i: int| has_entry(entries, key, i),
        |key: Seq<u8>| entries[choose|i: int| has_entry(entries, key, i)].1,
    )
}

proof fn lemma_precedes_irreflexive(a: Seq<u8>)
    ensures
        !precedes(a, a),
{
}

proof fn lemma_precedes_transitive(a: Seq<u8>, b: Seq<u8>, c: Seq<u8>)
    requires
        a.len() == b.len() == c.len(),
        precedes(a, b),
        precedes(b, c),
    ensures
        precedes(a, c),
{
    let i = choose|i: int|
        0 <= i < a.len() && #[trigger] a[i] < b[i] && forall|j: int| 0 <= j < i ==> a[j] == b[j];
    let k = choose|k: int|
        0 <= k < b.len() && #[trigger] b[k] < c[k] && forall|j: int| 0 <= j < k ==> b[j] == c[j];
    let m = if i < k {
        i
    } else {
        k
    };
    assert(a[m] < c[m]);
    assert forall|j: int| 0 <= j < m implies a[j] == c[j] by {
        assert(a[j] == b[j] && b[j] == c[j]);
    }
}

/// In ascending entries a key stands at one place only.
proof fn lemma_entry_at(entries: Seq<(Signature, CacheEntry)>, i: int)
    requires
        ascending(entries),
        0 <= i < entries.len(),
    ensures
        contents(entries).contains_key(entries[i].0@),
        contents(entries)[entries[i].0@] == entries[i].1,
{
    let key = entries[i].0@;
    assert(has_entry(entries, key, i));
    let k = choose|k: int| has_entry(entries, key, k);
    lemma_precedes_irreflexive(key);
    if k < i {
        assert(precedes(entries[k].0@, entries[i].0@));
    } else if i < k {
        assert(precedes(entries[i].0@, entries[k].0@));
    }
}

impl View for GlobalCache {
    type V = Map<Seq<u8>, CacheEntry>;

    closed spec fn view(&self) -> Map<Seq<u8>, CacheEntry> {
        contents(self.entries@)
    }
}

/// Where a signature stands among the entries, or where it would go.
struct Slot {
    at: usize,
    found: bool,
}

fn first_difference(a: &Signature, b: &Signature) -> (place: usize)
    ensures
        place <= 32,
        forall|j: int| 0 <= j < place ==> a@[j] == b@[j],
        place < 32 ==> a@[place as int] != b@[place as int],
        place == 32 ==> a@ == b@,
{
    let mut place: usize = 0;
    while place < 32 && a[place] == b[place]
        invariant
            place <= 32,
            forall|j: int| 0 <= j < place ==> a@[j] == b@[j],
        decreases 32 - place,
    {
        place = place + 1;
    }
    assert(place == 32 ==> a@ =~= b@);
    place
}

impl GlobalCache {
    #[verifier::type_invariant]
    spec fn in_order(self) -> bool {
        ascending(self.entries@)
    }

    /// A cache that remembers nothing.
    pub fn new() -> (cache: GlobalCache)
        ensures
            cache@ == Map::<Seq<u8>, CacheEntry>::empty(),
    {
        let cache = GlobalCache { entries: Vec::new() };
        assert(cache@ =~= Map::<Seq<u8>, CacheEntry>::empty());
        cache
    }

    fn find(&self, signature: &Signature) -> (slot: Slot)
        ensures
            slot.at <= self.entries@.len(),
            slot.found ==> slot.at < self.entries@.len() && self.entries@[slot.at as int].0@
                == signature@,
            !slot.found ==> forall|i: int|
                0 <= i < slot.at ==> precedes((#[trigger] self.entries@[i]).0@, signature@),
            !slot.found ==> forall|i: int|
                slot.at <= i < self.entries@.len() ==> precedes(
                    signature@,
                    (#[trigger] self.entries@[i]).0@,
                ),
    {
        proof {
            use_type_invariant(self);
        }
        let mut low: usize = 0;
        let mut high: usize = self.entries.len();
        while low < high
            invariant
                low <= high <= self.entries@.len(),
                ascending(self.entries@),
                forall|i: int|
                    0 <= i < low ==> precedes((#[trigger] self.entries@[i]).0@, signature@),
                forall|i: int|
                    high <= i < self.entries@.len() ==> precedes(
                        signature@,
                        (#[trigger] self.entries@[i]).0@,
                    ),
            decreases high - low,
        {
            let middle: usize = low + (high - low) / 2;
            let place = first_difference(&self.entries[middle].0, signature);
            let ghost key = self.entries@[middle as int].0@;
            if place == 32 {
                return Slot { at: middle, found: true };
            }
            if self.entries[middle].0[place] < signature[place] {
                assert(precedes(key, signature@)) by {
                    assert(key[place as int] < signature@[place as int]);
                }
                assert forall|i: int| 0 <= i < middle + 1 implies precedes(
                    (#[trigger] self.entries@[i]).0@,
                    signature@,
                ) by {
                    if i < middle {
                        lemma_precedes_transitive(self.entries@[i].0@, key, signature@);
                    }
                }
                low = middle + 1;
            } else {
                assert(precedes(signature@, key)) by {
                    assert(signature@[place as int] < key[place as int]);
                }
                assert forall|i: int| middle <= i < self.entries@.len() implies precedes(
                    signature@,
                    (#[trigger] self.entries@[i]).0@,
                ) by {
                    if i > middle {
                        lemma_precedes_transitive(signature@, key, self.entries@[i].0@);
                    }
                }
                high = middle;
            }
        }
        Slot { at: low, found: false }
    }

    proof fn lemma_slot(self, signature: Signature, slot: Slot)
        requires
            ascending(self.entries@),
            slot.at <= self.entries@.len(),
            slot.found ==> slot.at < self.entries@.len() && self.entries@[slot.at as int].0@
                == signature@,
            !slot.found ==> forall|i: int|
                0 <= i < slot.at ==> precedes((#[trigger] self.entries@[i]).0@, signature@),
            !slot.found ==> forall|i: int|
                slot.at <= i < self.entries@.len() ==> precedes(
                    signature@,
                    (#[trigger] self.entries@[i]).0@,
                ),
        ensures
            slot.found == self@.contains_key(signature@),
            slot.found ==> self@[signature@] == self.entries@[slot.at as int].1,
    {
        if slot.found {
            lemma_entry_at(self.entries@, slot.at as int);
        } else if self@.contains_key(signature@) {
            let i = choose|i: int| has_entry(self.entries@, signature@, i);
            lemma_precedes_irreflexive(signature@);
            assert(precedes(self.entries@[i].0@, signature@) || precedes(
                signature@,
                self.entries@[i].0@,
            ));
        }
    }

    /// What is remembered under a signature.
    pub fn get(&self, signature: &Signature) -> (entry: Option<CacheEntry>)
        ensures
            entry == if self@.contains_key(signature@) {
                Some(self@[signature@])
            } else {
                None
            },
    {
        let slot = self.find(signature);
        proof {
            use_type_invariant(self);
            self.lemma_slot(*signature, slot);
        }
        if slot.found {
            Some(self.entries[slot.at].1)
        } else {
            None
        }
    }

    /// Remembers an entry under a signature, in place of what was remembered there.
    pub fn insert(&mut self, signature: Signature, entry: CacheEntry)
        ensures
            final(self)@ == old(self)@.insert(signature@, entry),
    {
        let slot = self.find(&signature);
        proof {
            use_type_invariant(&*self);
            self.lemma_slot(signature, slot);
        }
        let ghost before = self.entries@;
        let mut entries: Vec<(Signature, CacheEntry)> = Vec::new();
        std::mem::swap(&mut entries, &mut self.entries);
        if slot.found {
            entries.set(slot.at, (signature, entry));
        } else {
            entries.insert(slot.at, (signature, entry));
        }
        let ghost after = entries@;
        let ghost at = slot.at as int;
        assert(ascending(after)) by {
            assert forall|i: int, j: int| 0 <= i < j < after.len() implies precedes(
                (#[trigger] after[i]).0@,
                (#[trigger] after[j]).0@,
            ) by {
                if slot.found {
                    assert(after[i].0@ == before[i].0@);
                    assert(after[j].0@ == before[j].0@);
                } else {
                    let p = if i < at {
                        i
                    } else {
                        i - 1
                    };
                    let q = if j < at {
                        j
                    } else {
                        j - 1
                    };
                    if i != at {
                        assert(after[i] == before[p]);
                    }
                    if j != at {
                        assert(after[j] == before[q]);
                    }
                }
            }
        }
        proof {
            Self::lemma_inserted(before, after, slot, signature, entry);
        }
        self.entries = entries;
    }

    proof fn lemma_inserted(
        before: Seq<(Signature, CacheEntry)>,
        after: Seq<(Signature, CacheEntry)>,
        slot: Slot,
        signature: Signature,
        entry: CacheEntry,
    )
        requires
            ascending(before),
            ascending(after),
            slot.at <= before.len(),
            slot.found ==> slot.at < before.len() && before[slot.at as int].0@ == signature@,
            after == if slot.found {
                before.update(slot.at as int, (signature, entry))
            } else {
                before.insert(slot.at as int, (signature, entry))
            },
        ensures
            contents(after) == contents(before).insert(signature@, entry),
    {
        let at = slot.at as int;
        let wanted = contents(before).insert(signature@, entry);
        lemma_entry_at(after, at);
        assert forall|key: Seq<u8>| #[trigger] contents(after).dom().contains(
            key,
        ) implies wanted.dom().contains(key) && contents(after)[key] == wanted[key] by {
            let i = choose|i: int| has_entry(after, key, i);
            lemma_entry_at(after, i);
            if key != signature@ {
                let p = if slot.found || i < at {
                    i
                } else {
                    i - 1
                };
                assert(after[i] == before[p]);
                lemma_entry_at(before, p);
            }
        }
        assert forall|key: Seq<u8>| #[trigger] wanted.dom().contains(key) implies contents(
            after,
        ).dom().contains(key) by {
            if key != signature@ {
                let p = choose|p: int| has_entry(before, key, p);
                let i = if slot.found || p < at {
                    p
                } else {
                    p + 1
                };
                assert(after[i] == before[p]);
                lemma_entry_at(after, i);
            }
        }
        assert(contents(after) =~= wanted);
    }
}

/// What is remembered of a track that was just measured and never written.
pub open spec fn fresh_entry(track: TrackResult) -> CacheEntry {
    CacheEntry { raw_lufs: track.raw_lufs, peak: track.peak, last_applied_offset: None }
}

/// A cache's contents once tracks were measured: each track not remembered yet is
/// remembered from its first measurement, and nothing else changes.
pub open spec fn absorbed(
    contents: Map<Seq<u8>, CacheEntry>,
    tracks: Seq<TrackResult>,
) -> Map<Seq<u8>, CacheEntry>
    decreases tracks.len(),
{
    if tracks.len() == 0 {
        contents
    } else {
        let before = absorbed(contents, tracks.drop_last());
        let key = tracks.last().signature@;
        if before.contains_key(key) {
            before
        } else {
            before.insert(key, fresh_entry(tracks.last()))
        }
    }
}

/// Whether one of the signatures is `key`.
pub open spec fn names_key(signatures: Seq<Signature>, key: Seq<u8>) -> bool {
    exists|i: int| 0 <= i < signatures.len() && (#[trigger] signatures[i])@ == key
}

/// A cache's contents once the tags of tracks were written with an offset.
pub open spec fn applied(
    contents: Map<Seq<u8>, CacheEntry>,
    written: Seq<Signature>,
    offset: Option<Real32>,
) -> Map<Seq<u8>, CacheEntry> {
    Map::new(
        |key: Seq<u8>| contents.contains_key(key),
        |key: Seq<u8>|
            if names_key(written, key) {
                CacheEntry { last_applied_offset: offset, ..contents[key] }
            } else {
                contents[key]
            },
    )
}

/// Whether a track's tags have to be written: they have not been written yet with an
/// offset that is the same number.
pub open spec fn write_needed(
    contents: Map<Seq<u8>, CacheEntry>,
    key: Seq<u8>,
    offset: Option<Real32>,
) -> bool {
    !(contents.contains_key(key) && match (contents[key].last_applied_offset, offset) {
        (Some(last), Some(offset)) => last.same_number(offset),
        _ => false,
    })
}

/// Whether `members` are exactly a cache's contents, each under its signature's text,
/// in any order.
pub open spec fn lists(
    members: Seq<(String, CacheEntry)>,
    contents: Map<Seq<u8>, CacheEntry>,
) -> bool {
    &&& forall|i: int|
        0 <= i < members.len() ==> is_signature_text((#[trigger] members[i]).0@)
            && contents.contains_key(bytes_of(members[i].0@)) && contents[bytes_of(
            members[i].0@,
        )] == members[i].1 && members[i].0@ == hex_of(bytes_of(members[i].0@))
    &&& forall|key: Seq<u8>| #[trigger]
        contents.contains_key(key) ==> exists|i: int|
            0 <= i < members.len() && (#[trigger] members[i]).0@ == hex_of(key)
    &&& forall|i: int, j: int|
        0 <= i < j < members.len() ==> (#[trigger] members[i]).0@ != (#[trigger] members[j]).0@
}

/// Whether every member is named by a signature.
pub open spec fn well_named(members: Seq<(String, CacheEntry)>) -> bool {
    forall|i: int| 0 <= i < members.len() ==> is_signature_text((#[trigger] members[i]).0@)
}

/// The contents that well-named members make up, a later one in place of an earlier one.
pub open spec fn gathered(members: Seq<(String, CacheEntry)>) -> Map<Seq<u8>, CacheEntry>
    decreases members.len(),
{
    if members.len() == 0 {
        Map::empty()
    } else {
        let (name, entry) = members.last();
        gathered(members.drop_last()).insert(bytes_of(name@), entry)
    }
}

/// The contents that the members of a stored cache restore: all of them, or nothing if
/// one of them is not named by a signature.
pub open spec fn restored(members: Seq<(String, CacheEntry)>) -> Map<Seq<u8>, CacheEntry> {
    if well_named(members) {
        gathered(members)
    } else {
        Map::empty()
    }
}

impl GlobalCache {
    /// Remembers the tracks that were measured. What is remembered already stays.
    pub fn absorb(&mut self, tracks: &Vec<TrackResult>)
        ensures
            final(self)@ == absorbed(old(self)@, tracks@),
    {
        let ghost before = self@;
        let mut i: usize = 0;
        assert(tracks@.take(0) =~= Seq::<TrackResult>::empty());
        while i < tracks.len()
            invariant
                i <= tracks@.len(),
                self@ == absorbed(before, tracks@.take(i as int)),
            decreases tracks@.len() - i,
        {
            assert(tracks@.take(i + 1).drop_last() =~= tracks@.take(i as int));
            let track = &tracks[i];
            if self.get(&track.signature).is_none() {
                self.insert(
                    track.signature,
                    CacheEntry {
                        raw_lufs: track.raw_lufs,
                        peak: track.peak,
                        last_applied_offset: None,
                    },
                );
            }
            i = i + 1;
        }
        assert(tracks@.take(tracks@.len() as int) =~= tracks@);
    }

    /// Notes the offset with which the tags of these tracks were written.
    pub fn mark_applied(&mut self, written: &Vec<Signature>, offset: Option<Real32>)
        ensures
            final(self)@ == applied(old(self)@, written@, offset),
    {
        let ghost before = self@;
        let mut i: usize = 0;
        assert(self@ =~= applied(before, written@.take(0), offset));
        while i < written.len()
            invariant
                i <= written@.len(),
                self@ == applied(before, written@.take(i as int), offset),
            decreases written@.len() - i,
        {
            let signature = written[i];
            let ghost done = written@.take(i as int);
            let ghost more = written@.take(i + 1);
            assert forall|key: Seq<u8>| #[trigger] names_key(more, key) == (names_key(done, key)
                || key == signature@) by {
                if names_key(done, key) {
                    let j = choose|j: int| 0 <= j < done.len() && (#[trigger] done[j])@ == key;
                    assert(more[j]@ == key);
                }
                if key == signature@ {
                    assert(more[i as int]@ == key);
                }
                if names_key(more, key) {
                    let j = choose|j: int| 0 <= j < more.len() && (#[trigger] more[j])@ == key;
                    if j < i {
                        assert(done[j]@ == key);
                    }
                }
            }
            if let Some(entry) = self.get(&signature) {
                self.insert(signature, CacheEntry { last_applied_offset: offset, ..entry });
            }
            assert(self@ =~= applied(before, more, offset));
            i = i + 1;
        }
        assert(written@.take(written@.len() as int) =~= written@);
    }

    /// Whether a track's tags have to be written in a run with this offset. Without an
    /// offset they always are: an entry does not tell tags that were written without one
    /// from tags that were never written.
    pub fn needs_write(&self, signature: &Signature, offset: Option<Real32>) -> (needed: bool)
        ensures
            needed == write_needed(self@, signature@, offset),
    {
        match (self.get(signature), offset) {
            (Some(entry), Some(offset)) => match entry.last_applied_offset {
                Some(last) => !last.equals(offset),
                None => true,
            },
            _ => true,
        }
    }

    /// What a scan found out about a file in a run with this cache and offset.
    pub fn track_result(
        &self,
        path: Vec<u8>,
        signature: Signature,
        measurement: Measurement,
        offset: Option<Real32>,
    ) -> (track: TrackResult)
        ensures
            track == (TrackResult {
                path,
                signature,
                raw_lufs: measurement.raw_lufs,
                track_gain: measurement.track_gain,
                peak: measurement.peak,
                needs_write: write_needed(self@, signature@, offset),
            }),
    {
        let needs_write = self.needs_write(&signature, offset);
        TrackResult {
            path,
            signature,
            raw_lufs: measurement.raw_lufs,
            track_gain: measurement.track_gain,
            peak: measurement.peak,
            needs_write,
        }
    }

    /// The contents as the members of an object, each under its signature's text.
    pub fn members(&self) -> (members: Vec<(String, CacheEntry)>)
        ensures
            lists(members@, self@),
    {
        proof {
            use_type_invariant(self);
        }
        let mut members: Vec<(String, CacheEntry)> = Vec::new();
        let mut i: usize = 0;
        while i < self.entries.len()
            invariant
                i <= self.entries@.len(),
                members@.len() == i,
                forall|j: int|
                    0 <= j < i ==> (#[trigger] members@[j]).0@ == hex_of(self.entries@[j].0@)
                        && members@[j].1 == self.entries@[j].1,
            decreases self.entries@.len() - i,
        {
            let text = encode_signature(&self.entries[i].0);
            members.push((text, self.entries[i].1));
            i = i + 1;
        }
        proof {
            self.lemma_members(members@);
        }
        members
    }

    proof fn lemma_members(self, members: Seq<(String, CacheEntry)>)
        requires
            ascending(self.entries@),
            members.len() == self.entries@.len(),
            forall|j: int|
                0 <= j < members.len() ==> (#[trigger] members[j]).0@ == hex_of(
                    self.entries@[j].0@,
                ) && members[j].1 == self.entries@[j].1,
        ensures
            lists(members, self@),
    {
        let entries = self.entries@;
        assert forall|i: int| 0 <= i < members.len() implies is_signature_text(
            (#[trigger] members[i]).0@,
        ) && self@.contains_key(bytes_of(members[i].0@)) && self@[bytes_of(members[i].0@)]
            == members[i].1 && members[i].0@ == hex_of(bytes_of(members[i].0@)) by {
            law_hex_reads_back(entries[i].0@);
            lemma_entry_at(entries, i);
        }
        assert forall|key: Seq<u8>| #[trigger] self@.contains_key(key) implies exists|i: int|
            0 <= i < members.len() && (#[trigger] members[i]).0@ == hex_of(key) by {
            let i = choose|i: int| has_entry(entries, key, i);
            assert(members[i].0@ == hex_of(key));
        }
        assert forall|i: int, j: int| 0 <= i < j < members.len() implies (#[trigger] members[i]).0@
            != (#[trigger] members[j]).0@ by {
            law_hex_reads_back(entries[i].0@);
            law_hex_reads_back(entries[j].0@);
            lemma_precedes_irreflexive(entries[i].0@);
            assert(precedes(entries[i].0@, entries[j].0@));
        }
    }

    /// Every key of a cache is as long as a signature.
    pub proof fn law_keys_are_signatures(self)
        ensures
            forall|key: Seq<u8>| #[trigger] self@.contains_key(key) ==> key.len() == 32,
    {
        assert forall|key: Seq<u8>| #[trigger] self@.contains_key(key) implies key.len() == 32 by {
            let i = choose|i: int| has_entry(self.entries@, key, i);
            assert(self.entries@[i].0@.len() == 32);
        }
    }
}

/// Restores a cache from the members of a stored one, all or nothing: a cache that could
/// not be read, or that has a member whose name is not a signature, is an empty one.
pub fn load_cache(stored: Option<Vec<(String, CacheEntry)>>) -> (cache: GlobalCache)
    ensures
        cache@ == match stored {
            Some(members) => restored(members@),
            None => Map::<Seq<u8>, CacheEntry>::empty(),
        },
        stored matches Some(members) ==> (exists|i: int|
            0 <= i < members@.len() && !is_signature_text((#[trigger] members@[i]).0@))
            ==> cache@ == Map::<Seq<u8>, CacheEntry>::empty(),
{
    let mut cache = GlobalCache::new();
    if let Some(members) = stored {
        let mut i: usize = 0;
        assert(members@.take(0) =~= Seq::<(String, CacheEntry)>::empty());
        while i < members.len()
            invariant
                stored == Some(members),
                i <= members@.len(),
                well_named(members@.take(i as int)),
                cache@ == gathered(members@.take(i as int)),
            decreases members@.len() - i,
        {
            assert(members@.take(i + 1).drop_last() =~= members@.take(i as int));
            match decode_signature(members[i].0.as_str()) {
                Some(signature) => cache.insert(signature, members[i].1),
                None => {
                    assert(!is_signature_text(members@[i as int].0@));
                    return GlobalCache::new();
                },
            }
            i = i + 1;
        }
        assert(members@.take(members@.len() as int) =~= members@);
    }
    cache
}

} // verus!
