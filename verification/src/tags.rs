//! A file's tags: where the gain and the peak of a track are written.

use vstd::prelude::*;
use vstd::string::StringExecFns;

use lofty::tag::{ItemKey, ItemValue, Tag, TagItem, TagType};

verus! {

/// The tag of the `lofty` crate: a collection of items under keys.
#[verifier::external_type_specification]
#[verifier::external_body]
pub struct ExTag(Tag);

/// The items of a tag in their order, each as the name of its key and its text.
pub uninterp spec fn tag_items(tag: Tag) -> Seq<(Seq<char>, Seq<char>)>;

/// The data of a tag's pictures in their order.
pub uninterp spec fn tag_pictures(tag: Tag) -> Seq<Seq<u8>>;

/// The format of a tag: what `Tag::tag_type` gives.
pub uninterp spec fn tag_format(tag: Tag) -> TagFormat;

/// The tag formats that `lofty` knows.
#[derive(Debug, Clone, Copy, PartialEq, Eq, Structural)]
pub enum TagFormat {
    Ape,
    Id3v1,
    Id3v2,
    Mp4Ilst,
    VorbisComments,
    RiffInfo,
    AiffText,
}

/// The keys that a scan writes.
#[derive(Debug, Clone, Copy, PartialEq, Eq, Structural)]
pub enum GainKey {
    TrackGain,
    TrackPeak,
}

impl GainKey {
    /// The name of the key.
    pub open spec fn name(self) -> Seq<char> {
        match self {
            GainKey::TrackGain => "ReplayGainTrackGain"@,
            GainKey::TrackPeak => "ReplayGainTrackPeak"@,
        }
    }
}

impl TagFormat {
    /// Whether the format has a place for a track's gain and peak.
    pub open spec fn holds_gain(self) -> bool {
        self is Ape || self is Id3v2 || self is Mp4Ilst || self is VorbisComments
    }
}

/// `Tag::new` of `lofty`.
///
/// Claimed: the tag is of the format and has no items and no pictures.
#[verifier::external_body]
fn new_tag(format: TagFormat) -> (tag: Tag)
    ensures
        tag_format(tag) == format,
        tag_items(tag) == Seq::<(Seq<char>, Seq<char>)>::empty(),
        tag_pictures(tag) == Seq::<Seq<u8>>::empty(),
{
    Tag::new(match format {
        TagFormat::Ape => TagType::Ape,
        TagFormat::Id3v1 => TagType::Id3v1,
        TagFormat::Id3v2 => TagType::Id3v2,
        TagFormat::Mp4Ilst => TagType::Mp4Ilst,
        TagFormat::VorbisComments => TagType::VorbisComments,
        TagFormat::RiffInfo => TagType::RiffInfo,
        TagFormat::AiffText => TagType::AiffText,
    })
}

/// Tells whether an item is of a key.
pub open spec fn of_key(key: Seq<char>) -> spec_fn((Seq<char>, Seq<char>)) -> bool {
    |item: (Seq<char>, Seq<char>)| item.0 == key
}

/// Tells whether an item is of another key.
pub open spec fn not_of_key(key: Seq<char>) -> spec_fn((Seq<char>, Seq<char>)) -> bool {
    |item: (Seq<char>, Seq<char>)| item.0 != key
}

/// Tells whether an item is neither a gain nor a peak.
pub open spec fn other_item() -> spec_fn((Seq<char>, Seq<char>)) -> bool {
    |item: (Seq<char>, Seq<char>)|
        item.0 != GainKey::TrackGain.name() && item.0 != GainKey::TrackPeak.name()
}

/// Items with one key's items replaced by a single new one at the end.
pub open spec fn replaced(
    items: Seq<(Seq<char>, Seq<char>)>,
    key: Seq<char>,
    text: Seq<char>,
) -> Seq<(Seq<char>, Seq<char>)> {
    items.filter(not_of_key(key)).push((key, text))
}

/// `Tag::insert` of `lofty`, of a text item.
///
/// Claimed: where the tag's format has a place for the key, every item of that key goes
/// and the new item comes last; otherwise nothing changes. The tag's format and its
/// pictures stay the same.
#[verifier::external_body]
fn insert_text(tag: &mut Tag, key: GainKey, text: String)
    ensures
        tag_items(*final(tag)) == if tag_format(*old(tag)).holds_gain() {
            replaced(tag_items(*old(tag)), key.name(), text@)
        } else {
            tag_items(*old(tag))
        },
        tag_format(*final(tag)) == tag_format(*old(tag)),
        tag_pictures(*final(tag)) == tag_pictures(*old(tag)),
{
    let item_key = match key {
        GainKey::TrackGain => ItemKey::ReplayGainTrackGain,
        GainKey::TrackPeak => ItemKey::ReplayGainTrackPeak,
    };
    tag.insert(TagItem::new(item_key, ItemValue::Text(text)));
}

/// The items of a tag of a format once a gain and a peak were written to it.
pub open spec fn stamped(
    items: Seq<(Seq<char>, Seq<char>)>,
    format: TagFormat,
    gain: Seq<char>,
    peak: Seq<char>,
) -> Seq<(Seq<char>, Seq<char>)> {
    if format.holds_gain() {
        replaced(
            replaced(items, GainKey::TrackGain.name(), gain + " dB"@),
            GainKey::TrackPeak.name(),
            peak,
        )
    } else {
        items
    }
}

/// Writes a track's gain and peak to the tag of its file, or to a new tag of the given
/// format if the file has none of it. The gain is followed by its unit.
pub fn stamp_gain(existing: Option<Tag>, format: TagFormat, gain: &str, peak: &str) -> (tag: Tag)
    ensures
        match existing {
            Some(existing) => {
                &&& tag_items(tag) == stamped(
                    tag_items(existing),
                    tag_format(existing),
                    gain@,
                    peak@,
                )
                &&& tag_format(tag) == tag_format(existing)
                &&& tag_pictures(tag) == tag_pictures(existing)
            },
            None => {
                &&& tag_format(tag) == format
                &&& tag_pictures(tag) == Seq::<Seq<u8>>::empty()
                &&& tag_items(tag) == if format.holds_gain() {
                    seq![
                        (GainKey::TrackGain.name(), gain@ + " dB"@),
                        (GainKey::TrackPeak.name(), peak@),
                    ]
                } else {
                    Seq::empty()
                }
            },
        },
{
    let fresh = existing.is_none();
    let mut tag = match existing {
        Some(tag) => tag,
        None => new_tag(format),
    };
    insert_text(&mut tag, GainKey::TrackGain, gain.to_owned().concat(" dB"));
    insert_text(&mut tag, GainKey::TrackPeak, peak.to_owned());
    proof {
        if fresh && format.holds_gain() {
            lemma_fresh_stamp(gain@ + " dB"@, peak@);
        }
    }
    tag
}

proof fn lemma_key_names()
    ensures
        GainKey::TrackGain.name() != GainKey::TrackPeak.name(),
{
    reveal_strlit("ReplayGainTrackGain");
    reveal_strlit("ReplayGainTrackPeak");
    assert("ReplayGainTrackGain"@[15] != "ReplayGainTrackPeak"@[15]);
}

proof fn lemma_fresh_stamp(gain: Seq<char>, peak: Seq<char>)
    ensures
        replaced(
            replaced(
                Seq::<(Seq<char>, Seq<char>)>::empty(),
                GainKey::TrackGain.name(),
                gain,
            ),
            GainKey::TrackPeak.name(),
            peak,
        ) == seq![(GainKey::TrackGain.name(), gain), (GainKey::TrackPeak.name(), peak)],
{
    reveal(Seq::filter);
    lemma_key_names();
    let empty = Seq::<(Seq<char>, Seq<char>)>::empty();
    let one = replaced(empty, GainKey::TrackGain.name(), gain);
    assert(one =~= seq![(GainKey::TrackGain.name(), gain)]);
    let other = not_of_key(GainKey::TrackPeak.name());
    assert(one.drop_last() =~= empty);
    assert(one.filter(other) =~= one);
}

proof fn lemma_replaced_keeps_others(
    items: Seq<(Seq<char>, Seq<char>)>,
    key: GainKey,
    text: Seq<char>,
)
    ensures
        replaced(items, key.name(), text).filter(other_item()) == items.filter(other_item()),
    decreases items.len(),
{
    reveal(Seq::filter);
    let others = other_item();
    let kept = not_of_key(key.name());
    let all = replaced(items, key.name(), text);
    assert(all.drop_last() =~= items.filter(kept));
    lemma_filter_twice(items, kept, others);
}

proof fn lemma_filter_twice<A>(items: Seq<A>, wide: spec_fn(A) -> bool, narrow: spec_fn(A) -> bool)
    requires
        forall|item: A| #[trigger] narrow(item) ==> wide(item),
    ensures
        items.filter(wide).filter(narrow) == items.filter(narrow),
    decreases items.len(),
{
    reveal(Seq::filter);
    if items.len() > 0 {
        lemma_filter_twice(items.drop_last(), wide, narrow);
        if wide(items.last()) {
            let some = items.drop_last().filter(wide);
            assert(some.push(items.last()).drop_last() =~= some);
        }
    }
}

proof fn lemma_replaced_is_single(
    items: Seq<(Seq<char>, Seq<char>)>,
    key: Seq<char>,
    text: Seq<char>,
)
    ensures
        replaced(items, key, text).filter(of_key(key)) == seq![
            (key, text),
        ],
{
    reveal(Seq::filter);
    let mine = of_key(key);
    let kept = not_of_key(key);
    let all = replaced(items, key, text);
    assert(all.drop_last() =~= items.filter(kept));
    lemma_filter_disjoint(items, kept, mine);
    assert(all.filter(mine) =~= seq![(key, text)]);
}

proof fn lemma_filter_disjoint<A>(items: Seq<A>, one: spec_fn(A) -> bool, other: spec_fn(A) -> bool)
    requires
        forall|item: A| #[trigger] one(item) ==> !other(item),
    ensures
        items.filter(one).filter(other) == Seq::<A>::empty(),
    decreases items.len(),
{
    reveal(Seq::filter);
    if items.len() > 0 {
        lemma_filter_disjoint(items.drop_last(), one, other);
        if one(items.last()) {
            let some = items.drop_last().filter(one);
            assert(some.push(items.last()).drop_last() =~= some);
        }
    }
}

/// Writing a gain and a peak leaves every other item of a tag where it was, in the
/// same order. In a format with a place for them the tag then has exactly one gain,
/// with its unit, and exactly one peak, whatever it had before.
pub proof fn law_stamp_replaces_only_the_gain(
    items: Seq<(Seq<char>, Seq<char>)>,
    format: TagFormat,
    gain: Seq<char>,
    peak: Seq<char>,
)
    ensures
        stamped(items, format, gain, peak).filter(other_item()) == items.filter(other_item()),
        format.holds_gain() ==> stamped(items, format, gain, peak).filter(
            of_key(GainKey::TrackGain.name()),
        ) == seq![(GainKey::TrackGain.name(), gain + " dB"@)],
        format.holds_gain() ==> stamped(items, format, gain, peak).filter(
            of_key(GainKey::TrackPeak.name()),
        ) == seq![(GainKey::TrackPeak.name(), peak)],
{
    reveal(Seq::filter);
    lemma_key_names();
    let first = GainKey::TrackGain.name();
    let second = GainKey::TrackPeak.name();
    let with_gain = replaced(items, first, gain + " dB"@);
    lemma_replaced_keeps_others(items, GainKey::TrackGain, gain + " dB"@);
    lemma_replaced_keeps_others(with_gain, GainKey::TrackPeak, peak);
    lemma_replaced_is_single(items, first, gain + " dB"@);
    lemma_replaced_is_single(with_gain, second, peak);
    let is_gain = of_key(first);
    let kept = not_of_key(second);
    let all = replaced(with_gain, second, peak);
    assert(all.drop_last() =~= with_gain.filter(kept));
    lemma_filter_twice(with_gain, kept, is_gain);
    assert(all.filter(is_gain) =~= with_gain.filter(is_gain));
}

/// The formats with a place for the gain are APE, ID3v2, MP4 and Vorbis comments; the keys
/// are those of the track, not of the album.
pub proof fn law_formats_and_keys()
    ensures
        forall|format: TagFormat|
            #![auto]
            format.holds_gain() <==> !(format is Id3v1) && !(format is RiffInfo) && !(
            format is AiffText),
        GainKey::TrackGain.name() == "ReplayGainTrackGain"@,
        GainKey::TrackPeak.name() == "ReplayGainTrackPeak"@,
{
}

proof fn lemma_filter_both(
    items: Seq<(Seq<char>, Seq<char>)>,
    first: Seq<char>,
    second: Seq<char>,
    both: spec_fn((Seq<char>, Seq<char>)) -> bool,
)
    requires
        forall|item: (Seq<char>, Seq<char>)| #[trigger]
            both(item) <==> item.0 != first && item.0 != second,
    ensures
        items.filter(not_of_key(first)).filter(not_of_key(second)) == items.filter(both),
    decreases items.len(),
{
    reveal(Seq::filter);
    if items.len() > 0 {
        lemma_filter_both(items.drop_last(), first, second, both);
        let some = items.drop_last().filter(not_of_key(first));
        assert(some.push(items.last()).drop_last() =~= some);
        assert(items.filter(not_of_key(first)).filter(not_of_key(second)) =~= items.filter(both));
    }
}

/// A stamped tag of a format with a place for the gain ends in the gain, with its unit, and
/// the peak. Before them stand the tag's items but its old gains and peaks, in their order.
/// A tag of another format keeps its items and gets none.
pub proof fn law_stamped_tag_ends_in_gain_and_peak(
    items: Seq<(Seq<char>, Seq<char>)>,
    format: TagFormat,
    gain: Seq<char>,
    peak: Seq<char>,
    kept: spec_fn((Seq<char>, Seq<char>)) -> bool,
)
    requires
        forall|item: (Seq<char>, Seq<char>)| #[trigger]
            kept(item) <==> item.0 != "ReplayGainTrackGain"@ && item.0 != "ReplayGainTrackPeak"@,
    ensures
        format is Ape || format is Id3v2 || format is Mp4Ilst || format is VorbisComments ==> {
            let tag = stamped(items, format, gain, peak);
            let n = tag.len() as int;
            &&& n >= 2
            &&& tag[n - 2] == ("ReplayGainTrackGain"@, gain + " dB"@)
            &&& tag[n - 1] == ("ReplayGainTrackPeak"@, peak)
            &&& tag.take(n - 2) == items.filter(kept)
        },
        format is Id3v1 || format is RiffInfo || format is AiffText ==> stamped(
            items,
            format,
            gain,
            peak,
        ) == items,
{
    if format.holds_gain() {
        reveal(Seq::filter);
        lemma_key_names();
        let first = GainKey::TrackGain.name();
        let second = GainKey::TrackPeak.name();
        let without = items.filter(not_of_key(first));
        let with_gain = without.push((first, gain + " dB"@));
        assert(with_gain.drop_last() =~= without);
        lemma_filter_both(items, first, second, kept);
        let tag = stamped(items, format, gain, peak);
        let others = without.filter(not_of_key(second));
        assert(with_gain.filter(not_of_key(second)) =~= others.push((first, gain + " dB"@)));
        assert(tag =~= others.push((first, gain + " dB"@)).push((second, peak)));
        assert(tag.take(tag.len() - 2) =~= others);
    }
}

} // verus!
