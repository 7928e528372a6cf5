use rgain::{load_cache, CacheEntry, GlobalCache, Measurement, Real32, Signature, TrackResult};

fn number(value: f32) -> Real32 {
    Real32 { bits: value.to_bits() }
}

fn entry(loudness: f32, offset: Option<f32>) -> CacheEntry {
    CacheEntry { raw_lufs: number(loudness), peak: number(0.5), last_applied_offset: offset.map(number) }
}

fn signature(first: u8, last: u8) -> Signature {
    let mut bytes = [0xab; 32];
    bytes[0] = first;
    bytes[31] = last;
    bytes
}

fn track(signature: Signature, loudness: f32) -> TrackResult {
    TrackResult {
        path: b"a.mp3".to_vec(),
        signature,
        raw_lufs: number(loudness),
        track_gain: number(-18.0 - loudness),
        peak: number(0.75),
        needs_write: true,
    }
}

#[test]
fn entries_are_found_under_their_signature() {
    let mut cache = GlobalCache::new();
    for i in 0..100u8 {
        cache.insert(signature(i.wrapping_mul(37), i % 3), entry(f32::from(i), None));
    }
    for i in 0..100u8 {
        assert_eq!(
            cache.get(&signature(i.wrapping_mul(37), i % 3)),
            Some(entry(f32::from(i), None))
        );
    }
    assert_eq!(cache.get(&signature(1, 7)), None);
    cache.insert(signature(0, 0), entry(9.0, Some(1.0)));
    assert_eq!(cache.get(&signature(0, 0)), Some(entry(9.0, Some(1.0))));
    assert_eq!(cache.members().len(), 100);
}

#[test]
fn members_are_named_in_small_hexadecimal() {
    let mut cache = GlobalCache::new();
    cache.insert(signature(0x0f, 0xf0), entry(-9.0, None));
    let members = cache.members();
    assert_eq!(members.len(), 1);
    assert_eq!(members[0].0, format!("0f{}f0", "ab".repeat(30)));
    assert_eq!(members[0].1, entry(-9.0, None));
}

#[test]
fn a_stored_cache_is_restored() {
    let mut cache = GlobalCache::new();
    for i in 0..20u8 {
        cache.insert(signature(i, 255 - i), entry(f32::from(i), Some(f32::from(i))));
    }
    let mut members = cache.members();
    members.reverse();
    let restored = load_cache(Some(members));
    for i in 0..20u8 {
        assert_eq!(restored.get(&signature(i, 255 - i)), cache.get(&signature(i, 255 - i)));
    }
    assert_eq!(restored.members().len(), 20);
}

#[test]
fn capital_digits_are_read_too() {
    let name = format!("0F{}f0", "AB".repeat(30));
    let cache = load_cache(Some(vec![(name, entry(1.0, None))]));
    assert_eq!(cache.get(&signature(0x0f, 0xf0)), Some(entry(1.0, None)));
    assert_eq!(cache.members()[0].0, format!("0f{}f0", "ab".repeat(30)));
}

#[test]
fn a_cache_with_a_member_that_is_no_signature_is_empty() {
    let good = || ("ab".repeat(32), entry(2.0, None));
    let names = [
        String::new(),
        "ab".repeat(31),
        "ab".repeat(33),
        "a".repeat(63),
        format!("{}g", "a".repeat(63)),
        format!("{}é", "ab".repeat(31)),
        format!(" {}", "a".repeat(63)),
        "zz".to_string(),
    ];
    assert_eq!(load_cache(Some(vec![good()])).members(), vec![good()]);
    for name in names {
        let bad = || (name.clone(), entry(1.0, None));
        assert_eq!(load_cache(Some(vec![good(), bad()])).members(), vec![]);
        assert_eq!(load_cache(Some(vec![bad(), good()])).members(), vec![]);
    }
}

#[test]
fn of_two_members_with_one_signature_the_later_counts() {
    let members = vec![("ab".repeat(32), entry(1.0, None)), ("AB".repeat(32), entry(2.0, None))];
    assert_eq!(load_cache(Some(members)).get(&[0xab; 32]), Some(entry(2.0, None)));
}

#[test]
fn an_unreadable_cache_is_empty() {
    assert_eq!(load_cache(None).members(), vec![]);
    assert_eq!(load_cache(Some(vec![])).members(), vec![]);
}

#[test]
fn measured_tracks_are_remembered_once() {
    let mut cache = GlobalCache::new();
    cache.insert(signature(1, 1), entry(-7.0, Some(2.0)));
    let tracks = vec![
        track(signature(1, 1), -20.0),
        track(signature(2, 2), -21.0),
        track(signature(2, 2), -22.0),
    ];
    cache.absorb(&tracks);
    assert_eq!(cache.get(&signature(1, 1)), Some(entry(-7.0, Some(2.0))));
    let fresh = CacheEntry { raw_lufs: number(-21.0), peak: number(0.75), last_applied_offset: None };
    assert_eq!(cache.get(&signature(2, 2)), Some(fresh));
    assert_eq!(cache.members().len(), 2);
}

#[test]
fn written_tracks_are_marked_with_the_offset() {
    let mut cache = GlobalCache::new();
    cache.insert(signature(1, 1), entry(-7.0, None));
    cache.insert(signature(2, 2), entry(-8.0, Some(1.0)));
    cache.mark_applied(&vec![signature(1, 1), signature(3, 3)], Some(number(2.5)));
    assert_eq!(cache.get(&signature(1, 1)), Some(entry(-7.0, Some(2.5))));
    assert_eq!(cache.get(&signature(2, 2)), Some(entry(-8.0, Some(1.0))));
    assert_eq!(cache.get(&signature(3, 3)), None);
    cache.mark_applied(&vec![signature(1, 1)], None);
    assert_eq!(cache.get(&signature(1, 1)), Some(entry(-7.0, None)));
}

#[test]
fn a_result_asks_for_the_write_that_the_cache_does_not_know_of() {
    let mut cache = GlobalCache::new();
    cache.insert(signature(5, 5), entry(-12.0, Some(1.0)));
    let measurement =
        Measurement { raw_lufs: number(-12.0), track_gain: number(-6.0), peak: number(0.25) };
    let result = |key, offset: f32| {
        cache.track_result(b"b.wav".to_vec(), key, measurement, Some(number(offset)))
    };
    let known = result(signature(5, 5), 1.0);
    assert_eq!((known.path.as_slice(), known.signature), (&b"b.wav"[..], signature(5, 5)));
    assert_eq!(known.raw_lufs, number(-12.0));
    assert_eq!((known.track_gain, known.peak), (number(-6.0), number(0.25)));
    assert!(!known.needs_write);
    assert!(result(signature(5, 5), 1.5).needs_write);
    assert!(result(signature(5, 6), 1.0).needs_write);
}

#[test]
fn the_same_offset_is_not_written_again() {
    let mut cache = GlobalCache::new();
    let key = signature(4, 4);
    assert!(cache.needs_write(&key, Some(number(1.0))));
    cache.absorb(&vec![track(key, -14.0)]);
    assert!(cache.needs_write(&key, Some(number(1.0))));
    cache.mark_applied(&vec![key], Some(number(1.0)));
    assert!(!cache.needs_write(&key, Some(number(1.0))));
    assert!(!load_cache(Some(cache.members())).needs_write(&key, Some(number(1.0))));
    assert!(cache.needs_write(&key, Some(number(1.5))));
    assert!(cache.needs_write(&key, None));
    cache.mark_applied(&vec![key], Some(number(-0.0)));
    assert!(!cache.needs_write(&key, Some(number(0.0))));
    cache.mark_applied(&vec![key], Some(number(f32::NAN)));
    assert!(cache.needs_write(&key, Some(number(f32::NAN))));
}
