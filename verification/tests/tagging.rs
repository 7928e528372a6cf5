use lofty::picture::{MimeType, Picture, PictureType};
use lofty::tag::{ItemKey, ItemValue, Tag, TagItem, TagType};
use rgain::{stamp_gain, TagFormat};

#[test]
fn a_new_tag_holds_the_gain_and_the_peak() {
    let formats = [
        (TagFormat::Ape, TagType::Ape),
        (TagFormat::Id3v2, TagType::Id3v2),
        (TagFormat::Mp4Ilst, TagType::Mp4Ilst),
        (TagFormat::VorbisComments, TagType::VorbisComments),
    ];
    for (format, tag_type) in formats {
        let tag = stamp_gain(None, format, "+1.50", "0.987654");
        assert_eq!(tag.tag_type(), tag_type);
        assert_eq!(tag.item_count(), 2);
        assert_eq!(tag.get_string(ItemKey::ReplayGainTrackGain), Some("+1.50 dB"));
        assert_eq!(tag.get_string(ItemKey::ReplayGainTrackPeak), Some("0.987654"));
    }
}

#[test]
fn formats_without_a_place_for_the_gain_stay_empty() {
    let formats = [
        (TagFormat::Id3v1, TagType::Id3v1),
        (TagFormat::RiffInfo, TagType::RiffInfo),
        (TagFormat::AiffText, TagType::AiffText),
    ];
    for (format, tag_type) in formats {
        let tag = stamp_gain(None, format, "+1.50", "0.987654");
        assert_eq!(tag.tag_type(), tag_type);
        assert_eq!(tag.item_count(), 0);
    }
}

#[test]
fn an_existing_tag_keeps_its_other_items() {
    let item = |key, text: &str| TagItem::new(key, ItemValue::Text(text.to_string()));
    let mut tag = Tag::new(TagType::VorbisComments);
    tag.push(item(ItemKey::ReplayGainTrackGain, "-9.00 dB"));
    tag.push(item(ItemKey::TrackTitle, "Intro"));
    tag.push(item(ItemKey::ReplayGainTrackPeak, "1.0"));
    tag.push(item(ItemKey::ReplayGainTrackGain, "-8.00 dB"));
    tag.push(item(ItemKey::ReplayGainAlbumGain, "-7.00 dB"));
    let cover = Picture::unchecked(vec![1, 2, 3])
        .pic_type(PictureType::CoverFront)
        .mime_type(MimeType::Png)
        .build();
    tag.push_picture(cover.clone());
    let tag = stamp_gain(Some(tag), TagFormat::VorbisComments, "-2.25", "0.500000");
    assert_eq!(tag.tag_type(), TagType::VorbisComments);
    assert_eq!(tag.pictures(), [cover]);
    let items: Vec<(ItemKey, String)> = tag
        .items()
        .map(|i| (i.key(), i.value().text().unwrap_or("").to_string()))
        .collect();
    assert_eq!(
        items,
        vec![
            (ItemKey::TrackTitle, "Intro".to_string()),
            (ItemKey::ReplayGainAlbumGain, "-7.00 dB".to_string()),
            (ItemKey::ReplayGainTrackGain, "-2.25 dB".to_string()),
            (ItemKey::ReplayGainTrackPeak, "0.500000".to_string()),
        ]
    );
}

#[test]
fn an_existing_tag_without_a_place_for_the_gain_is_left_alone() {
    let mut tag = Tag::new(TagType::RiffInfo);
    tag.push(TagItem::new(ItemKey::TrackTitle, ItemValue::Text("Intro".to_string())));
    let tag = stamp_gain(Some(tag), TagFormat::RiffInfo, "-2.25", "0.500000");
    assert_eq!(tag.tag_type(), TagType::RiffInfo);
    assert_eq!(tag.item_count(), 1);
    assert_eq!(tag.get_string(ItemKey::TrackTitle), Some("Intro"));
}
