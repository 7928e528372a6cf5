use rgain::{
    open_meter, overall_peak, select_track, AppError, AudioParams, DspEvent, DspLoop, DspRequest,
    Real32, TrackInfo, METER_MODES,
};

fn number(value: f32) -> Real32 {
    Real32 { bits: value.to_bits() }
}

fn message(error: AppError) -> String {
    match error {
        AppError::Decode(text) => text,
        AppError::Io(_) => panic!("an input or output error"),
    }
}

#[test]
fn the_first_audio_track_is_selected() {
    let tracks = vec![
        TrackInfo { id: 7, audio: None },
        TrackInfo { id: 3, audio: Some(AudioParams { channels: Some(6), sample_rate: Some(44100) }) },
        TrackInfo { id: 1, audio: Some(AudioParams { channels: None, sample_rate: None }) },
    ];
    let plan = select_track(&tracks).unwrap();
    assert_eq!((plan.index, plan.track_id, plan.channels, plan.sample_rate), (1, 3, 6, 44100));
}

#[test]
fn unstated_layouts_are_stereo_at_48_kilohertz() {
    let tracks = vec![TrackInfo { id: 9, audio: Some(AudioParams { channels: None, sample_rate: None }) }];
    let plan = select_track(&tracks).unwrap();
    assert_eq!((plan.index, plan.track_id, plan.channels, plan.sample_rate), (0, 9, 2, 48000));
}

#[test]
fn channel_counts_are_cut_to_32_bits() {
    let channels = Some((1usize << 32) + 5);
    let tracks = vec![TrackInfo { id: 0, audio: Some(AudioParams { channels, sample_rate: None }) }];
    assert_eq!(select_track(&tracks).unwrap().channels, 5);
}

#[test]
fn a_file_without_audio_is_an_error() {
    let text = "文件未包含有效音频轨或编解码器参数";
    assert_eq!(message(select_track(&vec![]).unwrap_err()), text);
    assert_eq!(message(select_track(&vec![TrackInfo { id: 0, audio: None }]).unwrap_err()), text);
}

#[test]
fn a_meter_has_the_layout_it_was_made_for() {
    let meter = open_meter(2, 44100).unwrap();
    assert_eq!((meter.channels(), meter.rate()), (2, 44100));
    assert!(meter.mode().contains(ebur128::Mode::I | ebur128::Mode::SAMPLE_PEAK));
    assert!(!meter.mode().contains(ebur128::Mode::TRUE_PEAK));
    assert_eq!(meter.mode().bits(), METER_MODES);
    assert_eq!((ebur128::Mode::I | ebur128::Mode::SAMPLE_PEAK).bits(), METER_MODES);
    let meter = open_meter(6, 96000).unwrap();
    assert_eq!((meter.channels(), meter.rate()), (6, 96000));
}

#[test]
fn a_meter_refuses_layouts_beyond_its_limits() {
    assert!(open_meter(1, 16).is_ok());
    assert!(open_meter(64, 48000).is_ok());
    assert!(open_meter(1, 2822400).is_ok());
    for (channels, rate) in [(0, 48000), (65, 48000), (2, 15), (2, 2822401), (u32::MAX, u32::MAX)] {
        match open_meter(channels, rate) {
            Err(error) => assert_eq!(message(error), "EBUR128 初始化失败: NoMem"),
            Ok(_) => panic!("accepted {channels} channels at {rate}"),
        }
    }
}

#[test]
fn the_overall_peak_is_the_highest_channel() {
    let bits = |value: f64| Some(value.to_bits());
    assert_eq!(overall_peak(&vec![]), 0);
    assert_eq!(overall_peak(&vec![None, None]), 0.0_f64.to_bits());
    assert_eq!(overall_peak(&vec![bits(0.25), None, bits(1.5), bits(0.99)]), 1.5_f64.to_bits());
    let peaks = [1e-300, 3.0, 0.1, f64::INFINITY, 2.5];
    let expected = peaks.iter().copied().fold(0.0, f64::max);
    assert_eq!(overall_peak(&peaks.iter().map(|p| bits(*p)).collect()), f64::to_bits(expected));
}

#[test]
fn peaks_that_are_no_number_count_for_nothing() {
    let bits = |values: &[f64]| overall_peak(&values.iter().map(|v| Some(v.to_bits())).collect());
    assert_eq!(overall_peak(&vec![Some(0x7ff8_0000_0000_0000)]), 0);
    assert_eq!(overall_peak(&vec![Some(u64::MAX), Some(0x7ff0_0000_0000_0001)]), 0);
    assert_eq!(bits(&[f64::NAN, 0.5, -f64::NAN]), 0.5_f64.to_bits());
    assert_eq!(bits(&[-3.0, -0.0, f64::NEG_INFINITY]), 0);
    assert_eq!(bits(&[-3.0, 0.125]), 0.125_f64.to_bits());
    assert_eq!(bits(&[f64::INFINITY, f64::NAN]), f64::INFINITY.to_bits());
}

#[test]
fn numbers_compare_as_floats_do() {
    let values = [0.0, -0.0, 1.5, -1.5, f32::NAN, f32::INFINITY, f32::NEG_INFINITY, f32::MIN_POSITIVE];
    for a in values {
        for b in values {
            assert_eq!(number(a).equals(number(b)), a == b, "{a} {b}");
        }
    }
}

/// One packet of the container, and what becomes of it.
enum Item {
    Reset,
    Samples(u32),
    Rejected(u32),
    Damaged(u32),
    Fatal(u32),
    CutShort,
    Broken,
}

/// Measures track 1 of a container: the places of the packets fed, and the outcome.
fn measure(items: &[Item], measurable: bool) -> (Vec<usize>, Result<(), String>) {
    let mut dsp = DspLoop::start(1);
    let mut fed: Vec<usize> = Vec::new();
    let mut read = 0;
    loop {
        let event = match dsp.request() {
            DspRequest::NextPacket => {
                read += 1;
                match items.get(read - 1) {
                    None => DspEvent::EndOfStream,
                    Some(Item::Reset) => DspEvent::ResetRequired,
                    Some(Item::CutShort) => DspEvent::UnexpectedEof,
                    Some(Item::Broken) => DspEvent::ReadFailed("disk on fire".to_string()),
                    Some(
                        Item::Samples(t) | Item::Rejected(t) | Item::Damaged(t) | Item::Fatal(t),
                    ) => DspEvent::Packet(*t),
                }
            }
            DspRequest::Decode => match &items[read - 1] {
                Item::Damaged(_) => DspEvent::Damaged,
                Item::Fatal(_) => DspEvent::DecodeFailed("bad codec".to_string()),
                _ => DspEvent::Decoded,
            },
            DspRequest::Feed => match &items[read - 1] {
                Item::Samples(_) => {
                    fed.push(read - 1);
                    DspEvent::Fed(true)
                }
                _ => DspEvent::Fed(false),
            },
            DspRequest::Measure => DspEvent::Measured(measurable),
            DspRequest::Stop(outcome) => return (fed, outcome.map_err(message)),
        };
        dsp.advance(event);
    }
}

#[test]
fn the_meter_gets_the_decodable_packets_of_the_track() {
    let items = [
        Item::Samples(1),
        Item::Samples(2),
        Item::Damaged(1),
        Item::Reset,
        Item::Fatal(2),
        Item::Rejected(0),
        Item::Samples(1),
    ];
    assert_eq!(measure(&items, true), (vec![0, 6], Ok(())));
}

#[test]
fn a_file_cut_short_is_measured_as_far_as_it_goes() {
    let items = [Item::Samples(1), Item::CutShort, Item::Samples(1)];
    assert_eq!(measure(&items, true), (vec![0], Ok(())));
}

#[test]
fn failures_are_reported() {
    let cases = [
        (Item::Broken, "读取包失败: disk on fire"),
        (Item::Fatal(1), "解码错误: bad codec"),
        (Item::Rejected(1), "EBUR128 滤波器注入失败"),
    ];
    for (item, text) in cases {
        let outcome = measure(&[Item::Samples(1), item, Item::Samples(1)], true);
        assert_eq!(outcome, (vec![0], Err(text.to_string())));
    }
    let text = "全局响度计算失败(可能音频过短)".to_string();
    assert_eq!(measure(&[], false), (vec![], Err(text)));
}

#[test]
fn a_stopped_loop_stays_stopped() {
    let mut dsp = DspLoop::start(0);
    dsp.advance(DspEvent::Fed(true));
    assert!(matches!(dsp.request(), DspRequest::NextPacket));
    dsp.advance(DspEvent::EndOfStream);
    dsp.advance(DspEvent::Measured(true));
    dsp.advance(DspEvent::Packet(0));
    assert!(matches!(dsp.request(), DspRequest::Stop(Ok(()))));
}
