//! Measuring one track: which packets are decoded, what reaches the loudness meter,
//! and when to stop.
//!
//! The loop decides; its driver reads packets, decodes them and holds the samples.
//! The driver performs what [`DspLoop::request`] states and hands the outcome back to
//! [`DspLoop::advance`], until it is told to stop.

use vstd::prelude::*;

use ebur128::{EbuR128, Mode};

use crate::error::{AppError, AppResult, Fault};

verus! {

/// The loudness meter of the `ebur128` crate.
#[verifier::external_type_specification]
#[verifier::external_body]
pub struct ExEbuR128(EbuR128);

/// The number of channels that a meter was made for: what `EbuR128::channels` gives.
pub uninterp spec fn meter_channels(meter: EbuR128) -> u32;

/// The number of samples per second that a meter was made for: what `EbuR128::rate` gives.
pub uninterp spec fn meter_rate(meter: EbuR128) -> u32;

/// What a meter measures, as the bits of what `EbuR128::mode` gives.
pub uninterp spec fn meter_modes(meter: EbuR128) -> u8;

/// What a meter is to measure: the integrated loudness and the sample peaks, as the bits
/// of `Mode::I` and `Mode::SAMPLE_PEAK` of `ebur128` together.
pub const METER_MODES: u8 = 0b0001_0101;

/// Most channels that a meter takes.
pub const MAX_METER_CHANNELS: u32 = 64;

/// Fewest samples per second that a meter takes.
pub const MIN_METER_RATE: u32 = 16;

/// Most samples per second that a meter takes.
pub const MAX_METER_RATE: u32 = 2822400;

/// Whether a meter can be made for a layout.
pub open spec fn meter_accepts(channels: u32, sample_rate: u32) -> bool {
    &&& 1 <= channels <= MAX_METER_CHANNELS
    &&& MIN_METER_RATE <= sample_rate <= MAX_METER_RATE
}

/// `EbuR128::new` of `ebur128`, with the modes given by their bits; a failure comes back
/// as the error's `Debug` text.
///
/// Claimed, of integrated loudness and sample peaks: it succeeds exactly on the layouts
/// within its limits, with a meter for that layout and those modes, and refuses any other
/// as `NoMem`. Of the meter's filters nothing is claimed.
#[verifier::external_body]
fn new_meter(channels: u32, sample_rate: u32, modes: u8) -> (meter: Result<EbuR128, String>)
    requires
        modes == METER_MODES,
    ensures
        match meter {
            Ok(meter) => {
                &&& meter_accepts(channels, sample_rate)
                &&& meter_channels(meter) == channels
                &&& meter_rate(meter) == sample_rate
                &&& meter_modes(meter) == modes
            },
            Err(text) => !meter_accepts(channels, sample_rate) && text@ == "NoMem"@,
        },
{
    EbuR128::new(channels, sample_rate, Mode::from_bits_truncate(modes))
        .map_err(|e| format!("{e:?}"))
}

/// Makes the meter of a track's integrated loudness and sample peaks.
pub fn open_meter(channels: u32, sample_rate: u32) -> (meter: AppResult<EbuR128>)
    ensures
        match meter {
            Ok(meter) => {
                &&& meter_accepts(channels, sample_rate)
                &&& meter_channels(meter) == channels
                &&& meter_rate(meter) == sample_rate
                &&& meter_modes(meter) == METER_MODES
            },
            Err(error) => {
                &&& !meter_accepts(channels, sample_rate)
                &&& error matches AppError::Decode(text)
                &&& text@ == "EBUR128 初始化失败: "@ + "NoMem"@
            },
        },
{
    match new_meter(channels, sample_rate, METER_MODES) {
        Ok(meter) => Ok(meter),
        Err(text) => Err(AppError::decode(Fault::MeterSetup(text))),
    }
}

/// What the loop asks of its driver.
#[derive(Debug)]
pub enum DspRequest {
    /// Read the next packet of the container.
    NextPacket,
    /// Decode the packet read last.
    Decode,
    /// Give the samples decoded last to the meter.
    Feed,
    /// Ask the meter for the integrated loudness.
    Measure,
    /// Stop: the loudness is known, or the track failed.
    Stop(AppResult<()>),
}

/// What became of a request.
#[derive(Debug)]
pub enum DspEvent {
    /// A packet of this track was read.
    Packet(u32),
    /// The container is at its end.
    EndOfStream,
    /// The container's tracks changed; reading can go on.
    ResetRequired,
    /// The file ends in the middle of a packet.
    UnexpectedEof,
    /// The container cannot be read further.
    ReadFailed(String),
    /// The packet was decoded.
    Decoded,
    /// The packet is damaged.
    Damaged,
    /// The decoder cannot go on.
    DecodeFailed(String),
    /// Whether the meter took the samples.
    Fed(bool),
    /// Whether the meter gave a loudness.
    Measured(bool),
}

/// Where the loop stands.
#[derive(Debug)]
pub enum DspPhase {
    Reading,
    Decoding,
    Feeding,
    Measuring,
    Done,
    Failed(Fault),
}

/// The measuring of one track.
#[derive(Debug)]
pub struct DspLoop {
    /// The track that is measured; packets of other tracks are passed over.
    pub target: u32,
    pub phase: DspPhase,
}

impl DspPhase {
    /// The phase after an event, for the track `target`. An event that does not answer
    /// the pending request changes nothing.
    pub open spec fn next(self, target: u32, event: DspEvent) -> DspPhase {
        match (self, event) {
            (DspPhase::Reading, DspEvent::Packet(track)) => if track == target {
                DspPhase::Decoding
            } else {
                DspPhase::Reading
            },
            (DspPhase::Reading, DspEvent::EndOfStream) => DspPhase::Measuring,
            (DspPhase::Reading, DspEvent::UnexpectedEof) => DspPhase::Measuring,
            (DspPhase::Reading, DspEvent::ReadFailed(detail)) => DspPhase::Failed(
                Fault::ReadPacket(detail),
            ),
            (DspPhase::Decoding, DspEvent::Decoded) => DspPhase::Feeding,
            (DspPhase::Decoding, DspEvent::Damaged) => DspPhase::Reading,
            (DspPhase::Decoding, DspEvent::DecodeFailed(detail)) => DspPhase::Failed(
                Fault::DecodePacket(detail),
            ),
            (DspPhase::Feeding, DspEvent::Fed(taken)) => if taken {
                DspPhase::Reading
            } else {
                DspPhase::Failed(Fault::FeedMeter)
            },
            (DspPhase::Measuring, DspEvent::Measured(given)) => if given {
                DspPhase::Done
            } else {
                DspPhase::Failed(Fault::Loudness)
            },
            _ => self,
        }
    }

    /// Whether `request` is what the phase waits on.
    pub open spec fn asks(self, request: DspRequest) -> bool {
        match self {
            DspPhase::Reading => request is NextPacket,
            DspPhase::Decoding => request is Decode,
            DspPhase::Feeding => request is Feed,
            DspPhase::Measuring => request is Measure,
            DspPhase::Done => request matches DspRequest::Stop(Ok(_)),
            DspPhase::Failed(fault) => request matches DspRequest::Stop(Err(error))
                && error.reports(fault),
        }
    }
}

impl DspLoop {
    /// Starts measuring a track.
    pub fn start(target: u32) -> (dsp: DspLoop)
        ensures
            dsp == (DspLoop { target, phase: DspPhase::Reading }),
    {
        DspLoop { target, phase: DspPhase::Reading }
    }

    /// What the driver is to do next.
    pub fn request(&self) -> (request: DspRequest)
        ensures
            self.phase.asks(request),
    {
        match &self.phase {
            DspPhase::Reading => DspRequest::NextPacket,
            DspPhase::Decoding => DspRequest::Decode,
            DspPhase::Feeding => DspRequest::Feed,
            DspPhase::Measuring => DspRequest::Measure,
            DspPhase::Done => DspRequest::Stop(Ok(())),
            DspPhase::Failed(fault) => DspRequest::Stop(Err(AppError::Decode(fault.message()))),
        }
    }

    /// Takes the outcome of the pending request.
    pub fn advance(&mut self, event: DspEvent)
        ensures
            *final(self) == (DspLoop {
                target: old(self).target,
                phase: old(self).phase.next(old(self).target, event),
            }),
    {
        match (&self.phase, event) {
            (DspPhase::Reading, DspEvent::Packet(track)) => {
                if track == self.target {
                    self.phase = DspPhase::Decoding;
                }
            },
            (DspPhase::Reading, DspEvent::EndOfStream) => {
                self.phase = DspPhase::Measuring;
            },
            (DspPhase::Reading, DspEvent::UnexpectedEof) => {
                self.phase = DspPhase::Measuring;
            },
            (DspPhase::Reading, DspEvent::ReadFailed(detail)) => {
                self.phase = DspPhase::Failed(Fault::ReadPacket(detail));
            },
            (DspPhase::Decoding, DspEvent::Decoded) => {
                self.phase = DspPhase::Feeding;
            },
            (DspPhase::Decoding, DspEvent::Damaged) => {
                self.phase = DspPhase::Reading;
            },
            (DspPhase::Decoding, DspEvent::DecodeFailed(detail)) => {
                self.phase = DspPhase::Failed(Fault::DecodePacket(detail));
            },
            (DspPhase::Feeding, DspEvent::Fed(taken)) => {
                if taken {
                    self.phase = DspPhase::Reading;
                } else {
                    self.phase = DspPhase::Failed(Fault::FeedMeter);
                }
            },
            (DspPhase::Measuring, DspEvent::Measured(given)) => {
                if given {
                    self.phase = DspPhase::Done;
                } else {
                    self.phase = DspPhase::Failed(Fault::Loudness);
                }
            },
            _ => {},
        }
    }
}

/// What reading one packet of a container comes to.
pub enum StreamItem {
    /// The container's tracks changed.
    Reset,
    /// A packet, and what decoding it and feeding its samples comes to.
    Packet { track: u32, decoded: PacketFate },
    /// The file ends in the middle of a packet.
    CutShort,
    /// The container cannot be read further.
    Broken(String),
}

/// What decoding a packet comes to.
pub enum PacketFate {
    /// Samples, which the meter takes or rejects.
    Samples { taken: bool },
    /// The packet is damaged.
    Damaged,
    /// The decoder cannot go on.
    Fatal(String),
}

impl StreamItem {
    /// Whether the item's samples reach the meter and are taken.
    pub open spec fn feeds(self, target: u32) -> bool {
        self matches StreamItem::Packet { track, decoded: PacketFate::Samples { taken: true } }
            && track == target
    }

    /// Where reading ends at this item, the phase that it ends in.
    pub open spec fn ending(self, target: u32) -> Option<DspPhase> {
        match self {
            StreamItem::CutShort => Some(DspPhase::Measuring),
            StreamItem::Broken(detail) => Some(DspPhase::Failed(Fault::ReadPacket(detail))),
            StreamItem::Packet { track, decoded: PacketFate::Samples { taken: false } } if track
                == target => Some(DspPhase::Failed(Fault::FeedMeter)),
            StreamItem::Packet { track, decoded: PacketFate::Fatal(detail) } if track
                == target => Some(DspPhase::Failed(Fault::DecodePacket(detail))),
            _ => None,
        }
    }
}

/// The places of the first `count` items of a stream whose samples reach the meter.
pub open spec fn fed_items(stream: Seq<StreamItem>, target: u32, count: nat) -> Seq<nat>
    decreases count,
{
    if count == 0 {
        Seq::empty()
    } else {
        let before = fed_items(stream, target, (count - 1) as nat);
        if stream[count - 1].feeds(target) {
            before.push((count - 1) as nat)
        } else {
            before
        }
    }
}

/// A container, a decoder and a meter that answer the loop's requests.
pub struct Player {
    pub stream: Seq<StreamItem>,
    /// How many items have been read.
    pub read: nat,
    /// The places of the items that the meter has taken.
    pub fed: Seq<nat>,
    /// Whether the meter will give a loudness.
    pub measurable: bool,
}

impl Player {
    /// A player that has read nothing yet.
    pub open spec fn start(stream: Seq<StreamItem>, measurable: bool) -> Player {
        Player { stream, read: 0, fed: Seq::empty(), measurable }
    }

    /// The player after what `phase` asks for, and the answer.
    pub open spec fn respond(self, phase: DspPhase) -> (Player, DspEvent) {
        let current = self.stream[self.read - 1];
        match phase {
            DspPhase::Reading => if self.read >= self.stream.len() {
                (self, DspEvent::EndOfStream)
            } else {
                (
                    Player { read: self.read + 1, ..self },
                    match self.stream[self.read as int] {
                        StreamItem::Reset => DspEvent::ResetRequired,
                        StreamItem::Packet { track, .. } => DspEvent::Packet(track),
                        StreamItem::CutShort => DspEvent::UnexpectedEof,
                        StreamItem::Broken(detail) => DspEvent::ReadFailed(detail),
                    },
                )
            },
            DspPhase::Decoding => (
                self,
                match current {
                    StreamItem::Packet { decoded: PacketFate::Damaged, .. } => DspEvent::Damaged,
                    StreamItem::Packet {
                        decoded: PacketFate::Fatal(detail),
                        ..
                    } => DspEvent::DecodeFailed(detail),
                    _ => DspEvent::Decoded,
                },
            ),
            DspPhase::Feeding => match current {
                StreamItem::Packet { decoded: PacketFate::Samples { taken: true }, .. } => (
                    Player { fed: self.fed.push((self.read - 1) as nat), ..self },
                    DspEvent::Fed(true),
                ),
                _ => (self, DspEvent::Fed(false)),
            },
            _ => (self, DspEvent::Measured(self.measurable)),
        }
    }
}

/// A loop's phase and its player after `steps` requests and answers.
pub open spec fn play(target: u32, phase: DspPhase, player: Player, steps: nat) -> (DspPhase, Player)
    decreases steps,
{
    if steps == 0 {
        (phase, player)
    } else {
        let (answered, event) = player.respond(phase);
        play(target, phase.next(target, event), answered, (steps - 1) as nat)
    }
}

proof fn lemma_play_adds(target: u32, phase: DspPhase, player: Player, first: nat, second: nat)
    ensures
        play(target, phase, player, first + second) == ({
            let (p, q) = play(target, phase, player, first);
            play(target, p, q, second)
        }),
    decreases first,
{
    if first > 0 {
        let (answered, event) = player.respond(phase);
        lemma_play_adds(target, phase.next(target, event), answered, (first - 1) as nat, second);
    }
}

/// Reading past `count` items, none of which ends the reading.
proof fn lemma_play_items(
    target: u32,
    stream: Seq<StreamItem>,
    measurable: bool,
    count: nat,
) -> (steps: nat)
    requires
        count <= stream.len(),
        forall|i: int| 0 <= i < count ==> (#[trigger] stream[i]).ending(target) is None,
    ensures
        play(target, DspPhase::Reading, Player::start(stream, measurable), steps) == (
            DspPhase::Reading,
            Player { stream, read: count, fed: fed_items(stream, target, count), measurable },
        ),
    decreases count,
{
    let start = Player::start(stream, measurable);
    if count == 0 {
        0
    } else {
        let before = (count - 1) as nat;
        let steps = lemma_play_items(target, stream, measurable, before);
        let at = Player { stream, read: before, fed: fed_items(stream, target, before), measurable };
        assert(stream[count - 1].ending(target) is None);
        reveal_with_fuel(play, 4);
        let more: nat = match stream[count - 1] {
            StreamItem::Packet { track, decoded } if track == target => if decoded is Damaged {
                2
            } else {
                3
            },
            _ => 1,
        };
        lemma_play_adds(target, DspPhase::Reading, start, steps, more);
        assert(play(target, DspPhase::Reading, at, more) == (
            DspPhase::Reading,
            Player { stream, read: count, fed: fed_items(stream, target, count), measurable },
        ));
        steps + more
    }
}

/// The meter gets the samples of exactly the decodable packets of the measured track,
/// in their order, up to the end of the container or the first item that ends the
/// reading. Packets of other tracks, damaged packets and resets are passed over. A file
/// cut short is measured as far as it goes. A failure ends the measuring with its own
/// report; otherwise the outcome is the meter's.
pub proof fn law_meter_gets_the_track(
    target: u32,
    stream: Seq<StreamItem>,
    measurable: bool,
    end: nat,
)
    requires
        end <= stream.len(),
        forall|i: int| 0 <= i < end ==> (#[trigger] stream[i]).ending(target) is None,
        end < stream.len() ==> stream[end as int].ending(target) is Some,
    ensures
        exists|steps: nat|
            ({
                let (phase, player) = #[trigger] play(
                    target,
                    DspPhase::Reading,
                    Player::start(stream, measurable),
                    steps,
                );
                &&& player.fed == fed_items(stream, target, end)
                &&& phase == match (if end < stream.len() {
                    stream[end as int].ending(target)
                } else {
                    Some(DspPhase::Measuring)
                }) {
                    Some(DspPhase::Failed(fault)) => DspPhase::Failed(fault),
                    _ => if measurable {
                        DspPhase::Done
                    } else {
                        DspPhase::Failed(Fault::Loudness)
                    },
                }
            }),
{
    let start = Player::start(stream, measurable);
    let steps = lemma_play_items(target, stream, measurable, end);
    let at = Player { stream, read: end, fed: fed_items(stream, target, end), measurable };
    reveal_with_fuel(play, 4);
    lemma_play_adds(target, DspPhase::Reading, start, steps, 3);
    let all = steps + 3;
    assert(play(target, DspPhase::Reading, start, all).1.fed == at.fed);
}

/// A meter is made for every layout of up to 64 channels at 16 to 2822400 samples per
/// second, and for no other. It measures the integrated loudness and the sample peaks.
pub proof fn law_meter_limits(channels: u32, sample_rate: u32)
    ensures
        meter_accepts(channels, sample_rate) <==> channels != 0 && channels <= 64 && sample_rate
            >= 16 && sample_rate <= 2822400,
        METER_MODES == 0x15,
{
}

/// Where an event leads. Only a packet of the measured track is decoded, and only what was
/// decoded reaches the meter; what the meter took and what is damaged leads back to
/// reading; the loudness is asked for at the end of the container or of the file, and
/// nowhere else. Any other event leaves the loop where it stands.
pub proof fn law_only_the_track_is_decoded_and_measured(phase: DspPhase, target: u32, event: DspEvent)
    ensures
        ({
            let next = phase.next(target, event);
            &&& next is Decoding && !(phase is Decoding) <==> phase is Reading && event
                == DspEvent::Packet(target)
            &&& next is Feeding && !(phase is Feeding) <==> phase is Decoding && event is Decoded
            &&& next is Reading && !(phase is Reading) <==> phase is Decoding && event is Damaged
                || phase is Feeding && event == DspEvent::Fed(true)
            &&& next is Measuring && !(phase is Measuring) <==> phase is Reading && (
            event is EndOfStream || event is UnexpectedEof)
            &&& next is Done && !(phase is Done) <==> phase is Measuring && event
                == DspEvent::Measured(true)
            &&& phase is Done || phase is Failed ==> next == phase
        }),
{
}

/// Measuring fails exactly if the container cannot be read, the decoder cannot go on, or
/// the meter rejects samples or gives no loudness; the failure is the one that occurred,
/// with its detail.
pub proof fn law_measuring_fails_as_its_stage_does(
    phase: DspPhase,
    target: u32,
    event: DspEvent,
    fault: Fault,
)
    requires
        !(phase is Failed),
    ensures
        phase.next(target, event) == DspPhase::Failed(fault) <==> {
            ||| phase is Reading && (event matches DspEvent::ReadFailed(detail) && fault
                == Fault::ReadPacket(detail))
            ||| phase is Decoding && (event matches DspEvent::DecodeFailed(detail) && fault
                == Fault::DecodePacket(detail))
            ||| phase is Feeding && event == DspEvent::Fed(false) && fault is FeedMeter
            ||| phase is Measuring && event == DspEvent::Measured(false) && fault is Loudness
        },
{
}

/// What the loop asks for tells where it stands: it stops exactly if the loudness is known
/// or the track failed, and reports the fault that it failed with.
pub proof fn law_requests_tell_the_phase(phase: DspPhase, request: DspRequest)
    requires
        phase.asks(request),
    ensures
        request is NextPacket <==> phase is Reading,
        request is Decode <==> phase is Decoding,
        request is Feed <==> phase is Feeding,
        request is Measure <==> phase is Measuring,
        request matches DspRequest::Stop(Ok(_)) <==> phase is Done,
        request matches DspRequest::Stop(Err(error)) ==> (phase matches DspPhase::Failed(fault) && (
        error matches AppError::Decode(message) && message@ == fault.text())),
{
}

} // verus!
