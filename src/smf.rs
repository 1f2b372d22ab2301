//! Standard MIDI Files: the header, tracks of timed events, tempo arithmetic,
//! and the byte format of each.
use vstd::prelude::*;

use crate::message::{MidiChannel, MidiMessage, TimeStampedMidiMessage};
use crate::timeline::{Timed, gap, is_time_ordered, lemma_sorted_by_time, sort_by_time, sorted_by_time};

verus! {

#[derive(Debug, Clone, Copy, PartialEq, Eq, Structural)]
pub enum MidiFormat {
    SingleMultiChannelTrack,
    MultiTrackSequence,
    MultiSequence,
}

#[derive(Debug, Clone, Copy, PartialEq, Eq, Structural)]
pub enum FramesPerSecond {
    Fps24,
    Fps25,
    Fps30,
    Fps30DropFrame,
}

/// What a tick of delta time means.
#[derive(Debug, Clone, Copy, PartialEq, Eq, Structural)]
pub enum MidiDivision {
    TicksPerQuarterNote(u16),
    TimeCode(FramesPerSecond, u8),
}

impl MidiDivision {
    /// Ticks per quarter note (or per frame) are nonzero, so that time can
    /// be converted.
    pub open spec fn has_ticks(self) -> bool {
        match self {
            MidiDivision::TicksPerQuarterNote(t) => t > 0,
            MidiDivision::TimeCode(_, t) => t > 0,
        }
    }

    /// A division with ticks whose header word stands for it: a
    /// quarter-note count fits in 15 bits.
    pub open spec fn wf(self) -> bool {
        &&& self.has_ticks()
        &&& self is TicksPerQuarterNote ==> self->TicksPerQuarterNote_0 < 0x8000
    }

    pub fn check_ticks(&self) -> (r: bool)
        ensures
            r == self.has_ticks(),
    {
        match self {
            MidiDivision::TicksPerQuarterNote(t) => *t > 0,
            MidiDivision::TimeCode(_, t) => *t > 0,
        }
    }
}

impl Default for MidiDivision {
    fn default() -> (r: MidiDivision)
        ensures
            r == MidiDivision::TicksPerQuarterNote(96),
    {
        MidiDivision::TicksPerQuarterNote(96)
    }
}

#[derive(Debug, Clone, Copy, PartialEq, Eq, Structural)]
pub enum MusicalScale {
    Major,
    Minor,
}

#[derive(Debug, Clone, Copy, PartialEq, Eq, Structural)]
pub struct MidiHeader {
    pub format: MidiFormat,
    pub num_tracks: u16,
    pub division: MidiDivision,
}

impl MidiHeader {
    /// At least one track, exactly one in format 0.
    pub open spec fn wf(self) -> bool {
        &&& self.num_tracks > 0
        &&& self.format == MidiFormat::SingleMultiChannelTrack ==> self.num_tracks == 1
    }

    /// The header of a format-0 file of one track at 96 ticks per quarter note.
    pub fn single_multi_channel_track() -> (r: MidiHeader)
        ensures
            r.format == MidiFormat::SingleMultiChannelTrack,
            r.num_tracks == 1,
            r.division == MidiDivision::TicksPerQuarterNote(96),
            r.wf(),
    {
        MidiHeader {
            format: MidiFormat::SingleMultiChannelTrack,
            num_tracks: 1,
            division: MidiDivision::default(),
        }
    }

    pub fn get_format(&self) -> (r: &MidiFormat)
        ensures
            *r == self.format,
    {
        &self.format
    }

    pub fn get_num_tracks(&self) -> (r: u16)
        ensures
            r == self.num_tracks,
    {
        self.num_tracks
    }

    pub fn get_division(&self) -> (r: &MidiDivision)
        ensures
            *r == self.division,
    {
        &self.division
    }
}

/// Microseconds that `delta` ticks last at `tempo` microseconds per quarter note.
pub open spec fn delta_microseconds_spec(delta: nat, tempo: nat, division: MidiDivision) -> nat {
    match division {
        MidiDivision::TicksPerQuarterNote(t) => delta * tempo / (t as nat),
        MidiDivision::TimeCode(fps, t) => match fps {
            FramesPerSecond::Fps24 => delta * 1_000_000 / (24 * t as nat),
            FramesPerSecond::Fps25 => delta * 1_000_000 / (25 * t as nat),
            FramesPerSecond::Fps30 => delta * 100_000 / (3 * t as nat),
            FramesPerSecond::Fps30DropFrame => delta * 100_100 / (3 * t as nat),
        },
    }
}

/// Ticks in `microseconds` at `tempo` microseconds per quarter note (rounded down).
pub open spec fn delta_ticks_spec(microseconds: nat, tempo: nat, division: MidiDivision) -> nat {
    match division {
        MidiDivision::TicksPerQuarterNote(t) => microseconds * (t as nat) / tempo,
        MidiDivision::TimeCode(fps, t) => match fps {
            FramesPerSecond::Fps24 => microseconds * 24 * (t as nat) / 1_000_000,
            FramesPerSecond::Fps25 => microseconds * 25 * (t as nat) / 1_000_000,
            FramesPerSecond::Fps30 => microseconds * 3 * (t as nat) / 100_000,
            FramesPerSecond::Fps30DropFrame => microseconds * 3 * (t as nat) / 100_100,
        },
    }
}

/// Converts a delta time in ticks to microseconds.
pub fn calc_delta_time_microseconds(delta: u32, tempo: u32, division: &MidiDivision) -> (r: u64)
    requires
        division.has_ticks(),
    ensures
        r as nat == delta_microseconds_spec(delta as nat, tempo as nat, *division),
{
    let d = delta as u64;
    let t = tempo as u64;
    proof {
        vstd::arithmetic::mul::lemma_mul_upper_bound(d as int, 0xFFFF_FFFF, t as int, 0xFFFF_FFFF);
        vstd::arithmetic::mul::lemma_mul_upper_bound(d as int, 0xFFFF_FFFF, 1_000_000, 1_000_000);
    }
    match division {
        MidiDivision::TicksPerQuarterNote(ticks) => d * t / (*ticks as u64),
        MidiDivision::TimeCode(fps, ticks) => {
            let k = *ticks as u64;
            match fps {
                FramesPerSecond::Fps24 => d * 1_000_000 / (24 * k),
                FramesPerSecond::Fps25 => d * 1_000_000 / (25 * k),
                FramesPerSecond::Fps30 => d * 100_000 / (3 * k),
                FramesPerSecond::Fps30DropFrame => d * 100_100 / (3 * k),
            }
        },
    }
}

/// Converts microseconds to a delta time in ticks, truncated to 32 bits.
pub fn calc_delta_time(microseconds: u64, tempo: u32, division: &MidiDivision) -> (r: u32)
    requires
        division is TicksPerQuarterNote ==> tempo > 0,
    ensures
        r as nat == delta_ticks_spec(microseconds as nat, tempo as nat, *division) % 0x1_0000_0000,
{
    let us = microseconds as u128;
    assert(us * 0xFFFF <= 0xFFFF_FFFF_FFFF_FFFFu128 * 0xFFFF) by (nonlinear_arith)
        requires
            us <= 0xFFFF_FFFF_FFFF_FFFFu128,
    ;
    let ticks: u128 = match division {
        MidiDivision::TicksPerQuarterNote(t) => {
            let k = *t as u128;
            assert(us * k <= 0xFFFF_FFFF_FFFF_FFFFu128 * 0xFFFF) by (nonlinear_arith)
                requires
                    us <= 0xFFFF_FFFF_FFFF_FFFFu128,
                    k <= 0xFFFF,
            ;
            us * k / (tempo as u128)
        },
        MidiDivision::TimeCode(fps, t) => {
            let k = *t as u128;
            assert(us * 25 * k <= 0xFFFF_FFFF_FFFF_FFFFu128 * 25 * 255 && us * 24 * k
                <= 0xFFFF_FFFF_FFFF_FFFFu128 * 25 * 255 && us * 3 * k <= 0xFFFF_FFFF_FFFF_FFFFu128
                * 25 * 255) by (nonlinear_arith)
                requires
                    us <= 0xFFFF_FFFF_FFFF_FFFFu128,
                    k <= 255,
            ;
            match fps {
                FramesPerSecond::Fps24 => us * 24 * k / 1_000_000,
                FramesPerSecond::Fps25 => us * 25 * k / 1_000_000,
                FramesPerSecond::Fps30 => us * 3 * k / 100_000,
                FramesPerSecond::Fps30DropFrame => us * 3 * k / 100_100,
            }
        },
    };
    (ticks % 0x1_0000_0000) as u32
}

} // verus!

verus! {

/// A non-sounding event of a track.
#[derive(Debug, Clone, PartialEq)]
pub enum MetaEvent {
    SequenceNumber(u16),
    TextEvent(String),
    CopyrightNotice(String),
    SequenceName(String),
    TrackName(String),
    InstrumentName(String),
    Lyric(String),
    Marker(String),
    CuePoint(String),
    MidiChannelPrefix(MidiChannel),
    EndOfTrack,
    SetTempo(u32),
    SmpteOffset { hour: u8, minute: u8, second: u8, frame: u8, sub_frame: u8 },
    TimeSignature {
        numerator: u8,
        denominator: u8,
        clocks_per_click: u8,
        notated_32nd_notes_per_quarter_note: u8,
    },
    KeySignature { key: i8, scale: MusicalScale },
    SequencerSpecific(Vec<u8>),
}

#[derive(Debug, Clone, PartialEq)]
pub enum Event {
    MidiEvent(MidiMessage),
    SysExEvent,
    MetaEvent(MetaEvent),
}

#[derive(Debug, Clone, PartialEq)]
pub struct MidiTrackEvent {
    pub delta_time: u32,
    pub event: Event,
}

#[derive(Debug, Clone, PartialEq)]
pub struct MidiTrack(pub Vec<MidiTrackEvent>);

#[derive(Debug, Clone, PartialEq)]
pub struct MidiFile {
    pub header: MidiHeader,
    pub tracks: Vec<MidiTrack>,
}

pub open spec fn end_of_track_event() -> MidiTrackEvent {
    MidiTrackEvent { delta_time: 0, event: Event::MetaEvent(MetaEvent::EndOfTrack) }
}

impl MidiTrack {
    pub open spec fn events(self) -> Seq<MidiTrackEvent> {
        self.0@
    }

    /// The track of a recording: a tempo event, each message in time order
    /// with the ticks since the one before, then the end of the track. An
    /// empty recording gives an empty track.
    pub fn from_time_stamped_messages(
        data: Vec<TimeStampedMidiMessage>,
        tempo: u32,
        division: &MidiDivision,
    ) -> (r: MidiTrack)
        requires
            division is TicksPerQuarterNote ==> tempo > 0,
        ensures
            data@.len() == 0 ==> r.events().len() == 0,
            data@.len() > 0 ==> {
                let s = sorted_by_time(data@);
                &&& r.events().len() == s.len() + 2
                &&& r.events()[0] == (MidiTrackEvent {
                    delta_time: 0,
                    event: Event::MetaEvent(MetaEvent::SetTempo(tempo)),
                })
                &&& forall|i: int|
                    0 <= i < s.len() ==> #[trigger] r.events()[i + 1] == (MidiTrackEvent {
                        delta_time: (delta_ticks_spec(gap(s, i) as nat, tempo as nat, *division)
                            % 0x1_0000_0000) as u32,
                        event: Event::MidiEvent(s[i].message),
                    })
                &&& r.events()[s.len() as int + 1] == end_of_track_event()
            },
    {
        if data.len() == 0 {
            return MidiTrack(Vec::new());
        }
        let sorted = sort_by_time(data);
        let ghost s = sorted@;
        proof {
            lemma_sorted_by_time(data@);
        }
        let mut events: Vec<MidiTrackEvent> = Vec::new();
        events.push(
            MidiTrackEvent { delta_time: 0, event: Event::MetaEvent(MetaEvent::SetTempo(tempo)) },
        );
        let mut rest = sorted;
        let mut previous: u64 = 0;
        let mut i: usize = 0;
        let n = rest.len();
        while rest.len() > 0
            invariant
                i + rest@.len() == s.len() == n,
                rest@ == s.subrange(i as int, s.len() as int),
                is_time_ordered(s),
                division is TicksPerQuarterNote ==> tempo > 0,
                i > 0 ==> previous == s[i - 1].at(),
                events@.len() == i + 1,
                events@[0] == (MidiTrackEvent {
                    delta_time: 0,
                    event: Event::MetaEvent(MetaEvent::SetTempo(tempo)),
                }),
                forall|j: int|
                    0 <= j < i ==> #[trigger] events@[j + 1] == (MidiTrackEvent {
                        delta_time: (delta_ticks_spec(gap(s, j) as nat, tempo as nat, *division)
                            % 0x1_0000_0000) as u32,
                        event: Event::MidiEvent(s[j].message),
                    }),
            decreases rest@.len(),
        {
            assert(rest@[0] == s[i as int]);
            let item = rest.remove(0);
            let gap_us = if i == 0 {
                0
            } else {
                item.timestamp_microseconds - previous
            };
            previous = item.timestamp_microseconds;
            events.push(
                MidiTrackEvent {
                    delta_time: calc_delta_time(gap_us, tempo, division),
                    event: Event::MidiEvent(item.message),
                },
            );
            i += 1;
            assert(rest@ =~= s.subrange(i as int, s.len() as int));
        }
        events.push(end_of_track_event_value());
        MidiTrack(events)
    }
}

fn end_of_track_event_value() -> (r: MidiTrackEvent)
    ensures
        r == end_of_track_event(),
{
    MidiTrackEvent { delta_time: 0, event: Event::MetaEvent(MetaEvent::EndOfTrack) }
}

impl MidiFile {
    pub fn new(header: MidiHeader, tracks: Vec<MidiTrack>) -> (r: MidiFile)
        ensures
            r.header == header,
            r.tracks == tracks,
    {
        MidiFile { header, tracks }
    }

    pub fn get_header(&self) -> (r: &MidiHeader)
        ensures
            *r == self.header,
    {
        &self.header
    }

    pub fn get_tracks(&self) -> (r: &Vec<MidiTrack>)
        ensures
            *r == self.tracks,
    {
        &self.tracks
    }
}

} // verus!

verus! {

pub open spec fn be16(v: u16) -> Seq<u8> {
    seq![(v / 0x100) as u8, (v % 0x100) as u8]
}

/// The low three bytes of `v`, most significant first.
pub open spec fn be24(v: u32) -> Seq<u8> {
    seq![((v / 0x1_0000) % 0x100) as u8, ((v / 0x100) % 0x100) as u8, (v % 0x100) as u8]
}

pub open spec fn be32(v: u32) -> Seq<u8> {
    seq![(v / 0x100_0000) as u8] + be24(v)
}

pub open spec fn format_number(f: MidiFormat) -> u16 {
    match f {
        MidiFormat::SingleMultiChannelTrack => 0,
        MidiFormat::MultiTrackSequence => 1,
        MidiFormat::MultiSequence => 2,
    }
}

/// The high byte of a time-code division: minus the frame rate, as a signed byte.
pub open spec fn fps_byte(f: FramesPerSecond) -> u8 {
    match f {
        FramesPerSecond::Fps24 => 0xE8,
        FramesPerSecond::Fps25 => 0xE7,
        FramesPerSecond::Fps30DropFrame => 0xE3,
        FramesPerSecond::Fps30 => 0xE2,
    }
}

pub open spec fn division_word(d: MidiDivision) -> u16 {
    match d {
        MidiDivision::TicksPerQuarterNote(t) => t,
        MidiDivision::TimeCode(f, t) => (fps_byte(f) as u16 * 0x100 + t as u16) as u16,
    }
}

pub open spec fn header_chunk_type() -> Seq<u8> {
    seq![0x4Du8, 0x54u8, 0x68u8, 0x64u8]
}

pub open spec fn track_chunk_type() -> Seq<u8> {
    seq![0x4Du8, 0x54u8, 0x72u8, 0x6Bu8]
}

/// The header chunk: type, length 6, format, track count and division.
pub open spec fn header_bytes(h: MidiHeader) -> Seq<u8> {
    header_chunk_type() + seq![0u8, 0u8, 0u8, 6u8] + be16(format_number(h.format)) + be16(
        h.num_tracks,
    ) + be16(division_word(h.division))
}

pub open spec fn read_be16(d: Seq<u8>, i: int) -> u16 {
    (d[i] * 0x100 + d[i + 1]) as u16
}

pub open spec fn read_be32(d: Seq<u8>, i: int) -> u32 {
    (d[i] * 0x100_0000 + d[i + 1] * 0x1_0000 + d[i + 2] * 0x100 + d[i + 3]) as u32
}

/// The division that a header word stands for, if any.
pub open spec fn division_of(w: u16) -> Option<MidiDivision> {
    if w < 0x8000 {
        Some(MidiDivision::TicksPerQuarterNote(w))
    } else {
        let hi = w / 0x100;
        let t = (w % 0x100) as u8;
        if hi == 0xE8 {
            Some(MidiDivision::TimeCode(FramesPerSecond::Fps24, t))
        } else if hi == 0xE7 {
            Some(MidiDivision::TimeCode(FramesPerSecond::Fps25, t))
        } else if hi == 0xE3 {
            Some(MidiDivision::TimeCode(FramesPerSecond::Fps30DropFrame, t))
        } else if hi == 0xE2 {
            Some(MidiDivision::TimeCode(FramesPerSecond::Fps30, t))
        } else {
            None
        }
    }
}

/// The header that the first 14 bytes of `d` hold, if they hold a valid one.
pub open spec fn header_of(d: Seq<u8>) -> Option<MidiHeader> {
    if d.len() < 14 || d.subrange(0, 4) != header_chunk_type() || read_be32(d, 4) != 6 {
        None
    } else {
        let f = read_be16(d, 8);
        let n = read_be16(d, 10);
        let format = if f == 0 {
            MidiFormat::SingleMultiChannelTrack
        } else if f == 1 {
            MidiFormat::MultiTrackSequence
        } else {
            MidiFormat::MultiSequence
        };
        if f > 2 || n == 0 || (f == 0 && n != 1) {
            None
        } else {
            match division_of(read_be16(d, 12)) {
                Some(division) => Some(MidiHeader { format, num_tracks: n, division }),
                None => None,
            }
        }
    }
}

/// Reads the header chunk at the start of `data`.
pub fn parse_midi_file_header(data: &[u8]) -> (r: Result<MidiHeader, String>)
    ensures
        r is Ok <==> header_of(data@) is Some,
        r matches Ok(h) ==> header_of(data@) == Some(h),
{
    if data.len() < 14 {
        return Err("Data is too short to be a valid MIDI file".to_string());
    }
    if !(data[0] == 0x4D && data[1] == 0x54 && data[2] == 0x68 && data[3] == 0x64) {
        assert(data@.subrange(0, 4) != header_chunk_type()) by {
            if data@.subrange(0, 4) == header_chunk_type() {
                assert(data@.subrange(0, 4)[1] == data@[1]);
                assert(data@.subrange(0, 4)[2] == data@[2]);
                assert(data@.subrange(0, 4)[3] == data@[3]);
            }
        }
        return Err("Invalid MIDI header chunk type".to_string());
    }
    assert(data@.subrange(0, 4) =~= header_chunk_type());
    let header_length = read_u32_be(data, 4);
    let format = read_u16_be(data, 8);
    let ntrks = read_u16_be(data, 10);
    let division = read_u16_be(data, 12);
    if header_length != 6 {
        return Err("Invalid MIDI header length".to_string());
    }
    let midi_format = if format == 0 {
        MidiFormat::SingleMultiChannelTrack
    } else if format == 1 {
        MidiFormat::MultiTrackSequence
    } else if format == 2 {
        MidiFormat::MultiSequence
    } else {
        return Err("Unsupported MIDI format".to_string());
    };
    if ntrks == 0 {
        return Err("MIDI file must contain at least one track".to_string());
    } else if format == 0 && ntrks != 1 {
        return Err("Single multi-channel track format must have exactly one track".to_string());
    }
    let midi_division = if division < 0x8000 {
        MidiDivision::TicksPerQuarterNote(division)
    } else {
        let hi = division / 0x100;
        let ticks = (division % 0x100) as u8;
        let fps = if hi == 0xE8 {
            FramesPerSecond::Fps24
        } else if hi == 0xE7 {
            FramesPerSecond::Fps25
        } else if hi == 0xE3 {
            FramesPerSecond::Fps30DropFrame
        } else if hi == 0xE2 {
            FramesPerSecond::Fps30
        } else {
            return Err("Unsupported frames per second in time code".to_string());
        };
        MidiDivision::TimeCode(fps, ticks)
    };
    Ok(MidiHeader { format: midi_format, num_tracks: ntrks, division: midi_division })
}

/// The big-endian 16-bit number at `i`.
fn read_u16_be(data: &[u8], i: usize) -> (r: u16)
    requires
        i + 2 <= data@.len(),
    ensures
        r == read_be16(data@, i as int),
{
    data[i] as u16 * 0x100 + data[i + 1] as u16
}

/// The big-endian 32-bit number at `i`.
fn read_u32_be(data: &[u8], i: usize) -> (r: u32)
    requires
        i + 4 <= data@.len(),
    ensures
        r == read_be32(data@, i as int),
{
    data[i] as u32 * 0x100_0000 + data[i + 1] as u32 * 0x1_0000 + data[i + 2] as u32 * 0x100
        + data[i + 3] as u32
}

} // verus!

verus! {

/// Prefixes `b` to the bytes in `o`, if there are any.
pub open spec fn prepend(b: Seq<u8>, o: Option<Seq<u8>>) -> Option<Seq<u8>> {
    match o {
        Some(rest) => Some(b + rest),
        None => None,
    }
}

/// A meta event of variable length: its type, the length and the data.
pub open spec fn variable_meta(kind: u8, data: Seq<u8>) -> Option<Seq<u8>> {
    if data.len() <= crate::vlq::VLQ_MAX {
        Some(seq![kind] + crate::vlq::vlq_bytes(data.len()) + data)
    } else {
        None
    }
}

pub open spec fn text_bytes(s: String) -> Seq<u8> {
    vstd::utf8::encode_utf8(s@)
}

/// The bytes of a meta event after its 0xFF, or none where a length does not
/// fit a variable-length quantity.
pub open spec fn meta_payload(e: MetaEvent) -> Option<Seq<u8>> {
    match e {
        MetaEvent::SequenceNumber(n) => Some(seq![0x00u8, 0x02u8] + be16(n)),
        MetaEvent::TextEvent(s) => variable_meta(0x01, text_bytes(s)),
        MetaEvent::CopyrightNotice(s) => variable_meta(0x02, text_bytes(s)),
        MetaEvent::SequenceName(s) => variable_meta(0x03, text_bytes(s)),
        MetaEvent::TrackName(s) => variable_meta(0x03, text_bytes(s)),
        MetaEvent::InstrumentName(s) => variable_meta(0x04, text_bytes(s)),
        MetaEvent::Lyric(s) => variable_meta(0x05, text_bytes(s)),
        MetaEvent::Marker(s) => variable_meta(0x06, text_bytes(s)),
        MetaEvent::CuePoint(s) => variable_meta(0x07, text_bytes(s)),
        MetaEvent::MidiChannelPrefix(c) => Some(
            seq![0x20u8, 0x01u8, crate::message::channel_number(c)],
        ),
        MetaEvent::EndOfTrack => Some(seq![0x2Fu8, 0x00u8]),
        MetaEvent::SetTempo(t) => Some(seq![0x51u8, 0x03u8] + be24(t)),
        MetaEvent::SmpteOffset { hour, minute, second, frame, sub_frame } => Some(
            seq![0x54u8, 0x05u8, hour, minute, second, frame, sub_frame],
        ),
        MetaEvent::TimeSignature {
            numerator,
            denominator,
            clocks_per_click,
            notated_32nd_notes_per_quarter_note,
        } => Some(
            seq![
                0x58u8,
                0x04u8,
                numerator,
                denominator,
                clocks_per_click,
                notated_32nd_notes_per_quarter_note,
            ],
        ),
        MetaEvent::KeySignature { key, scale } => Some(
            seq![
                0x59u8,
                0x02u8,
                key_byte(key),
                match scale {
                    MusicalScale::Major => 0x00u8,
                    MusicalScale::Minor => 0x01u8,
                },
            ],
        ),
        MetaEvent::SequencerSpecific(d) => variable_meta(0x7F, d@),
    }
}

/// A key signature's key as a signed byte on the wire.
pub open spec fn key_byte(k: i8) -> u8 {
    if k >= 0 {
        k as u8
    } else {
        (k + 256) as u8
    }
}

/// The key that a signed byte on the wire stands for.
pub open spec fn key_of_byte(b: u8) -> i8 {
    if b < 0x80 {
        b as i8
    } else {
        (b - 256) as i8
    }
}

pub open spec fn is_end_of_track(e: Event) -> bool {
    e == Event::MetaEvent(MetaEvent::EndOfTrack)
}

/// The bytes of one track event when the running status before it is `rs`,
/// with the running status after it. A channel message with the running
/// status omits its status byte; a System Exclusive event (which carries no
/// bytes here), a system message, or a delta time or length beyond
/// four-byte quantities cannot be written.
pub open spec fn event_bytes(e: MidiTrackEvent, rs: Option<u8>) -> Option<(Seq<u8>, Option<u8>)> {
    if e.delta_time > crate::vlq::VLQ_MAX {
        None
    } else {
        let delta = crate::vlq::vlq_bytes(e.delta_time as nat);
        match e.event {
            Event::MetaEvent(m) => match meta_payload(m) {
                Some(p) => Some((delta + seq![0xFFu8] + p, None)),
                None => None,
            },
            Event::MidiEvent(msg) => if msg is Channel {
                let b = crate::message::encode_spec(msg);
                if rs == Some(b[0]) {
                    Some((delta + b.drop_first(), rs))
                } else {
                    Some((delta + b, Some(b[0])))
                }
            } else {
                None
            },
            Event::SysExEvent => None,
        }
    }
}

/// `e` with `carry` more ticks of delta time (exact below `VLQ_MAX`).
pub open spec fn carried(e: MidiTrackEvent, carry: nat) -> MidiTrackEvent {
    MidiTrackEvent { delta_time: (carry + e.delta_time) as u32, event: e.event }
}

/// The bytes of the events `evs` after running status `rs`, `carry` ticks
/// after the last event written. A System Exclusive event is left out and
/// its delta time carried into the next event, so no later event moves; a
/// track that lacks an end-of-track event gets one, and events after one
/// are refused, as is a delta time beyond four-byte quantities.
pub open spec fn track_body(evs: Seq<MidiTrackEvent>, rs: Option<u8>, carry: nat) -> Option<Seq<u8>>
    decreases evs.len(),
{
    if carry > crate::vlq::VLQ_MAX {
        None
    } else if evs.len() == 0 {
        Some(crate::vlq::vlq_bytes(carry) + seq![0xFFu8, 0x2Fu8, 0x00u8])
    } else if carry + evs[0].delta_time > crate::vlq::VLQ_MAX {
        None
    } else if evs[0].event is SysExEvent {
        track_body(evs.drop_first(), rs, carry + evs[0].delta_time as nat)
    } else {
        match event_bytes(carried(evs[0], carry), rs) {
            None => None,
            Some((b, next)) => if is_end_of_track(evs[0].event) {
                if evs.len() == 1 {
                    Some(b)
                } else {
                    None
                }
            } else {
                prepend(b, track_body(evs.drop_first(), next, 0))
            },
        }
    }
}

/// A track chunk: its type, the length of the body and the body.
pub open spec fn track_chunk(t: MidiTrack) -> Option<Seq<u8>> {
    match track_body(t.events(), None, 0) {
        Some(body) => if body.len() <= u32::MAX {
            Some(track_chunk_type() + be32(body.len() as u32) + body)
        } else {
            None
        },
        None => None,
    }
}

pub open spec fn tracks_bytes(ts: Seq<MidiTrack>) -> Option<Seq<u8>>
    decreases ts.len(),
{
    if ts.len() == 0 {
        Some(Seq::empty())
    } else {
        match track_chunk(ts[0]) {
            Some(c) => prepend(c, tracks_bytes(ts.drop_first())),
            None => None,
        }
    }
}

/// The bytes of a whole file, or none where the header does not match the
/// tracks or a track cannot be written.
pub open spec fn file_bytes(f: MidiFile) -> Option<Seq<u8>> {
    if !f.header.wf() || f.header.num_tracks as int != f.tracks@.len() {
        None
    } else {
        prepend(header_bytes(f.header), tracks_bytes(f.tracks@))
    }
}

fn push_be16(out: &mut Vec<u8>, v: u16)
    ensures
        final(out)@ == old(out)@ + be16(v),
{
    out.push((v / 0x100) as u8);
    out.push((v % 0x100) as u8);
    assert(final(out)@ =~= old(out)@ + be16(v));
}

fn push_be24(out: &mut Vec<u8>, v: u32)
    ensures
        final(out)@ == old(out)@ + be24(v),
{
    out.push(((v / 0x1_0000) % 0x100) as u8);
    out.push(((v / 0x100) % 0x100) as u8);
    out.push((v % 0x100) as u8);
    assert(final(out)@ =~= old(out)@ + be24(v));
}

fn push_be32(out: &mut Vec<u8>, v: u32)
    ensures
        final(out)@ == old(out)@ + be32(v),
{
    out.push((v / 0x100_0000) as u8);
    push_be24(out, v);
    assert(final(out)@ =~= old(out)@ + be32(v));
}

/// Appends a variable-length meta event of type `kind` holding `data`.
fn push_variable_meta(out: &mut Vec<u8>, kind: u8, data: &[u8]) -> (r: Result<(), String>)
    ensures
        variable_meta(kind, data@) is Some <==> r is Ok,
        r is Ok ==> final(out)@ == old(out)@ + variable_meta(kind, data@)->Some_0,
{
    if data.len() > 0x0FFF_FFFF {
        return Err("Meta event data is too long".to_string());
    }
    let length = crate::vlq::to_var_length_bytes(data.len() as u32)?;
    out.push(kind);
    crate::message::append_bytes(out, length.as_slice());
    crate::message::append_bytes(out, data);
    assert(final(out)@ =~= old(out)@ + variable_meta(kind, data@)->Some_0);
    Ok(())
}

fn push_text_meta(out: &mut Vec<u8>, kind: u8, text: &String) -> (r: Result<(), String>)
    ensures
        variable_meta(kind, text_bytes(*text)) is Some <==> r is Ok,
        r is Ok ==> final(out)@ == old(out)@ + variable_meta(kind, text_bytes(*text))->Some_0,
{
    push_variable_meta(out, kind, text.as_str().as_bytes())
}

/// Appends the bytes of a meta event after its 0xFF.
#[verifier::rlimit(40)]
fn push_meta_payload(out: &mut Vec<u8>, e: &MetaEvent) -> (r: Result<(), String>)
    ensures
        meta_payload(*e) is Some <==> r is Ok,
        r is Ok ==> final(out)@ == old(out)@ + meta_payload(*e)->Some_0,
{
    match e {
        MetaEvent::SequenceNumber(n) => {
            out.push(0x00);
            out.push(0x02);
            push_be16(out, *n);
            assert(final(out)@ =~= old(out)@ + meta_payload(*e)->Some_0);
            Ok(())
        },
        MetaEvent::TextEvent(s) => push_text_meta(out, 0x01, s),
        MetaEvent::CopyrightNotice(s) => push_text_meta(out, 0x02, s),
        MetaEvent::SequenceName(s) => push_text_meta(out, 0x03, s),
        MetaEvent::TrackName(s) => push_text_meta(out, 0x03, s),
        MetaEvent::InstrumentName(s) => push_text_meta(out, 0x04, s),
        MetaEvent::Lyric(s) => push_text_meta(out, 0x05, s),
        MetaEvent::Marker(s) => push_text_meta(out, 0x06, s),
        MetaEvent::CuePoint(s) => push_text_meta(out, 0x07, s),
        MetaEvent::MidiChannelPrefix(c) => {
            out.push(0x20);
            out.push(0x01);
            out.push(u8::from(*c));
            assert(final(out)@ =~= old(out)@ + meta_payload(*e)->Some_0);
            Ok(())
        },
        MetaEvent::EndOfTrack => {
            out.push(0x2F);
            out.push(0x00);
            assert(final(out)@ =~= old(out)@ + meta_payload(*e)->Some_0);
            Ok(())
        },
        MetaEvent::SetTempo(t) => {
            out.push(0x51);
            out.push(0x03);
            push_be24(out, *t);
            assert(final(out)@ =~= old(out)@ + meta_payload(*e)->Some_0);
            Ok(())
        },
        MetaEvent::SmpteOffset { hour, minute, second, frame, sub_frame } => {
            out.push(0x54);
            out.push(0x05);
            out.push(*hour);
            out.push(*minute);
            out.push(*second);
            out.push(*frame);
            out.push(*sub_frame);
            assert(final(out)@ =~= old(out)@ + meta_payload(*e)->Some_0);
            Ok(())
        },
        MetaEvent::TimeSignature {
            numerator,
            denominator,
            clocks_per_click,
            notated_32nd_notes_per_quarter_note,
        } => {
            out.push(0x58);
            out.push(0x04);
            out.push(*numerator);
            out.push(*denominator);
            out.push(*clocks_per_click);
            out.push(*notated_32nd_notes_per_quarter_note);
            assert(final(out)@ =~= old(out)@ + meta_payload(*e)->Some_0);
            Ok(())
        },
        MetaEvent::KeySignature { key, scale } => {
            out.push(0x59);
            out.push(0x02);
            let kb: u8 = if *key >= 0 {
                *key as u8
            } else {
                (*key as i16 + 256) as u8
            };
            out.push(kb);
            out.push(
                match scale {
                    MusicalScale::Major => 0x00,
                    MusicalScale::Minor => 0x01,
                },
            );
            assert(final(out)@ =~= old(out)@ + meta_payload(*e)->Some_0);
            Ok(())
        },
        MetaEvent::SequencerSpecific(d) => push_variable_meta(out, 0x7F, d.as_slice()),
    }
}

} // verus!

verus! {

/// Appends one event (not a System Exclusive one) with delta time `delta`
/// after running status `rs`; returns the running status after it.
fn write_event(out: &mut Vec<u8>, delta: u32, event: &Event, rs: Option<u8>) -> (r: Result<
    Option<u8>,
    String,
>)
    requires
        !(event is SysExEvent),
    ensures
        r is Ok <==> event_bytes(MidiTrackEvent { delta_time: delta, event: *event }, rs) is Some,
        r matches Ok(next) ==> event_bytes(MidiTrackEvent { delta_time: delta, event: *event }, rs)
            == Some((final(out)@.subrange(old(out)@.len() as int, final(out)@.len() as int), next))
            && final(out)@.len() >= old(out)@.len() && final(out)@.subrange(
            0,
            old(out)@.len() as int,
        ) == old(out)@,
{
    let ghost before = out@;
    match event {
        Event::MetaEvent(m) => {
            let delta_bytes = crate::vlq::to_var_length_bytes(delta)?;
            crate::message::append_bytes(out, delta_bytes.as_slice());
            out.push(0xFF);
            push_meta_payload(out, m)?;
            assert(out@.subrange(before.len() as int, out@.len() as int) =~= delta_bytes@ + seq![
                0xFFu8,
            ] + meta_payload(*m)->Some_0);
            assert(out@.subrange(0, before.len() as int) =~= before);
            Ok(None)
        },
        Event::MidiEvent(msg) => {
            let channel = match msg {
                MidiMessage::Channel { .. } => true,
                _ => false,
            };
            if !channel {
                return Err("Only channel messages can stand in a track".to_string());
            }
            let delta_bytes = crate::vlq::to_var_length_bytes(delta)?;
            crate::message::append_bytes(out, delta_bytes.as_slice());
            let bytes = msg.encode();
            let status = bytes[0];
            let next = if rs.is_some() && rs.unwrap() == status {
                let tail = vstd::slice::slice_subrange(bytes.as_slice(), 1, bytes.len());
                assert(tail@ =~= bytes@.drop_first());
                crate::message::append_bytes(out, tail);
                assert(out@.subrange(before.len() as int, out@.len() as int) =~= delta_bytes@
                    + bytes@.drop_first());
                rs
            } else {
                crate::message::append_bytes(out, bytes.as_slice());
                assert(out@.subrange(before.len() as int, out@.len() as int) =~= delta_bytes@
                    + bytes@);
                Some(status)
            };
            assert(out@.subrange(0, before.len() as int) =~= before);
            Ok(next)
        },
        Event::SysExEvent => Err("System Exclusive events carry no bytes to write".to_string()),
    }
}

/// Writes the body of a track: each event with its delta time, using
/// running status for consecutive channel messages of one status byte.
/// System Exclusive events are left out, their delta times carried forward.
fn write_track_body(events: &Vec<MidiTrackEvent>) -> (r: Result<Vec<u8>, String>)
    ensures
        r is Ok <==> track_body(events@, None, 0) is Some,
        r matches Ok(v) ==> track_body(events@, None, 0) == Some(v@),
{
    let mut out: Vec<u8> = Vec::new();
    let mut rs: Option<u8> = None;
    let mut carry: u32 = 0;
    let mut i: usize = 0;
    let n = events.len();
    assert(events@.subrange(0, n as int) =~= events@);
    assert(out@ + Seq::<u8>::empty() =~= out@);
    while i < n
        invariant
            n == events@.len(),
            i <= n,
            carry <= crate::vlq::VLQ_MAX,
            track_body(events@, None, 0) == prepend(
                out@,
                track_body(events@.subrange(i as int, n as int), rs, carry as nat),
            ),
        decreases n - i,
    {
        let ghost rest = events@.subrange(i as int, n as int);
        let ghost before = out@;
        assert(rest[0] == events@[i as int]);
        assert(rest.drop_first() =~= events@.subrange(i + 1, n as int));
        let e = &events[i];
        if e.delta_time as u64 + carry as u64 > crate::vlq::VLQ_MAX as u64 {
            return Err("Delta time exceeds the largest variable-length quantity".to_string());
        }
        let delta = carry + e.delta_time;
        let skip = match &e.event {
            Event::SysExEvent => true,
            _ => false,
        };
        if skip {
            carry = delta;
        } else {
            assert(carried(rest[0], carry as nat) == (MidiTrackEvent { delta_time: delta, event: e.event }));
            rs = write_event(&mut out, delta, &e.event, rs)?;
            carry = 0;
            let ghost b = out@.subrange(before.len() as int, out@.len() as int);
            assert(out@ =~= before + b);
            let end = match &e.event {
                Event::MetaEvent(MetaEvent::EndOfTrack) => true,
                _ => false,
            };
            assert(end == is_end_of_track(rest[0].event));
            if end {
                if i + 1 < n {
                    return Err("Track contains events after End of Track".to_string());
                }
                return Ok(out);
            }
            proof {
                match track_body(rest.drop_first(), rs, 0) {
                    Some(t) => {
                        assert(before + (b + t) =~= out@ + t);
                    },
                    None => {},
                }
            }
        }
        i += 1;
    }
    let ghost before = out@;
    let delta_bytes = crate::vlq::to_var_length_bytes(carry)?;
    crate::message::append_bytes(&mut out, delta_bytes.as_slice());
    out.push(0xFF);
    out.push(0x2F);
    out.push(0x00);
    assert(out@ =~= before + (delta_bytes@ + seq![0xFFu8, 0x2Fu8, 0x00u8]));
    Ok(out)
}

fn write_header(h: &MidiHeader) -> (r: Vec<u8>)
    ensures
        r@ == header_bytes(*h),
{
    let mut data: Vec<u8> = Vec::new();
    data.push(0x4D);
    data.push(0x54);
    data.push(0x68);
    data.push(0x64);
    data.push(0x00);
    data.push(0x00);
    data.push(0x00);
    data.push(0x06);
    let format: u16 = match h.format {
        MidiFormat::SingleMultiChannelTrack => 0,
        MidiFormat::MultiTrackSequence => 1,
        MidiFormat::MultiSequence => 2,
    };
    push_be16(&mut data, format);
    push_be16(&mut data, h.num_tracks);
    let division: u16 = match h.division {
        MidiDivision::TicksPerQuarterNote(t) => t,
        MidiDivision::TimeCode(fps, t) => {
            let hi: u16 = match fps {
                FramesPerSecond::Fps24 => 0xE8,
                FramesPerSecond::Fps25 => 0xE7,
                FramesPerSecond::Fps30DropFrame => 0xE3,
                FramesPerSecond::Fps30 => 0xE2,
            };
            hi * 0x100 + t as u16
        },
    };
    push_be16(&mut data, division);
    assert(data@ =~= header_bytes(*h));
    data
}

impl MidiFile {
    /// The Standard MIDI File bytes of this file.
    pub fn to_bytes(&self) -> (r: Result<Vec<u8>, String>)
        ensures
            r is Ok <==> file_bytes(*self) is Some,
            r matches Ok(v) ==> file_bytes(*self) == Some(v@),
    {
        let h = self.header;
        if h.num_tracks == 0 {
            return Err("MIDI file must contain at least one track".to_string());
        }
        if h.num_tracks as usize != self.tracks.len() {
            return Err("Number of tracks in header does not match number of tracks in file".to_string());
        }
        let single = match h.format {
            MidiFormat::SingleMultiChannelTrack => true,
            _ => false,
        };
        if single && h.num_tracks != 1 {
            return Err("Single multi-channel track format must have exactly one track".to_string());
        }
        let mut data = write_header(&h);
        assert(data@ =~= header_bytes(h));
        let n = self.tracks.len();
        let mut i: usize = 0;
        assert(self.tracks@.subrange(0, n as int) =~= self.tracks@);
        while i < n
            invariant
                n == self.tracks@.len(),
                i <= n,
                file_bytes(*self) == prepend(data@, tracks_bytes(self.tracks@.subrange(i as int, n as int))),
            decreases n - i,
        {
            let ghost rest = self.tracks@.subrange(i as int, n as int);
            assert(rest[0] == self.tracks@[i as int]);
            assert(rest.drop_first() =~= self.tracks@.subrange(i + 1, n as int));
            let ghost before = data@;
            let body = write_track_body(&self.tracks[i].0)?;
            if body.len() > 0xFFFF_FFFF {
                return Err("Track is too long".to_string());
            }
            data.push(0x4D);
            data.push(0x54);
            data.push(0x72);
            data.push(0x6B);
            push_be32(&mut data, body.len() as u32);
            crate::message::append_bytes(&mut data, body.as_slice());
            let ghost c = track_chunk_type() + be32(body@.len() as u32) + body@;
            assert(data@ =~= before + c);
            proof {
                match tracks_bytes(rest.drop_first()) {
                    Some(t) => {
                        assert(before + (c + t) =~= data@ + t);
                    },
                    None => {},
                }
            }
            i += 1;
        }
        assert(data@ + Seq::<u8>::empty() =~= data@);
        Ok(data)
    }
}

impl<'a> TryFrom<&'a MidiFile> for Vec<u8> {
    type Error = String;

    fn try_from(value: &'a MidiFile) -> (r: Result<Vec<u8>, String>)
        ensures
            r is Ok <==> file_bytes(*value) is Some,
            r matches Ok(v) ==> file_bytes(*value) == Some(v@),
    {
        value.to_bytes()
    }
}

/// The error text is not part of the contract; `try_from` states its own result.
impl<'a> vstd::std_specs::convert::TryFromSpecImpl<&'a MidiFile> for Vec<u8> {
    open spec fn obeys_try_from_spec() -> bool {
        false
    }

    open spec fn try_from_spec(v: &'a MidiFile) -> Result<Vec<u8>, String> {
        Err(arbitrary())
    }
}

} // verus!
