//! Snapshots of the engine for the user interface.
use vstd::prelude::*;
use vstd::string::*;

use crate::device::MidiStateInner;
use crate::playback::{MidiPlayback, PlaybackView, TrackInfo, total_delay};
use crate::recorder::MidiRecorder;
use crate::message::TimeStampedMidiMessage;

verus! {

#[derive(Debug, Clone, PartialEq)]
pub struct MidiInputPort {
    pub id: String,
    pub name: String,
}

#[derive(Debug, Clone, PartialEq)]
pub struct MidiOutputPort {
    pub id: String,
    pub name: String,
}

#[derive(Debug, Clone, PartialEq)]
pub struct Midi {
    pub available_input_ports: Vec<MidiInputPort>,
    pub available_output_ports: Vec<MidiOutputPort>,
    pub input_connection: Option<MidiInputPort>,
    pub output_connection: Option<MidiOutputPort>,
}

pub open spec fn input_port_matches(p: MidiInputPort, q: crate::device::MidiInputPort) -> bool {
    p.id == q.id && p.name == q.name
}

pub open spec fn output_port_matches(p: MidiOutputPort, q: crate::device::MidiOutputPort) -> bool {
    p.id == q.id && p.name == q.name
}

impl<'a> From<&'a MidiStateInner> for Midi {
    fn from(state: &'a MidiStateInner) -> (r: Midi)
        ensures
            r.available_input_ports@.len() == state.available_input_ports@.len(),
            forall|i: int|
                0 <= i < r.available_input_ports@.len() ==> input_port_matches(
                    #[trigger] r.available_input_ports@[i],
                    state.available_input_ports@[i],
                ),
            r.available_output_ports@.len() == state.available_output_ports@.len(),
            forall|i: int|
                0 <= i < r.available_output_ports@.len() ==> output_port_matches(
                    #[trigger] r.available_output_ports@[i],
                    state.available_output_ports@[i],
                ),
            r.input_connection is Some <==> state.input_connection is Some,
            r.input_connection matches Some(p) ==> input_port_matches(p, state.input_connection->Some_0),
            r.output_connection is Some <==> state.output_connection is Some,
            r.output_connection matches Some(p) ==> output_port_matches(p, state.output_connection->Some_0),
    {
        let mut inputs: Vec<MidiInputPort> = Vec::new();
        let mut i: usize = 0;
        while i < state.available_input_ports.len()
            invariant
                i <= state.available_input_ports@.len(),
                inputs@.len() == i,
                forall|j: int|
                    0 <= j < i ==> input_port_matches(
                        #[trigger] inputs@[j],
                        state.available_input_ports@[j],
                    ),
            decreases state.available_input_ports@.len() - i,
        {
            let p = &state.available_input_ports[i];
            inputs.push(MidiInputPort { id: p.id.clone(), name: p.name.clone() });
            i += 1;
        }
        let mut outputs: Vec<MidiOutputPort> = Vec::new();
        let mut i: usize = 0;
        while i < state.available_output_ports.len()
            invariant
                i <= state.available_output_ports@.len(),
                outputs@.len() == i,
                forall|j: int|
                    0 <= j < i ==> output_port_matches(
                        #[trigger] outputs@[j],
                        state.available_output_ports@[j],
                    ),
            decreases state.available_output_ports@.len() - i,
        {
            let p = &state.available_output_ports[i];
            outputs.push(MidiOutputPort { id: p.id.clone(), name: p.name.clone() });
            i += 1;
        }
        let input_connection = match &state.input_connection {
            Some(p) => Some(MidiInputPort { id: p.id.clone(), name: p.name.clone() }),
            None => None,
        };
        let output_connection = match &state.output_connection {
            Some(p) => Some(MidiOutputPort { id: p.id.clone(), name: p.name.clone() }),
            None => None,
        };
        Midi {
            available_input_ports: inputs,
            available_output_ports: outputs,
            input_connection,
            output_connection,
        }
    }
}

/// A snapshot cannot be built in spec code; `from` states its own result.
impl<'a> vstd::std_specs::convert::FromSpecImpl<&'a MidiStateInner> for Midi {
    open spec fn obeys_from_spec() -> bool {
        false
    }

    open spec fn from_spec(v: &'a MidiStateInner) -> Midi {
        arbitrary()
    }
}

#[derive(Debug, Clone, Copy, PartialEq, Eq, Structural)]
pub enum RecorderState {
    Stopped,
    Recording,
    Paused,
}

#[derive(Debug, Clone, Copy, PartialEq, Eq, Structural)]
pub struct Recording {
    pub index: usize,
    pub duration_milliseconds: u32,
}

#[derive(Debug, Clone, PartialEq)]
pub struct Recorder {
    pub state: RecorderState,
    pub recordings: Vec<Recording>,
}

/// The length of a take in milliseconds: from its first to its last
/// message, or the first time stamp for a take of one message; zero where
/// the last is stamped before the first. Kept to 32 bits, as the interface shows it.
pub open spec fn take_milliseconds(take: Seq<TimeStampedMidiMessage>) -> u32 {
    let ms: nat = if take.len() == 0 {
        0
    } else if take.len() == 1 {
        take[0].timestamp_microseconds as nat / 1000
    } else if take.last().timestamp_microseconds >= take[0].timestamp_microseconds {
        ((take.last().timestamp_microseconds - take[0].timestamp_microseconds) / 1000) as nat
    } else {
        0
    };
    (ms % 0x1_0000_0000) as u32
}

fn take_duration(take: &Vec<TimeStampedMidiMessage>) -> (r: u32)
    ensures
        r == take_milliseconds(take@),
{
    let n = take.len();
    let ms: u64 = if n == 0 {
        0
    } else if n == 1 {
        take[0].timestamp_microseconds / 1000
    } else if take[n - 1].timestamp_microseconds >= take[0].timestamp_microseconds {
        (take[n - 1].timestamp_microseconds - take[0].timestamp_microseconds) / 1000
    } else {
        0
    };
    (ms % 0x1_0000_0000) as u32
}

impl<'a> From<&'a MidiRecorder> for Recorder {
    fn from(value: &'a MidiRecorder) -> (r: Recorder)
        ensures
            r.state == (match value@.state {
                crate::recorder::RecorderState::Stopped => RecorderState::Stopped,
                crate::recorder::RecorderState::Recording => RecorderState::Recording,
            }),
            r.recordings@.len() == value@.recordings.len(),
            forall|i: int|
                0 <= i < r.recordings@.len() ==> #[trigger] r.recordings@[i] == (Recording {
                    index: i as usize,
                    duration_milliseconds: take_milliseconds(value@.recordings[i]),
                }),
    {
        let state = match value.get_state() {
            crate::recorder::RecorderState::Stopped => RecorderState::Stopped,
            crate::recorder::RecorderState::Recording => RecorderState::Recording,
        };
        let takes = value.get_recordings();
        let ghost views = value@.recordings;
        let mut recordings: Vec<Recording> = Vec::new();
        let mut i: usize = 0;
        while i < takes.len()
            invariant
                takes@.map_values(|v: Vec<TimeStampedMidiMessage>| v@) == views,
                i <= takes@.len(),
                recordings@.len() == i,
                forall|j: int|
                    0 <= j < i ==> #[trigger] recordings@[j] == (Recording {
                        index: j as usize,
                        duration_milliseconds: take_milliseconds(views[j]),
                    }),
            decreases takes@.len() - i,
        {
            assert(views[i as int] == takes@[i as int]@);
            recordings.push(Recording { index: i, duration_milliseconds: take_duration(&takes[i]) });
            i += 1;
        }
        Recorder { state, recordings }
    }
}

/// A snapshot cannot be built in spec code; `from` states its own result.
impl<'a> vstd::std_specs::convert::FromSpecImpl<&'a MidiRecorder> for Recorder {
    open spec fn obeys_from_spec() -> bool {
        false
    }

    open spec fn from_spec(v: &'a MidiRecorder) -> Recorder {
        arbitrary()
    }
}

} // verus!

verus! {

#[derive(Debug, Clone, Copy, PartialEq, Eq, Structural)]
pub enum PlaybackState {
    Stopped,
    Playing,
    Paused,
}

#[derive(Debug, Clone, PartialEq)]
pub enum PlaybackIdentifier {
    Recording { index: usize },
    MidiFile { path: String },
}

#[derive(Debug, Clone, Copy, PartialEq, Eq, Structural)]
pub struct Track {
    pub index: usize,
    pub duration_milliseconds: u32,
}

#[derive(Debug, Clone, PartialEq)]
pub struct Playback {
    pub state: PlaybackState,
    pub identifier: Option<PlaybackIdentifier>,
    pub tracks: Vec<Track>,
    pub duration_milliseconds: Option<u32>,
    pub position_milliseconds: u32,
}

/// The character of decimal digit `d`.
pub open spec fn digit_char(d: nat) -> char {
    if d == 0 {
        '0'
    } else if d == 1 {
        '1'
    } else if d == 2 {
        '2'
    } else if d == 3 {
        '3'
    } else if d == 4 {
        '4'
    } else if d == 5 {
        '5'
    } else if d == 6 {
        '6'
    } else if d == 7 {
        '7'
    } else if d == 8 {
        '8'
    } else {
        '9'
    }
}

/// The decimal digits of `n`, most significant first, without leading zeros.
pub open spec fn decimal_text(n: nat) -> Seq<char>
    decreases n,
{
    if n < 10 {
        seq![digit_char(n)]
    } else {
        decimal_text(n / 10).push(digit_char(n % 10))
    }
}

/// Relies on `ToString` through the `Display` impl of `usize`, which writes
/// an unsigned integer as its decimal digits.
#[verifier::external_body]
fn decimal_string(index: usize) -> (r: String)
    ensures
        r@ == decimal_text(index as nat),
{
    index.to_string()
}

/// The name the interface gives loaded track `index`.
fn track_label(index: usize) -> (r: String)
    ensures
        r@ == "Track "@ + decimal_text(index as nat),
{
    let digits = decimal_string(index);
    let mut label = String::from_str("Track ");
    label.append(digits.as_str());
    label
}

/// How the interface names the source of a run.
pub open spec fn identifier_matches(id: PlaybackIdentifier, info: TrackInfo) -> bool {
    match info {
        TrackInfo::Recording(index) => id == PlaybackIdentifier::Recording { index },
        TrackInfo::StandardMidiFile(index) => id matches PlaybackIdentifier::MidiFile { path }
            && path@ == "Track "@ + decimal_text(index as nat),
    }
}

fn identifier_of(info: TrackInfo) -> (r: PlaybackIdentifier)
    ensures
        identifier_matches(r, info),
{
    match info {
        TrackInfo::Recording(index) => PlaybackIdentifier::Recording { index },
        TrackInfo::StandardMidiFile(index) => PlaybackIdentifier::MidiFile { path: track_label(index) },
    }
}

fn track_milliseconds(track: &crate::playback::Track) -> (r: u32)
    ensures
        r as nat == (total_delay(track@) / 1000) % 0x1_0000_0000,
{
    let mut total: u128 = 0;
    let mut i: usize = 0;
    while i < track.0.len()
        invariant
            i <= track@.len(),
            total as nat == total_delay(track@.subrange(0, i as int)),
            total <= i * 0xFFFF_FFFF_FFFF_FFFF,
        decreases track@.len() - i,
    {
        assert(track@.subrange(0, i + 1).drop_last() =~= track@.subrange(0, i as int));
        assert(track@[i as int].0 == track.0@[i as int].0);
        total = total + track.0[i].0 as u128;
        i += 1;
    }
    assert(track@.subrange(0, i as int) =~= track@);
    ((total / 1000) % 0x1_0000_0000) as u32
}

impl<'a> From<&'a MidiPlayback> for Playback {
    fn from(playback: &'a MidiPlayback) -> (r: Playback)
        ensures
            ({
                let v: PlaybackView = playback@;
                &&& r.state == (match v.state {
                    crate::playback::PlaybackState::Stopped => PlaybackState::Stopped,
                    crate::playback::PlaybackState::Playing(_) => PlaybackState::Playing,
                    crate::playback::PlaybackState::Paused(_) => PlaybackState::Paused,
                })
                &&& r.identifier is Some <==> !(v.state is Stopped)
                &&& r.identifier matches Some(id) ==> identifier_matches(
                    id,
                    match v.state {
                        crate::playback::PlaybackState::Playing(info) => info,
                        crate::playback::PlaybackState::Paused(info) => info,
                        crate::playback::PlaybackState::Stopped => TrackInfo::Recording(0),
                    },
                )
                &&& r.tracks@.len() == v.tracks.len()
                &&& forall|i: int|
                    0 <= i < r.tracks@.len() ==> #[trigger] r.tracks@[i] == (Track {
                        index: i as usize,
                        duration_milliseconds: ((total_delay(v.tracks[i]) / 1000) % 0x1_0000_0000) as u32,
                    })
                &&& r.duration_milliseconds == (match v.duration_milliseconds {
                    Some(d) => Some((d % 0x1_0000_0000) as u32),
                    None => None,
                })
                &&& r.position_milliseconds == (v.position_milliseconds % 0x1_0000_0000) as u32
            }),
    {
        let (state, identifier) = match playback.get_state() {
            crate::playback::PlaybackState::Stopped => (PlaybackState::Stopped, None),
            crate::playback::PlaybackState::Playing(info) => (
                PlaybackState::Playing,
                Some(identifier_of(info)),
            ),
            crate::playback::PlaybackState::Paused(info) => (
                PlaybackState::Paused,
                Some(identifier_of(info)),
            ),
        };
        let src = playback.get_tracks();
        let ghost views = playback@.tracks;
        let mut tracks: Vec<Track> = Vec::new();
        let mut i: usize = 0;
        while i < src.len()
            invariant
                src@.map_values(|t: crate::playback::Track| t@) == views,
                i <= src@.len(),
                tracks@.len() == i,
                forall|j: int|
                    0 <= j < i ==> #[trigger] tracks@[j] == (Track {
                        index: j as usize,
                        duration_milliseconds: ((total_delay(views[j]) / 1000) % 0x1_0000_0000) as u32,
                    }),
            decreases src@.len() - i,
        {
            assert(views[i as int] == src@[i as int]@);
            tracks.push(Track { index: i, duration_milliseconds: track_milliseconds(&src[i]) });
            i += 1;
        }
        let duration_milliseconds = match playback.get_duration() {
            Some(d) => Some((d % 0x1_0000_0000) as u32),
            None => None,
        };
        let position_milliseconds = (playback.get_position() % 0x1_0000_0000) as u32;
        Playback { state, identifier, tracks, duration_milliseconds, position_milliseconds }
    }
}

/// A snapshot cannot be built in spec code; `from` states its own result.
impl<'a> vstd::std_specs::convert::FromSpecImpl<&'a MidiPlayback> for Playback {
    open spec fn obeys_from_spec() -> bool {
        false
    }

    open spec fn from_spec(v: &'a MidiPlayback) -> Playback {
        arbitrary()
    }
}

} // verus!
