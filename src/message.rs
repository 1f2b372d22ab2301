//! MIDI 1.0 messages: the structured form, the wire encoding and the decoder.
use vstd::prelude::*;
use vstd::slice::{slice_subrange, slice_to_vec};

verus! {

/// One of the sixteen MIDI channels, numbered from 1 as musicians count them.
#[derive(Debug, PartialEq, Eq, Clone, Copy, Structural)]
pub enum MidiChannel {
    Channel1,
    Channel2,
    Channel3,
    Channel4,
    Channel5,
    Channel6,
    Channel7,
    Channel8,
    Channel9,
    Channel10,
    Channel11,
    Channel12,
    Channel13,
    Channel14,
    Channel15,
    Channel16,
}

/// The wire number (0..=15) of a channel.
pub open spec fn channel_number(c: MidiChannel) -> u8 {
    match c {
        MidiChannel::Channel1 => 0,
        MidiChannel::Channel2 => 1,
        MidiChannel::Channel3 => 2,
        MidiChannel::Channel4 => 3,
        MidiChannel::Channel5 => 4,
        MidiChannel::Channel6 => 5,
        MidiChannel::Channel7 => 6,
        MidiChannel::Channel8 => 7,
        MidiChannel::Channel9 => 8,
        MidiChannel::Channel10 => 9,
        MidiChannel::Channel11 => 10,
        MidiChannel::Channel12 => 11,
        MidiChannel::Channel13 => 12,
        MidiChannel::Channel14 => 13,
        MidiChannel::Channel15 => 14,
        MidiChannel::Channel16 => 15,
    }
}

/// The channel whose wire number is `n` (meaningful for `n < 16`).
pub open spec fn channel_from_number(n: u8) -> MidiChannel {
    if n == 0 {
        MidiChannel::Channel1
    } else if n == 1 {
        MidiChannel::Channel2
    } else if n == 2 {
        MidiChannel::Channel3
    } else if n == 3 {
        MidiChannel::Channel4
    } else if n == 4 {
        MidiChannel::Channel5
    } else if n == 5 {
        MidiChannel::Channel6
    } else if n == 6 {
        MidiChannel::Channel7
    } else if n == 7 {
        MidiChannel::Channel8
    } else if n == 8 {
        MidiChannel::Channel9
    } else if n == 9 {
        MidiChannel::Channel10
    } else if n == 10 {
        MidiChannel::Channel11
    } else if n == 11 {
        MidiChannel::Channel12
    } else if n == 12 {
        MidiChannel::Channel13
    } else if n == 13 {
        MidiChannel::Channel14
    } else if n == 14 {
        MidiChannel::Channel15
    } else {
        MidiChannel::Channel16
    }
}

pub proof fn lemma_channel_number_round_trip(c: MidiChannel)
    ensures
        channel_number(c) < 16,
        channel_from_number(channel_number(c)) == c,
{
}

impl From<MidiChannel> for u8 {
    fn from(channel: MidiChannel) -> (r: u8)
        ensures
            r == channel_number(channel),
    {
        match channel {
            MidiChannel::Channel1 => 0,
            MidiChannel::Channel2 => 1,
            MidiChannel::Channel3 => 2,
            MidiChannel::Channel4 => 3,
            MidiChannel::Channel5 => 4,
            MidiChannel::Channel6 => 5,
            MidiChannel::Channel7 => 6,
            MidiChannel::Channel8 => 7,
            MidiChannel::Channel9 => 8,
            MidiChannel::Channel10 => 9,
            MidiChannel::Channel11 => 10,
            MidiChannel::Channel12 => 11,
            MidiChannel::Channel13 => 12,
            MidiChannel::Channel14 => 13,
            MidiChannel::Channel15 => 14,
            MidiChannel::Channel16 => 15,
        }
    }
}

impl vstd::std_specs::convert::FromSpecImpl<MidiChannel> for u8 {
    open spec fn obeys_from_spec() -> bool {
        true
    }

    open spec fn from_spec(v: MidiChannel) -> u8 {
        channel_number(v)
    }
}


impl TryFrom<u8> for MidiChannel {
    type Error = String;

    fn try_from(value: u8) -> (r: Result<MidiChannel, String>)
        ensures
            value < 16 ==> r == Ok::<MidiChannel, String>(channel_from_number(value)),
            value >= 16 ==> r is Err,
    {
        match value {
            0 => Ok(MidiChannel::Channel1),
            1 => Ok(MidiChannel::Channel2),
            2 => Ok(MidiChannel::Channel3),
            3 => Ok(MidiChannel::Channel4),
            4 => Ok(MidiChannel::Channel5),
            5 => Ok(MidiChannel::Channel6),
            6 => Ok(MidiChannel::Channel7),
            7 => Ok(MidiChannel::Channel8),
            8 => Ok(MidiChannel::Channel9),
            9 => Ok(MidiChannel::Channel10),
            10 => Ok(MidiChannel::Channel11),
            11 => Ok(MidiChannel::Channel12),
            12 => Ok(MidiChannel::Channel13),
            13 => Ok(MidiChannel::Channel14),
            14 => Ok(MidiChannel::Channel15),
            15 => Ok(MidiChannel::Channel16),
            _ => Err("Invalid MIDI channel: must be between 0 and 15 on the wire".to_string()),
        }
    }
}

/// The error text of a failed conversion is not part of the contract, so the
/// generic conversion law is not claimed; `try_from` states its own result.
impl vstd::std_specs::convert::TryFromSpecImpl<u8> for MidiChannel {
    open spec fn obeys_try_from_spec() -> bool {
        false
    }

    open spec fn try_from_spec(v: u8) -> Result<MidiChannel, String> {
        Ok(channel_from_number(v))
    }
}

/// A channel voice message: what a performer plays.
#[derive(Debug, PartialEq, Eq, Clone, Copy, Structural)]
pub enum ChannelVoiceMessage {
    NoteOff { note: u8, velocity: u8 },
    NoteOn { note: u8, velocity: u8 },
    PolyphonicKeyPressure { note: u8, pressure: u8 },
    ControlChange { controller: u8, value: u8 },
    ProgramChange(u8),
    ChannelPressure(u8),
    PitchBendChange(u16),
}

/// A channel mode message: a control change whose controller lies in 0x78..=0x7F.
#[derive(Debug, PartialEq, Eq, Clone, Copy, Structural)]
pub enum ChannelModeMessage {
    AllSoundOff,
    ResetAllControllers,
    LocalControlOff,
    LocalControlOn,
    AllNotesOff,
    OmniModeOff,
    OmniModeOn,
    MonoMode { number_of_voices: u8 },
    PolyMode,
}

#[derive(Debug, PartialEq, Eq, Clone, Copy, Structural)]
pub enum ChannelMessage {
    Voice(ChannelVoiceMessage),
    Mode(ChannelModeMessage),
}

#[derive(Debug, PartialEq, Eq, Clone, Copy, Structural)]
pub enum SystemCommonMessage {
    MidiTimeCodeQuarterFrame,
    SongPositionPointer(u16),
    SongSelect(u8),
    TuneRequest,
    EndOfSystemExclusive,
}

#[derive(Debug, PartialEq, Eq, Clone, Copy, Structural)]
pub enum SystemRealTimeMessage {
    TimingClock,
    Start,
    Continue,
    Stop,
    ActiveSensing,
    SystemReset,
}

/// The identification that opens a System Exclusive message.
#[derive(Debug, PartialEq, Eq, Clone)]
pub enum SystemExclusiveSubId {
    /// One byte in 0x01..=0x7C, or three bytes starting with 0x00.
    ManufacturerIdentification(Vec<u8>),
    NonCommercial,
    NonRealTime,
    RealTime,
}

/// A System Exclusive message; `data` is the payload without the closing 0xF7.
#[derive(Debug, PartialEq, Eq, Clone)]
pub struct SystemExclusiveMessage {
    pub sub_id: SystemExclusiveSubId,
    pub data: Vec<u8>,
}

#[derive(Debug, PartialEq, Eq, Clone)]
pub enum SystemMessage {
    Common(SystemCommonMessage),
    RealTime(SystemRealTimeMessage),
    Exclusive(SystemExclusiveMessage),
}

#[derive(Debug, PartialEq, Eq, Clone)]
pub enum MidiMessage {
    Channel { channel: MidiChannel, message: ChannelMessage },
    System(SystemMessage),
}

/// A message stamped with the microseconds since some origin (the start of a recording).
#[derive(Debug, PartialEq, Eq, Clone)]
pub struct TimeStampedMidiMessage {
    pub timestamp_microseconds: u64,
    pub message: MidiMessage,
}

pub open spec fn is_data(b: u8) -> bool {
    b < 128
}

/// A byte that may stand in a System Exclusive message: a data byte, or a
/// real-time status byte (0xF8..=0xFF) interleaved with the data.
pub open spec fn sysex_byte_ok(b: u8) -> bool {
    b < 0x80 || b >= 0xF8
}

impl ChannelVoiceMessage {
    /// Every data byte is below 128, a controller is not one of the mode
    /// selectors, and a pitch bend fits in 14 bits.
    pub open spec fn wf(self) -> bool {
        match self {
            ChannelVoiceMessage::NoteOff { note, velocity } => is_data(note) && is_data(velocity),
            ChannelVoiceMessage::NoteOn { note, velocity } => is_data(note) && is_data(velocity),
            ChannelVoiceMessage::PolyphonicKeyPressure { note, pressure } => is_data(note)
                && is_data(pressure),
            ChannelVoiceMessage::ControlChange { controller, value } => controller < 0x78
                && is_data(value),
            ChannelVoiceMessage::ProgramChange(p) => is_data(p),
            ChannelVoiceMessage::ChannelPressure(p) => is_data(p),
            ChannelVoiceMessage::PitchBendChange(v) => v < 0x4000,
        }
    }
}

impl ChannelMessage {
    pub open spec fn wf(self) -> bool {
        match self {
            ChannelMessage::Voice(v) => v.wf(),
            ChannelMessage::Mode(ChannelModeMessage::MonoMode { number_of_voices }) => is_data(
                number_of_voices,
            ),
            ChannelMessage::Mode(_) => true,
        }
    }
}

impl SystemExclusiveSubId {
    pub open spec fn wf(self) -> bool {
        match self {
            SystemExclusiveSubId::ManufacturerIdentification(id) => (id@.len() == 1 && 0 < id@[0]
                < 0x7D) || (id@.len() == 3 && id@[0] == 0 && is_data(id@[1]) && is_data(id@[2])),
            _ => true,
        }
    }
}

impl MidiMessage {
    /// A message that some byte string decodes to: every field within the
    /// range that its wire form can carry.
    pub open spec fn wf(self) -> bool {
        match self {
            MidiMessage::Channel { channel, message } => message.wf(),
            MidiMessage::System(SystemMessage::Common(c)) => match c {
                SystemCommonMessage::SongPositionPointer(p) => p < 0x4000,
                SystemCommonMessage::SongSelect(s) => is_data(s),
                _ => true,
            },
            MidiMessage::System(SystemMessage::RealTime(_)) => true,
            MidiMessage::System(SystemMessage::Exclusive(x)) => x.sub_id.wf() && forall|j: int|
                0 <= j < x.data@.len() ==> sysex_byte_ok(#[trigger] x.data@[j]),
        }
    }
}

/// The opcode (high nibble of the status byte) of a channel message.
pub open spec fn voice_opcode(m: ChannelMessage) -> u8 {
    match m {
        ChannelMessage::Voice(ChannelVoiceMessage::NoteOff { .. }) => 0x80,
        ChannelMessage::Voice(ChannelVoiceMessage::NoteOn { .. }) => 0x90,
        ChannelMessage::Voice(ChannelVoiceMessage::PolyphonicKeyPressure { .. }) => 0xA0,
        ChannelMessage::Voice(ChannelVoiceMessage::ControlChange { .. }) => 0xB0,
        ChannelMessage::Voice(ChannelVoiceMessage::ProgramChange(_)) => 0xC0,
        ChannelMessage::Voice(ChannelVoiceMessage::ChannelPressure(_)) => 0xD0,
        ChannelMessage::Voice(ChannelVoiceMessage::PitchBendChange(_)) => 0xE0,
        ChannelMessage::Mode(_) => 0xB0,
    }
}

/// The data bytes of a channel message on the wire.
pub open spec fn channel_data_spec(m: ChannelMessage) -> Seq<u8> {
    match m {
        ChannelMessage::Voice(v) => match v {
            ChannelVoiceMessage::NoteOff { note, velocity } => seq![note, velocity],
            ChannelVoiceMessage::NoteOn { note, velocity } => seq![note, velocity],
            ChannelVoiceMessage::PolyphonicKeyPressure { note, pressure } => seq![note, pressure],
            ChannelVoiceMessage::ControlChange { controller, value } => seq![controller, value],
            ChannelVoiceMessage::ProgramChange(p) => seq![p],
            ChannelVoiceMessage::ChannelPressure(p) => seq![p],
            ChannelVoiceMessage::PitchBendChange(v) => seq![(v % 128) as u8, ((v / 128) % 128) as u8],
        },
        ChannelMessage::Mode(mode) => match mode {
            ChannelModeMessage::AllSoundOff => seq![0x78u8, 0x00u8],
            ChannelModeMessage::ResetAllControllers => seq![0x79u8, 0x00u8],
            ChannelModeMessage::LocalControlOff => seq![0x7Au8, 0x00u8],
            ChannelModeMessage::LocalControlOn => seq![0x7Au8, 0x7Fu8],
            ChannelModeMessage::AllNotesOff => seq![0x7Bu8, 0x00u8],
            ChannelModeMessage::OmniModeOff => seq![0x7Cu8, 0x00u8],
            ChannelModeMessage::OmniModeOn => seq![0x7Du8, 0x00u8],
            ChannelModeMessage::MonoMode { number_of_voices } => seq![0x7Eu8, number_of_voices],
            ChannelModeMessage::PolyMode => seq![0x7Fu8, 0x00u8],
        },
    }
}

/// The bytes that identify a System Exclusive message after 0xF0.
pub open spec fn sub_id_bytes(id: SystemExclusiveSubId) -> Seq<u8> {
    match id {
        SystemExclusiveSubId::ManufacturerIdentification(m) => m@,
        SystemExclusiveSubId::NonCommercial => seq![0x7Du8],
        SystemExclusiveSubId::NonRealTime => seq![0x7Eu8],
        SystemExclusiveSubId::RealTime => seq![0x7Fu8],
    }
}

/// The wire form of a message. A quarter frame carries a zero data byte, as
/// the structured form keeps none; System Exclusive is not closed by 0xF7.
pub open spec fn encode_spec(m: MidiMessage) -> Seq<u8> {
    match m {
        MidiMessage::Channel { channel, message } => seq![
            (voice_opcode(message) + channel_number(channel)) as u8,
        ] + channel_data_spec(message),
        MidiMessage::System(SystemMessage::Common(c)) => match c {
            SystemCommonMessage::MidiTimeCodeQuarterFrame => seq![0xF1u8, 0x00u8],
            SystemCommonMessage::SongPositionPointer(p) => seq![
                0xF2u8,
                (p % 128) as u8,
                ((p / 128) % 128) as u8,
            ],
            SystemCommonMessage::SongSelect(s) => seq![0xF3u8, s],
            SystemCommonMessage::TuneRequest => seq![0xF6u8],
            SystemCommonMessage::EndOfSystemExclusive => seq![0xF7u8],
        },
        MidiMessage::System(SystemMessage::RealTime(r)) => seq![
            match r {
                SystemRealTimeMessage::TimingClock => 0xF8u8,
                SystemRealTimeMessage::Start => 0xFAu8,
                SystemRealTimeMessage::Continue => 0xFBu8,
                SystemRealTimeMessage::Stop => 0xFCu8,
                SystemRealTimeMessage::ActiveSensing => 0xFEu8,
                SystemRealTimeMessage::SystemReset => 0xFFu8,
            },
        ],
        MidiMessage::System(SystemMessage::Exclusive(x)) => seq![0xF0u8] + sub_id_bytes(x.sub_id)
            + x.data@,
    }
}

/// Whether the decoder accepts `b`.
pub open spec fn decodable(b: Seq<u8>) -> bool {
    &&& b.len() > 0
    &&& {
        let s = b[0];
        let n = b.len() - 1;
        if 0x80 <= s < 0xF0 {
            if s / 16 == 0xC || s / 16 == 0xD {
                n == 1 && is_data(b[1])
            } else {
                &&& n == 2
                &&& is_data(b[1])
                &&& is_data(b[2])
                &&& (s / 16 == 0xB && b[1] == 0x7A) ==> (b[2] == 0x00 || b[2] == 0x7F)
            }
        } else if s == 0xF0 {
            &&& n >= 1
            &&& is_data(b[1])
            &&& b[1] == 0 ==> n >= 3
            &&& forall|j: int| 1 <= j < b.len() ==> sysex_byte_ok(#[trigger] b[j])
        } else if s == 0xF1 || s == 0xF3 {
            n == 1 && is_data(b[1])
        } else if s == 0xF2 {
            n == 2 && is_data(b[1]) && is_data(b[2])
        } else if s == 0xF6 || s == 0xF7 || s == 0xF8 || s == 0xFA || s == 0xFB || s == 0xFC || s
            == 0xFE || s == 0xFF {
            n == 0
        } else {
            false
        }
    }
}

/// The channel message carried by opcode `op` (the high nibble) and data
/// bytes `d1`, `d2` (`d2` unused for one-byte opcodes).
pub open spec fn channel_message_of(op: u8, d1: u8, d2: u8) -> ChannelMessage {
    if op == 0x8 {
        ChannelMessage::Voice(ChannelVoiceMessage::NoteOff { note: d1, velocity: d2 })
    } else if op == 0x9 {
        ChannelMessage::Voice(ChannelVoiceMessage::NoteOn { note: d1, velocity: d2 })
    } else if op == 0xA {
        ChannelMessage::Voice(ChannelVoiceMessage::PolyphonicKeyPressure { note: d1, pressure: d2 })
    } else if op == 0xB {
        if d1 < 0x78 {
            ChannelMessage::Voice(ChannelVoiceMessage::ControlChange { controller: d1, value: d2 })
        } else {
            ChannelMessage::Mode(mode_message_of(d1, d2))
        }
    } else if op == 0xC {
        ChannelMessage::Voice(ChannelVoiceMessage::ProgramChange(d1))
    } else if op == 0xD {
        ChannelMessage::Voice(ChannelVoiceMessage::ChannelPressure(d1))
    } else {
        ChannelMessage::Voice(ChannelVoiceMessage::PitchBendChange(u14_of(d1, d2)))
    }
}

/// The 14-bit value carried by a low and a high 7-bit data byte.
pub open spec fn u14_of(lsb: u8, msb: u8) -> u16 {
    (msb * 128 + lsb) as u16
}

/// The mode message selected by controller `sel` (in 0x78..=0x7F) with value `v`.
pub open spec fn mode_message_of(sel: u8, v: u8) -> ChannelModeMessage {
    if sel == 0x78 {
        ChannelModeMessage::AllSoundOff
    } else if sel == 0x79 {
        ChannelModeMessage::ResetAllControllers
    } else if sel == 0x7A {
        if v == 0 {
            ChannelModeMessage::LocalControlOff
        } else {
            ChannelModeMessage::LocalControlOn
        }
    } else if sel == 0x7B {
        ChannelModeMessage::AllNotesOff
    } else if sel == 0x7C {
        ChannelModeMessage::OmniModeOff
    } else if sel == 0x7D {
        ChannelModeMessage::OmniModeOn
    } else if sel == 0x7E {
        ChannelModeMessage::MonoMode { number_of_voices: v }
    } else {
        ChannelModeMessage::PolyMode
    }
}

/// The sub-id that a System Exclusive payload `p` (bytes after 0xF0) opens with.
pub open spec fn sysex_sub_id_matches(p: Seq<u8>, id: SystemExclusiveSubId) -> bool {
    if p[0] == 0x7D {
        id == SystemExclusiveSubId::NonCommercial
    } else if p[0] == 0x7E {
        id == SystemExclusiveSubId::NonRealTime
    } else if p[0] == 0x7F {
        id == SystemExclusiveSubId::RealTime
    } else if p[0] == 0 {
        id matches SystemExclusiveSubId::ManufacturerIdentification(m) && m@ == p.subrange(0, 3)
    } else {
        id matches SystemExclusiveSubId::ManufacturerIdentification(m) && m@ == p.subrange(0, 1)
    }
}

/// The length of the sub-id at the start of a System Exclusive payload `p`.
pub open spec fn sysex_sub_id_len(p: Seq<u8>) -> int {
    if p[0] == 0 {
        3
    } else {
        1
    }
}

/// `m` is the message that the decoder returns for `b`.
pub open spec fn decodes_to(b: Seq<u8>, m: MidiMessage) -> bool {
    &&& decodable(b)
    &&& {
        let s = b[0];
        if s < 0xF0 {
            m == MidiMessage::Channel {
                channel: channel_from_number(s % 16),
                message: channel_message_of(s / 16, b[1], b[2]),
            }
        } else if s == 0xF0 {
            let p = b.subrange(1, b.len() as int);
            m matches MidiMessage::System(SystemMessage::Exclusive(x)) && sysex_sub_id_matches(
                p,
                x.sub_id,
            ) && x.data@ == p.subrange(sysex_sub_id_len(p), p.len() as int)
        } else {
            m == MidiMessage::System(system_message_of(s, b[1], b[2]))
        }
    }
}

/// The system common or real-time message with status `s` (not 0xF0).
pub open spec fn system_message_of(s: u8, d1: u8, d2: u8) -> SystemMessage {
    if s == 0xF1 {
        SystemMessage::Common(SystemCommonMessage::MidiTimeCodeQuarterFrame)
    } else if s == 0xF2 {
        SystemMessage::Common(SystemCommonMessage::SongPositionPointer(u14_of(d1, d2)))
    } else if s == 0xF3 {
        SystemMessage::Common(SystemCommonMessage::SongSelect(d1))
    } else if s == 0xF6 {
        SystemMessage::Common(SystemCommonMessage::TuneRequest)
    } else if s == 0xF7 {
        SystemMessage::Common(SystemCommonMessage::EndOfSystemExclusive)
    } else if s == 0xF8 {
        SystemMessage::RealTime(SystemRealTimeMessage::TimingClock)
    } else if s == 0xFA {
        SystemMessage::RealTime(SystemRealTimeMessage::Start)
    } else if s == 0xFB {
        SystemMessage::RealTime(SystemRealTimeMessage::Continue)
    } else if s == 0xFC {
        SystemMessage::RealTime(SystemRealTimeMessage::Stop)
    } else if s == 0xFE {
        SystemMessage::RealTime(SystemRealTimeMessage::ActiveSensing)
    } else {
        SystemMessage::RealTime(SystemRealTimeMessage::SystemReset)
    }
}

/// Accepts a byte for a data position (0..=127).
pub fn validate_midi_data_byte(value: u8) -> (r: Result<u8, String>)
    ensures
        value < 128 ==> r == Ok::<u8, String>(value),
        value >= 128 ==> r is Err,
{
    if value <= 127 {
        Ok(value)
    } else {
        Err("Invalid MIDI data byte: must be between 0 and 127".to_string())
    }
}

/// The channel message that opcode `op` (0x8..=0xE) carries with the given data bytes.
fn decode_channel_message(op: u8, data: &[u8]) -> (r: Result<ChannelMessage, String>)
    requires
        0x8 <= op <= 0xE,
    ensures
        r is Ok <==> decodable(seq![(op * 16) as u8] + data@),
        r matches Ok(m) ==> m == channel_message_of(op, data@[0], data@[1]),
{
    let ghost b = seq![(op * 16) as u8] + data@;
    assert(b.subrange(1, b.len() as int) == data@);
    if op == 0xC || op == 0xD {
        if data.len() != 1 {
            return Err("Program Change and Channel Pressure require exactly 1 data byte".to_string());
        }
        let d1 = validate_midi_data_byte(data[0])?;
        if op == 0xC {
            Ok(ChannelMessage::Voice(ChannelVoiceMessage::ProgramChange(d1)))
        } else {
            Ok(ChannelMessage::Voice(ChannelVoiceMessage::ChannelPressure(d1)))
        }
    } else {
        if data.len() != 2 {
            return Err("This channel message requires exactly 2 data bytes".to_string());
        }
        let d1 = validate_midi_data_byte(data[0])?;
        let d2 = validate_midi_data_byte(data[1])?;
        if op == 0x8 {
            Ok(ChannelMessage::Voice(ChannelVoiceMessage::NoteOff { note: d1, velocity: d2 }))
        } else if op == 0x9 {
            Ok(ChannelMessage::Voice(ChannelVoiceMessage::NoteOn { note: d1, velocity: d2 }))
        } else if op == 0xA {
            Ok(
                ChannelMessage::Voice(
                    ChannelVoiceMessage::PolyphonicKeyPressure { note: d1, pressure: d2 },
                ),
            )
        } else if op == 0xB {
            if d1 < 0x78 {
                Ok(
                    ChannelMessage::Voice(
                        ChannelVoiceMessage::ControlChange { controller: d1, value: d2 },
                    ),
                )
            } else {
                let mode = if d1 == 0x78 {
                    ChannelModeMessage::AllSoundOff
                } else if d1 == 0x79 {
                    ChannelModeMessage::ResetAllControllers
                } else if d1 == 0x7A {
                    if d2 == 0x00 {
                        ChannelModeMessage::LocalControlOff
                    } else if d2 == 0x7F {
                        ChannelModeMessage::LocalControlOn
                    } else {
                        return Err("Invalid Local Control value: must be 0 or 127".to_string());
                    }
                } else if d1 == 0x7B {
                    ChannelModeMessage::AllNotesOff
                } else if d1 == 0x7C {
                    ChannelModeMessage::OmniModeOff
                } else if d1 == 0x7D {
                    ChannelModeMessage::OmniModeOn
                } else if d1 == 0x7E {
                    ChannelModeMessage::MonoMode { number_of_voices: d2 }
                } else {
                    ChannelModeMessage::PolyMode
                };
                Ok(ChannelMessage::Mode(mode))
            }
        } else {
            Ok(
                ChannelMessage::Voice(
                    ChannelVoiceMessage::PitchBendChange((d2 as u16) * 128 + d1 as u16),
                ),
            )
        }
    }
}

impl MidiMessage {
    /// Decodes one message from `bytes`, which start at a status byte and
    /// hold exactly that message.
    pub fn decode(bytes: &[u8]) -> (r: Result<MidiMessage, String>)
        ensures
            r is Ok <==> decodable(bytes@),
            r matches Ok(m) ==> decodes_to(bytes@, m),
    {
        if bytes.len() == 0 {
            return Err("MIDI message cannot be empty".to_string());
        }
        let status = bytes[0];
        let n = bytes.len() - 1;
        if 0x80 <= status && status < 0xF0 {
            let data = slice_subrange(bytes, 1, bytes.len());
            let message = decode_channel_message(status / 16, data)?;
            let channel = MidiChannel::try_from(status % 16)?;
            Ok(MidiMessage::Channel { channel, message })
        } else if status == 0xF0 {
            if n == 0 {
                return Err("System Exclusive message cannot be empty".to_string());
            }
            let first = validate_midi_data_byte(bytes[1])?;
            let mut k: usize = 1;
            while k < bytes.len()
                invariant
                    1 <= k <= bytes@.len(),
                    forall|j: int| 1 <= j < k ==> sysex_byte_ok(#[trigger] bytes@[j]),
                decreases bytes@.len() - k,
            {
                if bytes[k] >= 0x80 && bytes[k] < 0xF8 {
                    return Err("System Exclusive data bytes must be below 128".to_string());
                }
                k += 1;
            }
            let ghost p = bytes@.subrange(1, bytes@.len() as int);
            let (sub_id, offset) = if first == 0x7D {
                (SystemExclusiveSubId::NonCommercial, 2)
            } else if first == 0x7E {
                (SystemExclusiveSubId::NonRealTime, 2)
            } else if first == 0x7F {
                (SystemExclusiveSubId::RealTime, 2)
            } else if first == 0x00 {
                if n < 3 {
                    return Err(
                        "Manufacturer Identification starting with 0x00 requires 3 bytes".to_string(),
                    );
                }
                let id = slice_to_vec(slice_subrange(bytes, 1, 4));
                assert(id@ == p.subrange(0, 3));
                (SystemExclusiveSubId::ManufacturerIdentification(id), 4)
            } else {
                let id = slice_to_vec(slice_subrange(bytes, 1, 2));
                assert(id@ == p.subrange(0, 1));
                (SystemExclusiveSubId::ManufacturerIdentification(id), 2)
            };
            let data = slice_to_vec(slice_subrange(bytes, offset, bytes.len()));
            assert(data@ == p.subrange(sysex_sub_id_len(p), p.len() as int));
            Ok(MidiMessage::System(SystemMessage::Exclusive(SystemExclusiveMessage { sub_id, data })))
        } else if status == 0xF1 || status == 0xF3 {
            if n != 1 {
                return Err("Quarter Frame and Song Select require exactly 1 data byte".to_string());
            }
            let d1 = validate_midi_data_byte(bytes[1])?;
            if status == 0xF1 {
                Ok(MidiMessage::System(SystemMessage::Common(SystemCommonMessage::MidiTimeCodeQuarterFrame)))
            } else {
                Ok(MidiMessage::System(SystemMessage::Common(SystemCommonMessage::SongSelect(d1))))
            }
        } else if status == 0xF2 {
            if n != 2 {
                return Err("Song Position Pointer requires exactly 2 data bytes".to_string());
            }
            let lsb = validate_midi_data_byte(bytes[1])?;
            let msb = validate_midi_data_byte(bytes[2])?;
            Ok(
                MidiMessage::System(
                    SystemMessage::Common(
                        SystemCommonMessage::SongPositionPointer((msb as u16) * 128 + lsb as u16),
                    ),
                ),
            )
        } else {
            let m = if status == 0xF6 {
                SystemMessage::Common(SystemCommonMessage::TuneRequest)
            } else if status == 0xF7 {
                SystemMessage::Common(SystemCommonMessage::EndOfSystemExclusive)
            } else if status == 0xF8 {
                SystemMessage::RealTime(SystemRealTimeMessage::TimingClock)
            } else if status == 0xFA {
                SystemMessage::RealTime(SystemRealTimeMessage::Start)
            } else if status == 0xFB {
                SystemMessage::RealTime(SystemRealTimeMessage::Continue)
            } else if status == 0xFC {
                SystemMessage::RealTime(SystemRealTimeMessage::Stop)
            } else if status == 0xFE {
                SystemMessage::RealTime(SystemRealTimeMessage::ActiveSensing)
            } else if status == 0xFF {
                SystemMessage::RealTime(SystemRealTimeMessage::SystemReset)
            } else {
                return Err("Invalid MIDI status byte".to_string());
            };
            if n != 0 {
                return Err("This system message carries no data bytes".to_string());
            }
            Ok(MidiMessage::System(m))
        }
    }

    /// The wire form of the message.
    pub fn encode(&self) -> (r: Vec<u8>)
        ensures
            r@ == encode_spec(*self),
    {
        let mut result: Vec<u8> = Vec::new();
        match self {
            MidiMessage::Channel { channel, message } => {
                let ch = u8::from(*channel);
                let (opcode, d1, d2): (u8, u8, u8) = match message {
                    ChannelMessage::Voice(voice) => match voice {
                        ChannelVoiceMessage::NoteOff { note, velocity } => (0x80, *note, *velocity),
                        ChannelVoiceMessage::NoteOn { note, velocity } => (0x90, *note, *velocity),
                        ChannelVoiceMessage::PolyphonicKeyPressure { note, pressure } => (
                            0xA0,
                            *note,
                            *pressure,
                        ),
                        ChannelVoiceMessage::ControlChange { controller, value } => (
                            0xB0,
                            *controller,
                            *value,
                        ),
                        ChannelVoiceMessage::ProgramChange(program) => (0xC0, *program, 0),
                        ChannelVoiceMessage::ChannelPressure(pressure) => (0xD0, *pressure, 0),
                        ChannelVoiceMessage::PitchBendChange(value) => (
                            0xE0,
                            (*value % 128) as u8,
                            ((*value / 128) % 128) as u8,
                        ),
                    },
                    ChannelMessage::Mode(mode) => match mode {
                        ChannelModeMessage::AllSoundOff => (0xB0, 0x78, 0x00),
                        ChannelModeMessage::ResetAllControllers => (0xB0, 0x79, 0x00),
                        ChannelModeMessage::LocalControlOff => (0xB0, 0x7A, 0x00),
                        ChannelModeMessage::LocalControlOn => (0xB0, 0x7A, 0x7F),
                        ChannelModeMessage::AllNotesOff => (0xB0, 0x7B, 0x00),
                        ChannelModeMessage::OmniModeOff => (0xB0, 0x7C, 0x00),
                        ChannelModeMessage::OmniModeOn => (0xB0, 0x7D, 0x00),
                        ChannelModeMessage::MonoMode { number_of_voices } => (
                            0xB0,
                            0x7E,
                            *number_of_voices,
                        ),
                        ChannelModeMessage::PolyMode => (0xB0, 0x7F, 0x00),
                    },
                };
                result.push(opcode + ch);
                result.push(d1);
                if opcode != 0xC0 && opcode != 0xD0 {
                    result.push(d2);
                }
            },
            MidiMessage::System(SystemMessage::Common(common)) => match common {
                SystemCommonMessage::MidiTimeCodeQuarterFrame => {
                    result.push(0xF1);
                    result.push(0x00);
                },
                SystemCommonMessage::SongPositionPointer(position) => {
                    result.push(0xF2);
                    result.push((*position % 128) as u8);
                    result.push(((*position / 128) % 128) as u8);
                },
                SystemCommonMessage::SongSelect(song) => {
                    result.push(0xF3);
                    result.push(*song);
                },
                SystemCommonMessage::TuneRequest => {
                    result.push(0xF6);
                },
                SystemCommonMessage::EndOfSystemExclusive => {
                    result.push(0xF7);
                },
            },
            MidiMessage::System(SystemMessage::RealTime(real_time)) => {
                let status: u8 = match real_time {
                    SystemRealTimeMessage::TimingClock => 0xF8,
                    SystemRealTimeMessage::Start => 0xFA,
                    SystemRealTimeMessage::Continue => 0xFB,
                    SystemRealTimeMessage::Stop => 0xFC,
                    SystemRealTimeMessage::ActiveSensing => 0xFE,
                    SystemRealTimeMessage::SystemReset => 0xFF,
                };
                result.push(status);
            },
            MidiMessage::System(SystemMessage::Exclusive(exclusive)) => {
                result.push(0xF0);
                match &exclusive.sub_id {
                    SystemExclusiveSubId::ManufacturerIdentification(id) => {
                        append_bytes(&mut result, id.as_slice());
                    },
                    SystemExclusiveSubId::NonCommercial => {
                        result.push(0x7D);
                    },
                    SystemExclusiveSubId::NonRealTime => {
                        result.push(0x7E);
                    },
                    SystemExclusiveSubId::RealTime => {
                        result.push(0x7F);
                    },
                }
                append_bytes(&mut result, exclusive.data.as_slice());
            },
        }
        result
    }

    pub fn note_off(channel: MidiChannel, note: u8, velocity: u8) -> (r: Result<MidiMessage, String>)
        ensures
            r is Ok <==> (is_data(note) && is_data(velocity)),
            r is Ok ==> r == Ok::<MidiMessage, String>(
                MidiMessage::Channel {
                    channel,
                    message: ChannelMessage::Voice(ChannelVoiceMessage::NoteOff { note, velocity }),
                },
            ),
    {
        Ok(
            MidiMessage::Channel {
                channel,
                message: ChannelMessage::Voice(
                    ChannelVoiceMessage::NoteOff {
                        note: validate_midi_data_byte(note)?,
                        velocity: validate_midi_data_byte(velocity)?,
                    },
                ),
            },
        )
    }

    pub fn note_on(channel: MidiChannel, note: u8, velocity: u8) -> (r: Result<MidiMessage, String>)
        ensures
            r is Ok <==> (is_data(note) && is_data(velocity)),
            r is Ok ==> r == Ok::<MidiMessage, String>(
                MidiMessage::Channel {
                    channel,
                    message: ChannelMessage::Voice(ChannelVoiceMessage::NoteOn { note, velocity }),
                },
            ),
    {
        Ok(
            MidiMessage::Channel {
                channel,
                message: ChannelMessage::Voice(
                    ChannelVoiceMessage::NoteOn {
                        note: validate_midi_data_byte(note)?,
                        velocity: validate_midi_data_byte(velocity)?,
                    },
                ),
            },
        )
    }

    pub fn all_notes_off(channel: MidiChannel) -> (r: MidiMessage)
        ensures
            r == (MidiMessage::Channel {
                channel,
                message: ChannelMessage::Mode(ChannelModeMessage::AllNotesOff),
            }),
    {
        MidiMessage::Channel { channel, message: ChannelMessage::Mode(ChannelModeMessage::AllNotesOff) }
    }

    pub fn all_sound_off(channel: MidiChannel) -> (r: MidiMessage)
        ensures
            r == (MidiMessage::Channel {
                channel,
                message: ChannelMessage::Mode(ChannelModeMessage::AllSoundOff),
            }),
    {
        MidiMessage::Channel { channel, message: ChannelMessage::Mode(ChannelModeMessage::AllSoundOff) }
    }
}

/// Appends `src` to `dst`.
pub fn append_bytes(dst: &mut Vec<u8>, src: &[u8])
    ensures
        final(dst)@ == old(dst)@ + src@,
{
    let mut i: usize = 0;
    while i < src.len()
        invariant
            i <= src@.len(),
            dst@ == old(dst)@ + src@.subrange(0, i as int),
        decreases src@.len() - i,
    {
        dst.push(src[i]);
        i += 1;
        assert(src@.subrange(0, i as int) == src@.subrange(0, i - 1) + seq![src@[i - 1]]);
    }
    assert(src@.subrange(0, src@.len() as int) == src@);
}

impl From<MidiMessage> for Vec<u8> {
    fn from(value: MidiMessage) -> (r: Vec<u8>)
        ensures
            r@ == encode_spec(value),
    {
        value.encode()
    }
}

/// A byte vector cannot be built in spec code, so the generic law is
/// not claimed; `from` states its result over the bytes.
impl vstd::std_specs::convert::FromSpecImpl<MidiMessage> for Vec<u8> {
    open spec fn obeys_from_spec() -> bool {
        false
    }

    open spec fn from_spec(v: MidiMessage) -> Vec<u8> {
        arbitrary()
    }
}

impl<'a> TryFrom<&'a [u8]> for MidiMessage {
    type Error = String;

    fn try_from(value: &'a [u8]) -> (r: Result<MidiMessage, String>)
        ensures
            r is Ok <==> decodable(value@),
            r matches Ok(m) ==> decodes_to(value@, m),
    {
        MidiMessage::decode(value)
    }
}

/// The error text is not part of the contract; `try_from` states its own result.
impl<'a> vstd::std_specs::convert::TryFromSpecImpl<&'a [u8]> for MidiMessage {
    open spec fn obeys_try_from_spec() -> bool {
        false
    }

    open spec fn try_from_spec(v: &'a [u8]) -> Result<MidiMessage, String> {
        Err(arbitrary())
    }
}

} // verus!

verus! {

/// On `b` the decoder drops no information: `b` is not a mode message whose
/// value byte differs from the one its kind fixes, nor a quarter frame with a
/// nonzero data byte (the structured form keeps neither).
pub open spec fn decodes_losslessly(b: Seq<u8>) -> bool {
    let s = b[0];
    &&& (0xB0 <= s < 0xC0 && b[1] >= 0x78 && b[1] != 0x7A && b[1] != 0x7E) ==> b[2] == 0
    &&& s == 0xF1 ==> b[1] == 0
}

/// Decoding the encoding of a well-formed message gives the message back.
pub proof fn lemma_decode_encode(m: MidiMessage)
    requires
        m.wf(),
    ensures
        decodable(encode_spec(m)),
        decodes_to(encode_spec(m), m),
{
    let b = encode_spec(m);
    match m {
        MidiMessage::Channel { channel, message } => {
            lemma_channel_number_round_trip(channel);
            let s = b[0];
            assert(s / 16 == voice_opcode(message) / 16);
            assert(s % 16 == channel_number(channel));
            match message {
                ChannelMessage::Voice(ChannelVoiceMessage::PitchBendChange(v)) => {
                    assert(u14_of((v % 128) as u8, ((v / 128) % 128) as u8) == v);
                },
                ChannelMessage::Mode(mode) => {
                    match mode {
                        ChannelModeMessage::LocalControlOn => {},
                        _ => {},
                    }
                },
                _ => {},
            }
        },
        MidiMessage::System(SystemMessage::Common(c)) => {
            match c {
                SystemCommonMessage::SongPositionPointer(p) => {
                    assert(u14_of((p % 128) as u8, ((p / 128) % 128) as u8) == p);
                },
                _ => {},
            }
        },
        MidiMessage::System(SystemMessage::RealTime(_)) => {},
        MidiMessage::System(SystemMessage::Exclusive(x)) => {
            let p = b.subrange(1, b.len() as int);
            let id = sub_id_bytes(x.sub_id);
            assert(p == id + x.data@);
            assert(p.subrange(0, id.len() as int) == id);
            assert(p.subrange(id.len() as int, p.len() as int) == x.data@);
            assert forall|j: int| 1 <= j < b.len() implies sysex_byte_ok(#[trigger] b[j]) by {
                assert(b[j] == p[j - 1]);
                if j - 1 >= id.len() {
                    assert(p[j - 1] == x.data@[j - 1 - id.len()]);
                } else {
                    assert(p[j - 1] == id[j - 1]);
                }
            }
        },
    }
}

/// Encoding what the decoder returns gives back the bytes it read, wherever
/// it drops no information.
pub proof fn lemma_encode_decode(b: Seq<u8>, m: MidiMessage)
    requires
        decodes_to(b, m),
        decodes_losslessly(b),
    ensures
        encode_spec(m) == b,
{
    let s = b[0];
    if s < 0xF0 {
        let ch = channel_from_number(s % 16);
        assert(channel_number(ch) == s % 16);
        let message = channel_message_of(s / 16, b[1], b[2]);
        assert(voice_opcode(message) + channel_number(ch) == s);
        if s / 16 == 0xC || s / 16 == 0xD {
            assert(encode_spec(m) == seq![s, b[1]]);
        } else {
            if s / 16 == 0xE {
                let v = u14_of(b[1], b[2]);
                assert((v % 128) as u8 == b[1] && ((v / 128) % 128) as u8 == b[2]);
            }
            assert(encode_spec(m) == seq![s, b[1], b[2]]);
        }
        assert(b == seq![b[0], b[1]] || b == seq![b[0], b[1], b[2]]);
    } else if s == 0xF0 {
        let p = b.subrange(1, b.len() as int);
        let x = m->System_0->Exclusive_0;
        let k = sysex_sub_id_len(p);
        assert(sub_id_bytes(x.sub_id) == p.subrange(0, k));
        assert(p == p.subrange(0, k) + p.subrange(k, p.len() as int));
        assert(b == seq![0xF0u8] + p);
    } else {
        if s == 0xF2 {
            let v = u14_of(b[1], b[2]);
            assert((v % 128) as u8 == b[1] && ((v / 128) % 128) as u8 == b[2]);
            assert(b == seq![b[0], b[1], b[2]]);
        } else if s == 0xF1 || s == 0xF3 {
            assert(b == seq![b[0], b[1]]);
        } else {
            assert(b == seq![b[0]]);
        }
    }
}

} // verus!

verus! {

impl crate::timeline::Timed for TimeStampedMidiMessage {
    open spec fn at(&self) -> u64 {
        self.timestamp_microseconds
    }

    fn time(&self) -> (r: u64) {
        self.timestamp_microseconds
    }
}

} // verus!
