use midirc::message::{ChannelMessage, ChannelVoiceMessage, MidiChannel, MidiMessage, TimeStampedMidiMessage};
use midirc::smf::{
    calc_delta_time, calc_delta_time_microseconds, Event, FramesPerSecond, MetaEvent, MidiDivision,
    MidiFile, MidiFormat, MidiHeader, MidiTrack, MidiTrackEvent,
};
use midirc::vlq::{from_var_length_bytes, get_var_length_bytes_length, to_var_length_bytes};

const MIDI_FORMAT_0_EXAMPLE: &[u8] = &[
    0x4D, 0x54, 0x68, 0x64, // MThd
    0x00, 0x00, 0x00, 0x06, // chunk length
    0x00, 0x00, // format 0
    0x00, 0x01, // one track
    0x00, 0x60, // division: 96 ticks per quarter note
    0x4D, 0x54, 0x72, 0x6B, // MTrk
    0x00, 0x00, 0x00, 0x3B, // chunk length
    0x00, 0xFF, 0x58, 0x04, 0x04, 0x02, 0x18, 0x08, // time signature
    0x00, 0xFF, 0x51, 0x03, 0x07, 0xA1, 0x20, // set tempo: 500000
    0x00, 0xC0, 0x05, // program change: channel 0, program 5
    0x00, 0xC1, 0x2E, // program change: channel 1, program 46
    0x00, 0xC2, 0x46, // program change: channel 2, program 70
    0x00, 0x92, 0x30, 0x60, // note on: channel 2, note 48, velocity 96
    0x00, 0x3C, 0x60, // note on, running status
    0x60, 0x91, 0x43, 0x40, //
    0x60, 0x90, 0x4C, 0x20, //
    0x81, 0x40, 0x82, 0x30, 0x40, //
    0x00, 0x3C, 0x40, //
    0x00, 0x81, 0x43, 0x40, //
    0x00, 0x80, 0x4C, 0x40, //
    0x00, 0xFF, 0x2F, 0x00, // end of track
];

fn event(delta_time: u32, event: Event) -> MidiTrackEvent {
    MidiTrackEvent { delta_time, event }
}

fn program(channel: MidiChannel, p: u8) -> Event {
    Event::MidiEvent(MidiMessage::Channel {
        channel,
        message: ChannelMessage::Voice(ChannelVoiceMessage::ProgramChange(p)),
    })
}

fn example_file() -> MidiFile {
    MidiFile::new(
        MidiHeader {
            format: MidiFormat::SingleMultiChannelTrack,
            num_tracks: 1,
            division: MidiDivision::TicksPerQuarterNote(96),
        },
        vec![MidiTrack(vec![
            event(
                0,
                Event::MetaEvent(MetaEvent::TimeSignature {
                    numerator: 4,
                    denominator: 2,
                    clocks_per_click: 24,
                    notated_32nd_notes_per_quarter_note: 8,
                }),
            ),
            event(0, Event::MetaEvent(MetaEvent::SetTempo(500_000))),
            event(0, program(MidiChannel::Channel1, 5)),
            event(0, program(MidiChannel::Channel2, 46)),
            event(0, program(MidiChannel::Channel3, 70)),
            event(0, Event::MidiEvent(MidiMessage::note_on(MidiChannel::Channel3, 48, 96).unwrap())),
            event(0, Event::MidiEvent(MidiMessage::note_on(MidiChannel::Channel3, 60, 96).unwrap())),
            event(96, Event::MidiEvent(MidiMessage::note_on(MidiChannel::Channel2, 67, 64).unwrap())),
            event(96, Event::MidiEvent(MidiMessage::note_on(MidiChannel::Channel1, 76, 32).unwrap())),
            event(192, Event::MidiEvent(MidiMessage::note_off(MidiChannel::Channel3, 48, 64).unwrap())),
            event(0, Event::MidiEvent(MidiMessage::note_off(MidiChannel::Channel3, 60, 64).unwrap())),
            event(0, Event::MidiEvent(MidiMessage::note_off(MidiChannel::Channel2, 67, 64).unwrap())),
            event(0, Event::MidiEvent(MidiMessage::note_off(MidiChannel::Channel1, 76, 64).unwrap())),
            event(0, Event::MetaEvent(MetaEvent::EndOfTrack)),
        ])],
    )
}

#[test]
fn serialize_midi_file() {
    let midi_file = example_file();
    let serialized = Vec::try_from(&midi_file).unwrap();
    assert_eq!(serialized, MIDI_FORMAT_0_EXAMPLE);
}

#[test]
fn parse_midi_file() {
    let midi_file = MidiFile::try_from(MIDI_FORMAT_0_EXAMPLE).unwrap();
    assert_eq!(midi_file.header.format, MidiFormat::SingleMultiChannelTrack);
    assert_eq!(midi_file.header.num_tracks, 1);
    assert_eq!(midi_file.header.division, MidiDivision::TicksPerQuarterNote(96));
    assert_eq!(midi_file.tracks.len(), 1);
}

#[test]
fn parse_example_gives_fourteen_events_and_writes_back() {
    let midi_file = MidiFile::try_from(MIDI_FORMAT_0_EXAMPLE).unwrap();
    let events = &midi_file.tracks[0].0;
    assert_eq!(events.len(), 14);
    assert_eq!(events[13].event, Event::MetaEvent(MetaEvent::EndOfTrack));
    assert_eq!(midi_file, example_file());
    let written = midi_file.to_bytes().unwrap();
    assert_eq!(written, MIDI_FORMAT_0_EXAMPLE);
}

#[test]
fn calc_delta_time_microseconds_time_code_25_40() {
    let division = MidiDivision::TimeCode(FramesPerSecond::Fps25, 40);
    assert_eq!(calc_delta_time_microseconds(1234, 500_000, &division), 1_234_000);
}

#[test]
fn calc_delta_time_microseconds_time_code_30_80() {
    let division = MidiDivision::TimeCode(FramesPerSecond::Fps30, 80);
    assert_eq!(calc_delta_time_microseconds(2400, 500_000, &division), 1_000_000);
}

#[test]
fn calc_delta_time_microseconds_time_code_30_drop_frame() {
    let division = MidiDivision::TimeCode(FramesPerSecond::Fps30DropFrame, 80);
    assert_eq!(calc_delta_time_microseconds(2400, 500_000, &division), 1_001_000);
}

#[test]
fn calc_delta_time_microseconds_ticks_per_quarter_note() {
    let division = MidiDivision::TicksPerQuarterNote(96);
    assert_eq!(calc_delta_time_microseconds(6144, 500_000, &division), 32_000_000);
}

#[test]
fn calc_delta_time_inverts_the_conversion() {
    assert_eq!(calc_delta_time(32_000_000, 500_000, &MidiDivision::TicksPerQuarterNote(96)), 6144);
    assert_eq!(
        calc_delta_time(1_000_000, 500_000, &MidiDivision::TimeCode(FramesPerSecond::Fps30, 80)),
        2400
    );
    assert_eq!(
        calc_delta_time(1_001_000, 500_000, &MidiDivision::TimeCode(FramesPerSecond::Fps30DropFrame, 80)),
        2400
    );
    assert_eq!(
        calc_delta_time(1_000_000, 500_000, &MidiDivision::TimeCode(FramesPerSecond::Fps24, 4)),
        96
    );
}

#[test]
fn to_var_length_bytes_spec_examples() {
    assert_eq!(to_var_length_bytes(0x00).unwrap(), vec![0x00]);
    assert_eq!(to_var_length_bytes(0x40).unwrap(), vec![0x40]);
    assert_eq!(to_var_length_bytes(0x7F).unwrap(), vec![0x7F]);
    assert_eq!(to_var_length_bytes(0x80).unwrap(), vec![0x81, 0x00]);
    assert_eq!(to_var_length_bytes(0x2000).unwrap(), vec![0xC0, 0x00]);
    assert_eq!(to_var_length_bytes(0x3FFF).unwrap(), vec![0xFF, 0x7F]);
    assert_eq!(to_var_length_bytes(0x4000).unwrap(), vec![0x81, 0x80, 0x00]);
    assert_eq!(to_var_length_bytes(0x100000).unwrap(), vec![0xC0, 0x80, 0x00]);
    assert_eq!(to_var_length_bytes(0x1FFFFF).unwrap(), vec![0xFF, 0xFF, 0x7F]);
    assert_eq!(to_var_length_bytes(0x200000).unwrap(), vec![0x81, 0x80, 0x80, 0x00]);
    assert_eq!(to_var_length_bytes(0x8000000).unwrap(), vec![0xC0, 0x80, 0x80, 0x00]);
    assert_eq!(to_var_length_bytes(0xFFFFFFF).unwrap(), vec![0xFF, 0xFF, 0xFF, 0x7F]);
}

#[test]
fn to_var_length_bytes_too_large() {
    let result = to_var_length_bytes(0x10000000);
    assert!(result.is_err());
}

#[test]
fn from_var_length_bytes_spec_examples() {
    assert_eq!(from_var_length_bytes(vec![0x00].as_slice()).unwrap(), 0x00);
    assert_eq!(from_var_length_bytes(vec![0x40].as_slice()).unwrap(), 0x40);
    assert_eq!(from_var_length_bytes(vec![0x7F].as_slice()).unwrap(), 0x7F);
    assert_eq!(from_var_length_bytes(vec![0x81, 0x00].as_slice()).unwrap(), 0x80);
    assert_eq!(from_var_length_bytes(vec![0xC0, 0x00].as_slice()).unwrap(), 0x2000);
    assert_eq!(from_var_length_bytes(vec![0xFF, 0x7F].as_slice()).unwrap(), 0x3FFF);
    assert_eq!(from_var_length_bytes(vec![0x81, 0x80, 0x00].as_slice()).unwrap(), 0x4000);
    assert_eq!(from_var_length_bytes(vec![0xC0, 0x80, 0x00].as_slice()).unwrap(), 0x100000);
    assert_eq!(from_var_length_bytes(vec![0xFF, 0xFF, 0x7F].as_slice()).unwrap(), 0x1FFFFF);
    assert_eq!(from_var_length_bytes(vec![0x81, 0x80, 0x80, 0x00].as_slice()).unwrap(), 0x200000);
    assert_eq!(from_var_length_bytes(vec![0xC0, 0x80, 0x80, 0x00].as_slice()).unwrap(), 0x8000000);
    assert_eq!(from_var_length_bytes(vec![0xFF, 0xFF, 0xFF, 0x7F].as_slice()).unwrap(), 0xFFFFFFF);
}

#[test]
fn var_length_round_trips_and_rejections() {
    for n in [0u32, 1, 0x7F, 0x80, 0x3FFF, 0x4000, 0x1F_FFFF, 0x20_0000, 0x0FFF_FFFF] {
        let bytes = to_var_length_bytes(n).unwrap();
        assert!((1..=4).contains(&bytes.len()));
        assert!(bytes[bytes.len() - 1] < 0x80);
        assert!(bytes[..bytes.len() - 1].iter().all(|b| *b >= 0x80));
        assert_eq!(from_var_length_bytes(&bytes).unwrap(), n);
        assert_eq!(get_var_length_bytes_length(&bytes).unwrap(), bytes.len());
    }
    assert!(from_var_length_bytes(&[]).is_err());
    assert!(from_var_length_bytes(&[0x81, 0x81, 0x81, 0x81, 0x00]).is_err());
    assert!(from_var_length_bytes(&[0x81]).is_err());
    assert!(get_var_length_bytes_length(&[0x81, 0x81, 0x81, 0x81, 0x00]).is_err());
    assert!(get_var_length_bytes_length(&[0x81, 0x81]).is_err());
    assert_eq!(get_var_length_bytes_length(&[0x81, 0x01, 0x99]).unwrap(), 2);
}

#[test]
fn header_errors() {
    let mut bad = MIDI_FORMAT_0_EXAMPLE.to_vec();
    bad[0] = b'X';
    assert!(MidiFile::try_from(bad.as_slice()).is_err());
    let mut bad = MIDI_FORMAT_0_EXAMPLE.to_vec();
    bad[9] = 3; // format 3
    assert!(MidiFile::try_from(bad.as_slice()).is_err());
    let mut bad = MIDI_FORMAT_0_EXAMPLE.to_vec();
    bad[11] = 2; // format 0 with two tracks
    assert!(MidiFile::try_from(bad.as_slice()).is_err());
    let mut bad = MIDI_FORMAT_0_EXAMPLE.to_vec();
    bad[11] = 0; // no track
    assert!(MidiFile::try_from(bad.as_slice()).is_err());
    assert!(MidiFile::try_from(&MIDI_FORMAT_0_EXAMPLE[..13]).is_err());
}

#[test]
fn time_code_division_is_read() {
    let mut data = MIDI_FORMAT_0_EXAMPLE.to_vec();
    data[12] = 0xE3; // -29: 30 drop frame
    data[13] = 80;
    let f = MidiFile::try_from(data.as_slice()).unwrap();
    assert_eq!(f.header.division, MidiDivision::TimeCode(FramesPerSecond::Fps30DropFrame, 80));
    assert_eq!(f.to_bytes().unwrap(), data);
    data[12] = 0xE5;
    assert!(MidiFile::try_from(data.as_slice()).is_err());
}

#[test]
fn text_meta_events_round_trip_through_utf8() {
    let track = MidiTrack(vec![
        event(0, Event::MetaEvent(MetaEvent::TrackName("Grüße".to_string()))),
        event(5, Event::MetaEvent(MetaEvent::KeySignature { key: -3, scale: midirc::smf::MusicalScale::Minor })),
        event(0, Event::MetaEvent(MetaEvent::SequencerSpecific(vec![1, 2, 3]))),
    ]);
    let file = MidiFile::new(
        MidiHeader { format: MidiFormat::MultiTrackSequence, num_tracks: 1, division: MidiDivision::TicksPerQuarterNote(480) },
        vec![track],
    );
    let bytes = file.to_bytes().unwrap();
    let parsed = MidiFile::parse(&bytes).unwrap();
    let events = &parsed.tracks[0].0;
    assert_eq!(events.len(), 4);
    assert_eq!(events[0].event, Event::MetaEvent(MetaEvent::SequenceName("Grüße".to_string())));
    assert_eq!(
        events[1].event,
        Event::MetaEvent(MetaEvent::KeySignature { key: -3, scale: midirc::smf::MusicalScale::Minor })
    );
    assert_eq!(events[3].event, Event::MetaEvent(MetaEvent::EndOfTrack));
    assert_eq!(parsed.to_bytes().unwrap(), bytes);
}

#[test]
fn invalid_utf8_text_is_refused() {
    let mut data = MIDI_FORMAT_0_EXAMPLE[..14].to_vec();
    data.extend_from_slice(&[0x4D, 0x54, 0x72, 0x6B, 0, 0, 0, 10]);
    data.extend_from_slice(&[0x00, 0xFF, 0x01, 0x02, 0xC3, 0x28, 0x00, 0xFF, 0x2F, 0x00]);
    assert!(MidiFile::parse(&data).is_err());
    data[26] = 0xC3;
    data[27] = 0xA9;
    let f = MidiFile::parse(&data).unwrap();
    assert_eq!(f.tracks[0].0[0].event, Event::MetaEvent(MetaEvent::TextEvent("é".to_string())));
}

#[test]
fn serializer_refusals() {
    let mut f = example_file();
    f.header.num_tracks = 2;
    assert!(f.to_bytes().is_err());
    let mut f = example_file();
    f.tracks[0].0.push(event(0, Event::MetaEvent(MetaEvent::EndOfTrack)));
    assert!(f.to_bytes().is_err());
    let mut f = example_file();
    f.tracks[0].0[0].delta_time = 0x1000_0000;
    assert!(f.to_bytes().is_err());
}

#[test]
fn missing_end_of_track_is_added() {
    let f = MidiFile::new(
        MidiHeader::single_multi_channel_track(),
        vec![MidiTrack(vec![event(0, Event::MetaEvent(MetaEvent::SetTempo(500_000)))])],
    );
    let bytes = f.to_bytes().unwrap();
    assert_eq!(&bytes[14..], &[0x4D, 0x54, 0x72, 0x6B, 0, 0, 0, 11, 0x00, 0xFF, 0x51, 0x03, 0x07, 0xA1, 0x20, 0x00, 0xFF, 0x2F, 0x00]);
}

#[test]
fn track_from_recording() {
    let a = MidiMessage::note_on(MidiChannel::Channel1, 60, 100).unwrap();
    let b = MidiMessage::note_off(MidiChannel::Channel1, 60, 0).unwrap();
    let data = vec![
        TimeStampedMidiMessage { timestamp_microseconds: 2_500_000, message: b.clone() },
        TimeStampedMidiMessage { timestamp_microseconds: 2_000_000, message: a.clone() },
    ];
    let header = MidiHeader::single_multi_channel_track();
    let track = MidiTrack::from_time_stamped_messages(data, 500_000, header.get_division());
    assert_eq!(
        track.0,
        vec![
            event(0, Event::MetaEvent(MetaEvent::SetTempo(500_000))),
            event(0, Event::MidiEvent(a)),
            event(96, Event::MidiEvent(b)),
            event(0, Event::MetaEvent(MetaEvent::EndOfTrack)),
        ]
    );
    let empty = MidiTrack::from_time_stamped_messages(vec![], 500_000, header.get_division());
    assert!(empty.0.is_empty());
}

fn one_track_file(body: &[u8]) -> Vec<u8> {
    let mut data = MIDI_FORMAT_0_EXAMPLE[..14].to_vec();
    data.extend_from_slice(&[0x4D, 0x54, 0x72, 0x6B, 0, 0, 0, body.len() as u8]);
    data.extend_from_slice(body);
    data
}

#[test]
fn track_errors() {
    // a data byte with no running status before it
    assert!(MidiFile::parse(&one_track_file(&[0x00, 0x3C, 0x40, 0x00, 0xFF, 0x2F, 0x00])).is_err());
    // an unknown meta event type
    assert!(MidiFile::parse(&one_track_file(&[0x00, 0xFF, 0x60, 0x00, 0x00, 0xFF, 0x2F, 0x00])).is_err());
    // a key signature beyond seven sharps
    assert!(MidiFile::parse(&one_track_file(&[0x00, 0xFF, 0x59, 0x02, 0x08, 0x00, 0x00, 0xFF, 0x2F, 0x00])).is_err());
    // an empty track chunk
    assert!(MidiFile::parse(&one_track_file(&[])).is_err());
    // a track chunk longer than the data
    let mut data = one_track_file(&[0x00, 0xFF, 0x2F, 0x00]);
    data[21] = 9;
    assert!(MidiFile::parse(&data).is_err());
    // a delta time of five bytes
    assert!(MidiFile::parse(&one_track_file(&[0x81, 0x81, 0x81, 0x81, 0x00, 0xFF, 0x2F, 0x00])).is_err());
}

#[test]
fn system_exclusive_events_are_read_past() {
    let f = MidiFile::parse(&one_track_file(&[
        0x00, 0xF0, 0x03, 0x41, 0x10, 0xF7, // a System Exclusive event
        0x10, 0x90, 0x3C, 0x40, // note on
        0x00, 0xFF, 0x2F, 0x00,
    ]))
    .unwrap();
    let events = &f.tracks[0].0;
    assert_eq!(events.len(), 2);
    assert_eq!(events[0].delta_time, 0x10);
    assert_eq!(
        events[0].event,
        Event::MidiEvent(MidiMessage::note_on(MidiChannel::Channel1, 0x3C, 0x40).unwrap())
    );
}

#[test]
fn short_tail_is_taken_as_the_end() {
    let f = MidiFile::parse(&one_track_file(&[0x00, 0x90, 0x3C, 0x40, 0x00, 0x3C])).unwrap();
    let events = &f.tracks[0].0;
    assert_eq!(events.len(), 2);
    assert_eq!(events[1].event, Event::MetaEvent(MetaEvent::EndOfTrack));
}

#[test]
fn equal_time_stamps_keep_their_order() {
    let a = MidiMessage::note_on(MidiChannel::Channel1, 60, 100).unwrap();
    let b = MidiMessage::note_on(MidiChannel::Channel1, 64, 100).unwrap();
    let c = MidiMessage::note_on(MidiChannel::Channel1, 67, 100).unwrap();
    let data = vec![
        TimeStampedMidiMessage { timestamp_microseconds: 10, message: b.clone() },
        TimeStampedMidiMessage { timestamp_microseconds: 5, message: a.clone() },
        TimeStampedMidiMessage { timestamp_microseconds: 10, message: c.clone() },
    ];
    let track = MidiTrack::from_time_stamped_messages(data, 500_000, &MidiDivision::TicksPerQuarterNote(96));
    assert_eq!(track.0[1].event, Event::MidiEvent(a));
    assert_eq!(track.0[2].event, Event::MidiEvent(b));
    assert_eq!(track.0[3].event, Event::MidiEvent(c));
}

#[test]
fn system_exclusive_delta_is_carried_and_checked() {
    let note = Event::MidiEvent(MidiMessage::note_on(MidiChannel::Channel1, 60, 100).unwrap());
    let f = MidiFile::new(
        MidiHeader::single_multi_channel_track(),
        vec![MidiTrack(vec![event(0x30, Event::SysExEvent), event(0x10, note.clone())])],
    );
    let bytes = f.to_bytes().unwrap();
    assert_eq!(&bytes[22..], &[0x40, 0x90, 60, 100, 0x00, 0xFF, 0x2F, 0x00]);
    let too_far = MidiFile::new(
        MidiHeader::single_multi_channel_track(),
        vec![MidiTrack(vec![event(0x1000_0000, Event::SysExEvent)])],
    );
    assert!(too_far.to_bytes().is_err());
    let sum_too_far = MidiFile::new(
        MidiHeader::single_multi_channel_track(),
        vec![MidiTrack(vec![event(0x0FFF_FFFF, Event::SysExEvent), event(1, note)])],
    );
    assert!(sum_too_far.to_bytes().is_err());
    let trailing = MidiFile::new(
        MidiHeader::single_multi_channel_track(),
        vec![MidiTrack(vec![event(0x20, Event::SysExEvent)])],
    );
    assert_eq!(&trailing.to_bytes().unwrap()[22..], &[0x20, 0xFF, 0x2F, 0x00]);
}

#[test]
fn time_code_conversion_ignores_tempo() {
    assert_eq!(
        calc_delta_time(1_000_000, 0, &MidiDivision::TimeCode(FramesPerSecond::Fps30, 80)),
        2400
    );
}
