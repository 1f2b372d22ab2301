use midirc::message::{
    ChannelMessage, ChannelModeMessage, ChannelVoiceMessage, MidiChannel, MidiMessage,
    SystemCommonMessage, SystemExclusiveMessage, SystemExclusiveSubId, SystemMessage,
    SystemRealTimeMessage, validate_midi_data_byte,
};

fn channel(channel: MidiChannel, message: ChannelMessage) -> MidiMessage {
    MidiMessage::Channel { channel, message }
}

#[test]
fn note_on_decodes_and_encodes() {
    let m = MidiMessage::try_from(&[0x92u8, 0x30, 0x60][..]).unwrap();
    assert_eq!(
        m,
        channel(
            MidiChannel::Channel3,
            ChannelMessage::Voice(ChannelVoiceMessage::NoteOn { note: 48, velocity: 96 })
        )
    );
    let bytes: Vec<u8> = m.into();
    assert_eq!(bytes, vec![0x92, 0x30, 0x60]);
}

#[test]
fn local_control_off_and_invalid_value() {
    let m = MidiMessage::decode(&[0xB0, 0x7A, 0x00]).unwrap();
    assert_eq!(m, channel(MidiChannel::Channel1, ChannelMessage::Mode(ChannelModeMessage::LocalControlOff)));
    assert!(MidiMessage::decode(&[0xB0, 0x7A, 0x55]).is_err());
    let on = MidiMessage::decode(&[0xB0, 0x7A, 0x7F]).unwrap();
    assert_eq!(on, channel(MidiChannel::Channel1, ChannelMessage::Mode(ChannelModeMessage::LocalControlOn)));
}

#[test]
fn control_change_versus_mode() {
    let cc = MidiMessage::decode(&[0xB5, 0x77, 0x10]).unwrap();
    assert_eq!(
        cc,
        channel(
            MidiChannel::Channel6,
            ChannelMessage::Voice(ChannelVoiceMessage::ControlChange { controller: 0x77, value: 0x10 })
        )
    );
    let mono = MidiMessage::decode(&[0xB5, 0x7E, 0x04]).unwrap();
    assert_eq!(
        mono,
        channel(MidiChannel::Channel6, ChannelMessage::Mode(ChannelModeMessage::MonoMode { number_of_voices: 4 }))
    );
    assert_eq!(mono.encode(), vec![0xB5, 0x7E, 0x04]);
}

#[test]
fn pitch_bend_packs_fourteen_bits() {
    let m = MidiMessage::decode(&[0xEF, 0x01, 0x40]).unwrap();
    assert_eq!(
        m,
        channel(MidiChannel::Channel16, ChannelMessage::Voice(ChannelVoiceMessage::PitchBendChange(0x2001)))
    );
    assert_eq!(m.encode(), vec![0xEF, 0x01, 0x40]);
}

#[test]
fn decoder_errors() {
    assert!(MidiMessage::decode(&[]).is_err());
    assert!(MidiMessage::decode(&[0x40]).is_err());
    assert!(MidiMessage::decode(&[0x90, 0x40]).is_err());
    assert!(MidiMessage::decode(&[0x90, 0x40, 0x80]).is_err());
    assert!(MidiMessage::decode(&[0xC0, 0x01, 0x02]).is_err());
    assert!(MidiMessage::decode(&[0xF0]).is_err());
    assert!(MidiMessage::decode(&[0xF0, 0x00, 0x01]).is_err());
    assert!(MidiMessage::decode(&[0xF0, 0x80]).is_err());
    assert!(MidiMessage::decode(&[0xF0, 0x41, 0x10, 0x80]).is_err());
    assert!(MidiMessage::decode(&[0xF0, 0x41, 0x10, 0xF7]).is_err());
    assert!(MidiMessage::decode(&[0xF4]).is_err());
    assert!(MidiMessage::decode(&[0xF9]).is_err());
    assert!(MidiMessage::decode(&[0xF8, 0x00]).is_err());
    assert!(MidiMessage::decode(&[0xF2, 0x00]).is_err());
}

#[test]
fn system_messages_round_trip() {
    let cases: Vec<(Vec<u8>, MidiMessage)> = vec![
        (vec![0xF2, 0x10, 0x20], MidiMessage::System(SystemMessage::Common(SystemCommonMessage::SongPositionPointer(0x20 * 128 + 0x10)))),
        (vec![0xF3, 0x05], MidiMessage::System(SystemMessage::Common(SystemCommonMessage::SongSelect(5)))),
        (vec![0xF6], MidiMessage::System(SystemMessage::Common(SystemCommonMessage::TuneRequest))),
        (vec![0xF7], MidiMessage::System(SystemMessage::Common(SystemCommonMessage::EndOfSystemExclusive))),
        (vec![0xF8], MidiMessage::System(SystemMessage::RealTime(SystemRealTimeMessage::TimingClock))),
        (vec![0xFA], MidiMessage::System(SystemMessage::RealTime(SystemRealTimeMessage::Start))),
        (vec![0xFB], MidiMessage::System(SystemMessage::RealTime(SystemRealTimeMessage::Continue))),
        (vec![0xFC], MidiMessage::System(SystemMessage::RealTime(SystemRealTimeMessage::Stop))),
        (vec![0xFE], MidiMessage::System(SystemMessage::RealTime(SystemRealTimeMessage::ActiveSensing))),
        (vec![0xFF], MidiMessage::System(SystemMessage::RealTime(SystemRealTimeMessage::SystemReset))),
        (vec![0xF1, 0x00], MidiMessage::System(SystemMessage::Common(SystemCommonMessage::MidiTimeCodeQuarterFrame))),
    ];
    for (bytes, message) in cases {
        assert_eq!(MidiMessage::decode(&bytes).unwrap(), message);
        assert_eq!(message.encode(), bytes);
    }
}

#[test]
fn system_exclusive_sub_ids() {
    let m = MidiMessage::decode(&[0xF0, 0x00, 0x20, 0x33, 0x01, 0x02]).unwrap();
    assert_eq!(
        m,
        MidiMessage::System(SystemMessage::Exclusive(SystemExclusiveMessage {
            sub_id: SystemExclusiveSubId::ManufacturerIdentification(vec![0x00, 0x20, 0x33]),
            data: vec![0x01, 0x02],
        }))
    );
    assert_eq!(m.encode(), vec![0xF0, 0x00, 0x20, 0x33, 0x01, 0x02]);
    let m = MidiMessage::decode(&[0xF0, 0x41, 0x10, 0xF8]).unwrap();
    assert_eq!(
        m,
        MidiMessage::System(SystemMessage::Exclusive(SystemExclusiveMessage {
            sub_id: SystemExclusiveSubId::ManufacturerIdentification(vec![0x41]),
            data: vec![0x10, 0xF8],
        }))
    );
    let m = MidiMessage::decode(&[0xF0, 0x7E, 0x09]).unwrap();
    assert_eq!(
        m,
        MidiMessage::System(SystemMessage::Exclusive(SystemExclusiveMessage {
            sub_id: SystemExclusiveSubId::NonRealTime,
            data: vec![0x09],
        }))
    );
    assert_eq!(m.encode(), vec![0xF0, 0x7E, 0x09]);
}

#[test]
fn constructors_check_data_bytes() {
    assert!(MidiMessage::note_on(MidiChannel::Channel1, 128, 0).is_err());
    assert!(MidiMessage::note_off(MidiChannel::Channel1, 0, 200).is_err());
    assert_eq!(validate_midi_data_byte(127).unwrap(), 127);
    assert!(validate_midi_data_byte(128).is_err());
    assert_eq!(u8::from(MidiChannel::Channel10), 9);
    assert_eq!(MidiChannel::try_from(15u8).unwrap(), MidiChannel::Channel16);
    assert!(MidiChannel::try_from(16u8).is_err());
}
