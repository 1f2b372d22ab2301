use midirc::device::{MidiInputPort, MidiStateInner};
use midirc::frontend::{Playback, PlaybackIdentifier, Recorder, Recording};
use midirc::message::{MidiChannel, MidiMessage, TimeStampedMidiMessage};
use midirc::playback::{silence_messages, MidiPlayback, PlaybackState, SchedulerAction, Track, TrackInfo};
use midirc::recorder::{MidiRecorder, RecorderState};
use midirc::smf::{MidiFile, MidiHeader, MidiTrack};

fn stamped(t: u64, note: u8) -> TimeStampedMidiMessage {
    TimeStampedMidiMessage {
        timestamp_microseconds: t,
        message: MidiMessage::note_on(MidiChannel::Channel1, note, 100).unwrap(),
    }
}

#[test]
fn recorder_take_of_k_messages() {
    let mut r = MidiRecorder::default();
    assert!(r.stop_recording().is_err());
    assert!(r.add_message(stamped(0, 1).message, 0).is_err());
    r.start_recording().unwrap();
    assert!(r.start_recording().is_err());
    r.add_message(stamped(0, 1).message, 10).unwrap();
    r.add_message(stamped(0, 2).message, 2_010).unwrap();
    r.add_message(stamped(0, 3).message, 5_010).unwrap();
    r.stop_recording().unwrap();
    assert_eq!(r.get_state(), RecorderState::Stopped);
    assert_eq!(r.get_recordings().len(), 1);
    assert_eq!(r.get_recordings()[0].len(), 3);
    r.start_recording().unwrap();
    r.stop_recording().unwrap();
    assert_eq!(r.get_recordings().len(), 1);
    let snapshot = Recorder::from(&r);
    assert_eq!(snapshot.recordings, vec![Recording { index: 0, duration_milliseconds: 5 }]);
    assert!(r.remove_recording(1).is_err());
    r.remove_recording(0).unwrap();
    assert!(r.get_recordings().is_empty());
}

#[test]
fn connect_twice_fails_without_change() {
    let mut s = MidiStateInner::default();
    s.scan_input(vec![
        MidiInputPort { name: "Keys".to_string(), id: "a".to_string() },
        MidiInputPort { name: "Pads".to_string(), id: "b".to_string() },
    ]);
    assert_eq!(s.find_input_port(&"b".to_string()), Some(1));
    assert_eq!(s.find_input_port(&"z".to_string()), None);
    assert_eq!(s.find_output_port(&"a".to_string()), None);
    assert!(s.connect_input(2).is_err());
    assert!(s.input_connection.is_none());
    let port = s.connect_input(1).unwrap();
    assert_eq!(port.id, "b");
    assert!(s.connect_input(0).is_err());
    assert_eq!(s.input_connection.as_ref().unwrap().id, "b");
    s.disconnect_input();
    assert!(s.input_connection.is_none());
    let msg = MidiMessage::note_on(MidiChannel::Channel2, 60, 1).unwrap();
    assert!(s.send_message(&msg).is_err());
}

fn player() -> MidiPlayback {
    let mut p = MidiPlayback::default();
    p.set_player().unwrap();
    p
}

#[test]
fn pause_preserves_timing() {
    let track = Track(vec![(1_000_000, vec![0xA]), (1_000_000, vec![0xB])]);
    let mut s = midirc::playback::Scheduler::new(track, 0);
    let mut sent: Vec<(usize, u64)> = Vec::new();
    let mut now: u64 = 0;
    loop {
        // paused from 500 ms to 3.5 s of wall time
        let pause = (500_000..3_500_000).contains(&now);
        match s.step(now, pause, false) {
            SchedulerAction::Sleep(d) => now += d,
            SchedulerAction::Send(i) => sent.push((i, now)),
            SchedulerAction::Done => break,
            SchedulerAction::Silence => panic!("not stopped"),
        }
    }
    // A after one second of active time, B one second after A
    assert_eq!(sent, vec![(0, 4_000_000), (1, 5_000_000)]);
}

#[test]
fn stop_emits_silence() {
    let track = Track(vec![(0, vec![0x90, 0x3C, 0x40]), (1_000_000, vec![0x80, 0x3C, 0x40])]);
    let mut s = midirc::playback::Scheduler::new(track, 0);
    assert_eq!(s.step(0, false, false), SchedulerAction::Send(0));
    assert_eq!(s.step(0, false, false), SchedulerAction::Sleep(50_000));
    assert_eq!(s.step(50_000, false, true), SchedulerAction::Silence);
    assert_eq!(s.step(100_000, false, false), SchedulerAction::Done);
    assert!(s.is_finished());
    assert_eq!(silence_messages(), vec![vec![0xB0, 0x7B, 0x00], vec![0xB0, 0x78, 0x00]]);
}

#[test]
fn position_never_goes_back() {
    let track = Track(vec![(200_000, vec![1]), (300_000, vec![2])]);
    let mut s = midirc::playback::Scheduler::new(track, 1_000);
    let mut last = 0;
    let mut now = 1_000;
    for k in 0..40u64 {
        let pause = k % 7 == 3;
        let _ = s.step(now, pause, false);
        assert!(s.position_microseconds() >= last);
        last = s.position_microseconds();
        now += 30_000;
    }
}

#[test]
fn engine_state_machine() {
    let mut p = MidiPlayback::default();
    assert!(p.play(&vec![stamped(0, 1)], TrackInfo::Recording(0), 0).is_err());
    p.set_player().unwrap();
    assert!(p.play(&vec![], TrackInfo::Recording(0), 0).is_err());
    assert!(p.pause().is_err());
    let data = vec![stamped(3_000_000, 2), stamped(1_000_000, 1), stamped(1_500_000, 3)];
    let s = p.play(&data, TrackInfo::Recording(4), 0).unwrap();
    assert_eq!(s.event_bytes(0), &vec![0x90, 1, 100]);
    assert_eq!(s.event_bytes(1), &vec![0x90, 3, 100]);
    assert_eq!(p.get_state(), PlaybackState::Playing(TrackInfo::Recording(4)));
    assert_eq!(p.get_duration(), Some(2_000));
    assert_eq!(p.get_position(), 0);
    assert!(p.set_player().is_err());
    p.pause().unwrap();
    assert!(p.pause().is_err());
    assert_eq!(p.get_state(), PlaybackState::Paused(TrackInfo::Recording(4)));
    p.resume().unwrap();
    assert!(p.resume().is_err());
    let mut s = s;
    let _ = s.step(1_234_000, false, false);
    p.report_position(&s);
    let snap = Playback::from(&p);
    assert_eq!(snap.identifier, Some(PlaybackIdentifier::Recording { index: 4 }));
    assert_eq!(snap.position_milliseconds, 1_234);
    p.stop();
    assert_eq!(p.get_state(), PlaybackState::Stopped);
    assert_eq!(p.get_position(), 0);
}

#[test]
fn loaded_tracks_play_and_eject() {
    let mut p = player();
    let header = MidiHeader::single_multi_channel_track();
    let data = vec![stamped(0, 1), stamped(1_000_000, 2)];
    let track = MidiTrack::from_time_stamped_messages(data, 500_000, header.get_division());
    assert!(p.load_track(MidiFile::new(header, vec![])).is_err());
    p.load_track(MidiFile::new(header, vec![track])).unwrap();
    let tracks = p.get_tracks();
    assert_eq!(tracks.len(), 1);
    assert_eq!(tracks[0].0, vec![(0, vec![0x90, 1, 100]), (1_000_000, vec![0x90, 2, 100])]);
    assert!(p.play_track(3, 0).is_err());
    let s = p.play_track(0, 7).unwrap();
    assert_eq!(s.event_bytes(1), &vec![0x90, 2, 100]);
    assert_eq!(p.get_duration(), Some(1_000));
    let snap = Playback::from(&p);
    assert_eq!(snap.identifier, Some(PlaybackIdentifier::MidiFile { path: "Track 0".to_string() }));
    assert_eq!(snap.tracks[0].duration_milliseconds, 1_000);
    p.stop();
    assert!(p.eject_track(1).is_err());
    p.eject_track(0).unwrap();
    assert!(p.get_tracks().is_empty());
}

#[test]
fn file_track_label_uses_decimal_index() {
    let mut p = player();
    let header = MidiHeader::single_multi_channel_track();
    for k in 0..12u8 {
        let track = MidiTrack::from_time_stamped_messages(vec![stamped(0, k)], 500_000, header.get_division());
        p.load_track(MidiFile::new(header, vec![track])).unwrap();
    }
    let _scheduler = p.play_track(11, 0).unwrap();
    let snap = Playback::from(&p);
    assert_eq!(snap.identifier, Some(PlaybackIdentifier::MidiFile { path: "Track 11".to_string() }));
    p.pause().unwrap();
    assert_eq!(Playback::from(&p).state, midirc::frontend::PlaybackState::Paused);
}

#[test]
fn failed_send_ends_the_run() {
    let track = Track(vec![(0, vec![1]), (0, vec![2])]);
    let mut s = midirc::playback::Scheduler::new(track, 0);
    assert_eq!(s.step(0, false, false), SchedulerAction::Send(0));
    s.step_send_failed();
    assert!(s.is_finished());
    assert_eq!(s.step(10, false, false), SchedulerAction::Done);
    assert_eq!(s.step(20, false, true), SchedulerAction::Done);
}
