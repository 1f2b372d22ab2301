//! Playback: tracks in scheduler form, the engine's state machine, and the
//! scheduler that decides, at each wake, whether to wait, send or stop.
use vstd::prelude::*;

use crate::message::{
    ChannelMessage, ChannelModeMessage, MidiChannel, MidiMessage, TimeStampedMidiMessage, encode_spec,
};
use crate::smf::{Event, MidiDivision, MidiFile, MidiTrack, delta_microseconds_spec, calc_delta_time_microseconds};
use crate::timeline::{
    gap, is_time_ordered, lemma_sorted_by_time, lemma_sorted_elements, sort_by_time,
    sorted_by_time,
};

verus! {

/// A track in scheduler form: each event's delay after the previous one (in
/// microseconds; the first counts from the start) and its bytes.
#[derive(Debug, PartialEq, Eq, Clone)]
pub struct Track(pub Vec<(u64, Vec<u8>)>);

impl View for Track {
    type V = Seq<(u64, Seq<u8>)>;

    open spec fn view(&self) -> Seq<(u64, Seq<u8>)> {
        self.0@.map_values(|p: (u64, Vec<u8>)| (p.0, p.1@))
    }
}

impl Track {
    /// A copy of the track.
    pub fn duplicate(&self) -> (r: Track)
        ensures
            r@ == self@,
    {
        let mut events: Vec<(u64, Vec<u8>)> = Vec::new();
        let mut i: usize = 0;
        while i < self.0.len()
            invariant
                i <= self.0@.len(),
                events@.len() == i,
                forall|j: int|
                    0 <= j < i ==> #[trigger] events@[j].0 == self.0@[j].0 && events@[j].1@
                        == self.0@[j].1@,
            decreases self.0@.len() - i,
        {
            let e = &self.0[i];
            let bytes = vstd::slice::slice_to_vec(e.1.as_slice());
            assert(bytes@ == self.0@[i as int].1@);
            events.push((e.0, bytes));
            i += 1;
        }
        let r = Track(events);
        assert(r@ =~= self@);
        r
    }
}

/// The sum of the delays of `s`, in microseconds.
pub open spec fn total_delay(s: Seq<(u64, Seq<u8>)>) -> nat
    decreases s.len(),
{
    if s.len() == 0 {
        0
    } else {
        total_delay(s.drop_last()) + s.last().0 as nat
    }
}

/// Where a playback run comes from.
#[derive(Debug, PartialEq, Eq, Clone, Copy, Structural)]
pub enum TrackInfo {
    Recording(usize),
    StandardMidiFile(usize),
}

#[derive(Debug, PartialEq, Eq, Clone, Copy, Structural)]
pub enum PlaybackState {
    Stopped,
    Playing(TrackInfo),
    Paused(TrackInfo),
}

/// The tempo at which loaded files are played, in microseconds per quarter note.
pub const DEFAULT_TEMPO: u32 = 500_000;

/// The scheduler form of a file track: each channel event with its delay at
/// the default tempo; other events are left out.
pub open spec fn schedule_of(evs: Seq<crate::smf::MidiTrackEvent>, division: MidiDivision) -> Seq<(u64, Seq<u8>)>
    decreases evs.len(),
{
    if evs.len() == 0 {
        Seq::empty()
    } else {
        let rest = schedule_of(evs.drop_last(), division);
        match evs.last().event {
            Event::MidiEvent(m) => rest.push(
                (
                    delta_microseconds_spec(evs.last().delta_time as nat, DEFAULT_TEMPO as nat, division) as u64,
                    encode_spec(m),
                ),
            ),
            _ => rest,
        }
    }
}

/// The time stamps of a recording, each with its position.
pub open spec fn stamps(s: Seq<TimeStampedMidiMessage>) -> Seq<(u64, usize)> {
    Seq::new(s.len(), |i: int| (s[i].timestamp_microseconds, i as usize))
}

/// The scheduler form of a recording: in time order, each message with the
/// microseconds since the one before (the first at zero).
pub open spec fn schedule_of_recording(s: Seq<TimeStampedMidiMessage>) -> Seq<(u64, Seq<u8>)> {
    let order = sorted_by_time(stamps(s));
    Seq::new(order.len(), |i: int| (gap(order, i) as u64, encode_spec(s[order[i].1 as int].message)))
}

/// What the playback engine holds.
pub ghost struct PlaybackView {
    pub state: PlaybackState,
    pub has_player: bool,
    pub tracks: Seq<Seq<(u64, Seq<u8>)>>,
    pub position_milliseconds: u64,
    pub duration_milliseconds: Option<u64>,
}

pub struct MidiPlayback {
    state: PlaybackState,
    has_player: bool,
    tracks: Vec<Track>,
    position_milliseconds: u64,
    duration_milliseconds: Option<u64>,
}

impl View for MidiPlayback {
    type V = PlaybackView;

    closed spec fn view(&self) -> PlaybackView {
        PlaybackView {
            state: self.state,
            has_player: self.has_player,
            tracks: self.tracks@.map_values(|t: Track| t@),
            position_milliseconds: self.position_milliseconds,
            duration_milliseconds: self.duration_milliseconds,
        }
    }
}

} // verus!

verus! {

/// The longest single sleep of the scheduler, in microseconds, so that
/// pause and stop are noticed quickly.
pub const MAX_SLEEP_MICROSECONDS: u64 = 50_000;

/// The sum of the first `n` delays, in microseconds.
pub open spec fn elapsed_before(delays: Seq<u64>, n: int) -> nat
    decreases n,
{
    if n <= 0 {
        0
    } else {
        elapsed_before(delays, n - 1) + delays[n - 1] as nat
    }
}

proof fn lemma_elapsed_before_bound(delays: Seq<u64>, n: int)
    requires
        0 <= n,
    ensures
        elapsed_before(delays, n) <= n * 0xFFFF_FFFF_FFFF_FFFF,
    decreases n,
{
    if n > 0 {
        lemma_elapsed_before_bound(delays, n - 1);
    }
}

/// What the scheduler asks the loop that runs it to do next.
#[derive(Debug, PartialEq, Eq, Clone, Copy, Structural)]
pub enum SchedulerAction {
    /// Sleep this many microseconds, then wake the scheduler again.
    Sleep(u64),
    /// Send the bytes of this event, then wake the scheduler again.
    Send(usize),
    /// Send the silence messages; the run is over.
    Silence,
    /// The run is over.
    Done,
}

/// The scheduler's state, on the clock of the loop that runs it (in
/// microseconds). Active time is the clock minus `origin`, frozen while paused.
pub ghost struct SchedulerView {
    pub delays: Seq<u64>,
    /// The next event to send.
    pub next: nat,
    pub origin: u64,
    /// The active time when a pause began, while paused.
    pub paused_elapsed: Option<u64>,
    pub finished: bool,
    /// The active time at the last wake.
    pub position: u64,
    pub last_now: u64,
}

impl SchedulerView {
    /// The active time at which event `next` is due.
    pub open spec fn due(self) -> nat {
        elapsed_before(self.delays, self.next as int + 1)
    }

    pub open spec fn wf(self) -> bool {
        &&& self.next <= self.delays.len()
        &&& self.origin <= self.last_now
        &&& match self.paused_elapsed {
            Some(pe) => self.position == pe && pe <= self.last_now - self.origin,
            None => self.position <= self.last_now - self.origin,
        }
    }

    /// A send that failed ends the run.
    pub open spec fn send_failed(self) -> SchedulerView {
        SchedulerView { finished: true, ..self }
    }

    /// One wake at clock `now` with the pause and stop signals as given.
    pub open spec fn step(self, now: u64, pause: bool, stop: bool) -> (SchedulerView, SchedulerAction) {
        if self.finished {
            (self, SchedulerAction::Done)
        } else if stop {
            (SchedulerView { finished: true, last_now: now, ..self }, SchedulerAction::Silence)
        } else if self.next >= self.delays.len() {
            (SchedulerView { finished: true, last_now: now, ..self }, SchedulerAction::Done)
        } else if pause {
            match self.paused_elapsed {
                Some(_) => (
                    SchedulerView { last_now: now, ..self },
                    SchedulerAction::Sleep(MAX_SLEEP_MICROSECONDS),
                ),
                None => {
                    let pe = (now - self.origin) as u64;
                    (
                        SchedulerView {
                            paused_elapsed: Some(pe),
                            position: pe,
                            last_now: now,
                            ..self
                        },
                        SchedulerAction::Sleep(MAX_SLEEP_MICROSECONDS),
                    )
                },
            }
        } else {
            let origin = match self.paused_elapsed {
                Some(pe) => (now - pe) as u64,
                None => self.origin,
            };
            let elapsed = (now - origin) as u64;
            let s = SchedulerView {
                origin,
                paused_elapsed: None,
                position: elapsed,
                last_now: now,
                ..self
            };
            if elapsed < self.due() {
                let wait = self.due() - elapsed;
                (
                    s,
                    SchedulerAction::Sleep(
                        if wait < MAX_SLEEP_MICROSECONDS {
                            wait as u64
                        } else {
                            MAX_SLEEP_MICROSECONDS
                        },
                    ),
                )
            } else {
                (SchedulerView { next: self.next + 1, ..s }, SchedulerAction::Send(self.next as usize))
            }
        }
    }
}

/// Drives one playback run: at each wake it is told the clock and the pause
/// and stop signals, and answers with what to do.
pub struct Scheduler {
    track: Track,
    next: usize,
    due: u128,
    origin: u64,
    paused_elapsed: Option<u64>,
    finished: bool,
    position: u64,
    last_now: u64,
}

impl View for Scheduler {
    type V = SchedulerView;

    closed spec fn view(&self) -> SchedulerView {
        SchedulerView {
            delays: self.track@.map_values(|e: (u64, Seq<u8>)| e.0),
            next: self.next as nat,
            origin: self.origin,
            paused_elapsed: self.paused_elapsed,
            finished: self.finished,
            position: self.position,
            last_now: self.last_now,
        }
    }
}

impl Scheduler {
    pub closed spec fn inv(&self) -> bool {
        &&& self@.wf()
        &&& self@.delays.len() <= usize::MAX
        &&& self.next < self.track@.len() ==> self.due as nat == self@.due()
    }

    pub closed spec fn track_spec(&self) -> Seq<(u64, Seq<u8>)> {
        self.track@
    }

    /// A run of `track` that starts at clock `now`.
    pub fn new(track: Track, now: u64) -> (r: Scheduler)
        ensures
            r.inv(),
            r.track_spec() == track@,
            r@ == (SchedulerView {
                delays: track@.map_values(|e: (u64, Seq<u8>)| e.0),
                next: 0,
                origin: now,
                paused_elapsed: None,
                finished: false,
                position: 0,
                last_now: now,
            }),
    {
        let count = track.0.len();
        let due: u128 = if count > 0 {
            track.0[0].0 as u128
        } else {
            0
        };
        let r = Scheduler {
            track,
            next: 0,
            due,
            origin: now,
            paused_elapsed: None,
            finished: false,
            position: 0,
            last_now: now,
        };
        proof {
            reveal_with_fuel(elapsed_before, 2);
        }
        r
    }

    /// The bytes of event `i` of the run.
    pub fn event_bytes(&self, i: usize) -> (r: &Vec<u8>)
        requires
            i < self.track_spec().len(),
        ensures
            r@ == self.track_spec()[i as int].1,
    {
        &self.track.0[i].1
    }

    pub fn position_microseconds(&self) -> (r: u64)
        ensures
            r == self@.position,
    {
        self.position
    }

    pub fn is_finished(&self) -> (r: bool)
        ensures
            r == self@.finished,
    {
        self.finished
    }

    /// The loop that runs the scheduler could not send an event: the run is over.
    pub fn step_send_failed(&mut self)
        requires
            old(self).inv(),
        ensures
            final(self).inv(),
            final(self).track_spec() == old(self).track_spec(),
            final(self)@ == old(self)@.send_failed(),
    {
        self.finished = true;
    }

    /// One wake at clock `now` (never earlier than the last one).
    pub fn step(&mut self, now: u64, pause: bool, stop: bool) -> (r: SchedulerAction)
        requires
            old(self).inv(),
            now >= old(self)@.last_now,
        ensures
            final(self).inv(),
            final(self).track_spec() == old(self).track_spec(),
            (final(self)@, r) == old(self)@.step(now, pause, stop),
    {
        let ghost v = self@;
        if self.finished {
            return SchedulerAction::Done;
        }
        if stop {
            self.finished = true;
            self.last_now = now;
            return SchedulerAction::Silence;
        }
        if self.next >= self.track.0.len() {
            self.finished = true;
            self.last_now = now;
            return SchedulerAction::Done;
        }
        if pause {
            if self.paused_elapsed.is_none() {
                let pe = now - self.origin;
                self.paused_elapsed = Some(pe);
                self.position = pe;
            }
            self.last_now = now;
            return SchedulerAction::Sleep(MAX_SLEEP_MICROSECONDS);
        }
        match self.paused_elapsed {
            Some(pe) => {
                self.origin = now - pe;
            },
            None => {},
        }
        self.paused_elapsed = None;
        let elapsed = now - self.origin;
        self.position = elapsed;
        self.last_now = now;
        if (elapsed as u128) < self.due {
            let wait = self.due - elapsed as u128;
            if wait < MAX_SLEEP_MICROSECONDS as u128 {
                SchedulerAction::Sleep(wait as u64)
            } else {
                SchedulerAction::Sleep(MAX_SLEEP_MICROSECONDS)
            }
        } else {
            let sent = self.next;
            self.next = self.next + 1;
            if self.next < self.track.0.len() {
                proof {
                    lemma_elapsed_before_bound(v.delays, self.next as int + 1);
                }
                self.due = self.due + self.track.0[self.next].0 as u128;
            }
            SchedulerAction::Send(sent)
        }
    }
}

/// The two messages that silence channel 1 when a run is stopped: All Notes
/// Off, then All Sound Off.
pub fn silence_messages() -> (r: Vec<Vec<u8>>)
    ensures
        r@.len() == 2,
        r@[0]@ == encode_spec(
            MidiMessage::Channel {
                channel: MidiChannel::Channel1,
                message: ChannelMessage::Mode(ChannelModeMessage::AllNotesOff),
            },
        ),
        r@[1]@ == encode_spec(
            MidiMessage::Channel {
                channel: MidiChannel::Channel1,
                message: ChannelMessage::Mode(ChannelModeMessage::AllSoundOff),
            },
        ),
{
    let mut r: Vec<Vec<u8>> = Vec::new();
    r.push(MidiMessage::all_notes_off(MidiChannel::Channel1).encode());
    r.push(MidiMessage::all_sound_off(MidiChannel::Channel1).encode());
    r
}

} // verus!

verus! {

/// A live scheduler's state is consistent.
pub proof fn lemma_inv_wf(s: &Scheduler)
    requires
        s.inv(),
    ensures
        s@.wf(),
        s@.delays.len() <= usize::MAX,
{
}

/// A run that is over, whether stopped, finished or ended by a failed send,
/// answers every later wake with `Done` and does not change.
pub proof fn lemma_finished_done(s: SchedulerView, now: u64, pause: bool, stop: bool)
    requires
        s.finished,
    ensures
        s.step(now, pause, stop) == (s, SchedulerAction::Done),
{
}

/// After a failed send the run is over: nothing more is sent.
pub proof fn lemma_send_failed(s: SchedulerView, now: u64, pause: bool, stop: bool)
    ensures
        s.send_failed().finished,
        s.send_failed().step(now, pause, stop) == (s.send_failed(), SchedulerAction::Done),
{
}

/// Every wake keeps the scheduler's state consistent, and the reported
/// position never goes back while the clock moves forward.
pub proof fn lemma_position_monotone(s: SchedulerView, now: u64, pause: bool, stop: bool)
    requires
        s.wf(),
        now >= s.last_now,
    ensures
        s.step(now, pause, stop).0.wf(),
        s.step(now, pause, stop).0.position >= s.position,
{
}

/// The position that the engine records from a running scheduler (in
/// milliseconds, by `report_position`) never goes back from one wake to the
/// next while the clock moves forward.
pub proof fn lemma_reported_position_monotone(s: SchedulerView, now: u64, pause: bool, stop: bool)
    requires
        s.wf(),
        now >= s.last_now,
    ensures
        s.step(now, pause, stop).0.position / 1000 >= s.position / 1000,
{
    lemma_position_monotone(s, now, pause, stop);
    vstd::arithmetic::div_mod::lemma_div_is_ordered(
        s.position as int,
        s.step(now, pause, stop).0.position as int,
        1000,
    );
}

/// An event is sent only once the active time has reached the sum of the
/// delays up to it, and resuming after a pause restarts the active time
/// where the pause froze it, so no delay is lost or shortened by pausing.
pub proof fn lemma_timing(s: SchedulerView, now: u64, pause: bool, stop: bool)
    requires
        s.wf(),
        s.delays.len() <= usize::MAX,
        now >= s.last_now,
    ensures
        ({
            let (t, a) = s.step(now, pause, stop);
            &&& a matches SchedulerAction::Send(i) ==> i == s.next && t.last_now - t.origin
                >= elapsed_before(s.delays, i as int + 1)
            &&& (!s.finished && !stop && !pause && s.next < s.delays.len()
                && s.paused_elapsed is Some) ==> t.last_now - t.origin == s.paused_elapsed->Some_0
            &&& pause ==> t.origin == s.origin
        }),
{
}

/// A stop request ends a run that is not over with the silence messages,
/// and after that every wake answers that the run is over.
pub proof fn lemma_stop(s: SchedulerView, now: u64, pause: bool, later_now: u64, later_pause: bool, later_stop: bool)
    requires
        !s.finished,
    ensures
        s.step(now, pause, true).1 == SchedulerAction::Silence,
        s.step(now, pause, true).0.finished,
        s.step(now, pause, true).0.step(later_now, later_pause, later_stop) == (
            s.step(now, pause, true).0,
            SchedulerAction::Done,
        ),
{
}

} // verus!

verus! {

/// Converts the channel events of a file track into scheduler form.
fn schedule_track(track: &MidiTrack, division: &MidiDivision) -> (r: Track)
    requires
        division.has_ticks(),
    ensures
        r@ == schedule_of(track.events(), *division),
{
    let mut out: Vec<(u64, Vec<u8>)> = Vec::new();
    let mut i: usize = 0;
    let ghost evs = track.events();
    while i < track.0.len()
        invariant
            evs == track.0@,
            i <= evs.len(),
            division.has_ticks(),
            Track(out)@ == schedule_of(evs.subrange(0, i as int), *division),
        decreases evs.len() - i,
    {
        let e = &track.0[i];
        let ghost pre = evs.subrange(0, i + 1);
        assert(pre.drop_last() =~= evs.subrange(0, i as int));
        assert(pre.last() == evs[i as int]);
        match &e.event {
            Event::MidiEvent(m) => {
                let delay = calc_delta_time_microseconds(e.delta_time, DEFAULT_TEMPO, division);
                let bytes = m.encode();
                let ghost before = out@.map_values(|p: (u64, Vec<u8>)| (p.0, p.1@));
                let ghost entry = (delay, bytes@);
                out.push((delay, bytes));
                assert(out@.map_values(|p: (u64, Vec<u8>)| (p.0, p.1@)) =~= before.push(entry));
            },
            _ => {},
        }
        i += 1;
    }
    assert(evs.subrange(0, i as int) =~= evs);
    Track(out)
}

impl Default for MidiPlayback {
    fn default() -> (r: MidiPlayback)
        ensures
            r@ == (PlaybackView {
                state: PlaybackState::Stopped,
                has_player: false,
                tracks: Seq::empty(),
                position_milliseconds: 0,
                duration_milliseconds: None,
            }),
    {
        let r = MidiPlayback {
            state: PlaybackState::Stopped,
            has_player: false,
            tracks: Vec::new(),
            position_milliseconds: 0,
            duration_milliseconds: None,
        };
        assert(r@.tracks =~= Seq::<Seq<(u64, Seq<u8>)>>::empty());
        r
    }
}

impl MidiPlayback {
    pub fn get_state(&self) -> (r: PlaybackState)
        ensures
            r == self@.state,
    {
        self.state
    }

    /// The length of the current run in milliseconds, once one has been loaded.
    pub fn get_duration(&self) -> (r: Option<u64>)
        ensures
            r == self@.duration_milliseconds,
    {
        self.duration_milliseconds
    }

    /// The position of the current run in milliseconds.
    pub fn get_position(&self) -> (r: u64)
        ensures
            r == self@.position_milliseconds,
    {
        self.position_milliseconds
    }

    pub fn get_tracks(&self) -> (r: &Vec<Track>)
        ensures
            r@.map_values(|t: Track| t@) == self@.tracks,
    {
        &self.tracks
    }

    /// Records the position, in milliseconds, that the running scheduler
    /// reports; it never goes back while the scheduler runs (see
    /// `lemma_position_monotone`).
    pub fn report_position(&mut self, scheduler: &Scheduler)
        ensures
            final(self)@ == (PlaybackView {
                position_milliseconds: scheduler@.position / 1000,
                ..old(self)@
            }),
    {
        self.position_milliseconds = scheduler.position_microseconds() / 1000;
        assert(self@.tracks =~= old(self)@.tracks);
    }

    /// Marks that a byte sink is installed; refused while a run is in progress.
    pub fn set_player(&mut self) -> (r: Result<(), String>)
        ensures
            r is Ok <==> old(self)@.state == PlaybackState::Stopped,
            r is Ok ==> final(self)@ == (PlaybackView { has_player: true, ..old(self)@ }),
            r is Err ==> final(self)@ == old(self)@,
    {
        if self.state != PlaybackState::Stopped {
            return Err("Cannot set player while playback is in progress".to_string());
        }
        self.has_player = true;
        assert(self@.tracks =~= old(self)@.tracks);
        Ok(())
    }

    /// Adds one scheduler-form track per track of `file`, at the default tempo.
    pub fn load_track(&mut self, file: MidiFile) -> (r: Result<(), String>)
        ensures
            r is Ok <==> (file.tracks@.len() > 0 && file.header.division.has_ticks()),
            r is Ok ==> final(self)@ == (PlaybackView {
                tracks: old(self)@.tracks + file.tracks@.map_values(
                    |t: MidiTrack| schedule_of(t.events(), file.header.division),
                ),
                ..old(self)@
            }),
            r is Err ==> final(self)@ == old(self)@,
    {
        if file.tracks.len() == 0 {
            return Err("Cannot load empty MIDI file".to_string());
        }
        let division = file.header.division;
        if !division.check_ticks() {
            return Err("MIDI file division has no ticks".to_string());
        }
        let ghost before = self@.tracks;
        let mut i: usize = 0;
        while i < file.tracks.len()
            invariant
                i <= file.tracks@.len(),
                division == file.header.division,
                division.has_ticks(),
                self@ == (PlaybackView {
                    tracks: before + file.tracks@.subrange(0, i as int).map_values(
                        |t: MidiTrack| schedule_of(t.events(), division),
                    ),
                    ..old(self)@
                }),
                before == old(self)@.tracks,
            decreases file.tracks@.len() - i,
        {
            let t = schedule_track(&file.tracks[i], &division);
            let ghost mapped = file.tracks@.subrange(0, i as int).map_values(
                |t: MidiTrack| schedule_of(t.events(), division),
            );
            assert(file.tracks@.subrange(0, i + 1).map_values(
                |t: MidiTrack| schedule_of(t.events(), division),
            ) =~= mapped.push(t@));
            let ghost prev = self@.tracks;
            let ghost tv = t@;
            self.tracks.push(t);
            assert(self@.tracks =~= prev.push(tv));
            assert(prev.push(tv) =~= before + mapped.push(tv));
            i += 1;
            assert(self@.tracks =~= before + file.tracks@.subrange(0, i as int).map_values(
                |t: MidiTrack| schedule_of(t.events(), division),
            ));
        }
        assert(file.tracks@.subrange(0, i as int) =~= file.tracks@);
        Ok(())
    }

    pub fn eject_track(&mut self, index: usize) -> (r: Result<(), String>)
        ensures
            r is Ok <==> index < old(self)@.tracks.len(),
            r is Ok ==> final(self)@ == (PlaybackView {
                tracks: old(self)@.tracks.remove(index as int),
                ..old(self)@
            }),
            r is Err ==> final(self)@ == old(self)@,
    {
        if index < self.tracks.len() {
            self.tracks.remove(index);
            assert(self@.tracks =~= old(self)@.tracks.remove(index as int));
            Ok(())
        } else {
            Err("Track index out of bounds".to_string())
        }
    }

    pub fn pause(&mut self) -> (r: Result<(), String>)
        ensures
            r is Ok <==> old(self)@.state is Playing,
            r is Ok ==> final(self)@ == (PlaybackView {
                state: PlaybackState::Paused(old(self)@.state->Playing_0),
                ..old(self)@
            }),
            r is Err ==> final(self)@ == old(self)@,
    {
        match self.state {
            PlaybackState::Playing(info) => {
                self.state = PlaybackState::Paused(info);
                assert(self@.tracks =~= old(self)@.tracks);
                Ok(())
            },
            _ => Err("Playback is not active, cannot pause".to_string()),
        }
    }
}

} // verus!

verus! {

/// Milliseconds in `us` microseconds, capped at the largest `u64`.
pub open spec fn milliseconds_of(us: nat) -> u64 {
    if us / 1000 <= u64::MAX {
        (us / 1000) as u64
    } else {
        u64::MAX
    }
}

impl MidiPlayback {
    pub fn resume(&mut self) -> (r: Result<(), String>)
        ensures
            r is Ok <==> old(self)@.state is Paused,
            r is Ok ==> final(self)@ == (PlaybackView {
                state: PlaybackState::Playing(old(self)@.state->Paused_0),
                ..old(self)@
            }),
            r is Err ==> final(self)@ == old(self)@,
    {
        match self.state {
            PlaybackState::Paused(info) => {
                self.state = PlaybackState::Playing(info);
                assert(self@.tracks =~= old(self)@.tracks);
                Ok(())
            },
            _ => Err("Playback is not paused, cannot resume".to_string()),
        }
    }

    /// Ends the current run, once its scheduler is done: the state is
    /// stopped and the position back at zero.
    pub fn stop(&mut self)
        ensures
            final(self)@ == (PlaybackView {
                state: PlaybackState::Stopped,
                position_milliseconds: 0,
                ..old(self)@
            }),
    {
        self.state = PlaybackState::Stopped;
        self.position_milliseconds = 0;
        assert(self@.tracks =~= old(self)@.tracks);
    }

    /// A copy of loaded track `index`, its length becoming the run's duration.
    fn track_for_play(&mut self, index: usize) -> (r: Result<Track, String>)
        ensures
            r is Ok <==> index < old(self)@.tracks.len(),
            r matches Ok(t) ==> t@ == old(self)@.tracks[index as int] && final(self)@ == (
            PlaybackView {
                duration_milliseconds: Some(milliseconds_of(total_delay(t@))),
                ..old(self)@
            }),
            r is Err ==> final(self)@ == old(self)@,
    {
        if index >= self.tracks.len() {
            return Err("Track index out of bounds".to_string());
        }
        let track = self.tracks[index].duplicate();
        let mut total: u128 = 0;
        let mut i: usize = 0;
        while i < track.0.len()
            invariant
                i <= track@.len(),
                total as nat == total_delay(track@.subrange(0, i as int)),
                total <= i * 0xFFFF_FFFF_FFFF_FFFF,
            decreases track@.len() - i,
        {
            assert(track@.subrange(0, i + 1).drop_last() =~= track@.subrange(0, i as int));
            assert(track@[i as int].0 == track.0@[i as int].0);
            total = total + track.0[i].0 as u128;
            i += 1;
        }
        assert(track@.subrange(0, i as int) =~= track@);
        let ms = total / 1000;
        self.duration_milliseconds = Some(
            if ms <= u64::MAX as u128 {
                ms as u64
            } else {
                u64::MAX
            },
        );
        assert(self@.tracks =~= old(self)@.tracks);
        Ok(track)
    }

    /// The scheduler form of a recording; its length becomes the run's duration.
    fn load_timestamped_data(&mut self, data: &Vec<TimeStampedMidiMessage>) -> (r: Result<Track, String>)
        ensures
            r is Ok <==> data@.len() > 0,
            r matches Ok(t) ==> t@ == schedule_of_recording(data@) && final(self)@ == (
            PlaybackView {
                duration_milliseconds: Some(
                    ((sorted_by_time(stamps(data@)).last().0 - sorted_by_time(
                        stamps(data@),
                    )[0].0) / 1000) as u64,
                ),
                ..old(self)@
            }),
            r is Err ==> final(self)@ == old(self)@,
    {
        if data.len() == 0 {
            return Err("Cannot load empty data".to_string());
        }
        let mut pairs: Vec<(u64, usize)> = Vec::new();
        let mut i: usize = 0;
        while i < data.len()
            invariant
                i <= data@.len(),
                pairs@ == stamps(data@).subrange(0, i as int),
            decreases data@.len() - i,
        {
            pairs.push((data[i].timestamp_microseconds, i));
            i += 1;
            assert(pairs@ =~= stamps(data@).subrange(0, i as int));
        }
        assert(stamps(data@).subrange(0, i as int) =~= stamps(data@));
        let order = sort_by_time(pairs);
        let ghost o = order@;
        proof {
            lemma_sorted_by_time(stamps(data@));
            assert forall|j: int| 0 <= j < o.len() implies 0 <= #[trigger] o[j].1 < data@.len() by {
                lemma_sorted_elements(stamps(data@), j);
            }
        }
        let n = order.len();
        let first = order[0].0;
        let last = order[n - 1].0;
        let mut events: Vec<(u64, Vec<u8>)> = Vec::new();
        let mut previous: u64 = first;
        let mut k: usize = 0;
        while k < n
            invariant
                n == o.len(),
                o == order@,
                o == sorted_by_time(stamps(data@)),
                is_time_ordered(o),
                forall|j: int| 0 <= j < o.len() ==> 0 <= #[trigger] o[j].1 < data@.len(),
                k <= n,
                k == 0 ==> previous == o[0].0,
                k > 0 ==> previous == o[k - 1].0,
                Track(events)@ == schedule_of_recording(data@).subrange(0, k as int),
            decreases n - k,
        {
            let (t, idx) = order[k];
            let delay = t - previous;
            let bytes = data[idx].message.encode();
            let ghost before = Track(events)@;
            events.push((delay, bytes));
            assert(Track(events)@ =~= before.push((delay, bytes@)));
            previous = t;
            k += 1;
            assert(schedule_of_recording(data@).subrange(0, k as int) =~= before.push((delay, bytes@)));
        }
        assert(schedule_of_recording(data@).subrange(0, k as int) =~= schedule_of_recording(data@));
        self.duration_milliseconds = Some((last - first) / 1000);
        assert(self@.tracks =~= old(self)@.tracks);
        Ok(Track(events))
    }

    /// Begins a run of `track`: needs a byte sink; the state becomes playing
    /// and the position zero.
    fn start(&mut self, track: Track, track_info: TrackInfo, now: u64) -> (r: Result<Scheduler, String>)
        ensures
            r is Ok <==> old(self)@.has_player,
            r matches Ok(s) ==> s.inv() && s.track_spec() == track@ && s@.next == 0 && s@.origin
                == now && !s@.finished && final(self)@ == (PlaybackView {
                state: PlaybackState::Playing(track_info),
                position_milliseconds: 0,
                ..old(self)@
            }),
            r is Err ==> final(self)@ == old(self)@,
    {
        if !self.has_player {
            return Err("No MIDI player set".to_string());
        }
        self.state = PlaybackState::Playing(track_info);
        self.position_milliseconds = 0;
        assert(self@.tracks =~= old(self)@.tracks);
        Ok(Scheduler::new(track, now))
    }

    /// Prepares a run of a recording that starts at clock `now`; the
    /// recording's length becomes the run's duration.
    pub fn play(&mut self, data: &Vec<TimeStampedMidiMessage>, track_info: TrackInfo, now: u64) -> (r: Result<Scheduler, String>)
        ensures
            r is Ok <==> (data@.len() > 0 && old(self)@.has_player),
            r matches Ok(s) ==> s.inv() && s.track_spec() == schedule_of_recording(data@)
                && s@.next == 0 && s@.origin == now && !s@.finished && final(self)@ == (
            PlaybackView {
                state: PlaybackState::Playing(track_info),
                position_milliseconds: 0,
                duration_milliseconds: Some(
                    ((sorted_by_time(stamps(data@)).last().0 - sorted_by_time(
                        stamps(data@),
                    )[0].0) / 1000) as u64,
                ),
                ..old(self)@
            }),
            r is Err ==> final(self)@.state == old(self)@.state && final(self)@.tracks == old(
                self,
            )@.tracks && final(self)@.position_milliseconds == old(self)@.position_milliseconds
                && final(self)@.has_player == old(self)@.has_player,
    {
        let track = self.load_timestamped_data(data)?;
        self.start(track, track_info, now)
    }

    /// Prepares a run of loaded track `index` that starts at clock `now`;
    /// the track's length becomes the run's duration.
    pub fn play_track(&mut self, index: usize, now: u64) -> (r: Result<Scheduler, String>)
        ensures
            r is Ok <==> (index < old(self)@.tracks.len() && old(self)@.has_player),
            r matches Ok(s) ==> s.inv() && s.track_spec() == old(self)@.tracks[index as int]
                && s@.next == 0 && s@.origin == now && !s@.finished && final(self)@ == (
            PlaybackView {
                state: PlaybackState::Playing(TrackInfo::StandardMidiFile(index)),
                position_milliseconds: 0,
                duration_milliseconds: Some(
                    milliseconds_of(total_delay(old(self)@.tracks[index as int])),
                ),
                ..old(self)@
            }),
            r is Err ==> final(self)@.state == old(self)@.state && final(self)@.tracks == old(
                self,
            )@.tracks && final(self)@.position_milliseconds == old(self)@.position_milliseconds
                && final(self)@.has_player == old(self)@.has_player,
    {
        let track = self.track_for_play(index)?;
        self.start(track, TrackInfo::StandardMidiFile(index), now)
    }
}

} // verus!
