//! The recorder: a two-state machine that collects time-stamped messages
//! into takes, and the list of finished takes.
use vstd::prelude::*;

use crate::message::{MidiMessage, TimeStampedMidiMessage};

verus! {

#[derive(Debug, PartialEq, Eq, Clone, Copy, Structural)]
pub enum RecorderState {
    Stopped,
    Recording,
}

/// What a recorder holds: its state, the take in progress and the finished takes.
pub ghost struct RecorderView {
    pub state: RecorderState,
    pub buffer: Seq<TimeStampedMidiMessage>,
    pub recordings: Seq<Seq<TimeStampedMidiMessage>>,
}

impl RecorderView {
    /// Starting a take: allowed only when stopped; the take starts empty.
    pub open spec fn start(self) -> (RecorderView, bool) {
        if self.state == RecorderState::Stopped {
            (RecorderView { state: RecorderState::Recording, buffer: Seq::empty(), ..self }, true)
        } else {
            (self, false)
        }
    }

    /// Stopping a take: allowed only while recording; a non-empty take is
    /// appended to the recordings.
    pub open spec fn stop(self) -> (RecorderView, bool) {
        if self.state == RecorderState::Recording {
            (
                RecorderView {
                    state: RecorderState::Stopped,
                    buffer: Seq::empty(),
                    recordings: if self.buffer.len() > 0 {
                        self.recordings.push(self.buffer)
                    } else {
                        self.recordings
                    },
                },
                true,
            )
        } else {
            (self, false)
        }
    }

    /// Adding a message: allowed only while recording.
    pub open spec fn add(self, m: TimeStampedMidiMessage) -> (RecorderView, bool) {
        if self.state == RecorderState::Recording {
            (RecorderView { buffer: self.buffer.push(m), ..self }, true)
        } else {
            (self, false)
        }
    }

    /// Adding each message of `ms` in turn.
    pub open spec fn add_all(self, ms: Seq<TimeStampedMidiMessage>) -> RecorderView
        decreases ms.len(),
    {
        if ms.len() == 0 {
            self
        } else {
            self.add_all(ms.drop_last()).add(ms.last()).0
        }
    }
}

pub struct MidiRecorder {
    state: RecorderState,
    buffer: Vec<TimeStampedMidiMessage>,
    recordings: Vec<Vec<TimeStampedMidiMessage>>,
}

impl View for MidiRecorder {
    type V = RecorderView;

    closed spec fn view(&self) -> RecorderView {
        RecorderView {
            state: self.state,
            buffer: self.buffer@,
            recordings: self.recordings@.map_values(|v: Vec<TimeStampedMidiMessage>| v@),
        }
    }
}

impl Default for MidiRecorder {
    fn default() -> (r: MidiRecorder)
        ensures
            r@ == (RecorderView {
                state: RecorderState::Stopped,
                buffer: Seq::empty(),
                recordings: Seq::empty(),
            }),
    {
        let r = MidiRecorder { state: RecorderState::Stopped, buffer: Vec::new(), recordings: Vec::new() };
        assert(r@.recordings =~= Seq::<Seq<TimeStampedMidiMessage>>::empty());
        r
    }
}

impl MidiRecorder {
    pub fn get_state(&self) -> (r: RecorderState)
        ensures
            r == self@.state,
    {
        self.state
    }

    pub fn start_recording(&mut self) -> (r: Result<(), String>)
        ensures
            (final(self)@, r is Ok) == old(self)@.start(),
    {
        if self.state == RecorderState::Stopped {
            self.buffer.clear();
            self.state = RecorderState::Recording;
            Ok(())
        } else {
            Err("Recorder is already recording".to_string())
        }
    }

    pub fn stop_recording(&mut self) -> (r: Result<(), String>)
        ensures
            (final(self)@, r is Ok) == old(self)@.stop(),
    {
        if self.state == RecorderState::Stopped {
            return Err("Recorder is not currently recording".to_string());
        }
        self.state = RecorderState::Stopped;
        if self.buffer.len() > 0 {
            let mut take: Vec<TimeStampedMidiMessage> = Vec::new();
            std::mem::swap(&mut self.buffer, &mut take);
            self.recordings.push(take);
            assert(self@.recordings =~= old(self)@.recordings.push(old(self)@.buffer));
        }
        assert(self@.buffer =~= Seq::<TimeStampedMidiMessage>::empty());
        Ok(())
    }

    pub fn get_recordings(&self) -> (r: &[Vec<TimeStampedMidiMessage>])
        ensures
            r@.map_values(|v: Vec<TimeStampedMidiMessage>| v@) == self@.recordings,
    {
        self.recordings.as_slice()
    }

    pub fn remove_recording(&mut self, index: usize) -> (r: Result<(), String>)
        ensures
            r is Ok <==> index < old(self)@.recordings.len(),
            r is Ok ==> final(self)@ == (RecorderView {
                recordings: old(self)@.recordings.remove(index as int),
                ..old(self)@
            }),
            r is Err ==> final(self)@ == old(self)@,
    {
        if index < self.recordings.len() {
            self.recordings.remove(index);
            assert(self@.recordings =~= old(self)@.recordings.remove(index as int));
            Ok(())
        } else {
            Err("Recording index out of bounds".to_string())
        }
    }

    pub fn add_message(&mut self, message: MidiMessage, timestamp_microseconds: u64) -> (r: Result<
        (),
        String,
    >)
        ensures
            (final(self)@, r is Ok) == old(self)@.add(
                TimeStampedMidiMessage { timestamp_microseconds, message },
            ),
    {
        if self.state == RecorderState::Recording {
            self.buffer.push(TimeStampedMidiMessage { timestamp_microseconds, message });
            Ok(())
        } else {
            Err("Recorder is not currently recording".to_string())
        }
    }
}

/// A take of `k` messages: from a stopped recorder, starting, adding `k`
/// messages and stopping appends one recording of exactly those messages;
/// with no message the recordings stay as they were.
pub proof fn lemma_take(r: RecorderView, ms: Seq<TimeStampedMidiMessage>)
    requires
        r.state == RecorderState::Stopped,
    ensures
        ({
            let (started, ok1) = r.start();
            let (stopped, ok2) = started.add_all(ms).stop();
            &&& ok1 && ok2
            &&& ms.len() > 0 ==> stopped.recordings == r.recordings.push(ms)
            &&& ms.len() > 0 ==> stopped.recordings.len() == r.recordings.len() + 1
            &&& ms.len() > 0 ==> stopped.recordings.last().len() == ms.len()
            &&& ms.len() == 0 ==> stopped.recordings == r.recordings
        }),
{
    let started = r.start().0;
    lemma_add_all(started, ms);
}

proof fn lemma_add_all(r: RecorderView, ms: Seq<TimeStampedMidiMessage>)
    requires
        r.state == RecorderState::Recording,
    ensures
        r.add_all(ms) == (RecorderView { buffer: r.buffer + ms, ..r }),
    decreases ms.len(),
{
    if ms.len() == 0 {
        assert(r.buffer + ms =~= r.buffer);
    } else {
        lemma_add_all(r, ms.drop_last());
        assert((r.buffer + ms.drop_last()).push(ms.last()) =~= r.buffer + ms);
    }
}

} // verus!
