//! Reading Standard MIDI Files: the event grammar of a track, with running
//! status, and the chunks of a file.
use vstd::prelude::*;
use vstd::utf8::{valid_utf8, decode_utf8};

use crate::message::{MidiChannel, MidiMessage, decodable, decodes_to, channel_from_number};
use crate::smf::{
    Event, MetaEvent, MidiFile, MidiTrack, MidiTrackEvent, MusicalScale,
    end_of_track_event, header_of, key_of_byte, parse_midi_file_header, read_be16, read_be32,
    track_chunk_type,
};
use crate::vlq::{from_var_length_bytes, get_var_length_bytes_length, vlq_prefix_len, vlq_value};

verus! {

/// The number of data bytes of a channel message with status `s`.
pub open spec fn channel_data_len(s: u8) -> int {
    if s / 16 == 0xC || s / 16 == 0xD {
        1
    } else {
        2
    }
}

/// The length of a meta event of type `t` whose length is fixed.
pub open spec fn fixed_meta_len(t: u8) -> Option<int> {
    if t == 0x00 {
        Some(5)
    } else if t == 0x20 {
        Some(4)
    } else if t == 0x2F {
        Some(3)
    } else if t == 0x51 {
        Some(6)
    } else if t == 0x54 {
        Some(8)
    } else if t == 0x58 {
        Some(7)
    } else if t == 0x59 {
        Some(5)
    } else {
        None
    }
}

/// The length of an event whose data length is a quantity at `at`.
pub open spec fn variable_event_len(d: Seq<u8>, at: int) -> Option<int> {
    match vlq_prefix_len(d.subrange(at, d.len() as int)) {
        Some(k) => {
            let n = vlq_value(d.subrange(at, at + k));
            if d.len() < at + k + n {
                None
            } else {
                Some(at + k + n)
            }
        },
        None => None,
    }
}

/// The length of the event at the start of `d`, where `rsl` is the number
/// of data bytes of the running status, if one is set.
pub open spec fn event_length(d: Seq<u8>, rsl: Option<u8>) -> Option<int> {
    if d.len() == 0 {
        None
    } else if d[0] < 0x80 {
        match rsl {
            Some(n) => if 0 < n <= d.len() {
                Some(n as int)
            } else {
                None
            },
            None => None,
        }
    } else if d[0] < 0xF0 {
        if d.len() < 1 + channel_data_len(d[0]) {
            None
        } else {
            Some(1 + channel_data_len(d[0]))
        }
    } else if d[0] == 0xFF {
        if d.len() < 2 {
            None
        } else {
            match fixed_meta_len(d[1]) {
                Some(n) => if d.len() < n {
                    None
                } else {
                    Some(n)
                },
                None => variable_event_len(d, 2),
            }
        }
    } else if d[0] == 0xF0 || d[0] == 0xF7 {
        if d.len() < 2 {
            None
        } else {
            variable_event_len(d, 1)
        }
    } else {
        None
    }
}

/// The data of a variable-length meta event `d`.
pub open spec fn meta_data(d: Seq<u8>) -> Seq<u8> {
    let k = vlq_prefix_len(d.subrange(2, d.len() as int))->Some_0;
    d.subrange(2 + k, d.len() as int)
}

pub open spec fn is_text_meta(t: u8) -> bool {
    0x01 <= t <= 0x07
}

/// Whether the meta event `d` (the whole event, from 0xFF) is understood.
pub open spec fn meta_ok(d: Seq<u8>) -> bool {
    let t = d[1];
    if t == 0x00 {
        d[2] == 2
    } else if is_text_meta(t) {
        valid_utf8(meta_data(d))
    } else if t == 0x20 {
        d[2] == 1 && d[3] < 16
    } else if t == 0x2F {
        d[2] == 0
    } else if t == 0x51 {
        d[2] == 3
    } else if t == 0x54 {
        d[2] == 5
    } else if t == 0x58 {
        d[2] == 4
    } else if t == 0x59 {
        d[2] == 2 && (d[3] <= 7 || d[3] >= 249) && d[4] <= 1
    } else {
        t == 0x7F
    }
}

/// The text that a text meta event of type `t` carries, in its variant.
pub open spec fn text_meta_matches(t: u8, m: MetaEvent, text: Seq<char>) -> bool {
    if t == 0x01 {
        m matches MetaEvent::TextEvent(s) && s@ == text
    } else if t == 0x02 {
        m matches MetaEvent::CopyrightNotice(s) && s@ == text
    } else if t == 0x03 {
        m matches MetaEvent::SequenceName(s) && s@ == text
    } else if t == 0x04 {
        m matches MetaEvent::InstrumentName(s) && s@ == text
    } else if t == 0x05 {
        m matches MetaEvent::Lyric(s) && s@ == text
    } else if t == 0x06 {
        m matches MetaEvent::Marker(s) && s@ == text
    } else {
        m matches MetaEvent::CuePoint(s) && s@ == text
    }
}

/// `m` is the meta event that the bytes `d` (from 0xFF) stand for.
pub open spec fn meta_decodes(d: Seq<u8>, m: MetaEvent) -> bool {
    let t = d[1];
    if t == 0x00 {
        m == MetaEvent::SequenceNumber(read_be16(d, 3))
    } else if is_text_meta(t) {
        text_meta_matches(t, m, decode_utf8(meta_data(d)))
    } else if t == 0x20 {
        m == MetaEvent::MidiChannelPrefix(channel_from_number(d[3]))
    } else if t == 0x2F {
        m == MetaEvent::EndOfTrack
    } else if t == 0x51 {
        m == MetaEvent::SetTempo((d[3] * 0x1_0000 + d[4] * 0x100 + d[5]) as u32)
    } else if t == 0x54 {
        m == (MetaEvent::SmpteOffset {
            hour: d[3],
            minute: d[4],
            second: d[5],
            frame: d[6],
            sub_frame: d[7],
        })
    } else if t == 0x58 {
        m == (MetaEvent::TimeSignature {
            numerator: d[3],
            denominator: d[4],
            clocks_per_click: d[5],
            notated_32nd_notes_per_quarter_note: d[6],
        })
    } else if t == 0x59 {
        m == (MetaEvent::KeySignature {
            key: key_of_byte(d[3]),
            scale: if d[4] == 0 {
                MusicalScale::Major
            } else {
                MusicalScale::Minor
            },
        })
    } else {
        m matches MetaEvent::SequencerSpecific(v) && v@ == meta_data(d)
    }
}

/// Whether the event `d` (exactly one event, without its delta time) is
/// understood after running status `rs`.
#[verifier::opaque]
pub open spec fn event_ok(d: Seq<u8>, rs: Option<u8>) -> bool {
    if d[0] < 0x80 {
        rs is Some && decodable(seq![rs->Some_0] + d)
    } else if d[0] < 0xF0 {
        decodable(d)
    } else if d[0] == 0xFF {
        meta_ok(d)
    } else {
        d[0] == 0xF0 || d[0] == 0xF7
    }
}

/// `e` is the event that `d` stands for after running status `rs`.
#[verifier::opaque]
pub open spec fn event_decodes(d: Seq<u8>, rs: Option<u8>, e: Event) -> bool {
    if d[0] < 0x80 {
        e matches Event::MidiEvent(m) && decodes_to(seq![rs->Some_0] + d, m)
    } else if d[0] < 0xF0 {
        e matches Event::MidiEvent(m) && decodes_to(d, m)
    } else if d[0] == 0xFF {
        e matches Event::MetaEvent(m) && meta_decodes(d, m)
    } else {
        e == Event::SysExEvent
    }
}

/// The running status after event `d`: set by a channel message with a
/// status byte, kept by one without, cleared by meta and System Exclusive events.
pub open spec fn next_status(d: Seq<u8>, rs: Option<u8>) -> Option<u8> {
    if d[0] < 0x80 {
        rs
    } else if d[0] < 0xF0 {
        Some(d[0])
    } else {
        None
    }
}

pub open spec fn running_length(rs: Option<u8>) -> Option<u8> {
    match rs {
        Some(s) => Some(channel_data_len(s) as u8),
        None => None,
    }
}

/// The lengths of the delta time and of the event at the start of track data `t`.
pub open spec fn step(t: Seq<u8>, rs: Option<u8>) -> Option<(int, int)> {
    match vlq_prefix_len(t) {
        Some(k) => match event_length(t.subrange(k, t.len() as int), running_length(rs)) {
            Some(l) => Some((k, l)),
            None => None,
        },
        None => None,
    }
}

pub open spec fn is_end_of_track_bytes(d: Seq<u8>) -> bool {
    d[0] == 0xFF && d[1] == 0x2F
}

pub open spec fn is_sysex_bytes(d: Seq<u8>) -> bool {
    d[0] == 0xF0 || d[0] == 0xF7
}

/// Whether the track data `t` reads without error after running status `rs`:
/// event after event up to an end-of-track event, or until fewer than three
/// bytes remain (the end of the track is then taken as given).
#[verifier::opaque]
pub open spec fn track_ok(t: Seq<u8>, rs: Option<u8>) -> bool
    decreases t.len(),
{
    match step(t, rs) {
        Some((k, l)) => {
            let d = t.subrange(k, k + l);
            let tail = t.subrange(k + l, t.len() as int);
            &&& 0 < k + l <= t.len()
            &&& event_ok(d, rs)
            &&& (is_end_of_track_bytes(d) || tail.len() < 3 || track_ok(tail, next_status(d, rs)))
        },
        None => false,
    }
}

/// `evs` are the events read from track data `t` after running status `rs`.
/// System Exclusive events are read past and left out.
#[verifier::opaque]
pub open spec fn track_parses(t: Seq<u8>, rs: Option<u8>, evs: Seq<MidiTrackEvent>) -> bool
    decreases t.len(),
{
    match step(t, rs) {
        Some((k, l)) => {
            let d = t.subrange(k, k + l);
            let tail = t.subrange(k + l, t.len() as int);
            let delta = vlq_value(t.subrange(0, k));
            let skip = is_sysex_bytes(d);
            let rest = if skip {
                evs
            } else {
                evs.drop_first()
            };
            &&& 0 < k + l <= t.len()
            &&& event_ok(d, rs)
            &&& (skip || (evs.len() > 0 && evs[0].delta_time == delta && event_decodes(
                d,
                rs,
                evs[0].event,
            )))
            &&& if is_end_of_track_bytes(d) {
                rest.len() == 0
            } else if tail.len() < 3 {
                rest == seq![end_of_track_event()]
            } else {
                track_parses(tail, next_status(d, rs), rest)
            }
        },
        None => false,
    }
}

} // verus!

verus! {

/// Relies on `String::from_utf8`: it fails exactly on bytes that are not
/// valid UTF-8 and otherwise holds the characters that they encode.
#[verifier::external_body]
fn string_from_utf8(bytes: Vec<u8>) -> (r: Option<String>)
    ensures
        r is Some <==> valid_utf8(bytes@),
        r matches Some(s) ==> s@ == decode_utf8(bytes@),
{
    String::from_utf8(bytes).ok()
}

/// The length of an event whose data length is a quantity at `at`.
fn get_variable_event_length(data: &[u8], at: usize) -> (r: Result<usize, String>)
    requires
        at <= data@.len(),
    ensures
        r is Ok <==> variable_event_len(data@, at as int) is Some,
        r matches Ok(n) ==> variable_event_len(data@, at as int) == Some(n as int),
{
    let rest = vstd::slice::slice_subrange(data, at, data.len());
    let k = get_var_length_bytes_length(rest)?;
    assert(rest@.subrange(0, k as int) =~= data@.subrange(at as int, at + k));
    let n = from_var_length_bytes(vstd::slice::slice_subrange(rest, 0, k))?;
    if data.len() - at - k < n as usize {
        return Err("Event data length exceeds available data".to_string());
    }
    Ok(at + k + n as usize)
}

/// The length of the event at the start of `data`, where
/// `running_status_length` is the number of data bytes of the running status.
fn get_event_length(data: &[u8], running_status_length: Option<u8>) -> (r: Result<usize, String>)
    ensures
        r is Ok <==> event_length(data@, running_status_length) is Some,
        r matches Ok(n) ==> event_length(data@, running_status_length) == Some(n as int),
{
    if data.len() == 0 {
        return Err("Data is empty, cannot determine event length".to_string());
    }
    let first = data[0];
    if first < 0x80 {
        match running_status_length {
            Some(n) => {
                if 0 < n && (n as usize) <= data.len() {
                    Ok(n as usize)
                } else {
                    Err("Running status event data is too short".to_string())
                }
            },
            None => Err("Running status not set, cannot determine event length".to_string()),
        }
    } else if first < 0xF0 {
        let n: usize = if first / 16 == 0xC || first / 16 == 0xD {
            2
        } else {
            3
        };
        if data.len() < n {
            Err("Channel message data is too short".to_string())
        } else {
            Ok(n)
        }
    } else if first == 0xFF {
        if data.len() < 2 {
            return Err("Meta event data is too short".to_string());
        }
        let t = data[1];
        let fixed: usize = if t == 0x00 {
            5
        } else if t == 0x20 {
            4
        } else if t == 0x2F {
            3
        } else if t == 0x51 {
            6
        } else if t == 0x54 {
            8
        } else if t == 0x58 {
            7
        } else if t == 0x59 {
            5
        } else {
            0
        };
        if fixed > 0 {
            if data.len() < fixed {
                Err("Meta event data is too short".to_string())
            } else {
                Ok(fixed)
            }
        } else {
            get_variable_event_length(data, 2)
        }
    } else if first == 0xF0 || first == 0xF7 {
        if data.len() < 2 {
            return Err("SysEx event data is too short".to_string());
        }
        get_variable_event_length(data, 1)
    } else {
        Err("Unsupported event type".to_string())
    }
}

/// The data of the variable-length meta event `data`, as a vector.
fn meta_data_vec(data: &[u8]) -> (r: Vec<u8>)
    requires
        event_length(data@, None) == Some(data@.len() as int),
        data@[0] == 0xFF,
        fixed_meta_len(data@[1]) is None,
    ensures
        r@ == meta_data(data@),
{
    let rest = vstd::slice::slice_subrange(data, 2, data.len());
    let k = match get_var_length_bytes_length(rest) {
        Ok(k) => k,
        Err(_) => {
            assert(false);
            0
        },
    };
    vstd::slice::slice_to_vec(vstd::slice::slice_subrange(data, 2 + k, data.len()))
}

/// Reads one event (without its delta time) after running status
/// `running_status`; also returns the status byte it carries (0 for none).
fn parse_midi_track_event(data: &[u8], running_status: Option<u8>) -> (r: Result<(Event, u8), String>)
    requires
        event_length(data@, running_length(running_status)) == Some(data@.len() as int),
    ensures
        r is Ok <==> event_ok(data@, running_status),
        r matches Ok((e, s)) ==> event_decodes(data@, running_status, e) && s == (if 0x80
            <= data@[0] < 0xF0 {
            data@[0]
        } else {
            0
        }),
{
    reveal(event_ok);
    reveal(event_decodes);
    let first = data[0];
    if first < 0x80 {
        let status = match running_status {
            Some(s) => s,
            None => {
                return Err("Missing running status for MIDI event".to_string());
            },
        };
        let mut message_data: Vec<u8> = Vec::new();
        message_data.push(status);
        crate::message::append_bytes(&mut message_data, data);
        assert(message_data@ =~= seq![status] + data@);
        let m = MidiMessage::decode(message_data.as_slice())?;
        Ok((Event::MidiEvent(m), 0))
    } else if first < 0xF0 {
        let m = MidiMessage::decode(data)?;
        Ok((Event::MidiEvent(m), first))
    } else if first == 0xFF {
        let t = data[1];
        let meta = if t == 0x00 {
            if data[2] != 0x02 {
                return Err("Invalid sequence number meta event".to_string());
            }
            MetaEvent::SequenceNumber(data[3] as u16 * 0x100 + data[4] as u16)
        } else if 0x01 <= t && t <= 0x07 {
            let text = match string_from_utf8(meta_data_vec(data)) {
                Some(s) => s,
                None => {
                    return Err("Invalid UTF-8 in text event".to_string());
                },
            };
            if t == 0x01 {
                MetaEvent::TextEvent(text)
            } else if t == 0x02 {
                MetaEvent::CopyrightNotice(text)
            } else if t == 0x03 {
                MetaEvent::SequenceName(text)
            } else if t == 0x04 {
                MetaEvent::InstrumentName(text)
            } else if t == 0x05 {
                MetaEvent::Lyric(text)
            } else if t == 0x06 {
                MetaEvent::Marker(text)
            } else {
                MetaEvent::CuePoint(text)
            }
        } else if t == 0x20 {
            if data[2] != 0x01 {
                return Err("Invalid MIDI Channel Prefix meta event".to_string());
            }
            MetaEvent::MidiChannelPrefix(MidiChannel::try_from(data[3])?)
        } else if t == 0x2F {
            if data[2] != 0x00 {
                return Err("Invalid End of Track meta event".to_string());
            }
            MetaEvent::EndOfTrack
        } else if t == 0x51 {
            if data[2] != 0x03 {
                return Err("Invalid Set Tempo meta event".to_string());
            }
            MetaEvent::SetTempo(data[3] as u32 * 0x1_0000 + data[4] as u32 * 0x100 + data[5] as u32)
        } else if t == 0x54 {
            if data[2] != 0x05 {
                return Err("Invalid SMPTE Offset meta event".to_string());
            }
            MetaEvent::SmpteOffset {
                hour: data[3],
                minute: data[4],
                second: data[5],
                frame: data[6],
                sub_frame: data[7],
            }
        } else if t == 0x58 {
            if data[2] != 0x04 {
                return Err("Invalid Time Signature meta event".to_string());
            }
            MetaEvent::TimeSignature {
                numerator: data[3],
                denominator: data[4],
                clocks_per_click: data[5],
                notated_32nd_notes_per_quarter_note: data[6],
            }
        } else if t == 0x59 {
            if data[2] != 0x02 {
                return Err("Invalid Key Signature meta event".to_string());
            }
            let kb = data[3];
            if !(kb <= 7 || kb >= 249) {
                return Err("Key signature must be between -7 and 7".to_string());
            }
            let key: i8 = if kb < 0x80 {
                kb as i8
            } else {
                (kb as i16 - 256) as i8
            };
            let scale = if data[4] == 0 {
                MusicalScale::Major
            } else if data[4] == 1 {
                MusicalScale::Minor
            } else {
                return Err("Invalid key signature scale".to_string());
            };
            MetaEvent::KeySignature { key, scale }
        } else if t == 0x7F {
            MetaEvent::SequencerSpecific(meta_data_vec(data))
        } else {
            return Err("Unsupported meta event type".to_string());
        };
        Ok((Event::MetaEvent(meta), 0))
    } else {
        Ok((Event::SysExEvent, 0))
    }
}

} // verus!

verus! {

/// The body length of the track chunk at `off`, if its header is valid and
/// the body lies within `d`.
pub open spec fn track_chunk_len(d: Seq<u8>, off: int) -> Option<int> {
    if d.len() <= off + 8 || d.subrange(off, off + 4) != track_chunk_type() {
        None
    } else {
        let n = read_be32(d, off + 4) as int;
        if n == 0 || d.len() < off + 8 + n {
            None
        } else {
            Some(n)
        }
    }
}

/// The body of the track chunk at `off` (meaningful where `track_chunk_len` is some).
pub open spec fn track_chunk_body(d: Seq<u8>, off: int) -> Seq<u8> {
    d.subrange(off + 8, off + 8 + track_chunk_len(d, off)->Some_0)
}

pub open spec fn track_chunk_ok(d: Seq<u8>, off: int) -> bool {
    track_chunk_len(d, off) is Some && track_ok(track_chunk_body(d, off), None)
}

fn running_status_length(rs: Option<u8>) -> (r: Option<u8>)
    ensures
        r == running_length(rs),
{
    match rs {
        Some(s) => if s / 16 == 0xC || s / 16 == 0xD {
            Some(1)
        } else {
            Some(2)
        },
        None => None,
    }
}

/// Reads the delta time and the event at the start of track data `t`:
/// the length of each, the delta time and the event.
fn parse_step(t: &[u8], rs: Option<u8>) -> (r: Result<(usize, usize, u32, Event), String>)
    ensures
        r is Ok <==> (step(t@, rs) is Some && event_ok(
            t@.subrange(step(t@, rs)->Some_0.0, step(t@, rs)->Some_0.0 + step(t@, rs)->Some_0.1),
            rs,
        )),
        r matches Ok((k, l, delta, e)) ==> {
            &&& step(t@, rs) == Some((k as int, l as int))
            &&& k + l <= t@.len()
            &&& k > 0
            &&& delta as nat == vlq_value(t@.subrange(0, k as int))
            &&& event_decodes(t@.subrange(k as int, k + l), rs, e)
        },
{
    let k = get_var_length_bytes_length(t)?;
    let delta = match from_var_length_bytes(vstd::slice::slice_subrange(t, 0, k)) {
        Ok(v) => v,
        Err(e) => {
            assert(false);
            return Err(e);
        },
    };
    let rest = vstd::slice::slice_subrange(t, k, t.len());
    let l = get_event_length(rest, running_status_length(rs))?;
    let d = vstd::slice::slice_subrange(rest, 0, l);
    assert(d@ =~= t@.subrange(k as int, k + l));
    proof {
        lemma_event_length_prefix(rest@, running_length(rs), l as int);
        assert(rest@.subrange(0, l as int) =~= d@);
    }
    let (event, _status) = parse_midi_track_event(d, rs)?;
    Ok((k, l, delta, event))
}

/// The length of an event depends only on its own bytes.
proof fn lemma_event_length_prefix(x: Seq<u8>, rsl: Option<u8>, l: int)
    requires
        event_length(x, rsl) == Some(l),
    ensures
        0 < l <= x.len(),
        event_length(x.subrange(0, l), rsl) == Some(l),
{
    let p = x.subrange(0, l);
    if x[0] >= 0x80 && (x[0] == 0xFF && fixed_meta_len(x[1]) is None || x[0] == 0xF0 || x[0] == 0xF7) {
        let at: int = if x[0] == 0xFF { 2 } else { 1 };
        let k = vlq_prefix_len(x.subrange(at, x.len() as int))->Some_0;
        assert(p.subrange(at, p.len() as int) =~= x.subrange(at, x.len() as int).subrange(0, l - at));
        assert(x.subrange(at, x.len() as int).subrange(0, l - at).subrange(0, k) =~= x.subrange(at, x.len() as int).subrange(0, k));
        assert(p.subrange(at, at + k) =~= x.subrange(at, at + k));
    }
}

/// One step of `track_ok`.
pub proof fn lemma_track_ok_step(t: Seq<u8>, rs: Option<u8>)
    ensures
        track_ok(t, rs) == match step(t, rs) {
            Some((k, l)) => {
                let d = t.subrange(k, k + l);
                let tail = t.subrange(k + l, t.len() as int);
                &&& 0 < k + l <= t.len()
                &&& event_ok(d, rs)
                &&& (is_end_of_track_bytes(d) || tail.len() < 3 || track_ok(
                    tail,
                    next_status(d, rs),
                ))
            },
            None => false,
        },
{
    reveal_with_fuel(track_ok, 1);
}

/// One step of `track_parses`.
pub proof fn lemma_track_parses_step(t: Seq<u8>, rs: Option<u8>, evs: Seq<MidiTrackEvent>)
    ensures
        track_parses(t, rs, evs) == match step(t, rs) {
            Some((k, l)) => {
                let d = t.subrange(k, k + l);
                let tail = t.subrange(k + l, t.len() as int);
                let delta = vlq_value(t.subrange(0, k));
                let skip = is_sysex_bytes(d);
                let rest = if skip {
                    evs
                } else {
                    evs.drop_first()
                };
                &&& 0 < k + l <= t.len()
                &&& event_ok(d, rs)
                &&& (skip || (evs.len() > 0 && evs[0].delta_time == delta && event_decodes(
                    d,
                    rs,
                    evs[0].event,
                )))
                &&& if is_end_of_track_bytes(d) {
                    rest.len() == 0
                } else if tail.len() < 3 {
                    rest == seq![end_of_track_event()]
                } else {
                    track_parses(tail, next_status(d, rs), rest)
                }
            },
            None => false,
        },
{
    reveal_with_fuel(track_parses, 1);
}

/// Reads the events of the track body `body`.
#[verifier::rlimit(100)]
fn parse_track_events(body: &[u8]) -> (r: Result<MidiTrack, String>)
    ensures
        r is Ok <==> track_ok(body@, None),
        r matches Ok(t) ==> track_parses(body@, None, t.0@),
{
    let n = body.len();
    let mut out: Vec<MidiTrackEvent> = Vec::new();
    let mut pos: usize = 0;
    let mut rs: Option<u8> = None;
    assert(body@.subrange(0, n as int) =~= body@);
    assert forall|es: Seq<MidiTrackEvent>|
        track_parses(body@.subrange(0, n as int), None, es) implies track_parses(
            body@,
            None,
            out@ + es,
        ) by {
        assert(out@ + es =~= es);
    }
    loop
        invariant
            n == body@.len(),
            pos <= n,
            track_ok(body@, None) == track_ok(body@.subrange(pos as int, n as int), rs),
            forall|es: Seq<MidiTrackEvent>|
                track_parses(body@.subrange(pos as int, n as int), rs, es) ==> track_parses(
                    body@,
                    None,
                    out@ + es,
                ),
        decreases n - pos,
    {
        let t = vstd::slice::slice_subrange(body, pos, n);
        proof {
            lemma_track_ok_step(t@, rs);
        }
        let (k, l, delta, event) = match parse_step(t, rs) {
            Ok(x) => x,
            Err(e) => {
                return Err(e);
            },
        };
        let d = vstd::slice::slice_subrange(t, k, k + l);
        let is_sysex = d[0] == 0xF0 || d[0] == 0xF7;
        let is_end = d[0] == 0xFF && d[1] == 0x2F;
        let next: Option<u8> = if d[0] < 0x80 {
            rs
        } else if d[0] < 0xF0 {
            Some(d[0])
        } else {
            None
        };
        let ghost before = out@;
        let ghost ev = MidiTrackEvent { delta_time: delta, event };
        if !is_sysex {
            out.push(MidiTrackEvent { delta_time: delta, event });
        }
        let ghost tail = t@.subrange(k + l, t@.len() as int);
        assert(tail =~= body@.subrange(pos + k + l, n as int));
        pos = pos + k + l;
        if is_end {
            proof {
                let es = if is_sysex {
                    Seq::<MidiTrackEvent>::empty()
                } else {
                    seq![ev]
                };
                lemma_track_parses_step(t@, rs, es);
                assert(track_parses(t@, rs, es));
                assert(before + es =~= out@);
            }
            return Ok(MidiTrack(out));
        }
        if n - pos < 3 {
            proof {
                let es = if is_sysex {
                    seq![end_of_track_event()]
                } else {
                    seq![ev, end_of_track_event()]
                };
                if !is_sysex {
                    assert(es.drop_first() =~= seq![end_of_track_event()]);
                }
                lemma_track_parses_step(t@, rs, es);
                assert(track_parses(t@, rs, es));
                assert(before + es =~= out@.push(end_of_track_event()));
            }
            out.push(
                MidiTrackEvent { delta_time: 0, event: Event::MetaEvent(MetaEvent::EndOfTrack) },
            );
            return Ok(MidiTrack(out));
        }
        proof {
            assert forall|es: Seq<MidiTrackEvent>|
                track_parses(tail, next, es) implies track_parses(body@, None, out@ + es) by {
                let all = if is_sysex {
                    es
                } else {
                    seq![ev] + es
                };
                if !is_sysex {
                    assert(all.drop_first() =~= es);
                }
                lemma_track_parses_step(t@, rs, all);
                assert(track_parses(t@, rs, all));
                assert(before + all =~= out@ + es);
            }
        }
        rs = next;
    }
}

/// Reads the track chunk at `*offset` and moves `*offset` past it.
fn parse_midi_file_track(data: &[u8], offset: &mut usize) -> (r: Result<MidiTrack, String>)
    ensures
        r is Ok <==> track_chunk_ok(data@, *old(offset) as int),
        r matches Ok(t) ==> track_parses(track_chunk_body(data@, *old(offset) as int), None, t.0@)
            && *final(offset) == *old(offset) + 8 + track_chunk_len(
            data@,
            *old(offset) as int,
        )->Some_0,
{
    let off = *offset;
    if data.len() <= 8 || off >= data.len() - 8 {
        return Err("Data is too short for MIDI track chunk".to_string());
    }
    if !(data[off] == 0x4D && data[off + 1] == 0x54 && data[off + 2] == 0x72 && data[off + 3]
        == 0x6B) {
        assert(data@.subrange(off as int, off + 4) != track_chunk_type()) by {
            if data@.subrange(off as int, off + 4) == track_chunk_type() {
                assert(data@.subrange(off as int, off + 4)[0] == data@[off as int]);
                assert(data@.subrange(off as int, off + 4)[1] == data@[off + 1]);
                assert(data@.subrange(off as int, off + 4)[2] == data@[off + 2]);
                assert(data@.subrange(off as int, off + 4)[3] == data@[off + 3]);
            }
        }
        return Err("Invalid MIDI track chunk type".to_string());
    }
    assert(data@.subrange(off as int, off + 4) =~= track_chunk_type());
    let length = data[off + 4] as u32 * 0x100_0000 + data[off + 5] as u32 * 0x1_0000
        + data[off + 6] as u32 * 0x100 + data[off + 7] as u32;
    if length == 0 {
        return Err("Track length cannot be zero".to_string());
    }
    if data.len() - off - 8 < length as usize {
        return Err("Track length exceeds available data".to_string());
    }
    let end = off + 8 + length as usize;
    let body = vstd::slice::slice_subrange(data, off + 8, end);
    let track = parse_track_events(body)?;
    *offset = end;
    Ok(track)
}

/// The file header, then as many track chunks as it announces, are valid.
pub open spec fn tracks_ok(d: Seq<u8>, off: int, count: nat) -> bool
    decreases count,
{
    if count == 0 {
        true
    } else {
        track_chunk_ok(d, off) && tracks_ok(
            d,
            off + 8 + track_chunk_len(d, off)->Some_0,
            (count - 1) as nat,
        )
    }
}

/// `ts` are the tracks read from the chunks starting at `off`.
pub open spec fn tracks_parse(d: Seq<u8>, off: int, ts: Seq<MidiTrack>) -> bool
    decreases ts.len(),
{
    if ts.len() == 0 {
        true
    } else {
        &&& track_chunk_len(d, off) is Some
        &&& track_parses(track_chunk_body(d, off), None, ts[0].0@)
        &&& tracks_parse(d, off + 8 + track_chunk_len(d, off)->Some_0, ts.drop_first())
    }
}

pub open spec fn file_ok(d: Seq<u8>) -> bool {
    match header_of(d) {
        Some(h) => tracks_ok(d, 14, h.num_tracks as nat),
        None => false,
    }
}

/// `f` is the file read from `d`; bytes after the last track are ignored.
pub open spec fn file_parses(d: Seq<u8>, f: MidiFile) -> bool {
    &&& header_of(d) == Some(f.header)
    &&& f.tracks@.len() == f.header.num_tracks
    &&& tracks_parse(d, 14, f.tracks@)
}

impl MidiFile {
    /// Reads a Standard MIDI File.
    pub fn parse(data: &[u8]) -> (r: Result<MidiFile, String>)
        ensures
            r is Ok <==> file_ok(data@),
            r matches Ok(f) ==> file_parses(data@, f),
    {
        let header = parse_midi_file_header(data)?;
        let count = header.num_tracks;
        let mut offset: usize = 14;
        let mut tracks: Vec<MidiTrack> = Vec::new();
        let mut i: u16 = 0;
        while i < count
            invariant
                header_of(data@) == Some(header),
                count == header.num_tracks,
                i <= count,
                tracks@.len() == i,
                file_ok(data@) == tracks_ok(data@, offset as int, (count - i) as nat),
                forall|ts: Seq<MidiTrack>|
                    tracks_parse(data@, offset as int, ts) ==> tracks_parse(data@, 14, tracks@ + ts),
            decreases count - i,
        {
            let ghost before = tracks@;
            let ghost old_offset = offset as int;
            let track = parse_midi_file_track(data, &mut offset)?;
            let ghost tr = track;
            tracks.push(track);
            proof {
                assert forall|ts: Seq<MidiTrack>|
                    tracks_parse(data@, offset as int, ts) implies tracks_parse(
                        data@,
                        14,
                        tracks@ + ts,
                    ) by {
                    let all = seq![tr] + ts;
                    assert(all.drop_first() =~= ts);
                    assert(tracks_parse(data@, old_offset, all));
                    assert(before + all =~= tracks@ + ts);
                }
            }
            i += 1;
        }
        proof {
            assert(tracks_parse(data@, offset as int, Seq::<MidiTrack>::empty()));
            assert(tracks@ + Seq::<MidiTrack>::empty() =~= tracks@);
        }
        Ok(MidiFile { header, tracks })
    }
}

impl<'a> TryFrom<&'a [u8]> for MidiFile {
    type Error = String;

    fn try_from(value: &'a [u8]) -> (r: Result<MidiFile, String>)
        ensures
            r is Ok <==> file_ok(value@),
            r matches Ok(f) ==> file_parses(value@, f),
    {
        MidiFile::parse(value)
    }
}

/// The error text is not part of the contract; `try_from` states its own result.
impl<'a> vstd::std_specs::convert::TryFromSpecImpl<&'a [u8]> for MidiFile {
    open spec fn obeys_try_from_spec() -> bool {
        false
    }

    open spec fn try_from_spec(v: &'a [u8]) -> Result<MidiFile, String> {
        Err(arbitrary())
    }
}

} // verus!
