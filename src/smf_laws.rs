//! What the reader and the writer of Standard MIDI Files promise together:
//! reading what was written, then writing it again, gives the same bytes.
use vstd::prelude::*;

use crate::message::{
    MidiMessage, decodes_to, decodes_losslessly, encode_spec,
    lemma_channel_number_round_trip, lemma_decode_encode, lemma_encode_decode,
};
use crate::smf::{
    Event, MetaEvent, MidiFile, MidiHeader, MidiTrack, MidiTrackEvent, MusicalScale, be16, be24,
    be32, carried, event_bytes, file_bytes, header_bytes, header_of, is_end_of_track, key_byte, key_of_byte,
    meta_payload, read_be16, read_be32, text_bytes, track_body, track_chunk,
    track_chunk_type, tracks_bytes, variable_meta, end_of_track_event,
};
use crate::smf_parse::{
    channel_data_len, event_decodes, event_length, event_ok, file_ok, file_parses, is_end_of_track_bytes, is_sysex_bytes, lemma_track_ok_step, lemma_track_parses_step, meta_data,
    next_status, running_length, step, track_chunk_body, track_chunk_len,
    track_ok, track_parses, tracks_ok, tracks_parse, variable_event_len,
};
use crate::vlq::{VLQ_MAX, lemma_vlq_prefix_len_append, lemma_vlq_round_trip, vlq_bytes, vlq_value};

verus! {

/// An event that the reader can take back: a channel message within its
/// ranges, or a key signature within -7..=7; the other meta events always can.
pub open spec fn event_readable(e: Event) -> bool {
    match e {
        Event::MidiEvent(m) => m.wf(),
        Event::MetaEvent(MetaEvent::KeySignature { key, scale }) => -7 <= key <= 7,
        _ => true,
    }
}

/// A file whose events the reader can all take back.
pub open spec fn file_readable(f: MidiFile) -> bool {
    &&& f.header.division.wf()
    &&& forall|i: int, j: int|
        0 <= i < f.tracks@.len() && 0 <= j < f.tracks@[i].0@.len() ==> event_readable(
            #[trigger] f.tracks@[i].0@[j].event,
        )
}

/// A delta time followed by an event `d` whose length the reader finds
/// within `d`: the reader's step takes exactly the two.
proof fn lemma_step_of(delta: u32, d: Seq<u8>, rest: Seq<u8>, rs: Option<u8>)
    requires
        delta <= VLQ_MAX,
        event_length(d + rest, running_length(rs)) == Some(d.len() as int),
    ensures
        ({
            let v = vlq_bytes(delta as nat);
            let t = v + d + rest;
            let k = v.len() as int;
            &&& step(t, rs) == Some((k, d.len() as int))
            &&& t.subrange(k, k + d.len()) == d
            &&& t.subrange(k + d.len(), t.len() as int) == rest
            &&& vlq_value(t.subrange(0, k)) == delta
        }),
{
    let v = vlq_bytes(delta as nat);
    let t = v + d + rest;
    let k = v.len() as int;
    lemma_vlq_round_trip(delta as nat);
    lemma_vlq_prefix_len_append(v, d + rest);
    assert(t =~= v + (d + rest));
    assert(t.subrange(k, t.len() as int) =~= d + rest);
    assert(t.subrange(k, k + d.len()) =~= d);
    assert(t.subrange(k + d.len(), t.len() as int) =~= rest);
}

/// A message within its ranges leaves nothing for the decoder to drop.
proof fn lemma_lossless(m: MidiMessage)
    requires
        m.wf(),
    ensures
        decodes_losslessly(encode_spec(m)),
{
    lemma_decode_encode(m);
    match m {
        MidiMessage::Channel { channel, message } => {
            lemma_channel_number_round_trip(channel);
        },
        _ => {},
    }
}

} // verus!

verus! {

/// The running status that the writer can be in: none, or the status byte
/// of a channel message.
pub open spec fn status_ok(rs: Option<u8>) -> bool {
    rs matches Some(s) ==> 0x80 <= s < 0xF0
}

/// What the reader makes of the bytes written for `e` after running status
/// `rs`, followed by `rest`: it steps over exactly those bytes, accepts them,
/// ends up in the writer's running status, sees an end of track exactly
/// where one was written, and every event it may read there is written
/// back as the same bytes.
#[verifier::opaque]
pub open spec fn reads_back(e: MidiTrackEvent, rs: Option<u8>, rest: Seq<u8>) -> bool {
    let b = event_bytes(e, rs)->Some_0.0;
    let nrs = event_bytes(e, rs)->Some_0.1;
    let t = b + rest;
    match step(t, rs) {
        Some((k, l)) => {
            let d = t.subrange(k, k + l);
            let delta = vlq_value(t.subrange(0, k));
            &&& k + l == b.len()
            &&& 0 < k
            &&& 0 < l
            &&& t.subrange(k + l, t.len() as int) == rest
            &&& event_ok(d, rs)
            &&& next_status(d, rs) == nrs
            &&& !is_sysex_bytes(d)
            &&& is_end_of_track_bytes(d) == is_end_of_track(e.event)
            &&& delta == e.delta_time
            &&& forall|e2: Event|
                event_decodes(d, rs, e2) ==> {
                    &&& event_bytes(MidiTrackEvent { delta_time: e.delta_time, event: e2 }, rs)
                        == event_bytes(e, rs)
                    &&& is_end_of_track(e2) == is_end_of_track(e.event)
                    &&& !(e2 is SysExEvent)
                }
        },
        None => false,
    }
}

proof fn lemma_channel_event(e: MidiTrackEvent, rs: Option<u8>, rest: Seq<u8>)
    requires
        e.event matches Event::MidiEvent(m) && m is Channel && m.wf(),
        event_bytes(e, rs) is Some,
        status_ok(rs),
    ensures
        reads_back(e, rs, rest),
        status_ok(event_bytes(e, rs)->Some_0.1),
{
    reveal(event_ok);
    reveal(event_decodes);
    reveal(reads_back);
    let m = e.event->MidiEvent_0;
    let full = encode_spec(m);
    let ch = m->Channel_channel;
    let msg = m->Channel_message;
    lemma_channel_number_round_trip(ch);
    lemma_decode_encode(m);
    lemma_lossless(m);
    let s = full[0];
    assert(0x80 <= s < 0xF0);
    assert(full.len() == 1 + channel_data_len(s));
    let running = rs == Some(s);
    let d = if running {
        full.drop_first()
    } else {
        full
    };
    let v = vlq_bytes(e.delta_time as nat);
    let b = event_bytes(e, rs)->Some_0.0;
    assert(b == v + d);
    assert(d + rest =~= if running { full.drop_first() + rest } else { full + rest });
    assert((d + rest)[0] == d[0]);
    if running {
        assert(d[0] == full[1]);
    }
    assert(event_length(d + rest, running_length(rs)) == Some(d.len() as int));
    lemma_step_of(e.delta_time, d, rest, rs);
    assert(b + rest =~= v + d + rest);
    if running {
        assert(seq![s] + d =~= full);
    }
    assert forall|e2: Event| event_decodes(d, rs, e2) implies {
        &&& event_bytes(MidiTrackEvent { delta_time: e.delta_time, event: e2 }, rs) == event_bytes(e, rs)
        &&& is_end_of_track(e2) == is_end_of_track(e.event)
        &&& !(e2 is SysExEvent)
    } by {
        let m2 = e2->MidiEvent_0;
        if running {
            assert(seq![rs->Some_0] + d =~= full);
        }
        assert(decodes_to(full, m2));
        lemma_encode_decode(full, m2);
        assert(m2 is Channel);
    }
}

} // verus!

verus! {

proof fn lemma_variable_meta(kind: u8, data: Seq<u8>, rest: Seq<u8>)
    requires
        data.len() <= VLQ_MAX,
    ensures
        ({
            let d = seq![0xFFu8] + variable_meta(kind, data)->Some_0;
            &&& variable_meta(kind, data) is Some
            &&& variable_event_len(d + rest, 2) == Some(d.len() as int)
            &&& meta_data(d) == data
            &&& d[0] == 0xFF
            &&& d[1] == kind
            &&& d.len() >= 3
        }),
{
    let v = vlq_bytes(data.len());
    let d = seq![0xFFu8] + variable_meta(kind, data)->Some_0;
    assert(d =~= seq![0xFFu8, kind] + v + data);
    lemma_vlq_round_trip(data.len());
    lemma_vlq_prefix_len_append(v, data + rest);
    let x = d + rest;
    assert(x.subrange(2, x.len() as int) =~= v + (data + rest));
    assert(x.subrange(2, 2 + v.len() as int) =~= v);
    lemma_vlq_prefix_len_append(v, data);
    assert(d.subrange(2, d.len() as int) =~= v + data);
    assert(d.subrange(2 + v.len() as int, d.len() as int) =~= data);
}

#[verifier::rlimit(40)]
proof fn lemma_meta_event(e: MidiTrackEvent, rs: Option<u8>, rest: Seq<u8>)
    requires
        e.event is MetaEvent,
        event_readable(e.event),
        event_bytes(e, rs) is Some,
    ensures
        reads_back(e, rs, rest),
{
    reveal(reads_back);
    let me = e.event->MetaEvent_0;
    let p = meta_payload(me)->Some_0;
    let d = seq![0xFFu8] + p;
    let v = vlq_bytes(e.delta_time as nat);
    let b = event_bytes(e, rs)->Some_0.0;
    assert(b =~= v + d);
    assert(b + rest =~= v + d + rest);
    let x = d + rest;
    assert(x[0] == 0xFF);
    assert(x[1] == p[0]);
    match me {
        MetaEvent::TextEvent(s) => {
            lemma_variable_meta(0x01, text_bytes(s), rest);
        },
        MetaEvent::CopyrightNotice(s) => {
            lemma_variable_meta(0x02, text_bytes(s), rest);
        },
        MetaEvent::SequenceName(s) => {
            lemma_variable_meta(0x03, text_bytes(s), rest);
        },
        MetaEvent::TrackName(s) => {
            lemma_variable_meta(0x03, text_bytes(s), rest);
        },
        MetaEvent::InstrumentName(s) => {
            lemma_variable_meta(0x04, text_bytes(s), rest);
        },
        MetaEvent::Lyric(s) => {
            lemma_variable_meta(0x05, text_bytes(s), rest);
        },
        MetaEvent::Marker(s) => {
            lemma_variable_meta(0x06, text_bytes(s), rest);
        },
        MetaEvent::CuePoint(s) => {
            lemma_variable_meta(0x07, text_bytes(s), rest);
        },
        MetaEvent::SequencerSpecific(data) => {
            lemma_variable_meta(0x7F, data@, rest);
        },
        _ => {
            assert(x[2] == p[1]);
        },
    }
    assert(event_length(x, running_length(rs)) == Some(d.len() as int));
    lemma_step_of(e.delta_time, d, rest, rs);
    lemma_meta_read_back(me, d, rs);
}

/// Reading the meta event `d` written for `me` gives an event that is
/// written as the same bytes.
pub open spec fn meta_reads_back(me: MetaEvent, d: Seq<u8>, rs: Option<u8>) -> bool {
    &&& event_ok(d, rs)
    &&& !is_sysex_bytes(d)
    &&& next_status(d, rs) == None::<u8>
    &&& is_end_of_track_bytes(d) == is_end_of_track(Event::MetaEvent(me))
    &&& forall|e2: Event|
        event_decodes(d, rs, e2) ==> (e2 matches Event::MetaEvent(m2) && meta_payload(m2)
            == meta_payload(me) && is_end_of_track(e2) == is_end_of_track(Event::MetaEvent(me)))
}

proof fn lemma_meta_read_back(me: MetaEvent, d: Seq<u8>, rs: Option<u8>)
    requires
        meta_payload(me) is Some,
        d == seq![0xFFu8] + meta_payload(me)->Some_0,
        event_readable(Event::MetaEvent(me)),
    ensures
        meta_reads_back(me, d, rs),
{
    reveal(event_ok);
    reveal(event_decodes);
    let p = meta_payload(me)->Some_0;
    assert(d[1] == p[0]);
    match me {
        MetaEvent::TextEvent(s) => lemma_text_read_back(0x01, me, s, d, rs),
        MetaEvent::CopyrightNotice(s) => lemma_text_read_back(0x02, me, s, d, rs),
        MetaEvent::SequenceName(s) => lemma_text_read_back(0x03, me, s, d, rs),
        MetaEvent::TrackName(s) => lemma_text_read_back(0x03, me, s, d, rs),
        MetaEvent::InstrumentName(s) => lemma_text_read_back(0x04, me, s, d, rs),
        MetaEvent::Lyric(s) => lemma_text_read_back(0x05, me, s, d, rs),
        MetaEvent::Marker(s) => lemma_text_read_back(0x06, me, s, d, rs),
        MetaEvent::CuePoint(s) => lemma_text_read_back(0x07, me, s, d, rs),
        MetaEvent::SequencerSpecific(data) => lemma_sequencer_read_back(me, d, rs),
        MetaEvent::SequenceNumber(_) => lemma_number_read_back(me, d, rs),
        MetaEvent::MidiChannelPrefix(_) => lemma_number_read_back(me, d, rs),
        MetaEvent::SetTempo(_) => lemma_number_read_back(me, d, rs),
        MetaEvent::EndOfTrack => lemma_number_read_back(me, d, rs),
        MetaEvent::KeySignature { .. } => lemma_signature_read_back(me, d, rs),
        MetaEvent::TimeSignature { .. } => lemma_signature_read_back(me, d, rs),
        MetaEvent::SmpteOffset { .. } => lemma_signature_read_back(me, d, rs),
    }
}

proof fn lemma_sequencer_read_back(me: MetaEvent, d: Seq<u8>, rs: Option<u8>)
    requires
        me is SequencerSpecific,
        meta_payload(me) is Some,
        d == seq![0xFFu8] + meta_payload(me)->Some_0,
    ensures
        meta_reads_back(me, d, rs),
{
    reveal(event_ok);
    reveal(event_decodes);
    lemma_variable_meta(0x7F, me->SequencerSpecific_0@, Seq::empty());
    assert(d + Seq::<u8>::empty() =~= d);
}

proof fn lemma_number_read_back(me: MetaEvent, d: Seq<u8>, rs: Option<u8>)
    requires
        me is SequenceNumber || me is MidiChannelPrefix || me is SetTempo || me is EndOfTrack,
        meta_payload(me) is Some,
        d == seq![0xFFu8] + meta_payload(me)->Some_0,
    ensures
        meta_reads_back(me, d, rs),
{
    reveal(event_ok);
    reveal(event_decodes);
    match me {
        MetaEvent::SequenceNumber(n) => lemma_sequence_number_read_back(me, d, rs),
        MetaEvent::MidiChannelPrefix(c) => lemma_channel_prefix_read_back(me, d, rs),
        MetaEvent::SetTempo(t) => lemma_tempo_read_back(me, d, rs),
        _ => {},
    }
}

proof fn lemma_sequence_number_read_back(me: MetaEvent, d: Seq<u8>, rs: Option<u8>)
    requires
        me is SequenceNumber,
        meta_payload(me) is Some,
        d == seq![0xFFu8] + meta_payload(me)->Some_0,
    ensures
        meta_reads_back(me, d, rs),
{
    reveal(event_ok);
    reveal(event_decodes);
    assert(be16(read_be16(d, 3)) =~= be16(me->SequenceNumber_0));
}

proof fn lemma_channel_prefix_read_back(me: MetaEvent, d: Seq<u8>, rs: Option<u8>)
    requires
        me is MidiChannelPrefix,
        meta_payload(me) is Some,
        d == seq![0xFFu8] + meta_payload(me)->Some_0,
    ensures
        meta_reads_back(me, d, rs),
{
    reveal(event_ok);
    reveal(event_decodes);
    lemma_channel_number_round_trip(me->MidiChannelPrefix_0);
}

proof fn lemma_tempo_read_back(me: MetaEvent, d: Seq<u8>, rs: Option<u8>)
    requires
        me is SetTempo,
        meta_payload(me) is Some,
        d == seq![0xFFu8] + meta_payload(me)->Some_0,
    ensures
        meta_reads_back(me, d, rs),
{
    reveal(event_ok);
    reveal(event_decodes);
    let t = me->SetTempo_0;
    let (a, b, c) = (d[3], d[4], d[5]);
    assert(a == ((t / 0x1_0000) % 0x100) as u8 && b == ((t / 0x100) % 0x100) as u8 && c == (t
        % 0x100) as u8);
    lemma_be24_of_bytes(a, b, c);
}

proof fn lemma_be24_of_bytes(a: u8, b: u8, c: u8)
    ensures
        be24((a * 0x1_0000 + b * 0x100 + c) as u32) == seq![a, b, c],
{
    let t = a * 0x1_0000 + b * 0x100 + c;
    vstd::arithmetic::div_mod::lemma_fundamental_div_mod_converse(t as int, 0x100, a * 0x100 + b as int, c as int);
    vstd::arithmetic::div_mod::lemma_fundamental_div_mod_converse(a * 0x100 + b as int, 0x100, a as int, b as int);
    vstd::arithmetic::div_mod::lemma_fundamental_div_mod_converse(t as int, 0x1_0000, a as int, b * 0x100 + c as int);
    assert(be24(t as u32) =~= seq![a, b, c]);
}

proof fn lemma_signature_read_back(me: MetaEvent, d: Seq<u8>, rs: Option<u8>)
    requires
        me is KeySignature || me is TimeSignature || me is SmpteOffset,
        meta_payload(me) is Some,
        d == seq![0xFFu8] + meta_payload(me)->Some_0,
        event_readable(Event::MetaEvent(me)),
    ensures
        meta_reads_back(me, d, rs),
{
    reveal(event_ok);
    reveal(event_decodes);
    match me {
        MetaEvent::KeySignature { key, scale } => {
            assert(key_of_byte(key_byte(key)) == key);
            assert(d[4] == 0 <==> scale == MusicalScale::Major);
        },
        _ => {},
    }
}

proof fn lemma_text_read_back(kind: u8, me: MetaEvent, s: String, d: Seq<u8>, rs: Option<u8>)
    requires
        0x01 <= kind <= 0x07,
        meta_payload(me) == variable_meta(kind, text_bytes(s)),
        variable_meta(kind, text_bytes(s)) is Some,
        d == seq![0xFFu8] + variable_meta(kind, text_bytes(s))->Some_0,
    ensures
        meta_reads_back(me, d, rs),
{
    reveal(event_ok);
    reveal(event_decodes);
    lemma_variable_meta(kind, text_bytes(s), Seq::empty());
    assert(d + Seq::<u8>::empty() =~= d);
    vstd::utf8::encode_utf8_valid_utf8(s@);
    vstd::utf8::encode_utf8_decode_utf8(s@);
}

} // verus!

verus! {

proof fn lemma_event_reads_back(e: MidiTrackEvent, rs: Option<u8>, rest: Seq<u8>)
    requires
        !(e.event is SysExEvent),
        event_readable(e.event),
        event_bytes(e, rs) is Some,
        status_ok(rs),
    ensures
        reads_back(e, rs, rest),
        status_ok(event_bytes(e, rs)->Some_0.1),
{
    if e.event is MetaEvent {
        lemma_meta_event(e, rs, rest);
    } else {
        lemma_channel_event(e, rs, rest);
    }
}

/// One instance of what `reads_back` says: the reader's step over the
/// bytes written for `e`, and what it may read there as `e2`.
proof fn lemma_reads_back_use(e: MidiTrackEvent, rs: Option<u8>, rest: Seq<u8>, e2: Event) -> (kl: (int, int))
    requires
        reads_back(e, rs, rest),
    ensures
        ({
            let b = event_bytes(e, rs)->Some_0.0;
            let nrs = event_bytes(e, rs)->Some_0.1;
            let t = b + rest;
            let k = kl.0;
            let l = kl.1;
            let d = t.subrange(k, k + l);
            &&& step(t, rs) == Some(kl)
            &&& k + l == b.len()
            &&& 0 < k
            &&& 0 < l
            &&& t.subrange(k + l, t.len() as int) == rest
            &&& event_ok(d, rs)
            &&& next_status(d, rs) == nrs
            &&& !is_sysex_bytes(d)
            &&& is_end_of_track_bytes(d) == is_end_of_track(e.event)
            &&& vlq_value(t.subrange(0, k)) == e.delta_time
            &&& event_decodes(d, rs, e2) ==> {
                &&& event_bytes(MidiTrackEvent { delta_time: e.delta_time, event: e2 }, rs)
                    == event_bytes(e, rs)
                &&& is_end_of_track(e2) == is_end_of_track(e.event)
                &&& !(e2 is SysExEvent)
            }
        }),
{
    reveal(reads_back);
    let b = event_bytes(e, rs)->Some_0.0;
    step(b + rest, rs)->Some_0
}

/// What the track law says of `evs` after running status `rs`, `carry`
/// ticks after the last event written: the bytes read back as events that
/// are written as the same bytes.
#[verifier::opaque]
pub open spec fn track_reads_back(evs: Seq<MidiTrackEvent>, rs: Option<u8>, carry: nat) -> bool {
    let body = track_body(evs, rs, carry)->Some_0;
    &&& body.len() >= 4
    &&& track_ok(body, rs)
    &&& forall|es: Seq<MidiTrackEvent>|
        track_parses(body, rs, es) ==> track_body(es, rs, 0) == track_body(evs, rs, carry)
}

proof fn lemma_track_reads_back_use(
    evs: Seq<MidiTrackEvent>,
    rs: Option<u8>,
    carry: nat,
    es: Seq<MidiTrackEvent>,
)
    requires
        track_reads_back(evs, rs, carry),
    ensures
        track_body(evs, rs, carry)->Some_0.len() >= 4,
        track_ok(track_body(evs, rs, carry)->Some_0, rs),
        track_parses(track_body(evs, rs, carry)->Some_0, rs, es) ==> track_body(es, rs, 0)
            == track_body(evs, rs, carry),
{
    reveal(track_reads_back);
}

pub open spec fn all_readable(evs: Seq<MidiTrackEvent>) -> bool {
    forall|j: int| 0 <= j < evs.len() ==> event_readable(#[trigger] evs[j].event)
}

proof fn lemma_all_readable_tail(evs: Seq<MidiTrackEvent>)
    requires
        all_readable(evs),
        evs.len() > 0,
    ensures
        all_readable(evs.drop_first()),
        event_readable(evs[0].event),
{
    assert forall|j: int| 0 <= j < evs.drop_first().len() implies event_readable(
        #[trigger] evs.drop_first()[j].event,
    ) by {
        assert(evs.drop_first()[j] == evs[j + 1]);
    }
}

/// The bytes written for a track read back, after the same running status,
/// as events that are written as the same bytes.
proof fn lemma_track_round_trip(evs: Seq<MidiTrackEvent>, rs: Option<u8>, carry: nat)
    requires
        all_readable(evs),
        track_body(evs, rs, carry) is Some,
        status_ok(rs),
    ensures
        track_reads_back(evs, rs, carry),
    decreases evs.len(),
{
    if evs.len() == 0 {
        lemma_empty_track_round_trip(evs, rs, carry);
    } else {
        lemma_all_readable_tail(evs);
        let e = evs[0];
        if e.event is SysExEvent {
            lemma_track_round_trip(evs.drop_first(), rs, carry + e.delta_time as nat);
            lemma_skipped_round_trip(evs, rs, carry);
        } else if is_end_of_track(e.event) {
            lemma_last_round_trip(evs, rs, carry);
        } else {
            let nrs = event_bytes(carried(e, carry), rs)->Some_0.1;
            lemma_event_reads_back(carried(e, carry), rs, Seq::empty());
            lemma_track_round_trip(evs.drop_first(), nrs, 0);
            lemma_next_round_trip(evs, rs, carry);
        }
    }
}

proof fn lemma_empty_track_round_trip(evs: Seq<MidiTrackEvent>, rs: Option<u8>, carry: nat)
    requires
        evs.len() == 0,
        track_body(evs, rs, carry) is Some,
        status_ok(rs),
    ensures
        track_reads_back(evs, rs, carry),
{
    reveal(track_reads_back);
    let body = track_body(evs, rs, carry)->Some_0;
    lemma_track_ok_step(body, rs);
    let e0 = MidiTrackEvent { delta_time: carry as u32, event: Event::MetaEvent(MetaEvent::EndOfTrack) };
    lemma_event_reads_back(e0, rs, Seq::empty());
    assert(event_bytes(e0, rs)->Some_0.0 + Seq::<u8>::empty() =~= body);
    let kl = lemma_reads_back_use(e0, rs, Seq::empty(), Event::SysExEvent);
    assert forall|es: Seq<MidiTrackEvent>| track_parses(body, rs, es) implies track_body(es, rs, 0)
        == track_body(evs, rs, carry) by {
        lemma_track_parses_step(body, rs, es);
        let kl2 = lemma_reads_back_use(e0, rs, Seq::empty(), es[0].event);
        assert(carried(es[0], 0) == es[0]);
        assert(es[0] == (MidiTrackEvent { delta_time: e0.delta_time, event: es[0].event }));
    }
}

proof fn lemma_skipped_round_trip(evs: Seq<MidiTrackEvent>, rs: Option<u8>, carry: nat)
    requires
        evs.len() > 0,
        evs[0].event is SysExEvent,
        track_body(evs, rs, carry) is Some,
        track_reads_back(evs.drop_first(), rs, carry + evs[0].delta_time as nat),
    ensures
        track_reads_back(evs, rs, carry),
{
    reveal(track_reads_back);
}

proof fn lemma_last_round_trip(evs: Seq<MidiTrackEvent>, rs: Option<u8>, carry: nat)
    requires
        evs.len() > 0,
        is_end_of_track(evs[0].event),
        event_readable(evs[0].event),
        track_body(evs, rs, carry) is Some,
        status_ok(rs),
    ensures
        track_reads_back(evs, rs, carry),
{
    reveal(track_reads_back);
    let e = carried(evs[0], carry);
    let body = track_body(evs, rs, carry)->Some_0;
    let b = event_bytes(e, rs)->Some_0.0;
    lemma_track_ok_step(body, rs);
    lemma_event_reads_back(e, rs, Seq::empty());
    assert(b + Seq::<u8>::empty() =~= body);
    let kl = lemma_reads_back_use(e, rs, Seq::empty(), Event::SysExEvent);
    assert forall|es: Seq<MidiTrackEvent>| track_parses(body, rs, es) implies track_body(es, rs, 0)
        == track_body(evs, rs, carry) by {
        lemma_track_parses_step(body, rs, es);
        let kl2 = lemma_reads_back_use(e, rs, Seq::empty(), es[0].event);
        assert(carried(es[0], 0) == es[0]);
        assert(es[0] == (MidiTrackEvent { delta_time: e.delta_time, event: es[0].event }));
    }
}

proof fn lemma_next_round_trip(evs: Seq<MidiTrackEvent>, rs: Option<u8>, carry: nat)
    requires
        evs.len() > 0,
        !(evs[0].event is SysExEvent),
        !is_end_of_track(evs[0].event),
        event_readable(evs[0].event),
        track_body(evs, rs, carry) is Some,
        status_ok(rs),
        track_reads_back(evs.drop_first(), event_bytes(carried(evs[0], carry), rs)->Some_0.1, 0),
    ensures
        track_reads_back(evs, rs, carry),
{
    reveal(track_reads_back);
    let e = carried(evs[0], carry);
    let b = event_bytes(e, rs)->Some_0.0;
    let nrs = event_bytes(e, rs)->Some_0.1;
    let body = track_body(evs, rs, carry)->Some_0;
    let tail = evs.drop_first();
    let rb = track_body(tail, nrs, 0)->Some_0;
    assert(body == b + rb);
    lemma_event_reads_back(e, rs, rb);
    lemma_track_ok_step(body, rs);
    let kl = lemma_reads_back_use(e, rs, rb, Event::SysExEvent);
    lemma_track_reads_back_use(tail, nrs, 0, Seq::empty());
    assert forall|es: Seq<MidiTrackEvent>| track_parses(body, rs, es) implies track_body(es, rs, 0)
        == track_body(evs, rs, carry) by {
        lemma_track_parses_step(body, rs, es);
        let kl2 = lemma_reads_back_use(e, rs, rb, es[0].event);
        lemma_track_reads_back_use(tail, nrs, 0, es.drop_first());
        assert(carried(es[0], 0) == es[0]);
        assert(es[0] == (MidiTrackEvent { delta_time: e.delta_time, event: es[0].event }));
    }
}

proof fn lemma_read_be32(n: u32)
    ensures
        read_be32(be32(n), 0) == n,
{
    let a = n / 0x100_0000;
    let b = (n / 0x1_0000) % 0x100;
    let c = (n / 0x100) % 0x100;
    let e = n % 0x100;
    vstd::arithmetic::div_mod::lemma_fundamental_div_mod(n as int, 0x100);
    vstd::arithmetic::div_mod::lemma_fundamental_div_mod((n / 0x100) as int, 0x100);
    vstd::arithmetic::div_mod::lemma_fundamental_div_mod((n / 0x1_0000) as int, 0x100);
    vstd::arithmetic::div_mod::lemma_div_denominator(n as int, 0x100, 0x100);
    vstd::arithmetic::div_mod::lemma_div_denominator(n as int, 0x1_0000, 0x100);
}

proof fn lemma_header_of_append(h: MidiHeader, rest: Seq<u8>)
    requires
        h.wf(),
        h.division.wf(),
    ensures
        header_of(header_bytes(h) + rest) == Some(h),
{
    let d = header_bytes(h) + rest;
    assert(d.subrange(0, 4) =~= crate::smf::header_chunk_type());
    assert(read_be32(d, 4) == 6);
    assert(read_be16(d, 8) == crate::smf::format_number(h.format));
    assert(read_be16(d, 10) == h.num_tracks);
    assert(read_be16(d, 12) == crate::smf::division_word(h.division));
}

pub open spec fn tracks_readable(ts: Seq<MidiTrack>) -> bool {
    forall|i: int| 0 <= i < ts.len() ==> all_readable(#[trigger] ts[i].0@)
}

/// The reader finds the chunk written for a track at `off`.
proof fn lemma_chunk_at(d: Seq<u8>, off: int, body: Seq<u8>, rest: Seq<u8>)
    requires
        0 <= off <= d.len(),
        4 <= body.len() <= u32::MAX,
        d.subrange(off, d.len() as int) == track_chunk_type() + be32(body.len() as u32) + body
            + rest,
    ensures
        track_chunk_len(d, off) == Some(body.len() as int),
        track_chunk_body(d, off) == body,
        d.subrange(off + 8 + body.len(), d.len() as int) == rest,
{
    let n = body.len() as int;
    let chunk = track_chunk_type() + be32(n as u32) + body;
    let tail = d.subrange(off, d.len() as int);
    assert(tail.len() == 8 + n + rest.len());
    assert(tail == chunk + rest);
    assert(tail[4] == chunk[4] && tail[5] == chunk[5] && tail[6] == chunk[6] && tail[7] == chunk[7]);
    assert(d.subrange(off, off + 4) =~= tail.subrange(0, 4));
    assert(tail.subrange(0, 4) =~= track_chunk_type());
    lemma_read_be32(n as u32);
    assert(read_be32(d, off + 4) == read_be32(be32(n as u32), 0)) by {
        assert(d[off + 4] == tail[4]);
        assert(d[off + 5] == tail[5]);
        assert(d[off + 6] == tail[6]);
        assert(d[off + 7] == tail[7]);
        assert(chunk.subrange(4, 8) =~= be32(n as u32));
    }
    assert(track_chunk_body(d, off) =~= tail.subrange(8, 8 + n));
    assert(tail.subrange(8, 8 + n) =~= body);
    assert(d.subrange(off + 8 + n, d.len() as int) =~= tail.subrange(8 + n, tail.len() as int));
    assert(tail.subrange(8 + n, tail.len() as int) =~= rest);
}

proof fn lemma_tracks_round_trip(d: Seq<u8>, off: int, ts: Seq<MidiTrack>)
    requires
        0 <= off <= d.len(),
        tracks_readable(ts),
        tracks_bytes(ts) is Some,
        d.subrange(off, d.len() as int) == tracks_bytes(ts)->Some_0,
    ensures
        tracks_ok(d, off, ts.len()),
        forall|gs: Seq<MidiTrack>|
            gs.len() == ts.len() && tracks_parse(d, off, gs) ==> tracks_bytes(gs) == tracks_bytes(
                ts,
            ),
    decreases ts.len(),
{
    if ts.len() > 0 {
        assert(all_readable(ts[0].0@));
        let body = track_body(ts[0].0@, None, 0)->Some_0;
        let n = body.len() as int;
        let rest = tracks_bytes(ts.drop_first())->Some_0;
        lemma_track_round_trip(ts[0].0@, None, 0);
        lemma_track_reads_back_use(ts[0].0@, None, 0, Seq::empty());
        assert(track_chunk(ts[0]) == Some(track_chunk_type() + be32(n as u32) + body));
        lemma_chunk_at(d, off, body, rest);
        let next = off + 8 + n;
        assert forall|i: int| 0 <= i < ts.drop_first().len() implies all_readable(
            #[trigger] ts.drop_first()[i].0@,
        ) by {
            assert(ts.drop_first()[i] == ts[i + 1]);
        }
        lemma_tracks_round_trip(d, next, ts.drop_first());
        assert forall|gs: Seq<MidiTrack>|
            gs.len() == ts.len() && tracks_parse(d, off, gs) implies tracks_bytes(gs)
            == tracks_bytes(ts) by {
            lemma_track_reads_back_use(ts[0].0@, None, 0, gs[0].0@);
            assert(track_chunk_body(d, off) == body);
            assert(track_body(gs[0].0@, None, 0) == Some(body));
            assert(track_chunk(gs[0]) == track_chunk(ts[0]));
            assert(tracks_parse(d, next, gs.drop_first()));
            assert(tracks_bytes(gs.drop_first()) == Some(rest));
        }
    }
}

/// Reading the bytes written for a file succeeds, and writing whatever is
/// read gives the same bytes again: the writer's form, running status
/// included, survives a round through the reader. Holds for files whose
/// division a header can carry and whose events the reader takes back.
pub proof fn lemma_file_round_trip(f: MidiFile)
    requires
        file_readable(f),
        file_bytes(f) is Some,
    ensures
        file_ok(file_bytes(f)->Some_0),
        forall|g: MidiFile|
            file_parses(file_bytes(f)->Some_0, g) ==> file_bytes(g) == file_bytes(f),
{
    let h = f.header;
    let tb = tracks_bytes(f.tracks@)->Some_0;
    let d = header_bytes(h) + tb;
    lemma_header_of_append(h, tb);
    assert(d.subrange(14, d.len() as int) =~= tb);
    assert forall|i: int| 0 <= i < f.tracks@.len() implies all_readable(#[trigger] f.tracks@[i].0@) by {
        assert forall|j: int| 0 <= j < f.tracks@[i].0@.len() implies event_readable(
            #[trigger] f.tracks@[i].0@[j].event,
        ) by {
        }
    }
    lemma_tracks_round_trip(d, 14, f.tracks@);
}

} // verus!
