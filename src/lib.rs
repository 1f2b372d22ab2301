//! A MIDI recorder and player: the MIDI 1.0 message codec, Standard MIDI
//! Files, takes of time-stamped messages, the playback scheduler and the
//! bookkeeping of device connections, each function with its contract.

pub mod message;
pub mod vlq;
pub mod timeline;
pub mod smf;
pub mod smf_parse;
pub mod smf_laws;
pub mod recorder;
pub mod playback;
pub mod device;
pub mod frontend;
