//! Core logic of a voice-recording and live-transcription engine.
//!
//! The crate holds the verified parts of the pipeline: sample conversion to
//! the 16 kHz mono wire format, level metering, voice-activity detection with
//! calibration and hysteresis, the recording state machine, codec frame
//! chunking, diarized transcript rendering, and the decision logic of the
//! streaming session.  Device capture, file output, encoding and network
//! transport are left to a thin unverified shell that calls into this crate
//! with plain values.

pub mod analysis;
pub mod assistants;
pub mod config;
pub mod gate;
pub mod levels;
pub mod pcm;
pub mod vad;
pub mod recorder;
pub mod session;
pub mod text;
pub mod transcript;
pub mod writer;

use vstd::prelude::*;

verus! {

/// Remaps an unsigned 16-bit capture sample to the signed range, as the
/// capture path does for devices that deliver unsigned samples.
pub fn remap_u16_sample(x: u16) -> (r: i16)
    ensures
        r as int == x as int - 32768,
{
    (x as i32 - 32768) as i16
}

} // verus!
