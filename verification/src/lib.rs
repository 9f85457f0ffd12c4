//! A polyphonic synthesizer core in fixed-point arithmetic.
//!
//! Every scalar (an amplitude, a frequency in hertz, a duration in seconds, a
//! phase) is an `i64` counted in millionths: [`util::UNIT`] stands for `1.0`.
//! Divisions round towards negative infinity. The core produces one sample
//! per call and never allocates on that path beyond the first use of a call
//! site.
//!
//! The parts, from the leaves up: the clock and the scalar helpers
//! ([`util`]); the envelope ([`adsr`]); the tables ([`table`]) and the store
//! of generator state built on them ([`oscillator`]); what a synthesizer is
//! ([`synth_template`]); one note ([`voice`]) and the pool of notes
//! ([`pool`]); the synthesizers ([`synth`]), fed with note events
//! ([`midi_io`]); and what goes with their output ([`manychannel`],
//! [`audio_util`]).

pub mod adsr;
pub mod audio_util;
pub mod manychannel;
pub mod midi_io;
pub mod oscillator;
pub mod pool;
pub mod synth;
pub mod synth_template;
pub mod table;
pub mod util;
pub mod voice;
