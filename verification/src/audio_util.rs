//! What is decided while a stream is rendered into a file of a fixed length.

use vstd::prelude::*;
use crate::util::{samples, spec_samples, BITRATE};

verus! {

/// The number of seconds between two progress reports.
pub const REPORT_EVERY: u32 = 5;

/// What to do with the outcome of pulling sample `index`.
#[derive(Clone, Copy, Debug, PartialEq, Eq, Structural)]
pub enum RenderStep {
    /// Write the sample; after it, report `report` whole seconds where there
    /// is a number.
    Write { sample: i64, report: Option<u32> },
    /// The stream ended before its time: stop, and say at which sample.
    EndedEarly { at: u32 },
}

/// The number of samples in a file of `num_seconds` millionths of a second.
pub fn sample_count(num_seconds: i64) -> (count: u32)
    ensures
        count == spec_samples(num_seconds),
{
    samples(num_seconds)
}

/// The step for what was pulled as sample `index`: a sample is written, and
/// the seconds so far are reported at every `REPORT_EVERY`-th second; the end
/// of the stream stops the rendering at `index`.
pub open spec fn spec_render_step(index: u32, pulled: Option<i64>) -> RenderStep {
    match pulled {
        Some(sample) => RenderStep::Write {
            sample,
            report: if index % (BITRATE * REPORT_EVERY) as u32 == 0 {
                Some(index / BITRATE)
            } else {
                None
            },
        },
        None => RenderStep::EndedEarly { at: index },
    }
}

/// Decides the step for what was pulled as sample `index`.
pub fn render_step(index: u32, pulled: Option<i64>) -> (step: RenderStep)
    ensures
        step == spec_render_step(index, pulled),
{
    match pulled {
        Some(sample) => {
            let report = if index % (BITRATE * REPORT_EVERY) == 0 {
                Some(index / BITRATE)
            } else {
                None
            };
            RenderStep::Write { sample, report }
        },
        None => RenderStep::EndedEarly { at: index },
    }
}

} // verus!
