//! Several one-channel synthesizers interleaved into one stream.

use vstd::prelude::*;
use crate::synth_template::{SynthRoot, SynthTrait};
use crate::util::BITRATE;

verus! {

/// A stream of as many channels as it has synthesizers: each sample comes
/// from the next synthesizer in turn.
pub struct ManyChannel<T> {
    synths: Vec<SynthRoot<T>>,
    current_channel: usize,
}

impl<T> ManyChannel<T> {
    /// The synthesizers, one for each channel.
    pub closed spec fn synths(&self) -> Seq<SynthRoot<T>> {
        self.synths@
    }

    /// The channel that gives the next sample.
    pub closed spec fn current(&self) -> int {
        self.current_channel as int
    }

    /// A stream over `synths` that starts at the first channel.
    pub fn new(synths: Vec<SynthRoot<T>>) -> (stream: Self)
        ensures
            stream.synths() == synths@,
            stream.current() == 0,
    {
        Self { synths, current_channel: 0 }
    }

    /// The number of channels, as far as sixteen bits hold it.
    pub fn channels(&self) -> (count: u16)
        ensures
            count == self.synths().len() % 0x1_0000,
    {
        (self.synths.len() % 0x1_0000) as u16
    }

    /// A stream runs at the clock's rate.
    pub fn sample_rate(&self) -> (rate: u32)
        ensures
            rate == BITRATE,
    {
        BITRATE
    }

    /// A stream never says how long its frame is.
    pub fn current_frame_len(&self) -> (len: Option<usize>)
        ensures
            len is None,
    {
        None
    }
}

impl<T: SynthTrait> ManyChannel<T> {
    /// There is a channel, the current one is among them, and every
    /// synthesizer is well formed.
    pub open spec fn wf(&self) -> bool {
        &&& 0 <= self.current() < self.synths().len()
        &&& forall|channel: int| 0 <= channel < self.synths().len() ==> (#[trigger] self.synths()[channel]).wf()
    }

    /// The next sample of the current channel; the channel after it is next.
    /// The other channels are left as they are.
    pub fn next(&mut self) -> (sample: Option<i64>)
        requires
            old(self).wf(),
        ensures
            final(self).wf(),
            final(self).synths().len() == old(self).synths().len(),
            final(self).current() == (old(self).current() + 1) % (old(self).synths().len() as int),
            forall|channel: int|
                0 <= channel < old(self).synths().len() && channel != old(self).current()
                    ==> final(self).synths()[channel] == old(self).synths()[channel],
            old(self).synths()[old(self).current()].synth().steps(
                old(self).synths()[old(self).current()].store(),
                sample,
                &final(self).synths()[old(self).current()].synth(),
                final(self).synths()[old(self).current()].store(),
            ),
    {
        let count = self.synths.len();
        let result = self.synths[self.current_channel].next();
        self.current_channel = (self.current_channel + 1) % count;
        result
    }
}

} // verus!
