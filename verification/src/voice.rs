//! One sounding note.

use vstd::prelude::*;
use crate::adsr::{ADSRParams, Envelope};
use crate::oscillator::{Oscillator, StoreView};
use crate::synth_template::SynthTrait;
use crate::util::{PI, TAU, UNIT};

verus! {

/// The site of a voice's envelope in its store.
pub const ENVELOPE_SITE: u64 = 0;

/// The site of a voice's wave generator in its store.
pub const WAVE_SITE: u64 = 1;

/// A square wave at a frequency in hertz, shaped by an envelope.
#[derive(Clone, Copy, Debug, Default, PartialEq, Eq, Structural)]
pub struct Voice(pub i64);

impl Voice {
    /// The envelope of every voice: the default shape without its quiet end.
    pub open spec fn spec_params() -> ADSRParams {
        ADSRParams { quiet_length: 0, ..ADSRParams::spec_default() }
    }

    /// The envelope of the voice whose state is in `store`.
    pub open spec fn envelope(store: StoreView) -> Envelope {
        store.envelope_at(ENVELOPE_SITE, Self::spec_params())
    }

    /// The square wave at an angle: up through the first half turn, down
    /// through the second.
    pub open spec fn square(angle: int, volume: i64) -> int {
        if angle <= PI {
            volume as int
        } else {
            -volume
        }
    }

    /// The sample that the voice produces next from `store`: the envelope's
    /// level on the square wave, or `None` once the envelope has ended.
    pub open spec fn sample(self, store: StoreView) -> Option<i64> {
        match Self::envelope(store).level() {
            Some(volume) => Some(
                Self::square(
                    store.with_envelope(ENVELOPE_SITE, Self::envelope(store).step()).phase_after(
                        WAVE_SITE,
                        self.0,
                        0,
                        0,
                        TAU,
                    ),
                    volume,
                ) as i64,
            ),
            None => None,
        }
    }

    /// The store after the voice has produced its next sample: the envelope
    /// has moved on, and so has the wave unless the envelope had ended.
    pub open spec fn after(self, store: StoreView) -> StoreView {
        let stepped = store.with_envelope(ENVELOPE_SITE, Self::envelope(store).step());
        if Self::envelope(store).level() is Some {
            stepped.get(WAVE_SITE, self.0, 0, 0, TAU)
        } else {
            stepped
        }
    }

    /// The store of a voice that has been started and has given no sample
    /// yet: nothing but its envelope, at the start of the attack.
    pub open spec fn started() -> StoreView {
        StoreView::empty().with_envelope(ENVELOPE_SITE, Envelope::fresh(Self::spec_params()))
    }

    /// Makes `osc` the store of a voice that starts: whatever it held is
    /// forgotten, and the envelope is there to be released.
    pub fn start(osc: &mut Oscillator)
        ensures
            final(osc)@ == Self::started(),
    {
        osc.reset();
        let _ = osc.adsr(ENVELOPE_SITE, Self::params());
    }

    /// The envelope of every voice.
    pub fn params() -> (params: ADSRParams)
        ensures
            params == Self::spec_params(),
            params.valid(),
    {
        ADSRParams { quiet_length: 0, ..Default::default() }
    }
}

impl SynthTrait for Voice {
    open spec fn wf(&self) -> bool {
        true
    }

    open spec fn steps(&self, store: StoreView, sample: Option<i64>, after: &Self, store_after: StoreView) -> bool {
        &&& sample == self.sample(store)
        &&& *after == *self
        &&& store_after == self.after(store)
    }

    /// Produces the voice's next sample, between `-UNIT` and `UNIT`.
    fn next(&mut self, osc: &mut Oscillator) -> (sample: Option<i64>)
        ensures
            sample matches Some(x) ==> -UNIT <= x <= UNIT,
            sample is None <==> Self::envelope(old(osc)@).state == crate::adsr::State::End,
    {
        let vol = match osc.adsr(ENVELOPE_SITE, Self::params()).next() {
            Some(vol) => vol,
            None => {
                return None;
            },
        };
        let angle = osc.get_sin(WAVE_SITE, self.0);
        let out = if angle <= PI {
            vol
        } else {
            -vol
        };
        Some(out)
    }
}

/// A voice that has been started sounds as one that finds an empty store:
/// nothing of what the store held before is heard.
pub proof fn lemma_started_is_fresh(voice: Voice)
    ensures
        voice.sample(Voice::started()) == voice.sample(StoreView::empty()),
        voice.after(Voice::started()) == voice.after(StoreView::empty()),
        Voice::envelope(Voice::started()) == Envelope::fresh(Voice::spec_params()),
        !Voice::started().phases.contains_key(WAVE_SITE),
{
    let stepped = Envelope::fresh(Voice::spec_params()).step();
    assert(Voice::started().with_envelope(ENVELOPE_SITE, stepped).envelopes =~= StoreView::empty().with_envelope(
        ENVELOPE_SITE,
        stepped,
    ).envelopes);
}

} // verus!
