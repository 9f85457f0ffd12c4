//! What a synthesizer is, and the root that drives one.

use vstd::prelude::*;
use crate::oscillator::{Oscillator, StoreView};
use crate::util::BITRATE;

verus! {

/// A sample generator that keeps its generators' state in a store handed to
/// it at every sample.
pub trait SynthTrait: Sized {
    /// What holds of the synthesizer between samples.
    spec fn wf(&self) -> bool;

    /// Tells whether producing `sample` from `store`, and leaving the
    /// synthesizer as `after` and the store as `store_after`, is one step of
    /// this synthesizer.
    spec fn steps(&self, store: StoreView, sample: Option<i64>, after: &Self, store_after: StoreView) -> bool;

    /// The next sample, or `None` once the synthesizer has ended.
    fn next(&mut self, osc: &mut Oscillator) -> (sample: Option<i64>)
        requires
            old(self).wf(),
        ensures
            final(self).wf(),
            old(self).steps(old(osc)@, sample, final(self), final(osc)@),
    ;

    /// Gives the synthesizer a store of its own.
    fn convert(self) -> (root: SynthRoot<Self>)
        ensures
            root.synth() == self,
            root.store() == StoreView::empty(),
    {
        SynthRoot::new(self)
    }
}

/// A synthesizer that has a default, and so a default root.
pub trait SynthTraitDefault: SynthTrait + Default {
    /// The root of the default synthesizer.
    fn create() -> (root: SynthRoot<Self>)
        ensures
            call_ensures(Self::default, (), root.synth()),
            root.store() == StoreView::empty(),
    {
        SynthRoot::default()
    }
}

impl<T: SynthTrait + Default> SynthTraitDefault for T {
}

/// A synthesizer together with its store: a sequence of samples on one
/// channel.
pub struct SynthRoot<T> {
    osc: Oscillator,
    synth: T,
}

impl<T> SynthRoot<T> {
    /// The synthesizer inside.
    pub closed spec fn synth(&self) -> T {
        self.synth
    }

    /// What the store holds.
    pub closed spec fn store(&self) -> StoreView {
        self.osc@
    }

    /// A root with an empty store.
    pub fn new(synth: T) -> (root: Self)
        ensures
            root.synth() == synth,
            root.store() == StoreView::empty(),
    {
        Self { synth, osc: Default::default() }
    }

    /// The synthesizer inside, to be changed between samples. The store is
    /// out of reach.
    pub fn synth_mut(&mut self) -> (synth: &mut T)
        ensures
            *synth == old(self).synth(),
            final(self).synth() == *final(synth),
            final(self).store() == old(self).store(),
    {
        &mut self.synth
    }
}

impl<T: Clone> Clone for SynthRoot<T> {
    /// A root with a clone of the synthesizer and a store that holds what
    /// this one's holds.
    fn clone(&self) -> (root: Self)
        ensures
            call_ensures(T::clone, (&self.synth(),), root.synth()),
            root.store() == self.store(),
    {
        Self { osc: self.osc.clone(), synth: self.synth.clone() }
    }
}

impl<T: Default> Default for SynthRoot<T> {
    /// The root of the default synthesizer of its kind.
    fn default() -> (root: Self)
        ensures
            call_ensures(T::default, (), root.synth()),
            root.store() == StoreView::empty(),
    {
        Self::new(T::default())
    }
}

impl<T: SynthTrait> SynthRoot<T> {
    /// The synthesizer inside is well formed.
    pub open spec fn wf(&self) -> bool {
        self.synth().wf()
    }

    /// Pulls the next sample out of the synthesizer.
    pub fn next(&mut self) -> (sample: Option<i64>)
        requires
            old(self).wf(),
        ensures
            final(self).wf(),
            old(self).synth().steps(old(self).store(), sample, &final(self).synth(), final(self).store()),
    {
        self.synth.next(&mut self.osc)
    }

    /// A root never says how long its frame is.
    pub fn current_frame_len(&self) -> (len: Option<usize>)
        ensures
            len is None,
    {
        None
    }

    /// A root has one channel.
    pub fn channels(&self) -> (count: u16)
        ensures
            count == 1,
    {
        1
    }

    /// A root runs at the clock's rate.
    pub fn sample_rate(&self) -> (rate: u32)
        ensures
            rate == BITRATE,
    {
        BITRATE
    }
}

} // verus!
