//! The phase-state store: generators whose state lives under the call site
//! that uses them.
//!
//! A call site is a `u64` that the caller picks once for each place where it
//! uses a generator. Two uses with one site share state; two sites never do.

use vstd::prelude::*;
use vstd::set_lib::lemma_len_subset;
use rustc_hash::FxHashMap;
use crate::adsr::{ADSRParams, Envelope, State, ADSR};
use crate::table::{fx_get, fx_get_mut, fx_insert, fx_keys, AnyHashMap};
use crate::util::{div_floor, mod_floor, BITRATE, TAU, UNIT};

verus! {

/// How far a phase over a range of `len` moves in one sample at `rate` hertz.
pub open spec fn phase_step(rate: i64, len: int) -> int {
    (rate * len) / (BITRATE as int * UNIT as int)
}

/// A stored phase one sample later: moved on, and wrapped into `0..len`.
pub open spec fn advanced(stored: int, rate: i64, len: int) -> int {
    (stored + phase_step(rate, len)) % len
}

/// The triangle that a ramp over `-UNIT..3 * UNIT` folds into.
pub open spec fn folded(x: int) -> int {
    if x > UNIT {
        2 * UNIT - x
    } else {
        x
    }
}

/// What a store holds.
pub struct StoreView {
    /// For each site of a phase generator, its phase above the low end of its
    /// range.
    pub phases: Map<u64, int>,
    /// For each site of an edge detector, whether the last value was negative.
    pub edges: Map<u64, bool>,
    /// For each site of a counter, the last count.
    pub counters: Map<u64, u32>,
    /// For each site of an envelope, that envelope.
    pub envelopes: Map<u64, Envelope>,
    /// The nested stores, by index.
    pub scopes: Map<u64, StoreView>,
}

impl StoreView {
    /// The store that holds nothing.
    pub open spec fn empty() -> StoreView {
        StoreView {
            phases: Map::empty(),
            edges: Map::empty(),
            counters: Map::empty(),
            envelopes: Map::empty(),
            scopes: Map::empty(),
        }
    }

    /// The phase that `get` finds at `site`: the one stored there, or the
    /// start above the low end where the site is new.
    pub open spec fn phase_before(self, site: u64, start: i64, low: i64) -> int {
        if self.phases.contains_key(site) {
            self.phases[site]
        } else {
            start - low
        }
    }

    /// The phase stored at `site` once `get` has been called there: the one
    /// it found, moved on by a sample and wrapped.
    pub open spec fn phase_after(self, site: u64, rate: i64, start: i64, low: i64, high: i64) -> int {
        advanced(self.phase_before(site, start, low), rate, high - low)
    }

    /// The store after `get` at `site`.
    pub open spec fn get(self, site: u64, rate: i64, start: i64, low: i64, high: i64) -> StoreView {
        StoreView { phases: self.phases.insert(site, self.phase_after(site, rate, start, low, high)), ..self }
    }

    /// What the edge detector at `site` reports for `val`.
    pub open spec fn edge_at(self, site: u64, val: i64) -> bool {
        self.edges.contains_key(site) && self.edges[site] && val >= 0
    }

    /// The store after the edge detector at `site` has seen `val`.
    pub open spec fn rising_edge(self, site: u64, val: i64) -> StoreView {
        StoreView { edges: self.edges.insert(site, val < 0), ..self }
    }

    /// The count that the counter at `site` gives next.
    pub open spec fn count_at(self, site: u64) -> u32 {
        if self.counters.contains_key(site) {
            if self.counters[site] == u32::MAX {
                0
            } else {
                (self.counters[site] + 1) as u32
            }
        } else {
            0
        }
    }

    /// The store after the counter at `site` has counted.
    pub open spec fn incrementing(self, site: u64) -> StoreView {
        StoreView { counters: self.counters.insert(site, self.count_at(site)), ..self }
    }

    /// The envelope at `site`, or a fresh one of shape `params` where there is
    /// none yet.
    pub open spec fn envelope_at(self, site: u64, params: ADSRParams) -> Envelope {
        if self.envelopes.contains_key(site) {
            self.envelopes[site]
        } else {
            Envelope::fresh(params)
        }
    }

    /// The store with `envelope` at `site`.
    pub open spec fn with_envelope(self, site: u64, envelope: Envelope) -> StoreView {
        StoreView { envelopes: self.envelopes.insert(site, envelope), ..self }
    }

    /// The store with every envelope released.
    pub open spec fn release(self) -> StoreView {
        StoreView { envelopes: self.envelopes.map_values(|e: Envelope| e.released()), ..self }
    }

    /// The nested store at `index`, empty where none has been used yet.
    pub open spec fn scope(self, index: u64) -> StoreView {
        if self.scopes.contains_key(index) {
            self.scopes[index]
        } else {
            StoreView::empty()
        }
    }

    /// The store after the nested stores at the indices in `hit` have had
    /// their envelopes released.
    pub open spec fn release_scopes(self, hit: Set<u64>) -> StoreView {
        StoreView {
            scopes: Map::new(
                |index: u64| self.scopes.contains_key(index) || hit.contains(index),
                |index: u64|
                    if hit.contains(index) {
                        self.scope(index).release()
                    } else {
                        self.scopes[index]
                    },
            ),
            ..self
        }
    }

    /// The store with `scope` nested at `index`.
    pub open spec fn with_scope(self, index: u64, scope: StoreView) -> StoreView {
        StoreView { scopes: self.scopes.insert(index, scope), ..self }
    }
}

/// A phase above the low end of its range.
#[derive(Clone, Copy)]
struct Phase {
    offset: i128,
}

impl Phase {
    #[verifier::type_invariant]
    spec fn in_reach(self) -> bool {
        -0x1_0000_0000_0000_0000 < self.offset < 0x1_0000_0000_0000_0000
    }
}

/// A phase-state store.
pub struct Oscillator {
    phases: AnyHashMap<Phase>,
    edges: AnyHashMap<bool>,
    counters: AnyHashMap<u32>,
    envelopes: AnyHashMap<ADSR>,
    scopes: FxHashMap<u64, Oscillator>,
}

impl View for Oscillator {
    type V = StoreView;

    closed spec fn view(&self) -> StoreView
        decreases self,
    {
        StoreView {
            phases: Map::new(|site: u64| self.phases@.contains_key(site), |site: u64| self.phases@[site].offset as int),
            edges: self.edges@,
            counters: self.counters@,
            envelopes: Map::new(|site: u64| self.envelopes@.contains_key(site), |site: u64| self.envelopes@[site]@),
            scopes: Map::new(
                |index: u64| self.scopes@.contains_key(index),
                |index: u64|
                    if self.scopes@.dom().finite() && self.scopes@.contains_key(index) {
                        self.scopes@[index]@
                    } else {
                        StoreView::empty()
                    },
            ),
        }
    }
}

impl Clone for Oscillator {
    /// A store that holds what this one holds, nested stores and all.
    fn clone(&self) -> (store: Self)
        ensures
            store@ == self@,
        decreases self,
    {
        let keys = fx_keys(&self.scopes);
        proof {
            assert(self.scopes@.dom() =~= keys@.to_set());
        }
        let mut scopes: FxHashMap<u64, Oscillator> = FxHashMap::default();
        let mut i: usize = 0;
        while i < keys.len()
            invariant
                i <= keys@.len(),
                self.scopes@.dom().finite(),
                scopes@.dom().finite(),
                forall|key: u64| keys@.contains(key) <==> self.scopes@.contains_key(key),
                forall|key: u64|
                    scopes@.contains_key(key) <==> exists|j: int| 0 <= j < i && #[trigger] keys@[j] == key,
                forall|key: u64| scopes@.contains_key(key) ==> (#[trigger] scopes@[key])@ == self.scopes@[key]@,
            decreases keys@.len() - i,
        {
            let key = keys[i];
            assert(keys@.contains(key));
            match fx_get(&self.scopes, key) {
                Some(child) => {
                    let copy = child.clone();
                    let _ = fx_insert(&mut scopes, key, copy);
                },
                None => {},
            }
            i += 1;
        }
        let store = Oscillator {
            phases: self.phases.clone(),
            edges: self.edges.clone(),
            counters: self.counters.clone(),
            envelopes: self.envelopes.clone(),
            scopes,
        };
        proof {
            assert forall|key: u64| self.scopes@.contains_key(key) implies store.scopes@.contains_key(key) by {
                assert(keys@.contains(key));
                let j = choose|j: int| 0 <= j < keys@.len() && keys@[j] == key;
                assert(keys@[j] == key);
            }
            assert(store@.scopes =~= self@.scopes);
            assert(store@.phases =~= self@.phases);
            assert(store@.envelopes =~= self@.envelopes);
        }
        store
    }
}

impl Default for Oscillator {
    /// The store that holds nothing.
    fn default() -> (store: Self)
        ensures
            store@ == StoreView::empty(),
    {
        let store = Oscillator {
            phases: AnyHashMap::default(),
            edges: AnyHashMap::default(),
            counters: AnyHashMap::default(),
            envelopes: AnyHashMap::default(),
            scopes: FxHashMap::default(),
        };
        assert(store@.phases =~= Map::empty());
        assert(store@.envelopes =~= Map::empty());
        assert(store@.scopes =~= Map::empty());
        store
    }
}

impl Oscillator {
    /// A phase generator over `low..high`. The first call at `site` starts
    /// from `start`; every call moves the phase on by one sample at `freq`
    /// hertz, wraps it into the range and gives it.
    pub fn get(&mut self, site: u64, freq: i64, start: i64, low: i64, high: i64) -> (value: i64)
        requires
            low < high,
        ensures
            final(self)@ == old(self)@.get(site, freq, start, low, high),
            value == old(self)@.phase_after(site, freq, start, low, high) + low,
            low <= value < high,
    {
        let len: i128 = high as i128 - low as i128;
        let stored: i128 = match self.phases.get(site) {
            Some(phase) => {
                proof {
                    use_type_invariant(phase);
                }
                phase.offset
            },
            None => start as i128 - low as i128,
        };
        assert(-0x8000_0000_0000_0000_0000_0000_0000_0000 < freq * len
            < 0x8000_0000_0000_0000_0000_0000_0000_0000) by (nonlinear_arith)
            requires
                -0x8000_0000_0000_0000 <= freq < 0x8000_0000_0000_0000,
                0 < len < 0x1_0000_0000_0000_0000,
        ;
        let step: i128 = div_floor(freq as i128 * len, BITRATE as i128 * UNIT as i128);
        assert(-0x1000_0000_0000_0000_0000_0000_0000_0000 < step < 0x1000_0000_0000_0000_0000_0000_0000_0000)
            by (nonlinear_arith)
            requires
                step == (freq * len) / (BITRATE as int * UNIT as int),
                -0x8000_0000_0000_0000_0000_0000_0000_0000 < freq * len
                    < 0x8000_0000_0000_0000_0000_0000_0000_0000,
                BITRATE as int * UNIT as int == 44_100_000_000,
        ;
        let wrapped: i128 = mod_floor(stored + step, len);
        self.phases.insert(site, Phase { offset: wrapped });
        assert(self@.phases =~= old(self)@.get(site, freq, start, low, high).phases);
        assert(self@.envelopes =~= old(self)@.envelopes);
        assert(self@.scopes =~= old(self)@.scopes);
        (wrapped + low as i128) as i64
    }

    /// The angle of a sine generator, in `0..TAU`: what `get` gives over a
    /// full turn from zero. The caller takes the sine.
    pub fn get_sin(&mut self, site: u64, freq: i64) -> (angle: i64)
        ensures
            final(self)@ == old(self)@.get(site, freq, 0, 0, TAU),
            angle == old(self)@.phase_after(site, freq, 0, 0, TAU),
            0 <= angle < TAU,
    {
        self.get(site, freq, 0, 0, TAU)
    }

    /// A triangle wave between `-UNIT` and `UNIT`.
    pub fn get_tri(&mut self, site: u64, freq: i64) -> (value: i64)
        ensures
            final(self)@ == old(self)@.get(site, freq, 0, (-UNIT) as i64, (3 * UNIT) as i64),
            value == folded(old(self)@.phase_after(site, freq, 0, (-UNIT) as i64, (3 * UNIT) as i64) - UNIT),
            -UNIT <= value <= UNIT,
    {
        let x = self.get(site, freq, 0, -UNIT, 3 * UNIT);
        if x > UNIT {
            2 * UNIT - x
        } else {
            x
        }
    }

    /// A sawtooth wave over `-UNIT..UNIT`.
    pub fn get_saw(&mut self, site: u64, freq: i64) -> (value: i64)
        ensures
            final(self)@ == old(self)@.get(site, freq, 0, (-UNIT) as i64, UNIT),
            value == old(self)@.phase_after(site, freq, 0, (-UNIT) as i64, UNIT) - UNIT,
            -UNIT <= value < UNIT,
    {
        self.get(site, freq, 0, -UNIT, UNIT)
    }

    /// Tells whether `val` has come up from below zero since the last call at
    /// `site`: whether the value of that call was negative and this one is
    /// not. The first call there reports no edge.
    pub fn rising_edge(&mut self, site: u64, val: i64) -> (edge: bool)
        ensures
            final(self)@ == old(self)@.rising_edge(site, val),
            edge == old(self)@.edge_at(site, val),
    {
        let edge = match self.edges.get_mut(site) {
            Some(negative) => {
                let last = *negative;
                *negative = val < 0;
                last && val >= 0
            },
            None => {
                self.edges.insert(site, val < 0);
                false
            },
        };
        assert(self@.edges =~= old(self)@.rising_edge(site, val).edges);
        edge
    }

    /// Counts the calls at `site` from zero, wrapping at the top of `u32`.
    pub fn incrementing(&mut self, site: u64) -> (count: u32)
        ensures
            final(self)@ == old(self)@.incrementing(site),
            count == old(self)@.count_at(site),
    {
        let count = match self.counters.get_mut(site) {
            Some(counter) => {
                *counter = counter.wrapping_add(1);
                *counter
            },
            None => {
                self.counters.insert(site, 0);
                0
            },
        };
        assert(self@.counters =~= old(self)@.incrementing(site).counters);
        count
    }

    /// The envelope at `site`, built from `adsr_params` on the first call
    /// there; on later calls the shape is not looked at. What is done to the
    /// envelope through the imposter is done to it in the store.
    pub fn adsr(&mut self, site: u64, adsr_params: ADSRParams) -> (envelope: ADSRImposter<'_>)
        requires
            !old(self)@.envelopes.contains_key(site) ==> adsr_params.valid(),
        ensures
            envelope.0@ == old(self)@.envelope_at(site, adsr_params),
            final(self)@ == old(self)@.with_envelope(site, final(envelope.0)@),
    {
        if self.envelopes.get(site).is_none() {
            self.envelopes.insert(site, adsr_params.build());
        }
        assert forall|after: Oscillator, envelope: ADSR|
            after.phases == self.phases && after.edges == self.edges && after.counters == self.counters
                && after.scopes == self.scopes && after.envelopes@ == self.envelopes@.insert(site, envelope)
            implies #[trigger] after@ == old(self)@.with_envelope(site, #[trigger] envelope@) by {
            assert(after@.envelopes =~= old(self)@.with_envelope(site, envelope@).envelopes);
            assert(after@.phases =~= old(self)@.phases);
            assert(after@.scopes =~= old(self)@.scopes);
        }
        ADSRImposter(self.envelopes.get_mut(site).unwrap())
    }

    /// Forces every envelope of this store into its release.
    pub fn release(&mut self)
        ensures
            final(self)@ == old(self)@.release(),
    {
        let sites = self.envelopes.sites();
        let mut i: usize = 0;
        while i < sites.len()
            invariant
                i <= sites.len(),
                sites@.no_duplicates(),
                forall|site: u64| sites@.contains(site) <==> old(self).envelopes@.contains_key(site),
                self.phases == old(self).phases,
                self.edges == old(self).edges,
                self.counters == old(self).counters,
                self.scopes == old(self).scopes,
                self.envelopes@.dom() == old(self).envelopes@.dom(),
                forall|j: int| 0 <= j < i ==> (#[trigger] self.envelopes@[sites@[j]])@ == old(self).envelopes@[sites@[j]]@.released(),
                forall|j: int| i <= j < sites.len() ==> (#[trigger] self.envelopes@[sites@[j]]) == old(self).envelopes@[sites@[j]],
            decreases sites.len() - i,
        {
            let site = sites[i];
            assert(sites@.contains(site));
            match self.envelopes.get_mut(site) {
                Some(envelope) => {
                    envelope.release();
                },
                None => {},
            }
            assert(self.envelopes@.dom() =~= old(self).envelopes@.dom());
            i += 1;
        }
        assert forall|site: u64| old(self).envelopes@.contains_key(site) implies (#[trigger] self.envelopes@[site])@
            == old(self).envelopes@[site]@.released() by {
            assert(sites@.contains(site));
            let j = choose|j: int| 0 <= j < sites@.len() && sites@[j] == site;
            assert(self.envelopes@[sites@[j]]@ == old(self).envelopes@[sites@[j]]@.released());
        }
        assert(self@.envelopes =~= old(self)@.release().envelopes);
        assert(self@.phases =~= old(self)@.phases);
        assert(self@.scopes =~= old(self)@.scopes);
    }

    /// Forgets everything: every generator starts over at its next use.
    pub fn reset(&mut self)
        ensures
            final(self)@ == StoreView::empty(),
    {
        self.phases.clear();
        self.edges.clear();
        self.counters.clear();
        self.envelopes.clear();
        self.scopes.clear();
        assert(self@.phases =~= Map::empty());
        assert(self@.envelopes =~= Map::empty());
        assert(self@.scopes =~= Map::empty());
    }

    /// The store nested at `index`, apart from this one and from every other
    /// index.
    pub fn sub_scope(&mut self, index: usize) -> (scope: &mut Oscillator)
        ensures
            scope@ == old(self)@.scope(index as u64),
            final(self)@ == old(self)@.with_scope(index as u64, final(scope)@),
    {
        let key = index as u64;
        if fx_get(&self.scopes, key).is_none() {
            let _ = fx_insert(&mut self.scopes, key, Oscillator::default());
        } else {
            Self::touch(&mut self.scopes, key);
        }
        assert(old(self).scopes@.dom().finite()) by {
            assert(old(self).scopes@.dom().subset_of(self.scopes@.dom()));
            lemma_len_subset(old(self).scopes@.dom(), self.scopes@.dom());
        }
        assert(self@.scopes =~= old(self)@.scopes.insert(key, old(self)@.scope(key)));
        assert(self@.phases =~= old(self)@.phases);
        assert(self@.envelopes =~= old(self)@.envelopes);
        assert forall|after: Oscillator, child: Oscillator|
            after.phases == self.phases && after.edges == self.edges && after.counters == self.counters
                && after.envelopes == self.envelopes && after.scopes@ == self.scopes@.insert(key, child)
            implies #[trigger] after@ == old(self)@.with_scope(key, #[trigger] child@) by {
            assert(after.scopes@.dom() =~= self.scopes@.dom().insert(key));
            assert(after@.scopes =~= old(self)@.with_scope(key, child@).scopes);
            assert(after@.phases =~= old(self)@.phases);
            assert(after@.envelopes =~= old(self)@.envelopes);
        }
        fx_get_mut(&mut self.scopes, key).unwrap()
    }

    /// Looks `key` up and changes nothing.
    fn touch(scopes: &mut FxHashMap<u64, Oscillator>, key: u64)
        requires
            old(scopes)@.contains_key(key),
        ensures
            final(scopes)@ == old(scopes)@,
            final(scopes)@.dom().finite(),
    {
        let _ = fx_get_mut(scopes, key);
        assert(scopes@ =~= old(scopes)@);
    }
}

/// Two sites never share a phase. Calling `get` at one site leaves what is
/// stored at any other as it was, so what the other gives next is the same
/// whether or not the first was called, and the order of two calls at two
/// sites does not matter to the store.
pub proof fn lemma_sites_are_apart(
    store: StoreView,
    a: u64,
    rate_a: i64,
    start_a: i64,
    low_a: i64,
    high_a: i64,
    b: u64,
    rate_b: i64,
    start_b: i64,
    low_b: i64,
    high_b: i64,
)
    requires
        a != b,
    ensures
        store.get(a, rate_a, start_a, low_a, high_a).phases.contains_key(b) == store.phases.contains_key(b),
        store.phases.contains_key(b) ==> store.get(a, rate_a, start_a, low_a, high_a).phases[b]
            == store.phases[b],
        store.get(a, rate_a, start_a, low_a, high_a).phase_after(b, rate_b, start_b, low_b, high_b)
            == store.phase_after(b, rate_b, start_b, low_b, high_b),
        store.get(a, rate_a, start_a, low_a, high_a).get(b, rate_b, start_b, low_b, high_b) == store.get(
            b,
            rate_b,
            start_b,
            low_b,
            high_b,
        ).get(a, rate_a, start_a, low_a, high_a),
{
    let ab = store.get(a, rate_a, start_a, low_a, high_a).get(b, rate_b, start_b, low_b, high_b);
    let ba = store.get(b, rate_b, start_b, low_b, high_b).get(a, rate_a, start_a, low_a, high_a);
    assert(ab.phases =~= ba.phases);
}

/// A nested store is apart from the store around it and from every other
/// index: what is done in one leaves the others as they were.
pub proof fn lemma_scopes_are_apart(store: StoreView, i: u64, j: u64, scope: StoreView)
    requires
        i != j,
    ensures
        store.with_scope(i, scope).scope(j) == store.scope(j),
        store.with_scope(i, scope).scope(i) == scope,
        store.with_scope(i, scope).phases == store.phases,
        store.with_scope(i, scope).edges == store.edges,
        store.with_scope(i, scope).counters == store.counters,
        store.with_scope(i, scope).envelopes == store.envelopes,
{
}

/// Releasing the nested stores of a set of indices one index at a time comes
/// to releasing them all.
pub proof fn lemma_release_scopes_step(store: StoreView, done: Set<u64>, index: u64)
    requires
        !done.contains(index),
    ensures
        store.release_scopes(done).with_scope(index, store.release_scopes(done).scope(index).release())
            == store.release_scopes(done.insert(index)),
        store.release_scopes(Set::empty()) == store,
{
    let so_far = store.release_scopes(done);
    assert(so_far.scope(index) == store.scope(index));
    assert(so_far.with_scope(index, so_far.scope(index).release()).scopes =~= store.release_scopes(
        done.insert(index),
    ).scopes);
    assert(store.release_scopes(Set::empty()).scopes =~= store.scopes);
}

/// An envelope of a store, held while it is used: what is done to the
/// imposter is done to the envelope.
pub struct ADSRImposter<'a>(pub &'a mut ADSR);

impl<'a> ADSRImposter<'a> {
    /// Starts the envelope over.
    pub fn reset(&mut self)
        ensures
            final(self).0@ == Envelope::fresh(old(self).0@.params),
            *final(final(self).0) == *final(old(self).0),
    {
        self.0.reset()
    }

    /// The envelope has produced its last sample.
    pub fn is_end(&self) -> (ended: bool)
        ensures
            ended == (old(self.0)@.state == State::End),
    {
        self.0.is_end()
    }

    /// The rest of the envelope may be cut short.
    pub fn is_done(&self) -> (done: bool)
        ensures
            done == old(self.0)@.is_done(),
    {
        self.0.is_done()
    }

    /// Moves the envelope to its release at once, unless it is done already.
    pub fn release(&mut self)
        ensures
            final(self).0@ == old(self).0@.released(),
            *final(final(self).0) == *final(old(self).0),
    {
        self.0.release()
    }

    /// Produces the envelope's next sample, between `0` and `UNIT`, and
    /// advances it.
    pub fn next(&mut self) -> (sample: Option<i64>)
        ensures
            sample == old(self).0@.level(),
            final(self).0@ == old(self).0@.step(),
            *final(final(self).0) == *final(old(self).0),
            sample matches Some(x) ==> 0 <= x <= UNIT,
            sample is None <==> old(self).0@.state == State::End,
    {
        self.0.next()
    }
}

} // verus!
