//! The amplitude envelope of a note: attack, decay, sustain, release, quiet,
//! end.

use vstd::prelude::*;
use crate::util::{lemma_lerp_between, lerp, samples, spec_lerp, spec_samples, UNIT};

verus! {

/// The shape of an envelope. Lengths are in millionths of a second; the
/// sustain level is a fraction of the peak in millionths.
#[derive(Clone, Copy, Debug, PartialEq, Eq, Structural)]
pub struct ADSRParams {
    pub attack_length: i64,
    pub decay_length: i64,
    pub sustain_percent: i64,
    pub sustain_length: i64,
    pub release_length: i64,
    pub quiet_length: i64,
}

impl ADSRParams {
    /// No length is negative and the sustain level lies in `0..=UNIT`.
    pub open spec fn valid(self) -> bool {
        &&& self.attack_length >= 0
        &&& self.decay_length >= 0
        &&& 0 <= self.sustain_percent <= UNIT
        &&& self.sustain_length >= 0
        &&& self.release_length >= 0
        &&& self.quiet_length >= 0
    }

    /// The shape with every field zero.
    pub open spec fn spec_zero() -> ADSRParams {
        ADSRParams {
            attack_length: 0,
            decay_length: 0,
            sustain_percent: 0,
            sustain_length: 0,
            release_length: 0,
            quiet_length: 0,
        }
    }

    /// Half a second of attack, a quarter of decay to 0.7, 1.25 s of sustain,
    /// a second of release and half a second of quiet.
    pub open spec fn spec_default() -> ADSRParams {
        ADSRParams {
            attack_length: 500_000,
            decay_length: 250_000,
            sustain_percent: 700_000,
            sustain_length: 1_250_000,
            release_length: 1_000_000,
            quiet_length: 500_000,
        }
    }

    /// Tells whether the shape can be built.
    pub fn is_valid(&self) -> (ok: bool)
        ensures
            ok == self.valid(),
    {
        self.attack_length >= 0 && self.decay_length >= 0 && 0 <= self.sustain_percent
            && self.sustain_percent <= UNIT && self.sustain_length >= 0 && self.release_length >= 0
            && self.quiet_length >= 0
    }

    /// An envelope of this shape, at the start of its attack.
    pub fn build(self) -> (envelope: ADSR)
        requires
            self.valid(),
        ensures
            envelope@ == Envelope::fresh(self),
    {
        ADSR { params: self, state: State::Attack, progress: 0 }
    }

    /// The shape that is over at once.
    pub fn zero() -> (params: Self)
        ensures
            params == Self::spec_zero(),
    {
        Self {
            attack_length: 0,
            decay_length: 0,
            sustain_percent: 0,
            sustain_length: 0,
            release_length: 0,
            quiet_length: 0,
        }
    }

    /// Full level for `length`, with no ramp on either side.
    pub fn flat(length: i64) -> (params: Self)
        ensures
            params == (ADSRParams { sustain_percent: UNIT, sustain_length: length, ..Self::spec_zero() }),
    {
        Self { sustain_percent: UNIT, sustain_length: length, ..Self::zero() }
    }

    /// Full level for `length`, then silence for `quiet`.
    pub fn flat2(length: i64, quiet: i64) -> (params: Self)
        ensures
            params == (ADSRParams {
                sustain_percent: UNIT,
                sustain_length: length,
                quiet_length: quiet,
                ..Self::spec_zero()
            }),
    {
        Self { quiet_length: quiet, ..Self::flat(length) }
    }
}

impl Default for ADSRParams {
    /// The default shape.
    fn default() -> (params: Self)
        ensures
            params == ADSRParams::spec_default(),
    {
        Self {
            attack_length: 500_000,
            decay_length: 250_000,
            sustain_percent: 700_000,
            sustain_length: 1_250_000,
            release_length: 1_000_000,
            quiet_length: 500_000,
        }
    }
}

/// The stage an envelope is in.
#[derive(Clone, Copy, Debug, PartialEq, Eq, Structural)]
pub enum State {
    Attack,
    Decay,
    Sustain,
    Release,
    Quiet,
    End,
}

impl Default for State {
    fn default() -> (state: Self)
        ensures
            state == State::Attack,
    {
        Self::Attack
    }
}

/// What an envelope is: its shape, its stage, and the samples counted in that
/// stage.
pub struct Envelope {
    pub params: ADSRParams,
    pub state: State,
    pub progress: u32,
}

impl Envelope {
    /// An envelope that has produced nothing yet.
    pub open spec fn fresh(params: ADSRParams) -> Envelope {
        Envelope { params, state: State::Attack, progress: 0 }
    }

    /// The length in samples of the stage the envelope is in.
    pub open spec fn duration(self) -> int {
        match self.state {
            State::Attack => spec_samples(self.params.attack_length),
            State::Decay => spec_samples(self.params.decay_length),
            State::Sustain => spec_samples(self.params.sustain_length),
            State::Release => spec_samples(self.params.release_length),
            State::Quiet => spec_samples(self.params.quiet_length),
            State::End => 0,
        }
    }

    /// The stage that follows.
    pub open spec fn successor(self) -> State {
        match self.state {
            State::Attack => State::Decay,
            State::Decay => State::Sustain,
            State::Sustain => State::Release,
            State::Release => State::Quiet,
            State::Quiet => State::End,
            State::End => State::End,
        }
    }

    /// The stage has run its length: the next sample moves on.
    pub open spec fn expired(self) -> bool {
        self.progress >= self.duration()
    }

    /// How far the stage has run, as a fraction of its length.
    pub open spec fn fraction(self) -> int {
        (self.progress * UNIT) / self.duration()
    }

    /// The sample that comes next, or `None` once the envelope has ended.
    pub open spec fn level(self) -> Option<i64> {
        match self.state {
            State::Attack => Some(if self.expired() { UNIT } else { self.fraction() as i64 }),
            State::Decay => Some(
                if self.expired() {
                    self.params.sustain_percent
                } else {
                    spec_lerp(self.fraction() as i64, UNIT, self.params.sustain_percent) as i64
                },
            ),
            State::Sustain => Some(self.params.sustain_percent),
            State::Release => Some(
                if self.expired() {
                    0
                } else {
                    spec_lerp(self.fraction() as i64, self.params.sustain_percent, 0) as i64
                },
            ),
            State::Quiet => Some(0),
            State::End => None,
        }
    }

    /// The envelope after it has produced its next sample. The sample that
    /// moves to a new stage counts as that stage's first.
    pub open spec fn step(self) -> Envelope {
        if self.state == State::End {
            self
        } else if self.expired() {
            Envelope { state: self.successor(), progress: 1, ..self }
        } else {
            Envelope { progress: (self.progress + 1) as u32, ..self }
        }
    }

    /// The envelope may be cut short from here on.
    pub open spec fn is_done(self) -> bool {
        self.state == State::Release || self.state == State::Quiet || self.state == State::End
    }

    /// The envelope after a forced release.
    pub open spec fn released(self) -> Envelope {
        if self.is_done() {
            self
        } else {
            Envelope { state: State::Release, progress: 0, ..self }
        }
    }

    /// The envelope after `n` samples.
    pub open spec fn after(self, n: nat) -> Envelope
        decreases n,
    {
        if n == 0 {
            self
        } else {
            self.step().after((n - 1) as nat)
        }
    }
}

/// An envelope generator.
#[derive(Clone, Copy, Debug)]
pub struct ADSR {
    params: ADSRParams,
    state: State,
    progress: u32,
}

impl View for ADSR {
    type V = Envelope;

    closed spec fn view(&self) -> Envelope {
        Envelope { params: self.params, state: self.state, progress: self.progress }
    }
}

impl Default for ADSR {
    /// An envelope of the default shape, at the start of its attack.
    fn default() -> (envelope: Self)
        ensures
            envelope@ == Envelope::fresh(ADSRParams::spec_default()),
    {
        ADSRParams::default().build()
    }
}

impl ADSR {
    #[verifier::type_invariant]
    spec fn well_formed(self) -> bool {
        self.params.valid()
    }

    /// A new envelope of the same shape, at the start of its attack.
    pub fn copy(&self) -> (envelope: Self)
        ensures
            envelope@ == Envelope::fresh(self@.params),
    {
        proof {
            use_type_invariant(self);
        }
        self.params.build()
    }

    /// The stage the envelope is in.
    pub fn state(&self) -> (state: State)
        ensures
            state == self@.state,
    {
        self.state
    }

    /// The samples counted in the stage the envelope is in.
    pub fn progress(&self) -> (progress: u32)
        ensures
            progress == self@.progress,
    {
        self.progress
    }

    /// The shape of the envelope.
    pub fn params(&self) -> (params: ADSRParams)
        ensures
            params == self@.params,
            params.valid(),
    {
        proof {
            use_type_invariant(self);
        }
        self.params
    }

    /// Starts over.
    pub fn reset(&mut self)
        ensures
            final(self)@ == Envelope::fresh(old(self)@.params),
    {
        *self = self.copy();
    }

    /// The envelope has produced its last sample.
    pub fn is_end(&self) -> (ended: bool)
        ensures
            ended == (self@.state == State::End),
    {
        self.state == State::End
    }

    /// The rest of the envelope may be cut short.
    pub fn is_done(&self) -> (done: bool)
        ensures
            done == self@.is_done(),
    {
        match self.state {
            State::Release | State::Quiet | State::End => true,
            _ => false,
        }
    }

    /// Moves to the release at once. On an envelope that is already done this
    /// changes nothing.
    pub fn release(&mut self)
        ensures
            final(self)@ == old(self)@.released(),
    {
        proof {
            use_type_invariant(&*self);
        }
        if !self.is_done() {
            *self = ADSR { params: self.params, state: State::Release, progress: 0 };
        }
    }

    /// Produces the next sample, between `0` and `UNIT`, and advances.
    pub fn next(&mut self) -> (sample: Option<i64>)
        ensures
            sample == old(self)@.level(),
            final(self)@ == old(self)@.step(),
            sample matches Some(x) ==> 0 <= x <= UNIT,
            sample is None <==> old(self)@.state == State::End,
    {
        proof {
            use_type_invariant(&*self);
        }
        let params = self.params;
        let progress = self.progress;
        let (length, following) = match self.state {
            State::Attack => (params.attack_length, State::Decay),
            State::Decay => (params.decay_length, State::Sustain),
            State::Sustain => (params.sustain_length, State::Release),
            State::Release => (params.release_length, State::Quiet),
            State::Quiet => (params.quiet_length, State::End),
            State::End => {
                return None;
            },
        };
        let duration = samples(length);
        let expired = progress >= duration;
        let x: i64 = match self.state {
            State::Attack => if expired {
                UNIT
            } else {
                Self::ramp(progress, duration)
            },
            State::Decay => if expired {
                params.sustain_percent
            } else {
                let t = Self::ramp(progress, duration);
                proof {
                    lemma_lerp_between(t, UNIT, params.sustain_percent);
                }
                lerp(t, UNIT, params.sustain_percent)
            },
            State::Sustain => params.sustain_percent,
            State::Release => if expired {
                0
            } else {
                let t = Self::ramp(progress, duration);
                proof {
                    lemma_lerp_between(t, params.sustain_percent, 0);
                }
                lerp(t, params.sustain_percent, 0)
            },
            _ => 0,
        };
        if expired {
            *self = ADSR { params, state: following, progress: 1 };
        } else {
            *self = ADSR { params, state: self.state, progress: progress + 1 };
        }
        Some(x)
    }

    /// `progress / duration` as a fraction of `UNIT`.
    fn ramp(progress: u32, duration: u32) -> (t: i64)
        requires
            progress < duration,
        ensures
            t == (progress * UNIT) / (duration as int),
            0 <= t < UNIT,
    {
        assert(0 <= progress * UNIT < duration * UNIT <= 0x1_0000_0000 * 1_000_000) by (nonlinear_arith)
            requires
                0 <= progress < duration < 0x1_0000_0000,
                UNIT == 1_000_000,
        ;
        let t: i64 = (progress as i64 * UNIT) / (duration as i64);
        assert(0 <= (progress * UNIT) / (duration as int) < UNIT) by (nonlinear_arith)
            requires
                0 <= progress * UNIT < duration * UNIT,
                duration > 0,
        ;
        t
    }
}

impl Envelope {
    /// How many samples the stage the envelope is in still produces, the one
    /// that moves on included.
    pub open spec fn stage_rest(self) -> nat {
        if self.state == State::End {
            0
        } else if self.expired() {
            1
        } else {
            (self.duration() - self.progress + 1) as nat
        }
    }

    /// How many samples a stage of `length` produces when it is entered by the
    /// stage before it.
    pub open spec fn stage_count(length: i64) -> nat {
        if spec_samples(length) >= 1 {
            spec_samples(length) as nat
        } else {
            1
        }
    }

    /// How many samples an envelope of this shape produces from its start, left
    /// to run.
    pub open spec fn total_count(params: ADSRParams) -> nat {
        (spec_samples(params.attack_length) + 1) as nat + Self::stage_count(params.decay_length)
            + Self::stage_count(params.sustain_length) + Self::stage_count(params.release_length)
            + Self::stage_count(params.quiet_length)
    }
}

/// Running `a + b` samples is running `a`, then `b`.
pub proof fn lemma_after_add(e: Envelope, a: nat, b: nat)
    ensures
        e.after(a + b) == e.after(a).after(b),
    decreases a,
{
    if a > 0 {
        lemma_after_add(e.step(), (a - 1) as nat, b);
        assert(e.after(a + b) == e.step().after((a + b - 1) as nat));
    }
}

/// An envelope that has ended stays as it is and produces nothing.
pub proof fn lemma_end_is_final(e: Envelope, n: nat)
    requires
        e.state == State::End,
    ensures
        e.after(n) == e,
        e.after(n).level() is None,
    decreases n,
{
    if n > 0 {
        lemma_end_is_final(e, (n - 1) as nat);
    }
}

/// A stage lasts `stage_rest` samples: until then the envelope stays in it,
/// and then it stands at the first count of the next stage.
pub proof fn lemma_stage_runs(e: Envelope)
    requires
        e.state != State::End,
    ensures
        e.after(e.stage_rest()) == (Envelope { state: e.successor(), progress: 1, ..e }),
        forall|k: nat|
            k < e.stage_rest() ==> (#[trigger] e.after(k)).state == e.state && e.after(k).level() is Some,
    decreases e.duration() - e.progress,
{
    reveal_with_fuel(Envelope::after, 2);
    if e.expired() {
        assert(e.after(1) == e.step().after(0));
    } else {
        let next = e.step();
        lemma_stage_runs(next);
        assert(e.stage_rest() == next.stage_rest() + 1);
        assert(e.after(e.stage_rest()) == next.after(next.stage_rest()));
        assert forall|k: nat| k < e.stage_rest() implies (#[trigger] e.after(k)).state == e.state
            && e.after(k).level() is Some by {
            if k > 0 {
                assert(e.after(k) == next.after((k - 1) as nat));
            }
        }
    }
}

/// Left to run from its start, an envelope produces exactly `total_count`
/// samples and none after them: one more than its attack is long, and for each
/// later stage as many as it is long, but at least one.
pub proof fn lemma_sample_count(params: ADSRParams)
    ensures
        forall|k: nat|
            k < Envelope::total_count(params) ==> (#[trigger] Envelope::fresh(params).after(k)).level() is Some,
        forall|k: nat|
            k >= Envelope::total_count(params) ==> (#[trigger] Envelope::fresh(params).after(k)).level() is None,
        Envelope::fresh(params).after(Envelope::total_count(params)).state == State::End,
{
    let e0 = Envelope::fresh(params);
    let n0 = e0.stage_rest();
    lemma_stage_runs(e0);
    let e1 = e0.after(n0);
    let n1 = e1.stage_rest();
    lemma_stage_runs(e1);
    let e2 = e1.after(n1);
    let n2 = e2.stage_rest();
    lemma_stage_runs(e2);
    let e3 = e2.after(n2);
    let n3 = e3.stage_rest();
    lemma_stage_runs(e3);
    let e4 = e3.after(n3);
    let n4 = e4.stage_rest();
    lemma_stage_runs(e4);
    let e5 = e4.after(n4);
    lemma_after_add(e0, n0, n1);
    lemma_after_add(e0, n0 + n1, n2);
    lemma_after_add(e0, n0 + n1 + n2, n3);
    lemma_after_add(e0, n0 + n1 + n2 + n3, n4);
    let total = Envelope::total_count(params);
    assert(total == n0 + n1 + n2 + n3 + n4);
    assert(e0.after(total) == e5);
    assert forall|k: nat| k < total implies (#[trigger] e0.after(k)).level() is Some by {
        if k < n0 {
        } else if k < n0 + n1 {
            lemma_after_add(e0, n0, (k - n0) as nat);
            assert(e1.after((k - n0) as nat).level() is Some);
        } else if k < n0 + n1 + n2 {
            lemma_after_add(e0, n0 + n1, (k - n0 - n1) as nat);
            assert(e2.after((k - n0 - n1) as nat).level() is Some);
        } else if k < n0 + n1 + n2 + n3 {
            lemma_after_add(e0, n0 + n1 + n2, (k - n0 - n1 - n2) as nat);
            assert(e3.after((k - n0 - n1 - n2) as nat).level() is Some);
        } else {
            lemma_after_add(e0, n0 + n1 + n2 + n3, (k - n0 - n1 - n2 - n3) as nat);
            assert(e4.after((k - n0 - n1 - n2 - n3) as nat).level() is Some);
        }
    }
    assert forall|k: nat| k >= total implies (#[trigger] e0.after(k)).level() is None by {
        lemma_after_add(e0, total, (k - total) as nat);
        lemma_end_is_final(e5, (k - total) as nat);
    }
}

/// Where decay, sustain, release and quiet each last a sample or more, the
/// samples produced are one more than the stages are long together.
pub proof fn lemma_sample_count_within_one(params: ADSRParams)
    requires
        spec_samples(params.decay_length) >= 1,
        spec_samples(params.sustain_length) >= 1,
        spec_samples(params.release_length) >= 1,
        spec_samples(params.quiet_length) >= 1,
    ensures
        Envelope::total_count(params) == spec_samples(params.attack_length) + spec_samples(
            params.decay_length,
        ) + spec_samples(params.sustain_length) + spec_samples(params.release_length)
            + spec_samples(params.quiet_length) + 1,
{
}

/// A forced release before the release stage lands at the start of the
/// release; a second one changes nothing, so what follows is the same.
pub proof fn lemma_release_idempotent(e: Envelope, n: nat)
    ensures
        !e.is_done() ==> e.released().state == State::Release && e.released().progress == 0,
        e.released().params == e.params,
        e.released().released() == e.released(),
        e.released().released().after(n).level() == e.released().after(n).level(),
{
}

/// An envelope that is released before its release stage runs out: it
/// produces one sample more than the release is long, then the samples of the
/// quiet stage, and then has ended.
pub proof fn lemma_released_runs_out(e: Envelope)
    requires
        !e.is_done(),
    ensures
        forall|k: nat|
            k < spec_samples(e.params.release_length) + 1 + Envelope::stage_count(e.params.quiet_length) ==> (
            #[trigger] e.released().after(k)).level() is Some,
        forall|k: nat|
            k >= spec_samples(e.params.release_length) + 1 + Envelope::stage_count(e.params.quiet_length) ==> (
            #[trigger] e.released().after(k)).level() is None,
{
    let e0 = e.released();
    let n0 = e0.stage_rest();
    lemma_stage_runs(e0);
    let e1 = e0.after(n0);
    let n1 = e1.stage_rest();
    lemma_stage_runs(e1);
    let e2 = e1.after(n1);
    lemma_after_add(e0, n0, n1);
    let total = (spec_samples(e.params.release_length) + 1 + Envelope::stage_count(e.params.quiet_length)) as nat;
    assert(total == n0 + n1);
    assert forall|k: nat| k < total implies (#[trigger] e0.after(k)).level() is Some by {
        if k >= n0 {
            lemma_after_add(e0, n0, (k - n0) as nat);
            assert(e1.after((k - n0) as nat).level() is Some);
        }
    }
    assert forall|k: nat| k >= total implies (#[trigger] e0.after(k)).level() is None by {
        lemma_after_add(e0, total, (k - total) as nat);
        lemma_end_is_final(e2, (k - total) as nat);
    }
}

/// A sample of a valid envelope lies between `0` and `UNIT`.
pub proof fn lemma_level_in_range(e: Envelope)
    requires
        e.params.valid(),
    ensures
        e.level() matches Some(x) ==> 0 <= x <= UNIT,
{
    if e.state != State::End && !e.expired() {
        let d = e.duration();
        assert(0 <= (e.progress * UNIT) / d < UNIT) by (nonlinear_arith)
            requires
                0 <= e.progress < d,
                UNIT == 1_000_000,
        ;
        let t = e.fraction() as i64;
        lemma_lerp_between(t, UNIT, e.params.sustain_percent);
        lemma_lerp_between(t, e.params.sustain_percent, 0);
    }
}

} // verus!
