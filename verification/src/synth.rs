//! The synthesizers built on the pool: one driven by note events, one that
//! plays a list of notes.

use vstd::prelude::*;
use crate::midi_io::SimpleMidiMessage;
use crate::oscillator::{Oscillator, StoreView};
use crate::pool::{attenuated, lemma_allocated_wf, PoolExhausted, PoolView, Tick, VoiceArray, MAX_VOICES};
use crate::synth_template::SynthTrait;
use crate::voice::Voice;

verus! {

/// The number of MIDI keys.
pub const KEYS: usize = 128;

/// What the pool and the store are after a note event has been taken in.
///
/// A note-on takes a free slot for a voice at the key's frequency and starts
/// that voice in the nested store of the slot, whatever the store held; where
/// no slot is free, or the key is none, the event is dropped. A note-off releases every voice that sounds the key.
pub open spec fn handled(pool: PoolView, store: StoreView, tuning: Seq<i64>, event: SimpleMidiMessage) -> (
    PoolView,
    StoreView,
) {
    match event {
        SimpleMidiMessage::NoteOn(key) => if key < tuning.len() && pool.free.len() > 0 {
            (
                pool.allocated(Voice(tuning[key as int]), key),
                store.with_scope(pool.free[0] as u64, Voice::started()),
            )
        } else {
            (pool, store)
        },
        SimpleMidiMessage::NoteOff(key) => (pool, store.release_scopes(pool.sounding(key))),
    }
}

/// What the pool and the store are after the first `count` events of a queue
/// have been taken in, in order.
pub open spec fn drained(
    pool: PoolView,
    store: StoreView,
    tuning: Seq<i64>,
    queue: Seq<SimpleMidiMessage>,
    count: nat,
) -> (PoolView, StoreView)
    decreases count,
{
    if count == 0 {
        (pool, store)
    } else {
        let (p, s) = drained(pool, store, tuning, queue, (count - 1) as nat);
        handled(p, s, tuning, queue[count - 1])
    }
}

/// Taking events in keeps the pool well formed.
pub proof fn lemma_drained_wf(
    pool: PoolView,
    store: StoreView,
    tuning: Seq<i64>,
    queue: Seq<SimpleMidiMessage>,
    count: nat,
)
    requires
        pool.wf(),
    ensures
        drained(pool, store, tuning, queue, count).0.wf(),
    decreases count,
{
    if count > 0 {
        lemma_drained_wf(pool, store, tuning, queue, (count - 1) as nat);
        let (p, s) = drained(pool, store, tuning, queue, (count - 1) as nat);
        match queue[count - 1] {
            SimpleMidiMessage::NoteOn(key) => {
                if key < tuning.len() && p.free.len() > 0 {
                    lemma_allocated_wf(p, Voice(tuning[key as int]), key);
                }
            },
            SimpleMidiMessage::NoteOff(_) => {},
        }
    }
}

/// What a note-driven synthesizer is: the events waiting, the pool, and the
/// frequency of each key.
pub struct MidiView {
    pub queue: Seq<SimpleMidiMessage>,
    pub pool: PoolView,
    pub tuning: Seq<i64>,
}

/// A polyphonic synthesizer driven by note events.
pub struct MidiSynth {
    queue: Vec<SimpleMidiMessage>,
    voices: VoiceArray,
    tuning: Vec<i64>,
}

impl View for MidiSynth {
    type V = MidiView;

    closed spec fn view(&self) -> MidiView {
        MidiView { queue: self.queue@, pool: self.voices@, tuning: self.tuning@ }
    }
}

impl MidiSynth {
    /// The pool inside is well formed.
    pub closed spec fn pool_ok(&self) -> bool {
        self.voices.wf()
    }

    /// A synthesizer with `capacity` voices and no event waiting. `tuning`
    /// gives the frequency of each key, in hertz.
    pub fn new(capacity: usize, tuning: Vec<i64>) -> (synth: Self)
        requires
            capacity <= MAX_VOICES,
            tuning@.len() == KEYS,
        ensures
            synth.wf(),
            synth@ == (MidiView { queue: Seq::empty(), pool: PoolView::fresh(capacity as nat), tuning: tuning@ }),
    {
        Self { queue: Vec::new(), voices: VoiceArray::new(capacity), tuning }
    }

    /// The pool of voices.
    pub fn voices(&self) -> (voices: &VoiceArray)
        requires
            self.wf(),
        ensures
            voices.wf(),
            voices@ == self@.pool,
    {
        &self.voices
    }

    /// Puts an event at the end of the queue. It is taken in at the next
    /// sample.
    pub fn push(&mut self, event: SimpleMidiMessage)
        requires
            old(self).wf(),
        ensures
            final(self).wf(),
            final(self)@ == (MidiView { queue: old(self)@.queue.push(event), ..old(self)@ }),
    {
        self.queue.push(event);
    }

    /// Starts a voice for `note`: takes a free slot, and starts the voice in
    /// the nested store of that slot, so that nothing of the slot's last voice
    /// is left. Fails where no slot is free, and then changes nothing.
    pub fn note_on(&mut self, note: u8, osc: &mut Oscillator) -> (started: Result<usize, PoolExhausted>)
        requires
            old(self).wf(),
            note < KEYS,
        ensures
            final(self).wf(),
            final(self)@.queue == old(self)@.queue,
            final(self)@.tuning == old(self)@.tuning,
            (final(self)@.pool, final(osc)@) == handled(
                old(self)@.pool,
                old(osc)@,
                old(self)@.tuning,
                SimpleMidiMessage::NoteOn(note),
            ),
            match started {
                Ok(index) => old(self)@.pool.free.len() > 0 && index == old(self)@.pool.free[0],
                Err(_) => old(self)@.pool.free.len() == 0,
            },
    {
        let voice = Voice(self.tuning[note as usize]);
        match self.voices.get_free(voice, note) {
            Ok(index) => {
                Voice::start(osc.sub_scope(index));
                Ok(index)
            },
            Err(exhausted) => Err(exhausted),
        }
    }

    /// Releases every voice that sounds `note`.
    pub fn note_off(&self, note: u8, osc: &mut Oscillator)
        requires
            self.wf(),
        ensures
            final(osc)@ == old(osc)@.release_scopes(self@.pool.sounding(note)),
    {
        self.voices.release_by_note(note, osc);
    }

    /// Takes one event in. A note-on that finds no free slot, or names no
    /// key, is dropped.
    pub fn handle(&mut self, event: SimpleMidiMessage, osc: &mut Oscillator)
        requires
            old(self).wf(),
        ensures
            final(self).wf(),
            final(self)@.queue == old(self)@.queue,
            final(self)@.tuning == old(self)@.tuning,
            (final(self)@.pool, final(osc)@) == handled(old(self)@.pool, old(osc)@, old(self)@.tuning, event),
    {
        match event {
            SimpleMidiMessage::NoteOn(note) => {
                if (note as usize) < KEYS {
                    let _ = self.note_on(note, osc);
                }
            },
            SimpleMidiMessage::NoteOff(note) => {
                self.note_off(note, osc);
            },
        }
    }
}

impl SynthTrait for MidiSynth {
    open spec fn wf(&self) -> bool {
        self.pool_ok() && self@.pool.wf() && self@.tuning.len() == KEYS
    }

    /// One sample: every waiting event is taken in, in order, and then the
    /// pool makes its pass.
    open spec fn steps(&self, store: StoreView, sample: Option<i64>, after: &Self, store_after: StoreView) -> bool {
        let (pool, taken_in) = drained(self@.pool, store, self@.tuning, self@.queue, self@.queue.len());
        let tick = Tick::of(pool, taken_in);
        &&& sample == Some(attenuated(tick.sum) as i64)
        &&& after@ == (MidiView { queue: Seq::empty(), pool: tick.pool, tuning: self@.tuning })
        &&& store_after == tick.store
    }

    fn next(&mut self, osc: &mut Oscillator) -> (sample: Option<i64>) {
        let mut i: usize = 0;
        while i < self.queue.len()
            invariant
                i <= self.queue@.len(),
                self.wf(),
                self@.queue == old(self)@.queue,
                self@.tuning == old(self)@.tuning,
                (self@.pool, osc@) == drained(
                    old(self)@.pool,
                    old(osc)@,
                    old(self)@.tuning,
                    old(self)@.queue,
                    i as nat,
                ),
            decreases self.queue@.len() - i,
        {
            let event = self.queue[i];
            self.handle(event, osc);
            i += 1;
        }
        self.queue.clear();
        self.voices.next(osc)
    }
}

/// What a sequencer is: the voice that sounds, if one does, and the
/// frequencies still to play.
pub struct Sequence {
    pub voice: Option<Voice>,
    pub rest: Seq<i64>,
}

/// One sample of a sequencer: the sample, and the sequencer and the store
/// after it.
pub struct Played {
    pub sample: Option<i64>,
    pub sequence: Sequence,
    pub store: StoreView,
}

impl Sequence {
    /// The sequencer's next sample. The voice that sounds gives it; when that
    /// voice has ended, the store is emptied and the next frequency starts a
    /// new voice; when none is left, the sequencer has ended.
    pub open spec fn play(self, store: StoreView) -> Played
        decreases self.rest.len(), (if self.voice is Some { 1nat } else { 0nat }),
    {
        match self.voice {
            Some(voice) => match voice.sample(store) {
                Some(x) => Played { sample: Some(x), sequence: self, store: voice.after(store) },
                None => (Sequence { voice: None, rest: self.rest }).play(StoreView::empty()),
            },
            None => if self.rest.len() > 0 {
                (Sequence { voice: Some(Voice(self.rest[0])), rest: self.rest.subrange(1, self.rest.len() as int) }).play(
                    store,
                )
            } else {
                Played { sample: None, sequence: self, store }
            },
        }
    }
}

/// A synthesizer that plays a list of notes, one after the other.
pub struct Synth {
    voice: Option<Voice>,
    notes: Vec<i64>,
    position: usize,
}

impl View for Synth {
    type V = Sequence;

    closed spec fn view(&self) -> Sequence {
        Sequence { voice: self.voice, rest: self.notes@.subrange(self.position as int, self.notes@.len() as int) }
    }
}

impl Synth {
    /// The sequencer has not run past its notes.
    pub closed spec fn in_bounds(&self) -> bool {
        self.position <= self.notes@.len()
    }

    /// A sequencer that will play `notes`, frequencies in hertz, in order.
    pub fn new(notes: Vec<i64>) -> (synth: Self)
        ensures
            synth.wf(),
            synth@ == (Sequence { voice: None, rest: notes@ }),
    {
        let synth = Self { voice: None, notes, position: 0 };
        assert(synth@.rest =~= notes@);
        synth
    }
}

impl Default for Synth {
    /// The sequencer with nothing to play.
    fn default() -> (synth: Self)
        ensures
            synth.wf(),
            synth@ == (Sequence { voice: None, rest: Seq::empty() }),
    {
        Self::new(Vec::new())
    }
}

impl SynthTrait for Synth {
    open spec fn wf(&self) -> bool {
        self.in_bounds()
    }

    open spec fn steps(&self, store: StoreView, sample: Option<i64>, after: &Self, store_after: StoreView) -> bool {
        &&& sample == self@.play(store).sample
        &&& after@ == self@.play(store).sequence
        &&& store_after == self@.play(store).store
    }

    fn next(&mut self, osc: &mut Oscillator) -> (sample: Option<i64>) {
        loop
            invariant
                self.wf(),
                self@.play(osc@) == old(self)@.play(old(osc)@),
            decreases self.notes@.len() - self.position, (if self.voice is Some { 1nat } else { 0nat }),
        {
            match self.voice {
                Some(voice) => {
                    let mut sounding = voice;
                    let out = sounding.next(osc);
                    if out.is_some() {
                        return out;
                    }
                    self.voice = None;
                    osc.reset();
                },
                None => {
                    if self.position < self.notes.len() {
                        let ghost rest = self@.rest;
                        self.voice = Some(Voice(self.notes[self.position]));
                        self.position = self.position + 1;
                        assert(self@.rest =~= rest.subrange(1, rest.len() as int));
                    } else {
                        return None;
                    }
                },
            }
        }
    }
}

} // verus!
