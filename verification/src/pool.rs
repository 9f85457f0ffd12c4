//! The voice pool: a fixed number of slots, the unused ones chained into a
//! free list.

use vstd::prelude::*;
use crate::oscillator::{lemma_release_scopes_step, Oscillator, StoreView};
use crate::synth_template::SynthTrait;
use crate::util::{div_floor, UNIT};
use crate::voice::Voice;

verus! {

/// The most slots a pool can have.
pub const MAX_VOICES: usize = 0xffff_ffff;

/// The factor, in millionths, by which the sum of the voices is turned down.
pub const ATTENUATION: i64 = 300_000;

/// No slot is free.
#[derive(Clone, Copy, Debug, PartialEq, Eq, Structural)]
pub struct PoolExhausted;

/// A slot of the pool.
#[derive(Clone, Copy, Debug, PartialEq, Eq, Structural)]
pub enum VoiceNode {
    /// Unused; holds the index of the next unused slot, or `None` at the end
    /// of the chain.
    Free(Option<usize>),
    /// Sounding `voice` for `note`.
    Used { voice: Voice, note: u8 },
}

impl VoiceNode {
    /// The link of an unused slot.
    pub fn free(&self) -> (link: Option<Option<usize>>)
        ensures
            link == (match *self {
                VoiceNode::Free(next) => Some(next),
                VoiceNode::Used { .. } => None,
            }),
    {
        match self {
            Self::Free(free) => Some(*free),
            _ => None,
        }
    }

    /// The note of a slot in use.
    pub fn note(&self) -> (note: Option<u8>)
        ensures
            note == (match *self {
                VoiceNode::Used { note, .. } => Some(note),
                VoiceNode::Free(_) => None,
            }),
    {
        match self {
            Self::Used { note, .. } => Some(*note),
            _ => None,
        }
    }

    /// The slot sounds `note`.
    pub open spec fn sounds(self, note: u8) -> bool {
        self matches VoiceNode::Used { note: n, .. } && n == note
    }
}

impl Default for VoiceNode {
    fn default() -> (node: Self)
        ensures
            node == VoiceNode::Free(None),
    {
        Self::Free(None)
    }
}

/// What a pool is: its slots, and the free list from its head on.
pub struct PoolView {
    pub slots: Seq<VoiceNode>,
    pub free: Seq<usize>,
}

impl PoolView {
    /// The head of the free list.
    pub open spec fn head(self) -> Option<usize> {
        if self.free.len() > 0 {
            Some(self.free[0])
        } else {
            None
        }
    }

    /// What the `j`-th slot of the free list links to.
    pub open spec fn link(self, j: int) -> Option<usize> {
        if j + 1 < self.free.len() {
            Some(self.free[j + 1])
        } else {
            None
        }
    }

    /// The free list names unused slots, each linked to the one named after
    /// it; it names none twice, so the chain has no cycle and ends; and it
    /// names every unused slot. A pool has at most `MAX_VOICES` slots.
    pub open spec fn wf(self) -> bool {
        &&& self.slots.len() <= MAX_VOICES
        &&& forall|j: int|
            0 <= j < self.free.len() ==> (#[trigger] self.free[j]) < self.slots.len() && self.slots[self.free[j] as int]
                == VoiceNode::Free(self.link(j))
        &&& self.free.no_duplicates()
        &&& forall|i: int|
            0 <= i < self.slots.len() && (#[trigger] self.slots[i]) is Free ==> self.free.contains(i as usize)
    }

    /// The pool of `capacity` unused slots, chained in order.
    pub open spec fn fresh(capacity: nat) -> PoolView {
        PoolView {
            slots: Seq::new(
                capacity,
                |i: int| VoiceNode::Free(if i + 1 < capacity { Some((i + 1) as usize) } else { None }),
            ),
            free: Seq::new(capacity, |i: int| i as usize),
        }
    }

    /// The pool after the head of the free list has been taken for `voice`.
    pub open spec fn allocated(self, voice: Voice, note: u8) -> PoolView {
        PoolView {
            slots: self.slots.update(self.free[0] as int, VoiceNode::Used { voice, note }),
            free: self.free.subrange(1, self.free.len() as int),
        }
    }

    /// The pool after slot `i` has been put at the head of the free list.
    pub open spec fn freed(self, i: usize) -> PoolView {
        PoolView { slots: self.slots.update(i as int, VoiceNode::Free(self.head())), free: seq![i] + self.free }
    }

    /// The indices below `end` of the slots that sound `note`.
    pub open spec fn sounding_below(self, note: u8, end: int) -> Set<u64> {
        Set::new(|k: u64| k < end && k < self.slots.len() && self.slots[k as int].sounds(note))
    }

    /// The indices of the slots that sound `note`.
    pub open spec fn sounding(self, note: u8) -> Set<u64> {
        Set::new(|k: u64| k < self.slots.len() && self.slots[k as int].sounds(note))
    }
}

/// Taking the head of the free list leaves a well-formed pool.
pub proof fn lemma_allocated_wf(pool: PoolView, voice: Voice, note: u8)
    requires
        pool.wf(),
        pool.free.len() > 0,
    ensures
        pool.allocated(voice, note).wf(),
        !pool.allocated(voice, note).free.contains(pool.free[0]),
        pool.allocated(voice, note).head() == pool.link(0),
{
    let after = pool.allocated(voice, note);
    let taken = pool.free[0];
    assert forall|j: int| 0 <= j < after.free.len() implies (#[trigger] after.free[j]) < after.slots.len()
        && after.slots[after.free[j] as int] == VoiceNode::Free(after.link(j)) by {
        assert(after.free[j] == pool.free[j + 1]);
        assert(pool.free[j + 1] != pool.free[0]);
        assert(after.link(j) == pool.link(j + 1));
    }
    assert forall|i: int| 0 <= i < after.slots.len() && (#[trigger] after.slots[i]) is Free implies after.free.contains(
        i as usize,
    ) by {
        assert(pool.slots[i] is Free);
        let j = choose|j: int| 0 <= j < pool.free.len() && pool.free[j] == i as usize;
        assert(j != 0);
        assert(after.free[j - 1] == i as usize);
    }
    if after.free.contains(taken) {
        let j = choose|j: int| 0 <= j < after.free.len() && after.free[j] == taken;
        assert(pool.free[j + 1] == taken);
    }
}

/// Putting a slot in use at the head of the free list leaves a well-formed
/// pool, with that slot as the head.
pub proof fn lemma_freed_wf(pool: PoolView, i: usize)
    requires
        pool.wf(),
        i < pool.slots.len(),
        pool.slots[i as int] is Used,
    ensures
        pool.freed(i).wf(),
        pool.freed(i).head() == Some(i),
        !pool.free.contains(i),
{
    let after = pool.freed(i);
    if pool.free.contains(i) {
        let j = choose|j: int| 0 <= j < pool.free.len() && pool.free[j] == i;
        assert(pool.slots[pool.free[j] as int] is Free);
    }
    assert forall|j: int| 0 <= j < after.free.len() implies (#[trigger] after.free[j]) < after.slots.len()
        && after.slots[after.free[j] as int] == VoiceNode::Free(after.link(j)) by {
        if j > 0 {
            assert(after.free[j] == pool.free[j - 1]);
            assert(after.link(j) == pool.link(j - 1));
        }
    }
    assert forall|k: int| 0 <= k < after.slots.len() && (#[trigger] after.slots[k]) is Free implies after.free.contains(
        k as usize,
    ) by {
        if k == i {
            assert(after.free[0] == i);
        } else {
            assert(pool.slots[k] is Free);
            let j = choose|j: int| 0 <= j < pool.free.len() && pool.free[j] == k as usize;
            assert(after.free[j + 1] == k as usize);
        }
    }
    assert forall|a: int, b: int| 0 <= a < after.free.len() && 0 <= b < after.free.len() && a != b implies after.free[a]
        != after.free[b] by {
        if a > 0 && b > 0 {
            assert(after.free[a] == pool.free[a - 1]);
            assert(after.free[b] == pool.free[b - 1]);
        } else if a > 0 {
            assert(after.free[a] == pool.free[a - 1]);
        } else {
            assert(after.free[b] == pool.free[b - 1]);
        }
    }
}

/// A fresh pool is well formed.
pub proof fn lemma_fresh_wf(capacity: nat)
    requires
        capacity <= MAX_VOICES,
    ensures
        PoolView::fresh(capacity).wf(),
{
    let pool = PoolView::fresh(capacity);
    assert forall|i: int| 0 <= i < pool.slots.len() && (#[trigger] pool.slots[i]) is Free implies pool.free.contains(
        i as usize,
    ) by {
        assert(pool.free[i] == i as usize);
    }
}

/// One pass over the slots of a pool, as far as it has come: the pool, the
/// store, and the sum of the samples of the voices that still sound.
pub struct Tick {
    pub pool: PoolView,
    pub store: StoreView,
    pub sum: int,
}

impl Tick {
    /// The pass after slot `i`. A slot in use produces its voice's next sample
    /// in the nested store of its index; a voice that has ended frees its
    /// slot. An unused slot is passed over.
    pub open spec fn slot(self, i: int) -> Tick {
        match self.pool.slots[i] {
            VoiceNode::Used { voice, note } => {
                let scope = self.store.scope(i as u64);
                let store = self.store.with_scope(i as u64, voice.after(scope));
                match voice.sample(scope) {
                    Some(x) => Tick { store, sum: self.sum + x, ..self },
                    None => Tick { pool: self.pool.freed(i as usize), store, ..self },
                }
            },
            VoiceNode::Free(_) => self,
        }
    }

    /// The pass after the first `k` slots.
    pub open spec fn upto(self, k: nat) -> Tick
        decreases k,
    {
        if k == 0 {
            self
        } else {
            self.upto((k - 1) as nat).slot(k - 1)
        }
    }

    /// The pass over all the slots of `pool`.
    pub open spec fn of(pool: PoolView, store: StoreView) -> Tick {
        (Tick { pool, store, sum: 0 }).upto(pool.slots.len())
    }
}

/// A sum of voices, turned down by `ATTENUATION`.
pub open spec fn attenuated(sum: int) -> int {
    (sum * ATTENUATION) / (UNIT as int)
}

/// A pass keeps the pool well formed and as long as it was, and leaves the
/// slots it has not come to as they were.
pub proof fn lemma_tick_wf(start: Tick, k: nat)
    requires
        start.pool.wf(),
        k <= start.pool.slots.len(),
    ensures
        start.upto(k).pool.wf(),
        start.upto(k).pool.slots.len() == start.pool.slots.len(),
        forall|i: int| k <= i < start.pool.slots.len() ==> start.upto(k).pool.slots[i] == start.pool.slots[i],
    decreases k,
{
    if k > 0 {
        lemma_tick_wf(start, (k - 1) as nat);
        let before = start.upto((k - 1) as nat);
        let i = (k - 1) as int;
        match before.pool.slots[i] {
            VoiceNode::Used { voice, note } => {
                let scope = before.store.scope(i as u64);
                if voice.sample(scope) is None {
                    lemma_freed_wf(before.pool, i as usize);
                }
            },
            VoiceNode::Free(_) => {},
        }
    }
}

impl Tick {
    /// The voice in slot `i` has ended: it has no sample left to give from
    /// the nested store of its index.
    pub open spec fn ends(pool: PoolView, store: StoreView, i: int) -> bool {
        pool.slots[i] matches VoiceNode::Used { voice, .. } && voice.sample(store.scope(i as u64)) is None
    }

    /// The slots below `k` whose voices have ended, the highest first.
    pub open spec fn ended(pool: PoolView, store: StoreView, k: nat) -> Seq<usize>
        decreases k,
    {
        if k == 0 {
            Seq::empty()
        } else if Self::ends(pool, store, k - 1) {
            seq![(k - 1) as usize] + Self::ended(pool, store, (k - 1) as nat)
        } else {
            Self::ended(pool, store, (k - 1) as nat)
        }
    }
}

/// A pass puts the slots whose voices have ended in front of the free list,
/// the highest first, and leaves the other slots and the nested stores of the
/// slots it has not come to as they were.
pub proof fn lemma_tick_frees(pool: PoolView, store: StoreView, k: nat)
    requires
        pool.wf(),
        k <= pool.slots.len(),
    ensures
        (Tick { pool, store, sum: 0 }).upto(k).pool.free == Tick::ended(pool, store, k) + pool.free,
        forall|i: int|
            k <= i < pool.slots.len() ==> (Tick { pool, store, sum: 0 }).upto(k).store.scope(i as u64)
                == #[trigger] store.scope(i as u64),
        forall|i: int|
            0 <= i < k && !Tick::ends(pool, store, i) ==> (Tick { pool, store, sum: 0 }).upto(k).pool.slots[i]
                == #[trigger] pool.slots[i],
    decreases k,
{
    let start = Tick { pool, store, sum: 0 };
    if k == 0 {
        assert(Tick::ended(pool, store, 0) + pool.free =~= pool.free);
    } else {
        let i = (k - 1) as int;
        lemma_tick_frees(pool, store, (k - 1) as nat);
        lemma_tick_wf(start, (k - 1) as nat);
        lemma_tick_wf(start, k);
        let before = start.upto((k - 1) as nat);
        let after = start.upto(k);
        assert(before.pool.slots[i] == pool.slots[i]);
        assert(before.store.scope(i as u64) == store.scope(i as u64));
        if Tick::ends(pool, store, i) {
            assert(after.pool.free =~= Tick::ended(pool, store, k) + pool.free);
        }
        assert forall|j: int| k <= j < pool.slots.len() implies after.store.scope(j as u64) == #[trigger] store.scope(
            j as u64,
        ) by {
            assert(before.store.scope(j as u64) == store.scope(j as u64));
            assert(j as u64 != i as u64);
        }
        assert forall|j: int| 0 <= j < k && !Tick::ends(pool, store, j) implies after.pool.slots[j]
            == #[trigger] pool.slots[j] by {
            if j < k - 1 {
                assert(before.pool.slots[j] == pool.slots[j]);
            }
        }
    }
}

/// Where slot `i` is the highest whose voice has ended, it is the first of
/// the ended slots below any `k` above it.
pub proof fn lemma_highest_ended_is_first(pool: PoolView, store: StoreView, i: int, k: nat)
    requires
        0 <= i < k,
        Tick::ends(pool, store, i),
        forall|j: int| i < j < k ==> !Tick::ends(pool, store, j),
    ensures
        Tick::ended(pool, store, k).len() > 0,
        Tick::ended(pool, store, k)[0] == i as usize,
    decreases k,
{
    if k - 1 > i {
        lemma_highest_ended_is_first(pool, store, i, (k - 1) as nat);
    }
}

/// A slot whose voice has ended is free after the pass and, unless a higher
/// slot's voice has ended with it, is the head of the free list: the next
/// note takes that slot. Once taken it is off the free list, so no later note
/// takes it before it is freed again.
pub proof fn lemma_ended_slot_is_next(pool: PoolView, store: StoreView, i: usize, voice: Voice, note: u8)
    requires
        pool.wf(),
        i < pool.slots.len(),
        Tick::ends(pool, store, i as int),
        forall|j: int| i < j < pool.slots.len() ==> !Tick::ends(pool, store, j),
    ensures
        Tick::of(pool, store).pool.wf(),
        Tick::of(pool, store).pool.head() == Some(i),
        Tick::of(pool, store).pool.allocated(voice, note).wf(),
        Tick::of(pool, store).pool.allocated(voice, note).slots[i as int] == (VoiceNode::Used { voice, note }),
        !Tick::of(pool, store).pool.allocated(voice, note).free.contains(i),
{
    let start = Tick { pool, store, sum: 0 };
    lemma_tick_wf(start, pool.slots.len());
    lemma_tick_frees(pool, store, pool.slots.len());
    lemma_highest_ended_is_first(pool, store, i as int, pool.slots.len());
    let after = Tick::of(pool, store).pool;
    assert(after.free[0] == i);
    lemma_allocated_wf(after, voice, note);
}

/// Where no voice has ended, a pass leaves the pool as it was.
pub proof fn lemma_quiet_tick(pool: PoolView, store: StoreView, k: nat)
    requires
        pool.wf(),
        k <= pool.slots.len(),
        forall|j: int| 0 <= j < k ==> !Tick::ends(pool, store, j),
    ensures
        (Tick { pool, store, sum: 0 }).upto(k).pool == pool,
    decreases k,
{
    if k > 0 {
        lemma_quiet_tick(pool, store, (k - 1) as nat);
        lemma_tick_frees(pool, store, (k - 1) as nat);
        let i = (k - 1) as int;
        let start = Tick { pool, store, sum: 0 };
        let before = start.upto((k - 1) as nat);
        assert(before.store.scope(i as u64) == store.scope(i as u64));
        assert(!Tick::ends(pool, store, i));
        assert(start.upto(k) == before.slot(i));
        assert(before.slot(i).pool == before.pool);
    }
}

/// The pool of voices.
pub struct VoiceArray {
    voices: Vec<VoiceNode>,
    free: Option<usize>,
    chain: Ghost<Seq<usize>>,
}

impl View for VoiceArray {
    type V = PoolView;

    closed spec fn view(&self) -> PoolView {
        PoolView { slots: self.voices@, free: self.chain@ }
    }
}

impl VoiceArray {
    /// The number of slots of the default pool.
    pub const SIZE: usize = 32;

    /// The index the pool holds as the head of its free list.
    pub closed spec fn head(&self) -> Option<usize> {
        self.free
    }

    /// The pool's free list is in order and its head is the list's first.
    pub open spec fn wf(&self) -> bool {
        self@.wf() && self.head() == self@.head()
    }

    /// A pool of `capacity` unused slots, chained in order from the first.
    pub fn new(capacity: usize) -> (pool: Self)
        requires
            capacity <= MAX_VOICES,
        ensures
            pool.wf(),
            pool@ == PoolView::fresh(capacity as nat),
    {
        let mut voices: Vec<VoiceNode> = Vec::new();
        let mut i: usize = 0;
        while i < capacity
            invariant
                i <= capacity,
                voices@.len() == i,
                forall|k: int|
                    0 <= k < i ==> voices@[k] == VoiceNode::Free(
                        if k + 1 < capacity { Some((k + 1) as usize) } else { None },
                    ),
            decreases capacity - i,
        {
            let next = if i + 1 < capacity {
                Some(i + 1)
            } else {
                None
            };
            voices.push(VoiceNode::Free(next));
            i += 1;
        }
        let free = if capacity > 0 {
            Some(0)
        } else {
            None
        };
        let pool = Self { voices, free, chain: Ghost(Seq::new(capacity as nat, |k: int| k as usize)) };
        proof {
            assert(pool@.slots =~= PoolView::fresh(capacity as nat).slots);
            lemma_fresh_wf(capacity as nat);
        }
        pool
    }

    /// The number of slots.
    pub fn capacity(&self) -> (count: usize)
        ensures
            count == self@.slots.len(),
    {
        self.voices.len()
    }

    /// The head of the free list.
    pub fn first_free(&self) -> (head: Option<usize>)
        requires
            self.wf(),
        ensures
            head == self@.head(),
    {
        self.free
    }

    /// The slot at `index`.
    pub fn node(&self, index: usize) -> (node: VoiceNode)
        requires
            index < self@.slots.len(),
        ensures
            node == self@.slots[index as int],
    {
        self.voices[index]
    }

    /// Takes the first slot of the free list for `voice` and `note` and
    /// returns its index, or fails where no slot is free, leaving the pool as
    /// it was.
    pub fn get_free(&mut self, voice: Voice, note: u8) -> (taken: Result<usize, PoolExhausted>)
        requires
            old(self).wf(),
        ensures
            final(self).wf(),
            match taken {
                Ok(index) => old(self)@.free.len() > 0 && index == old(self)@.free[0]
                    && final(self)@ == old(self)@.allocated(voice, note),
                Err(_) => old(self)@.free.len() == 0 && final(self)@ == old(self)@,
            },
    {
        match self.free {
            None => Err(PoolExhausted),
            Some(index) => {
                assert(self@.free[0] == index);
                match self.voices[index] {
                    VoiceNode::Free(next) => {
                        proof {
                            lemma_allocated_wf(self@, voice, note);
                        }
                        self.free = next;
                        self.voices.set(index, VoiceNode::Used { voice, note });
                        self.chain = Ghost(self.chain@.subrange(1, self.chain@.len() as int));
                        Ok(index)
                    },
                    // the free list never names a slot in use
                    VoiceNode::Used { .. } => Err(PoolExhausted),
                }
            },
        }
    }

    /// Forces the release of every voice that sounds `note`. The slots stay
    /// in use until their envelopes have run out.
    pub fn release_by_note(&self, note: u8, osc: &mut Oscillator)
        requires
            self.wf(),
        ensures
            final(osc)@ == old(osc)@.release_scopes(self@.sounding(note)),
    {
        let mut i: usize = 0;
        proof {
            lemma_release_scopes_step(osc@, Set::empty(), 0);
            assert(self@.sounding_below(note, 0) =~= Set::empty());
        }
        while i < self.voices.len()
            invariant
                i <= self.voices@.len(),
                self.voices@.len() <= MAX_VOICES,
                osc@ == old(osc)@.release_scopes(self@.sounding_below(note, i as int)),
            decreases self.voices@.len() - i,
        {
            let ghost done = self@.sounding_below(note, i as int);
            let ghost more = self@.sounding_below(note, i + 1);
            match self.voices[i] {
                VoiceNode::Used { voice, note: sounding } => {
                    if sounding == note {
                        osc.sub_scope(i).release();
                        proof {
                            lemma_release_scopes_step(old(osc)@, done, i as u64);
                            assert(more =~= done.insert(i as u64));
                        }
                    } else {
                        assert(more =~= done);
                    }
                },
                VoiceNode::Free(_) => {
                    assert(more =~= done);
                },
            }
            i += 1;
        }
        assert(self@.sounding_below(note, i as int) =~= self@.sounding(note));
    }

    /// Produces the next sample of every voice, frees the slots of the voices
    /// that have ended, and returns the sum of the others, turned down.
    pub fn next(&mut self, osc: &mut Oscillator) -> (sample: Option<i64>)
        requires
            old(self).wf(),
        ensures
            final(self).wf(),
            final(self)@ == Tick::of(old(self)@, old(osc)@).pool,
            final(osc)@ == Tick::of(old(self)@, old(osc)@).store,
            sample == Some(attenuated(Tick::of(old(self)@, old(osc)@).sum) as i64),
            sample matches Some(x) && -(old(self)@.slots.len() * ATTENUATION) <= x <= old(self)@.slots.len()
                * ATTENUATION,
    {
        let ghost start = Tick { pool: self@, store: osc@, sum: 0 };
        let mut full_sample: i64 = 0;
        let mut i: usize = 0;
        while i < self.voices.len()
            invariant
                i <= self.voices@.len(),
                self.voices@.len() == start.pool.slots.len(),
                start.pool.wf(),
                start.sum == 0,
                self.wf(),
                self@ == start.upto(i as nat).pool,
                osc@ == start.upto(i as nat).store,
                full_sample == start.upto(i as nat).sum,
                -i * UNIT <= full_sample <= i * UNIT,
            decreases self.voices@.len() - i,
        {
            proof {
                lemma_tick_wf(start, i as nat);
                lemma_tick_wf(start, (i + 1) as nat);
                assert(i * UNIT <= 0xffff_ffff * 1_000_000 && (i + 1) * UNIT <= 0x1_0000_0000 * 1_000_000)
                    by (nonlinear_arith)
                    requires
                        0 <= i < 0xffff_ffff,
                        UNIT == 1_000_000,
                ;
            }
            match self.voices[i] {
                VoiceNode::Used { voice, note } => {
                    let mut sounding = voice;
                    match sounding.next(osc.sub_scope(i)) {
                        Some(x) => {
                            full_sample = full_sample + x;
                        },
                        None => {
                            self.voices.set(i, VoiceNode::Free(self.free));
                            self.free = Some(i);
                            self.chain = Ghost(seq![i] + self.chain@);
                        },
                    }
                },
                VoiceNode::Free(_) => {},
            }
            i += 1;
        }
        proof {
            lemma_tick_wf(start, i as nat);
            assert(i * UNIT <= 0xffff_ffff * 1_000_000) by (nonlinear_arith)
                requires
                    0 <= i <= 0xffff_ffff,
                    UNIT == 1_000_000,
            ;
            assert(-0xffff_ffff * 1_000_000 * 300_000 <= full_sample * ATTENUATION <= 0xffff_ffff * 1_000_000
                * 300_000) by (nonlinear_arith)
                requires
                    -0xffff_ffff * 1_000_000 <= full_sample <= 0xffff_ffff * 1_000_000,
                    ATTENUATION == 300_000,
            ;
        }
        let mixed: i128 = div_floor(full_sample as i128 * ATTENUATION as i128, UNIT as i128);
        proof {
            let n = self.voices@.len() as int;
            let f = full_sample as int;
            assert(-(n * ATTENUATION) <= (f * ATTENUATION) / (UNIT as int) <= n * ATTENUATION) by (nonlinear_arith)
                requires
                    -n * UNIT <= f <= n * UNIT,
                    ATTENUATION == 300_000,
                    UNIT == 1_000_000,
            ;
        }
        Some(mixed as i64)
    }
}

impl Default for VoiceArray {
    /// A pool of `SIZE` slots.
    fn default() -> (pool: Self)
        ensures
            pool.wf(),
            pool@ == PoolView::fresh(VoiceArray::SIZE as nat),
    {
        Self::new(Self::SIZE)
    }
}

} // verus!
