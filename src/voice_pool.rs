use vstd::prelude::*;
use crate::envelope::{EnvelopeStage, stage_after_sample};

verus! {

/// What the pool keeps of one voice: its envelope stage, the note it plays
/// and the generation at which that note started.
#[derive(Clone, Copy, Debug, PartialEq, Eq, Structural)]
pub struct VoiceSlot {
    pub stage: EnvelopeStage,
    pub note: u8,
    pub started: u64,
}

/// A voice is sounding while its envelope is not Idle.
pub open spec fn is_sounding(v: VoiceSlot) -> bool {
    v.stage != EnvelopeStage::Idle
}

/// Number of sounding voices in `s`.
pub open spec fn count_sounding(s: Seq<VoiceSlot>) -> nat
    decreases s.len(),
{
    if s.len() == 0 {
        0
    } else {
        count_sounding(s.drop_last()) + if is_sounding(s.last()) { 1nat } else { 0nat }
    }
}

/// Abstract state of a voice pool: its slots and the generation counter,
/// which advances with every note-on.
pub struct PoolModel {
    pub slots: Seq<VoiceSlot>,
    pub generation: u64,
}

impl PoolModel {
    /// The pool has a voice, and no voice started after the current generation.
    pub open spec fn wf(self) -> bool {
        &&& self.slots.len() > 0
        &&& forall|i: int| 0 <= i < self.slots.len() ==> #[trigger] self.slots[i].started <= self.generation
    }

    /// How many generations ago voice `i` was triggered: the larger, the older.
    pub open spec fn age(self, i: int) -> int {
        self.generation - self.slots[i].started
    }

    /// The first voice at or after `i` that is not sounding, or the number
    /// of voices if there is none.
    pub open spec fn first_free_from(self, i: int) -> int
        decreases self.slots.len() - i,
    {
        if i < 0 || i >= self.slots.len() {
            self.slots.len() as int
        } else if !is_sounding(self.slots[i]) {
            i
        } else {
            self.first_free_from(i + 1)
        }
    }

    /// The first voice of greatest age among voices `0 .. k`.
    pub open spec fn oldest_among(self, k: int) -> int
        decreases k,
    {
        if k <= 1 {
            0
        } else {
            let j = self.oldest_among(k - 1);
            if self.age(k - 1) > self.age(j) {
                k - 1
            } else {
                j
            }
        }
    }

    /// The voice that a note-on takes: the first free one, or else the
    /// oldest, which is stolen.
    pub open spec fn choice(self) -> int {
        let f = self.first_free_from(0);
        if f < self.slots.len() {
            f
        } else {
            self.oldest_among(self.slots.len() as int)
        }
    }

    /// The generation after a note-on; it stops at the largest `u64`.
    pub open spec fn next_generation(self) -> u64 {
        if self.generation < u64::MAX {
            (self.generation + 1) as u64
        } else {
            self.generation
        }
    }

    /// The pool after a note-on: the chosen voice restarts from Attack on
    /// the new note, as the newest voice.
    pub open spec fn note_on(self, note: u8) -> PoolModel {
        PoolModel {
            slots: self.slots.update(
                self.choice(),
                VoiceSlot { stage: EnvelopeStage::Attack, note, started: self.next_generation() },
            ),
            generation: self.next_generation(),
        }
    }

    /// Whether a note-off for `note` releases voice `i`.
    pub open spec fn releases(self, i: int, note: u8) -> bool {
        is_sounding(self.slots[i]) && self.slots[i].note == note
    }

    /// The pool after a note-off: every sounding voice on that note moves
    /// to Release.
    pub open spec fn note_off(self, note: u8) -> PoolModel {
        PoolModel {
            slots: Seq::new(
                self.slots.len(),
                |i: int|
                    if self.releases(i, note) {
                        VoiceSlot {
                            stage: EnvelopeStage::Release,
                            note: self.slots[i].note,
                            started: self.slots[i].started,
                        }
                    } else {
                        self.slots[i]
                    },
            ),
            generation: self.generation,
        }
    }

    /// The pool after voice `i` processed one sample; `reached` tells
    /// whether its envelope hit the current stage's target.
    pub open spec fn after_sample(self, i: int, reached: bool) -> PoolModel {
        PoolModel {
            slots: self.slots.update(
                i,
                VoiceSlot {
                    stage: stage_after_sample(self.slots[i].stage, reached),
                    note: self.slots[i].note,
                    started: self.slots[i].started,
                },
            ),
            generation: self.generation,
        }
    }
}

proof fn lemma_first_free_skip(m: PoolModel, a: int, i: int)
    requires
        0 <= a <= i <= m.slots.len(),
        forall|j: int| a <= j < i ==> is_sounding(#[trigger] m.slots[j]),
    ensures
        m.first_free_from(a) == m.first_free_from(i),
    decreases i - a,
{
    if a < i {
        lemma_first_free_skip(m, a + 1, i);
    }
}

proof fn lemma_count_prefix(s: Seq<VoiceSlot>, i: int)
    requires
        0 <= i < s.len(),
    ensures
        count_sounding(s.take(i + 1)) == count_sounding(s.take(i)) + if is_sounding(s[i]) { 1nat } else { 0nat },
{
    assert(s.take(i + 1).drop_last() =~= s.take(i));
}

proof fn lemma_count_sounding_bounds(s: Seq<VoiceSlot>, k: nat)
    requires
        k <= s.len(),
        forall|j: int| 0 <= j < s.len() ==> (is_sounding(#[trigger] s[j]) <==> j < k),
    ensures
        count_sounding(s) == k,
    decreases s.len(),
{
    if s.len() > 0 {
        let p = s.drop_last();
        if k == s.len() {
            lemma_count_sounding_bounds(p, (k - 1) as nat);
        } else {
            lemma_count_sounding_bounds(p, k);
        }
    }
}

proof fn lemma_first_free_props(m: PoolModel, a: int)
    requires
        0 <= a <= m.slots.len(),
    ensures
        a <= m.first_free_from(a) <= m.slots.len(),
        m.first_free_from(a) < m.slots.len() ==> !is_sounding(m.slots[m.first_free_from(a)]),
        m.first_free_from(a) == m.slots.len() ==> forall|j: int|
            a <= j < m.slots.len() ==> is_sounding(#[trigger] m.slots[j]),
    decreases m.slots.len() - a,
{
    if a < m.slots.len() && is_sounding(m.slots[a]) {
        lemma_first_free_props(m, a + 1);
    }
}

proof fn lemma_oldest_is_max(m: PoolModel, k: int)
    requires
        1 <= k <= m.slots.len(),
    ensures
        0 <= m.oldest_among(k) < k,
        forall|j: int| 0 <= j < k ==> #[trigger] m.age(j) <= m.age(m.oldest_among(k)),
    decreases k,
{
    if k > 1 {
        lemma_oldest_is_max(m, k - 1);
    }
}

proof fn lemma_count_update(s: Seq<VoiceSlot>, i: int, v: VoiceSlot)
    requires
        0 <= i < s.len(),
    ensures
        count_sounding(s.update(i, v)) + (if is_sounding(s[i]) { 1int } else { 0int })
            == count_sounding(s) + (if is_sounding(v) { 1int } else { 0int }),
    decreases s.len(),
{
    let t = s.update(i, v);
    if i == s.len() - 1 {
        assert(t.drop_last() =~= s.drop_last());
    } else {
        assert(t.drop_last() =~= s.drop_last().update(i, v));
        lemma_count_update(s.drop_last(), i, v);
    }
}

proof fn lemma_count_below_len(s: Seq<VoiceSlot>)
    ensures
        count_sounding(s) <= s.len(),
        (exists|j: int| 0 <= j < s.len() && !is_sounding(#[trigger] s[j])) ==> count_sounding(s) < s.len(),
    decreases s.len(),
{
    if s.len() > 0 {
        let p = s.drop_last();
        lemma_count_below_len(p);
        if exists|j: int| 0 <= j < s.len() && !is_sounding(#[trigger] s[j]) {
            let j = choose|j: int| 0 <= j < s.len() && !is_sounding(#[trigger] s[j]);
            if j < s.len() - 1 {
                assert(!is_sounding(p[j]));
            }
        }
    }
}

/// A pool of `n` voices, all Idle, at generation 0.
pub open spec fn fresh_pool(n: nat) -> PoolModel {
    PoolModel {
        slots: Seq::new(n, |_i: int| VoiceSlot { stage: EnvelopeStage::Idle, note: 0, started: 0 }),
        generation: 0,
    }
}

/// The pool after a note-on for each of `notes`, first to last.
pub open spec fn after_note_ons(p: PoolModel, notes: Seq<u8>) -> PoolModel
    decreases notes.len(),
{
    if notes.len() == 0 {
        p
    } else {
        after_note_ons(p, notes.drop_last()).note_on(notes.last())
    }
}

proof fn lemma_filling_shape(n: nat, notes: Seq<u8>)
    requires
        0 < n < u64::MAX,
        notes.len() <= n,
    ensures
        after_note_ons(fresh_pool(n), notes).slots.len() == n,
        after_note_ons(fresh_pool(n), notes).generation == notes.len(),
        forall|i: int|
            0 <= i < n ==> (is_sounding(#[trigger] after_note_ons(fresh_pool(n), notes).slots[i])
                <==> i < notes.len()),
        forall|i: int|
            0 <= i < notes.len() ==> #[trigger] after_note_ons(fresh_pool(n), notes).slots[i]
                == (VoiceSlot { stage: EnvelopeStage::Attack, note: notes[i], started: (i + 1) as u64 }),
    decreases notes.len(),
{
    if notes.len() > 0 {
        let k = notes.len() - 1;
        let prefix = notes.drop_last();
        lemma_filling_shape(n, prefix);
        let p = after_note_ons(fresh_pool(n), prefix);
        lemma_first_free_skip(p, 0, k);
        assert(p.first_free_from(k) == k);
        assert(p.choice() == k);
    }
}

proof fn lemma_oldest_is_first(p: PoolModel, k: int)
    requires
        1 <= k <= p.slots.len(),
        forall|i: int, j: int| 0 <= i < j < p.slots.len() ==> p.slots[i].started < p.slots[j].started,
    ensures
        p.oldest_among(k) == 0,
    decreases k,
{
    if k > 1 {
        lemma_oldest_is_first(p, k - 1);
        assert(p.slots[0].started < p.slots[k - 1].started);
    }
}

/// Voice stealing: in a pool of `n` voices, `n + 1` note-ons leave exactly
/// `n` voices sounding, and the last one steals voice 0, the first
/// triggered, whose age is the greatest of all.
pub proof fn lemma_voice_stealing(n: nat, notes: Seq<u8>)
    requires
        0 < n < u64::MAX,
        notes.len() == n + 1,
    ensures
        ({
            let before = after_note_ons(fresh_pool(n), notes.drop_last());
            let after = after_note_ons(fresh_pool(n), notes);
            &&& count_sounding(before.slots) == n
            &&& count_sounding(after.slots) == n
            &&& before.choice() == 0
            &&& forall|j: int| 0 <= j < n ==> #[trigger] before.age(j) <= before.age(0)
            &&& after.slots[0].note == notes.last()
            &&& after.slots[0].stage == EnvelopeStage::Attack
        }),
{
    let prefix = notes.drop_last();
    lemma_filling_shape(n, prefix);
    let before = after_note_ons(fresh_pool(n), prefix);
    lemma_count_sounding_bounds(before.slots, n);
    lemma_first_free_skip(before, 0, n as int);
    lemma_oldest_is_first(before, n as int);
    assert(before.choice() == 0);
    let after = after_note_ons(fresh_pool(n), notes);
    assert(after == before.note_on(notes.last()));
    assert forall|j: int| 0 <= j < n implies (is_sounding(#[trigger] after.slots[j]) <==> j < n) by {
        if j != 0 {
            assert(after.slots[j] == before.slots[j]);
        }
    }
    lemma_count_sounding_bounds(after.slots, n);
    assert forall|j: int| 0 <= j < n implies #[trigger] before.age(j) <= before.age(0) by {
        assert(before.slots[j].started == j + 1);
    }
}

/// A note-off followed by the sample on which the release reaches 0.0
/// leaves the voice Idle, hence free; when every voice before it is
/// sounding, the next note-on reuses it and retriggers it from Attack.
pub proof fn lemma_release_then_reuse(p: PoolModel, note: u8, i: int, next: u8)
    requires
        p.wf(),
        0 <= i < p.slots.len(),
        is_sounding(p.slots[i]),
        p.slots[i].note == note,
    ensures
        p.note_off(note).slots[i].stage == EnvelopeStage::Release,
        p.note_off(note).after_sample(i, true).slots[i].stage == EnvelopeStage::Idle,
        (forall|j: int| 0 <= j < i ==> is_sounding(#[trigger] p.slots[j])) ==> ({
            let q = p.note_off(note).after_sample(i, true);
            &&& q.choice() == i
            &&& q.note_on(next).slots[i].stage == EnvelopeStage::Attack
            &&& q.note_on(next).slots[i].note == next
        }),
{
    let q = p.note_off(note).after_sample(i, true);
    if forall|j: int| 0 <= j < i ==> is_sounding(#[trigger] p.slots[j]) {
        assert forall|j: int| 0 <= j < i implies is_sounding(#[trigger] q.slots[j]) by {
            assert(is_sounding(p.slots[j]));
        }
        lemma_first_free_skip(q, 0, i);
    }
}

/// A fixed set of voices: which are sounding, on which note, and how old.
pub struct VoicePool {
    slots: Vec<VoiceSlot>,
    generation: u64,
}

impl VoicePool {
    /// The slots and the generation counter.
    pub closed spec fn view(&self) -> PoolModel {
        PoolModel { slots: self.slots@, generation: self.generation }
    }

    /// See `PoolModel::wf`.
    pub open spec fn wf(&self) -> bool {
        self@.wf()
    }

    /// A pool of `voice_count` idle voices.
    pub fn new(voice_count: usize) -> (r: VoicePool)
        requires
            voice_count > 0,
        ensures
            r.wf(),
            r@ == fresh_pool(voice_count as nat),
    {
        let mut slots: Vec<VoiceSlot> = Vec::with_capacity(voice_count);
        let mut i: usize = 0;
        while i < voice_count
            invariant
                i <= voice_count,
                slots@ =~= fresh_pool(i as nat).slots,
            decreases voice_count - i,
        {
            slots.push(VoiceSlot { stage: EnvelopeStage::Idle, note: 0, started: 0 });
            i = i + 1;
        }
        VoicePool { slots, generation: 0 }
    }

    /// Number of voices.
    pub fn voice_count(&self) -> (r: usize)
        ensures
            r == self@.slots.len(),
    {
        self.slots.len()
    }

    /// What the pool keeps of voice `i`.
    pub fn slot(&self, i: usize) -> (r: VoiceSlot)
        requires
            i < self@.slots.len(),
        ensures
            r == self@.slots[i as int],
    {
        self.slots[i]
    }

    /// The envelope stage of voice `i`.
    pub fn stage(&self, i: usize) -> (r: EnvelopeStage)
        requires
            i < self@.slots.len(),
        ensures
            r == self@.slots[i as int].stage,
    {
        self.slots[i].stage
    }

    /// Whether voice `i` is sounding.
    pub fn is_active(&self, i: usize) -> (r: bool)
        requires
            i < self@.slots.len(),
        ensures
            r == is_sounding(self@.slots[i as int]),
    {
        self.slots[i].stage.is_active()
    }

    /// How many generations ago voice `i` was triggered.
    pub fn age(&self, i: usize) -> (r: u64)
        requires
            self.wf(),
            i < self@.slots.len(),
        ensures
            r == self@.age(i as int),
    {
        self.generation - self.slots[i].started
    }

    /// Number of sounding voices.
    pub fn active_count(&self) -> (r: usize)
        ensures
            r == count_sounding(self@.slots),
    {
        let ghost s = self.slots@;
        let mut count: usize = 0;
        let mut i: usize = 0;
        while i < self.slots.len()
            invariant
                s == self.slots@,
                i <= s.len(),
                count <= i,
                count == count_sounding(s.take(i as int)),
            decreases s.len() - i,
        {
            proof {
                lemma_count_prefix(s, i as int);
            }
            if self.slots[i].stage.is_active() {
                count = count + 1;
            }
            i = i + 1;
        }
        assert(s.take(s.len() as int) =~= s);
        count
    }

    /// The voice that a note-on would take now: the first free one, or,
    /// when all are sounding, the first of greatest age.
    pub fn choose_voice(&self) -> (r: usize)
        requires
            self.wf(),
        ensures
            r == self@.choice(),
            r < self@.slots.len(),
    {
        let n = self.slots.len();
        let mut i: usize = 0;
        while i < n
            invariant
                n == self@.slots.len(),
                i <= n,
                forall|j: int| 0 <= j < i ==> is_sounding(#[trigger] self@.slots[j]),
            decreases n - i,
        {
            if !self.slots[i].stage.is_active() {
                proof {
                    lemma_first_free_skip(self@, 0, i as int);
                }
                return i;
            }
            i = i + 1;
        }
        proof {
            lemma_first_free_skip(self@, 0, n as int);
        }
        let mut best: usize = 0;
        let mut k: usize = 1;
        while k < n
            invariant
                n == self@.slots.len(),
                1 <= k <= n,
                best < k,
                best == self@.oldest_among(k as int),
            decreases n - k,
        {
            if self.slots[k].started < self.slots[best].started {
                best = k;
            }
            k = k + 1;
        }
        best
    }

    /// Starts `note` on the first free voice, or steals the oldest voice
    /// when none is free. Returns the voice taken, which restarts from
    /// Attack as the newest voice.
    pub fn note_on(&mut self, note: u8) -> (r: usize)
        requires
            old(self).wf(),
        ensures
            final(self).wf(),
            r == old(self)@.choice(),
            r < old(self)@.slots.len(),
            final(self)@ == old(self)@.note_on(note),
            (exists|j: int| 0 <= j < old(self)@.slots.len() && !is_sounding(#[trigger] old(self)@.slots[j]))
                ==> !is_sounding(old(self)@.slots[r as int]),
            (forall|j: int| 0 <= j < old(self)@.slots.len() ==> is_sounding(#[trigger] old(self)@.slots[j]))
                ==> forall|j: int| 0 <= j < old(self)@.slots.len() ==> #[trigger] old(self)@.age(j) <= old(self)@.age(r as int),
            count_sounding(final(self)@.slots) == if count_sounding(old(self)@.slots) < old(self)@.slots.len() {
                count_sounding(old(self)@.slots) + 1
            } else {
                old(self)@.slots.len() as nat
            },
    {
        proof {
            lemma_first_free_props(self@, 0);
            lemma_oldest_is_max(self@, self@.slots.len() as int);
            lemma_count_below_len(self@.slots);
            if forall|j: int| 0 <= j < self@.slots.len() ==> is_sounding(#[trigger] self@.slots[j]) {
                lemma_count_sounding_bounds(self@.slots, self@.slots.len());
            }
            lemma_count_update(
                self@.slots,
                self@.choice(),
                VoiceSlot { stage: EnvelopeStage::Attack, note, started: self@.next_generation() },
            );
        }
        let idx = self.choose_voice();
        if self.generation < u64::MAX {
            self.generation = self.generation + 1;
        }
        let started = self.generation;
        self.slots.set(idx, VoiceSlot { stage: EnvelopeStage::Attack, note, started });
        idx
    }

    /// Releases every sounding voice that plays `note`. Returns, for each
    /// voice, whether it was released.
    pub fn note_off(&mut self, note: u8) -> (r: Vec<bool>)
        requires
            old(self).wf(),
        ensures
            final(self).wf(),
            final(self)@ == old(self)@.note_off(note),
            r@.len() == old(self)@.slots.len(),
            forall|i: int| 0 <= i < r@.len() ==> r@[i] == #[trigger] old(self)@.releases(i, note),
    {
        let ghost start = self@;
        let ghost goal = start.note_off(note);
        let n = self.slots.len();
        let mut released: Vec<bool> = Vec::with_capacity(n);
        let mut i: usize = 0;
        while i < n
            invariant
                n == start.slots.len(),
                goal == start.note_off(note),
                goal.slots.len() == n,
                self@.slots.len() == n,
                self.generation == start.generation,
                i <= n,
                released@.len() == i,
                forall|j: int| 0 <= j < i ==> released@[j] == #[trigger] start.releases(j, note),
                forall|j: int| 0 <= j < i ==> #[trigger] self@.slots[j] == goal.slots[j],
                forall|j: int| i <= j < n ==> #[trigger] self@.slots[j] == start.slots[j],
            decreases n - i,
        {
            let v = self.slots[i];
            let hit = v.stage.is_active() && v.note == note;
            if hit {
                self.slots.set(i, VoiceSlot { stage: EnvelopeStage::Release, note: v.note, started: v.started });
            }
            assert(self@.slots[i as int] == goal.slots[i as int]);
            released.push(hit);
            i = i + 1;
        }
        assert(self@.slots =~= goal.slots);
        released
    }

    /// Records one processed sample of voice `i`: `reached` tells whether
    /// its envelope hit the current stage's target.
    pub fn after_sample(&mut self, i: usize, reached: bool)
        requires
            old(self).wf(),
            i < old(self)@.slots.len(),
        ensures
            final(self).wf(),
            final(self)@ == old(self)@.after_sample(i as int, reached),
    {
        let v = self.slots[i];
        let stage = v.stage.after_sample(reached);
        self.slots.set(i, VoiceSlot { stage, note: v.note, started: v.started });
    }
}

} // verus!
