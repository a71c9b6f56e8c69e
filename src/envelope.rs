use vstd::prelude::*;

verus! {

/// Stage of an amplitude envelope. Exactly one is current at a time.
#[derive(Clone, Copy, Debug, PartialEq, Eq, Structural)]
pub enum EnvelopeStage {
    Idle,
    Attack,
    Decay,
    Sustain,
    Release,
}

/// The stage that follows `s` in the cycle
/// Idle, Attack, Decay, Sustain, Release, Idle.
pub open spec fn cycle_next(s: EnvelopeStage) -> EnvelopeStage {
    match s {
        EnvelopeStage::Idle => EnvelopeStage::Attack,
        EnvelopeStage::Attack => EnvelopeStage::Decay,
        EnvelopeStage::Decay => EnvelopeStage::Sustain,
        EnvelopeStage::Sustain => EnvelopeStage::Release,
        EnvelopeStage::Release => EnvelopeStage::Idle,
    }
}

/// The stage after one processed sample. `reached` tells whether the
/// envelope value hit the current stage's target this sample (1.0 in
/// Attack, the sustain level in Decay, 0.0 in Release); Idle and Sustain
/// have no target and stay put.
pub open spec fn stage_after_sample(s: EnvelopeStage, reached: bool) -> EnvelopeStage {
    match s {
        EnvelopeStage::Attack => if reached { EnvelopeStage::Decay } else { s },
        EnvelopeStage::Decay => if reached { EnvelopeStage::Sustain } else { s },
        EnvelopeStage::Release => if reached { EnvelopeStage::Idle } else { s },
        _ => s,
    }
}

/// The stage after a gate-off: any sounding stage moves to Release, Idle
/// stays Idle.
pub open spec fn stage_after_gate_off(s: EnvelopeStage) -> EnvelopeStage {
    if s == EnvelopeStage::Idle {
        EnvelopeStage::Idle
    } else {
        EnvelopeStage::Release
    }
}

/// The stage after processing one sample per entry of `reached`, in order.
pub open spec fn stage_after_samples(s: EnvelopeStage, reached: Seq<bool>) -> EnvelopeStage
    decreases reached.len(),
{
    if reached.len() == 0 {
        s
    } else {
        stage_after_sample(stage_after_samples(s, reached.drop_last()), reached.last())
    }
}

/// Number of samples, among `reached`, on which a stage target was hit.
pub open spec fn hits(reached: Seq<bool>) -> nat
    decreases reached.len(),
{
    if reached.len() == 0 {
        0
    } else {
        hits(reached.drop_last()) + if reached.last() { 1nat } else { 0nat }
    }
}

impl EnvelopeStage {
    /// A gate-on (re)starts the envelope from Attack, whatever the stage.
    pub fn gate_on(&self) -> (r: EnvelopeStage)
        ensures
            r == EnvelopeStage::Attack,
    {
        EnvelopeStage::Attack
    }

    /// A gate-off releases a sounding envelope and leaves an idle one idle.
    pub fn gate_off(&self) -> (r: EnvelopeStage)
        ensures
            r == stage_after_gate_off(*self),
    {
        match self {
            EnvelopeStage::Idle => EnvelopeStage::Idle,
            _ => EnvelopeStage::Release,
        }
    }

    /// The stage after one processed sample; see `stage_after_sample`.
    pub fn after_sample(&self, reached: bool) -> (r: EnvelopeStage)
        ensures
            r == stage_after_sample(*self, reached),
    {
        match self {
            EnvelopeStage::Attack => if reached { EnvelopeStage::Decay } else { EnvelopeStage::Attack },
            EnvelopeStage::Decay => if reached { EnvelopeStage::Sustain } else { EnvelopeStage::Decay },
            EnvelopeStage::Release => if reached { EnvelopeStage::Idle } else { EnvelopeStage::Release },
            EnvelopeStage::Idle => EnvelopeStage::Idle,
            EnvelopeStage::Sustain => EnvelopeStage::Sustain,
        }
    }

    /// Whether the envelope is sounding, that is, not Idle.
    pub fn is_active(&self) -> (r: bool)
        ensures
            r == (*self != EnvelopeStage::Idle),
    {
        !matches!(self, EnvelopeStage::Idle)
    }
}

/// A processed sample either keeps the stage or moves it one step along
/// the cycle Idle, Attack, Decay, Sustain, Release, Idle; it never enters
/// Attack or Release, which only gates do.
pub proof fn lemma_sample_follows_cycle(s: EnvelopeStage, reached: bool)
    ensures
        stage_after_sample(s, reached) == s || stage_after_sample(s, reached) == cycle_next(s),
        stage_after_sample(s, reached) == EnvelopeStage::Attack ==> s == EnvelopeStage::Attack,
        stage_after_sample(s, reached) == EnvelopeStage::Release ==> s == EnvelopeStage::Release,
{
}

/// After a gate-on, the envelope is in Attack until its value first hits
/// 1.0, in Decay until it then hits the sustain level, and in Sustain from
/// then on, however many samples follow.
pub proof fn lemma_gate_on_reaches_sustain(reached: Seq<bool>)
    ensures
        stage_after_samples(EnvelopeStage::Attack, reached) == if hits(reached) == 0 {
            EnvelopeStage::Attack
        } else if hits(reached) == 1 {
            EnvelopeStage::Decay
        } else {
            EnvelopeStage::Sustain
        },
    decreases reached.len(),
{
    if reached.len() > 0 {
        lemma_gate_on_reaches_sustain(reached.drop_last());
    }
}

/// After a gate-off from a sounding stage, the envelope stays in Release
/// until its value hits 0.0, then is Idle (inactive) for good.
pub proof fn lemma_gate_off_reaches_idle(s: EnvelopeStage, reached: Seq<bool>)
    requires
        s != EnvelopeStage::Idle,
    ensures
        stage_after_samples(stage_after_gate_off(s), reached) == if hits(reached) == 0 {
            EnvelopeStage::Release
        } else {
            EnvelopeStage::Idle
        },
    decreases reached.len(),
{
    if reached.len() > 0 {
        lemma_gate_off_reaches_idle(s, reached.drop_last());
    }
}

} // verus!
