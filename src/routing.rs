use vstd::prelude::*;

verus! {

/// Output tap of the state-variable filter.
#[derive(Clone, Copy, Debug, PartialEq, Eq, Structural)]
pub enum FilterMode {
    Lowpass,
    Highpass,
    Bandpass,
}

/// A filter-mode setting bounded to the three known codes.
pub open spec fn clamped_mode_code(code: u8) -> u8 {
    if code <= 2 {
        code
    } else {
        2
    }
}

/// The tap that a stored mode code selects: 1 highpass, 2 bandpass, any
/// other lowpass.
pub open spec fn filter_mode_of(code: u8) -> FilterMode {
    if code == 1 {
        FilterMode::Highpass
    } else if code == 2 {
        FilterMode::Bandpass
    } else {
        FilterMode::Lowpass
    }
}

/// Bounds a filter-mode setting to 0, 1 or 2; a code above 2 selects
/// bandpass.
pub fn clamp_mode_code(code: u8) -> (r: u8)
    ensures
        r == clamped_mode_code(code),
        r <= 2,
{
    if code <= 2 {
        code
    } else {
        2
    }
}

impl FilterMode {
    /// Decodes a stored mode code.
    pub fn from_code(code: u8) -> (r: FilterMode)
        ensures
            r == filter_mode_of(code),
    {
        match code {
            1 => FilterMode::Highpass,
            2 => FilterMode::Bandpass,
            _ => FilterMode::Lowpass,
        }
    }
}

/// Bounding a filter-mode setting twice gives what bounding it once gives,
/// and a code already in range is kept.
pub proof fn lemma_mode_clamp_idempotent(code: u8)
    ensures
        clamped_mode_code(clamped_mode_code(code)) == clamped_mode_code(code),
        code <= 2 ==> clamped_mode_code(code) == code,
{
}

/// One stage of the post-mix chain.
#[derive(Clone, Copy, Debug, PartialEq, Eq, Structural)]
pub enum EffectStage {
    Filter,
    Flanger,
    Tremolo,
    Delay,
    Reverb,
}

/// Which stages of the post-mix chain are switched on.
#[derive(Clone, Copy, Debug, PartialEq, Eq, Structural)]
pub struct EffectRouting {
    pub filter: bool,
    pub flanger: bool,
    pub tremolo: bool,
    pub delay: bool,
    pub reverb: bool,
}

/// `s` followed by `x` if `on`, else `s` alone.
pub open spec fn push_if(s: Seq<EffectStage>, on: bool, x: EffectStage) -> Seq<EffectStage> {
    if on {
        s.push(x)
    } else {
        s
    }
}

impl EffectRouting {
    /// The enabled stages in their fixed order: filter, flanger, tremolo,
    /// delay, reverb.
    pub open spec fn chain(self) -> Seq<EffectStage> {
        push_if(
            push_if(
                push_if(
                    push_if(push_if(Seq::empty(), self.filter, EffectStage::Filter), self.flanger, EffectStage::Flanger),
                    self.tremolo,
                    EffectStage::Tremolo,
                ),
                self.delay,
                EffectStage::Delay,
            ),
            self.reverb,
            EffectStage::Reverb,
        )
    }

    /// Every stage switched off.
    pub fn new() -> (r: EffectRouting)
        ensures
            r.chain().len() == 0,
            !r.filter && !r.flanger && !r.tremolo && !r.delay && !r.reverb,
    {
        EffectRouting { filter: false, flanger: false, tremolo: false, delay: false, reverb: false }
    }

    /// The stages that each sample passes through, in order.
    pub fn stages(&self) -> (r: Vec<EffectStage>)
        ensures
            r@ == self.chain(),
    {
        let mut r: Vec<EffectStage> = Vec::new();
        if self.filter {
            r.push(EffectStage::Filter);
        }
        if self.flanger {
            r.push(EffectStage::Flanger);
        }
        if self.tremolo {
            r.push(EffectStage::Tremolo);
        }
        if self.delay {
            r.push(EffectStage::Delay);
        }
        if self.reverb {
            r.push(EffectStage::Reverb);
        }
        r
    }
}

} // verus!
