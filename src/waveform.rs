use vstd::prelude::*;

verus! {

/// Oscillator waveform, selected by a code from 0 to 5.
#[derive(Clone, Copy, Debug, PartialEq, Eq, Structural)]
pub enum Waveform {
    Sine,
    Sawtooth,
    Square,
    Triangle,
    FM,
    Piano,
}

/// The oscillator waveform that a selector code stands for; unknown codes
/// select `Sine`.
pub open spec fn waveform_of(code: u8) -> Waveform {
    if code == 1 {
        Waveform::Sawtooth
    } else if code == 2 {
        Waveform::Square
    } else if code == 3 {
        Waveform::Triangle
    } else if code == 4 {
        Waveform::FM
    } else if code == 5 {
        Waveform::Piano
    } else {
        Waveform::Sine
    }
}

/// The selector code of an oscillator waveform.
pub open spec fn waveform_code(w: Waveform) -> u8 {
    match w {
        Waveform::Sine => 0,
        Waveform::Sawtooth => 1,
        Waveform::Square => 2,
        Waveform::Triangle => 3,
        Waveform::FM => 4,
        Waveform::Piano => 5,
    }
}

impl Waveform {
    /// Decodes a selector code; any code above 5 falls back to `Sine`.
    pub fn from_code(code: u8) -> (r: Waveform)
        ensures
            r == waveform_of(code),
    {
        match code {
            1 => Waveform::Sawtooth,
            2 => Waveform::Square,
            3 => Waveform::Triangle,
            4 => Waveform::FM,
            5 => Waveform::Piano,
            _ => Waveform::Sine,
        }
    }

    /// The selector code of this waveform.
    pub fn code(&self) -> (r: u8)
        ensures
            r == waveform_code(*self),
            r <= 5,
    {
        match self {
            Waveform::Sine => 0,
            Waveform::Sawtooth => 1,
            Waveform::Square => 2,
            Waveform::Triangle => 3,
            Waveform::FM => 4,
            Waveform::Piano => 5,
        }
    }
}

/// LFO waveform, selected by a code from 0 to 3.
#[derive(Clone, Copy, Debug, PartialEq, Eq, Structural)]
pub enum LfoWaveform {
    Sine,
    Triangle,
    Square,
    SampleHold,
}

/// The LFO waveform that a selector code stands for; unknown codes select
/// `Sine`.
pub open spec fn lfo_waveform_of(code: u8) -> LfoWaveform {
    if code == 1 {
        LfoWaveform::Triangle
    } else if code == 2 {
        LfoWaveform::Square
    } else if code == 3 {
        LfoWaveform::SampleHold
    } else {
        LfoWaveform::Sine
    }
}

/// The selector code of an LFO waveform.
pub open spec fn lfo_waveform_code(w: LfoWaveform) -> u8 {
    match w {
        LfoWaveform::Sine => 0,
        LfoWaveform::Triangle => 1,
        LfoWaveform::Square => 2,
        LfoWaveform::SampleHold => 3,
    }
}

impl LfoWaveform {
    /// Decodes a selector code; any code above 3 falls back to `Sine`.
    pub fn from_code(code: u8) -> (r: LfoWaveform)
        ensures
            r == lfo_waveform_of(code),
    {
        match code {
            1 => LfoWaveform::Triangle,
            2 => LfoWaveform::Square,
            3 => LfoWaveform::SampleHold,
            _ => LfoWaveform::Sine,
        }
    }

    /// The selector code of this waveform.
    pub fn code(&self) -> (r: u8)
        ensures
            r == lfo_waveform_code(*self),
            r <= 3,
    {
        match self {
            LfoWaveform::Sine => 0,
            LfoWaveform::Triangle => 1,
            LfoWaveform::Square => 2,
            LfoWaveform::SampleHold => 3,
        }
    }
}

/// Selecting an oscillator waveform by its own code gives it back, and
/// selecting by the code of a selection gives the same selection again.
pub proof fn lemma_waveform_selection_round_trip(w: Waveform, code: u8)
    ensures
        waveform_of(waveform_code(w)) == w,
        waveform_of(waveform_code(waveform_of(code))) == waveform_of(code),
        code <= 5 ==> waveform_code(waveform_of(code)) == code,
{
}

/// Selecting an LFO waveform by its own code gives it back, and selecting by
/// the code of a selection gives the same selection again.
pub proof fn lemma_lfo_waveform_selection_round_trip(w: LfoWaveform, code: u8)
    ensures
        lfo_waveform_of(lfo_waveform_code(w)) == w,
        lfo_waveform_of(lfo_waveform_code(lfo_waveform_of(code))) == lfo_waveform_of(code),
        code <= 3 ==> lfo_waveform_code(lfo_waveform_of(code)) == code,
{
}

} // verus!
