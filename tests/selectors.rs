use rust_dsp::envelope::EnvelopeStage;
use rust_dsp::routing::{clamp_mode_code, EffectRouting, EffectStage, FilterMode};
use rust_dsp::waveform::{LfoWaveform, Waveform};

#[test]
fn waveform_codes_select_each_variant() {
    assert_eq!(Waveform::from_code(0), Waveform::Sine);
    assert_eq!(Waveform::from_code(1), Waveform::Sawtooth);
    assert_eq!(Waveform::from_code(2), Waveform::Square);
    assert_eq!(Waveform::from_code(3), Waveform::Triangle);
    assert_eq!(Waveform::from_code(4), Waveform::FM);
    assert_eq!(Waveform::from_code(5), Waveform::Piano);
}

#[test]
fn unknown_waveform_code_falls_back_to_sine() {
    assert_eq!(Waveform::from_code(6), Waveform::Sine);
    assert_eq!(Waveform::from_code(255), Waveform::Sine);
}

#[test]
fn waveform_code_round_trips() {
    for code in 0u8..6 {
        assert_eq!(Waveform::from_code(code).code(), code);
    }
    assert_eq!(Waveform::from_code(Waveform::from_code(9).code()), Waveform::from_code(9));
}

#[test]
fn lfo_waveform_codes() {
    assert_eq!(LfoWaveform::from_code(0), LfoWaveform::Sine);
    assert_eq!(LfoWaveform::from_code(1), LfoWaveform::Triangle);
    assert_eq!(LfoWaveform::from_code(2), LfoWaveform::Square);
    assert_eq!(LfoWaveform::from_code(3), LfoWaveform::SampleHold);
    assert_eq!(LfoWaveform::from_code(4), LfoWaveform::Sine);
    for code in 0u8..4 {
        assert_eq!(LfoWaveform::from_code(code).code(), code);
    }
}

#[test]
fn filter_mode_clamps_to_bandpass() {
    assert_eq!(clamp_mode_code(0), 0);
    assert_eq!(clamp_mode_code(1), 1);
    assert_eq!(clamp_mode_code(2), 2);
    assert_eq!(clamp_mode_code(7), 2);
    assert_eq!(clamp_mode_code(clamp_mode_code(200)), clamp_mode_code(200));
    assert_eq!(FilterMode::from_code(clamp_mode_code(9)), FilterMode::Bandpass);
    assert_eq!(FilterMode::from_code(1), FilterMode::Highpass);
    assert_eq!(FilterMode::from_code(0), FilterMode::Lowpass);
}

#[test]
fn effect_chain_keeps_fixed_order() {
    let mut routing = EffectRouting::new();
    assert!(routing.stages().is_empty());
    routing.reverb = true;
    routing.filter = true;
    routing.tremolo = true;
    assert_eq!(
        routing.stages(),
        vec![EffectStage::Filter, EffectStage::Tremolo, EffectStage::Reverb]
    );
    routing.flanger = true;
    routing.delay = true;
    assert_eq!(
        routing.stages(),
        vec![
            EffectStage::Filter,
            EffectStage::Flanger,
            EffectStage::Tremolo,
            EffectStage::Delay,
            EffectStage::Reverb
        ]
    );
}

#[test]
fn envelope_stage_cycle() {
    let s = EnvelopeStage::Idle.gate_on();
    assert_eq!(s, EnvelopeStage::Attack);
    assert_eq!(s.after_sample(false), EnvelopeStage::Attack);
    let s = s.after_sample(true);
    assert_eq!(s, EnvelopeStage::Decay);
    let s = s.after_sample(true);
    assert_eq!(s, EnvelopeStage::Sustain);
    assert_eq!(s.after_sample(true), EnvelopeStage::Sustain);
    let s = s.gate_off();
    assert_eq!(s, EnvelopeStage::Release);
    assert!(s.is_active());
    assert_eq!(s.after_sample(false), EnvelopeStage::Release);
    let s = s.after_sample(true);
    assert_eq!(s, EnvelopeStage::Idle);
    assert!(!s.is_active());
    assert_eq!(s.after_sample(true), EnvelopeStage::Idle);
}

#[test]
fn gate_off_on_idle_is_a_no_op() {
    assert_eq!(EnvelopeStage::Idle.gate_off(), EnvelopeStage::Idle);
    assert_eq!(EnvelopeStage::Attack.gate_off(), EnvelopeStage::Release);
    assert_eq!(EnvelopeStage::Decay.gate_off(), EnvelopeStage::Release);
    assert_eq!(EnvelopeStage::Release.gate_on(), EnvelopeStage::Attack);
}
