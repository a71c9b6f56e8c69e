use rust_dsp::envelope::EnvelopeStage;
use rust_dsp::voice_pool::VoicePool;

#[test]
fn eleventh_note_steals_oldest_voice() {
    let mut pool = VoicePool::new(10);
    assert_eq!(pool.active_count(), 0);
    for (k, note) in (60u8..70).enumerate() {
        assert_eq!(pool.note_on(note), k);
        assert_eq!(pool.active_count(), k + 1);
    }
    let oldest = (0..10).max_by_key(|&i| (pool.age(i), std::cmp::Reverse(i))).unwrap();
    assert_eq!(oldest, 0);
    assert_eq!(pool.age(0), 9);
    assert_eq!(pool.choose_voice(), 0);
    assert_eq!(pool.note_on(70), 0);
    assert_eq!(pool.active_count(), 10);
    assert_eq!(pool.slot(0).note, 70);
    assert_eq!(pool.stage(0), EnvelopeStage::Attack);
    assert_eq!(pool.age(0), 0);
    // the next steal takes the voice that is now oldest
    assert_eq!(pool.note_on(71), 1);
}

#[test]
fn free_voice_preferred_over_stealing() {
    let mut pool = VoicePool::new(3);
    pool.note_on(40);
    pool.note_on(41);
    pool.note_on(42);
    let released = pool.note_off(41);
    assert_eq!(released, vec![false, true, false]);
    pool.after_sample(1, true);
    assert!(!pool.is_active(1));
    assert_eq!(pool.note_on(43), 1);
}

#[test]
fn note_off_releases_then_idles_voice() {
    let mut pool = VoicePool::new(10);
    let v = pool.note_on(60);
    pool.note_on(64);
    let released = pool.note_off(60);
    assert_eq!(released.len(), 10);
    assert!(released[v]);
    assert_eq!(released.iter().filter(|&&b| b).count(), 1);
    assert_eq!(pool.stage(v), EnvelopeStage::Release);
    for _ in 0..100 {
        pool.after_sample(v, false);
    }
    assert_eq!(pool.stage(v), EnvelopeStage::Release);
    pool.after_sample(v, true);
    assert_eq!(pool.stage(v), EnvelopeStage::Idle);
    assert!(!pool.is_active(v));
    assert_eq!(pool.active_count(), 1);
    assert_eq!(pool.note_on(67), v);
    assert_eq!(pool.stage(v), EnvelopeStage::Attack);
}

#[test]
fn note_off_without_match_is_silent() {
    let mut pool = VoicePool::new(4);
    pool.note_on(50);
    let released = pool.note_off(51);
    assert_eq!(released, vec![false; 4]);
    assert_eq!(pool.active_count(), 1);
    assert_eq!(pool.note_off(69), vec![false; 4]);
}

#[test]
fn note_off_releases_every_voice_on_that_note() {
    let mut pool = VoicePool::new(4);
    pool.note_on(60);
    pool.note_on(62);
    pool.note_on(60);
    assert_eq!(pool.note_off(60), vec![true, false, true, false]);
    assert_eq!(pool.stage(0), EnvelopeStage::Release);
    assert_eq!(pool.stage(1), EnvelopeStage::Attack);
    assert_eq!(pool.stage(2), EnvelopeStage::Release);
}

#[test]
fn voice_stage_advances_per_sample() {
    let mut pool = VoicePool::new(2);
    let v = pool.note_on(60);
    pool.after_sample(v, true);
    assert_eq!(pool.stage(v), EnvelopeStage::Decay);
    pool.after_sample(v, true);
    assert_eq!(pool.stage(v), EnvelopeStage::Sustain);
    assert_eq!(pool.voice_count(), 2);
}
