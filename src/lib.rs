//! Discrete core of a polyphonic synthesizer: waveform selectors, the
//! envelope stage machine, voice allocation and stealing, ring-buffer delay
//! lines, effect routing and the LFO's pseudo-random generator.
pub mod delay_line;
pub mod envelope;
pub mod random;
pub mod routing;
pub mod voice_pool;
pub mod waveform;
