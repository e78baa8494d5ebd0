//! Audio-reactive DMX lighting: the verified core of an audio-to-DMX bridge.

pub mod selection;
pub mod effects;
pub mod spectrum;
pub mod presets;
pub mod artnet;
pub mod control;
pub mod ola;
