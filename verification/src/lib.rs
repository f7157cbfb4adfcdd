//! A real-time audio rendering core: sample-accurate event scheduling, a
//! planar audio buffer, musical-time conversion, a lock-free control
//! transport, and a polyphonic pulse-wave synthesizer.
//!
//! All amplitudes, levels, gains and duty cycles are fixed-point integers in
//! millionths (`UNIT`), so the whole render path is exact integer arithmetic.

pub mod buffer;
pub mod clock;
pub mod control;
pub mod envelope;
pub mod events;
pub mod graph;
pub mod id;
pub mod node;
pub mod note;
pub mod sample;
pub mod surface;
pub mod synth;
pub mod tick;
pub mod voice;
