//! Verified core of a small suite of terminal tools that draw WAV waveforms
//! and YM2151 (OPM) envelopes as images and emit them as sixel graphics.

pub mod decimal;
pub mod envelope;
pub mod editor;
pub mod waveform;
pub mod sixel;
pub mod image_buffer;
