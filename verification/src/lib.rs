//! Byte-to-waveform encoder for an O-QPSK direct-sequence-spread-spectrum
//! transmitter driven by a tiny two-phase waveform engine.
//!
//! A message (bytes, or a hex string) is spread into 2-bit DSSS chips, offset
//! for O-QPSK, oversampled to the transmit clock, shaped into high/low pulse
//! segments, coalesced into polarity runs, clamped to the hardware's minimum
//! pulse width, unary-encoded for the engine's loop-decrement program, and
//! packed into 32-bit instruction words.

pub mod chips;
pub mod command;
pub mod config;
pub mod driver;
pub mod encode;
pub mod interleave;
pub mod level;
pub mod merge;
pub mod oversample;
pub mod pack;
pub mod pipeline;
pub mod shape;
pub mod spread;

pub use level::Level;
