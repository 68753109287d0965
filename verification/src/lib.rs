//! Streaming amplitude-shift-keying (ASK) modulation over a fixed carrier.
//!
//! The crate turns a byte buffer into a phase-continuous stream of quantized
//! carrier samples: a precomputed carrier lookup table stands in for runtime
//! trigonometry, a bit-stream view exposes the bytes least-significant-bit
//! first, a modulation engine emits one gain-scaled sample per call while
//! advancing the table cursor by a stride coprime to the table length, and a
//! buffer-composition layer drains finished sample segments into fixed-size
//! destination buffers without losing phase or bit alignment.

pub mod bits;
pub mod carrier;
pub mod compose;
pub mod config;
pub mod error;
pub mod math;
pub mod modulator;

pub use bits::BitSequence;
pub use carrier::CarrierTable;
pub use compose::{WaveReader, WaveWriter, WriteStatus};
pub use config::Config;
pub use error::{ModemError, ModemResult};
pub use modulator::{BitModulator, ByteModulator, ModulatorState, WaveGenerator};
