//! The logic of Streaming Simulator, an audio plugin for the master channel that
//! emulates how streaming platforms, Bluetooth and FM radio compress and degrade
//! audio: which codec a tier stands for, how a block of host audio travels
//! through resamplers, rings and codecs, what latency is reported, and what the
//! editor does on a click.
//!
//! Samples are held as the bit patterns of 32-bit floats (`sample`). Codecs that
//! run in floating point or behind C interfaces are called from outside: a
//! processor says what it wants done (an action) and takes back what came of it
//! (an event), until its block is finished.

pub mod editor;
pub mod laws;
pub mod params;
pub mod platforms;
pub mod processor;
pub mod recolor;
pub mod rounding;
pub mod sample;
pub mod simulator;
