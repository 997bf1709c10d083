//! Real-time codec processors.
//!
//! Each codec family has its own processor with its own ring-buffer
//! pipeline. Switching codec families (e.g., Spotify Vorbis -> YouTube Opus)
//! swaps audio pipelines and is **not** glitch-free; switching within a
//! family (e.g., between Opus bitrates) stays on the same pipeline.
//!
//! ### Latency strategy
//!
//! Each processor gives the worst-case pipeline delay (in host samples) for a
//! sample rate. The plugin takes the maximum and has every processor pre-fill
//! its output ring with that many silent samples, so all pipelines have the
//! same effective delay and codec switches don't trigger delay-compensation
//! re-ticks.

pub mod aac;
pub mod bluetooth;
pub mod fdk;
pub mod fdk_chain;
pub mod fm_mpx;
pub mod fm_radio;
pub mod frames;
pub mod heaac;
pub mod heaacv2;
pub mod lame;
pub mod mp3;
pub mod opus;
pub mod pipeline;
pub mod pump;
pub mod rings;
pub mod vorbis;
