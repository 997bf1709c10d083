//! What the processors do to the sound, stated on samples, channels and tiers
//! themselves.

pub mod aac;
pub mod bluetooth;
pub mod catalog;
pub mod editor;
pub mod fm;
pub mod host;
pub mod lc3;
pub mod mono;
pub mod mp3;
pub mod opus;
pub mod pipeline;
pub mod routing;
pub mod sbc;
pub mod tuning;
pub mod vorbis;
