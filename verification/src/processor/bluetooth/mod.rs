//! Bluetooth codec simulation: runs *after* the platform codec to model the
//! real listening chain (streaming -> device -> BT -> headphones).
//!
//! ```text
//!   master -> platform codec -> BluetoothProcessor -> out
//! ```
//!
//! Three open codecs cover the audible BT landscape:
//! - **SBC**: universal A2DP baseline (cheap earbuds default).
//! - **AAC over A2DP**: iPhone / AirPods default; uses FDK-AAC.
//! - **LC3**: Bluetooth LE Audio (5.2+) standard.

pub mod link;
pub mod sbc;
pub mod lc3_calls;
pub mod lc3;
pub mod aac_bt;
pub mod orchestrator;

pub use aac_bt::AacBtCodec;
pub use lc3::Lc3Codec;
pub use orchestrator::{BluetoothProcessor, BluetoothProtocol};
pub use sbc::SbcCodec;
