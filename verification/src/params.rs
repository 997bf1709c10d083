//! The host-automatable parameters as plain values.

use crate::platforms::Codec;
use crate::processor::bluetooth::BluetoothProtocol;
use vstd::prelude::*;

verus! {

#[derive(Clone, Copy, PartialEq, Eq, Structural, Debug)]
pub struct StreamingSimulatorParams {
    /// The selected codec tier.
    pub codec: Codec,
    /// Latency-matched dry signal instead of any codec.
    pub bypass: bool,
    /// Bluetooth roundtrip on top of the platform codec.
    pub bluetooth_enabled: bool,
    pub bluetooth_protocol: BluetoothProtocol,
}

/// A new value for one parameter.
#[derive(Clone, Copy, PartialEq, Eq, Structural, Debug)]
pub enum ParamChange {
    Codec(Codec),
    Bypass(bool),
    BluetoothEnabled(bool),
    BluetoothProtocol(BluetoothProtocol),
}

impl Default for StreamingSimulatorParams {
    fn default() -> (r: StreamingSimulatorParams)
        ensures
            r == (StreamingSimulatorParams {
                codec: Codec::SpotifyHigh,
                bypass: false,
                bluetooth_enabled: false,
                bluetooth_protocol: BluetoothProtocol::SbcHigh,
            }),
    {
        StreamingSimulatorParams {
            codec: Codec::SpotifyHigh,
            bypass: false,
            bluetooth_enabled: false,
            bluetooth_protocol: BluetoothProtocol::SbcHigh,
        }
    }
}

impl StreamingSimulatorParams {
    pub open spec fn spec_with(self, change: ParamChange) -> StreamingSimulatorParams {
        match change {
            ParamChange::Codec(codec) => StreamingSimulatorParams { codec, ..self },
            ParamChange::Bypass(bypass) => StreamingSimulatorParams { bypass, ..self },
            ParamChange::BluetoothEnabled(bluetooth_enabled) => StreamingSimulatorParams {
                bluetooth_enabled,
                ..self
            },
            ParamChange::BluetoothProtocol(bluetooth_protocol) => StreamingSimulatorParams {
                bluetooth_protocol,
                ..self
            },
        }
    }

    /// The parameters after a change.
    #[verifier::when_used_as_spec(spec_with)]
    pub fn with(self, change: ParamChange) -> (r: StreamingSimulatorParams)
        ensures
            r == self.spec_with(change),
    {
        match change {
            ParamChange::Codec(codec) => StreamingSimulatorParams { codec, ..self },
            ParamChange::Bypass(bypass) => StreamingSimulatorParams { bypass, ..self },
            ParamChange::BluetoothEnabled(bluetooth_enabled) => StreamingSimulatorParams {
                bluetooth_enabled,
                ..self
            },
            ParamChange::BluetoothProtocol(bluetooth_protocol) => StreamingSimulatorParams {
                bluetooth_protocol,
                ..self
            },
        }
    }
}

}
