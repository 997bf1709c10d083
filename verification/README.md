# Streaming Simulator

An audio plugin for the master channel that emulates how streaming platforms,
Bluetooth and FM radio compress and degrade audio. The plugin's logic is a
library verified with Verus.

## Layout

- `src/`: the verified library.
  - `simulator`: the plugin itself. Host configuration, latency, bypass, codec
    switching, and the route of a block.
  - `platforms`, `params`: the catalog of tiers, and the plugin's parameters.
  - `processor`: one module per codec family (Opus, Vorbis, MP3, AAC, HE-AAC,
    FM radio, Bluetooth) over a shared resampled pipeline and its rings.
  - `sample`, `rounding`: 32-bit float samples as bit patterns, with exact
    quantisation and arithmetic.
  - `editor`: the editor's state machine, and icon fitting.
  - `recolor`: the icon recolouring rule.
- `tests/`: the library's tests.
- `app/`: the nih-plug plugin around the library. Resamplers, libopus,
  libvorbis, minimp3, libsbc, the floating-point FM stages, and egui.

## How a block travels

A processor never calls a floating-point stage. It hands its caller an action
("resample this chunk", "code this frame") and is called again with the event
that came of it, until the block is done. FDK-AAC, LAME, LC3, the PNG decoder
and encoder and the image resizer are called by the library itself, through
small wrappers whose contracts are trusted: `processor/fdk.rs`,
`processor/lame.rs`, `processor/bluetooth/lc3_calls.rs`, `editor/icons.rs` and
`recolor.rs`.
