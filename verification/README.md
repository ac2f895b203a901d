# apexshot

The logic of the ApexShot screenshot and screen-recording tool as a Verus
library. Every function in `src/` carries a `requires`/`ensures` contract;
Verus proves all of them except those of the three `external_body` wrappers
around outside code (`rqrr_grid_payloads` in `src/qr.rs`, `utf8_text` and
`push_char` in `src/recent_captures.rs`), whose contracts are believed as
their doc comments state.

- `src/pipewire_engine.rs` — video-format tables, the row-stride plan for raw
  stream buffers, conversion of BGRx/BGRA/RGBx/RGBA frames to RGBA, cursor
  placement and compositing (the per-channel blend is supplied by the
  caller), and the frame queue shared with the stream thread.
- `src/background.rs` — conversion of captures to Cairo's premultiplied
  ARGB32 layout and to packed RGBA; the size of the toolbar backdrop.
- `src/capture_menu.rs` — the capture-mode toolbar as a state machine, with
  its item geometry and labels.
- `src/monitor_picker.rs` — monitor ordering, the primary-monitor guess,
  lookup by origin, panel sizing and the picker's key and click handling.
- `src/selection.rs`, `src/overlay_click.rs`, `src/countdown.rs` — the
  selection rectangle, toolbar and recording-panel clicks, and the capture
  delay countdown.
- `src/recent_captures.rs` — which files count as captures, newest-first
  ordering, the featured capture, and the window's texts.
- `src/webcam.rs` — video-node parsing and de-duplication, preview frames.
- `src/qr.rs` — QR decoding through `rqrr`.
- `src/audio.rs`, `src/preview_launch.rs` — decisions of the audio-meter
  worker and of how the preview is launched.

`app/` holds what cannot be verified: directory and device scanning,
floating-point image work (cursor blending, blur, luminance), process
launch, and error types with `std::error::Error`. `tests/` runs the library
on concrete values.
