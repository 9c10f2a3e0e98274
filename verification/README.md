# ctrl_eqip

Control library for an edge AI node that detects people with a camera and
drives equipment (a fan) on a microcontroller over a framed binary protocol.

- `src/` — the verified library (Verus):
  - `protocol/messages.rs` — message types, payload encoding and decoding;
  - `protocol/codec.rs` — framing with CRC-8/SMBUS, the streaming decoder and
    its laws (round trip, noise skipping, partial frames, CRC errors, progress);
  - `logic/presence.rs` — presence state and disappearance timeout;
  - `logic/fusion.rs`, `logic/distance.rs` — person selection, distance categories;
  - `engine/camera.rs` — camera configuration, source selection, horizontal flip;
  - `transport/` — the `Transport` trait and serial-port selection.
- `app/` — the runtime around it: camera capture (nokhwa), ONNX inference (ort),
  the threaded pipeline, floating-point geometry, serial/UDP transports, C API.
- `tests/` — tests of the library.
