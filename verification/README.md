# audio_2_dmx

An audio-to-DMX bridge: it captures audio, splits the spectrum into bars,
lets lighting effects react to the bars, and sends the resulting DMX frames
as Art-Net to an OLA daemon. A small HTTP API changes the live settings
(the current show, the FFT size).

## Layout

- `src/` — the verified library (Verus):
  - `selection.rs` — command-line device mode, device keys of the interactive picker;
  - `effects.rs` — effects, suites, and how their channel writes compose into a frame;
  - `spectrum.rs` — which prefix-sum entries make up a spectrum slice;
  - `presets.rs` — bar ranges and the built-in shows;
  - `artnet.rs` — the ArtDmx packet and the 512-channel universe of a frame;
  - `control.rs` — per-frame decisions of the audio loop;
  - `ola.rs` — the bring-up sequence of the OLA daemon.
- `app/` — the program around it: audio capture and FFT (`cpal`, `realfft`),
  the floating-point measurements, the HTTP server (`axum`, `tokio`), JSON,
  sockets and processes.
- `tests/` — tests of the library.
