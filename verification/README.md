# bdd_plus

Verified core of the BDD+ overdrive audio plugin.

- `src/` (Verus): the per-channel state bank of the DSP engine
  (`channel_bank`), the host-side decisions (`host`: channel count of an output
  layout, what to do with a block), the editor's rules (`editor`: texture
  reload, slider gesture actions, value-window text) and the decoding of the
  background picture through the `image` crate (`background`).
- `app/` (plain Rust): the nih-plug plugin, its parameters, the floating-point
  signal path and the egui editor, calling the library for every decision.
- `tests/`: tests of the library.
