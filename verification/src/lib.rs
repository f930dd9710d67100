//! Verified control logic of the BDD+ overdrive plugin: the per-channel
//! filter-state bank of the DSP engine, the host-side decisions taken before a
//! block of audio is processed, the editor's interaction and display rules, and
//! the decoding of the editor's background picture.

pub mod background;
pub mod channel_bank;
pub mod editor;
pub mod host;
