//! Voice-Typing: types what the WhatdidIsay transcriber hears while a global
//! hotkey is active.
//!
//! * `bus_parser` — decoding of transcription broadcasts;
//! * `state_machine` — the anti-latency time window deciding which
//!   sentences are typed;
//! * `hotkey` — the combo grammar, its safety rules and the edge-triggered
//!   hotkey engine; `combo_laws` proves that displayed combos parse back;
//! * `typer` — the key presses that type a sentence;
//! * `audio` — WAV layout parsing and the resident prompt sounds;
//! * `ui` — placement of the microphone marker;
//! * `plugin` — routing of host messages and reading of host replies and
//!   configuration;
//! * `text` — character-sequence helpers (trim, split, lowercase).

pub mod audio;
pub mod bus_parser;
pub mod combo_laws;
pub mod hotkey;
pub mod plugin;
pub mod state_machine;
pub mod text;
pub mod typer;
pub mod ui;
