//! Maps the controls of a MIDI controller to desktop actions: media player
//! control, system volume, muting and the choice of audio output.
//!
//! The library decides; the program around it talks to the devices and tools.
pub mod action;
pub mod config;
pub mod daemon;
pub mod midi;
pub mod text;
pub mod ui;

pub use action::Action;
pub use config::Config;
pub use ui::AppState;
