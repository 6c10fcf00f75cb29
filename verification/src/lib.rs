//! Cycling through audio-effect presets and physical audio sinks.
//!
//! The library decides; it runs no process and prints nothing. A caller hands
//! it what the settings store and the audio server wrote, and gets back the
//! preset or sink to switch to and the line to show.
//!
//! - [`easyeffects`] finds the active preset in a list of presets and steps to
//!   the next one.
//! - [`audiosink`] picks the physical sinks out of the server's listing, finds
//!   the default sink among them and steps to the next one.
//! - [`cli`] tells from the arguments of a run which of these is asked for.
//! - [`cycle`] says what "the next one" means, and proves that stepping on
//!   comes back to where it began.
//! - [`json`] and [`text`] read what the other programs wrote.

pub mod audiosink;
pub mod cli;
pub mod cycle;
pub mod easyeffects;
pub mod error;
pub mod json;
pub mod text;
