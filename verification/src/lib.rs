//! Keeps an X11 clipboard and a Wayland clipboard in step.
//!
//! When one clipboard changes, its contents are written to the other. This crate makes every
//! decision on the way: which of the offered formats to read, when a change is only the echo of an
//! earlier transfer, and what exactly to write. It reads the clock to do so. Running programs,
//! talking to the display servers, waiting and printing are left to the program around it.
pub mod clock;
pub mod command;
pub mod digest;
pub mod display;
pub mod encoding;
pub mod log;
pub mod numerals;
pub mod outside;
pub mod rules;
pub mod state;
pub mod text;
pub mod transfer;
pub mod uri;
pub mod watch;
