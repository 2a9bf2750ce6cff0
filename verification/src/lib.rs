//! A verified thumbnail alt-tab switcher.
//!
//! The crate holds everything the switcher decides: how the selection moves,
//! when the overlay is shown, faded and closed, which commands go to the
//! compositor, how a captured frame becomes an RGBA image, and how the strip of
//! thumbnails is laid out. Windows, overlay surfaces and capture sessions are
//! known here by number; the program around the crate keeps the objects that
//! the numbers stand for and carries out the effects that are handed back.

pub mod app;
pub mod args;
pub mod backend;
pub mod carousel;
pub mod clock;
pub mod input;
pub mod json;
pub mod laws;
pub mod message;
pub mod pixels;
pub mod step_laws;
pub mod window;
