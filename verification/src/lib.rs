//! Frame selection for dynamic wallpapers.
//!
//! A wallpaper package bundles still frames with timing metadata. This
//! library decides which frame applies at a given instant, in which order the
//! frames are shown in a preview, what the control loop does next, and which
//! cached extractions survive a clear. Every function is verified against its
//! contract, stated over the spec functions of its module; the calls into
//! chrono in `clock` are the one exception, and their contracts are trusted.

pub mod actions;
pub mod cache;
pub mod clock;
pub mod control;
pub mod error;
pub mod metadata;
pub mod order;
pub mod selection;

