//! Verified core of a shortcut artwork synchronizer.
//!
//! Given the game shortcuts of each local user and the image files already on
//! disk, the library decides which artwork is missing, tracks resolved
//! provider search identifiers in a persistent cache, plans the bulk image
//! queries, pairs the provider's positional responses with their requests,
//! and produces the list of downloads to perform.  All I/O (network calls,
//! file reads and writes) is performed by the surrounding application, which
//! feeds plain values into these verified functions.

pub mod batch;
pub mod cache;
pub mod gate;
pub mod gog;
pub mod images;
pub mod need;
pub mod pipeline;
pub mod shortcut;
pub mod text;
pub mod uplay;
