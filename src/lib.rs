//! A verified core for tracking a local collection of installable games:
//! entry normalisation, the in-memory record store operations and the
//! decisions of the download engine.
pub mod text;
pub mod tags;
pub mod entry;
pub mod error;
pub mod store;
pub mod download;
pub mod size;
