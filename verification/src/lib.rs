//! Keeps a saved monitor arrangement for a COSMIC desktop and decides when and
//! how to put it back after the session wakes from idle or a display is plugged in.

pub mod backoff;
pub mod reposition;
pub mod toml_doc;
pub mod monitor;
pub mod session;
pub mod positioning;
