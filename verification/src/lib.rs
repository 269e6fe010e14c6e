//! Verified core of the Kosh log viewer and storage server.
use vstd::prelude::*;

pub mod api;
pub mod app;
pub mod color;
pub mod config;
pub mod entry;
pub mod error;
pub mod filter;
pub mod height;
pub mod input;
pub mod list;
pub mod logger;
pub mod model;
pub mod pairing;
pub mod text;
pub mod ui;

pub use error::Error;
pub use logger::{Level, Module};

verus! {

/// An error that declares its own log severity and the module it comes from.
pub trait Loggable {
    /// The severity this error is logged with.
    fn log_level(&self) -> Level;

    /// The server module this error belongs to.
    fn log_module(&self) -> Module;
}

} // verus!
