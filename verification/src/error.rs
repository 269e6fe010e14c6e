//! The application's error: what a request handler fails with.
use vstd::prelude::*;

use crate::{api, model};

pub mod internal;

verus! {

/// The error a request handler returns.
#[derive(Debug, PartialEq, Eq)]
pub enum Error {
    /// An error of the HTTP layer.
    ApiError(api::Error),
    /// An error of the model layer.
    ModelError(model::Error),
    /// The request conflicts with existing state; the text is safe to send back.
    Conflict(String),
}

} // verus!
