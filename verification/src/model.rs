//! Database entities and the errors of the model layer, as plain values.
use vstd::prelude::*;

use crate::error::internal;
use crate::logger::{Level, Module};
use crate::Loggable;

verus! {

/// Which section of the client an asset belongs to.
#[derive(Debug, Clone, Copy, PartialEq, Eq, Structural)]
pub enum AssetTag {
    /// Metadata of the gallery.
    GalleryMeta,
    /// A media file of the gallery.
    GalleryItem,
    /// Metadata of the drive.
    DriveMeta,
    /// A file of the drive.
    DriveItem,
}

/// The tag that a path segment names: `"0"` to `"3"`, in declaration order.
pub open spec fn spec_tag_of(s: Seq<char>) -> Option<AssetTag> {
    if s == seq!['0'] {
        Some(AssetTag::GalleryMeta)
    } else if s == seq!['1'] {
        Some(AssetTag::GalleryItem)
    } else if s == seq!['2'] {
        Some(AssetTag::DriveMeta)
    } else if s == seq!['3'] {
        Some(AssetTag::DriveItem)
    } else {
        None
    }
}

/// The number a tag is stored as.
pub open spec fn spec_tag_code(t: AssetTag) -> i32 {
    match t {
        AssetTag::GalleryMeta => 0,
        AssetTag::GalleryItem => 1,
        AssetTag::DriveMeta => 2,
        AssetTag::DriveItem => 3,
    }
}

impl AssetTag {
    /// Parses a tag from its path segment.
    pub fn try_from(value: &str) -> (r: Result<Self, ()>)
        ensures
            r matches Ok(t) ==> spec_tag_of(value@) == Some(t),
            r is Err ==> spec_tag_of(value@) is None,
    {
        if value.unicode_len() != 1 {
            proof {
                assert(value@ != seq!['0']);
                assert(value@ != seq!['1']);
                assert(value@ != seq!['2']);
                assert(value@ != seq!['3']);
            }
            return Err(());
        }
        let c = value.get_char(0);
        proof {
            assert(value@ == seq![c]) by {
                assert(value@ =~= seq![c]);
            }
        }
        if c == '0' {
            Ok(AssetTag::GalleryMeta)
        } else if c == '1' {
            Ok(AssetTag::GalleryItem)
        } else if c == '2' {
            Ok(AssetTag::DriveMeta)
        } else if c == '3' {
            Ok(AssetTag::DriveItem)
        } else {
            proof {
                assert(seq![c] != seq!['0']) by { assert(seq![c][0] != seq!['0'][0]); }
                assert(seq![c] != seq!['1']) by { assert(seq![c][0] != seq!['1'][0]); }
                assert(seq![c] != seq!['2']) by { assert(seq![c][0] != seq!['2'][0]); }
                assert(seq![c] != seq!['3']) by { assert(seq![c][0] != seq!['3'][0]); }
            }
            Err(())
        }
    }

    /// The number the tag is stored as in the database.
    pub fn code(&self) -> (r: i32)
        ensures
            r == spec_tag_code(*self),
    {
        match self {
            AssetTag::GalleryMeta => 0,
            AssetTag::GalleryItem => 1,
            AssetTag::DriveMeta => 2,
            AssetTag::DriveItem => 3,
        }
    }
}

/// A registered user: an identity hash and an authentication verifier, never a password.
#[derive(Debug)]
pub struct User {
    /// The row id.
    pub id: i64,
    /// The hash of the user's public identity.
    pub identity_hash: [u8; 32],
    /// The verifier the client derived for authentication.
    pub auth_verifier: String,
}

/// A failure reported by the database driver, as the model layer sees it.
#[derive(Debug, PartialEq, Eq)]
pub struct DbFailure {
    /// The driver's description of the failure.
    pub message: String,
    /// Whether the failure is a uniqueness violation.
    pub unique_violation: bool,
}

/// Errors of the model layer.
#[derive(Debug, PartialEq, Eq)]
pub enum Error {
    /// The database reported a failure.
    Database(DbFailure),
    /// The asset record does not exist.
    AssetNotFound,
    /// A low-level internal failure.
    Internal(internal::Error),
}

/// The HTTP status and body a model error is answered with.
pub open spec fn spec_model_response(e: &Error) -> (u16, Seq<char>) {
    match e {
        Error::AssetNotFound => (404, "Asset not found in database"@),
        _ => (500, "Internal Server Error"@),
    }
}

impl Error {
    /// The HTTP status and body this error is answered with: only a missing asset is reported as
    /// such, every other failure is hidden behind a generic server error.
    pub fn into_response(&self) -> (r: (u16, &'static str))
        ensures
            (r.0, r.1@) == spec_model_response(self),
    {
        match self {
            Error::AssetNotFound => (404, "Asset not found in database"),
            _ => (500, "Internal Server Error"),
        }
    }
}

impl Loggable for Error {
    /// A missing asset is routine, a database failure an error, an internal failure fatal.
    fn log_level(&self) -> (r: Level)
        ensures
            r == match self {
                Error::AssetNotFound => Level::Info,
                Error::Internal(_) => Level::Fatal,
                Error::Database(_) => Level::Error,
            },
    {
        match self {
            Error::AssetNotFound => Level::Info,
            Error::Internal(_) => Level::Fatal,
            Error::Database(_) => Level::Error,
        }
    }

    /// Model errors come from the database layer.
    fn log_module(&self) -> (r: Module)
        ensures
            r == Module::Database,
    {
        Module::Database
    }
}

} // verus!
