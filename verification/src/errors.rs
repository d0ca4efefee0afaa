//! The error taxonomy of the hot-reload pipeline.
//!
//! Every failure of resolving, compiling or watching shader sources is
//! recoverable at the service boundary: none of these values ever aborts the
//! host, they are stored and displayed instead.

use crate::bytes::clone_bytes;
use vstd::prelude::*;

verus! {

/// Spec-level mirror of [`ShaderError`], carrying byte sequences instead of
/// byte vectors so that contracts can speak of it.
pub enum ErrV {
    /// A root or include file was missing or unreadable.
    SourceRead { path: Seq<u8>, cause: Seq<u8> },
    /// An include directive named a file that the source set does not hold.
    IncludeNotFound { path: Seq<u8> },
    /// A file includes itself, directly or through other files.
    IncludeCycle { path: Seq<u8> },
    /// The GPU driver rejected the preprocessed source; the log is its
    /// diagnostic text, verbatim.
    Compile { log: Seq<u8> },
    /// The file watcher could not be started on the dependency set.
    WatchSetup { detail: Seq<u8> },
}

/// Everything that can go wrong while resolving, compiling or watching
/// shader sources.
#[derive(Debug, Clone)]
pub enum ShaderError {
    /// A root or include file was missing or unreadable.
    SourceRead { path: Vec<u8>, cause: Vec<u8> },
    /// An include directive named a file that the source set does not hold.
    IncludeNotFound { path: Vec<u8> },
    /// A file includes itself, directly or through other files.
    IncludeCycle { path: Vec<u8> },
    /// The GPU driver rejected the preprocessed source; the log is its
    /// diagnostic text, verbatim.
    Compile { log: Vec<u8> },
    /// The file watcher could not be started on the dependency set.
    WatchSetup { detail: Vec<u8> },
}

impl View for ShaderError {
    type V = ErrV;

    open spec fn view(&self) -> ErrV {
        match self {
            ShaderError::SourceRead { path, cause } => ErrV::SourceRead {
                path: path@,
                cause: cause@,
            },
            ShaderError::IncludeNotFound { path } => ErrV::IncludeNotFound { path: path@ },
            ShaderError::IncludeCycle { path } => ErrV::IncludeCycle { path: path@ },
            ShaderError::Compile { log } => ErrV::Compile { log: log@ },
            ShaderError::WatchSetup { detail } => ErrV::WatchSetup { detail: detail@ },
        }
    }
}

impl ShaderError {
    /// A fresh copy with the same spec value, for keeping an error while
    /// also returning it.
    pub fn duplicate(&self) -> (r: ShaderError)
        ensures
            r@ == self@,
    {
        match self {
            ShaderError::SourceRead { path, cause } => ShaderError::SourceRead {
                path: clone_bytes(path),
                cause: clone_bytes(cause),
            },
            ShaderError::IncludeNotFound { path } => ShaderError::IncludeNotFound {
                path: clone_bytes(path),
            },
            ShaderError::IncludeCycle { path } => ShaderError::IncludeCycle {
                path: clone_bytes(path),
            },
            ShaderError::Compile { log } => ShaderError::Compile { log: clone_bytes(log) },
            ShaderError::WatchSetup { detail } => ShaderError::WatchSetup {
                detail: clone_bytes(detail),
            },
        }
    }
}

} // verus!
