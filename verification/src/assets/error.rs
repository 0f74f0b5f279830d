//! Errors of the asset layer.

use vstd::prelude::*;

verus! {

/// `serde_json::Error`, carried through unread inside [`AssetError::ParseJson`].
#[verifier::external_type_specification]
#[verifier::external_body]
pub struct ExJsonError(serde_json::Error);

/// Why a registry could not be loaded or an asset could not be located.
#[allow(inconsistent_fields)]
#[derive(Debug)]
pub enum AssetError {
    /// Fetching `url` failed; `reason` is the transport's own message.
    Fetch { url: String, reason: String },
    /// Writing `path` failed; `reason` is the file system's own message.
    WriteFile { path: String, reason: String },
    /// A document could not be parsed; `what` says which one.
    ParseJson { what: String, source: serde_json::Error },
    /// The npm route catalog has a schema this build does not read.
    UnsupportedNpmRoutesSchema { expected: u32, found: u32 },
    /// The npm route catalog belongs to another asset release.
    NpmRoutesVersionMismatch { expected: String, found: String },
    /// A depot of the index has no npm package.
    MissingNpmRoute { depot: String },
    /// The client has no npm package for an asset directory.
    UnroutedAsset { asset_path: String },
    /// Every built-in source failed.
    SourcesUnavailable {
        production: Box<AssetError>,
        pages: Box<AssetError>,
        jsdelivr: Box<AssetError>,
    },
    /// The source probes went away without an answer.
    SourceProbeInterrupted,
}

} // verus!
