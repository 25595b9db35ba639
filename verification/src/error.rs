use vstd::prelude::*;

verus! {

/// The kinds of failure the library and its callers distinguish. Every error
/// is surfaced immediately to the invocation's top level; none is retried.
#[derive(Clone, Copy, Debug, PartialEq, Eq, Structural)]
pub enum Error {
    /// Network or HTTP failure reaching the manifest or archive endpoint.
    Transport,
    /// Local filesystem failure (create a directory, open or write a file,
    /// read a stream).
    Io,
    /// A non-blank manifest line with fewer than two whitespace-delimited
    /// fields.
    ManifestParse,
    /// The archive container could not be opened or read.
    ArchiveFormat,
    /// No descriptor in the manifest matches the requested identifier
    /// substring.
    VersionNotFound,
    /// A downstream subprocess could not be launched.
    ExternalCommand,
    /// An archive entry whose stripped path would land outside the
    /// destination directory.
    UnsafePath,
    /// An archive entry of a kind the extractor does not support (a link).
    UnsupportedEntry,
}

} // verus!
