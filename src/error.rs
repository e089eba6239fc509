use vstd::prelude::*;

verus! {

/// Errors of the engine.
#[derive(Debug, Clone, PartialEq, Eq)]
pub enum MirrorError {
    /// The configuration document is inconsistent.
    Config(String),
    /// The command line is inconsistent (a certificate without its key, ...).
    CmdLine(String),
    /// The local crate tree is in the legacy layout and no override is set.
    LegacyLayoutUnsupported,
    /// The identification sent with every request holds invalid characters.
    InvalidIdentification,
    /// The remote index could not be reached.
    IndexUnavailable,
    /// The local index copy cannot be fast-forwarded cleanly.
    IndexCorrupt,
    /// A download ran out of attempts; the string is its destination.
    DownloadFailed(String),
}

} // verus!
