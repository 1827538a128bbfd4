//! The error taxonomy.  Every variant is terminal for the process: the
//! caller reports the failing resource and exits.

use vstd::prelude::*;

verus! {

/// A fatal condition met while loading inputs or rendering output.
///
/// The `usize` payloads carry the one-based number of the offending line
/// in the persisted configuration source.
#[derive(Clone, Copy, Debug, PartialEq, Eq, Structural)]
pub enum PassError {
    /// The word corpus could not be opened or read.
    CorpusUnavailable,
    /// The word corpus holds no words at all.
    CorpusEmpty,
    /// A configuration line does not split into exactly two fields on `=`.
    MalformedConfigLine(usize),
    /// A configuration key appears on two lines of the same source.
    DuplicateConfigKey(usize),
    /// The passphrase could not be encoded as a visual code.
    CodeRenderingUnavailable,
    /// No presentation surface could be acquired for the visual code.
    DisplayUnavailable,
}

} // verus!
