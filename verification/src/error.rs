use vstd::prelude::*;

verus! {

/// Failure taxonomy of the trophy pipeline.  Every error aborts the whole
/// run at the point of detection; there is no partial-result mode.
#[derive(Clone, Copy, PartialEq, Eq, Structural, Debug)]
pub enum TrophyError {
    /// Malformed request: a side text was given without a font, or a
    /// numeric argument could not be parsed.
    Config,
    /// A repository could not be opened or walked.
    Repository,
    /// A commit timestamp has no unambiguous UTC calendar date.
    Timestamp,
    /// The font produced no usable glyph geometry.
    Font,
    /// An output file could not be written.
    Io,
}

} // verus!
