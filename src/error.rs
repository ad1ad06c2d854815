use vstd::prelude::*;

verus! {

/// Everything that can stop a composition from being rendered.
#[derive(Debug, Clone, Copy, PartialEq, Eq, Structural)]
pub enum SynthError {
    /// A note names a pitch that the tone table does not hold.
    UnknownPitch,
    /// A note's length is not positive.
    InvalidDuration,
    /// A required field is missing or has the wrong shape.
    MalformedComposition,
    /// The notes of one beat do not all render to the same length.
    UnequalNoteLengths,
    /// No output sink goes by the requested name.
    UnknownBackend,
    /// The output sink could not be opened or refused samples.
    SinkFailure,
}

} // verus!
