//! Errors the verifier can report while reading a transcript.
use vstd::prelude::*;

verus! {

/// Why the verifier rejected a proof.
#[derive(Clone, Copy, Debug, PartialEq, Eq, Structural)]
pub enum ProofError {
    /// A read past the end of the proof data, a pop of an empty Merkle-hint
    /// queue, or a non-zero value in the pad region of a padded extension
    /// scalar.
    ExceededTranscript,
    /// The grinding witness in the transcript does not drive the sampled
    /// bits to zero.
    InvalidGrindingWitness,
}

} // verus!
