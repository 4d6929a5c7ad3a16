//! A Fiat–Shamir transcript engine for a zero-knowledge proof system.
//!
//! The engine keeps a duplex sponge over the KoalaBear prime field, commits
//! base- and extension-field scalars to it, derives challenges from it, and
//! supports proof-of-work grinding.  A prover writes scalars into a wire
//! transcript and observes them in the sponge; a verifier reads the same
//! transcript back, observes the same scalars, and therefore samples the
//! same challenges.
use vstd::prelude::*;

pub mod duplex_challenger;
pub mod errors;
pub mod laws;
pub mod permutation;
pub mod prover;
pub mod transcript_verifier;

pub use duplex_challenger::DuplexChallenger;
pub use errors::ProofError;
pub use prover::ProverState;
pub use transcript_verifier::VerifierState;

verus! {

/// Width of the sponge state, in field elements.
pub const WIDTH: usize = 16;

/// Size of the rate portion of the sponge state; the remaining
/// `WIDTH - RATE` elements are the capacity.
pub const RATE: usize = 8;

/// Word length of the target vector ISA; the padded wire encoding aligns
/// extension scalars and grinding witnesses to it.
pub const VLEN: usize = 8;

/// Order of the KoalaBear prime field: 2^31 - 2^24 + 1.
pub const ORDER: u64 = 0x7f000001;

/// Number of bits in the canonical representative of a field element,
/// that is the bit length of `ORDER`.
pub const FIELD_BITS: usize = 31;

/// Truth of `x` being a canonical field element.
pub open spec fn felt_ok(x: u64) -> bool {
    x < ORDER
}

/// Truth of every element of `s` being a canonical field element.
pub open spec fn felts_ok(s: Seq<u64>) -> bool {
    forall|i: int| 0 <= i < s.len() ==> s[i] < ORDER
}

/// An extension-field element of dimension `dim`, written out as its
/// canonical basis coefficients over the base field.
#[derive(Debug)]
pub struct ExtensionScalar {
    pub coeffs: Vec<u64>,
}

impl ExtensionScalar {
    /// Well-formedness: exactly `dim` coefficients, all canonical.
    pub open spec fn wf(&self, dim: int) -> bool {
        self.coeffs@.len() == dim && felts_ok(self.coeffs@)
    }

    /// Builds an extension scalar from its basis coefficients.
    pub fn new(coeffs: Vec<u64>) -> (r: Self)
        ensures
            r.coeffs == coeffs,
    {
        ExtensionScalar { coeffs }
    }
}

/// The proof object: the wire proof data, its logical size (excluding
/// alignment padding), the Merkle-hint FIFO for the higher-level protocol,
/// and the flag selecting the padded wire encoding.
pub struct Proof {
    pub proof_data: Vec<u64>,
    pub proof_size: usize,
    pub merkle_hints: std::collections::VecDeque<Vec<Vec<u64>>>,
    pub padded: bool,
}

/// Truth of every Merkle-hint path consisting of chunks of `RATE` canonical
/// field elements.
pub open spec fn hints_wf(hints: Seq<Seq<Seq<u64>>>) -> bool {
    forall|i: int, j: int|
        0 <= i < hints.len() && 0 <= j < hints[i].len() ==> (#[trigger] hints[i][j]).len() == RATE
            && felts_ok(hints[i][j])
}

/// A source of Fiat–Shamir challenges: extension-field elements, vectors of
/// them, and truncated bit samples.
pub trait ChallengeSampler<F> {
    /// Well-formedness that sampling preserves.
    spec fn sampler_wf(&self) -> bool;

    /// Draws one challenge.
    fn sample(&mut self) -> (r: F)
        requires
            old(self).sampler_wf(),
        ensures
            final(self).sampler_wf(),
    ;

    /// Draws `len` challenges in order.
    fn sample_vec(&mut self, len: usize) -> (r: Vec<F>)
        requires
            old(self).sampler_wf(),
        ensures
            final(self).sampler_wf(),
            r@.len() == len,
    ;

    /// Draws `bits` low bits of the next challenge; not perfectly uniform.
    fn sample_bits(&mut self, bits: usize) -> (r: usize)
        requires
            old(self).sampler_wf(),
            bits < FIELD_BITS,
        ensures
            final(self).sampler_wf(),
    ;
}

/// Renders the sponge state as text, for logging and for comparing prover
/// and verifier trajectories.
pub trait ChallengerState {
    /// The text of the sponge state.
    fn state(&self) -> (r: String);
}

} // verus!
