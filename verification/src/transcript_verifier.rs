//! The verifier's transcript state: reads scalars back from the wire
//! transcript, observes them exactly as the prover did, samples the same
//! challenges, and checks proof-of-work grinding.
use vstd::prelude::*;

use crate::duplex_challenger::ChallengerModel;
use crate::duplex_challenger::DuplexChallenger;
use crate::duplex_challenger::debug_text_of;
use crate::duplex_challenger::grind_block;
use crate::duplex_challenger::grind_ok;
use crate::duplex_challenger::init_model;
use crate::duplex_challenger::model_wf;
use crate::duplex_challenger::observe_chunks;
use crate::duplex_challenger::observe_model;
use crate::duplex_challenger::prefix;
use crate::duplex_challenger::sample_bits_out;
use crate::duplex_challenger::squeeze_model;
use crate::duplex_challenger::squeeze_out;
use crate::duplex_challenger::zeros;
use crate::errors::ProofError;
use crate::prover::coeff_seqs;
use crate::prover::path_view;
use crate::prover::queue_view;
use crate::prover::sample_seq;
use crate::prover::squeeze_n;
use crate::ChallengeSampler;
use crate::ChallengerState;
use crate::ExtensionScalar;
use crate::Proof;
use crate::felts_ok;
use crate::hints_wf;
use crate::FIELD_BITS;
use crate::RATE;

verus! {

/// The mathematical state of a verifier transcript.
#[verifier::ext_equal]
pub ghost struct VerifierModel {
    pub challenger: ChallengerModel,
    pub transcript: Seq<u64>,
    pub index: int,
    pub padded: bool,
    pub ext_dim: int,
    pub merkle_hints: Seq<Seq<Seq<u64>>>,
}

/// Well-formedness of a verifier model.
pub open spec fn verifier_wf(v: VerifierModel) -> bool {
    &&& model_wf(v.challenger)
    &&& felts_ok(v.transcript)
    &&& 0 <= v.index <= v.transcript.len()
    &&& 1 <= v.ext_dim <= RATE
    &&& hints_wf(v.merkle_hints)
}

/// The verifier after successfully reading and observing `n` base scalars.
pub open spec fn next_base_model(v: VerifierModel, n: int) -> VerifierModel {
    VerifierModel {
        challenger: observe_chunks(v.challenger, v.transcript.subrange(v.index, v.index + n)),
        index: v.index + n,
        ..v
    }
}

/// The verifier after reading `n` hint scalars: the cursor advances, the
/// sponge does not move.
pub open spec fn hint_read_model(v: VerifierModel, n: int) -> VerifierModel {
    VerifierModel { index: v.index + n, ..v }
}

/// Truth of a padded extension word having a non-zero element in its pad
/// region.
pub open spec fn pad_nonzero(block: Seq<u64>, d: int) -> bool {
    exists|j: int| d <= j < 8 && block[j] != 0
}

/// One extension-scalar read: the final state and, on success, the basis
/// coefficients.  In the padded encoding a whole vector word is read and
/// its pad region must be zero; the failure there comes after the word was
/// observed, leaving the transcript in the failing state.
pub open spec fn ext_step(v: VerifierModel) -> (VerifierModel, Option<Seq<u64>>) {
    let step: int = if v.padded {
        8
    } else {
        v.ext_dim
    };
    if v.index + step > v.transcript.len() {
        (v, None)
    } else {
        let block = v.transcript.subrange(v.index, v.index + step);
        let v2 = next_base_model(v, step);
        if v.padded && pad_nonzero(block, v.ext_dim) {
            (v2, None)
        } else {
            (v2, Some(block.take(v.ext_dim)))
        }
    }
}

/// `n` extension-scalar reads in order, stopping at the first failure.
pub open spec fn ext_read(v: VerifierModel, n: int) -> (VerifierModel, Option<Seq<Seq<u64>>>)
    decreases n,
{
    if n <= 0 {
        (v, Some(Seq::empty()))
    } else if ext_step(v).1 is None {
        (ext_step(v).0, None)
    } else {
        let rest = ext_read(ext_step(v).0, n - 1);
        if rest.1 is None {
            (rest.0, None)
        } else {
            (rest.0, Some(seq![ext_step(v).1->Some_0] + rest.1->Some_0))
        }
    }
}

/// One grinding check: the final state and the outcome.  A missing witness
/// word fails before anything moves; a wrong witness fails after the
/// witness block was observed and the bit sample consumed.
pub open spec fn pow_step(v: VerifierModel, bits: usize) -> (VerifierModel, Result<
    (),
    ProofError,
>) {
    if bits == 0 {
        (v, Ok(()))
    } else {
        let step: int = if v.padded {
            8
        } else {
            1
        };
        if v.index + step > v.transcript.len() {
            (v, Err(ProofError::ExceededTranscript))
        } else {
            let w = v.transcript[v.index];
            let v2 = VerifierModel {
                challenger: squeeze_model(observe_model(v.challenger, grind_block(w))),
                index: v.index + step,
                ..v
            };
            if grind_ok(v.challenger, w, bits) {
                (v2, Ok(()))
            } else {
                (v2, Err(ProofError::InvalidGrindingWitness))
            }
        }
    }
}

/// A verifier transcript state: a challenger, the read-only wire
/// transcript, a cursor into it, the Merkle-hint queue, and the encoding
/// mode.
pub struct VerifierState {
    challenger: DuplexChallenger,
    transcript: Vec<u64>,
    index: usize,
    padded: bool,
    ext_dim: usize,
    merkle_hints: std::collections::VecDeque<Vec<Vec<u64>>>,
}

impl View for VerifierState {
    type V = VerifierModel;

    closed spec fn view(&self) -> VerifierModel {
        VerifierModel {
            challenger: self.challenger@,
            transcript: self.transcript@,
            index: self.index as int,
            padded: self.padded,
            ext_dim: self.ext_dim as int,
            merkle_hints: queue_view(self.merkle_hints@),
        }
    }
}

impl VerifierState {
    /// Well-formedness of the verifier.
    pub open spec fn wf(&self) -> bool {
        verifier_wf(self@)
    }

    /// A fresh verifier over a zeroed sponge, reading the given proof
    /// object, for extension scalars of dimension `ext_dim`.
    pub fn new(proof: Proof, ext_dim: usize) -> (r: Self)
        requires
            1 <= ext_dim <= RATE,
            felts_ok(proof.proof_data@),
            hints_wf(queue_view(proof.merkle_hints@)),
        ensures
            r.wf(),
            r@ == (VerifierModel {
                challenger: init_model(),
                transcript: proof.proof_data@,
                index: 0,
                padded: proof.padded,
                ext_dim: ext_dim as int,
                merkle_hints: queue_view(proof.merkle_hints@),
            }),
    {
        let r = VerifierState {
            challenger: DuplexChallenger::new(),
            transcript: proof.proof_data,
            index: 0,
            padded: proof.padded,
            ext_dim,
            merkle_hints: proof.merkle_hints,
        };
        proof {
            assert(r@ =~= (VerifierModel {
                challenger: init_model(),
                transcript: r@.transcript,
                index: 0,
                padded: r@.padded,
                ext_dim: ext_dim as int,
                merkle_hints: r@.merkle_hints,
            }));
        }
        r
    }

    /// Reads the next `n` base scalars and absorbs them exactly as the
    /// prover did, in rate-sized blocks with the last block zero-padded.
    /// Fails, without moving, when fewer than `n` scalars remain.
    pub fn next_base_scalars_vec(&mut self, n: usize) -> (r: Result<Vec<u64>, ProofError>)
        requires
            old(self).wf(),
        ensures
            final(self).wf(),
            old(self)@.index + n <= old(self)@.transcript.len() ==> {
                &&& r is Ok
                &&& r->Ok_0@ == old(self)@.transcript.subrange(
                    old(self)@.index,
                    old(self)@.index + n,
                )
                &&& final(self)@ == next_base_model(old(self)@, n as int)
            },
            old(self)@.index + n > old(self)@.transcript.len() ==> {
                &&& r == Err::<Vec<u64>, ProofError>(ProofError::ExceededTranscript)
                &&& *final(self) == *old(self)
            },
    {
        let len = self.transcript.len();
        if n > len - self.index {
            return Err(ProofError::ExceededTranscript);
        }
        let ghost i0 = self@.index;
        let mut scalars: Vec<u64> = Vec::new();
        let mut k: usize = 0;
        while k < n
            invariant
                k <= n,
                self == old(self),
                old(self).wf(),
                i0 == self@.index,
                i0 + n <= len,
                len == self@.transcript.len(),
                scalars@ == self@.transcript.subrange(i0, i0 + k),
            decreases n - k,
        {
            scalars.push(self.transcript[self.index + k]);
            proof {
                assert(scalars@ =~= self@.transcript.subrange(i0, i0 + k + 1));
            }
            k = k + 1;
        }
        self.index = self.index + n;
        proof {
            assert(felts_ok(scalars@));
        }
        self.challenger.observe_chunked(&scalars);
        proof {
            assert(self@ =~= next_base_model(old(self)@, n as int));
        }
        Ok(scalars)
    }

    /// Reads the next `n` base scalars without observing them: hint data
    /// does not influence challenges.
    pub fn receive_hint_base_scalars(&mut self, n: usize) -> (r: Result<Vec<u64>, ProofError>)
        requires
            old(self).wf(),
        ensures
            final(self).wf(),
            old(self)@.index + n <= old(self)@.transcript.len() ==> {
                &&& r is Ok
                &&& r->Ok_0@ == old(self)@.transcript.subrange(
                    old(self)@.index,
                    old(self)@.index + n,
                )
                &&& final(self)@ == hint_read_model(old(self)@, n as int)
            },
            old(self)@.index + n > old(self)@.transcript.len() ==> {
                &&& r == Err::<Vec<u64>, ProofError>(ProofError::ExceededTranscript)
                &&& *final(self) == *old(self)
            },
    {
        let len = self.transcript.len();
        if n > len - self.index {
            return Err(ProofError::ExceededTranscript);
        }
        let ghost i0 = self@.index;
        let mut scalars: Vec<u64> = Vec::new();
        let mut k: usize = 0;
        while k < n
            invariant
                k <= n,
                self == old(self),
                old(self).wf(),
                i0 == self@.index,
                i0 + n <= len,
                len == self@.transcript.len(),
                scalars@ == self@.transcript.subrange(i0, i0 + k),
            decreases n - k,
        {
            scalars.push(self.transcript[self.index + k]);
            proof {
                assert(scalars@ =~= self@.transcript.subrange(i0, i0 + k + 1));
            }
            k = k + 1;
        }
        self.index = self.index + n;
        proof {
            assert(self@ =~= hint_read_model(old(self)@, n as int));
        }
        Ok(scalars)
    }

    /// Pops the next Merkle-hint path from the hint queue; fails when the
    /// queue is empty.
    pub fn receive_hint_merkle_path(&mut self) -> (r: Result<Vec<Vec<u64>>, ProofError>)
        requires
            old(self).wf(),
        ensures
            final(self).wf(),
            old(self)@.merkle_hints.len() > 0 ==> {
                &&& r is Ok
                &&& path_view(r->Ok_0) == old(self)@.merkle_hints[0]
                &&& final(self)@ == (VerifierModel {
                    merkle_hints: old(self)@.merkle_hints.skip(1),
                    ..old(self)@
                })
            },
            old(self)@.merkle_hints.len() == 0 ==> {
                &&& r == Err::<Vec<Vec<u64>>, ProofError>(ProofError::ExceededTranscript)
                &&& final(self)@ == old(self)@
            },
    {
        let ghost q0 = self.merkle_hints@;
        match self.merkle_hints.pop_front() {
            Some(p) => {
                proof {
                    assert(queue_view(self.merkle_hints@) =~= queue_view(q0).skip(1));
                    assert(self@ =~= (VerifierModel {
                        merkle_hints: old(self)@.merkle_hints.skip(1),
                        ..old(self)@
                    }));
                }
                Ok(p)
            },
            None => {
                proof {
                    assert(self@ =~= old(self)@);
                }
                Err(ProofError::ExceededTranscript)
            },
        }
    }

    /// Reads one extension scalar: a whole vector word in the padded
    /// encoding, whose pad region must be zero, or exactly the basis
    /// coefficients in the compact one.
    fn next_extension_scalar(&mut self) -> (r: Result<ExtensionScalar, ProofError>)
        requires
            old(self).wf(),
        ensures
            final(self).wf(),
            final(self)@ == ext_step(old(self)@).0,
            r is Ok ==> ext_step(old(self)@).1 == Some(r->Ok_0.coeffs@) && r->Ok_0.wf(
                old(self)@.ext_dim,
            ),
            r is Err ==> ext_step(old(self)@).1 is None && r->Err_0
                == ProofError::ExceededTranscript,
    {
        let step: usize = if self.padded {
            8
        } else {
            self.ext_dim
        };
        let d = self.ext_dim;
        match self.next_base_scalars_vec(step) {
            Err(e) => Err(e),
            Ok(block) => {
                let mut pad_ok = true;
                if self.padded {
                    let mut j: usize = d;
                    while j < 8
                        invariant
                            d <= j <= 8,
                            block@.len() == 8,
                            pad_ok == (forall|i: int| d <= i < j ==> block@[i] == 0),
                        decreases 8 - j,
                    {
                        if block[j] != 0 {
                            pad_ok = false;
                        }
                        j = j + 1;
                    }
                }
                if !pad_ok {
                    proof {
                        assert(pad_nonzero(block@, d as int));
                        assert(ext_step(old(self)@).1 is None);
                    }
                    return Err(ProofError::ExceededTranscript);
                }
                let coeffs = prefix(&block, d);
                proof {
                    assert(coeffs@ =~= ext_step(old(self)@).1->Some_0);
                }
                Ok(ExtensionScalar { coeffs })
            },
        }
    }

    /// Reads `n` extension scalars in order, stopping at the first failure
    /// and leaving the transcript in the failing state.
    pub fn next_extension_scalars_vec(&mut self, n: usize) -> (r: Result<
        Vec<ExtensionScalar>,
        ProofError,
    >)
        requires
            old(self).wf(),
        ensures
            final(self).wf(),
            final(self)@ == ext_read(old(self)@, n as int).0,
            r is Ok ==> ext_read(old(self)@, n as int).1 == Some(coeff_seqs(r->Ok_0@))
                && r->Ok_0@.len() == n && (forall|i: int|
                0 <= i < n ==> (#[trigger] r->Ok_0@[i]).wf(old(self)@.ext_dim)),
            r is Err ==> ext_read(old(self)@, n as int).1 is None && r->Err_0
                == ProofError::ExceededTranscript,
        decreases n,
    {
        if n == 0 {
            let r: Vec<ExtensionScalar> = Vec::new();
            proof {
                assert(coeff_seqs(r@) =~= Seq::<Seq<u64>>::empty());
            }
            return Ok(r);
        }
        match self.next_extension_scalar() {
            Err(e) => Err(e),
            Ok(x) => {
                let ghost d0 = old(self)@.ext_dim;
                proof {
                    assert(self@.ext_dim == d0);
                }
                match self.next_extension_scalars_vec(n - 1) {
                    Err(e) => Err(e),
                    Ok(mut v) => {
                        v.insert(0, x);
                        proof {
                            assert(coeff_seqs(v@) =~= seq![x.coeffs@] + coeff_seqs(
                                v@.skip(1),
                            ));
                            assert(coeff_seqs(v@.skip(1)) =~= ext_read(
                                ext_step(old(self)@).0,
                                n - 1,
                            ).1->Some_0);
                        }
                        Ok(v)
                    },
                }
            },
        }
    }

    /// Checks one grinding witness: reads it (word-aligned in the padded
    /// encoding), observes its block, and requires the next `bits` sampled
    /// bits to be zero.  A no-op when `bits` is zero.
    pub fn check_pow_grinding(&mut self, bits: usize) -> (r: Result<(), ProofError>)
        requires
            old(self).wf(),
            bits < FIELD_BITS,
        ensures
            final(self).wf(),
            final(self)@ == pow_step(old(self)@, bits).0,
            r == pow_step(old(self)@, bits).1,
    {
        if bits == 0 {
            return Ok(());
        }
        let step: usize = if self.padded {
            8
        } else {
            1
        };
        if step > self.transcript.len() - self.index {
            return Err(ProofError::ExceededTranscript);
        }
        let w = self.transcript[self.index];
        self.index = self.index + step;
        let mut block: Vec<u64> = Vec::new();
        block.push(w);
        let mut j: usize = 1;
        while j < 8
            invariant
                1 <= j <= 8,
                block@ == seq![w] + zeros(j - 1),
            decreases 8 - j,
        {
            block.push(0);
            proof {
                assert(block@ =~= seq![w] + zeros(j as int));
            }
            j = j + 1;
        }
        proof {
            assert(block@ =~= grind_block(w));
            assert(felts_ok(block@));
        }
        self.challenger.observe(&block);
        let s = self.challenger.sample_bits(bits);
        proof {
            assert(self@ =~= pow_step(old(self)@, bits).0);
        }
        if s != 0 {
            return Err(ProofError::InvalidGrindingWitness);
        }
        Ok(())
    }
}

impl ChallengeSampler<ExtensionScalar> for VerifierState {
    /// Sampling preserves the verifier's well-formedness.
    open spec fn sampler_wf(&self) -> bool {
        verifier_wf(self@)
    }

    /// Draws one extension-field challenge, exactly as the prover does: the
    /// first `ext_dim` elements of one squeeze.
    fn sample(&mut self) -> (r: ExtensionScalar)
        ensures
            final(self)@ == (VerifierModel {
                challenger: squeeze_model(old(self)@.challenger),
                ..old(self)@
            }),
            r.coeffs@ == squeeze_out(old(self)@.challenger).take(old(self)@.ext_dim),
            r.wf(old(self)@.ext_dim),
    {
        let out = self.challenger.sample();
        let coeffs = prefix(&out, self.ext_dim);
        proof {
            assert(self@ =~= (VerifierModel {
                challenger: squeeze_model(old(self)@.challenger),
                ..old(self)@
            }));
        }
        ExtensionScalar { coeffs }
    }

    /// Draws `len` challenges, in order, each from its own squeeze.
    fn sample_vec(&mut self, len: usize) -> (r: Vec<ExtensionScalar>)
        ensures
            final(self)@ == (VerifierModel {
                challenger: squeeze_n(old(self)@.challenger, len as int),
                ..old(self)@
            }),
            coeff_seqs(r@) == sample_seq(old(self)@.challenger, len as int, old(self)@.ext_dim),
            forall|i: int| 0 <= i < r@.len() ==> (#[trigger] r@[i]).wf(old(self)@.ext_dim),
            r@.len() == len,
    {
        let ghost v0 = self@;
        let mut r: Vec<ExtensionScalar> = Vec::new();
        let mut k: usize = 0;
        proof {
            assert(coeff_seqs(r@) =~= Seq::<Seq<u64>>::empty());
        }
        while k < len
            invariant
                k <= len,
                verifier_wf(self@),
                self@ == (VerifierModel { challenger: self@.challenger, ..v0 }),
                squeeze_n(v0.challenger, len as int) == squeeze_n(self@.challenger, len - k),
                sample_seq(v0.challenger, len as int, v0.ext_dim) == coeff_seqs(r@) + sample_seq(
                    self@.challenger,
                    len - k,
                    v0.ext_dim,
                ),
                r@.len() == k,
                forall|i: int| 0 <= i < r@.len() ==> (#[trigger] r@[i]).wf(v0.ext_dim),
            decreases len - k,
        {
            let ghost pre = self@;
            let ghost r0 = r@;
            let x = self.sample();
            r.push(x);
            proof {
                assert(coeff_seqs(r@) =~= coeff_seqs(r0) + seq![x.coeffs@]);
                assert(coeff_seqs(r0) + sample_seq(pre.challenger, len - k, v0.ext_dim)
                    =~= coeff_seqs(r@) + sample_seq(self@.challenger, len - (k + 1), v0.ext_dim));
                assert(self@ =~= (VerifierModel { challenger: self@.challenger, ..v0 }));
            }
            k = k + 1;
        }
        r
    }

    /// Draws `bits` low bits of the next challenge element.
    fn sample_bits(&mut self, bits: usize) -> (r: usize)
        ensures
            final(self)@ == (VerifierModel {
                challenger: squeeze_model(old(self)@.challenger),
                ..old(self)@
            }),
            r == sample_bits_out(old(self)@.challenger, bits),
            r < (1usize << bits),
    {
        let r = self.challenger.sample_bits(bits);
        proof {
            assert(self@ =~= (VerifierModel {
                challenger: squeeze_model(old(self)@.challenger),
                ..old(self)@
            }));
        }
        r
    }
}

impl ChallengerState for VerifierState {
    /// The text of the verifier's sponge state.
    fn state(&self) -> (r: String)
        ensures
            r@ == debug_text_of(self@.challenger.sponge),
    {
        self.challenger.state()
    }
}

} // verus!
