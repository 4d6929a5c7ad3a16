//! The prover's transcript state: appends scalars to the wire transcript,
//! observes them in the sponge, samples challenges, and grinds proof-of-work
//! witnesses.
use vstd::prelude::*;

use crate::duplex_challenger::ChallengerModel;
use crate::duplex_challenger::DuplexChallenger;
use crate::duplex_challenger::debug_text_of;
use crate::duplex_challenger::grind_block;
use crate::duplex_challenger::grind_ok;
use crate::duplex_challenger::is_pow_witness;
use crate::duplex_challenger::model_wf;
use crate::duplex_challenger::init_model;
use crate::duplex_challenger::observe_chunks;
use crate::duplex_challenger::observe_model;
use crate::duplex_challenger::pad_len;
use crate::duplex_challenger::prefix;
use crate::duplex_challenger::sample_bits_out;
use crate::duplex_challenger::squeeze_model;
use crate::duplex_challenger::squeeze_out;
use crate::duplex_challenger::zeros;
use crate::ChallengeSampler;
use crate::ChallengerState;
use crate::ExtensionScalar;
use crate::Proof;
use crate::felts_ok;
use crate::hints_wf;
use crate::FIELD_BITS;
use crate::ORDER;
use crate::RATE;

verus! {

/// One Merkle-hint path, as the sequences of its chunks.
pub open spec fn path_view(p: Vec<Vec<u64>>) -> Seq<Seq<u64>> {
    p@.map_values(|c: Vec<u64>| c@)
}

/// A queue of Merkle-hint paths, as sequences.
pub open spec fn queue_view(q: Seq<Vec<Vec<u64>>>) -> Seq<Seq<Seq<u64>>> {
    q.map_values(|p: Vec<Vec<u64>>| path_view(p))
}

/// The basis coefficients of each extension scalar in a slice.
pub open spec fn coeff_seqs(xs: Seq<ExtensionScalar>) -> Seq<Seq<u64>> {
    xs.map_values(|e: ExtensionScalar| e.coeffs@)
}

/// Basis coefficients extended to a whole vector word with zeros.
pub open spec fn ext_block(e: Seq<u64>) -> Seq<u64> {
    e + zeros(8 - e.len())
}

/// The wire form of one extension scalar: its coefficients, extended to a
/// whole vector word in the padded encoding.
pub open spec fn ext_wire_one(e: Seq<u64>, padded: bool) -> Seq<u64> {
    if padded {
        ext_block(e)
    } else {
        e
    }
}

/// The wire form of a slice of extension scalars, element by element.
pub open spec fn ext_wire(es: Seq<Seq<u64>>, padded: bool) -> Seq<u64>
    decreases es.len(),
{
    if es.len() == 0 {
        Seq::empty()
    } else {
        ext_wire_one(es[0], padded) + ext_wire(es.skip(1), padded)
    }
}

/// The challenger after observing a slice of extension scalars.  Each
/// scalar feeds the sponge one zero-extended block, in both encodings, so
/// the sampled challenges cannot depend on the encoding.
pub open spec fn observe_ext(m: ChallengerModel, es: Seq<Seq<u64>>) -> ChallengerModel
    decreases es.len(),
{
    if es.len() == 0 {
        m
    } else {
        observe_ext(observe_model(m, ext_block(es[0])), es.skip(1))
    }
}

/// The concatenation of coefficient sequences, for hints.
pub open spec fn concat_seqs(es: Seq<Seq<u64>>) -> Seq<u64>
    decreases es.len(),
{
    if es.len() == 0 {
        Seq::empty()
    } else {
        es[0] + concat_seqs(es.skip(1))
    }
}

/// The challenger after `n` squeezes.
pub open spec fn squeeze_n(m: ChallengerModel, n: int) -> ChallengerModel
    decreases n,
{
    if n <= 0 {
        m
    } else {
        squeeze_n(squeeze_model(m), n - 1)
    }
}

/// The coefficient sequences of `n` sampled extension scalars of dimension
/// `d`: each takes the first `d` elements of one squeeze.
pub open spec fn sample_seq(m: ChallengerModel, n: int, d: int) -> Seq<Seq<u64>>
    decreases n,
{
    if n <= 0 {
        Seq::empty()
    } else {
        seq![squeeze_out(m).take(d)] + sample_seq(squeeze_model(m), n - 1, d)
    }
}

/// The mathematical state of a prover transcript.
#[verifier::ext_equal]
pub ghost struct ProverModel {
    pub challenger: ChallengerModel,
    pub transcript: Seq<u64>,
    pub n_zeros: int,
    pub padded: bool,
    pub ext_dim: int,
    pub merkle_hints: Seq<Seq<Seq<u64>>>,
}

/// Well-formedness of a prover model.
pub open spec fn prover_wf(p: ProverModel) -> bool {
    &&& model_wf(p.challenger)
    &&& felts_ok(p.transcript)
    &&& 0 <= p.n_zeros <= p.transcript.len()
    &&& 1 <= p.ext_dim <= RATE
    &&& hints_wf(p.merkle_hints)
}

/// How many zeros the wire encoding appends after `n` base scalars.
pub open spec fn wire_pad(n: int, padded: bool) -> int {
    if padded {
        pad_len(n)
    } else {
        0
    }
}

/// The prover after appending and observing base scalars.
pub open spec fn add_base_model(p: ProverModel, xs: Seq<u64>) -> ProverModel {
    ProverModel {
        challenger: observe_chunks(p.challenger, xs),
        transcript: p.transcript + xs + zeros(wire_pad(xs.len() as int, p.padded)),
        n_zeros: p.n_zeros + wire_pad(xs.len() as int, p.padded),
        ..p
    }
}

/// The prover after appending and observing extension scalars.
pub open spec fn add_ext_model(p: ProverModel, es: Seq<Seq<u64>>) -> ProverModel {
    ProverModel {
        challenger: observe_ext(p.challenger, es),
        transcript: p.transcript + ext_wire(es, p.padded),
        n_zeros: p.n_zeros + if p.padded {
            (RATE - p.ext_dim) * es.len()
        } else {
            0
        },
        ..p
    }
}

/// The prover after appending hint base scalars: the transcript grows, the
/// sponge does not move.
pub open spec fn hint_base_model(p: ProverModel, xs: Seq<u64>) -> ProverModel {
    ProverModel { transcript: p.transcript + xs, ..p }
}

/// The prover after one challenge draw.
pub open spec fn sample_model(p: ProverModel) -> ProverModel {
    ProverModel { challenger: squeeze_model(p.challenger), ..p }
}

/// The prover after a successful grind on witness `w`: the witness block is
/// observed, the asserting bit sample consumes the fresh buffer, and the
/// witness lands in the transcript, word-aligned in the padded encoding.
pub open spec fn pow_model(p: ProverModel, w: u64) -> ProverModel {
    ProverModel {
        challenger: squeeze_model(observe_model(p.challenger, grind_block(w))),
        transcript: p.transcript + seq![w] + zeros(
            if p.padded {
                7
            } else {
                0
            },
        ),
        n_zeros: p.n_zeros + if p.padded {
            7int
        } else {
            0int
        },
        ..p
    }
}

/// A prover transcript state: a challenger, the wire transcript being
/// appended to, the count of alignment zeros in it, the Merkle-hint queue,
/// and the encoding mode.
pub struct ProverState {
    challenger: DuplexChallenger,
    transcript: Vec<u64>,
    n_zeros: usize,
    padded: bool,
    ext_dim: usize,
    merkle_hints: std::collections::VecDeque<Vec<Vec<u64>>>,
}

impl View for ProverState {
    type V = ProverModel;

    closed spec fn view(&self) -> ProverModel {
        ProverModel {
            challenger: self.challenger@,
            transcript: self.transcript@,
            n_zeros: self.n_zeros as int,
            padded: self.padded,
            ext_dim: self.ext_dim as int,
            merkle_hints: queue_view(self.merkle_hints@),
        }
    }
}

impl ProverState {
    /// Well-formedness of the prover.
    pub open spec fn wf(&self) -> bool {
        prover_wf(self@)
    }

    /// A fresh prover over a zeroed sponge, for extension scalars of
    /// dimension `ext_dim`, writing the compact or the padded encoding.
    pub fn new(ext_dim: usize, padded: bool) -> (r: Self)
        requires
            1 <= ext_dim <= RATE,
        ensures
            r.wf(),
            r@ == (ProverModel {
                challenger: init_model(),
                transcript: Seq::empty(),
                n_zeros: 0,
                padded: padded,
                ext_dim: ext_dim as int,
                merkle_hints: Seq::empty(),
            }),
    {
        let r = ProverState {
            challenger: DuplexChallenger::new(),
            transcript: Vec::new(),
            n_zeros: 0,
            padded,
            ext_dim,
            merkle_hints: std::collections::VecDeque::new(),
        };
        proof {
            assert(r@.merkle_hints =~= Seq::<Seq<Seq<u64>>>::empty());
            assert(r@ =~= (ProverModel {
                challenger: init_model(),
                transcript: Seq::empty(),
                n_zeros: 0,
                padded: padded,
                ext_dim: ext_dim as int,
                merkle_hints: Seq::empty(),
            }));
        }
        r
    }

    /// The logical proof size: the wire length without alignment zeros.
    pub fn proof_size_fe(&self) -> (r: usize)
        requires
            self.wf(),
        ensures
            r == self@.transcript.len() - self@.n_zeros,
    {
        self.transcript.len() - self.n_zeros
    }

    /// The wire transcript written so far.
    pub fn proof_data(&self) -> (r: &Vec<u64>)
        ensures
            r@ == self@.transcript,
    {
        &self.transcript
    }

    /// Finishes the transcript into a proof object.
    pub fn into_proof(self) -> (r: Proof)
        requires
            self.wf(),
        ensures
            r.proof_data@ == self@.transcript,
            r.proof_size == self@.transcript.len() - self@.n_zeros,
            queue_view(r.merkle_hints@) == self@.merkle_hints,
            r.padded == self@.padded,
    {
        let proof_size = self.transcript.len() - self.n_zeros;
        Proof {
            proof_data: self.transcript,
            proof_size,
            merkle_hints: self.merkle_hints,
            padded: self.padded,
        }
    }

    /// Appends base scalars to the transcript and absorbs them into the
    /// sponge in rate-sized blocks, the last block zero-padded.  The padded
    /// encoding also aligns the wire data to a whole number of blocks; the
    /// zeros it appends are the same zeros the sponge absorbs, so both
    /// encodings drive the sponge identically.
    pub fn add_base_scalars(&mut self, scalars: &Vec<u64>)
        requires
            old(self).wf(),
            felts_ok(scalars@),
        ensures
            final(self).wf(),
            final(self)@ == add_base_model(old(self)@, scalars@),
    {
        let n = scalars.len();
        let mut k: usize = 0;
        while k < n
            invariant
                k <= n,
                n == scalars@.len(),
                felts_ok(scalars@),
                self.transcript@ == old(self)@.transcript + scalars@.take(k as int),
                self.challenger == old(self).challenger,
                self.n_zeros == old(self).n_zeros,
                self.padded == old(self).padded,
                self.ext_dim == old(self).ext_dim,
                self.merkle_hints == old(self).merkle_hints,
                old(self).wf(),
            decreases n - k,
        {
            self.transcript.push(scalars[k]);
            proof {
                assert(self.transcript@ =~= old(self)@.transcript + scalars@.take(k + 1));
            }
            k = k + 1;
        }
        proof {
            assert(scalars@.take(n as int) =~= scalars@);
        }
        if self.padded {
            let rem = n % 8;
            let p: usize = if rem == 0 {
                0
            } else {
                8 - rem
            };
            let mut z: usize = 0;
            while z < p
                invariant
                    z <= p,
                    p < 8,
                    self.transcript@ == old(self)@.transcript + scalars@ + zeros(z as int),
                    self.challenger == old(self).challenger,
                    self.n_zeros == old(self).n_zeros,
                    self.padded == old(self).padded,
                    self.ext_dim == old(self).ext_dim,
                    self.merkle_hints == old(self).merkle_hints,
                    old(self).wf(),
                decreases p - z,
            {
                self.transcript.push(0);
                proof {
                    assert(self.transcript@ =~= old(self)@.transcript + scalars@ + zeros(
                        z + 1,
                    ));
                }
                z = z + 1;
            }
            let total = self.transcript.len();
            proof {
                assert(self.n_zeros + p <= total);
            }
            self.n_zeros = self.n_zeros + p;
        } else {
            proof {
                assert(self.transcript@ =~= old(self)@.transcript + scalars@ + zeros(0));
            }
        }
        self.challenger.observe_chunked(scalars);
        proof {
            assert(final(self)@ =~= add_base_model(old(self)@, scalars@));
        }
    }

    /// Appends base scalars to the transcript without observing them: hint
    /// data does not influence challenges.  In the padded encoding the
    /// caller must hand over whole vector words.
    pub fn hint_base_scalars(&mut self, scalars: &Vec<u64>)
        requires
            old(self).wf(),
            felts_ok(scalars@),
            old(self)@.padded ==> scalars@.len() % 8 == 0,
        ensures
            final(self).wf(),
            final(self)@ == hint_base_model(old(self)@, scalars@),
    {
        let n = scalars.len();
        let mut k: usize = 0;
        while k < n
            invariant
                k <= n,
                n == scalars@.len(),
                felts_ok(scalars@),
                self.transcript@ == old(self)@.transcript + scalars@.take(k as int),
                self.challenger == old(self).challenger,
                self.n_zeros == old(self).n_zeros,
                self.padded == old(self).padded,
                self.ext_dim == old(self).ext_dim,
                self.merkle_hints == old(self).merkle_hints,
                old(self).wf(),
            decreases n - k,
        {
            self.transcript.push(scalars[k]);
            proof {
                assert(self.transcript@ =~= old(self)@.transcript + scalars@.take(k + 1));
            }
            k = k + 1;
        }
        proof {
            assert(scalars@.take(n as int) =~= scalars@);
            assert(final(self)@ =~= hint_base_model(old(self)@, scalars@));
        }
    }

    /// Appends one Merkle-hint path to the hint queue, without observing.
    pub fn hint_merkle_path(&mut self, path: Vec<Vec<u64>>)
        requires
            old(self).wf(),
            forall|j: int|
                0 <= j < path@.len() ==> (#[trigger] path@[j])@.len() == RATE && felts_ok(
                    path@[j]@,
                ),
        ensures
            final(self).wf(),
            final(self)@ == (ProverModel {
                merkle_hints: old(self)@.merkle_hints + seq![path_view(path)],
                ..old(self)@
            }),
    {
        let ghost q0 = self.merkle_hints@;
        self.merkle_hints.push_back(path);
        proof {
            assert(queue_view(self.merkle_hints@) =~= queue_view(q0) + seq![path_view(path)]);
            assert(final(self)@ =~= (ProverModel {
                merkle_hints: old(self)@.merkle_hints + seq![path_view(path)],
                ..old(self)@
            }));
        }
    }
}

impl ProverState {
    /// Appends extension scalars and absorbs them: each scalar's basis
    /// coefficients feed the sponge one zero-extended block; the padded
    /// encoding also writes the extension zeros to the wire.
    pub fn add_extension_scalars(&mut self, scalars: &Vec<ExtensionScalar>)
        requires
            old(self).wf(),
            forall|i: int|
                0 <= i < scalars@.len() ==> (#[trigger] scalars@[i]).wf(old(self)@.ext_dim),
        ensures
            final(self).wf(),
            final(self)@ == add_ext_model(old(self)@, coeff_seqs(scalars@)),
    {
        let ghost es = coeff_seqs(scalars@);
        let ghost p0 = self@;
        let n = scalars.len();
        let mut k: usize = 0;
        proof {
            assert(es.skip(0) =~= es);
            assert(p0.transcript + ext_wire(es, p0.padded) =~= self@.transcript + ext_wire(
                es.skip(0),
                p0.padded,
            ));
        }
        while k < n
            invariant
                k <= n,
                n == scalars@.len(),
                es == coeff_seqs(scalars@),
                forall|i: int|
                    0 <= i < scalars@.len() ==> (#[trigger] scalars@[i]).wf(p0.ext_dim),
                prover_wf(self@),
                self@.padded == p0.padded,
                self@.ext_dim == p0.ext_dim,
                self@.merkle_hints == p0.merkle_hints,
                observe_ext(p0.challenger, es) == observe_ext(self@.challenger, es.skip(k as int)),
                p0.transcript + ext_wire(es, p0.padded) == self@.transcript + ext_wire(
                    es.skip(k as int),
                    p0.padded,
                ),
                self@.n_zeros == p0.n_zeros + if p0.padded {
                    (RATE - p0.ext_dim) * k
                } else {
                    0int
                },
            decreases n - k,
        {
            let ghost pre = self@;
            let e: &ExtensionScalar = &scalars[k];
            let d = self.ext_dim;
            if self.padded {
                let mut b: Vec<u64> = Vec::new();
                let mut j: usize = 0;
                while j < d
                    invariant
                        j <= d,
                        d == e.coeffs@.len(),
                        felts_ok(e.coeffs@),
                        b@ == e.coeffs@.take(j as int),
                    decreases d - j,
                {
                    b.push(e.coeffs[j]);
                    proof {
                        assert(b@ =~= e.coeffs@.take(j + 1));
                    }
                    j = j + 1;
                }
                while j < 8
                    invariant
                        d <= j <= 8,
                        d == e.coeffs@.len(),
                        felts_ok(e.coeffs@),
                        b@ == e.coeffs@ + zeros(j - d),
                    decreases 8 - j,
                {
                    b.push(0);
                    proof {
                        assert(b@ =~= e.coeffs@ + zeros(j + 1 - d));
                    }
                    j = j + 1;
                }
                proof {
                    assert(b@.take(8) =~= b@);
                    assert(b@ =~= ext_block(es[k as int]));
                }
                self.add_base_scalars(&b);
                let total = self.transcript.len();
                proof {
                    assert(self@.n_zeros + (8 - d) <= total);
                }
                self.n_zeros = self.n_zeros + (8 - d);
                proof {
                    assert(b@ + zeros(0) =~= b@);
                    assert(observe_chunks(pre.challenger, b@) == observe_model(
                        pre.challenger,
                        ext_block(es[k as int]),
                    ));
                    assert(self@.transcript =~= pre.transcript + ext_wire_one(
                        es[k as int],
                        p0.padded,
                    ));
                }
            } else {
                self.add_base_scalars(&e.coeffs);
                proof {
                    assert(e.coeffs@ + zeros(8 - es[k as int].len()) =~= ext_block(
                        es[k as int],
                    ));
                    assert(observe_chunks(pre.challenger, e.coeffs@) == observe_model(
                        pre.challenger,
                        ext_block(es[k as int]),
                    ));
                    assert(self@.transcript =~= pre.transcript + ext_wire_one(
                        es[k as int],
                        p0.padded,
                    ));
                }
            }
            proof {
                assert(es.skip(k as int)[0] == es[k as int]);
                assert(es.skip(k as int).skip(1) =~= es.skip(k + 1));
                assert(observe_ext(pre.challenger, es.skip(k as int)) == observe_ext(
                    self@.challenger,
                    es.skip(k + 1),
                ));
                assert(pre.transcript + ext_wire(es.skip(k as int), p0.padded)
                    =~= self@.transcript + ext_wire(es.skip(k + 1), p0.padded));
                if p0.padded {
                    assert((RATE - p0.ext_dim) * k + (RATE - p0.ext_dim) == (RATE - p0.ext_dim) * (k
                        + 1)) by (nonlinear_arith);
                }
            }
            k = k + 1;
        }
        proof {
            assert(es.skip(n as int) =~= Seq::<Seq<u64>>::empty());
            assert(p0.transcript + ext_wire(es, p0.padded) =~= self@.transcript);
            assert(self@ =~= add_ext_model(p0, es));
        }
    }

    /// Appends the flattened basis coefficients of extension scalars to the
    /// transcript without observing them.  In the padded encoding the
    /// flattened data must fill whole vector words.
    pub fn hint_extension_scalars(&mut self, scalars: &Vec<ExtensionScalar>)
        requires
            old(self).wf(),
            forall|i: int|
                0 <= i < scalars@.len() ==> (#[trigger] scalars@[i]).wf(old(self)@.ext_dim),
            old(self)@.padded ==> (old(self)@.ext_dim * scalars@.len()) % 8 == 0,
        ensures
            final(self).wf(),
            final(self)@ == hint_base_model(old(self)@, concat_seqs(coeff_seqs(scalars@))),
    {
        let ghost es = coeff_seqs(scalars@);
        let ghost d = old(self)@.ext_dim;
        let n = scalars.len();
        let mut flat: Vec<u64> = Vec::new();
        let mut k: usize = 0;
        proof {
            assert(es.skip(0) =~= es);
            assert(concat_seqs(es) =~= flat@ + concat_seqs(es.skip(0)));
        }
        while k < n
            invariant
                k <= n,
                n == scalars@.len(),
                es == coeff_seqs(scalars@),
                forall|i: int| 0 <= i < scalars@.len() ==> (#[trigger] scalars@[i]).wf(d),
                concat_seqs(es) == flat@ + concat_seqs(es.skip(k as int)),
                flat@.len() == d * k,
                felts_ok(flat@),
            decreases n - k,
        {
            let e: &ExtensionScalar = &scalars[k];
            let ghost f0 = flat@;
            let m = e.coeffs.len();
            let mut j: usize = 0;
            proof {
                assert(flat@ =~= f0 + e.coeffs@.take(0));
            }
            while j < m
                invariant
                    j <= m,
                    m == e.coeffs@.len(),
                    felts_ok(e.coeffs@),
                    flat@ == f0 + e.coeffs@.take(j as int),
                decreases m - j,
            {
                flat.push(e.coeffs[j]);
                proof {
                    assert(flat@ =~= f0 + e.coeffs@.take(j + 1));
                }
                j = j + 1;
            }
            proof {
                assert(e.coeffs@.take(m as int) =~= e.coeffs@);
                assert(es.skip(k as int)[0] == es[k as int]);
                assert(es.skip(k as int).skip(1) =~= es.skip(k + 1));
                assert(concat_seqs(es) =~= flat@ + concat_seqs(es.skip(k + 1)));
                assert(d * k + d == d * (k + 1)) by (nonlinear_arith);
                assert(felts_ok(flat@));
            }
            k = k + 1;
        }
        proof {
            assert(es.skip(n as int) =~= Seq::<Seq<u64>>::empty());
            assert(concat_seqs(es) =~= flat@);
        }
        self.hint_base_scalars(&flat);
    }
}

impl ProverState {
    /// Grinds a proof-of-work witness: finds the smallest field element
    /// whose observation drives the next `bits` sampled bits to zero,
    /// observes it, consumes the asserting bit sample, and appends the
    /// witness to the transcript (word-aligned in the padded encoding).
    /// Returns false, leaving the state untouched, only if no field element
    /// at all is a witness; with `bits` at zero the grind is a no-op.
    pub fn pow_grinding(&mut self, bits: usize) -> (found: bool)
        requires
            old(self).wf(),
            bits < FIELD_BITS,
        ensures
            final(self).wf(),
            bits == 0 ==> found && *final(self) == *old(self),
            bits > 0 && found ==> exists|w: u64|
                #[trigger] is_pow_witness(old(self)@.challenger, w, bits) && final(self)@
                    == pow_model(old(self)@, w),
            !found ==> (forall|w: u64|
                w < ORDER ==> !grind_ok(old(self)@.challenger, w, bits)) && *final(self) == *old(
                self,
            ),
    {
        if bits == 0 {
            return true;
        }
        let mut w: u64 = 0;
        while w < ORDER
            invariant
                self == old(self),
                old(self).wf(),
                0 < bits < FIELD_BITS,
                w <= ORDER,
                forall|v: u64| v < w ==> !grind_ok(old(self)@.challenger, v, bits),
            decreases ORDER - w,
        {
            if self.challenger.grind_trial(w, bits) {
                let mut block: Vec<u64> = Vec::new();
                block.push(w);
                let mut j: usize = 1;
                while j < 8
                    invariant
                        1 <= j <= 8,
                        block@ == seq![w] + zeros(j - 1),
                    decreases 8 - j,
                {
                    block.push(0);
                    proof {
                        assert(block@ =~= seq![w] + zeros(j as int));
                    }
                    j = j + 1;
                }
                proof {
                    assert(block@ =~= grind_block(w));
                    assert(felts_ok(block@));
                }
                self.challenger.observe(&block);
                let s = self.challenger.sample_bits(bits);
                proof {
                    assert(s == 0);
                }
                let ghost mid = *self;
                self.transcript.push(w);
                proof {
                    assert(self.transcript@ =~= old(self)@.transcript + seq![w] + zeros(0));
                }
                if self.padded {
                    let mut z: usize = 0;
                    while z < 7
                        invariant
                            z <= 7,
                            self.transcript@ == old(self)@.transcript + seq![w] + zeros(z as int),
                            self.challenger == mid.challenger,
                            self.n_zeros == mid.n_zeros,
                            self.padded == mid.padded,
                            self.ext_dim == mid.ext_dim,
                            self.merkle_hints == mid.merkle_hints,
                            mid@.n_zeros <= old(self)@.transcript.len(),
                        decreases 7 - z,
                    {
                        self.transcript.push(0);
                        proof {
                            assert(self.transcript@ =~= old(self)@.transcript + seq![w] + zeros(
                                z + 1,
                            ));
                        }
                        z = z + 1;
                    }
                    let total = self.transcript.len();
                    proof {
                        assert(self.n_zeros + 7 <= total);
                    }
                    self.n_zeros = self.n_zeros + 7;
                }
                proof {
                    assert(is_pow_witness(old(self)@.challenger, w, bits));
                    assert(self@ =~= pow_model(old(self)@, w));
                }
                return true;
            }
            w = w + 1;
        }
        false
    }
}

impl ChallengeSampler<ExtensionScalar> for ProverState {
    /// Sampling preserves the prover's well-formedness.
    open spec fn sampler_wf(&self) -> bool {
        prover_wf(self@)
    }

    /// Draws one extension-field challenge: the first `ext_dim` elements of
    /// one squeeze; the rest of the squeezed block is discarded.
    fn sample(&mut self) -> (r: ExtensionScalar)
        ensures
            final(self)@ == sample_model(old(self)@),
            r.coeffs@ == squeeze_out(old(self)@.challenger).take(old(self)@.ext_dim),
            r.wf(old(self)@.ext_dim),
    {
        let out = self.challenger.sample();
        let coeffs = prefix(&out, self.ext_dim);
        proof {
            assert(self@ =~= sample_model(old(self)@));
        }
        ExtensionScalar { coeffs }
    }

    /// Draws `len` challenges, in order, each from its own squeeze.
    fn sample_vec(&mut self, len: usize) -> (r: Vec<ExtensionScalar>)
        ensures
            final(self)@ == (ProverModel {
                challenger: squeeze_n(old(self)@.challenger, len as int),
                ..old(self)@
            }),
            coeff_seqs(r@) == sample_seq(old(self)@.challenger, len as int, old(self)@.ext_dim),
            forall|i: int| 0 <= i < r@.len() ==> (#[trigger] r@[i]).wf(old(self)@.ext_dim),
            r@.len() == len,
    {
        let ghost p0 = self@;
        let mut r: Vec<ExtensionScalar> = Vec::new();
        let mut k: usize = 0;
        proof {
            assert(coeff_seqs(r@) =~= Seq::<Seq<u64>>::empty());
        }
        while k < len
            invariant
                k <= len,
                prover_wf(self@),
                self@ == (ProverModel { challenger: self@.challenger, ..p0 }),
                squeeze_n(p0.challenger, len as int) == squeeze_n(self@.challenger, len - k),
                sample_seq(p0.challenger, len as int, p0.ext_dim) == coeff_seqs(r@) + sample_seq(
                    self@.challenger,
                    len - k,
                    p0.ext_dim,
                ),
                r@.len() == k,
                forall|i: int| 0 <= i < r@.len() ==> (#[trigger] r@[i]).wf(p0.ext_dim),
            decreases len - k,
        {
            let ghost pre = self@;
            let ghost r0 = r@;
            let x = self.sample();
            r.push(x);
            proof {
                assert(coeff_seqs(r@) =~= coeff_seqs(r0) + seq![x.coeffs@]);
                assert(coeff_seqs(r0) + sample_seq(pre.challenger, len - k, p0.ext_dim)
                    =~= coeff_seqs(r@) + sample_seq(self@.challenger, len - (k + 1), p0.ext_dim));
                assert(self@ =~= (ProverModel { challenger: self@.challenger, ..p0 }));
            }
            k = k + 1;
        }
        r
    }

    /// Draws `bits` low bits of the next challenge element.
    fn sample_bits(&mut self, bits: usize) -> (r: usize)
        ensures
            final(self)@ == sample_model(old(self)@),
            r == sample_bits_out(old(self)@.challenger, bits),
            r < (1usize << bits),
    {
        let r = self.challenger.sample_bits(bits);
        proof {
            assert(self@ =~= sample_model(old(self)@));
        }
        r
    }
}

impl ChallengerState for ProverState {
    /// The text of the prover's sponge state.
    fn state(&self) -> (r: String)
        ensures
            r@ == debug_text_of(self@.challenger.sponge),
    {
        self.challenger.state()
    }
}

} // verus!
