//! A duplex sponge challenger over the KoalaBear field.
//!
//! The sponge keeps a 16-element state; observing overwrites the 8-element
//! rate prefix with a block and permutes, squeezing returns the rate prefix
//! of the most recent permutation and discards it.  This duplex releases a
//! whole rate block per squeeze; a second squeeze without an intervening
//! observe triggers a fresh permutation.  Verifier compatibility depends on
//! matching this behaviour exactly.
use vstd::prelude::*;

use crate::permutation::perm16_of;
use crate::permutation::permute16;
use crate::ChallengerState;
use crate::felts_ok;
use crate::FIELD_BITS;
use crate::ORDER;
use crate::RATE;
use crate::WIDTH;

verus! {

/// The mathematical state of a challenger: the sponge and the pending
/// output buffer.
pub ghost struct ChallengerModel {
    pub sponge: Seq<u64>,
    pub buffer: Option<Seq<u64>>,
}

/// Well-formedness of a challenger model: a sponge of `WIDTH` canonical
/// field elements, and a buffer of `RATE` of them when present.
pub open spec fn model_wf(m: ChallengerModel) -> bool {
    &&& m.sponge.len() == WIDTH
    &&& felts_ok(m.sponge)
    &&& match m.buffer {
        Some(b) => b.len() == RATE && felts_ok(b),
        None => true,
    }
}

/// The all-zero initial challenger.
pub open spec fn init_model() -> ChallengerModel {
    ChallengerModel { sponge: Seq::new(WIDTH as nat, |i: int| 0u64), buffer: None }
}

/// The challenger after observing one rate block: the block overwrites the
/// rate prefix, the permutation runs, and its rate prefix becomes the
/// output buffer.
pub open spec fn observe_model(m: ChallengerModel, block: Seq<u64>) -> ChallengerModel {
    let ns = perm16_of(block + m.sponge.subrange(RATE as int, WIDTH as int));
    ChallengerModel { sponge: ns, buffer: Some(ns.take(RATE as int)) }
}

/// What one squeeze returns: the pending buffer, or the rate prefix of a
/// fresh permutation when none is pending.
pub open spec fn squeeze_out(m: ChallengerModel) -> Seq<u64> {
    match m.buffer {
        Some(b) => b,
        None => perm16_of(m.sponge).take(RATE as int),
    }
}

/// The challenger after one squeeze: the buffer is consumed whole; when none
/// was pending the sponge was permuted first.
pub open spec fn squeeze_model(m: ChallengerModel) -> ChallengerModel {
    match m.buffer {
        Some(b) => ChallengerModel { sponge: m.sponge, buffer: None },
        None => ChallengerModel { sponge: perm16_of(m.sponge), buffer: None },
    }
}

/// The low `bits` bits of a field element's canonical representative.
pub open spec fn low_bits(x: u64, bits: usize) -> usize {
    (x as usize) & (((1usize << bits) - 1) as usize)
}

/// What `sample_bits` returns: the low bits of the first squeezed element.
pub open spec fn sample_bits_out(m: ChallengerModel, bits: usize) -> usize {
    low_bits(squeeze_out(m)[0], bits)
}

/// A duplex sponge challenger.  The state is exclusively owned; each observe
/// or squeeze applies the permutation at most once.
pub struct DuplexChallenger {
    pub sponge_state: Vec<u64>,
    pub output_buffer: Option<Vec<u64>>,
}

impl View for DuplexChallenger {
    type V = ChallengerModel;

    open spec fn view(&self) -> ChallengerModel {
        ChallengerModel {
            sponge: self.sponge_state@,
            buffer: match self.output_buffer {
                Some(b) => Some(b@),
                None => None,
            },
        }
    }
}

impl DuplexChallenger {
    /// Well-formedness of the executable challenger.
    pub open spec fn wf(&self) -> bool {
        model_wf(self@)
    }

    /// A fresh challenger: all-zero sponge, no pending output.
    pub fn new() -> (r: Self)
        ensures
            r.wf(),
            r@ == init_model(),
    {
        let sponge_state: Vec<u64> = vec![0u64; 16];
        proof {
            assert(sponge_state@ =~= init_model().sponge);
        }
        DuplexChallenger { sponge_state, output_buffer: None }
    }

    /// Absorbs one rate block: overwrites the rate prefix, permutes, and
    /// leaves the new rate prefix as the output buffer.
    pub fn observe(&mut self, value: &Vec<u64>)
        requires
            old(self).wf(),
            value@.len() == RATE,
            felts_ok(value@),
        ensures
            final(self).wf(),
            final(self)@ == observe_model(old(self)@, value@),
    {
        let mut ns: Vec<u64> = Vec::new();
        let mut i: usize = 0;
        while i < 8
            invariant
                i <= 8,
                ns@ == value@.take(i as int),
                value@.len() == 8,
            decreases 8 - i,
        {
            ns.push(value[i]);
            proof {
                assert(ns@ =~= value@.take(i + 1));
            }
            i = i + 1;
        }
        let mut j: usize = 8;
        while j < 16
            invariant
                8 <= j <= 16,
                self == old(self),
                old(self).wf(),
                value@.len() == 8,
                ns@ == value@ + self.sponge_state@.subrange(8, j as int),
            decreases 16 - j,
        {
            ns.push(self.sponge_state[j]);
            proof {
                assert(ns@ =~= value@ + self.sponge_state@.subrange(8, j + 1));
            }
            j = j + 1;
        }
        proof {
            assert(value@.take(8) =~= value@);
            assert(felts_ok(ns@));
        }
        let r = permute16(&ns);
        let buf = prefix(&r, 8);
        self.sponge_state = r;
        self.output_buffer = Some(buf);
        proof {
            assert(self@.buffer.unwrap() =~= self@.sponge.take(RATE as int));
        }
    }

    /// Squeezes one rate block: returns the pending buffer, permuting first
    /// when none is pending, and leaves no buffer behind.
    pub fn sample(&mut self) -> (r: Vec<u64>)
        requires
            old(self).wf(),
        ensures
            final(self).wf(),
            r@ == squeeze_out(old(self)@),
            final(self)@ == squeeze_model(old(self)@),
            r@.len() == RATE,
            felts_ok(r@),
    {
        if self.output_buffer.is_none() {
            let ns = permute16(&self.sponge_state);
            self.sponge_state = ns;
            let buf = prefix(&self.sponge_state, 8);
            self.output_buffer = Some(buf);
        }
        let out = self.output_buffer.take();
        out.unwrap()
    }

    /// Samples `bits` low bits of the next challenge element.  Explicitly
    /// non-uniform for `bits` below the field bit length; callers tolerate
    /// the bias.
    pub fn sample_bits(&mut self, bits: usize) -> (r: usize)
        requires
            old(self).wf(),
            bits < FIELD_BITS,
        ensures
            final(self).wf(),
            r == sample_bits_out(old(self)@, bits),
            final(self)@ == squeeze_model(old(self)@),
            r < (1usize << bits),
    {
        let block = self.sample();
        let x = block[0];
        proof {
            assert((1usize << bits) >= 1) by (bit_vector)
                requires
                    bits < 31,
            ;
        }
        let mask: usize = (1usize << bits) - 1;
        let r = (x as usize) & mask;
        proof {
            assert(r <= mask && mask < (1usize << bits)) by (bit_vector)
                requires
                    r == (x as usize) & mask,
                    mask == (1usize << bits) - 1,
                    bits < 31,
            ;
        }
        r
    }
}

/// A sequence of `n` zero field elements (empty when `n` is negative).
pub open spec fn zeros(n: int) -> Seq<u64> {
    Seq::new(if n <= 0 { 0nat } else { n as nat }, |i: int| 0u64)
}

/// How many zeros bring a length of `n` up to a multiple of `RATE`.
pub open spec fn pad_len(n: int) -> int {
    if n % 8 == 0 {
        0
    } else {
        8 - n % 8
    }
}

/// The challenger after observing `xs` in `RATE`-sized chunks, the last
/// chunk zero-padded to a whole block.  Observing nothing changes nothing.
pub open spec fn observe_chunks(m: ChallengerModel, xs: Seq<u64>) -> ChallengerModel
    decreases xs.len(),
{
    if xs.len() == 0 {
        m
    } else if xs.len() <= 8 {
        observe_model(m, xs + zeros(8 - xs.len()))
    } else {
        observe_chunks(observe_model(m, xs.take(8)), xs.skip(8))
    }
}

impl DuplexChallenger {
    /// Absorbs `xs` in `RATE`-sized chunks, zero-padding the last chunk to a
    /// whole block.  Prover and verifier both feed scalars to the sponge
    /// through this one chunking.
    pub fn observe_chunked(&mut self, xs: &Vec<u64>)
        requires
            old(self).wf(),
            felts_ok(xs@),
        ensures
            final(self).wf(),
            final(self)@ == observe_chunks(old(self)@, xs@),
    {
        let ghost m0 = self@;
        let n = xs.len();
        let mut i: usize = 0;
        proof {
            assert(xs@.skip(0) =~= xs@);
        }
        while i < n
            invariant
                self.wf(),
                i <= n,
                n == xs@.len(),
                felts_ok(xs@),
                observe_chunks(m0, xs@) == observe_chunks(self@, xs@.skip(i as int)),
            decreases n - i,
        {
            let c: usize = if n - i < 8 {
                n - i
            } else {
                8
            };
            let mut buf: Vec<u64> = Vec::new();
            let mut j: usize = 0;
            while j < c
                invariant
                    j <= c,
                    i + c <= n,
                    n == xs@.len(),
                    buf@ == xs@.subrange(i as int, i + j),
                decreases c - j,
            {
                buf.push(xs[i + j]);
                proof {
                    assert(buf@ =~= xs@.subrange(i as int, i + j + 1));
                }
                j = j + 1;
            }
            while j < 8
                invariant
                    c <= j <= 8,
                    i + c <= n,
                    n == xs@.len(),
                    buf@ == xs@.subrange(i as int, i + c) + zeros(j - c),
                decreases 8 - j,
            {
                buf.push(0);
                proof {
                    assert(buf@ =~= xs@.subrange(i as int, i + c) + zeros(j + 1 - c));
                }
                j = j + 1;
            }
            let ghost prev = self@;
            let ghost rest = xs@.skip(i as int);
            self.observe(&buf);
            proof {
                if n - i <= 8 {
                    assert(buf@ =~= rest + zeros(8 - rest.len()));
                    assert(xs@.skip(i + c) =~= Seq::<u64>::empty());
                } else {
                    assert(buf@ =~= rest.take(8));
                    assert(rest.skip(8) =~= xs@.skip(i + c));
                }
            }
            i = i + c;
        }
        proof {
            assert(xs@.skip(n as int) =~= Seq::<u64>::empty());
        }
    }
}

/// The rate block that carries a grinding witness: the witness followed by
/// zeros.
pub open spec fn grind_block(w: u64) -> Seq<u64> {
    seq![w] + zeros(7)
}

/// Truth of `w` driving the sampled bits to zero: observing the witness
/// block on `m` and sampling `bits` bits yields zero.
pub open spec fn grind_ok(m: ChallengerModel, w: u64, bits: usize) -> bool {
    sample_bits_out(observe_model(m, grind_block(w)), bits) == 0
}

/// Truth of `w` being the witness the grinding search yields: the smallest
/// canonical field element that drives the sampled bits to zero.
pub open spec fn is_pow_witness(m: ChallengerModel, w: u64, bits: usize) -> bool {
    &&& w < ORDER
    &&& grind_ok(m, w, bits)
    &&& forall|v: u64| v < w ==> !grind_ok(m, v, bits)
}

impl DuplexChallenger {
    /// Tests one grinding candidate without moving the sponge: permutes a
    /// local state whose rate holds the witness block and whose capacity is
    /// the sponge's, exactly what observing the block would do.
    pub(crate) fn grind_trial(&self, w: u64, bits: usize) -> (ok: bool)
        requires
            self.wf(),
            w < ORDER,
            0 < bits < FIELD_BITS,
        ensures
            ok == grind_ok(self@, w, bits),
    {
        let mut cand: Vec<u64> = Vec::new();
        cand.push(w);
        let mut j: usize = 1;
        while j < 8
            invariant
                1 <= j <= 8,
                cand@ == seq![w] + zeros(j - 1),
            decreases 8 - j,
        {
            cand.push(0);
            proof {
                assert(cand@ =~= seq![w] + zeros(j as int));
            }
            j = j + 1;
        }
        let mut i: usize = 8;
        while i < 16
            invariant
                8 <= i <= 16,
                self.wf(),
                cand@ == grind_block(w) + self@.sponge.subrange(8, i as int),
            decreases 16 - i,
        {
            cand.push(self.sponge_state[i]);
            proof {
                assert(cand@ =~= grind_block(w) + self@.sponge.subrange(8, i + 1));
            }
            i = i + 1;
        }
        proof {
            assert(felts_ok(cand@));
        }
        let out = permute16(&cand);
        let x = out[0];
        proof {
            assert((1usize << bits) >= 1) by (bit_vector)
                requires
                    bits < 31,
            ;
        }
        let mask: usize = (1usize << bits) - 1;
        (x as usize) & mask == 0
    }
}

/// Copies the first `n` elements of a vector.
pub(crate) fn prefix(v: &Vec<u64>, n: usize) -> (r: Vec<u64>)
    requires
        n <= v@.len(),
    ensures
        r@ == v@.take(n as int),
{
    let mut r: Vec<u64> = Vec::new();
    let mut i: usize = 0;
    while i < n
        invariant
            i <= n <= v@.len(),
            r@ == v@.take(i as int),
        decreases n - i,
    {
        r.push(v[i]);
        proof {
            assert(r@ =~= v@.take(i + 1));
        }
        i = i + 1;
    }
    r
}

/// What the std Debug formatting of a vector of integers shows.
pub uninterp spec fn debug_text_of(s: Seq<u64>) -> Seq<char>;

/// Relies on the std `Debug` formatting of `Vec<u64>`: the text depends on
/// the elements alone.
#[verifier::external_body]
pub(crate) fn debug_string(v: &Vec<u64>) -> (r: String)
    ensures
        r@ == debug_text_of(v@),
{
    format!("{:?}", v)
}

impl ChallengerState for DuplexChallenger {
    /// The text of the sponge state.
    fn state(&self) -> (r: String)
        ensures
            r@ == debug_text_of(self@.sponge),
    {
        debug_string(&self.sponge_state)
    }
}

} // verus!
