//! The engine's guarantees, stated and proved over the models: a verifier
//! replaying a prover's transcript follows the same sponge trajectory and
//! reads back the same data, hints never move the sponge, the two wire
//! encodings feed the sponge identically, an honest grinding witness always
//! verifies, and squeezing consumes the output buffer before it permutes.
use vstd::prelude::*;

use crate::duplex_challenger::is_pow_witness;
use crate::duplex_challenger::observe_chunks;
use crate::duplex_challenger::observe_model;
use crate::duplex_challenger::pad_len;
use crate::permutation::perm16_of;
use crate::duplex_challenger::squeeze_model;
use crate::duplex_challenger::squeeze_out;
use crate::duplex_challenger::zeros;
use crate::duplex_challenger::ChallengerModel;
use crate::prover::add_base_model;
use crate::prover::add_ext_model;
use crate::prover::ext_block;
use crate::prover::ext_wire;
use crate::prover::ext_wire_one;
use crate::prover::hint_base_model;
use crate::prover::observe_ext;
use crate::prover::pow_model;
use crate::prover::wire_pad;
use crate::prover::ProverModel;
use crate::transcript_verifier::ext_read;
use crate::transcript_verifier::ext_step;
use crate::transcript_verifier::hint_read_model;
use crate::transcript_verifier::next_base_model;
use crate::transcript_verifier::pad_nonzero;
use crate::transcript_verifier::pow_step;
use crate::transcript_verifier::VerifierModel;
use crate::errors::ProofError;
use crate::felts_ok;
use crate::FIELD_BITS;
use crate::RATE;

verus! {

/// The replay relation between a prover and a verifier: the same sponge
/// state, the same encoding and extension dimension, and a verifier cursor
/// standing exactly at the end of what the prover has written so far.
pub open spec fn in_sync(p: ProverModel, v: VerifierModel) -> bool {
    &&& v.challenger == p.challenger
    &&& v.index == p.transcript.len()
    &&& v.transcript.subrange(0, v.index) == p.transcript
    &&& v.padded == p.padded
    &&& v.ext_dim == p.ext_dim
}

/// Absorbing the wire alignment zeros changes nothing: observing scalars
/// chunked by the rate equals observing the same scalars extended by the
/// zeros that complete the last block, because the chunking already pads
/// that block with the same zeros.
pub proof fn lemma_observe_chunks_pad(m: ChallengerModel, xs: Seq<u64>)
    ensures
        observe_chunks(m, xs + zeros(pad_len(xs.len() as int))) == observe_chunks(m, xs),
    decreases xs.len(),
{
    let p = pad_len(xs.len() as int);
    if xs.len() % 8 == 0 {
        assert(xs + zeros(0) =~= xs);
    } else if xs.len() < 8 {
        assert((xs + zeros(p)) + zeros(0) =~= xs + zeros(8 - xs.len()));
        assert(observe_chunks(m, xs + zeros(p)) == observe_model(m, xs + zeros(8 - xs.len())));
    } else {
        assert((xs + zeros(p)).take(8) =~= xs.take(8));
        assert((xs + zeros(p)).skip(8) =~= xs.skip(8) + zeros(pad_len(xs.skip(8).len() as int)));
        lemma_observe_chunks_pad(observe_model(m, xs.take(8)), xs.skip(8));
    }
}

/// Determinism of the base-scalar exchange: when a verifier in sync with a
/// prover reads back exactly the words the prover's append wrote (the
/// scalars and, in the padded encoding, the alignment zeros), the read
/// succeeds, returns those words, and leaves the two in sync again — in
/// particular both sponges agree, so all later challenges agree.
pub proof fn lemma_replay_base_scalars(p: ProverModel, v: VerifierModel, xs: Seq<u64>)
    requires
        in_sync(p, v),
        v.index + xs.len() + wire_pad(xs.len() as int, p.padded) <= v.transcript.len(),
        v.transcript.subrange(
            v.index,
            v.index + xs.len() + wire_pad(xs.len() as int, p.padded),
        ) == xs + zeros(wire_pad(xs.len() as int, p.padded)),
    ensures
        in_sync(
            add_base_model(p, xs),
            next_base_model(v, xs.len() + wire_pad(xs.len() as int, p.padded)),
        ),
{
    let pad = wire_pad(xs.len() as int, p.padded);
    let n = xs.len() + pad;
    let block = v.transcript.subrange(v.index, v.index + n);
    if p.padded {
        lemma_observe_chunks_pad(v.challenger, xs);
    } else {
        assert(xs + zeros(0) =~= xs);
    }
    assert(observe_chunks(v.challenger, block) == observe_chunks(p.challenger, xs));
    let p2 = add_base_model(p, xs);
    let v2 = next_base_model(v, n as int);
    assert(v2.transcript.subrange(0, v2.index) =~= p2.transcript) by {
        assert forall|j: int| 0 <= j < v2.index implies v2.transcript.subrange(0, v2.index)[j]
            == p2.transcript[j] by {
            if j < v.index {
                assert(v.transcript.subrange(0, v.index)[j] == p.transcript[j]);
            } else {
                assert(v.transcript.subrange(v.index, v.index + n)[j - v.index] == (xs + zeros(
                    pad,
                ))[j - v.index]);
            }
        }
    }
}

/// Determinism of the extension-scalar exchange: when a verifier in sync
/// with a prover reads back the wire words that the prover's append wrote,
/// it reconstructs exactly the same basis coefficients, never fails, and
/// leaves the two in sync again.
pub proof fn lemma_replay_extension_scalars(p: ProverModel, v: VerifierModel, es: Seq<Seq<u64>>)
    requires
        in_sync(p, v),
        1 <= p.ext_dim <= RATE,
        forall|i: int|
            0 <= i < es.len() ==> (#[trigger] es[i]).len() == p.ext_dim && felts_ok(es[i]),
        v.index + ext_wire(es, p.padded).len() <= v.transcript.len(),
        v.transcript.subrange(v.index, v.index + ext_wire(es, p.padded).len()) == ext_wire(
            es,
            p.padded,
        ),
    ensures
        ext_read(v, es.len() as int).1 == Some(es),
        in_sync(add_ext_model(p, es), ext_read(v, es.len() as int).0),
    decreases es.len(),
{
    if es.len() == 0 {
        assert(ext_wire(es, p.padded) =~= Seq::<u64>::empty());
        assert(ext_read(v, 0).1 == Some(Seq::<Seq<u64>>::empty()));
        assert(es =~= Seq::<Seq<u64>>::empty());
        assert(add_ext_model(p, es) =~= (ProverModel {
            challenger: p.challenger,
            transcript: p.transcript + ext_wire(es, p.padded),
            n_zeros: p.n_zeros + if p.padded {
                (RATE - p.ext_dim) * es.len()
            } else {
                0int
            },
            ..p
        }));
        assert(add_ext_model(p, es).transcript =~= p.transcript);
        assert(in_sync(add_ext_model(p, es), v));
    } else {
        let d = p.ext_dim;
        let step: int = if p.padded {
            8
        } else {
            d
        };
        let e0 = es[0];
        let w0 = ext_wire_one(e0, p.padded);
        let wire = ext_wire(es, p.padded);
        let rest_wire = ext_wire(es.skip(1), p.padded);
        assert(wire == w0 + rest_wire);
        assert(w0.len() == step);
        // The first word the verifier reads is the first scalar's wire form.
        let block = v.transcript.subrange(v.index, v.index + step);
        assert(block =~= w0) by {
            assert forall|j: int| 0 <= j < step implies block[j] == w0[j] by {
                assert(wire[j] == w0[j]);
            }
        }
        // The pad region of the word is zero, so the read succeeds.
        if p.padded {
            assert(block =~= e0 + zeros(8 - d));
            assert(forall|j: int| d <= j < 8 ==> block[j] == 0);
            assert(!pad_nonzero(block, d));
        }
        assert(block.take(d) =~= e0);
        assert(ext_step(v).1 == Some(e0));
        // Both sides observe the same zero-extended block.
        let c2 = observe_model(v.challenger, ext_block(e0));
        if p.padded {
            assert(block + zeros(0) =~= ext_block(e0));
            assert(observe_chunks(v.challenger, block) == c2);
        } else {
            assert(block + zeros(8 - block.len()) =~= ext_block(e0));
            assert(observe_chunks(v.challenger, block) == c2);
        }
        let v1 = ext_step(v).0;
        let p1 = ProverModel {
            challenger: c2,
            transcript: p.transcript + w0,
            n_zeros: p.n_zeros + if p.padded {
                (RATE - d)
            } else {
                0int
            },
            ..p
        };
        assert(in_sync(p1, v1)) by {
            assert(v1.transcript.subrange(0, v1.index) =~= p1.transcript);
        }
        assert(v1.transcript.subrange(v1.index, v1.index + rest_wire.len()) =~= rest_wire) by {
            assert forall|j: int| 0 <= j < rest_wire.len() implies v1.transcript.subrange(
                v1.index,
                v1.index + rest_wire.len(),
            )[j] == rest_wire[j] by {
                assert(wire[step + j] == rest_wire[j]);
            }
        }
        assert(forall|i: int|
            0 <= i < es.skip(1).len() ==> (#[trigger] es.skip(1)[i]).len() == p1.ext_dim
                && felts_ok(es.skip(1)[i]));
        lemma_replay_extension_scalars(p1, v1, es.skip(1));
        // Reassemble: the fold over all scalars is the first step followed
        // by the fold over the rest.
        assert(ext_read(v, es.len() as int).1 == Some(seq![e0] + es.skip(1)));
        assert(seq![e0] + es.skip(1) =~= es);
        assert(add_ext_model(p1, es.skip(1)) =~= add_ext_model(p, es)) by {
            assert(observe_ext(p.challenger, es) == observe_ext(c2, es.skip(1)));
            assert(p1.transcript + rest_wire =~= p.transcript + wire);
            if p.padded {
                assert((RATE - d) + (RATE - d) * es.skip(1).len() == (RATE - d) * es.len())
                    by (nonlinear_arith)
                    requires
                        es.skip(1).len() == es.len() - 1,
                        es.len() >= 1,
                ;
            }
        }
    }
}

/// Determinism of the hint exchange, and hint transparency: reading hint
/// scalars advances the cursor past exactly what the prover's hint wrote,
/// and neither side's sponge moves, so no challenge can depend on hint data.
pub proof fn lemma_replay_hint_scalars(p: ProverModel, v: VerifierModel, xs: Seq<u64>)
    requires
        in_sync(p, v),
        v.index + xs.len() <= v.transcript.len(),
        v.transcript.subrange(v.index, v.index + xs.len()) == xs,
    ensures
        in_sync(hint_base_model(p, xs), hint_read_model(v, xs.len() as int)),
        hint_base_model(p, xs).challenger == p.challenger,
        hint_read_model(v, xs.len() as int).challenger == v.challenger,
{
    let p2 = hint_base_model(p, xs);
    let v2 = hint_read_model(v, xs.len() as int);
    assert(v2.transcript.subrange(0, v2.index) =~= p2.transcript);
}

/// Hint transparency for challenges: two provers whose sponges agree keep
/// agreeing after hinting arbitrary, possibly different, data, and the next
/// challenge each would draw is the same.
pub proof fn lemma_hint_transparency(
    p1: ProverModel,
    p2: ProverModel,
    xs1: Seq<u64>,
    xs2: Seq<u64>,
)
    requires
        p1.challenger == p2.challenger,
        p1.ext_dim == p2.ext_dim,
    ensures
        hint_base_model(p1, xs1).challenger == hint_base_model(p2, xs2).challenger,
        squeeze_out(hint_base_model(p1, xs1).challenger).take(p1.ext_dim) == squeeze_out(
            hint_base_model(p2, xs2).challenger,
        ).take(p2.ext_dim),
{
}

/// Padding invariance of challenges: on the same scalars, a compact-mode
/// prover and a padded-mode prover whose sponges agree drive their sponges
/// to the same state — the wire encodings differ, the absorbed blocks do
/// not — so every subsequent challenge is identical.
pub proof fn lemma_padding_invariance(
    p1: ProverModel,
    p2: ProverModel,
    xs: Seq<u64>,
    es: Seq<Seq<u64>>,
)
    requires
        p1.challenger == p2.challenger,
    ensures
        add_base_model(p1, xs).challenger == add_base_model(p2, xs).challenger,
        add_ext_model(p1, es).challenger == add_ext_model(p2, es).challenger,
{
}

/// Proof-of-work round trip: when a verifier in sync with a prover checks
/// the grinding that a successful grind wrote (the witness word, aligned in
/// the padded encoding), the check passes and the two are in sync again.
pub proof fn lemma_replay_pow(p: ProverModel, v: VerifierModel, w: u64, bits: usize)
    requires
        in_sync(p, v),
        0 < bits < FIELD_BITS,
        is_pow_witness(p.challenger, w, bits),
        v.index + (if p.padded {
            8int
        } else {
            1int
        }) <= v.transcript.len(),
        v.transcript.subrange(
            v.index,
            v.index + (if p.padded {
                8int
            } else {
                1int
            }),
        ) == seq![w] + zeros(
            if p.padded {
                7
            } else {
                0
            },
        ),
    ensures
        pow_step(v, bits).1 == Ok::<(), ProofError>(()),
        in_sync(pow_model(p, w), pow_step(v, bits).0),
{
    let step: int = if p.padded {
        8
    } else {
        1
    };
    assert(v.transcript[v.index] == w) by {
        assert(v.transcript.subrange(v.index, v.index + step)[0] == w);
    }
    let p2 = pow_model(p, w);
    let v2 = pow_step(v, bits).0;
    assert(v2.transcript.subrange(0, v2.index) =~= p2.transcript) by {
        assert(p2.transcript =~= p.transcript + seq![w] + zeros(step - 1));
        assert forall|j: int| 0 <= j < v2.index implies v2.transcript.subrange(0, v2.index)[j]
            == p2.transcript[j] by {
            if j < v.index {
                assert(v.transcript.subrange(0, v.index)[j] == p.transcript[j]);
            } else {
                assert(v.transcript.subrange(v.index, v.index + step)[j - v.index] == (seq![w]
                    + zeros(step - 1))[j - v.index]);
            }
        }
    }
}

/// One step of a prover script: what the prover commits, hints, draws, or
/// grinds.  A grinding step carries the witness the search found.
pub ghost enum TranscriptOp {
    AddBase(Seq<u64>),
    AddExt(Seq<Seq<u64>>),
    HintBase(Seq<u64>),
    Draw,
    Pow(u64, usize),
}

/// The prover after one script step.
pub open spec fn prover_step(p: ProverModel, op: TranscriptOp) -> ProverModel {
    match op {
        TranscriptOp::AddBase(xs) => add_base_model(p, xs),
        TranscriptOp::AddExt(es) => add_ext_model(p, es),
        TranscriptOp::HintBase(xs) => hint_base_model(p, xs),
        TranscriptOp::Draw => ProverModel { challenger: squeeze_model(p.challenger), ..p },
        TranscriptOp::Pow(w, bits) => pow_model(p, w),
    }
}

/// The prover after a whole script.
pub open spec fn prover_run(p: ProverModel, ops: Seq<TranscriptOp>) -> ProverModel
    decreases ops.len(),
{
    if ops.len() == 0 {
        p
    } else {
        prover_run(prover_step(p, ops[0]), ops.skip(1))
    }
}

/// The challenges the prover draws along a script, in order.
pub open spec fn prover_challenges(p: ProverModel, ops: Seq<TranscriptOp>) -> Seq<Seq<u64>>
    decreases ops.len(),
{
    if ops.len() == 0 {
        Seq::empty()
    } else {
        let head: Seq<Seq<u64>> = match ops[0] {
            TranscriptOp::Draw => seq![squeeze_out(p.challenger).take(p.ext_dim)],
            _ => Seq::empty(),
        };
        head + prover_challenges(prover_step(p, ops[0]), ops.skip(1))
    }
}

/// Validity of a script against the prover state it runs from: extension
/// scalars have the prover's dimension and canonical coefficients, and each
/// grinding step carries the witness the search would find there.
pub open spec fn script_ok(p: ProverModel, ops: Seq<TranscriptOp>) -> bool
    decreases ops.len(),
{
    if ops.len() == 0 {
        true
    } else {
        let head_ok = match ops[0] {
            TranscriptOp::AddBase(xs) => true,
            TranscriptOp::AddExt(es) => forall|i: int|
                0 <= i < es.len() ==> (#[trigger] es[i]).len() == p.ext_dim && felts_ok(es[i]),
            TranscriptOp::HintBase(xs) => true,
            TranscriptOp::Draw => true,
            TranscriptOp::Pow(w, bits) => 0 < bits < FIELD_BITS && is_pow_witness(
                p.challenger,
                w,
                bits,
            ),
        };
        head_ok && script_ok(prover_step(p, ops[0]), ops.skip(1))
    }
}

/// The verifier after replaying one script step: it reads back exactly the
/// words that step wrote and draws where the prover drew.
pub open spec fn verifier_step(v: VerifierModel, op: TranscriptOp) -> VerifierModel {
    match op {
        TranscriptOp::AddBase(xs) => next_base_model(
            v,
            xs.len() + wire_pad(xs.len() as int, v.padded),
        ),
        TranscriptOp::AddExt(es) => ext_read(v, es.len() as int).0,
        TranscriptOp::HintBase(xs) => hint_read_model(v, xs.len() as int),
        TranscriptOp::Draw => VerifierModel { challenger: squeeze_model(v.challenger), ..v },
        TranscriptOp::Pow(w, bits) => pow_step(v, bits).0,
    }
}

/// The verifier after replaying a whole script.
pub open spec fn verifier_run(v: VerifierModel, ops: Seq<TranscriptOp>) -> VerifierModel
    decreases ops.len(),
{
    if ops.len() == 0 {
        v
    } else {
        verifier_run(verifier_step(v, ops[0]), ops.skip(1))
    }
}

/// The challenges the verifier draws along a replay, in order.
pub open spec fn verifier_challenges(v: VerifierModel, ops: Seq<TranscriptOp>) -> Seq<Seq<u64>>
    decreases ops.len(),
{
    if ops.len() == 0 {
        Seq::empty()
    } else {
        let head: Seq<Seq<u64>> = match ops[0] {
            TranscriptOp::Draw => seq![squeeze_out(v.challenger).take(v.ext_dim)],
            _ => Seq::empty(),
        };
        head + verifier_challenges(verifier_step(v, ops[0]), ops.skip(1))
    }
}

/// Truth of every read in a replay succeeding: extension reads reconstruct
/// without error and grinding checks pass.
pub open spec fn replay_ok(v: VerifierModel, ops: Seq<TranscriptOp>) -> bool
    decreases ops.len(),
{
    if ops.len() == 0 {
        true
    } else {
        let head_ok = match ops[0] {
            TranscriptOp::AddBase(xs) => v.index + xs.len() + wire_pad(
                xs.len() as int,
                v.padded,
            ) <= v.transcript.len(),
            TranscriptOp::AddExt(es) => ext_read(v, es.len() as int).1 is Some,
            TranscriptOp::HintBase(xs) => v.index + xs.len() <= v.transcript.len(),
            TranscriptOp::Draw => true,
            TranscriptOp::Pow(w, bits) => pow_step(v, bits).1 == Ok::<(), ProofError>(()),
        };
        head_ok && replay_ok(verifier_step(v, ops[0]), ops.skip(1))
    }
}

/// Running a script only appends to the prover's transcript: the transcript
/// before the run is a prefix of the transcript after it.
pub proof fn lemma_prover_run_extends(p: ProverModel, ops: Seq<TranscriptOp>)
    ensures
        prover_run(p, ops).transcript.len() >= p.transcript.len(),
        prover_run(p, ops).transcript.subrange(0, p.transcript.len() as int) == p.transcript,
    decreases ops.len(),
{
    if ops.len() == 0 {
        assert(p.transcript.subrange(0, p.transcript.len() as int) =~= p.transcript);
    } else {
        let p1 = prover_step(p, ops[0]);
        lemma_prover_run_extends(p1, ops.skip(1));
        let fin = prover_run(p, ops).transcript;
        assert(prover_run(p, ops) == prover_run(p1, ops.skip(1)));
        assert(p1.transcript.len() >= p.transcript.len());
        assert(fin.subrange(0, p.transcript.len() as int) =~= p.transcript) by {
            assert forall|j: int| 0 <= j < p.transcript.len() implies fin.subrange(
                0,
                p.transcript.len() as int,
            )[j] == p.transcript[j] by {
                assert(fin.subrange(0, p1.transcript.len() as int)[j] == p1.transcript[j]);
            }
        }
    }
}

/// Inside a prefix chain, the window after `base` holds exactly `written`:
/// when `base + written` is a prefix of `fin` and `fin` is a prefix of
/// `whole`, the words of `whole` from `base.len()` on are `written`.
proof fn lemma_prefix_window(whole: Seq<u64>, base: Seq<u64>, written: Seq<u64>, fin: Seq<u64>)
    requires
        base.len() + written.len() <= fin.len(),
        fin.subrange(0, (base.len() + written.len()) as int) == base + written,
        fin.len() <= whole.len(),
        whole.subrange(0, fin.len() as int) == fin,
    ensures
        whole.subrange(base.len() as int, (base.len() + written.len()) as int) == written,
{
    assert(whole.subrange(base.len() as int, (base.len() + written.len()) as int) =~= written) by {
        assert forall|j: int| 0 <= j < written.len() implies whole.subrange(
            base.len() as int,
            (base.len() + written.len()) as int,
        )[j] == written[j] by {
            assert(whole.subrange(0, fin.len() as int)[base.len() + j] == fin[base.len() + j]);
            assert(whole[base.len() + j] == fin[base.len() + j]);
            assert(fin.subrange(0, (base.len() + written.len()) as int)[base.len() + j] == (base
                + written)[base.len() + j]);
            assert((base + written)[base.len() + j] == written[j]);
            assert(fin[base.len() + j] == written[j]);
        }
    }
}

/// A failed or successful sequence of extension reads never touches the
/// verifier's transcript, encoding, dimension, or hint queue.
proof fn lemma_ext_read_preserves(v: VerifierModel, n: int)
    ensures
        ext_read(v, n).0.transcript == v.transcript,
        ext_read(v, n).0.padded == v.padded,
        ext_read(v, n).0.ext_dim == v.ext_dim,
        ext_read(v, n).0.merkle_hints == v.merkle_hints,
    decreases n,
{
    if n <= 0 {
    } else if ext_step(v).1 is None {
    } else {
        lemma_ext_read_preserves(ext_step(v).0, n - 1);
    }
}

/// Determinism of the whole exchange: a verifier that starts in sync with a
/// prover and holds the prover's final transcript replays any valid script
/// without error, draws exactly the challenges the prover drew, and ends in
/// sync with the prover — the joint invariant of the protocol.
pub proof fn theorem_replay_determinism(p: ProverModel, v: VerifierModel, ops: Seq<TranscriptOp>)
    requires
        in_sync(p, v),
        1 <= p.ext_dim <= RATE,
        script_ok(p, ops),
        prover_run(p, ops).transcript.len() <= v.transcript.len(),
        v.transcript.subrange(0, prover_run(p, ops).transcript.len() as int) == prover_run(
            p,
            ops,
        ).transcript,
    ensures
        replay_ok(v, ops),
        verifier_challenges(v, ops) == prover_challenges(p, ops),
        in_sync(prover_run(p, ops), verifier_run(v, ops)),
    decreases ops.len(),
{
    if ops.len() == 0 {
        assert(verifier_challenges(v, ops) =~= prover_challenges(p, ops));
    } else {
        let op = ops[0];
        let p1 = prover_step(p, op);
        let v1 = verifier_step(v, op);
        let fin = prover_run(p, ops).transcript;
        assert(prover_run(p, ops) == prover_run(p1, ops.skip(1)));
        lemma_prover_run_extends(p1, ops.skip(1));
        assert(fin.subrange(0, p1.transcript.len() as int) == p1.transcript);
        match op {
            TranscriptOp::AddBase(xs) => {
                let written = xs + zeros(wire_pad(xs.len() as int, p.padded));
                assert(p1.transcript =~= p.transcript + written);
                lemma_prefix_window(v.transcript, p.transcript, written, fin);
                lemma_replay_base_scalars(p, v, xs);
            },
            TranscriptOp::AddExt(es) => {
                let written = ext_wire(es, p.padded);
                assert(p1.transcript =~= p.transcript + written);
                lemma_prefix_window(v.transcript, p.transcript, written, fin);
                lemma_replay_extension_scalars(p, v, es);
            },
            TranscriptOp::HintBase(xs) => {
                assert(p1.transcript =~= p.transcript + xs);
                lemma_prefix_window(v.transcript, p.transcript, xs, fin);
                lemma_replay_hint_scalars(p, v, xs);
            },
            TranscriptOp::Draw => {
                assert(in_sync(p1, v1));
            },
            TranscriptOp::Pow(w, bits) => {
                let written = seq![w] + zeros(
                    if p.padded {
                        7
                    } else {
                        0
                    },
                );
                assert(p1.transcript =~= p.transcript + written);
                lemma_prefix_window(v.transcript, p.transcript, written, fin);
                lemma_replay_pow(p, v, w, bits);
            },
        }
        assert(in_sync(p1, v1));
        if op is AddExt {
            lemma_ext_read_preserves(v, op->AddExt_0.len() as int);
        }
        assert(v1.transcript == v.transcript);
        theorem_replay_determinism(p1, v1, ops.skip(1));
        assert(verifier_challenges(v, ops) =~= prover_challenges(p, ops)) by {
            assert(verifier_challenges(v1, ops.skip(1)) == prover_challenges(p1, ops.skip(1)));
            assert(v.challenger == p.challenger && v.ext_dim == p.ext_dim);
        }
    }
}

/// In the compact encoding nothing ever counts as alignment padding: a
/// compact prover that starts with no padding zeros ends any script with
/// none, so its logical proof size is the whole wire length.
pub proof fn lemma_compact_proof_size(p: ProverModel, ops: Seq<TranscriptOp>)
    requires
        !p.padded,
        p.n_zeros == 0,
    ensures
        prover_run(p, ops).n_zeros == 0,
        prover_run(p, ops).padded == p.padded,
    decreases ops.len(),
{
    if ops.len() > 0 {
        let p1 = prover_step(p, ops[0]);
        assert(p1.n_zeros == 0 && !p1.padded) by {
            match ops[0] {
                TranscriptOp::AddBase(xs) => {},
                TranscriptOp::AddExt(es) => {},
                TranscriptOp::HintBase(xs) => {},
                TranscriptOp::Draw => {},
                TranscriptOp::Pow(w, bits) => {},
            }
        }
        lemma_compact_proof_size(p1, ops.skip(1));
    }
}

/// Squeeze discipline: after an observe, the first squeeze returns the
/// buffered rate prefix and does not permute; a second squeeze without an
/// intervening observe permutes exactly once.
pub proof fn lemma_squeeze_discipline(m: ChallengerModel, block: Seq<u64>)
    ensures
        squeeze_out(observe_model(m, block)) == observe_model(m, block).sponge.take(RATE as int),
        squeeze_model(observe_model(m, block)).sponge == observe_model(m, block).sponge,
        squeeze_model(squeeze_model(observe_model(m, block))).sponge == perm16_of(
            observe_model(m, block).sponge,
        ),
{
}

} // verus!
