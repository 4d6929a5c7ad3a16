//! The fixed-width permutation under the sponge, as an opaque pure function.
use vstd::prelude::*;

use crate::ORDER;

verus! {

/// What the Poseidon2 permutation returns on a 16-element state.  The
/// permutation is opaque to the transcript engine: nothing here states its
/// algebra, only that it is a pure function of the state.
pub uninterp spec fn perm16_of(s: Seq<u64>) -> Seq<u64>;

/// Relies on `p3_koala_bear::default_koalabear_poseidon2_16` and
/// `p3_symmetric::Permutation::permute_mut`: the width-16 Poseidon2
/// permutation over KoalaBear, built from the crate's fixed round constants,
/// is a pure function of the input state, and
/// `p3_field::PrimeField64::as_canonical_u64` returns representatives below
/// the field order.
#[verifier::external_body]
pub(crate) fn permute16(state: &Vec<u64>) -> (r: Vec<u64>)
    requires
        state@.len() == 16,
        forall|i: int| 0 <= i < 16 ==> state@[i] < ORDER,
    ensures
        r@ == perm16_of(state@),
        r@.len() == 16,
        forall|i: int| 0 <= i < 16 ==> r@[i] < ORDER,
{
    let mut s: [p3_koala_bear::KoalaBear; 16] =
        core::array::from_fn(|i| p3_koala_bear::KoalaBear::new(state[i] as u32));
    let perm = p3_koala_bear::default_koalabear_poseidon2_16();
    p3_symmetric::Permutation::permute_mut(&perm, &mut s);
    s.iter().map(|x| p3_field::PrimeField64::as_canonical_u64(x)).collect()
}

} // verus!
