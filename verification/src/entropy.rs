use vstd::prelude::*;

verus! {

/// Relies on rand::rngs::OsRng and rand::RngCore::fill_bytes: fills the
/// buffer with operating-system randomness.  Nothing is promised of the
/// bytes themselves, only how many there are.
#[verifier::external_body]
pub(crate) fn random_entropy_32() -> (r: Vec<u8>)
    ensures
        r@.len() == 32,
{
    let mut key: [u8; 32] = [0; 32];
    let mut rng = rand::rngs::OsRng::default();
    rand::RngCore::fill_bytes(&mut rng, &mut key);
    key.to_vec()
}

} // verus!
