use vstd::prelude::*;
use crate::model::{InputView, TransactionView, prev_output_lock, sighash_msg};

verus! {

/// The signature the outside ed25519 implementation produces for a message
/// under a 64-byte expanded secret key.
pub uninterp spec fn ed25519_sig_of(msg: Seq<u8>, secret_key: Seq<u8>) -> Seq<u8>;

/// The outcome of the outside ed25519 check of a signature over a message
/// against a 32-byte public key.
pub uninterp spec fn ed25519_verify_of(msg: Seq<u8>, public_key: Seq<u8>, signature: Seq<u8>) -> bool;

/// Relies on crypto::ed25519::signature: deterministic in the message and the
/// secret key, of which it reads exactly the first 64 bytes (fewer panic),
/// and it returns a 64-byte raw signature.
#[verifier::external_body]
pub(crate) fn ed25519_sign(message: &[u8], secret_key: &[u8]) -> (r: Vec<u8>)
    requires
        secret_key@.len() == 64,
    ensures
        r@ == ed25519_sig_of(message@, secret_key@),
        r@.len() == 64,
{
    crypto::ed25519::signature(message, secret_key).to_vec()
}

/// Relies on crypto::ed25519::verify: deterministic in its three arguments;
/// it reads exactly 32 public-key bytes and 64 signature bytes (fewer panic).
#[verifier::external_body]
pub(crate) fn ed25519_check(message: &[u8], public_key: &[u8], signature: &[u8]) -> (r: bool)
    requires
        public_key@.len() == 32,
        signature@.len() == 64,
    ensures
        r == ed25519_verify_of(message@, public_key@, signature@),
{
    crypto::ed25519::verify(message, public_key, signature)
}

/// A public key verifies exactly what the matching secret key signs.  This
/// holds of the key pairs the ed25519 key generation hands out; it is the
/// hypothesis under which signing then verifying succeeds.
pub open spec fn is_signing_pair(public_key: Seq<u8>, secret_key: Seq<u8>) -> bool {
    forall|m: Seq<u8>| #[trigger] ed25519_verify_of(m, public_key, ed25519_sig_of(m, secret_key))
}

/// Input `i` as the signer leaves it: the same input, its signature replaced
/// by the ed25519 signature over input `i`'s sighash message under `sk`.
pub open spec fn signed_input(t: TransactionView, prevs: Seq<TransactionView>, i: int, sk: Seq<u8>) -> InputView {
    InputView {
        txid: t.vin[i].txid,
        vout: t.vin[i].vout,
        signature: ed25519_sig_of(sighash_msg(t, i, prev_output_lock(t, prevs, i)), sk),
        pub_key: t.vin[i].pub_key,
    }
}

/// The transaction as the signer leaves it: id and outputs untouched, every
/// input carrying its per-input signature.
pub open spec fn signed_tx(t: TransactionView, prevs: Seq<TransactionView>, sk: Seq<u8>) -> TransactionView {
    TransactionView {
        id: t.id,
        vin: Seq::new(t.vin.len(), |i: int| signed_input(t, prevs, i, sk)),
        vout: t.vout,
    }
}

/// Input `i` of `t` carries a signature that passes the ed25519 check against
/// the input's own declared public key, over the sighash message derived with
/// the previous output's lock taken from `prevs`.
pub open spec fn input_sig_ok(t: TransactionView, prevs: Seq<TransactionView>, i: int) -> bool {
    ed25519_verify_of(
        sighash_msg(t, i, prev_output_lock(t, prevs, i)),
        t.vin[i].pub_key,
        t.vin[i].signature,
    )
}

} // verus!
