use vstd::prelude::*;
use crate::model::{
    all_inputs_resolvable, lemma_resolution_unchanged, lemma_sighash_ignores_signatures,
    prev_output_lock, prev_vouts_in_range, sighash_base, sighash_msg, spec_is_coinbase,
    trimmed_input, tx_id_of, with_clear_id, TransactionView,
};
use crate::signing::{
    ed25519_sig_of, ed25519_verify_of, input_sig_ok, is_signing_pair, signed_input, signed_tx,
};

verus! {

/// Determinism of the id: the content-derived id is a pure function of the
/// inputs and outputs alone and never reads the stored id, so two
/// transactions with the same content carry the same id.
pub proof fn lemma_id_depends_on_content_alone(a: TransactionView, b: TransactionView)
    requires
        a.vin == b.vin,
        a.vout == b.vout,
    ensures
        tx_id_of(a) == tx_id_of(b),
{
    assert(with_clear_id(a) == with_clear_id(b));
}

/// Signing then verifying succeeds: when every input of a spend declares
/// the public key of the signing pair, references a resolvable previous
/// transaction with a valid output index, and the same resolution is used
/// on both sides, every input of the signed transaction passes the
/// signature check.  The further conclusions restate, of the signed
/// transaction, what verification's own precondition and clauses ask for,
/// so a caller of `sign` can compose them with `verify`'s contract (the
/// 64-byte signature lengths come from `sign`'s own ensures).
pub proof fn lemma_sign_then_verify(
    t: TransactionView,
    prevs: Seq<TransactionView>,
    pk: Seq<u8>,
    sk: Seq<u8>,
)
    requires
        is_signing_pair(pk, sk),
        forall|i: int| 0 <= i < t.vin.len() ==> (#[trigger] t.vin[i]).pub_key == pk,
        !spec_is_coinbase(t),
        all_inputs_resolvable(t, prevs),
        prev_vouts_in_range(t, prevs),
    ensures
        forall|i: int| 0 <= i < signed_tx(t, prevs, sk).vin.len() ==> input_sig_ok(
            signed_tx(t, prevs, sk),
            prevs,
            i,
        ),
        !spec_is_coinbase(signed_tx(t, prevs, sk)),
        all_inputs_resolvable(signed_tx(t, prevs, sk), prevs),
        prev_vouts_in_range(signed_tx(t, prevs, sk), prevs),
        forall|i: int| 0 <= i < signed_tx(t, prevs, sk).vin.len() ==> (#[trigger] signed_tx(
            t,
            prevs,
            sk,
        ).vin[i]).pub_key == pk,
{
    let s = signed_tx(t, prevs, sk);
    assert forall|j: int| 0 <= j < t.vin.len() implies {
        &&& (#[trigger] s.vin[j]).txid == t.vin[j].txid
        &&& s.vin[j].vout == t.vin[j].vout
        &&& s.vin[j].pub_key == pk
    } by {
        assert(s.vin[j] == signed_input(t, prevs, j, sk));
    }
    lemma_resolution_unchanged(t, s, prevs);
    if s.vin.len() == 1 {
        assert(s.vin[0].txid == t.vin[0].txid);
        assert(s.vin[0].vout == t.vin[0].vout);
    }
    assert(!spec_is_coinbase(s));
    assert forall|i: int| 0 <= i < s.vin.len() implies input_sig_ok(s, prevs, i) by {
        let lock = prev_output_lock(t, prevs, i);
        lemma_sighash_ignores_signatures(s, t, i, lock);
        assert(s.vin[i] == signed_input(t, prevs, i, sk));
        assert(prev_output_lock(s, prevs, i) == lock);
        assert(sighash_msg(s, i, lock) == sighash_msg(t, i, lock));
        assert(s.vin[i].signature == ed25519_sig_of(sighash_msg(t, i, lock), sk));
        assert(s.vin[i].pub_key == pk);
        assert(ed25519_verify_of(
            sighash_msg(t, i, lock),
            pk,
            ed25519_sig_of(sighash_msg(t, i, lock), sk),
        ));
    }
}

/// Output tampering reaches every sighash pre-image: two transactions that
/// differ anywhere in their outputs have different substituted trimmed
/// copies at every input index, since outputs are copied verbatim into the
/// value whose encoding is digested into the sighash.
pub proof fn lemma_output_tamper_changes_sighash_base(
    a: TransactionView,
    b: TransactionView,
    i: int,
    lock: Seq<u8>,
)
    requires
        a.vout != b.vout,
    ensures
        sighash_base(a, i, lock) != sighash_base(b, i, lock),
{
}

/// Per-input distinctness of the sighash pre-image: for a two-input
/// transaction, the two substituted trimmed copies (the values whose
/// encodings are digested into the two sighash strings) differ whenever the
/// two referenced previous outputs' locks differ.
pub proof fn lemma_sighash_bases_differ(t: TransactionView, lock0: Seq<u8>, lock1: Seq<u8>)
    requires
        t.vin.len() == 2,
        lock0 != lock1,
    ensures
        sighash_base(t, 0, lock0) != sighash_base(t, 1, lock1),
{
    let b0 = sighash_base(t, 0, lock0);
    let b1 = sighash_base(t, 1, lock1);
    assert(b0.vin[0].pub_key == lock0);
    assert(b1.vin[0] == trimmed_input(t.vin[0]));
    assert(b0.vin[1] == trimmed_input(t.vin[1]));
    assert(b1.vin[1].pub_key == lock1);
    if lock0 == Seq::<u8>::empty() {
        assert(b0.vin[1].pub_key != b1.vin[1].pub_key);
    } else {
        assert(b0.vin[0].pub_key != b1.vin[0].pub_key);
    }
}

} // verus!
