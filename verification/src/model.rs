use vstd::prelude::*;
use vstd::utf8::encode_utf8;
use crate::hashing::sha256_hex_of;

verus! {

// ------------------------------------------------------------------
// Mathematical images of the transaction data model.
// ------------------------------------------------------------------

/// Image of a transaction input.
pub struct InputView {
    pub txid: Seq<char>,
    pub vout: i32,
    pub signature: Seq<u8>,
    pub pub_key: Seq<u8>,
}

/// Image of a transaction output.
pub struct OutputView {
    pub value: i32,
    pub pub_key_hash: Seq<u8>,
}

/// Image of a whole transaction.
pub struct TransactionView {
    pub id: Seq<char>,
    pub vin: Seq<InputView>,
    pub vout: Seq<OutputView>,
}

/// A transaction is a coinbase exactly when it has one single input whose
/// previous-transaction id is empty and whose previous output index is -1.
pub open spec fn spec_is_coinbase(t: TransactionView) -> bool {
    &&& t.vin.len() == 1
    &&& t.vin[0].txid.len() == 0
    &&& t.vin[0].vout == -1i32
}

// ------------------------------------------------------------------
// The canonical byte encoding: fixed field order, little-endian
// fixed-width integers, 64-bit length prefixes on variable-length
// fields, no padding.
// ------------------------------------------------------------------

/// The value of `v` read as an unsigned 32-bit word (two's complement).
pub open spec fn u32_of_i32(v: i32) -> int {
    if v >= 0 {
        v as int
    } else {
        v as int + 0x1_0000_0000
    }
}

/// Four little-endian bytes of `n` (taken modulo 2^32).
pub open spec fn le4(n: int) -> Seq<u8> {
    seq![
        (n % 256) as u8,
        ((n / 0x100) % 256) as u8,
        ((n / 0x10000) % 256) as u8,
        ((n / 0x1000000) % 256) as u8,
    ]
}

/// Eight little-endian bytes of `n` (taken modulo 2^64).
pub open spec fn le8(n: int) -> Seq<u8> {
    seq![
        (n % 256) as u8,
        ((n / 0x100) % 256) as u8,
        ((n / 0x10000) % 256) as u8,
        ((n / 0x1000000) % 256) as u8,
        ((n / 0x1_0000_0000) % 256) as u8,
        ((n / 0x100_0000_0000) % 256) as u8,
        ((n / 0x1_0000_0000_0000) % 256) as u8,
        ((n / 0x100_0000_0000_0000) % 256) as u8,
    ]
}

/// A signed 32-bit integer encodes as its two's-complement word.
pub open spec fn enc_i32(v: i32) -> Seq<u8> {
    le4(u32_of_i32(v))
}

/// A byte string encodes as its 64-bit length followed by its bytes.
pub open spec fn enc_bytes(b: Seq<u8>) -> Seq<u8> {
    le8(b.len() as int) + b
}

/// A string encodes as its UTF-8 bytes, length-prefixed.
pub open spec fn enc_str(s: Seq<char>) -> Seq<u8> {
    enc_bytes(encode_utf8(s))
}

/// An input encodes its fields in order: txid, vout, signature, pub_key.
pub open spec fn enc_input(i: InputView) -> Seq<u8> {
    enc_str(i.txid) + enc_i32(i.vout) + enc_bytes(i.signature) + enc_bytes(i.pub_key)
}

/// An output encodes its fields in order: value, pub_key_hash.
pub open spec fn enc_output(o: OutputView) -> Seq<u8> {
    enc_i32(o.value) + enc_bytes(o.pub_key_hash)
}

pub open spec fn enc_input_seq(s: Seq<InputView>) -> Seq<u8>
    decreases s.len(),
{
    if s.len() == 0 {
        Seq::empty()
    } else {
        enc_input_seq(s.drop_last()) + enc_input(s.last())
    }
}

pub open spec fn enc_output_seq(s: Seq<OutputView>) -> Seq<u8>
    decreases s.len(),
{
    if s.len() == 0 {
        Seq::empty()
    } else {
        enc_output_seq(s.drop_last()) + enc_output(s.last())
    }
}

/// An input list encodes as its 64-bit length followed by each input.
pub open spec fn enc_inputs(s: Seq<InputView>) -> Seq<u8> {
    le8(s.len() as int) + enc_input_seq(s)
}

/// An output list encodes as its 64-bit length followed by each output.
pub open spec fn enc_outputs(s: Seq<OutputView>) -> Seq<u8> {
    le8(s.len() as int) + enc_output_seq(s)
}

/// The canonical encoding of a whole transaction: id, inputs, outputs.
pub open spec fn enc_tx(t: TransactionView) -> Seq<u8> {
    enc_str(t.id) + enc_inputs(t.vin) + enc_outputs(t.vout)
}

/// The same transaction with its id cleared to the empty string.
pub open spec fn with_clear_id(t: TransactionView) -> TransactionView {
    TransactionView { id: Seq::empty(), vin: t.vin, vout: t.vout }
}

/// The content-derived transaction id: the hex SHA-256 digest of the
/// canonical encoding taken with the id field held empty.  A pure function
/// of the inputs and outputs alone.
pub open spec fn tx_id_of(t: TransactionView) -> Seq<char> {
    sha256_hex_of(enc_tx(with_clear_id(t)))
}

/// `n` zero bytes.
pub open spec fn zero_bytes(n: nat) -> Seq<u8> {
    Seq::new(n, |i: int| 0u8)
}

/// The default coinbase note generated for a recipient address.
pub open spec fn coinbase_note(to: Seq<char>) -> Seq<char> {
    "Reward to '"@ + to + "'"@
}

// ------------------------------------------------------------------
// Trimmed copies and per-input sighash messages.
// ------------------------------------------------------------------

/// An input with its signature and declared public key cleared.
pub open spec fn trimmed_input(i: InputView) -> InputView {
    InputView { txid: i.txid, vout: i.vout, signature: Seq::empty(), pub_key: Seq::empty() }
}

/// The trimmed copy of a transaction: every input cleared of signature and
/// declared key, outputs copied verbatim.
pub open spec fn trimmed(t: TransactionView) -> TransactionView {
    TransactionView {
        id: t.id,
        vin: t.vin.map_values(|i: InputView| trimmed_input(i)),
        vout: t.vout,
    }
}

/// The trimmed copy with input `i`'s declared key replaced by `lock`, the
/// referenced previous output's lock: the value whose id is input `i`'s
/// sighash.
pub open spec fn sighash_base(t: TransactionView, i: int, lock: Seq<u8>) -> TransactionView {
    let tr = trimmed(t);
    TransactionView {
        id: tr.id,
        vin: tr.vin.update(
            i,
            InputView { txid: t.vin[i].txid, vout: t.vin[i].vout, signature: Seq::empty(), pub_key: lock },
        ),
        vout: tr.vout,
    }
}

/// The sighash for input `i` of `t`, given the previous output's lock: the
/// recomputed id of the substituted trimmed copy.
pub open spec fn sighash_of(t: TransactionView, i: int, lock: Seq<u8>) -> Seq<char> {
    tx_id_of(sighash_base(t, i, lock))
}

/// The bytes of that sighash string: the message that is signed.
pub open spec fn sighash_msg(t: TransactionView, i: int, lock: Seq<u8>) -> Seq<u8> {
    encode_utf8(sighash_of(t, i, lock))
}

// ------------------------------------------------------------------
// Resolution of previous transactions.
// ------------------------------------------------------------------

/// The first transaction in `prevs` whose id is `txid`.
pub open spec fn find_tx(prevs: Seq<TransactionView>, txid: Seq<char>) -> Option<TransactionView>
    decreases prevs.len(),
{
    if prevs.len() == 0 {
        None
    } else if prevs[0].id == txid {
        Some(prevs[0])
    } else {
        find_tx(prevs.drop_first(), txid)
    }
}

/// What `find_tx` returns carries the id it was looked up by.
pub proof fn lemma_find_tx_id(prevs: Seq<TransactionView>, txid: Seq<char>)
    ensures
        find_tx(prevs, txid) matches Some(t) ==> t.id == txid,
    decreases prevs.len(),
{
    if prevs.len() > 0 && prevs[0].id != txid {
        lemma_find_tx_id(prevs.drop_first(), txid);
    }
}

/// A previous-transaction id resolves when some supplied transaction carries
/// it and it is not the empty-id sentinel that stands for "not found".
pub open spec fn resolvable(prevs: Seq<TransactionView>, txid: Seq<char>) -> bool {
    txid.len() > 0 && find_tx(prevs, txid) is Some
}

/// Every input of `t` references a resolvable previous transaction.
pub open spec fn all_inputs_resolvable(t: TransactionView, prevs: Seq<TransactionView>) -> bool {
    forall|i: int| 0 <= i < t.vin.len() ==> resolvable(prevs, #[trigger] t.vin[i].txid)
}

/// The lock (public-key-hash) of the previous output that input `i` spends.
pub open spec fn prev_output_lock(t: TransactionView, prevs: Seq<TransactionView>, i: int) -> Seq<u8> {
    find_tx(prevs, t.vin[i].txid)->Some_0.vout[t.vin[i].vout as int].pub_key_hash
}

/// Every input whose previous transaction is found references a valid output
/// index within it.
pub open spec fn prev_vouts_in_range(t: TransactionView, prevs: Seq<TransactionView>) -> bool {
    forall|i: int| 0 <= i < t.vin.len() ==> match find_tx(prevs, #[trigger] t.vin[i].txid) {
        Some(p) => 0 <= t.vin[i].vout < p.vout.len(),
        None => true,
    }
}

// ------------------------------------------------------------------
// Stability lemmas: what sighash computation does not depend on.
// ------------------------------------------------------------------

/// The sighash base of input `i` reads only the inputs' txid and vout
/// fields, the outputs and the id: two transactions that agree there have
/// the same substituted trimmed copy, whatever their signatures and
/// declared keys.
pub proof fn lemma_sighash_ignores_signatures(a: TransactionView, b: TransactionView, i: int, lock: Seq<u8>)
    requires
        a.id == b.id,
        a.vout == b.vout,
        a.vin.len() == b.vin.len(),
        forall|j: int| 0 <= j < a.vin.len() ==> {
            &&& (#[trigger] a.vin[j]).txid == b.vin[j].txid
            &&& a.vin[j].vout == b.vin[j].vout
        },
        0 <= i < a.vin.len(),
    ensures
        sighash_base(a, i, lock) == sighash_base(b, i, lock),
{
    assert(trimmed(a).vin =~= trimmed(b).vin);
    assert(sighash_base(a, i, lock).vin =~= sighash_base(b, i, lock).vin);
}

/// Resolution and previous-output locks read only the inputs' txid and vout
/// fields: they carry over between transactions that agree there.
pub proof fn lemma_resolution_unchanged(orig: TransactionView, cur: TransactionView, prevs: Seq<TransactionView>)
    requires
        cur.vin.len() == orig.vin.len(),
        forall|j: int| 0 <= j < orig.vin.len() ==> {
            &&& (#[trigger] cur.vin[j]).txid == orig.vin[j].txid
            &&& cur.vin[j].vout == orig.vin[j].vout
        },
        all_inputs_resolvable(orig, prevs),
        prev_vouts_in_range(orig, prevs),
    ensures
        all_inputs_resolvable(cur, prevs),
        prev_vouts_in_range(cur, prevs),
        forall|j: int| 0 <= j < cur.vin.len() ==> prev_output_lock(cur, prevs, j) == prev_output_lock(
            orig,
            prevs,
            j,
        ),
{
    assert forall|i: int| 0 <= i < cur.vin.len() implies resolvable(
        prevs,
        #[trigger] cur.vin[i].txid,
    ) by {
        assert(resolvable(prevs, orig.vin[i].txid));
    }
    assert forall|i: int| 0 <= i < cur.vin.len() implies match find_tx(prevs, #[trigger] cur.vin[i].txid) {
        Some(p) => 0 <= cur.vin[i].vout < p.vout.len(),
        None => true,
    } by {
        assert(match find_tx(prevs, orig.vin[i].txid) {
            Some(p) => 0 <= orig.vin[i].vout < p.vout.len(),
            None => true,
        });
    }
}

} // verus!
