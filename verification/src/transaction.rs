use vstd::prelude::*;
use vstd::slice::slice_to_vec;
use crate::address::{decode_address, decoded_address};
use crate::codec::encode_tx_cleared;
use crate::errors::TxError;
use crate::hashing::{is_sha256_hex_string, sha256_hex};
use crate::model::{
    all_inputs_resolvable, coinbase_note, find_tx, lemma_resolution_unchanged,
    lemma_sighash_ignores_signatures, prev_output_lock, prev_vouts_in_range, resolvable,
    sighash_of, spec_is_coinbase, trimmed, trimmed_input, tx_id_of, with_clear_id, zero_bytes,
    InputView, OutputView, TransactionView,
};
use crate::signing::{ed25519_check, ed25519_sign, input_sig_ok, signed_input, signed_tx};
use crate::entropy::random_entropy_32;
use vstd::pervasive::VecAdditionalExecFns;
use vstd::string::{StrSliceExecFns, StringExecFns};
use vstd::utf8::encode_utf8;

verus! {

/// The fixed reward granted by a coinbase transaction.
pub const SUBSIDY: i32 = 10;

/// A transaction input: the id of the transaction whose output it spends,
/// the index of that output (-1 only for coinbase), the raw signature bytes
/// (empty until signed) and the spender's declared public key.
#[derive(Debug, Clone)]
pub struct TXInput {
    pub txid: String,
    pub vout: i32,
    pub signature: Vec<u8>,
    pub pub_key: Vec<u8>,
}

/// A transaction output: an amount and the public-key-hash it is locked to.
#[derive(Debug, Clone)]
pub struct TXOutput {
    pub value: i32,
    pub pub_key_hash: Vec<u8>,
}

/// A collection of outputs.
#[derive(Debug, Clone)]
pub struct TXOutputs {
    pub outputs: Vec<TXOutput>,
}

/// A transaction: a content-derived id (empty only transiently during
/// construction), its inputs and its outputs.
#[derive(Debug, Clone)]
pub struct Transaction {
    pub id: String,
    pub vin: Vec<TXInput>,
    pub vout: Vec<TXOutput>,
}

impl View for TXInput {
    type V = InputView;

    open spec fn view(&self) -> InputView {
        InputView {
            txid: self.txid@,
            vout: self.vout,
            signature: self.signature@,
            pub_key: self.pub_key@,
        }
    }
}

impl View for TXOutput {
    type V = OutputView;

    open spec fn view(&self) -> OutputView {
        OutputView { value: self.value, pub_key_hash: self.pub_key_hash@ }
    }
}

impl View for TXOutputs {
    type V = Seq<OutputView>;

    open spec fn view(&self) -> Seq<OutputView> {
        output_views(self.outputs@)
    }
}

impl View for Transaction {
    type V = TransactionView;

    open spec fn view(&self) -> TransactionView {
        TransactionView {
            id: self.id@,
            vin: input_views(self.vin@),
            vout: output_views(self.vout@),
        }
    }
}

/// The images of a sequence of inputs.
pub open spec fn input_views(s: Seq<TXInput>) -> Seq<InputView> {
    s.map_values(|x: TXInput| x@)
}

/// The images of a sequence of outputs.
pub open spec fn output_views(s: Seq<TXOutput>) -> Seq<OutputView> {
    s.map_values(|x: TXOutput| x@)
}

/// The images of a sequence of transactions.
pub open spec fn tx_views(s: Seq<Transaction>) -> Seq<TransactionView> {
    s.map_values(|t: Transaction| t@)
}

/// The images of a coin-selection result: (previous id, output index) pairs.
pub open spec fn outpoint_views(s: Seq<(String, i32)>) -> Seq<(Seq<char>, i32)> {
    s.map_values(|p: (String, i32)| (p.0@, p.1))
}

/// The inputs a spend builds: one per selected outpoint, in order, each
/// carrying the spender's declared public key and an empty signature.
pub open spec fn spend_inputs(pk: Seq<u8>, sel: Seq<(Seq<char>, i32)>) -> Seq<InputView> {
    Seq::new(
        sel.len(),
        |j: int| InputView { txid: sel[j].0, vout: sel[j].1, signature: Seq::empty(), pub_key: pk },
    )
}

/// The outputs a spend builds: the paid amount locked to the recipient and,
/// when the selection exceeds the amount, the change locked back to the
/// spender.
pub open spec fn spend_outputs(amount: i32, available: i32, to_lock: Seq<u8>, change_lock: Seq<u8>) -> Seq<OutputView> {
    if available > amount {
        seq![
            OutputView { value: amount, pub_key_hash: to_lock },
            OutputView { value: (available - amount) as i32, pub_key_hash: change_lock },
        ]
    } else {
        seq![OutputView { value: amount, pub_key_hash: to_lock }]
    }
}

/// The assembled spend before signing, its id already computed.
pub open spec fn spend_base(pk: Seq<u8>, sel: Seq<(Seq<char>, i32)>, outs: Seq<OutputView>) -> TransactionView {
    let skeleton = TransactionView { id: Seq::empty(), vin: spend_inputs(pk, sel), vout: outs };
    TransactionView { id: tx_id_of(skeleton), vin: skeleton.vin, vout: skeleton.vout }
}

/// The spend as the constructor returns it: assembled, its id assigned, and
/// signed (signing leaves a coinbase-shaped assembly untouched).
pub open spec fn spend_result(
    pk: Seq<u8>,
    sk: Seq<u8>,
    sel: Seq<(Seq<char>, i32)>,
    outs: Seq<OutputView>,
    prevs: Seq<TransactionView>,
) -> TransactionView {
    let base = spend_base(pk, sel, outs);
    if spec_is_coinbase(base) {
        base
    } else {
        signed_tx(base, prevs, sk)
    }
}

impl Transaction {
    /// A new coinbase transaction granting the subsidy to the recipient
    /// address.  An empty note is replaced by a default note followed by 32
    /// bytes of fresh entropy, so coinbases for the same recipient still get
    /// distinct ids; a non-empty note is padded with 32 zero bytes.  Fails
    /// only on a malformed address.
    pub fn new_coinbase(to: String, data: String) -> (r: Result<Transaction, TxError>)
        ensures
            match r {
                Ok(tx) => {
                    &&& decoded_address(to@) is Some
                    &&& spec_is_coinbase(tx@)
                    &&& tx@.vout.len() == 1
                    &&& tx@.vout[0] == (OutputView {
                        value: SUBSIDY,
                        pub_key_hash: decoded_address(to@)->Some_0,
                    })
                    &&& tx@.vin[0].signature.len() == 0
                    &&& (data@.len() > 0 ==> tx@.vin[0].pub_key == encode_utf8(data@)
                        + zero_bytes(32))
                    &&& (data@.len() == 0 ==> {
                        &&& tx@.vin[0].pub_key.len() == encode_utf8(coinbase_note(to@)).len()
                            + 32
                        &&& tx@.vin[0].pub_key.take(encode_utf8(coinbase_note(to@)).len() as int)
                            == encode_utf8(coinbase_note(to@))
                    })
                    &&& tx@.id == tx_id_of(tx@)
                    &&& is_sha256_hex_string(tx@.id)
                },
                Err(e) => {
                    &&& e == TxError::InvalidAddress
                    &&& decoded_address(to@) is None
                },
            },
    {
        let mut pub_key: Vec<u8>;
        if data.as_str().is_empty() {
            let mut note = String::from_str("Reward to '");
            note.append(to.as_str());
            note.append("'");
            proof {
                assert(note@ == coinbase_note(to@));
            }
            pub_key = note.as_str().as_bytes_vec();
            let ghost note_bytes = pub_key@;
            let mut entropy = random_entropy_32();
            pub_key.append(&mut entropy);
            proof {
                assert(pub_key@.take(note_bytes.len() as int) =~= note_bytes);
            }
        } else {
            pub_key = data.as_str().as_bytes_vec();
            let mut zeros: Vec<u8> = Vec::new();
            let mut i: usize = 0;
            while i < 32
                invariant
                    i <= 32,
                    zeros@.len() == i,
                    forall|j: int| 0 <= j < i ==> zeros@[j] == 0u8,
                decreases 32 - i,
            {
                zeros.push(0u8);
                i = i + 1;
            }
            proof {
                assert(zeros@ =~= zero_bytes(32));
            }
            pub_key.append(&mut zeros);
        }

        let reward = match TXOutput::new(SUBSIDY, to) {
            Ok(o) => o,
            Err(e) => {
                return Err(e);
            },
        };
        let mut vin: Vec<TXInput> = Vec::new();
        vin.push(TXInput { txid: String::new(), vout: -1, signature: Vec::new(), pub_key });
        let mut vout: Vec<TXOutput> = Vec::new();
        vout.push(reward);
        let mut tx = Transaction { id: String::new(), vin, vout };
        let ghost assembled = tx@;
        let id = match tx.hash() {
            Ok(s) => s,
            Err(e) => {
                proof {
                    assert(false);
                }
                return Err(e);
            },
        };
        tx.id = id;
        proof {
            assert(with_clear_id(tx@) == with_clear_id(assembled));
            assert(tx@.vin[0] == tx.vin@[0]@);
            assert(tx@.vout[0] == tx.vout@[0]@);
        }
        Ok(tx)
    }

    /// A new spend: `amount` moves from the spender (whose key pair and
    /// address are given) to the recipient address, consuming the selected
    /// previously unspent outputs; any excess of the selection over the
    /// amount comes back to the spender as change.  The available total is
    /// checked before anything is built, the id is assigned, and every
    /// input is signed against the supplied previous transactions.
    #[verifier::rlimit(100)]
    pub fn new_utxo(
        public_key: &Vec<u8>,
        secret_key: &Vec<u8>,
        spender_address: &String,
        to: &String,
        amount: i32,
        available: i32,
        selected: &Vec<(String, i32)>,
        prev_txs: &Vec<Transaction>,
    ) -> (r: Result<Transaction, TxError>)
        requires
            amount > 0,
            (available >= amount && forall|j: int| 0 <= j < selected@.len() ==> resolvable(
                tx_views(prev_txs@),
                (#[trigger] selected@[j].0)@,
            )) ==> {
                &&& secret_key@.len() == 64
                &&& forall|j: int| 0 <= j < selected@.len() ==> match find_tx(
                    tx_views(prev_txs@),
                    (#[trigger] selected@[j].0)@,
                ) {
                    Some(p) => 0 <= selected@[j].1 < p.vout.len(),
                    None => true,
                }
            },
        ensures
            ({
                let views = tx_views(prev_txs@);
                let outs = spend_outputs(
                    amount,
                    available,
                    decoded_address(to@)->Some_0,
                    decoded_address(spender_address@)->Some_0,
                );
                let base = spend_base(public_key@, outpoint_views(selected@), outs);
                match r {
                    Ok(tx) => {
                        &&& available >= amount
                        &&& decoded_address(to@) is Some
                        &&& (available > amount ==> decoded_address(spender_address@) is Some)
                        &&& (spec_is_coinbase(base) || all_inputs_resolvable(base, views))
                        &&& (!spec_is_coinbase(base) ==> forall|i: int|
                            0 <= i < tx@.vin.len() ==> (#[trigger] tx@.vin[i]).signature.len()
                                == 64)
                        &&& is_sha256_hex_string(tx@.id)
                        &&& tx@ == spend_result(
                            public_key@,
                            secret_key@,
                            outpoint_views(selected@),
                            outs,
                            views,
                        )
                    },
                    Err(TxError::InsufficientFunds) => available < amount,
                    Err(TxError::InvalidAddress) => {
                        &&& available >= amount
                        &&& (decoded_address(to@) is None || (available > amount
                            && decoded_address(spender_address@) is None))
                    },
                    Err(TxError::UnresolvedPreviousTransaction) => {
                        &&& available >= amount
                        &&& decoded_address(to@) is Some
                        &&& (available > amount ==> decoded_address(spender_address@) is Some)
                        &&& !spec_is_coinbase(base)
                        &&& !all_inputs_resolvable(base, views)
                    },
                }
            }),
    {
        if available < amount {
            return Err(TxError::InsufficientFunds);
        }

        let ghost views = tx_views(prev_txs@);
        let ghost sel = outpoint_views(selected@);
        let mut vin: Vec<TXInput> = Vec::new();
        let n = selected.len();
        let mut j: usize = 0;
        while j < n
            invariant
                j <= n,
                n == selected@.len(),
                sel == outpoint_views(selected@),
                vin@.len() == j,
                forall|k: int| 0 <= k < j ==> #[trigger] vin@[k]@ == spend_inputs(public_key@, sel)[k],
            decreases n - j,
        {
            proof {
                assert(sel[j as int] == (selected@[j as int].0@, selected@[j as int].1));
            }
            vin.push(
                TXInput {
                    txid: selected[j].0.clone(),
                    vout: selected[j].1,
                    signature: Vec::new(),
                    pub_key: slice_to_vec(public_key.as_slice()),
                },
            );
            j = j + 1;
        }

        let to_out = match TXOutput::new(amount, to.clone()) {
            Ok(o) => o,
            Err(e) => {
                return Err(e);
            },
        };
        let mut vout: Vec<TXOutput> = Vec::new();
        vout.push(to_out);
        if available > amount {
            let change = match TXOutput::new(available - amount, spender_address.clone()) {
                Ok(o) => o,
                Err(e) => {
                    return Err(e);
                },
            };
            vout.push(change);
        }

        let ghost outs = spend_outputs(
            amount,
            available,
            decoded_address(to@)->Some_0,
            decoded_address(spender_address@)->Some_0,
        );
        let mut tx = Transaction { id: String::new(), vin, vout };
        proof {
            assert(input_views(tx.vin@) =~= spend_inputs(public_key@, sel));
            assert(output_views(tx.vout@) =~= outs);
        }
        let id = match tx.hash() {
            Ok(s) => s,
            Err(e) => {
                proof {
                    assert(false);
                }
                return Err(e);
            },
        };
        tx.id = id;
        let ghost base = spend_base(public_key@, sel, outs);
        proof {
            assert(with_clear_id(tx@) == with_clear_id(
                TransactionView { id: Seq::empty(), vin: spend_inputs(public_key@, sel), vout: outs },
            ));
            assert(tx@ == base);
            // Signing's precondition: when the assembly is neither coinbase-
            // shaped nor unresolvable, the caller vouched for the key length
            // and the output indexes.
            if !spec_is_coinbase(base) && all_inputs_resolvable(base, views) {
                assert forall|k: int| 0 <= k < selected@.len() implies resolvable(
                    views,
                    (#[trigger] selected@[k].0)@,
                ) by {
                    assert(base.vin[k].txid == selected@[k].0@);
                    assert(resolvable(views, base.vin[k].txid));
                }
                assert(secret_key@.len() == 64);
                assert forall|k: int| 0 <= k < base.vin.len() implies match find_tx(
                    views,
                    (#[trigger] base.vin[k]).txid,
                ) {
                    Some(p) => 0 <= base.vin[k].vout < p.vout.len(),
                    None => true,
                } by {
                    assert(base.vin[k].txid == selected@[k].0@);
                    assert(base.vin[k].vout == selected@[k].1);
                }
            }
        }
        match tx.sign(secret_key.as_slice(), prev_txs) {
            Ok(()) => {
                proof {
                    assert(tx@ == spend_result(public_key@, secret_key@, sel, outs, views));
                }
                Ok(tx)
            },
            Err(e) => Err(e),
        }
    }

    /// Whether this transaction is a coinbase: one single input with an
    /// empty previous id and a previous output index of -1.
    pub fn is_coinbase(&self) -> (r: bool)
        ensures
            r == spec_is_coinbase(self@),
    {
        self.vin.len() == 1 && self.vin[0].txid.as_str().is_empty() && self.vin[0].vout == -1
    }

    /// The content-derived id of this transaction: the hex digest of its
    /// canonical encoding taken with the id field held empty.  Pure in the
    /// inputs and outputs; it never fails.
    pub fn hash(&self) -> (r: Result<String, TxError>)
        ensures
            r matches Ok(id) && id@ == tx_id_of(self@) && is_sha256_hex_string(id@),
    {
        let data = encode_tx_cleared(self);
        Ok(sha256_hex(data.as_slice()))
    }

    /// The trimmed copy used as the base of every sighash: the same inputs
    /// in the same order with signature and declared key cleared, outputs
    /// copied verbatim.
    pub fn trim_copy(&self) -> (r: Transaction)
        ensures
            r@ == trimmed(self@),
    {
        let mut vin: Vec<TXInput> = Vec::new();
        let mut vout: Vec<TXOutput> = Vec::new();

        let n = self.vin.len();
        let mut i: usize = 0;
        while i < n
            invariant
                i <= n,
                n == self.vin@.len(),
                vin@.len() == i,
                forall|j: int| 0 <= j < i ==> vin@[j]@ == trimmed_input(#[trigger] self.vin@[j]@),
            decreases n - i,
        {
            vin.push(
                TXInput {
                    txid: self.vin[i].txid.clone(),
                    vout: self.vin[i].vout,
                    signature: Vec::new(),
                    pub_key: Vec::new(),
                },
            );
            i = i + 1;
        }

        let m = self.vout.len();
        let mut k: usize = 0;
        while k < m
            invariant
                k <= m,
                m == self.vout@.len(),
                vout@.len() == k,
                forall|j: int| 0 <= j < k ==> vout@[j]@ == #[trigger] self.vout@[j]@,
            decreases m - k,
        {
            vout.push(
                TXOutput {
                    value: self.vout[k].value,
                    pub_key_hash: slice_to_vec(self.vout[k].pub_key_hash.as_slice()),
                },
            );
            k = k + 1;
        }

        let r = Transaction { id: self.id.clone(), vin, vout };
        proof {
            assert(r@.vin =~= trimmed(self@).vin);
            assert(r@.vout =~= trimmed(self@).vout);
        }
        r
    }

    /// Whether every input references a resolvable previous transaction:
    /// each previous id is carried by some supplied transaction and is not
    /// the empty-id sentinel.
    fn prevs_resolvable(&self, prev_txs: &Vec<Transaction>) -> (r: bool)
        ensures
            r == all_inputs_resolvable(self@, tx_views(prev_txs@)),
    {
        let ghost views = tx_views(prev_txs@);
        let n = self.vin.len();
        let mut i: usize = 0;
        while i < n
            invariant
                i <= n,
                n == self.vin@.len(),
                views == tx_views(prev_txs@),
                forall|j: int| 0 <= j < i ==> resolvable(views, (#[trigger] self@.vin[j]).txid),
            decreases n - i,
        {
            proof {
                assert(self@.vin[i as int] == self.vin@[i as int]@);
            }
            match find_prev(prev_txs, &self.vin[i].txid) {
                Some(prev) => {
                    proof {
                        crate::model::lemma_find_tx_id(views, self@.vin[i as int].txid);
                    }
                    if prev.id.as_str().is_empty() {
                        proof {
                            assert(prev@.id == self@.vin[i as int].txid);
                            assert(!resolvable(views, self@.vin[i as int].txid));
                        }
                        return false;
                    }
                    proof {
                        assert(resolvable(views, self@.vin[i as int].txid));
                    }
                },
                None => {
                    proof {
                        assert(!resolvable(views, self@.vin[i as int].txid));
                    }
                    return false;
                },
            }
            i = i + 1;
        }
        true
    }

    /// The sighash message for input `in_id`: the id of the trimmed copy
    /// with that input's declared key replaced by the lock of the previous
    /// output it spends.  All previous transactions are resolved up front;
    /// any failure aborts the whole computation.
    pub fn sighash(&self, in_id: usize, prev_txs: &Vec<Transaction>) -> (r: Result<String, TxError>)
        requires
            in_id < self@.vin.len(),
            prev_vouts_in_range(self@, tx_views(prev_txs@)),
        ensures
            match r {
                Ok(s) => {
                    &&& all_inputs_resolvable(self@, tx_views(prev_txs@))
                    &&& s@ == sighash_of(
                        self@,
                        in_id as int,
                        prev_output_lock(self@, tx_views(prev_txs@), in_id as int),
                    )
                    &&& is_sha256_hex_string(s@)
                },
                Err(e) => {
                    &&& e == TxError::UnresolvedPreviousTransaction
                    &&& !all_inputs_resolvable(self@, tx_views(prev_txs@))
                },
            },
    {
        let ghost views = tx_views(prev_txs@);
        if !self.prevs_resolvable(prev_txs) {
            return Err(TxError::UnresolvedPreviousTransaction);
        }
        let prev = match find_prev(prev_txs, &self.vin[in_id].txid) {
            Some(p) => p,
            None => {
                proof {
                    assert(resolvable(views, self@.vin[in_id as int].txid));
                    assert(false);
                }
                return Err(TxError::UnresolvedPreviousTransaction);
            },
        };
        let vout_idx = self.vin[in_id].vout;
        proof {
            assert(self@.vin[in_id as int] == self.vin@[in_id as int]@);
            assert(find_tx(views, self@.vin[in_id as int].txid) == Some(prev@));
            assert(vout_idx == self@.vin[in_id as int].vout);
            assert(0 <= vout_idx < prev@.vout.len());
            assert(prev@.vout.len() == prev.vout@.len());
        }
        let lock = &prev.vout[vout_idx as usize].pub_key_hash;

        let mut copy = self.trim_copy();
        proof {
            assert(copy@.vin.len() == self@.vin.len());
            assert(copy@.vin.len() == copy.vin@.len());
        }
        let substituted = TXInput {
            txid: self.vin[in_id].txid.clone(),
            vout: self.vin[in_id].vout,
            signature: Vec::new(),
            pub_key: slice_to_vec(lock.as_slice()),
        };
        copy.vin.set(in_id, substituted);
        proof {
            let base = crate::model::sighash_base(
                self@,
                in_id as int,
                prev_output_lock(self@, views, in_id as int),
            );
            assert(input_views(copy.vin@) =~= base.vin);
            assert(copy@ == base);
        }
        let data = encode_tx_cleared(&copy);
        Ok(sha256_hex(data.as_slice()))
    }

    /// Signs every input of a spend transaction in place: each input's
    /// signature becomes the ed25519 signature over that input's sighash
    /// message under the given secret key.  Coinbase transactions are left
    /// untouched; an unresolvable previous transaction aborts the whole
    /// call before anything is mutated.  The id, the outputs and every
    /// declared key stay as they were.
    #[verifier::rlimit(100)]
    pub fn sign(&mut self, private_key: &[u8], prev_txs: &Vec<Transaction>) -> (r: Result<(), TxError>)
        requires
            spec_is_coinbase(old(self)@) || !all_inputs_resolvable(
                old(self)@,
                tx_views(prev_txs@),
            ) || (private_key@.len() == 64 && prev_vouts_in_range(old(self)@, tx_views(prev_txs@))),
        ensures
            match r {
                Ok(()) => {
                    &&& (spec_is_coinbase(old(self)@) ==> final(self)@ == old(self)@)
                    &&& (!spec_is_coinbase(old(self)@) ==> {
                        &&& all_inputs_resolvable(old(self)@, tx_views(prev_txs@))
                        &&& final(self)@ == signed_tx(
                            old(self)@,
                            tx_views(prev_txs@),
                            private_key@,
                        )
                        &&& forall|i: int| 0 <= i < final(self)@.vin.len()
                            ==> (#[trigger] final(self)@.vin[i]).signature.len() == 64
                    })
                },
                Err(e) => {
                    &&& e == TxError::UnresolvedPreviousTransaction
                    &&& !spec_is_coinbase(old(self)@)
                    &&& !all_inputs_resolvable(old(self)@, tx_views(prev_txs@))
                    &&& final(self)@ == old(self)@
                },
            },
    {
        if self.is_coinbase() {
            return Ok(());
        }
        if !self.prevs_resolvable(prev_txs) {
            return Err(TxError::UnresolvedPreviousTransaction);
        }
        let ghost orig = self@;
        let ghost views = tx_views(prev_txs@);
        let n = self.vin.len();
        let mut in_id: usize = 0;
        while in_id < n
            invariant
                in_id <= n,
                n == self.vin@.len(),
                n == orig.vin.len(),
                views == tx_views(prev_txs@),
                all_inputs_resolvable(orig, views),
                prev_vouts_in_range(orig, views),
                private_key@.len() == 64,
                self@.id == orig.id,
                self@.vout == orig.vout,
                forall|j: int| in_id <= j < n ==> #[trigger] self@.vin[j] == orig.vin[j],
                forall|j: int| 0 <= j < in_id ==> #[trigger] self@.vin[j] == signed_input(
                    orig,
                    views,
                    j,
                    private_key@,
                ),
                forall|j: int| 0 <= j < in_id ==> (#[trigger] self@.vin[j]).signature.len() == 64,
            decreases n - in_id,
        {
            proof {
                assert forall|j: int| 0 <= j < orig.vin.len() implies {
                    &&& (#[trigger] self@.vin[j]).txid == orig.vin[j].txid
                    &&& self@.vin[j].vout == orig.vin[j].vout
                } by {
                    if j < in_id {
                        assert(self@.vin[j] == signed_input(orig, views, j, private_key@));
                    }
                }
                lemma_resolution_unchanged(orig, self@, views);
            }
            let msg = match self.sighash(in_id, prev_txs) {
                Ok(s) => s,
                Err(_) => {
                    proof {
                        assert(false);
                    }
                    return Err(TxError::UnresolvedPreviousTransaction);
                },
            };
            proof {
                lemma_sighash_ignores_signatures(
                    self@,
                    orig,
                    in_id as int,
                    prev_output_lock(orig, views, in_id as int),
                );
                assert(msg@ == sighash_of(orig, in_id as int, prev_output_lock(orig, views, in_id as int)));
            }
            let signature = ed25519_sign(msg.as_str().as_bytes(), private_key);
            let signed = TXInput {
                txid: self.vin[in_id].txid.clone(),
                vout: self.vin[in_id].vout,
                signature,
                pub_key: slice_to_vec(self.vin[in_id].pub_key.as_slice()),
            };
            let ghost pre = self@;
            let ghost pre_vin = self.vin@;
            proof {
                assert(signed@ == signed_input(orig, views, in_id as int, private_key@));
            }
            self.vin.set(in_id, signed);
            proof {
                assert forall|j: int| 0 <= j < n && j != in_id implies #[trigger] self@.vin[j]
                    == pre.vin[j] by {
                    assert(self.vin@[j] == pre_vin[j]);
                    assert(self@.vin[j] == self.vin@[j]@);
                    assert(pre.vin[j] == pre_vin[j]@);
                }
                assert(self@.vin[in_id as int] == self.vin@[in_id as int]@);
                assert(self@.vin[in_id as int] == signed_input(orig, views, in_id as int, private_key@));
            }
            in_id = in_id + 1;
        }
        proof {
            assert(self@.vin =~= signed_tx(orig, views, private_key@).vin);
            assert(self@ == signed_tx(orig, views, private_key@));
        }
        Ok(())
    }

    /// Checks every input's stored signature against that input's sighash
    /// message, using the input's own declared public key.  A coinbase
    /// verifies as true outright; an unresolvable previous transaction is an
    /// error; a failing signature makes the whole verification false.
    ///
    /// The declared key is taken at face value: deliberately, nothing here
    /// checks that it hashes to the previous output's lock, so passing
    /// verification shows that whoever holds the declared key's secret half
    /// authorized the spend, not that the declared key is the one the
    /// spent output was locked to.
    pub fn verify(&self, prev_txs: &Vec<Transaction>) -> (r: Result<bool, TxError>)
        requires
            spec_is_coinbase(self@) || !all_inputs_resolvable(self@, tx_views(prev_txs@)) || (
            prev_vouts_in_range(self@, tx_views(prev_txs@)) && forall|i: int|
                0 <= i < self@.vin.len() ==> (#[trigger] self@.vin[i]).pub_key.len() == 32
                    && self@.vin[i].signature.len() == 64),
        ensures
            match r {
                Ok(b) => {
                    &&& (spec_is_coinbase(self@) ==> b == true)
                    &&& (!spec_is_coinbase(self@) ==> {
                        &&& all_inputs_resolvable(self@, tx_views(prev_txs@))
                        &&& b == (forall|i: int|
                            0 <= i < self@.vin.len() ==> input_sig_ok(
                                self@,
                                tx_views(prev_txs@),
                                i,
                            ))
                    })
                },
                Err(e) => {
                    &&& e == TxError::UnresolvedPreviousTransaction
                    &&& !spec_is_coinbase(self@)
                    &&& !all_inputs_resolvable(self@, tx_views(prev_txs@))
                },
            },
    {
        if self.is_coinbase() {
            return Ok(true);
        }
        if !self.prevs_resolvable(prev_txs) {
            return Err(TxError::UnresolvedPreviousTransaction);
        }
        let ghost views = tx_views(prev_txs@);
        let n = self.vin.len();
        let mut in_id: usize = 0;
        while in_id < n
            invariant
                in_id <= n,
                n == self.vin@.len(),
                views == tx_views(prev_txs@),
                all_inputs_resolvable(self@, views),
                prev_vouts_in_range(self@, views),
                forall|i: int| 0 <= i < self@.vin.len() ==> (#[trigger] self@.vin[i]).pub_key.len()
                    == 32 && self@.vin[i].signature.len() == 64,
                forall|j: int| 0 <= j < in_id ==> input_sig_ok(self@, views, j),
            decreases n - in_id,
        {
            let msg = match self.sighash(in_id, prev_txs) {
                Ok(s) => s,
                Err(_) => {
                    proof {
                        assert(false);
                    }
                    return Err(TxError::UnresolvedPreviousTransaction);
                },
            };
            let ok = ed25519_check(
                msg.as_str().as_bytes(),
                self.vin[in_id].pub_key.as_slice(),
                self.vin[in_id].signature.as_slice(),
            );
            if !ok {
                proof {
                    assert(!input_sig_ok(self@, views, in_id as int));
                }
                return Ok(false);
            }
            in_id = in_id + 1;
        }
        Ok(true)
    }
}

/// The first supplied transaction whose id is `txid`, if any.
fn find_prev<'a>(prev_txs: &'a Vec<Transaction>, txid: &String) -> (r: Option<&'a Transaction>)
    ensures
        match r {
            Some(t) => find_tx(tx_views(prev_txs@), txid@) == Some(t@),
            None => find_tx(tx_views(prev_txs@), txid@) is None,
        },
{
    let ghost views = tx_views(prev_txs@);
    proof {
        assert(views.skip(0) =~= views);
    }
    let n = prev_txs.len();
    let mut i: usize = 0;
    while i < n
        invariant
            i <= n,
            n == prev_txs@.len(),
            views == tx_views(prev_txs@),
            views.len() == n,
            find_tx(views, txid@) == find_tx(views.skip(i as int), txid@),
        decreases n - i,
    {
        if prev_txs[i].id == *txid {
            proof {
                assert(views.skip(i as int)[0] == prev_txs@[i as int]@);
            }
            return Some(&prev_txs[i]);
        }
        proof {
            assert(views.skip(i as int)[0] == prev_txs@[i as int]@);
            assert(views.skip(i as int).drop_first() =~= views.skip(i + 1));
        }
        i = i + 1;
    }
    proof {
        assert(views.skip(n as int) =~= Seq::<TransactionView>::empty());
    }
    None
}

impl TXOutput {
    /// Whether this output is locked to exactly the given public-key-hash.
    pub fn is_locked_with_key(&self, pub_key_hash: &[u8]) -> (r: bool)
        ensures
            r == (self@.pub_key_hash == pub_key_hash@),
    {
        let n = self.pub_key_hash.len();
        if n != pub_key_hash.len() {
            return false;
        }
        let mut i: usize = 0;
        while i < n
            invariant
                i <= n,
                n == self.pub_key_hash@.len(),
                n == pub_key_hash@.len(),
                forall|j: int| 0 <= j < i ==> self.pub_key_hash@[j] == pub_key_hash@[j],
            decreases n - i,
        {
            if self.pub_key_hash[i] != pub_key_hash[i] {
                return false;
            }
            i = i + 1;
        }
        proof {
            assert(self.pub_key_hash@ =~= pub_key_hash@);
        }
        true
    }

    /// Locks this output to the public-key-hash embedded in the address;
    /// a malformed address is reported, never aborted on.
    fn lock(&mut self, address: &str) -> (r: Result<(), TxError>)
        ensures
            match r {
                Ok(()) => {
                    &&& decoded_address(address@) is Some
                    &&& final(self).value == old(self).value
                    &&& final(self)@.pub_key_hash == decoded_address(address@)->Some_0
                },
                Err(e) => {
                    &&& e == TxError::InvalidAddress
                    &&& decoded_address(address@) is None
                    &&& *final(self) == *old(self)
                },
            },
    {
        match decode_address(address) {
            Some(pub_key_hash) => {
                self.pub_key_hash = pub_key_hash;
                Ok(())
            },
            None => Err(TxError::InvalidAddress),
        }
    }

    /// A new output of the given value, locked to the recipient address.
    pub fn new(value: i32, address: String) -> (r: Result<TXOutput, TxError>)
        ensures
            match r {
                Ok(o) => {
                    &&& decoded_address(address@) is Some
                    &&& o@.value == value
                    &&& o@.pub_key_hash == decoded_address(address@)->Some_0
                },
                Err(e) => {
                    &&& e == TxError::InvalidAddress
                    &&& decoded_address(address@) is None
                },
            },
    {
        let mut txo = TXOutput { value, pub_key_hash: Vec::new() };
        match txo.lock(address.as_str()) {
            Ok(()) => Ok(txo),
            Err(e) => Err(e),
        }
    }
}

} // verus!
