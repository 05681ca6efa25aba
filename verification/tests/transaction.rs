use bitcoincash_addr::Address;
use crypto::digest::Digest;
use crypto::ed25519;
use crypto::sha2::Sha256;
use utxo_tx::errors::TxError;
use utxo_tx::transaction::{Transaction, TXInput, TXOutput, SUBSIDY};

/// Encodes a 20-byte public-key-hash filled with `b` as an address string.
fn addr_of(b: u8) -> String {
    Address { body: vec![b; 20], ..Default::default() }.encode().unwrap()
}

fn body_of(b: u8) -> Vec<u8> {
    vec![b; 20]
}

/// A deterministic key pair for tests.
fn test_keys(seed: u8) -> (Vec<u8>, Vec<u8>) {
    let (secret, public) = ed25519::keypair(&[seed; 32]);
    (secret.to_vec(), public.to_vec())
}

/// A prior transaction holding one output of `value` locked to `lock`,
/// carrying its content-derived id.
fn prior_tx(value: i32, lock: Vec<u8>) -> Transaction {
    let mut t = Transaction {
        id: String::new(),
        vin: Vec::new(),
        vout: vec![TXOutput { value, pub_key_hash: lock }],
    };
    t.id = t.hash().unwrap();
    t
}

/// A spend of 10 out of 15 from address A (lock 0xaa) to address B
/// (lock 0xbb), already signed, along with its previous transaction.
fn example_spend() -> (Transaction, Vec<Transaction>, Vec<u8>, Vec<u8>) {
    let (sk, pk) = test_keys(7);
    let t0 = prior_tx(15, body_of(0xaa));
    let prevs = vec![t0.clone()];
    let selected = vec![(t0.id.clone(), 0)];
    let tx = Transaction::new_utxo(
        &pk,
        &sk,
        &addr_of(0xaa),
        &addr_of(0xbb),
        10,
        15,
        &selected,
        &prevs,
    )
    .unwrap();
    (tx, prevs, sk, pk)
}

#[test]
fn test_signature() {
    let (secret_key, public_key) = test_keys(1);
    let wa1 = addr_of(0x11);

    let data = String::from("test");
    let tx = Transaction::new_coinbase(wa1, data).unwrap();
    assert!(tx.is_coinbase());

    let signature = ed25519::signature(tx.id.as_bytes(), &secret_key);
    assert!(ed25519::verify(tx.id.as_bytes(), &public_key, &signature));
}

#[test]
fn test_hash_deterministic() {
    let tx = Transaction::new_coinbase(addr_of(0x22), String::from("note")).unwrap();
    assert_eq!(tx.hash().unwrap(), tx.hash().unwrap());

    // The id reads the content, never the stored id.
    let mut other = tx.clone();
    other.id = String::from("something else entirely");
    assert_eq!(other.hash().unwrap(), tx.hash().unwrap());
    assert_eq!(tx.hash().unwrap(), tx.id);
}

#[test]
fn test_hash_known_value() {
    // An empty transaction encodes as three 64-bit zero lengths: the empty
    // id, no inputs, no outputs.
    let empty = Transaction { id: String::new(), vin: Vec::new(), vout: Vec::new() };
    let mut hasher = Sha256::new();
    hasher.input(&[0u8; 24]);
    assert_eq!(empty.hash().unwrap(), hasher.result_str());
}

#[test]
fn test_coinbase_identity() {
    let tx = Transaction::new_coinbase(addr_of(0x33), String::from("hello")).unwrap();
    assert!(tx.is_coinbase());
    assert_eq!(tx.vin.len(), 1);
    assert!(tx.vin[0].txid.is_empty());
    assert_eq!(tx.vin[0].vout, -1);
    assert_eq!(tx.vout.len(), 1);
    assert_eq!(tx.vout[0].value, SUBSIDY);
    assert_eq!(tx.vout[0].pub_key_hash, body_of(0x33));

    // A coinbase verifies as true whatever its signature field holds.
    let mut stuffed = tx.clone();
    stuffed.vin[0].signature = vec![0xde; 64];
    assert_eq!(stuffed.verify(&Vec::new()).unwrap(), true);

    // A spend-shaped transaction is not a coinbase.
    let (spend, _, _, _) = example_spend();
    assert!(!spend.is_coinbase());
}

#[test]
fn test_coinbase_default_note_and_entropy() {
    let to = addr_of(0x44);
    let a = Transaction::new_coinbase(to.clone(), String::new()).unwrap();
    let b = Transaction::new_coinbase(to.clone(), String::new()).unwrap();

    // The declared key opens with the default note and closes with 32
    // bytes of entropy.
    let note = format!("Reward to '{}'", to);
    assert_eq!(a.vin[0].pub_key.len(), note.len() + 32);
    assert_eq!(&a.vin[0].pub_key[..note.len()], note.as_bytes());

    // Fresh entropy keeps two otherwise identical coinbases distinct.
    assert_ne!(a.id, b.id);

    // A non-empty note is kept and padded with 32 zero bytes.
    let c = Transaction::new_coinbase(to, String::from("hi")).unwrap();
    let mut expected = b"hi".to_vec();
    expected.extend(vec![0u8; 32]);
    assert_eq!(c.vin[0].pub_key, expected);
}

#[test]
fn test_output_lock() {
    let out = TXOutput::new(5, addr_of(0x55)).unwrap();
    assert_eq!(out.value, 5);
    assert_eq!(out.pub_key_hash, body_of(0x55));
    assert!(out.is_locked_with_key(&body_of(0x55)));
    assert!(!out.is_locked_with_key(&body_of(0x56)));
    assert!(!out.is_locked_with_key(&[0x55; 19]));
}

#[test]
fn test_invalid_address() {
    assert!(matches!(
        TXOutput::new(5, String::from("not an address")),
        Err(TxError::InvalidAddress)
    ));
    assert!(matches!(
        Transaction::new_coinbase(String::from("???"), String::new()),
        Err(TxError::InvalidAddress)
    ));
    // A checksum-passing tail too short to carry any payload must surface
    // as a recoverable failure, never as an abort inside the codec.
    assert!(matches!(
        TXOutput::new(1, String::from("bitcoincash:a5a8yrhz")),
        Err(TxError::InvalidAddress)
    ));
}

#[test]
fn test_spend_example() {
    let (tx, prevs, _, pk) = example_spend();
    assert_eq!(tx.vin.len(), 1);
    assert_eq!(tx.vin[0].txid, prevs[0].id);
    assert_eq!(tx.vin[0].vout, 0);
    assert_eq!(tx.vin[0].pub_key, pk);
    assert_eq!(tx.vin[0].signature.len(), 64);
    assert_eq!(tx.vout.len(), 2);
    assert_eq!(tx.vout[0].value, 10);
    assert_eq!(tx.vout[0].pub_key_hash, body_of(0xbb));
    assert_eq!(tx.vout[1].value, 5);
    assert_eq!(tx.vout[1].pub_key_hash, body_of(0xaa));
    assert_eq!(tx.verify(&prevs).unwrap(), true);
}

#[test]
fn test_spend_without_change() {
    let (sk, pk) = test_keys(9);
    let t0 = prior_tx(10, body_of(0xaa));
    let prevs = vec![t0.clone()];
    let selected = vec![(t0.id.clone(), 0)];
    let tx = Transaction::new_utxo(
        &pk,
        &sk,
        &addr_of(0xaa),
        &addr_of(0xbb),
        10,
        10,
        &selected,
        &prevs,
    )
    .unwrap();
    assert_eq!(tx.vout.len(), 1);
    assert_eq!(tx.vout[0].value, 10);
    assert_eq!(tx.verify(&prevs).unwrap(), true);
}

#[test]
fn test_tamper_output_value() {
    let (mut tx, prevs, _, _) = example_spend();
    tx.vout[0].value = 11;
    assert_eq!(tx.verify(&prevs).unwrap(), false);
}

#[test]
fn test_tamper_output_lock() {
    let (mut tx, prevs, _, _) = example_spend();
    tx.vout[1].pub_key_hash[3] ^= 0x01;
    assert_eq!(tx.verify(&prevs).unwrap(), false);
}

#[test]
fn test_tamper_signature() {
    let (mut tx, prevs, _, _) = example_spend();
    tx.vin[0].signature[10] ^= 0x80;
    assert_eq!(tx.verify(&prevs).unwrap(), false);
}

#[test]
fn test_insufficient_funds() {
    let (sk, pk) = test_keys(3);
    let r = Transaction::new_utxo(
        &pk,
        &sk,
        &addr_of(0xaa),
        &addr_of(0xbb),
        100,
        50,
        &Vec::new(),
        &Vec::new(),
    );
    assert!(matches!(r, Err(TxError::InsufficientFunds)));
}

#[test]
fn test_unresolved_previous_transaction() {
    let (sk, pk) = test_keys(4);
    let selected = vec![(String::from("no such id"), 0)];
    let r = Transaction::new_utxo(
        &pk,
        &sk,
        &addr_of(0xaa),
        &addr_of(0xbb),
        1,
        1,
        &selected,
        &Vec::new(),
    );
    assert!(matches!(r, Err(TxError::UnresolvedPreviousTransaction)));

    // Verification hits the same wall when the resolver comes up empty.
    let (tx, _, _, _) = example_spend();
    assert!(matches!(
        tx.verify(&Vec::new()),
        Err(TxError::UnresolvedPreviousTransaction)
    ));

    // The empty-id sentinel counts as unresolved too.
    let sentinel = Transaction { id: String::new(), vin: Vec::new(), vout: Vec::new() };
    let mut spend = tx.clone();
    spend.vin[0].txid = String::new();
    assert!(matches!(
        spend.verify(&vec![sentinel]),
        Err(TxError::UnresolvedPreviousTransaction)
    ));
}

#[test]
fn test_sighash_per_input_independent() {
    let (sk, pk) = test_keys(5);
    let t0 = prior_tx(6, body_of(0xaa));
    let t1 = prior_tx(6, body_of(0xcc));
    let prevs = vec![t0.clone(), t1.clone()];
    let selected = vec![(t0.id.clone(), 0), (t1.id.clone(), 0)];
    let tx = Transaction::new_utxo(
        &pk,
        &sk,
        &addr_of(0xaa),
        &addr_of(0xbb),
        12,
        12,
        &selected,
        &prevs,
    )
    .unwrap();
    let m0 = tx.sighash(0, &prevs).unwrap();
    let m1 = tx.sighash(1, &prevs).unwrap();
    assert_ne!(m0, m1);
    assert_eq!(tx.verify(&prevs).unwrap(), true);
}

#[test]
fn test_trim_copy() {
    let (tx, _, _, _) = example_spend();
    let trimmed = tx.trim_copy();
    assert_eq!(trimmed.id, tx.id);
    assert_eq!(trimmed.vin.len(), tx.vin.len());
    for (t, o) in trimmed.vin.iter().zip(tx.vin.iter()) {
        assert_eq!(t.txid, o.txid);
        assert_eq!(t.vout, o.vout);
        assert!(t.signature.is_empty());
        assert!(t.pub_key.is_empty());
    }
    assert_eq!(trimmed.vout.len(), tx.vout.len());
    for (t, o) in trimmed.vout.iter().zip(tx.vout.iter()) {
        assert_eq!(t.value, o.value);
        assert_eq!(t.pub_key_hash, o.pub_key_hash);
    }
}

#[test]
fn test_signing_leaves_everything_but_signatures() {
    let (sk, pk) = test_keys(6);
    let t0 = prior_tx(4, body_of(0xaa));
    let prevs = vec![t0.clone()];
    let mut tx = Transaction {
        id: String::new(),
        vin: vec![TXInput {
            txid: t0.id.clone(),
            vout: 0,
            signature: Vec::new(),
            pub_key: pk.clone(),
        }],
        vout: vec![TXOutput { value: 4, pub_key_hash: body_of(0xbb) }],
    };
    tx.id = tx.hash().unwrap();
    let id_before = tx.id.clone();
    tx.sign(&sk, &prevs).unwrap();
    assert_eq!(tx.id, id_before);
    assert_eq!(tx.vin[0].pub_key, pk);
    assert_eq!(tx.vin[0].signature.len(), 64);
    assert_eq!(tx.verify(&prevs).unwrap(), true);
}
