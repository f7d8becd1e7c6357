use satoshi_wallet::builder::build_transaction;
use satoshi_wallet::keys::derive_account_keys;
use satoshi_wallet::keys::derive_master_key;
use satoshi_wallet::signer::extract_for_broadcast;
use satoshi_wallet::signer::sign;
use satoshi_wallet::signer::SignedTransaction;
use satoshi_wallet::wallet::Utxo;
use satoshi_wallet::wallet::WalletState;
use satoshi_wallet::KeychainRole;
use satoshi_wallet::Network;
use satoshi_wallet::WalletError;

const MNEMONIC: &str =
    "abandon abandon abandon abandon abandon abandon abandon abandon abandon abandon abandon about";

const DEST: &str = "tb1qw508d6qejxtdg4y5r3zarvary0c5xw7kxpjzsx";

fn wallet_with_coins() -> WalletState {
    let mk = derive_master_key(MNEMONIC, Network::Testnet).unwrap();
    let ak = derive_account_keys(&mk).unwrap();
    let mut w = WalletState::initialize(ak);
    let (_, _) = w.next_address(KeychainRole::External).unwrap();
    w.reconcile(vec![Utxo {
        txid: vec![0xaa; 32],
        vout: 0,
        value: 50_000,
        script: vec![0x00, 0x14],
        role: KeychainRole::External,
        index: 0,
    }])
        .unwrap();
    w
}

#[test]
fn sign_fills_every_witness() {
    let mut w = wallet_with_coins();
    let p = build_transaction(&mut w, DEST, 20_000, 500).unwrap();
    let st = sign(&w, &SignedTransaction::unsigned(p)).unwrap();
    assert_eq!(st.witnesses.len(), st.proposal.inputs.len());
    for wit in &st.witnesses {
        let wit = wit.as_ref().expect("every input must be signed");
        // A DER-encoded ECDSA signature starting 0x30, with the
        // all-outputs signature-hash type byte appended.
        assert!(wit.sig.len() >= 2);
        assert_eq!(wit.sig[0], 0x30);
        assert_eq!(*wit.sig.last().unwrap(), 0x01);
        assert!(wit.sig.len() <= 73);
        // A compressed public key.
        assert_eq!(wit.pubkey.len(), 33);
        assert!(wit.pubkey[0] == 0x02 || wit.pubkey[0] == 0x03);
    }
}

#[test]
fn signing_is_deterministic() {
    let mut w = wallet_with_coins();
    let p = build_transaction(&mut w, DEST, 20_000, 500).unwrap();
    let st1 = sign(&w, &SignedTransaction::unsigned(satoshi_wallet::builder::clone_proposal(&p)))
        .unwrap();
    let st2 = sign(&w, &SignedTransaction::unsigned(p)).unwrap();
    assert_eq!(st1.witnesses, st2.witnesses);
}

#[test]
fn resigning_is_a_no_op() {
    let mut w = wallet_with_coins();
    let p = build_transaction(&mut w, DEST, 20_000, 500).unwrap();
    let st1 = sign(&w, &SignedTransaction::unsigned(p)).unwrap();
    let st2 = sign(&w, &st1).unwrap();
    assert_eq!(st1.witnesses, st2.witnesses);
}

#[test]
fn unknown_input_rejected() {
    // An input claiming an index the wallet never issued.
    let mut w = wallet_with_coins();
    let p = build_transaction(&mut w, DEST, 20_000, 500).unwrap();
    let mut st = SignedTransaction::unsigned(p);
    st.proposal.inputs[0].index = 99;
    match sign(&w, &st) {
        Err(e) => assert_eq!(e, WalletError::UnknownInput),
        Ok(_) => panic!("an unissued index must be rejected"),
    }
}

#[test]
fn uninitialized_wallet_cannot_sign() {
    let mut w = wallet_with_coins();
    let p = build_transaction(&mut w, DEST, 20_000, 500).unwrap();
    let empty = WalletState { keys: None, utxos: Vec::new(), next_external: 0, next_internal: 0 };
    match sign(&empty, &SignedTransaction::unsigned(p)) {
        Err(e) => assert_eq!(e, WalletError::NotInitialized),
        Ok(_) => panic!("an uninitialized wallet must not sign"),
    }
}

#[test]
fn broadcast_requires_every_signature() {
    let mut w = wallet_with_coins();
    let p = build_transaction(&mut w, DEST, 20_000, 500).unwrap();
    let unsigned = SignedTransaction::unsigned(p);
    match extract_for_broadcast(&unsigned) {
        Err(e) => assert_eq!(e, WalletError::IncompleteSignature),
        Ok(_) => panic!("an unsigned transaction must not broadcast"),
    }
    let st = sign(&w, &unsigned).unwrap();
    let wire = extract_for_broadcast(&st).unwrap();
    // Version 2 little-endian, then the segwit marker and flag.
    assert_eq!(&wire[0..6], &[0x02, 0x00, 0x00, 0x00, 0x00, 0x01]);
}

#[test]
fn broadcast_bytes_are_a_valid_consensus_transaction() {
    // The extracted bytes must deserialize as a consensus transaction, and
    // every witness must verify as an ECDSA signature over the
    // transaction's real BIP-143 digest under its own public key.
    let mut w = wallet_with_coins();
    let p = build_transaction(&mut w, DEST, 20_000, 500).unwrap();
    let st = sign(&w, &SignedTransaction::unsigned(p)).unwrap();
    let wire = extract_for_broadcast(&st).unwrap();

    let tx: bdk::bitcoin::Transaction = bdk::bitcoin::consensus::deserialize(&wire).unwrap();
    assert_eq!(tx.version, 2);
    assert_eq!(tx.lock_time.0, 0);
    assert_eq!(tx.input.len(), st.proposal.inputs.len());
    assert_eq!(tx.output.len(), st.proposal.outputs.len());
    for (o, expect) in tx.output.iter().zip(st.proposal.outputs.iter()) {
        assert_eq!(o.value, expect.value);
        assert_eq!(o.script_pubkey.as_bytes(), expect.script.as_slice());
    }
    for (t, expect) in tx.input.iter().zip(st.proposal.inputs.iter()) {
        assert_eq!(t.previous_output.vout, expect.vout);
        let mut txid = expect.txid.clone();
        txid.reverse();
        assert_eq!(format!("{}", t.previous_output.txid), {
            let hex: String = txid.iter().map(|b| format!("{:02x}", b)).collect();
            hex
        });
    }

    let secp = bdk::bitcoin::secp256k1::Secp256k1::new();
    let mut cache = bdk::bitcoin::util::sighash::SighashCache::new(&tx);
    for (i, inp) in st.proposal.inputs.iter().enumerate() {
        let wit = st.witnesses[i].as_ref().unwrap();
        assert_eq!(tx.input[i].witness.to_vec(), vec![wit.sig.clone(), wit.pubkey.clone()]);
        let pk = bdk::bitcoin::secp256k1::PublicKey::from_slice(&wit.pubkey).unwrap();
        let pkh = bdk::bitcoin::PublicKey::new(pk).pubkey_hash();
        let script_code = bdk::bitcoin::Script::new_p2pkh(&pkh);
        let sighash = cache
            .segwit_signature_hash(i, &script_code, inp.value, bdk::bitcoin::EcdsaSighashType::All)
            .unwrap();
        let msg = bdk::bitcoin::secp256k1::Message::from_slice(
            &bdk::bitcoin::hashes::Hash::into_inner(sighash),
        )
        .unwrap();
        let der = &wit.sig[..wit.sig.len() - 1];
        let sig = bdk::bitcoin::secp256k1::ecdsa::Signature::from_der(der).unwrap();
        secp.verify_ecdsa(&msg, &sig, &pk).unwrap();
    }
}
