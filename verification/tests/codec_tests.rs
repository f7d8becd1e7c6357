use satoshi_wallet::builder::build_transaction;
use satoshi_wallet::codec::decode_signed_tx;
use satoshi_wallet::codec::encode_signed;
use satoshi_wallet::codec::from_persist_string;
use satoshi_wallet::codec::to_persist_string;
use satoshi_wallet::keys::derive_account_keys;
use satoshi_wallet::keys::derive_master_key;
use satoshi_wallet::signer::sign;
use satoshi_wallet::signer::SignedTransaction;
use satoshi_wallet::wallet::Utxo;
use satoshi_wallet::wallet::WalletState;
use satoshi_wallet::KeychainRole;
use satoshi_wallet::Network;
use satoshi_wallet::WalletError;

const MNEMONIC: &str =
    "abandon abandon abandon abandon abandon abandon abandon abandon abandon abandon abandon about";

const DEST: &str = "tb1qw508d6qejxtdg4y5r3zarvary0c5xw7kxpjzsx";

fn wallet_with_coins() -> WalletState {
    let mk = derive_master_key(MNEMONIC, Network::Testnet).unwrap();
    let ak = derive_account_keys(&mk).unwrap();
    let mut w = WalletState::initialize(ak);
    let (_, _) = w.next_address(KeychainRole::External).unwrap();
    w.reconcile(vec![Utxo {
        txid: vec![0xaa; 32],
        vout: 0,
        value: 50_000,
        script: vec![0x00, 0x14],
        role: KeychainRole::External,
        index: 0,
    }])
        .unwrap();
    w
}

fn assert_same(a: &SignedTransaction, b: &SignedTransaction) {
    assert_eq!(a.proposal.fee, b.proposal.fee);
    assert_eq!(a.proposal.inputs.len(), b.proposal.inputs.len());
    for (x, y) in a.proposal.inputs.iter().zip(b.proposal.inputs.iter()) {
        assert_eq!(x.txid, y.txid);
        assert_eq!(x.vout, y.vout);
        assert_eq!(x.value, y.value);
        assert_eq!(x.script, y.script);
        assert_eq!(x.role, y.role);
        assert_eq!(x.index, y.index);
    }
    assert_eq!(a.proposal.outputs.len(), b.proposal.outputs.len());
    for (x, y) in a.proposal.outputs.iter().zip(b.proposal.outputs.iter()) {
        assert_eq!(x.script, y.script);
        assert_eq!(x.value, y.value);
    }
    assert_eq!(a.witnesses.len(), b.witnesses.len());
    for (x, y) in a.witnesses.iter().zip(b.witnesses.iter()) {
        assert_eq!(x, y);
    }
}

#[test]
fn unsigned_proposal_round_trips_through_persist_string() {
    let mut w = wallet_with_coins();
    let p = build_transaction(&mut w, DEST, 20_000, 500).unwrap();
    let st = SignedTransaction::unsigned(p);
    let s = to_persist_string(&st);
    let back = from_persist_string(s.as_str()).unwrap();
    assert_same(&st, &back);
}

#[test]
fn signed_transaction_round_trips_through_persist_string() {
    let mut w = wallet_with_coins();
    let p = build_transaction(&mut w, DEST, 20_000, 500).unwrap();
    let st = sign(&w, &SignedTransaction::unsigned(p)).unwrap();
    let s = to_persist_string(&st);
    let back = from_persist_string(s.as_str()).unwrap();
    assert_same(&st, &back);
}

#[test]
fn persist_string_is_base64_of_wire_bytes() {
    let mut w = wallet_with_coins();
    let p = build_transaction(&mut w, DEST, 20_000, 500).unwrap();
    let st = sign(&w, &SignedTransaction::unsigned(p)).unwrap();
    let bytes = encode_signed(&st);
    let s = to_persist_string(&st);
    // The persisted form is shorter than hex and longer than the raw
    // bytes, and decodes back through the base64 crate itself.
    let direct = base64::Engine::encode(&base64::engine::general_purpose::STANDARD, &bytes);
    assert_eq!(s, direct);
}

#[test]
fn garbage_text_fails_with_decode_error() {
    match from_persist_string("!!! not base64 !!!") {
        Err(e) => assert_eq!(e, WalletError::DecodeError),
        Ok(_) => panic!("garbage must not decode"),
    }
}

#[test]
fn truncated_payload_fails_with_decode_error() {
    let mut w = wallet_with_coins();
    let p = build_transaction(&mut w, DEST, 20_000, 500).unwrap();
    let st = SignedTransaction::unsigned(p);
    let mut bytes = encode_signed(&st);
    bytes.truncate(bytes.len() - 3);
    match decode_signed_tx(&bytes) {
        Err(e) => assert_eq!(e, WalletError::DecodeError),
        Ok(_) => panic!("a truncated payload must not decode"),
    }
}

#[test]
fn trailing_bytes_fail_with_decode_error() {
    let mut w = wallet_with_coins();
    let p = build_transaction(&mut w, DEST, 20_000, 500).unwrap();
    let st = SignedTransaction::unsigned(p);
    let mut bytes = encode_signed(&st);
    bytes.push(0x00);
    match decode_signed_tx(&bytes) {
        Err(e) => assert_eq!(e, WalletError::DecodeError),
        Ok(_) => panic!("trailing bytes must not decode"),
    }
}

#[test]
fn unbalanced_payload_fails_with_decode_error() {
    // A structurally valid payload whose fee breaks the balance equation
    // is rejected on restore.
    let mut w = wallet_with_coins();
    let p = build_transaction(&mut w, DEST, 20_000, 500).unwrap();
    let mut st = SignedTransaction::unsigned(p);
    st.proposal.fee += 1;
    let bytes = encode_signed(&st);
    match decode_signed_tx(&bytes) {
        Err(e) => assert_eq!(e, WalletError::DecodeError),
        Ok(_) => panic!("an unbalanced proposal must not decode"),
    }
}
