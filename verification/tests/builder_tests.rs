use satoshi_wallet::builder::build_transaction;
use satoshi_wallet::builder::DUST_LIMIT;
use satoshi_wallet::keys::derive_account_keys;
use satoshi_wallet::keys::derive_master_key;
use satoshi_wallet::wallet::Utxo;
use satoshi_wallet::wallet::WalletState;
use satoshi_wallet::KeychainRole;
use satoshi_wallet::Network;
use satoshi_wallet::WalletError;

const MNEMONIC: &str =
    "abandon abandon abandon abandon abandon abandon abandon abandon abandon abandon abandon about";

// A valid testnet pay-to-witness-public-key-hash address.
const DEST: &str = "tb1qw508d6qejxtdg4y5r3zarvary0c5xw7kxpjzsx";

fn testnet_wallet() -> WalletState {
    let mk = derive_master_key(MNEMONIC, Network::Testnet).unwrap();
    let ak = derive_account_keys(&mk).unwrap();
    WalletState::initialize(ak)
}

fn utxo(txid_byte: u8, vout: u32, value: u64) -> Utxo {
    Utxo {
        txid: vec![txid_byte; 32],
        vout,
        value,
        script: vec![0x00, 0x14],
        role: KeychainRole::External,
        index: 0,
    }
}

#[test]
fn send_with_change_pays_exactly_and_returns_surplus() {
    // One 50000-sat UTXO, send 20000 with fee 500: one input, a 20000
    // output to the destination, and 29500 of change to a fresh internal
    // address.
    let mut w = testnet_wallet();
    w.reconcile(vec![utxo(0xaa, 0, 50_000)]).unwrap();
    assert_eq!(w.next_internal, 0);
    let p = build_transaction(&mut w, DEST, 20_000, 500).unwrap();
    assert_eq!(p.inputs.len(), 1);
    assert_eq!(p.inputs[0].txid, vec![0xaa; 32]);
    assert_eq!(p.inputs[0].vout, 0);
    assert_eq!(p.outputs.len(), 2);
    assert_eq!(p.outputs[0].value, 20_000);
    assert_eq!(p.outputs[1].value, 29_500);
    assert_eq!(p.fee, 500);
    // The change output consumed one internal address index.
    assert_eq!(w.next_internal, 1);
    // The destination script is a v0 witness program: OP_0, a 20-byte
    // push, and the program.
    assert_eq!(p.outputs[0].script.len(), 22);
    assert_eq!(p.outputs[0].script[0], 0x00);
    assert_eq!(p.outputs[0].script[1], 0x14);
    // The change script pays a key of the wallet, not the destination.
    assert_eq!(p.outputs[1].script.len(), 22);
    assert_ne!(p.outputs[1].script, p.outputs[0].script);
    // Value conservation: inputs == amount + fee + change.
    assert_eq!(50_000, 20_000 + p.fee + p.outputs[1].value);
}

#[test]
fn insufficient_funds_leaves_wallet_untouched() {
    // A 1000-sat UTXO cannot fund a 5000-sat send.
    let mut w = testnet_wallet();
    w.reconcile(vec![utxo(0xaa, 0, 1_000)]).unwrap();
    let r = build_transaction(&mut w, DEST, 5_000, 0);
    match r {
        Err(e) => assert_eq!(e, WalletError::InsufficientFunds),
        Ok(_) => panic!("an underfunded request must fail"),
    }
    assert_eq!(w.next_internal, 0);
    assert_eq!(w.next_external, 0);
    assert_eq!(w.balance().unwrap(), 1_000);
}

#[test]
fn surplus_below_dust_is_folded_into_fee() {
    // 20700 in, send 20000 with fee 500: the 200-sat surplus is below the
    // dust threshold and becomes fee instead of an output.
    assert!(200 < DUST_LIMIT);
    let mut w = testnet_wallet();
    w.reconcile(vec![utxo(0xaa, 0, 20_700)]).unwrap();
    let p = build_transaction(&mut w, DEST, 20_000, 500).unwrap();
    assert_eq!(p.outputs.len(), 1);
    assert_eq!(p.outputs[0].value, 20_000);
    assert_eq!(p.fee, 700);
    assert_eq!(w.next_internal, 0);
}

#[test]
fn selection_accumulates_utxos_in_order() {
    let mut w = testnet_wallet();
    w.reconcile(vec![utxo(0x01, 0, 10_000), utxo(0x02, 0, 10_000), utxo(0x03, 0, 10_000)])
        .unwrap();
    let p = build_transaction(&mut w, DEST, 14_000, 1_000).unwrap();
    assert_eq!(p.inputs.len(), 2);
    assert_eq!(p.inputs[0].txid, vec![0x01; 32]);
    assert_eq!(p.inputs[1].txid, vec![0x02; 32]);
    assert_eq!(p.outputs.len(), 2);
    assert_eq!(p.outputs[1].value, 5_000);
}

#[test]
fn invalid_address_rejected() {
    let mut w = testnet_wallet();
    w.reconcile(vec![utxo(0xaa, 0, 50_000)]).unwrap();
    let r = build_transaction(&mut w, "not-an-address", 20_000, 500);
    match r {
        Err(e) => assert_eq!(e, WalletError::InvalidAddress),
        Ok(_) => panic!("a malformed address must be rejected"),
    }
}

#[test]
fn wrong_network_address_rejected() {
    // A mainnet address handed to a testnet wallet.
    let mut w = testnet_wallet();
    w.reconcile(vec![utxo(0xaa, 0, 50_000)]).unwrap();
    let r = build_transaction(&mut w, "bc1qcr8te4kr609gcawutmrza0j4xv80jy8z306fyu", 20_000, 500);
    match r {
        Err(e) => assert_eq!(e, WalletError::InvalidAddress),
        Ok(_) => panic!("an address of another network must be rejected"),
    }
    assert_eq!(w.next_internal, 0);
}

#[test]
fn uninitialized_wallet_cannot_build() {
    let mut w = WalletState { keys: None, utxos: Vec::new(), next_external: 0, next_internal: 0 };
    let r = build_transaction(&mut w, DEST, 20_000, 500);
    match r {
        Err(e) => assert_eq!(e, WalletError::NotInitialized),
        Ok(_) => panic!("an uninitialized wallet must not build"),
    }
}

#[test]
fn exact_target_needs_no_change() {
    let mut w = testnet_wallet();
    w.reconcile(vec![utxo(0xaa, 0, 20_500)]).unwrap();
    let p = build_transaction(&mut w, DEST, 20_000, 500).unwrap();
    assert_eq!(p.outputs.len(), 1);
    assert_eq!(p.fee, 500);
    assert_eq!(w.next_internal, 0);
}
