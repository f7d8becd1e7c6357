use satoshi_wallet::keys::derive_account_keys;
use satoshi_wallet::keys::derive_master_key;
use satoshi_wallet::sync::addresses_to_scan;
use satoshi_wallet::wallet::Utxo;
use satoshi_wallet::wallet::WalletState;
use satoshi_wallet::KeychainRole;
use satoshi_wallet::Network;
use satoshi_wallet::WalletError;

const MNEMONIC: &str =
    "abandon abandon abandon abandon abandon abandon abandon abandon abandon abandon abandon about";

fn testnet_wallet() -> WalletState {
    let mk = derive_master_key(MNEMONIC, Network::Testnet).unwrap();
    let ak = derive_account_keys(&mk).unwrap();
    WalletState::initialize(ak)
}

fn utxo(txid_byte: u8, vout: u32, value: u64, role: KeychainRole, index: u32) -> Utxo {
    Utxo { txid: vec![txid_byte; 32], vout, value, script: vec![0x00, 0x14], role, index }
}

#[test]
fn queries_fail_before_initialize() {
    let w = WalletState { keys: None, utxos: Vec::new(), next_external: 0, next_internal: 0 };
    assert_eq!(w.balance().unwrap_err(), WalletError::NotInitialized);
    assert_eq!(w.list_utxos().unwrap_err(), WalletError::NotInitialized);
    assert_eq!(addresses_to_scan(&w).unwrap_err(), WalletError::NotInitialized);
    let mut w = w;
    assert_eq!(w.next_address(KeychainRole::External).unwrap_err(), WalletError::NotInitialized);
    assert_eq!(w.reconcile(Vec::new()).unwrap_err(), WalletError::NotInitialized);
}

#[test]
fn fresh_wallet_has_zero_balance_and_no_utxos() {
    let w = testnet_wallet();
    assert_eq!(w.balance().unwrap(), 0);
    assert!(w.list_utxos().unwrap().is_empty());
}

#[test]
fn next_address_returns_increasing_indices() {
    let mut w = testnet_wallet();
    let (a0, i0) = w.next_address(KeychainRole::External).unwrap();
    let (a1, i1) = w.next_address(KeychainRole::External).unwrap();
    let (a2, i2) = w.next_address(KeychainRole::Internal).unwrap();
    assert_eq!(i0, 0);
    assert_eq!(i1, 1);
    assert_eq!(i2, 0);
    assert_ne!(a0, a1);
    assert_ne!(a0, a2);
    assert!(a0.starts_with("tb1"));
    assert!(a1.starts_with("tb1"));
}

#[test]
fn balance_is_sum_over_utxo_set() {
    let mut w = testnet_wallet();
    let set = vec![
        utxo(0xaa, 0, 50_000, KeychainRole::External, 0),
        utxo(0xbb, 1, 7_000, KeychainRole::External, 1),
        utxo(0xcc, 0, 3_000, KeychainRole::Internal, 0),
    ];
    w.reconcile(set).unwrap();
    assert_eq!(w.balance().unwrap(), 60_000);
}

#[test]
fn reconcile_replaces_wholesale() {
    let mut w = testnet_wallet();
    w.reconcile(vec![utxo(0xaa, 0, 50_000, KeychainRole::External, 0)]).unwrap();
    assert_eq!(w.balance().unwrap(), 50_000);
    w.reconcile(vec![utxo(0xbb, 0, 10_000, KeychainRole::External, 0)]).unwrap();
    assert_eq!(w.balance().unwrap(), 10_000);
    let utxos = w.list_utxos().unwrap();
    assert_eq!(utxos.len(), 1);
    assert_eq!(utxos[0].txid, vec![0xbb; 32]);
    assert_eq!(utxos[0].value, 10_000);
}

#[test]
fn reconcile_rejects_malformed_sets() {
    let mut w = testnet_wallet();
    let bad = vec![Utxo {
        txid: vec![0xaa; 16],
        vout: 0,
        value: 1,
        script: Vec::new(),
        role: KeychainRole::External,
        index: 0,
    }];
    assert_eq!(w.reconcile(bad).unwrap_err(), WalletError::DecodeError);
    let overflowing = vec![
        utxo(0xaa, 0, u64::MAX, KeychainRole::External, 0),
        utxo(0xbb, 0, 1, KeychainRole::External, 1),
    ];
    assert_eq!(w.reconcile(overflowing).unwrap_err(), WalletError::DecodeError);
    assert_eq!(w.balance().unwrap(), 0);
}

#[test]
fn list_utxos_is_a_snapshot() {
    let mut w = testnet_wallet();
    w.reconcile(vec![utxo(0xaa, 0, 50_000, KeychainRole::External, 0)]).unwrap();
    let snap = w.list_utxos().unwrap();
    w.reconcile(Vec::new()).unwrap();
    assert_eq!(snap.len(), 1);
    assert_eq!(snap[0].value, 50_000);
}

#[test]
fn scan_list_covers_both_roles_in_order() {
    let mut w = testnet_wallet();
    let (a0, _) = w.next_address(KeychainRole::External).unwrap();
    let (a1, _) = w.next_address(KeychainRole::External).unwrap();
    let (b0, _) = w.next_address(KeychainRole::Internal).unwrap();
    let entries = addresses_to_scan(&w).unwrap();
    assert_eq!(entries.len(), 3);
    assert_eq!(entries[0].address, a0);
    assert_eq!(entries[0].role, KeychainRole::External);
    assert_eq!(entries[0].index, 0);
    assert_eq!(entries[1].address, a1);
    assert_eq!(entries[1].index, 1);
    assert_eq!(entries[2].address, b0);
    assert_eq!(entries[2].role, KeychainRole::Internal);
    assert_eq!(entries[2].index, 0);
}
