use satoshi_wallet::keys::derive_account_keys;
use satoshi_wallet::keys::derive_master_key;
use satoshi_wallet::keys::derive_public_key;
use satoshi_wallet::wallet::WalletState;
use satoshi_wallet::KeychainRole;
use satoshi_wallet::Network;
use satoshi_wallet::WalletError;

const MNEMONIC: &str =
    "abandon abandon abandon abandon abandon abandon abandon abandon abandon abandon abandon about";

#[test]
fn valid_mnemonic_derives_master_key() {
    let mk = derive_master_key(MNEMONIC, Network::Mainnet).unwrap();
    assert!(mk.key.starts_with("xprv"));
    assert_eq!(mk.net, Network::Mainnet);
}

#[test]
fn invalid_checksum_rejected_with_invalid_mnemonic() {
    let phrase =
        "abandon abandon abandon abandon abandon abandon abandon abandon abandon abandon abandon abandon";
    match derive_master_key(phrase, Network::Mainnet) {
        Err(e) => assert_eq!(e, WalletError::InvalidMnemonic),
        Ok(_) => panic!("an invalid checksum must be rejected"),
    }
}

#[test]
fn unknown_word_rejected_with_invalid_mnemonic() {
    let phrase = "notaword abandon abandon abandon abandon abandon abandon abandon abandon abandon abandon about";
    match derive_master_key(phrase, Network::Mainnet) {
        Err(e) => assert_eq!(e, WalletError::InvalidMnemonic),
        Ok(_) => panic!("an unknown word must be rejected"),
    }
}

#[test]
fn derivation_is_deterministic() {
    let mk1 = derive_master_key(MNEMONIC, Network::Testnet).unwrap();
    let mk2 = derive_master_key(MNEMONIC, Network::Testnet).unwrap();
    assert_eq!(mk1.key, mk2.key);
    let ak1 = derive_account_keys(&mk1).unwrap();
    let ak2 = derive_account_keys(&mk2).unwrap();
    assert_eq!(ak1.external, ak2.external);
    assert_eq!(ak1.internal, ak2.internal);
    assert_ne!(ak1.external, ak1.internal);
}

#[test]
fn first_external_address_matches_known_vector() {
    // The standard segwit account of the well-known twelve-word test
    // phrase: its first receiving address is fixed by the derivation
    // scheme.
    let mk = derive_master_key(MNEMONIC, Network::Mainnet).unwrap();
    let ak = derive_account_keys(&mk).unwrap();
    let mut w = WalletState::initialize(ak);
    let (addr, idx) = w.next_address(KeychainRole::External).unwrap();
    assert_eq!(idx, 0);
    assert_eq!(addr, "bc1qcr8te4kr609gcawutmrza0j4xv80jy8z306fyu");
}

#[test]
fn public_key_export_is_public_encoding() {
    let mk = derive_master_key(MNEMONIC, Network::Mainnet).unwrap();
    let ak = derive_account_keys(&mk).unwrap();
    let xpub = derive_public_key(ak.external.as_str()).unwrap();
    assert!(xpub.starts_with("xpub"));
    assert_ne!(xpub, ak.external);
}

#[test]
fn network_tag_changes_derived_keys() {
    let main = derive_master_key(MNEMONIC, Network::Mainnet).unwrap();
    let test = derive_master_key(MNEMONIC, Network::Testnet).unwrap();
    assert!(test.key.starts_with("tprv"));
    assert_ne!(main.key, test.key);
}
