//! Key derivation: from a mnemonic phrase to the per-role account keys of a
//! segwit wallet, and from those to child keys, addresses and scripts.
//!
//! The cryptography itself (BIP-39 seed generation, BIP-32 derivation,
//! bech32/base58 rendering) is done by outside crates. Each outside call
//! stands behind a trusted wrapper whose result is named by an
//! uninterpreted spec function of the call's arguments: the arguments
//! determine the result, which is exactly the determinism the wallet's
//! recoverability rests on. Each wrapper also says when it succeeds —
//! derivation succeeds on every string that parses as an extended private
//! key (`xprv_ok`) — so success flows through the verified callers.

use vstd::prelude::*;

use crate::KeychainRole;
use crate::Network;
use crate::WalletError;

verus! {

/// Whether a phrase is a valid mnemonic (wordlist and checksum), as decided
/// by `bip39::Mnemonic::parse`.
pub uninterp spec fn mnemonic_ok(phrase: Seq<char>) -> bool;

/// Whether the phrase's BIP-39 seed yields a valid secp256k1 master key,
/// as decided by `ExtendedPrivKey::new_master`. False at most on inputs no
/// feasible computation can exhibit (a seed whose HMAC falls outside the
/// curve's scalar range).
pub uninterp spec fn seed_key_ok(phrase: Seq<char>) -> bool;

/// Whether a string parses as a base58 extended private key, as decided by
/// `ExtendedPrivKey::from_str`. Every key the wrappers below return
/// satisfies it.
pub uninterp spec fn xprv_ok(key: Seq<char>) -> bool;

/// The base58 encoding of the BIP-32 master key derived from a valid
/// mnemonic phrase (empty passphrase) for a network.
pub uninterp spec fn master_key_of(phrase: Seq<char>, net: Network) -> Seq<char>;

/// The base58 encoding of the extended private key reached from `key`
/// along the hardened account path `purpose'/coin'/account'` and the
/// non-hardened branch below it.
pub uninterp spec fn account_key_of(
    key: Seq<char>,
    purpose: u32,
    coin: u32,
    account: u32,
    branch: u32,
) -> Seq<char>;

/// The base58 encoding of the non-hardened child of `key` at `index`.
pub uninterp spec fn child_key_at(key: Seq<char>, index: u32) -> Seq<char>;

/// The base58 encoding of the extended public key matching `key`.
pub uninterp spec fn xpub_of(key: Seq<char>) -> Seq<char>;

/// The rendered pay-to-witness-public-key-hash address of `key` on a
/// network.
pub uninterp spec fn p2wpkh_address_of(key: Seq<char>, net: Network) -> Seq<char>;

/// The output script paying to the witness-public-key-hash of `key`
/// (independent of the network an address would be rendered for).
pub uninterp spec fn p2wpkh_script_of(key: Seq<char>) -> Seq<u8>;

/// The 33-byte compressed secp256k1 public key matching `key`.
pub uninterp spec fn pubkey_of(key: Seq<char>) -> Seq<u8>;

/// Whether a string parses as a mainnet or testnet Bitcoin address.
pub uninterp spec fn address_parses(addr: Seq<char>) -> bool;

/// The output script of a parsed address.
pub uninterp spec fn address_script_of(addr: Seq<char>) -> Seq<u8>;

/// The network a parsed address belongs to.
pub uninterp spec fn address_network_of(addr: Seq<char>) -> Network;

/// Relies on `bip39::Mnemonic::parse` (wordlist and checksum validation),
/// `Mnemonic::to_seed` with an empty passphrase, and
/// `bitcoin::util::bip32::ExtendedPrivKey::new_master` plus its `Display`
/// and `FromStr` impls. Parsing decides `mnemonic_ok`; `new_master`'s own
/// success is `seed_key_ok`; the derived key is a function of the phrase
/// and the network alone, and re-parses as an extended private key.
#[verifier::external_body]
pub(crate) fn bip32_master_key(phrase: &str, net: Network) -> (r: Result<String, WalletError>)
    ensures
        mnemonic_ok(phrase@) && seed_key_ok(phrase@) ==> r is Ok,
        r is Ok ==> mnemonic_ok(phrase@) && seed_key_ok(phrase@),
        r matches Ok(k) ==> k@ == master_key_of(phrase@, net) && xprv_ok(k@),
        r matches Err(e) ==> e == WalletError::InvalidMnemonic,
{
    let m = bdk::keys::bip39::Mnemonic::parse(phrase).map_err(|_| WalletError::InvalidMnemonic)?;
    let n = match net {
        Network::Mainnet => bdk::bitcoin::Network::Bitcoin,
        Network::Testnet => bdk::bitcoin::Network::Testnet,
    };
    let k = bdk::bitcoin::util::bip32::ExtendedPrivKey::new_master(n, &m.to_seed(""))
        .map_err(|_| WalletError::InvalidMnemonic)?;
    Ok(k.to_string())
}

/// Relies on `bitcoin::util::bip32::ExtendedPrivKey::{from_str, derive_priv}`
/// with `ChildNumber` values built from the given components. Parsing
/// decides success; `derive_priv` itself has no failing path (its child-key
/// step can abort only on an input no feasible computation can exhibit, and
/// the wrappers' no-panic promise rests on that negligibility). The result
/// is a function of the key and the path components alone.
#[verifier::external_body]
pub(crate) fn bip32_derive_account(
    key: &str,
    purpose: u32,
    coin: u32,
    account: u32,
    branch: u32,
) -> (r: Result<String, WalletError>)
    requires
        purpose < 0x8000_0000u32,
        coin < 0x8000_0000u32,
        account < 0x8000_0000u32,
        branch < 0x8000_0000u32,
    ensures
        xprv_ok(key@) ==> r is Ok,
        r is Ok ==> xprv_ok(key@),
        r matches Ok(k) ==> k@ == account_key_of(key@, purpose, coin, account, branch) && xprv_ok(
            k@,
        ),
        r matches Err(e) ==> e == WalletError::DecodeError,
{
    let k = key.parse::<bdk::bitcoin::util::bip32::ExtendedPrivKey>()
        .map_err(|_| WalletError::DecodeError)?;
    let path = [
        bdk::bitcoin::util::bip32::ChildNumber::Hardened { index: purpose },
        bdk::bitcoin::util::bip32::ChildNumber::Hardened { index: coin },
        bdk::bitcoin::util::bip32::ChildNumber::Hardened { index: account },
        bdk::bitcoin::util::bip32::ChildNumber::Normal { index: branch },
    ];
    let secp = bdk::bitcoin::secp256k1::Secp256k1::new();
    let c = k.derive_priv(&secp, &path).map_err(|_| WalletError::DecodeError)?;
    Ok(c.to_string())
}

/// Relies on `bitcoin::util::bip32::ExtendedPrivKey::{from_str, derive_priv}`
/// and `ChildNumber::from_normal_idx`. Parsing decides success (see
/// `bip32_derive_account` on `derive_priv`'s negligible abort); the
/// non-hardened child is a function of the key and the index alone.
#[verifier::external_body]
pub(crate) fn bip32_derive_index(key: &str, index: u32) -> (r: Result<String, WalletError>)
    requires
        index < 0x8000_0000u32,
    ensures
        xprv_ok(key@) ==> r is Ok,
        r is Ok ==> xprv_ok(key@),
        r matches Ok(k) ==> k@ == child_key_at(key@, index) && xprv_ok(k@),
        r matches Err(e) ==> e == WalletError::DecodeError,
{
    let k = key.parse::<bdk::bitcoin::util::bip32::ExtendedPrivKey>()
        .map_err(|_| WalletError::DecodeError)?;
    let i = bdk::bitcoin::util::bip32::ChildNumber::from_normal_idx(index)
        .map_err(|_| WalletError::DecodeError)?;
    let secp = bdk::bitcoin::secp256k1::Secp256k1::new();
    let c = k.derive_priv(&secp, &[i]).map_err(|_| WalletError::DecodeError)?;
    Ok(c.to_string())
}

/// Relies on `bitcoin::util::bip32::ExtendedPubKey::from_priv` and its
/// `Display` impl: the extended public key is total on parsed keys and a
/// function of the private key alone.
#[verifier::external_body]
pub(crate) fn bip32_xpub(key: &str) -> (r: Result<String, WalletError>)
    ensures
        xprv_ok(key@) ==> r is Ok,
        r is Ok ==> xprv_ok(key@),
        r matches Ok(p) ==> p@ == xpub_of(key@),
        r matches Err(e) ==> e == WalletError::DecodeError,
{
    let k = key.parse::<bdk::bitcoin::util::bip32::ExtendedPrivKey>()
        .map_err(|_| WalletError::DecodeError)?;
    let secp = bdk::bitcoin::secp256k1::Secp256k1::new();
    Ok(bdk::bitcoin::util::bip32::ExtendedPubKey::from_priv(&secp, &k).to_string())
}

/// Relies on `bitcoin::util::bip32::ExtendedPrivKey::{from_str, to_priv}`,
/// `PrivateKey::public_key`, `Address::p2wpkh` and its `Display` impl.
/// Parsing decides success (`to_priv` keys are always compressed, so
/// `p2wpkh` cannot fail); the rendered address is a function of the key and
/// the network alone.
#[verifier::external_body]
pub(crate) fn p2wpkh_address(key: &str, net: Network) -> (r: Result<String, WalletError>)
    ensures
        xprv_ok(key@) ==> r is Ok,
        r is Ok ==> xprv_ok(key@),
        r matches Ok(a) ==> a@ == p2wpkh_address_of(key@, net),
        r matches Err(e) ==> e == WalletError::DecodeError,
{
    let k = key.parse::<bdk::bitcoin::util::bip32::ExtendedPrivKey>()
        .map_err(|_| WalletError::DecodeError)?;
    let secp = bdk::bitcoin::secp256k1::Secp256k1::new();
    let pk = k.to_priv().public_key(&secp);
    let n = match net {
        Network::Mainnet => bdk::bitcoin::Network::Bitcoin,
        Network::Testnet => bdk::bitcoin::Network::Testnet,
    };
    let a = bdk::bitcoin::Address::p2wpkh(&pk, n).map_err(|_| WalletError::DecodeError)?;
    Ok(a.to_string())
}

/// Relies on `bitcoin::util::bip32::ExtendedPrivKey::{from_str, to_priv}`,
/// `PublicKey::wpubkey_hash` and `Script::new_v0_p2wpkh`. Parsing decides
/// success (the key is compressed, so the hash exists); the output script
/// is a function of the key alone: one opcode, one push byte and a 20-byte
/// hash.
#[verifier::external_body]
pub(crate) fn p2wpkh_script(key: &str) -> (r: Result<Vec<u8>, WalletError>)
    ensures
        xprv_ok(key@) ==> r is Ok,
        r is Ok ==> xprv_ok(key@),
        r matches Ok(s) ==> s@ == p2wpkh_script_of(key@) && s@.len() == 22,
        r matches Err(e) ==> e == WalletError::DecodeError,
{
    let k = key.parse::<bdk::bitcoin::util::bip32::ExtendedPrivKey>()
        .map_err(|_| WalletError::DecodeError)?;
    let secp = bdk::bitcoin::secp256k1::Secp256k1::new();
    let pk = k.to_priv().public_key(&secp);
    let h = pk.wpubkey_hash().ok_or(WalletError::DecodeError)?;
    Ok(bdk::bitcoin::Script::new_v0_p2wpkh(&h).into_bytes())
}

/// Relies on `bitcoin::util::bip32::ExtendedPrivKey::{from_str, to_priv}`,
/// `PrivateKey::public_key` and `PublicKey::to_bytes`. Parsing decides
/// success; the compressed 33-byte public key is a function of the private
/// key alone.
#[verifier::external_body]
pub(crate) fn compressed_pubkey(key: &str) -> (r: Result<Vec<u8>, WalletError>)
    ensures
        xprv_ok(key@) ==> r is Ok,
        r is Ok ==> xprv_ok(key@),
        r matches Ok(p) ==> p@ == pubkey_of(key@) && p@.len() == 33,
        r matches Err(e) ==> e == WalletError::DecodeError,
{
    let k = key.parse::<bdk::bitcoin::util::bip32::ExtendedPrivKey>()
        .map_err(|_| WalletError::DecodeError)?;
    let secp = bdk::bitcoin::secp256k1::Secp256k1::new();
    Ok(k.to_priv().public_key(&secp).to_bytes())
}

/// Relies on `bitcoin::Address::from_str` (which determines the network
/// from the encoding and caps witness programs at 40 bytes) and
/// `Address::script_pubkey`: no script of a parseable address exceeds 42
/// bytes. Addresses of networks other than mainnet and testnet are
/// rejected.
#[verifier::external_body]
pub(crate) fn parse_address(addr: &str) -> (r: Result<(Vec<u8>, Network), WalletError>)
    ensures
        r matches Ok(p) ==> address_parses(addr@) && p.0@ == address_script_of(addr@)
            && p.1 == address_network_of(addr@) && p.0@.len() <= 42,
        r is Err ==> !address_parses(addr@),
        r matches Err(e) ==> e == WalletError::InvalidAddress,
{
    let a = addr.parse::<bdk::bitcoin::Address>().map_err(|_| WalletError::InvalidAddress)?;
    let n = match a.network {
        bdk::bitcoin::Network::Bitcoin => Network::Mainnet,
        bdk::bitcoin::Network::Testnet => Network::Testnet,
        _ => return Err(WalletError::InvalidAddress),
    };
    Ok((a.script_pubkey().into_bytes(), n))
}

/// A freshly derived BIP-32 master key, held only for the derivation step.
pub struct MasterKey {
    pub key: String,
    pub net: Network,
}

/// The two account-level extended private keys of a wallet, one per
/// keychain role, plus the network they were derived for.
pub struct AccountKeys {
    pub external: String,
    pub internal: String,
    pub net: Network,
}

/// The coin type of the fixed segwit account path: mainnet coins and test
/// coins derive on separate branches.
pub open spec fn coin_code(net: Network) -> u32 {
    match net {
        Network::Mainnet => 0u32,
        Network::Testnet => 1u32,
    }
}

/// The non-hardened branch of a keychain role below the account:
/// receive-facing addresses on one branch, change on the other.
pub open spec fn branch_code(role: KeychainRole) -> u32 {
    match role {
        KeychainRole::External => 0u32,
        KeychainRole::Internal => 1u32,
    }
}

/// The segwit purpose level of the fixed derivation path.
pub const PURPOSE_SEGWIT: u32 = 84;

/// The account index this single-account wallet uses.
pub const ACCOUNT_INDEX: u32 = 0;

/// The account key a given mnemonic and network determine for a role.
pub open spec fn account_key_spec(phrase: Seq<char>, net: Network, role: KeychainRole) -> Seq<
    char,
> {
    account_key_of(
        master_key_of(phrase, net),
        PURPOSE_SEGWIT,
        coin_code(net),
        ACCOUNT_INDEX,
        branch_code(role),
    )
}

/// Derive the master key from a mnemonic phrase with an empty passphrase.
/// Succeeds exactly on valid phrases (up to the negligible seed corner
/// `seed_key_ok` records); an invalid phrase is rejected before any key
/// material is derived.
pub fn derive_master_key(phrase: &str, net: Network) -> (r: Result<MasterKey, WalletError>)
    ensures
        r is Ok <==> mnemonic_ok(phrase@) && seed_key_ok(phrase@),
        r matches Ok(mk) ==> mk.key@ == master_key_of(phrase@, net) && xprv_ok(mk.key@) && mk.net
            == net,
        r matches Err(e) ==> e == WalletError::InvalidMnemonic,
{
    match bip32_master_key(phrase, net) {
        Ok(k) => Ok(MasterKey { key: k, net }),
        Err(e) => Err(e),
    }
}

/// Derive the two account-level keys (external and internal role) from a
/// master key, along the fixed network-tagged segwit account paths.
/// Succeeds exactly when the master key string parses, which every key
/// `derive_master_key` returns does.
pub fn derive_account_keys(mk: &MasterKey) -> (r: Result<AccountKeys, WalletError>)
    ensures
        r is Ok <==> xprv_ok(mk.key@),
        r matches Ok(ak) ==> ak.external@ == account_key_of(
            mk.key@,
            PURPOSE_SEGWIT,
            coin_code(mk.net),
            ACCOUNT_INDEX,
            branch_code(KeychainRole::External),
        ) && ak.internal@ == account_key_of(
            mk.key@,
            PURPOSE_SEGWIT,
            coin_code(mk.net),
            ACCOUNT_INDEX,
            branch_code(KeychainRole::Internal),
        ) && xprv_ok(ak.external@) && xprv_ok(ak.internal@) && ak.net == mk.net,
        r matches Err(e) ==> e == WalletError::DecodeError,
{
    let coin: u32 = match mk.net {
        Network::Mainnet => 0,
        Network::Testnet => 1,
    };
    let ext = match bip32_derive_account(mk.key.as_str(), PURPOSE_SEGWIT, coin, ACCOUNT_INDEX, 0) {
        Ok(k) => k,
        Err(e) => {
            return Err(e);
        },
    };
    let inl = match bip32_derive_account(mk.key.as_str(), PURPOSE_SEGWIT, coin, ACCOUNT_INDEX, 1) {
        Ok(k) => k,
        Err(e) => {
            return Err(e);
        },
    };
    Ok(AccountKeys { external: ext, internal: inl, net: mk.net })
}

/// Derive the extended public key of an extended private key. Pure and
/// total on parseable keys: no state is read or written, and only the
/// conventional extended-public-key encoding is exposed.
pub fn derive_public_key(key: &str) -> (r: Result<String, WalletError>)
    ensures
        xprv_ok(key@) ==> r is Ok,
        r is Ok ==> xprv_ok(key@),
        r matches Ok(p) ==> p@ == xpub_of(key@),
        r matches Err(e) ==> e == WalletError::DecodeError,
{
    bip32_xpub(key)
}

/// The address a role key stands to issue at an index: derive the
/// non-hardened child there and render its address. Succeeds exactly when
/// the key string parses.
pub fn address_at_index(key: &str, index: u32, net: Network) -> (r: Result<String, WalletError>)
    requires
        index < 0x8000_0000u32,
    ensures
        xprv_ok(key@) ==> r is Ok,
        r is Ok ==> xprv_ok(key@),
        r matches Ok(a) ==> a@ == p2wpkh_address_of(child_key_at(key@, index), net),
        r matches Err(e) ==> e == WalletError::DecodeError,
{
    let child = match bip32_derive_index(key, index) {
        Ok(c) => c,
        Err(e) => {
            return Err(e);
        },
    };
    p2wpkh_address(child.as_str(), net)
}

/// Law: account-key derivation is deterministic. The contracts of
/// `derive_master_key` and `derive_account_keys` pin every derived key to
/// `account_key_spec`, a function of the mnemonic phrase and the network
/// alone; hence two derivations from the same phrase and network yield
/// byte-identical keys.
pub proof fn lemma_derivation_deterministic(
    phrase: Seq<char>,
    net: Network,
    role: KeychainRole,
    k1: Seq<char>,
    k2: Seq<char>,
)
    requires
        k1 == account_key_spec(phrase, net, role),
        k2 == account_key_spec(phrase, net, role),
    ensures
        k1 == k2,
{
}

/// Law: an invalid mnemonic phrase yields `InvalidMnemonic` and no key
/// material. Restates the rejection clause of `derive_master_key`'s
/// contract as a fact about any result it can return.
pub proof fn lemma_invalid_mnemonic_rejected(
    phrase: &str,
    net: Network,
    r: Result<MasterKey, WalletError>,
)
    requires
        !mnemonic_ok(phrase@),
        call_ensures(derive_master_key, (phrase, net), r),
    ensures
        r matches Err(e) && e == WalletError::InvalidMnemonic,
{
}

/// Law: a valid mnemonic yields a master key. Taken with
/// `lemma_derivation_deterministic`, two derivations from the same valid
/// phrase both return `Ok` and carry byte-identical keys. The one proviso
/// is `seed_key_ok`: the wrapped library rejects a seed whose HMAC falls
/// outside the curve's scalar range, an input no feasible computation can
/// exhibit, and an honest contract cannot promise success there.
pub proof fn lemma_valid_mnemonic_accepted(
    phrase: &str,
    net: Network,
    r: Result<MasterKey, WalletError>,
)
    requires
        mnemonic_ok(phrase@),
        seed_key_ok(phrase@),
        call_ensures(derive_master_key, (phrase, net), r),
    ensures
        r matches Ok(mk) && mk.key@ == master_key_of(phrase@, net),
{
}

} // verus!
