//! A single-user segwit Bitcoin wallet core: deterministic key derivation
//! from a mnemonic, in-memory wallet state (addresses, UTXOs, balance),
//! transaction building and signing, the consensus wire form for
//! broadcast, a persistence codec, and a balance monitor state machine.
//!
//! Cryptographic primitives (BIP-39 seed generation, BIP-32 child key
//! derivation, bech32 address rendering, ECDSA signing) are supplied by
//! outside crates behind narrow trusted wrappers; everything that decides
//! or computes on top of them is verified.

use vstd::prelude::*;

pub mod keys;
pub mod wallet;
pub mod monitor;
pub mod builder;
pub mod codec;
pub mod consensus;
pub mod signer;
pub mod sync;

verus! {

/// The closed set of failures a wallet operation can report.
///
/// `DecodeError` covers malformed persisted data as well as key material
/// that cannot be re-read or extended (both are "the bytes in hand do not
/// decode to what was expected").
#[derive(Clone, Copy, Debug, PartialEq, Eq, Structural)]
pub enum WalletError {
    InvalidMnemonic,
    NotInitialized,
    InvalidAddress,
    InsufficientFunds,
    UnknownInput,
    IncompleteSignature,
    ChainUnavailable,
    RejectedByNetwork,
    StorageIoError,
    DecodeError,
}

/// The network a wallet lives on. Test-network wallets use the test
/// derivation path and test address encodings.
#[derive(Clone, Copy, Debug, PartialEq, Eq, Structural)]
pub enum Network {
    Mainnet,
    Testnet,
}

/// The two keychain branches of a wallet: `External` receives payments,
/// `Internal` receives change.
#[derive(Clone, Copy, Debug, PartialEq, Eq, Structural)]
pub enum KeychainRole {
    External,
    Internal,
}

} // verus!
