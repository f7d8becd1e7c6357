//! The wallet's half of a reconciliation pass. A sync is a full rescan:
//! list every address the wallet has issued so far (both roles, indices
//! zero up to each role's counter), have the chain backend report the
//! UTXOs standing at them, and replace the tracked set wholesale with
//! `WalletState::reconcile`.
//!
//! The chain query itself is network work and happens outside, with no
//! lock held: the embedding application reads the scan list under the
//! lock, fetches, and commits the result under the lock again.

use vstd::prelude::*;

use crate::keys::address_at_index;
use crate::keys::xprv_ok;
use crate::wallet::WalletState;
use crate::KeychainRole;
use crate::WalletError;

verus! {

/// One address to scan, with the role and index it was issued at, so that
/// UTXOs found there can be attributed to their owning key.
#[derive(Debug)]
pub struct ScanEntry {
    pub address: String,
    pub role: KeychainRole,
    pub index: u32,
}

/// Every address the wallet has issued: for each role, the addresses at
/// indices zero up to the role's next-index counter, external role first.
pub fn addresses_to_scan(w: &WalletState) -> (r: Result<Vec<ScanEntry>, WalletError>)
    requires
        w@.wf(),
    ensures
        (r matches Err(e) && e == WalletError::NotInitialized) <==> !w@.initialized(),
        w@.initialized() && xprv_ok(w@.role_key(KeychainRole::External)) && xprv_ok(
            w@.role_key(KeychainRole::Internal),
        ) ==> r is Ok,
        r matches Ok(v) ==> w@.initialized() && v@.len() == w@.next_external + w@.next_internal
            && (forall|j: int|
            0 <= j < w@.next_external ==> (#[trigger] v@[j]).role == KeychainRole::External
                && v@[j].index == j && v@[j].address@ == w@.address_at(
                KeychainRole::External,
                j as u32,
            )) && (forall|j: int|
            w@.next_external <= j < v@.len() ==> (#[trigger] v@[j]).role == KeychainRole::Internal
                && v@[j].index == j - w@.next_external && v@[j].address@ == w@.address_at(
                KeychainRole::Internal,
                (j - w@.next_external) as u32,
            )),
{
    let (ext_key, int_key, net) = match &w.keys {
        Some(k) => (k.external.as_str(), k.internal.as_str(), k.net),
        None => {
            return Err(WalletError::NotInitialized);
        },
    };
    let mut out: Vec<ScanEntry> = Vec::new();
    let mut i: u32 = 0;
    while i < w.next_external
        invariant
            w@.initialized(),
            w@.wf(),
            w@.next_external == w.next_external,
            i <= w.next_external,
            ext_key@ == w@.role_key(KeychainRole::External),
            net == w@.net(),
            out@.len() == i,
            forall|j: int|
                0 <= j < i ==> (#[trigger] out@[j]).role == KeychainRole::External
                    && out@[j].index == j && out@[j].address@ == w@.address_at(
                    KeychainRole::External,
                    j as u32,
                ),
        decreases w.next_external - i,
    {
        let addr = match address_at_index(ext_key, i, net) {
            Ok(a) => a,
            Err(e) => {
                return Err(e);
            },
        };
        out.push(ScanEntry { address: addr, role: KeychainRole::External, index: i });
        i = i + 1;
    }
    let ghost ne = w@.next_external as int;
    let mut i: u32 = 0;
    while i < w.next_internal
        invariant
            w@.initialized(),
            w@.wf(),
            w@.next_internal == w.next_internal,
            ne == w@.next_external,
            i <= w.next_internal,
            int_key@ == w@.role_key(KeychainRole::Internal),
            net == w@.net(),
            out@.len() == ne + i,
            forall|j: int|
                0 <= j < ne ==> (#[trigger] out@[j]).role == KeychainRole::External
                    && out@[j].index == j && out@[j].address@ == w@.address_at(
                    KeychainRole::External,
                    j as u32,
                ),
            forall|j: int|
                ne <= j < out@.len() ==> (#[trigger] out@[j]).role == KeychainRole::Internal
                    && out@[j].index == j - ne && out@[j].address@ == w@.address_at(
                    KeychainRole::Internal,
                    (j - ne) as u32,
                ),
        decreases w.next_internal - i,
    {
        let addr = match address_at_index(int_key, i, net) {
            Ok(a) => a,
            Err(e) => {
                return Err(e);
            },
        };
        out.push(ScanEntry { address: addr, role: KeychainRole::Internal, index: i });
        i = i + 1;
    }
    Ok(out)
}

} // verus!
