//! The in-memory wallet state: account keys, discovered UTXOs and the
//! per-role address counters, with query and mutation operations.
//!
//! A `WalletState` starts uninitialized; every query on an uninitialized
//! wallet fails with `NotInitialized`. The confirmed balance is always the
//! sum over the current UTXO set, never an independently stored number.

use vstd::prelude::*;

use crate::keys::address_at_index;
use crate::keys::xprv_ok;
use crate::keys::AccountKeys;
use crate::keys::child_key_at;
use crate::keys::p2wpkh_address_of;
use crate::KeychainRole;
use crate::Network;
use crate::WalletError;

verus! {

/// An unspent transaction output owned by the wallet, together with the
/// keychain role and address index it was discovered at.
#[derive(Debug)]
pub struct Utxo {
    pub txid: Vec<u8>,
    pub vout: u32,
    pub value: u64,
    pub script: Vec<u8>,
    pub role: KeychainRole,
    pub index: u32,
}

/// The mathematical value of a `Utxo`.
#[verifier::ext_equal]
pub struct UtxoV {
    pub txid: Seq<u8>,
    pub vout: u32,
    pub value: u64,
    pub script: Seq<u8>,
    pub role: KeychainRole,
    pub index: u32,
}

impl View for Utxo {
    type V = UtxoV;

    open spec fn view(&self) -> UtxoV {
        UtxoV {
            txid: self.txid@,
            vout: self.vout,
            value: self.value,
            script: self.script@,
            role: self.role,
            index: self.index,
        }
    }
}

/// A well-formed UTXO: a 32-byte transaction id and a script whose length
/// fits the wire format's length prefix.
pub open spec fn utxo_wf(u: UtxoV) -> bool {
    u.txid.len() == 32 && u.script.len() <= 0xFFFF_FFFFu32
}

pub open spec fn utxos_view(s: Seq<Utxo>) -> Seq<UtxoV> {
    s.map_values(|u: Utxo| u@)
}

/// The total value of a sequence of UTXOs, in satoshis.
pub open spec fn sum_utxos(s: Seq<UtxoV>) -> int
    decreases s.len(),
{
    if s.len() == 0 {
        0
    } else {
        sum_utxos(s.drop_last()) + s.last().value
    }
}

pub proof fn lemma_sum_utxos_take_succ(s: Seq<UtxoV>, i: int)
    requires
        0 <= i < s.len(),
    ensures
        sum_utxos(s.take(i + 1)) == sum_utxos(s.take(i)) + s[i].value,
{
    assert(s.take(i + 1).drop_last() =~= s.take(i));
    assert(s.take(i + 1).last() == s[i]);
}

pub proof fn lemma_sum_utxos_take_le(s: Seq<UtxoV>, i: int)
    requires
        0 <= i <= s.len(),
    ensures
        sum_utxos(s.take(i)) <= sum_utxos(s),
    decreases s.len() - i,
{
    if i == s.len() {
        assert(s.take(i) =~= s);
    } else {
        lemma_sum_utxos_take_succ(s, i);
        lemma_sum_utxos_take_le(s, i + 1);
    }
}

/// Copy a byte vector. Written as a plain loop so that the copy's contents
/// are pinned by the contract.
pub fn clone_bytes(v: &Vec<u8>) -> (r: Vec<u8>)
    ensures
        r@ == v@,
{
    let mut r: Vec<u8> = Vec::new();
    let mut i: usize = 0;
    while i < v.len()
        invariant
            i <= v.len(),
            r@ == v@.take(i as int),
        decreases v.len() - i,
    {
        r.push(v[i]);
        proof {
            assert(r@ =~= v@.take(i + 1 as int));
        }
        i = i + 1;
    }
    proof {
        assert(v@.take(v@.len() as int) =~= v@);
    }
    r
}

/// Copy a UTXO; the copy has the same mathematical value.
pub fn clone_utxo(u: &Utxo) -> (r: Utxo)
    ensures
        r@ == u@,
{
    let r = Utxo {
        txid: clone_bytes(&u.txid),
        vout: u.vout,
        value: u.value,
        script: clone_bytes(&u.script),
        role: u.role,
        index: u.index,
    };
    proof {
        assert(r@ =~= u@);
    }
    r
}

/// The mathematical value of the account keys (see `keys::AccountKeys`).
#[verifier::ext_equal]
pub struct AccountKeysV {
    pub external: Seq<char>,
    pub internal: Seq<char>,
    pub net: Network,
}

impl View for AccountKeys {
    type V = AccountKeysV;

    open spec fn view(&self) -> AccountKeysV {
        AccountKeysV { external: self.external@, internal: self.internal@, net: self.net }
    }
}

/// The mathematical value of a `WalletState`.
#[verifier::ext_equal]
pub struct WalletStateV {
    pub keys: Option<AccountKeysV>,
    pub utxos: Seq<UtxoV>,
    pub next_external: u32,
    pub next_internal: u32,
}

impl WalletStateV {
    pub open spec fn initialized(self) -> bool {
        self.keys is Some
    }

    pub open spec fn net(self) -> Network {
        match self.keys {
            Some(k) => k.net,
            None => Network::Testnet,
        }
    }

    pub open spec fn role_key(self, role: KeychainRole) -> Seq<char> {
        match self.keys {
            Some(k) => match role {
                KeychainRole::External => k.external,
                KeychainRole::Internal => k.internal,
            },
            None => Seq::empty(),
        }
    }

    pub open spec fn next_index(self, role: KeychainRole) -> u32 {
        match role {
            KeychainRole::External => self.next_external,
            KeychainRole::Internal => self.next_internal,
        }
    }

    pub open spec fn with_next(self, role: KeychainRole, n: u32) -> WalletStateV {
        match role {
            KeychainRole::External => WalletStateV { next_external: n, ..self },
            KeychainRole::Internal => WalletStateV { next_internal: n, ..self },
        }
    }

    pub open spec fn with_utxos(self, s: Seq<UtxoV>) -> WalletStateV {
        WalletStateV { utxos: s, ..self }
    }

    /// The address the wallet stands to issue for a role at an index: the
    /// rendered address of the role key's child at that index.
    pub open spec fn address_at(self, role: KeychainRole, i: u32) -> Seq<char> {
        p2wpkh_address_of(child_key_at(self.role_key(role), i), self.net())
    }

    /// Well-formedness: every UTXO is well-formed, the total value fits a
    /// `u64`, and the address counters stay within the non-hardened index
    /// space.
    pub open spec fn wf(self) -> bool {
        &&& forall|i: int| 0 <= i < self.utxos.len() ==> utxo_wf(#[trigger] self.utxos[i])
        &&& self.utxos.len() <= 0xFFFF_FFFFu32
        &&& sum_utxos(self.utxos) <= u64::MAX
        &&& self.next_external <= 0x8000_0000u32
        &&& self.next_internal <= 0x8000_0000u32
    }
}

/// A valid incoming UTXO set: each entry well-formed and the total value
/// within what a `u64` balance can hold.
pub open spec fn utxo_set_ok(s: Seq<UtxoV>) -> bool {
    &&& forall|i: int| 0 <= i < s.len() ==> utxo_wf(#[trigger] s[i])
    &&& s.len() <= 0xFFFF_FFFFu32
    &&& sum_utxos(s) <= u64::MAX
}

/// One wallet's state: keys, discovered UTXOs, and per-role address
/// counters. All access from concurrently running tasks must go through
/// one exclusive lock owned by the embedding application.
pub struct WalletState {
    pub keys: Option<AccountKeys>,
    pub utxos: Vec<Utxo>,
    pub next_external: u32,
    pub next_internal: u32,
}

impl View for WalletState {
    type V = WalletStateV;

    open spec fn view(&self) -> WalletStateV {
        WalletStateV {
            keys: match self.keys {
                Some(k) => Some(k@),
                None => None,
            },
            utxos: utxos_view(self.utxos@),
            next_external: self.next_external,
            next_internal: self.next_internal,
        }
    }
}

/// What a successful `next_address` call does: it returns the role's
/// current index and the address the wallet stands to issue there, and
/// advances that role's counter by one; nothing else changes.
pub open spec fn next_address_post(
    pre: WalletStateV,
    post: WalletStateV,
    role: KeychainRole,
    idx: u32,
    addr: Seq<char>,
) -> bool {
    &&& pre.initialized()
    &&& idx == pre.next_index(role)
    &&& idx < 0x8000_0000u32
    &&& addr == pre.address_at(role, idx)
    &&& post == pre.with_next(role, (idx + 1) as u32)
}

impl WalletState {
    /// A fresh wallet for the given account keys: no UTXOs, both address
    /// counters at zero. Replaces any previous state wholesale, so a
    /// half-populated wallet is never observable.
    pub fn initialize(keys: AccountKeys) -> (w: WalletState)
        ensures
            w@ == (WalletStateV {
                keys: Some(keys@),
                utxos: Seq::<UtxoV>::empty(),
                next_external: 0,
                next_internal: 0,
            }),
            w@.wf(),
            w@.initialized(),
    {
        let w = WalletState { keys: Some(keys), utxos: Vec::new(), next_external: 0, next_internal: 0 };
        proof {
            assert(w@.utxos =~= Seq::<UtxoV>::empty());
            assert(w@ =~= (WalletStateV {
                keys: w@.keys,
                utxos: Seq::<UtxoV>::empty(),
                next_external: 0,
                next_internal: 0,
            }));
        }
        w
    }

    /// The confirmed balance: the sum of the values of all tracked UTXOs.
    pub fn balance(&self) -> (r: Result<u64, WalletError>)
        requires
            self@.wf(),
        ensures
            self@.initialized() ==> (r matches Ok(b) && b as int == sum_utxos(self@.utxos)),
            !self@.initialized() ==> (r matches Err(e) && e == WalletError::NotInitialized),
    {
        if self.keys.is_none() {
            return Err(WalletError::NotInitialized);
        }
        let mut acc: u64 = 0;
        let mut i: usize = 0;
        while i < self.utxos.len()
            invariant
                self@.wf(),
                i <= self.utxos.len(),
                self@.utxos.len() == self.utxos.len(),
                acc as int == sum_utxos(self@.utxos.take(i as int)),
            decreases self.utxos.len() - i,
        {
            proof {
                lemma_sum_utxos_take_succ(self@.utxos, i as int);
                lemma_sum_utxos_take_le(self@.utxos, i + 1);
                assert(self@.utxos[i as int] == self.utxos@[i as int]@);
            }
            acc = acc + self.utxos[i].value;
            i = i + 1;
        }
        proof {
            assert(self@.utxos.take(self@.utxos.len() as int) =~= self@.utxos);
        }
        Ok(acc)
    }

    /// Issue the next address for a role: derive the child key at the
    /// role's current index, render its address, and advance the counter.
    /// On any failure the wallet is unchanged and no index is consumed.
    pub fn next_address(&mut self, role: KeychainRole) -> (r: Result<(String, u32), WalletError>)
        requires
            old(self)@.wf(),
        ensures
            final(self)@.wf(),
            r is Err ==> final(self)@ == old(self)@,
            (r matches Err(e) && e == WalletError::NotInitialized) <==> !old(
                self,
            )@.initialized(),
            old(self)@.initialized() && xprv_ok(old(self)@.role_key(role)) && old(
                self,
            )@.next_index(role) < 0x8000_0000u32 ==> r is Ok,
            r matches Ok(p) ==> next_address_post(old(self)@, final(self)@, role, p.1, p.0@),
    {
        let (key_str, idx, net) = match &self.keys {
            Some(k) => {
                match role {
                    KeychainRole::External => (k.external.as_str(), self.next_external, k.net),
                    KeychainRole::Internal => (k.internal.as_str(), self.next_internal, k.net),
                }
            },
            None => {
                return Err(WalletError::NotInitialized);
            },
        };
        if idx >= 0x8000_0000u32 {
            // The non-hardened index space is exhausted; no further child
            // key exists at this role.
            return Err(WalletError::DecodeError);
        }
        proof {
            assert(key_str@ == old(self)@.role_key(role));
        }
        let addr = match address_at_index(key_str, idx, net) {
            Ok(a) => a,
            Err(e) => {
                return Err(e);
            },
        };
        match role {
            KeychainRole::External => {
                self.next_external = idx + 1;
            },
            KeychainRole::Internal => {
                self.next_internal = idx + 1;
            },
        }
        proof {
            assert(self@ =~= old(self)@.with_next(role, (idx + 1) as u32));
        }
        Ok((addr, idx))
    }

    /// Replace the tracked UTXO set wholesale with a freshly fetched one.
    /// The set is validated first; a set that cannot be a real chain state
    /// (overflowing total, malformed entries) is rejected and nothing is
    /// applied.
    pub fn reconcile(&mut self, new_utxos: Vec<Utxo>) -> (r: Result<(), WalletError>)
        requires
            old(self)@.wf(),
        ensures
            final(self)@.wf(),
            r is Err ==> final(self)@ == old(self)@,
            !old(self)@.initialized() ==> (r matches Err(e) && e == WalletError::NotInitialized),
            old(self)@.initialized() && utxo_set_ok(utxos_view(new_utxos@)) ==> r is Ok,
            r is Ok ==> old(self)@.initialized()
                && final(self)@ == old(self)@.with_utxos(utxos_view(new_utxos@)),
            old(self)@.initialized() && !utxo_set_ok(utxos_view(new_utxos@)) ==> (r matches Err(e)
                && e == WalletError::DecodeError),
    {
        if self.keys.is_none() {
            return Err(WalletError::NotInitialized);
        }
        if !utxo_set_valid(&new_utxos) {
            return Err(WalletError::DecodeError);
        }
        self.utxos = new_utxos;
        proof {
            assert(self@ =~= old(self)@.with_utxos(utxos_view(self.utxos@)));
        }
        Ok(())
    }

    /// A stable copy of the current UTXO set: a snapshot at call time, not
    /// a live view.
    pub fn list_utxos(&self) -> (r: Result<Vec<Utxo>, WalletError>)
        ensures
            self@.initialized() ==> (r matches Ok(v) && utxos_view(v@) == self@.utxos),
            !self@.initialized() ==> (r matches Err(e) && e == WalletError::NotInitialized),
    {
        if self.keys.is_none() {
            return Err(WalletError::NotInitialized);
        }
        let mut out: Vec<Utxo> = Vec::new();
        let mut i: usize = 0;
        while i < self.utxos.len()
            invariant
                i <= self.utxos.len(),
                out@.len() == i,
                forall|j: int| 0 <= j < i ==> out@[j]@ == #[trigger] self.utxos@[j]@,
            decreases self.utxos.len() - i,
        {
            out.push(clone_utxo(&self.utxos[i]));
            i = i + 1;
        }
        proof {
            assert(utxos_view(out@) =~= self@.utxos);
        }
        Ok(out)
    }
}

/// Validate an incoming UTXO set: 32-byte transaction ids, script lengths
/// within the wire format's prefix, and a total value a `u64` can hold.
pub fn utxo_set_valid(v: &Vec<Utxo>) -> (b: bool)
    ensures
        b == utxo_set_ok(utxos_view(v@)),
{
    let ghost s = utxos_view(v@);
    if v.len() > 0xFFFF_FFFFusize {
        return false;
    }
    let mut acc: u64 = 0;
    let mut i: usize = 0;
    while i < v.len()
        invariant
            i <= v.len(),
            s == utxos_view(v@),
            s.len() == v.len(),
            acc as int == sum_utxos(s.take(i as int)),
            forall|j: int| 0 <= j < i ==> utxo_wf(#[trigger] s[j]),
        decreases v.len() - i,
    {
        proof {
            assert(s[i as int] == v@[i as int]@);
        }
        if v[i].txid.len() != 32 {
            return false;
        }
        if v[i].script.len() > 0xFFFF_FFFFusize {
            return false;
        }
        proof {
            lemma_sum_utxos_take_succ(s, i as int);
        }
        if v[i].value > u64::MAX - acc {
            proof {
                lemma_sum_utxos_take_le(s, i + 1);
            }
            return false;
        }
        acc = acc + v[i].value;
        i = i + 1;
    }
    proof {
        assert(s.take(s.len() as int) =~= s);
    }
    true
}

/// Law: address issuance hands out strictly increasing indices. Two
/// immediately successive issuances for the same role return indices
/// `i` and `i + 1`.
pub proof fn lemma_next_address_strictly_increasing(
    w0: WalletStateV,
    w1: WalletStateV,
    w2: WalletStateV,
    role: KeychainRole,
    i1: u32,
    i2: u32,
    a1: Seq<char>,
    a2: Seq<char>,
)
    requires
        next_address_post(w0, w1, role, i1, a1),
        next_address_post(w1, w2, role, i2, a2),
    ensures
        i2 == i1 + 1,
        i1 < i2,
{
}

/// Law: two address issuances for the same role are pairwise distinct,
/// however many other operations run in between, because no wallet
/// operation ever decreases a role's counter. The two returned addresses
/// stand at distinct indices of the same keychain; their rendered strings
/// differ whenever child-key derivation is injective, which the wrapped
/// cryptography provides but the wrapper's contract does not promise.
pub proof fn lemma_next_address_distinct(
    wa: WalletStateV,
    wb: WalletStateV,
    wc: WalletStateV,
    wd: WalletStateV,
    role: KeychainRole,
    i: u32,
    j: u32,
    aa: Seq<char>,
    ab: Seq<char>,
)
    requires
        next_address_post(wa, wb, role, i, aa),
        next_address_post(wc, wd, role, j, ab),
        wb.next_index(role) <= wc.next_index(role),
    ensures
        i < j,
        i != j,
{
}

} // verus!
