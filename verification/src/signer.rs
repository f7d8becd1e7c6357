//! Signing: produce, for every input of a proposal, a segwit witness —
//! an ECDSA signature over the input's BIP-143 digest plus the owning
//! compressed public key — derived from the wallet key recorded for the
//! input by role and index at selection time.
//!
//! Signing is staged: a `SignedTransaction` may be partially signed, and
//! re-signing an already-signed input is a no-op. Only a fully signed
//! transaction can be extracted, as the consensus wire serialization, for
//! broadcast.

use vstd::prelude::*;

use crate::builder::proposal_wf;
use crate::builder::ProposalV;
use crate::builder::TransactionProposal;
use crate::consensus::compute_input_digest;
use crate::consensus::consensus_encode;
use crate::consensus::consensus_wire;
use crate::consensus::input_digest;
use crate::keys::bip32_derive_index;
use crate::keys::child_key_at;
use crate::keys::compressed_pubkey;
use crate::keys::p2wpkh_script;
use crate::keys::p2wpkh_script_of;
use crate::keys::pubkey_of;
use crate::keys::xprv_ok;
use crate::wallet::clone_bytes;
use crate::wallet::UtxoV;
use crate::wallet::WalletState;
use crate::wallet::WalletStateV;
use crate::KeychainRole;
use crate::WalletError;

verus! {

/// The DER encoding of the ECDSA signature the given key makes over a
/// 32-byte digest.
pub uninterp spec fn signature_of(key: Seq<char>, digest: Seq<u8>) -> Seq<u8>;

/// Relies on `bitcoin::util::bip32::ExtendedPrivKey::from_str`,
/// `secp256k1::Message::from_slice` (which takes exactly 32 bytes),
/// `Secp256k1::sign_ecdsa` (RFC 6979 deterministic nonces), and
/// `Signature::serialize_der`. Parsing decides success; the signature is a
/// function of the key and the digest alone, and a DER signature is at
/// most 72 bytes.
#[verifier::external_body]
pub(crate) fn ecdsa_sign_digest(key: &str, digest: &Vec<u8>) -> (r: Result<Vec<u8>, WalletError>)
    requires
        digest@.len() == 32,
    ensures
        xprv_ok(key@) ==> r is Ok,
        r is Ok ==> xprv_ok(key@),
        r matches Ok(s) ==> s@ == signature_of(key@, digest@) && s@.len() <= 72,
        r matches Err(e) ==> e == WalletError::DecodeError,
{
    let k = key.parse::<bdk::bitcoin::util::bip32::ExtendedPrivKey>()
        .map_err(|_| WalletError::DecodeError)?;
    let secp = bdk::bitcoin::secp256k1::Secp256k1::new();
    let m = bdk::bitcoin::secp256k1::Message::from_slice(digest.as_slice())
        .map_err(|_| WalletError::DecodeError)?;
    Ok(secp.sign_ecdsa(&m, &k.private_key).serialize_der().to_vec())
}

/// One input's segwit witness: the DER signature with the appended
/// signature-hash type byte, and the owning compressed public key.
#[derive(Debug, PartialEq, Eq)]
pub struct InputWitness {
    pub sig: Vec<u8>,
    pub pubkey: Vec<u8>,
}

/// The mathematical value of an `InputWitness`.
#[verifier::ext_equal]
pub struct WitnessV {
    pub sig: Seq<u8>,
    pub pubkey: Seq<u8>,
}

impl View for InputWitness {
    type V = WitnessV;

    open spec fn view(&self) -> WitnessV {
        WitnessV { sig: self.sig@, pubkey: self.pubkey@ }
    }
}

/// A proposal plus one optional witness per input; fully signed once every
/// witness is present.
#[derive(Debug)]
pub struct SignedTransaction {
    pub proposal: TransactionProposal,
    pub witnesses: Vec<Option<InputWitness>>,
}

/// The mathematical value of a `SignedTransaction`.
#[verifier::ext_equal]
pub struct SignedTxV {
    pub proposal: ProposalV,
    pub witnesses: Seq<Option<WitnessV>>,
}

pub open spec fn wits_view(s: Seq<Option<InputWitness>>) -> Seq<Option<WitnessV>> {
    s.map_values(
        |w: Option<InputWitness>|
            match w {
                Some(b) => Some(b@),
                None => None,
            },
    )
}

impl View for SignedTransaction {
    type V = SignedTxV;

    open spec fn view(&self) -> SignedTxV {
        SignedTxV { proposal: self.proposal@, witnesses: wits_view(self.witnesses@) }
    }
}

/// A well-formed signed transaction: a well-formed proposal, one witness
/// slot per input, and witness parts whose lengths fit the persistence
/// format.
pub open spec fn signed_wf(st: SignedTxV) -> bool {
    &&& proposal_wf(st.proposal)
    &&& st.witnesses.len() == st.proposal.inputs.len()
    &&& forall|i: int|
        0 <= i < st.witnesses.len() ==> (#[trigger] st.witnesses[i] matches Some(w) ==> w.sig.len()
            <= 0xFFFF_FFFFu32 && w.pubkey.len() <= 0xFFFF_FFFFu32)
}

pub open spec fn fully_signed(st: SignedTxV) -> bool {
    forall|i: int| 0 <= i < st.witnesses.len() ==> (#[trigger] st.witnesses[i]) is Some
}

/// Whether the wallet has issued the index an input claims to be owned by.
pub open spec fn input_known(w: WalletStateV, u: UtxoV) -> bool {
    u.index < w.next_index(u.role)
}

/// The key that owns an input: the child of the input's role key at the
/// input's recorded index.
pub open spec fn input_key(w: WalletStateV, u: UtxoV) -> Seq<char> {
    child_key_at(w.role_key(u.role), u.index)
}

/// The witness that signs input `i`: the owning key's signature over the
/// input's BIP-143 digest (with the all-outputs hash-type byte appended)
/// and the owning compressed public key.
pub open spec fn expected_witness(w: WalletStateV, p: ProposalV, i: int) -> WitnessV {
    WitnessV {
        sig: signature_of(
            input_key(w, p.inputs[i]),
            input_digest(p, i, p2wpkh_script_of(input_key(w, p.inputs[i]))),
        ) + seq![1u8],
        pubkey: pubkey_of(input_key(w, p.inputs[i])),
    }
}

/// What signing does: the proposal is untouched, already-present
/// witnesses are kept unchanged, and every missing witness becomes the
/// owning key's witness over the input's BIP-143 digest.
pub open spec fn sign_post(w: WalletStateV, st0: SignedTxV, st1: SignedTxV) -> bool {
    &&& st1.proposal == st0.proposal
    &&& st1.witnesses.len() == st0.witnesses.len()
    &&& forall|i: int|
        0 <= i < st0.witnesses.len() && (#[trigger] st0.witnesses[i]) is Some
            ==> st1.witnesses[i] == st0.witnesses[i]
    &&& forall|i: int|
        0 <= i < st0.witnesses.len() && (#[trigger] st0.witnesses[i]) is None
            ==> st1.witnesses[i] == Some(expected_witness(w, st0.proposal, i))
}

impl SignedTransaction {
    /// Wrap a proposal with no witnesses yet.
    pub fn unsigned(p: TransactionProposal) -> (st: SignedTransaction)
        ensures
            st@.proposal == p@,
            st@.witnesses.len() == p@.inputs.len(),
            forall|i: int| 0 <= i < st@.witnesses.len() ==> (#[trigger] st@.witnesses[i]) is None,
            proposal_wf(p@) ==> signed_wf(st@),
    {
        let n = p.inputs.len();
        let mut wits: Vec<Option<InputWitness>> = Vec::new();
        let mut i: usize = 0;
        while i < n
            invariant
                i <= n,
                wits@.len() == i,
                forall|j: int| 0 <= j < i ==> (#[trigger] wits@[j]) is None,
            decreases n - i,
        {
            wits.push(None);
            i = i + 1;
        }
        let st = SignedTransaction { proposal: p, witnesses: wits };
        proof {
            assert(forall|j: int|
                0 <= j < st@.witnesses.len() ==> (#[trigger] st@.witnesses[j]) is None);
        }
        st
    }
}

/// Sign every input of a transaction whose witness is still missing. Fails
/// with `UnknownInput` if any input claims a role and index the wallet has
/// never issued (a proposal built against stale state); keeps existing
/// witnesses, so re-signing is a no-op per input. Succeeds whenever the
/// wallet is initialized, every input is known, and the wallet's role keys
/// parse — which keys from `derive_account_keys` always do.
pub fn sign(wallet: &WalletState, st: &SignedTransaction) -> (r: Result<
    SignedTransaction,
    WalletError,
>)
    requires
        wallet@.wf(),
        signed_wf(st@),
    ensures
        (r matches Err(e) && e == WalletError::NotInitialized) <==> !wallet@.initialized(),
        (r matches Err(e) && e == WalletError::UnknownInput) ==> wallet@.initialized() && (
        exists|i: int|
            0 <= i < st@.proposal.inputs.len() && !input_known(
                wallet@,
                #[trigger] st@.proposal.inputs[i],
            )),
        wallet@.initialized() && (exists|i: int|
            0 <= i < st@.proposal.inputs.len() && !input_known(
                wallet@,
                #[trigger] st@.proposal.inputs[i],
            )) ==> (r matches Err(e) && e == WalletError::UnknownInput),
        wallet@.initialized() && (forall|i: int|
            0 <= i < st@.proposal.inputs.len() ==> input_known(
                wallet@,
                #[trigger] st@.proposal.inputs[i],
            )) && xprv_ok(wallet@.role_key(KeychainRole::External)) && xprv_ok(
            wallet@.role_key(KeychainRole::Internal),
        ) ==> r is Ok,
        r matches Ok(out) ==> wallet@.initialized() && (forall|i: int|
            0 <= i < st@.proposal.inputs.len() ==> input_known(
                wallet@,
                #[trigger] st@.proposal.inputs[i],
            )) && sign_post(wallet@, st@, out@) && signed_wf(out@) && fully_signed(out@),
{
    if wallet.keys.is_none() {
        return Err(WalletError::NotInitialized);
    }
    proof {
        assert(wallet@.initialized());
    }
    let n = st.proposal.inputs.len();
    let mut i: usize = 0;
    while i < n
        invariant
            wallet@.initialized(),
            n == st.proposal.inputs.len(),
            st@.proposal.inputs.len() == n,
            i <= n,
            forall|j: int| 0 <= j < i ==> input_known(wallet@, #[trigger] st@.proposal.inputs[j]),
        decreases n - i,
    {
        let u = &st.proposal.inputs[i];
        let next = match u.role {
            KeychainRole::External => wallet.next_external,
            KeychainRole::Internal => wallet.next_internal,
        };
        proof {
            assert(st@.proposal.inputs[i as int] == st.proposal.inputs@[i as int]@);
        }
        if u.index >= next {
            return Err(WalletError::UnknownInput);
        }
        i = i + 1;
    }

    let mut wits: Vec<Option<InputWitness>> = Vec::new();
    let mut i: usize = 0;
    while i < n
        invariant
            wallet@.wf(),
            wallet@.initialized(),
            n == st.proposal.inputs.len(),
            st@.proposal.inputs.len() == n,
            st@.witnesses.len() == n,
            signed_wf(st@),
            forall|j: int| 0 <= j < n ==> input_known(wallet@, #[trigger] st@.proposal.inputs[j]),
            i <= n,
            wits@.len() == i,
            forall|j: int| 0 <= j < i ==> (#[trigger] wits@[j]) is Some,
            forall|j: int|
                0 <= j < i ==> ((#[trigger] wits@[j]) matches Some(b) ==> b@.sig.len()
                    <= 0xFFFF_FFFFu32 && b@.pubkey.len() <= 0xFFFF_FFFFu32),
            forall|j: int|
                0 <= j < i ==> ((#[trigger] st@.witnesses[j]) matches Some(w) ==> (wits@[j]
                    matches Some(b) && b@ == w)),
            forall|j: int|
                0 <= j < i ==> ((#[trigger] st@.witnesses[j]) is None ==> (wits@[j] matches Some(b)
                    && b@ == expected_witness(wallet@, st@.proposal, j))),
        decreases n - i,
    {
        let ghost prev = wits@;
        let has = match &st.witnesses[i] {
            Some(_) => true,
            None => false,
        };
        let nw: InputWitness;
        if has {
            nw = match &st.witnesses[i] {
                Some(b) => InputWitness { sig: clone_bytes(&b.sig), pubkey: clone_bytes(&b.pubkey) },
                None => InputWitness { sig: Vec::new(), pubkey: Vec::new() },
            };
            proof {
                assert(st@.witnesses[i as int] matches Some(w) && w == nw@);
            }
        } else {
            let u = &st.proposal.inputs[i];
            proof {
                assert(st@.proposal.inputs[i as int] == st.proposal.inputs@[i as int]@);
                assert(input_known(wallet@, st@.proposal.inputs[i as int]));
                assert(u@.index < 0x8000_0000u32);
            }
            let key_str = match &wallet.keys {
                Some(ks) => {
                    match u.role {
                        KeychainRole::External => ks.external.as_str(),
                        KeychainRole::Internal => ks.internal.as_str(),
                    }
                },
                None => {
                    proof {
                        assert(false);
                    }
                    return Err(WalletError::NotInitialized);
                },
            };
            proof {
                assert(key_str@ == wallet@.role_key(u@.role));
            }
            let child = match bip32_derive_index(key_str, u.index) {
                Ok(c) => c,
                Err(e) => {
                    return Err(e);
                },
            };
            proof {
                assert(child@ == input_key(wallet@, st@.proposal.inputs[i as int]));
            }
            let spk = match p2wpkh_script(child.as_str()) {
                Ok(s) => s,
                Err(e) => {
                    return Err(e);
                },
            };
            let digest = compute_input_digest(&st.proposal, i, &spk);
            let mut sig = match ecdsa_sign_digest(child.as_str(), &digest) {
                Ok(s) => s,
                Err(e) => {
                    return Err(e);
                },
            };
            sig.push(1u8);
            let pubkey = match compressed_pubkey(child.as_str()) {
                Ok(pk) => pk,
                Err(e) => {
                    return Err(e);
                },
            };
            nw = InputWitness { sig, pubkey };
            proof {
                assert(st@.witnesses[i as int] is None);
                assert(nw@ =~= expected_witness(wallet@, st@.proposal, i as int));
            }
        }
        wits.push(Some(nw));
        proof {
            assert(wits@ == prev.push(Some(nw)));
            assert(forall|j: int| 0 <= j < i ==> wits@[j] == prev[j]);
            assert(wits@[i as int] matches Some(b) && b == nw);
        }
        i = i + 1;
    }

    let out = SignedTransaction {
        proposal: crate::builder::clone_proposal(&st.proposal),
        witnesses: wits,
    };
    proof {
        assert(out@.proposal == st@.proposal);
        assert(out@.witnesses.len() == n);
        assert forall|j: int| 0 <= j < n implies out@.witnesses[j] == (match wits@[j] {
            Some(b) => Some(b@),
            None => None,
        }) by {}
        assert forall|j: int|
            0 <= j < n && (#[trigger] st@.witnesses[j]) is Some implies out@.witnesses[j]
            == st@.witnesses[j] by {
            assert(st@.witnesses[j] matches Some(w) ==> (wits@[j] matches Some(b) && b@ == w));
        }
        assert forall|j: int|
            0 <= j < n && (#[trigger] st@.witnesses[j]) is None implies out@.witnesses[j] == Some(
            expected_witness(wallet@, st@.proposal, j),
        ) by {}
        assert forall|j: int| 0 <= j < n implies (#[trigger] out@.witnesses[j]) is Some by {
            assert(wits@[j] is Some);
        }
        assert forall|j: int|
            0 <= j < n implies ((#[trigger] out@.witnesses[j]) matches Some(b) ==> b.sig.len()
            <= 0xFFFF_FFFFu32 && b.pubkey.len() <= 0xFFFF_FFFFu32) by {
            assert(wits@[j] matches Some(v) ==> v@.sig.len() <= 0xFFFF_FFFFu32 && v@.pubkey.len()
                <= 0xFFFF_FFFFu32);
        }
        assert(sign_post(wallet@, st@, out@));
        assert(signed_wf(out@));
        assert(fully_signed(out@));
    }
    Ok(out)
}

/// The witness stack of a fully signed transaction, input by input.
pub open spec fn extracted_wits(st: SignedTxV) -> Seq<WitnessV> {
    Seq::new(
        st.witnesses.len(),
        |i: int|
            match st.witnesses[i] {
                Some(w) => w,
                None => WitnessV { sig: Seq::empty(), pubkey: Seq::empty() },
            },
    )
}

/// Check completeness and extract the final consensus wire-format
/// transaction for broadcast: succeeds exactly when every input is signed.
pub fn extract_for_broadcast(st: &SignedTransaction) -> (r: Result<Vec<u8>, WalletError>)
    requires
        signed_wf(st@),
    ensures
        r is Ok <==> fully_signed(st@),
        r matches Ok(b) ==> b@ == consensus_wire(st@.proposal, extracted_wits(st@)),
        r matches Err(e) ==> e == WalletError::IncompleteSignature,
{
    let n = st.witnesses.len();
    let mut ws: Vec<InputWitness> = Vec::new();
    let mut i: usize = 0;
    while i < n
        invariant
            n == st.witnesses.len(),
            st@.witnesses.len() == n,
            i <= n,
            ws@.len() == i,
            forall|j: int| 0 <= j < i ==> (#[trigger] st@.witnesses[j]) is Some,
            forall|j: int|
                0 <= j < i ==> (#[trigger] ws@[j]@) == extracted_wits(st@)[j],
        decreases n - i,
    {
        proof {
            assert(st@.witnesses[i as int] == (match st.witnesses@[i as int] {
                Some(b) => Some(b@),
                None => None,
            }));
        }
        match &st.witnesses[i] {
            Some(w) => {
                ws.push(InputWitness { sig: clone_bytes(&w.sig), pubkey: clone_bytes(&w.pubkey) });
            },
            None => {
                return Err(WalletError::IncompleteSignature);
            },
        }
        i = i + 1;
    }
    let wire = consensus_encode(&st.proposal, &ws);
    proof {
        assert(ws@.map_values(|w: InputWitness| w@) =~= extracted_wits(st@));
    }
    Ok(wire)
}

/// Law: signing is idempotent. Re-signing a fully signed transaction
/// changes nothing: any result that satisfies the signing contract on a
/// fully signed input equals that input.
pub proof fn lemma_sign_idempotent(w: WalletStateV, st: SignedTxV, st1: SignedTxV)
    requires
        fully_signed(st),
        sign_post(w, st, st1),
    ensures
        st1 == st,
{
    assert(st1.witnesses =~= st.witnesses);
    assert(st1 =~= st);
}

} // verus!
