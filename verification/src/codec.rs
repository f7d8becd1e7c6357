//! The persisted wire format: a fixed little-endian binary encoding of
//! transaction proposals and signed transactions, wrapped in a text-safe
//! base64 encoding for storage in the secrets file.
//!
//! Encoding and decoding are verified inverses: decoding the encoding of
//! any well-formed value yields that value back. The base64 wrapping is an
//! outside crate's work behind trusted wrappers.

use vstd::prelude::*;

use crate::builder::outputs_view;
use crate::builder::proposal_wf;
use crate::builder::sum_outputs;
use crate::builder::lemma_sum_outputs_take_le;
use crate::builder::lemma_sum_outputs_take_succ;
use crate::builder::txout_wf;
use crate::builder::ProposalV;
use crate::builder::TransactionProposal;
use crate::builder::TxOut;
use crate::builder::TxOutV;
use crate::builder::DUST_LIMIT;
use crate::signer::signed_wf;
use crate::signer::wits_view;
use crate::signer::InputWitness;
use crate::signer::SignedTransaction;
use crate::signer::SignedTxV;
use crate::signer::WitnessV;
use crate::wallet::lemma_sum_utxos_take_le;
use crate::wallet::lemma_sum_utxos_take_succ;
use crate::wallet::sum_utxos;
use crate::wallet::utxo_wf;
use crate::wallet::utxos_view;
use crate::wallet::Utxo;
use crate::wallet::UtxoV;
use crate::KeychainRole;
use crate::WalletError;

verus! {

// ---------------------------------------------------------------------
// Primitive encoders and decoders
// ---------------------------------------------------------------------

/// A `u32` as four little-endian bytes.
pub open spec fn enc_u32(v: u32) -> Seq<u8> {
    seq![
        (v & 0xff) as u8,
        ((v >> 8) & 0xff) as u8,
        ((v >> 16) & 0xff) as u8,
        ((v >> 24) & 0xff) as u8,
    ]
}

pub open spec fn dec_u32(s: Seq<u8>) -> Option<(u32, Seq<u8>)> {
    if s.len() >= 4 {
        Some(
            (
                (s[0] as u32) | ((s[1] as u32) << 8) | ((s[2] as u32) << 16) | (
                (s[3] as u32) << 24),
                s.skip(4),
            ),
        )
    } else {
        None
    }
}

pub proof fn lemma_dec_enc_u32(v: u32, rest: Seq<u8>)
    ensures
        dec_u32(enc_u32(v) + rest) == Some((v, rest)),
{
    let s = enc_u32(v) + rest;
    assert(s.len() >= 4);
    assert(s[0] == (v & 0xff) as u8);
    assert(s[1] == ((v >> 8) & 0xff) as u8);
    assert(s[2] == ((v >> 16) & 0xff) as u8);
    assert(s[3] == ((v >> 24) & 0xff) as u8);
    assert((((v & 0xff) as u8) as u32) | ((((v >> 8) & 0xff) as u8) as u32) << 8 | ((((v >> 16)
        & 0xff) as u8) as u32) << 16 | ((((v >> 24) & 0xff) as u8) as u32) << 24 == v)
        by (bit_vector);
    assert(s.skip(4) =~= rest);
}

/// A `u64` as eight little-endian bytes.
pub open spec fn enc_u64(v: u64) -> Seq<u8> {
    seq![
        (v & 0xff) as u8,
        ((v >> 8) & 0xff) as u8,
        ((v >> 16) & 0xff) as u8,
        ((v >> 24) & 0xff) as u8,
        ((v >> 32) & 0xff) as u8,
        ((v >> 40) & 0xff) as u8,
        ((v >> 48) & 0xff) as u8,
        ((v >> 56) & 0xff) as u8,
    ]
}

pub open spec fn dec_u64(s: Seq<u8>) -> Option<(u64, Seq<u8>)> {
    if s.len() >= 8 {
        Some(
            (
                (s[0] as u64) | ((s[1] as u64) << 8) | ((s[2] as u64) << 16) | ((s[3] as u64) << 24)
                    | ((s[4] as u64) << 32) | ((s[5] as u64) << 40) | ((s[6] as u64) << 48) | (
                (s[7] as u64) << 56),
                s.skip(8),
            ),
        )
    } else {
        None
    }
}

pub proof fn lemma_dec_enc_u64(v: u64, rest: Seq<u8>)
    ensures
        dec_u64(enc_u64(v) + rest) == Some((v, rest)),
{
    let s = enc_u64(v) + rest;
    assert(s.len() >= 8);
    assert(s[0] == (v & 0xff) as u8);
    assert(s[1] == ((v >> 8) & 0xff) as u8);
    assert(s[2] == ((v >> 16) & 0xff) as u8);
    assert(s[3] == ((v >> 24) & 0xff) as u8);
    assert(s[4] == ((v >> 32) & 0xff) as u8);
    assert(s[5] == ((v >> 40) & 0xff) as u8);
    assert(s[6] == ((v >> 48) & 0xff) as u8);
    assert(s[7] == ((v >> 56) & 0xff) as u8);
    assert((((v & 0xff) as u8) as u64) | ((((v >> 8) & 0xff) as u8) as u64) << 8 | ((((v >> 16)
        & 0xff) as u8) as u64) << 16 | ((((v >> 24) & 0xff) as u8) as u64) << 24 | ((((v >> 32)
        & 0xff) as u8) as u64) << 32 | ((((v >> 40) & 0xff) as u8) as u64) << 40 | ((((v >> 48)
        & 0xff) as u8) as u64) << 48 | ((((v >> 56) & 0xff) as u8) as u64) << 56 == v)
        by (bit_vector);
    assert(s.skip(8) =~= rest);
}

/// A byte string with a `u32` length prefix.
pub open spec fn enc_bytes(b: Seq<u8>) -> Seq<u8> {
    enc_u32(b.len() as u32) + b
}

pub open spec fn dec_bytes(s: Seq<u8>) -> Option<(Seq<u8>, Seq<u8>)> {
    match dec_u32(s) {
        Some(q) => {
            let (n, r) = q;
            if r.len() >= n {
                Some((r.take(n as int), r.skip(n as int)))
            } else {
                None
            }
        },
        None => None,
    }
}

pub proof fn lemma_dec_enc_bytes(b: Seq<u8>, rest: Seq<u8>)
    requires
        b.len() <= 0xFFFF_FFFFu32,
    ensures
        dec_bytes(enc_bytes(b) + rest) == Some((b, rest)),
{
    assert(enc_bytes(b) + rest =~= enc_u32(b.len() as u32) + (b + rest));
    lemma_dec_enc_u32(b.len() as u32, b + rest);
    assert((b + rest).take(b.len() as int) =~= b);
    assert((b + rest).skip(b.len() as int) =~= rest);
}

/// A 32-byte field (a transaction id), with no prefix.
pub open spec fn dec_fixed32(s: Seq<u8>) -> Option<(Seq<u8>, Seq<u8>)> {
    if s.len() >= 32 {
        Some((s.take(32), s.skip(32)))
    } else {
        None
    }
}

pub proof fn lemma_dec_fixed32(b: Seq<u8>, rest: Seq<u8>)
    requires
        b.len() == 32,
    ensures
        dec_fixed32(b + rest) == Some((b, rest)),
{
    assert((b + rest).take(32) =~= b);
    assert((b + rest).skip(32) =~= rest);
}

/// A keychain role as one byte.
pub open spec fn role_byte(r: KeychainRole) -> u8 {
    match r {
        KeychainRole::External => 0u8,
        KeychainRole::Internal => 1u8,
    }
}

pub open spec fn dec_role(s: Seq<u8>) -> Option<(KeychainRole, Seq<u8>)> {
    if s.len() >= 1 {
        if s[0] == 0u8 {
            Some((KeychainRole::External, s.skip(1)))
        } else if s[0] == 1u8 {
            Some((KeychainRole::Internal, s.skip(1)))
        } else {
            None
        }
    } else {
        None
    }
}

pub proof fn lemma_dec_enc_role(r: KeychainRole, rest: Seq<u8>)
    ensures
        dec_role(seq![role_byte(r)] + rest) == Some((r, rest)),
{
    let s = seq![role_byte(r)] + rest;
    assert(s[0] == role_byte(r));
    assert(s.skip(1) =~= rest);
}

// ---------------------------------------------------------------------
// Compound encoders and decoders
// ---------------------------------------------------------------------

pub open spec fn enc_utxo(u: UtxoV) -> Seq<u8> {
    u.txid + enc_u32(u.vout) + enc_u64(u.value) + enc_bytes(u.script) + seq![role_byte(u.role)]
        + enc_u32(u.index)
}

pub open spec fn dec_utxo(s: Seq<u8>) -> Option<(UtxoV, Seq<u8>)> {
    match dec_fixed32(s) {
        None => None,
        Some((txid, s1)) => match dec_u32(s1) {
            None => None,
            Some((vout, s2)) => match dec_u64(s2) {
                None => None,
                Some((value, s3)) => match dec_bytes(s3) {
                    None => None,
                    Some((script, s4)) => match dec_role(s4) {
                        None => None,
                        Some((role, s5)) => match dec_u32(s5) {
                            None => None,
                            Some((index, s6)) => Some(
                                (UtxoV { txid, vout, value, script, role, index }, s6),
                            ),
                        },
                    },
                },
            },
        },
    }
}

pub proof fn lemma_dec_enc_utxo(u: UtxoV, rest: Seq<u8>)
    requires
        utxo_wf(u),
    ensures
        dec_utxo(enc_utxo(u) + rest) == Some((u, rest)),
{
    let t5 = enc_u32(u.index) + rest;
    let t4 = seq![role_byte(u.role)] + t5;
    let t3 = enc_bytes(u.script) + t4;
    let t2 = enc_u64(u.value) + t3;
    let t1 = enc_u32(u.vout) + t2;
    assert(enc_utxo(u) + rest =~= u.txid + t1);
    lemma_dec_fixed32(u.txid, t1);
    assert(t1 =~= enc_u32(u.vout) + t2);
    lemma_dec_enc_u32(u.vout, t2);
    lemma_dec_enc_u64(u.value, t3);
    lemma_dec_enc_bytes(u.script, t4);
    lemma_dec_enc_role(u.role, t5);
    lemma_dec_enc_u32(u.index, rest);
    assert((UtxoV {
        txid: u.txid,
        vout: u.vout,
        value: u.value,
        script: u.script,
        role: u.role,
        index: u.index,
    }) =~= u);
}

pub open spec fn enc_txout(o: TxOutV) -> Seq<u8> {
    enc_bytes(o.script) + enc_u64(o.value)
}

pub open spec fn dec_txout(s: Seq<u8>) -> Option<(TxOutV, Seq<u8>)> {
    match dec_bytes(s) {
        None => None,
        Some((script, s1)) => match dec_u64(s1) {
            None => None,
            Some((value, s2)) => Some((TxOutV { script, value }, s2)),
        },
    }
}

pub proof fn lemma_dec_enc_txout(o: TxOutV, rest: Seq<u8>)
    requires
        o.script.len() <= 0xFFFF_FFFFu32,
    ensures
        dec_txout(enc_txout(o) + rest) == Some((o, rest)),
{
    let t1 = enc_u64(o.value) + rest;
    assert(enc_txout(o) + rest =~= enc_bytes(o.script) + t1);
    lemma_dec_enc_bytes(o.script, t1);
    lemma_dec_enc_u64(o.value, rest);
    assert((TxOutV { script: o.script, value: o.value }) =~= o);
}

/// One optional witness: a presence byte, then the length-prefixed
/// signature and public key if present.
pub open spec fn enc_wit(w: Option<WitnessV>) -> Seq<u8> {
    match w {
        None => seq![0u8],
        Some(b) => seq![1u8] + enc_bytes(b.sig) + enc_bytes(b.pubkey),
    }
}

pub open spec fn dec_wit(s: Seq<u8>) -> Option<(Option<WitnessV>, Seq<u8>)> {
    if s.len() >= 1 {
        if s[0] == 0u8 {
            Some((None, s.skip(1)))
        } else if s[0] == 1u8 {
            match dec_bytes(s.skip(1)) {
                None => None,
                Some((sig, r)) => match dec_bytes(r) {
                    None => None,
                    Some((pubkey, r2)) => Some((Some(WitnessV { sig, pubkey }), r2)),
                },
            }
        } else {
            None
        }
    } else {
        None
    }
}

pub proof fn lemma_dec_enc_wit(w: Option<WitnessV>, rest: Seq<u8>)
    requires
        w matches Some(b) ==> b.sig.len() <= 0xFFFF_FFFFu32 && b.pubkey.len() <= 0xFFFF_FFFFu32,
    ensures
        dec_wit(enc_wit(w) + rest) == Some((w, rest)),
{
    match w {
        None => {
            let s = seq![0u8] + rest;
            assert(s[0] == 0u8);
            assert(s.skip(1) =~= rest);
        },
        Some(b) => {
            let s = ((seq![1u8] + enc_bytes(b.sig)) + enc_bytes(b.pubkey)) + rest;
            assert(enc_wit(w) + rest =~= s);
            assert(s[0] == 1u8);
            assert(s.skip(1) =~= enc_bytes(b.sig) + (enc_bytes(b.pubkey) + rest));
            lemma_dec_enc_bytes(b.sig, enc_bytes(b.pubkey) + rest);
            lemma_dec_enc_bytes(b.pubkey, rest);
            assert((WitnessV { sig: b.sig, pubkey: b.pubkey }) =~= b);
        },
    }
}

// ---------------------------------------------------------------------
// Lists
// ---------------------------------------------------------------------

pub proof fn lemma_concat_assoc<T>(a: Seq<T>, b: Seq<T>, c: Seq<T>)
    ensures
        (a + b) + c == a + (b + c),
{
    assert((a + b) + c =~= a + (b + c));
}

pub open spec fn enc_utxo_list(s: Seq<UtxoV>) -> Seq<u8>
    decreases s.len(),
{
    if s.len() == 0 {
        Seq::empty()
    } else {
        enc_utxo(s[0]) + enc_utxo_list(s.drop_first())
    }
}

pub open spec fn dec_utxo_list(n: nat, s: Seq<u8>) -> Option<(Seq<UtxoV>, Seq<u8>)>
    decreases n,
{
    if n == 0 {
        Some((Seq::empty(), s))
    } else {
        match dec_utxo(s) {
            None => None,
            Some((u, r)) => match dec_utxo_list((n - 1) as nat, r) {
                None => None,
                Some((us, r2)) => Some((seq![u] + us, r2)),
            },
        }
    }
}

pub proof fn lemma_enc_utxo_list_snoc(s: Seq<UtxoV>, i: int)
    requires
        0 <= i < s.len(),
    ensures
        enc_utxo_list(s.take(i + 1)) == enc_utxo_list(s.take(i)) + enc_utxo(s[i]),
    decreases i,
{
    if i == 0 {
        assert(s.take(1).drop_first() =~= Seq::<UtxoV>::empty());
        assert(s.take(1)[0] == s[0]);
        assert(s.take(0) =~= Seq::<UtxoV>::empty());
        assert(enc_utxo_list(s.take(0)) + enc_utxo(s[0]) =~= enc_utxo(s[0]));
        assert(enc_utxo_list(s.take(1)) =~= enc_utxo(s[0]));
    } else {
        assert(s.take(i + 1)[0] == s[0]);
        assert(s.take(i)[0] == s[0]);
        assert(s.take(i + 1).drop_first() =~= s.drop_first().take(i));
        assert(s.take(i).drop_first() =~= s.drop_first().take(i - 1));
        lemma_enc_utxo_list_snoc(s.drop_first(), i - 1);
        assert(s.drop_first()[i - 1] == s[i]);
        assert(enc_utxo(s[0]) + (enc_utxo_list(s.drop_first().take(i - 1)) + enc_utxo(s[i]))
            =~= (enc_utxo(s[0]) + enc_utxo_list(s.drop_first().take(i - 1))) + enc_utxo(s[i]));
    }
}

#[verifier::rlimit(100)]
pub proof fn lemma_dec_enc_utxo_list(s: Seq<UtxoV>, rest: Seq<u8>)
    requires
        forall|i: int| 0 <= i < s.len() ==> utxo_wf(#[trigger] s[i]),
    ensures
        dec_utxo_list(s.len(), enc_utxo_list(s) + rest) == Some((s, rest)),
    decreases s.len(),
{
    if s.len() == 0 {
        assert(enc_utxo_list(s) + rest =~= rest);
        assert(s =~= Seq::<UtxoV>::empty());
    } else {
        let tail = s.drop_first();
        assert(enc_utxo_list(s) == enc_utxo(s[0]) + enc_utxo_list(tail));
        lemma_concat_assoc(enc_utxo(s[0]), enc_utxo_list(tail), rest);
        lemma_dec_enc_utxo(s[0], enc_utxo_list(tail) + rest);
        assert(forall|i: int| 0 <= i < tail.len() ==> utxo_wf(#[trigger] tail[i]));
        lemma_dec_enc_utxo_list(tail, rest);
        assert(seq![s[0]] + tail =~= s);
    }
}

pub open spec fn enc_txout_list(s: Seq<TxOutV>) -> Seq<u8>
    decreases s.len(),
{
    if s.len() == 0 {
        Seq::empty()
    } else {
        enc_txout(s[0]) + enc_txout_list(s.drop_first())
    }
}

pub open spec fn dec_txout_list(n: nat, s: Seq<u8>) -> Option<(Seq<TxOutV>, Seq<u8>)>
    decreases n,
{
    if n == 0 {
        Some((Seq::empty(), s))
    } else {
        match dec_txout(s) {
            None => None,
            Some((o, r)) => match dec_txout_list((n - 1) as nat, r) {
                None => None,
                Some((os, r2)) => Some((seq![o] + os, r2)),
            },
        }
    }
}

pub proof fn lemma_enc_txout_list_snoc(s: Seq<TxOutV>, i: int)
    requires
        0 <= i < s.len(),
    ensures
        enc_txout_list(s.take(i + 1)) == enc_txout_list(s.take(i)) + enc_txout(s[i]),
    decreases i,
{
    if i == 0 {
        assert(s.take(1).drop_first() =~= Seq::<TxOutV>::empty());
        assert(s.take(1)[0] == s[0]);
        assert(s.take(0) =~= Seq::<TxOutV>::empty());
        assert(enc_txout_list(s.take(0)) + enc_txout(s[0]) =~= enc_txout(s[0]));
        assert(enc_txout_list(s.take(1)) =~= enc_txout(s[0]));
    } else {
        assert(s.take(i + 1)[0] == s[0]);
        assert(s.take(i)[0] == s[0]);
        assert(s.take(i + 1).drop_first() =~= s.drop_first().take(i));
        assert(s.take(i).drop_first() =~= s.drop_first().take(i - 1));
        lemma_enc_txout_list_snoc(s.drop_first(), i - 1);
        assert(s.drop_first()[i - 1] == s[i]);
        assert(enc_txout(s[0]) + (enc_txout_list(s.drop_first().take(i - 1)) + enc_txout(s[i]))
            =~= (enc_txout(s[0]) + enc_txout_list(s.drop_first().take(i - 1))) + enc_txout(s[i]));
    }
}

#[verifier::rlimit(100)]
pub proof fn lemma_dec_enc_txout_list(s: Seq<TxOutV>, rest: Seq<u8>)
    requires
        forall|i: int| 0 <= i < s.len() ==> (#[trigger] s[i]).script.len() <= 0xFFFF_FFFFu32,
    ensures
        dec_txout_list(s.len(), enc_txout_list(s) + rest) == Some((s, rest)),
    decreases s.len(),
{
    if s.len() == 0 {
        assert(enc_txout_list(s) + rest =~= rest);
        assert(s =~= Seq::<TxOutV>::empty());
    } else {
        let tail = s.drop_first();
        assert(enc_txout_list(s) == enc_txout(s[0]) + enc_txout_list(tail));
        lemma_concat_assoc(enc_txout(s[0]), enc_txout_list(tail), rest);
        lemma_dec_enc_txout(s[0], enc_txout_list(tail) + rest);
        assert(forall|i: int|
            0 <= i < tail.len() ==> (#[trigger] tail[i]).script.len() <= 0xFFFF_FFFFu32);
        lemma_dec_enc_txout_list(tail, rest);
        assert(seq![s[0]] + tail =~= s);
    }
}

pub open spec fn enc_wit_list(s: Seq<Option<WitnessV>>) -> Seq<u8>
    decreases s.len(),
{
    if s.len() == 0 {
        Seq::empty()
    } else {
        enc_wit(s[0]) + enc_wit_list(s.drop_first())
    }
}

pub open spec fn dec_wit_list(n: nat, s: Seq<u8>) -> Option<(Seq<Option<WitnessV>>, Seq<u8>)>
    decreases n,
{
    if n == 0 {
        Some((Seq::empty(), s))
    } else {
        match dec_wit(s) {
            None => None,
            Some((w, r)) => match dec_wit_list((n - 1) as nat, r) {
                None => None,
                Some((ws, r2)) => Some((seq![w] + ws, r2)),
            },
        }
    }
}

pub proof fn lemma_enc_wit_list_snoc(s: Seq<Option<WitnessV>>, i: int)
    requires
        0 <= i < s.len(),
    ensures
        enc_wit_list(s.take(i + 1)) == enc_wit_list(s.take(i)) + enc_wit(s[i]),
    decreases i,
{
    if i == 0 {
        assert(s.take(1).drop_first() =~= Seq::<Option<WitnessV>>::empty());
        assert(s.take(1)[0] == s[0]);
        assert(s.take(0) =~= Seq::<Option<WitnessV>>::empty());
        assert(enc_wit_list(s.take(0)) + enc_wit(s[0]) =~= enc_wit(s[0]));
        assert(enc_wit_list(s.take(1)) =~= enc_wit(s[0]));
    } else {
        assert(s.take(i + 1)[0] == s[0]);
        assert(s.take(i)[0] == s[0]);
        assert(s.take(i + 1).drop_first() =~= s.drop_first().take(i));
        assert(s.take(i).drop_first() =~= s.drop_first().take(i - 1));
        lemma_enc_wit_list_snoc(s.drop_first(), i - 1);
        assert(s.drop_first()[i - 1] == s[i]);
        assert(enc_wit(s[0]) + (enc_wit_list(s.drop_first().take(i - 1)) + enc_wit(s[i])) =~= (
        enc_wit(s[0]) + enc_wit_list(s.drop_first().take(i - 1))) + enc_wit(s[i]));
    }
}

#[verifier::rlimit(100)]
pub proof fn lemma_dec_enc_wit_list(s: Seq<Option<WitnessV>>, rest: Seq<u8>)
    requires
        forall|i: int|
            0 <= i < s.len() ==> (#[trigger] s[i] matches Some(b) ==> b.sig.len()
                <= 0xFFFF_FFFFu32 && b.pubkey.len() <= 0xFFFF_FFFFu32),
    ensures
        dec_wit_list(s.len(), enc_wit_list(s) + rest) == Some((s, rest)),
    decreases s.len(),
{
    if s.len() == 0 {
        assert(enc_wit_list(s) + rest =~= rest);
        assert(s =~= Seq::<Option<WitnessV>>::empty());
    } else {
        let tail = s.drop_first();
        assert(enc_wit_list(s) == enc_wit(s[0]) + enc_wit_list(tail));
        lemma_concat_assoc(enc_wit(s[0]), enc_wit_list(tail), rest);
        lemma_dec_enc_wit(s[0], enc_wit_list(tail) + rest);
        assert(forall|i: int|
            0 <= i < tail.len() ==> (#[trigger] tail[i] matches Some(b) ==> b.sig.len()
                <= 0xFFFF_FFFFu32 && b.pubkey.len() <= 0xFFFF_FFFFu32));
        lemma_dec_enc_wit_list(tail, rest);
        assert(seq![s[0]] + tail =~= s);
    }
}

// ---------------------------------------------------------------------
// Whole messages
// ---------------------------------------------------------------------

/// The structural conditions the wire format needs: counts and lengths
/// that fit their prefixes. (The balance equation is not among them; it is
/// checked separately on restore.)
pub open spec fn proposal_codec_wf(p: ProposalV) -> bool {
    &&& p.inputs.len() <= 0xFFFF_FFFFu32
    &&& p.outputs.len() <= 0xFFFF_FFFFu32
    &&& forall|i: int| 0 <= i < p.inputs.len() ==> utxo_wf(#[trigger] p.inputs[i])
    &&& forall|i: int| 0 <= i < p.outputs.len() ==> (#[trigger] p.outputs[i]).script.len()
        <= 0xFFFF_FFFFu32
}

pub open spec fn signed_codec_wf(st: SignedTxV) -> bool {
    &&& proposal_codec_wf(st.proposal)
    &&& st.witnesses.len() == st.proposal.inputs.len()
    &&& forall|i: int|
        0 <= i < st.witnesses.len() ==> (#[trigger] st.witnesses[i] matches Some(b) ==> b.sig.len()
            <= 0xFFFF_FFFFu32 && b.pubkey.len() <= 0xFFFF_FFFFu32)
}

pub open spec fn enc_proposal(p: ProposalV) -> Seq<u8> {
    enc_u32(p.inputs.len() as u32) + enc_utxo_list(p.inputs) + enc_u32(p.outputs.len() as u32)
        + enc_txout_list(p.outputs) + enc_u64(p.fee)
}

pub open spec fn dec_proposal(s: Seq<u8>) -> Option<(ProposalV, Seq<u8>)> {
    match dec_u32(s) {
        None => None,
        Some((n_in, s1)) => match dec_utxo_list(n_in as nat, s1) {
            None => None,
            Some((ins, s2)) => match dec_u32(s2) {
                None => None,
                Some((n_out, s3)) => match dec_txout_list(n_out as nat, s3) {
                    None => None,
                    Some((outs, s4)) => match dec_u64(s4) {
                        None => None,
                        Some((fee, s5)) => Some(
                            (ProposalV { inputs: ins, outputs: outs, fee }, s5),
                        ),
                    },
                },
            },
        },
    }
}

pub proof fn lemma_dec_enc_proposal(p: ProposalV, rest: Seq<u8>)
    requires
        proposal_codec_wf(p),
    ensures
        dec_proposal(enc_proposal(p) + rest) == Some((p, rest)),
{
    let t4 = enc_u64(p.fee) + rest;
    let t3 = enc_txout_list(p.outputs) + t4;
    let t2 = enc_u32(p.outputs.len() as u32) + t3;
    let t1 = enc_utxo_list(p.inputs) + t2;
    assert(enc_proposal(p) + rest =~= enc_u32(p.inputs.len() as u32) + t1);
    lemma_dec_enc_u32(p.inputs.len() as u32, t1);
    lemma_dec_enc_utxo_list(p.inputs, t2);
    lemma_dec_enc_u32(p.outputs.len() as u32, t3);
    lemma_dec_enc_txout_list(p.outputs, t4);
    lemma_dec_enc_u64(p.fee, rest);
    assert((ProposalV { inputs: p.inputs, outputs: p.outputs, fee: p.fee }) =~= p);
}

pub open spec fn enc_signed(st: SignedTxV) -> Seq<u8> {
    enc_proposal(st.proposal) + enc_wit_list(st.witnesses)
}

pub open spec fn dec_signed(s: Seq<u8>) -> Option<(SignedTxV, Seq<u8>)> {
    match dec_proposal(s) {
        None => None,
        Some((p, s1)) => match dec_wit_list(p.inputs.len(), s1) {
            None => None,
            Some((ws, s2)) => Some((SignedTxV { proposal: p, witnesses: ws }, s2)),
        },
    }
}

pub proof fn lemma_dec_enc_signed(st: SignedTxV, rest: Seq<u8>)
    requires
        signed_codec_wf(st),
    ensures
        dec_signed(enc_signed(st) + rest) == Some((st, rest)),
{
    let t1 = enc_wit_list(st.witnesses) + rest;
    assert(enc_signed(st) + rest =~= enc_proposal(st.proposal) + t1);
    lemma_dec_enc_proposal(st.proposal, t1);
    lemma_dec_enc_wit_list(st.witnesses, rest);
    assert((SignedTxV { proposal: st.proposal, witnesses: st.witnesses }) =~= st);
}

/// The whole persisted payload: a signed transaction and nothing after it.
pub open spec fn dec_signed_full(s: Seq<u8>) -> Option<SignedTxV> {
    match dec_signed(s) {
        Some((st, r)) => if r.len() == 0 {
            Some(st)
        } else {
            None
        },
        None => None,
    }
}

/// What restoring a persisted payload yields: the decoded transaction,
/// provided it is well-formed.
pub open spec fn restore_spec(s: Seq<u8>) -> Option<SignedTxV> {
    match dec_signed_full(s) {
        Some(st) => if signed_wf(st) {
            Some(st)
        } else {
            None
        },
        None => None,
    }
}

pub proof fn lemma_proposal_wf_implies_codec(p: ProposalV)
    requires
        proposal_wf(p),
    ensures
        proposal_codec_wf(p),
{
    assert forall|i: int|
        0 <= i < p.outputs.len() implies (#[trigger] p.outputs[i]).script.len()
        <= 0xFFFF_FFFFu32 by {
        assert(txout_wf(p.outputs[i]));
    }
}

pub proof fn lemma_signed_wf_implies_codec(st: SignedTxV)
    requires
        signed_wf(st),
    ensures
        signed_codec_wf(st),
{
    lemma_proposal_wf_implies_codec(st.proposal);
}

// ---------------------------------------------------------------------
// Executable encoding
// ---------------------------------------------------------------------

pub(crate) fn push_u32(out: &mut Vec<u8>, v: u32)
    ensures
        final(out)@ == old(out)@ + enc_u32(v),
{
    out.push((v & 0xff) as u8);
    out.push(((v >> 8) & 0xff) as u8);
    out.push(((v >> 16) & 0xff) as u8);
    out.push(((v >> 24) & 0xff) as u8);
    proof {
        assert(out@ =~= old(out)@ + enc_u32(v));
    }
}

pub(crate) fn push_u64(out: &mut Vec<u8>, v: u64)
    ensures
        final(out)@ == old(out)@ + enc_u64(v),
{
    out.push((v & 0xff) as u8);
    out.push(((v >> 8) & 0xff) as u8);
    out.push(((v >> 16) & 0xff) as u8);
    out.push(((v >> 24) & 0xff) as u8);
    out.push(((v >> 32) & 0xff) as u8);
    out.push(((v >> 40) & 0xff) as u8);
    out.push(((v >> 48) & 0xff) as u8);
    out.push(((v >> 56) & 0xff) as u8);
    proof {
        assert(out@ =~= old(out)@ + enc_u64(v));
    }
}

pub(crate) fn push_slice(out: &mut Vec<u8>, b: &Vec<u8>)
    ensures
        final(out)@ == old(out)@ + b@,
{
    proof {
        assert(out@ =~= old(out)@ + b@.take(0));
    }
    let mut i: usize = 0;
    while i < b.len()
        invariant
            i <= b.len(),
            out@ == old(out)@ + b@.take(i as int),
        decreases b.len() - i,
    {
        out.push(b[i]);
        proof {
            assert(out@ =~= old(out)@ + b@.take(i + 1));
        }
        i = i + 1;
    }
    proof {
        assert(old(out)@ + b@.take(b@.len() as int) =~= old(out)@ + b@);
    }
}

pub(crate) fn push_bytes(out: &mut Vec<u8>, b: &Vec<u8>)
    requires
        b@.len() <= 0xFFFF_FFFFu32,
    ensures
        final(out)@ == old(out)@ + enc_bytes(b@),
{
    push_u32(out, b.len() as u32);
    push_slice(out, b);
    proof {
        assert(out@ =~= old(out)@ + enc_bytes(b@));
    }
}

pub(crate) fn encode_utxo_into(out: &mut Vec<u8>, u: &Utxo)
    requires
        utxo_wf(u@),
    ensures
        final(out)@ == old(out)@ + enc_utxo(u@),
{
    push_slice(out, &u.txid);
    push_u32(out, u.vout);
    push_u64(out, u.value);
    push_bytes(out, &u.script);
    let rb: u8 = match u.role {
        KeychainRole::External => 0,
        KeychainRole::Internal => 1,
    };
    out.push(rb);
    push_u32(out, u.index);
    proof {
        assert(rb == role_byte(u@.role));
        assert(out@ =~= old(out)@ + enc_utxo(u@));
    }
}

pub(crate) fn encode_txout_into(out: &mut Vec<u8>, o: &TxOut)
    requires
        o@.script.len() <= 0xFFFF_FFFFu32,
    ensures
        final(out)@ == old(out)@ + enc_txout(o@),
{
    push_bytes(out, &o.script);
    push_u64(out, o.value);
    proof {
        assert(out@ =~= old(out)@ + enc_txout(o@));
    }
}

pub(crate) fn encode_proposal_into(out: &mut Vec<u8>, p: &TransactionProposal)
    requires
        proposal_codec_wf(p@),
    ensures
        final(out)@ == old(out)@ + enc_proposal(p@),
{
    let ghost base = out@;
    push_u32(out, p.inputs.len() as u32);
    proof {
        assert(out@ =~= base + enc_u32(p@.inputs.len() as u32) + enc_utxo_list(p@.inputs.take(0)));
    }
    let mut i: usize = 0;
    while i < p.inputs.len()
        invariant
            proposal_codec_wf(p@),
            i <= p.inputs.len(),
            p@.inputs.len() == p.inputs.len(),
            out@ == base + enc_u32(p@.inputs.len() as u32) + enc_utxo_list(
                p@.inputs.take(i as int),
            ),
        decreases p.inputs.len() - i,
    {
        proof {
            assert(p@.inputs[i as int] == p.inputs@[i as int]@);
        }
        encode_utxo_into(out, &p.inputs[i]);
        proof {
            lemma_enc_utxo_list_snoc(p@.inputs, i as int);
            assert(out@ =~= base + enc_u32(p@.inputs.len() as u32) + enc_utxo_list(
                p@.inputs.take(i + 1),
            ));
        }
        i = i + 1;
    }
    proof {
        assert(p@.inputs.take(p@.inputs.len() as int) =~= p@.inputs);
    }
    let ghost mid = base + enc_u32(p@.inputs.len() as u32) + enc_utxo_list(p@.inputs);
    push_u32(out, p.outputs.len() as u32);
    proof {
        assert(out@ =~= mid + enc_u32(p@.outputs.len() as u32) + enc_txout_list(
            p@.outputs.take(0),
        ));
    }
    let mut i: usize = 0;
    while i < p.outputs.len()
        invariant
            proposal_codec_wf(p@),
            i <= p.outputs.len(),
            p@.outputs.len() == p.outputs.len(),
            mid == base + enc_u32(p@.inputs.len() as u32) + enc_utxo_list(p@.inputs),
            out@ == mid + enc_u32(p@.outputs.len() as u32) + enc_txout_list(
                p@.outputs.take(i as int),
            ),
        decreases p.outputs.len() - i,
    {
        proof {
            assert(p@.outputs[i as int] == p.outputs@[i as int]@);
        }
        encode_txout_into(out, &p.outputs[i]);
        proof {
            lemma_enc_txout_list_snoc(p@.outputs, i as int);
            assert(out@ =~= mid + enc_u32(p@.outputs.len() as u32) + enc_txout_list(
                p@.outputs.take(i + 1),
            ));
        }
        i = i + 1;
    }
    proof {
        assert(p@.outputs.take(p@.outputs.len() as int) =~= p@.outputs);
    }
    push_u64(out, p.fee);
    proof {
        assert(out@ =~= old(out)@ + enc_proposal(p@));
    }
}

/// Encode a signed transaction to the wire format.
pub fn encode_signed(st: &SignedTransaction) -> (r: Vec<u8>)
    requires
        signed_codec_wf(st@),
    ensures
        r@ == enc_signed(st@),
{
    let mut out: Vec<u8> = Vec::new();
    encode_proposal_into(&mut out, &st.proposal);
    proof {
        assert(out@ =~= enc_proposal(st@.proposal) + enc_wit_list(st@.witnesses.take(0)));
    }
    let mut i: usize = 0;
    while i < st.witnesses.len()
        invariant
            signed_codec_wf(st@),
            i <= st.witnesses.len(),
            st@.witnesses.len() == st.witnesses.len(),
            out@ == enc_proposal(st@.proposal) + enc_wit_list(st@.witnesses.take(i as int)),
        decreases st.witnesses.len() - i,
    {
        proof {
            assert(st@.witnesses[i as int] == (match st.witnesses@[i as int] {
                Some(b) => Some(b@),
                None => None,
            }));
        }
        match &st.witnesses[i] {
            Some(b) => {
                out.push(1u8);
                push_bytes(&mut out, &b.sig);
                push_bytes(&mut out, &b.pubkey);
            },
            None => {
                out.push(0u8);
            },
        }
        proof {
            lemma_enc_wit_list_snoc(st@.witnesses, i as int);
            assert(out@ =~= enc_proposal(st@.proposal) + enc_wit_list(
                st@.witnesses.take(i + 1),
            ));
        }
        i = i + 1;
    }
    proof {
        assert(st@.witnesses.take(st@.witnesses.len() as int) =~= st@.witnesses);
    }
    out
}

// ---------------------------------------------------------------------
// Executable decoding
// ---------------------------------------------------------------------

fn read_u32(s: &Vec<u8>, pos: &mut usize) -> (r: Result<u32, WalletError>)
    requires
        *old(pos) <= s@.len(),
    ensures
        *old(pos) <= *final(pos) <= s@.len(),
        r matches Err(e) ==> e == WalletError::DecodeError,
        match dec_u32(s@.skip(*old(pos) as int)) {
            Some(q) => r matches Ok(v) && v == q.0 && s@.skip(*final(pos) as int) == q.1,
            None => r is Err,
        },
{
    let ghost t = s@.skip(*old(pos) as int);
    if s.len() - *pos >= 4 {
        let p = *pos;
        let b0 = s[p];
        let b1 = s[p + 1];
        let b2 = s[p + 2];
        let b3 = s[p + 3];
        let v = (b0 as u32) | ((b1 as u32) << 8u32) | ((b2 as u32) << 16u32) | ((b3 as u32)
            << 24u32);
        *pos = p + 4;
        proof {
            assert(t[0] == s@[p as int]);
            assert(t[1] == s@[p + 1]);
            assert(t[2] == s@[p + 2]);
            assert(t[3] == s@[p + 3]);
            assert(s@.skip(*pos as int) =~= t.skip(4));
        }
        Ok(v)
    } else {
        Err(WalletError::DecodeError)
    }
}

fn read_u64(s: &Vec<u8>, pos: &mut usize) -> (r: Result<u64, WalletError>)
    requires
        *old(pos) <= s@.len(),
    ensures
        *old(pos) <= *final(pos) <= s@.len(),
        r matches Err(e) ==> e == WalletError::DecodeError,
        match dec_u64(s@.skip(*old(pos) as int)) {
            Some(q) => r matches Ok(v) && v == q.0 && s@.skip(*final(pos) as int) == q.1,
            None => r is Err,
        },
{
    let ghost t = s@.skip(*old(pos) as int);
    if s.len() - *pos >= 8 {
        let p = *pos;
        let b0 = s[p];
        let b1 = s[p + 1];
        let b2 = s[p + 2];
        let b3 = s[p + 3];
        let b4 = s[p + 4];
        let b5 = s[p + 5];
        let b6 = s[p + 6];
        let b7 = s[p + 7];
        let v = (b0 as u64) | ((b1 as u64) << 8u64) | ((b2 as u64) << 16u64) | ((b3 as u64)
            << 24u64) | ((b4 as u64) << 32u64) | ((b5 as u64) << 40u64) | ((b6 as u64) << 48u64) | (
        (b7 as u64) << 56u64);
        *pos = p + 8;
        proof {
            assert(t[0] == s@[p as int]);
            assert(t[1] == s@[p + 1]);
            assert(t[2] == s@[p + 2]);
            assert(t[3] == s@[p + 3]);
            assert(t[4] == s@[p + 4]);
            assert(t[5] == s@[p + 5]);
            assert(t[6] == s@[p + 6]);
            assert(t[7] == s@[p + 7]);
            assert(s@.skip(*pos as int) =~= t.skip(8));
        }
        Ok(v)
    } else {
        Err(WalletError::DecodeError)
    }
}

fn read_fixed32(s: &Vec<u8>, pos: &mut usize) -> (r: Result<Vec<u8>, WalletError>)
    requires
        *old(pos) <= s@.len(),
    ensures
        *old(pos) <= *final(pos) <= s@.len(),
        r matches Err(e) ==> e == WalletError::DecodeError,
        match dec_fixed32(s@.skip(*old(pos) as int)) {
            Some(q) => r matches Ok(v) && v@ == q.0 && s@.skip(*final(pos) as int) == q.1,
            None => r is Err,
        },
{
    let ghost t = s@.skip(*old(pos) as int);
    if s.len() - *pos >= 32 {
        let p = *pos;
        let mut v: Vec<u8> = Vec::new();
        let mut i: usize = 0;
        while i < 32
            invariant
                p + 32 <= s@.len() <= usize::MAX,
                i <= 32,
                v@.len() == i,
                forall|j: int| 0 <= j < i ==> v@[j] == s@[p + j],
            decreases 32 - i,
        {
            v.push(s[p + i]);
            i = i + 1;
        }
        *pos = p + 32;
        proof {
            assert(v@ =~= t.take(32));
            assert(s@.skip(*pos as int) =~= t.skip(32));
        }
        Ok(v)
    } else {
        Err(WalletError::DecodeError)
    }
}

fn read_bytes(s: &Vec<u8>, pos: &mut usize) -> (r: Result<Vec<u8>, WalletError>)
    requires
        *old(pos) <= s@.len(),
    ensures
        *old(pos) <= *final(pos) <= s@.len(),
        r matches Err(e) ==> e == WalletError::DecodeError,
        match dec_bytes(s@.skip(*old(pos) as int)) {
            Some(q) => r matches Ok(v) && v@ == q.0 && s@.skip(*final(pos) as int) == q.1,
            None => r is Err,
        },
{
    let ghost t = s@.skip(*old(pos) as int);
    let n = match read_u32(s, pos) {
        Ok(n) => n,
        Err(e) => {
            return Err(e);
        },
    };
    let nn = n as usize;
    if s.len() - *pos < nn {
        return Err(WalletError::DecodeError);
    }
    let p = *pos;
    let mut v: Vec<u8> = Vec::new();
    let mut i: usize = 0;
    while i < nn
        invariant
            p + nn <= s@.len() <= usize::MAX,
            i <= nn,
            v@.len() == i,
            forall|j: int| 0 <= j < i ==> v@[j] == s@[p + j],
        decreases nn - i,
    {
        v.push(s[p + i]);
        i = i + 1;
    }
    *pos = p + nn;
    proof {
        let q = dec_u32(t).unwrap();
        assert(v@ =~= q.1.take(n as int));
        assert(s@.skip(*pos as int) =~= q.1.skip(n as int));
    }
    Ok(v)
}

fn read_role(s: &Vec<u8>, pos: &mut usize) -> (r: Result<KeychainRole, WalletError>)
    requires
        *old(pos) <= s@.len(),
    ensures
        *old(pos) <= *final(pos) <= s@.len(),
        r matches Err(e) ==> e == WalletError::DecodeError,
        match dec_role(s@.skip(*old(pos) as int)) {
            Some(q) => r matches Ok(v) && v == q.0 && s@.skip(*final(pos) as int) == q.1,
            None => r is Err,
        },
{
    let ghost t = s@.skip(*old(pos) as int);
    if s.len() - *pos >= 1 {
        let p = *pos;
        let b = s[p];
        proof {
            assert(t[0] == s@[p as int]);
        }
        if b == 0 {
            *pos = p + 1;
            proof {
                assert(s@.skip(*pos as int) =~= t.skip(1));
            }
            Ok(KeychainRole::External)
        } else if b == 1 {
            *pos = p + 1;
            proof {
                assert(s@.skip(*pos as int) =~= t.skip(1));
            }
            Ok(KeychainRole::Internal)
        } else {
            Err(WalletError::DecodeError)
        }
    } else {
        Err(WalletError::DecodeError)
    }
}

fn read_utxo(s: &Vec<u8>, pos: &mut usize) -> (r: Result<Utxo, WalletError>)
    requires
        *old(pos) <= s@.len(),
    ensures
        *old(pos) <= *final(pos) <= s@.len(),
        r matches Err(e) ==> e == WalletError::DecodeError,
        match dec_utxo(s@.skip(*old(pos) as int)) {
            Some(q) => r matches Ok(u) && u@ == q.0 && s@.skip(*final(pos) as int) == q.1,
            None => r is Err,
        },
{
    let txid = match read_fixed32(s, pos) {
        Ok(v) => v,
        Err(e) => {
            return Err(e);
        },
    };
    let vout = match read_u32(s, pos) {
        Ok(v) => v,
        Err(e) => {
            return Err(e);
        },
    };
    let value = match read_u64(s, pos) {
        Ok(v) => v,
        Err(e) => {
            return Err(e);
        },
    };
    let script = match read_bytes(s, pos) {
        Ok(v) => v,
        Err(e) => {
            return Err(e);
        },
    };
    let role = match read_role(s, pos) {
        Ok(v) => v,
        Err(e) => {
            return Err(e);
        },
    };
    let index = match read_u32(s, pos) {
        Ok(v) => v,
        Err(e) => {
            return Err(e);
        },
    };
    let u = Utxo { txid, vout, value, script, role, index };
    proof {
        let q = dec_utxo(s@.skip(*old(pos) as int)).unwrap();
        assert(u@ =~= q.0);
    }
    Ok(u)
}

fn read_txout(s: &Vec<u8>, pos: &mut usize) -> (r: Result<TxOut, WalletError>)
    requires
        *old(pos) <= s@.len(),
    ensures
        *old(pos) <= *final(pos) <= s@.len(),
        r matches Err(e) ==> e == WalletError::DecodeError,
        match dec_txout(s@.skip(*old(pos) as int)) {
            Some(q) => r matches Ok(o) && o@ == q.0 && s@.skip(*final(pos) as int) == q.1,
            None => r is Err,
        },
{
    let script = match read_bytes(s, pos) {
        Ok(v) => v,
        Err(e) => {
            return Err(e);
        },
    };
    let value = match read_u64(s, pos) {
        Ok(v) => v,
        Err(e) => {
            return Err(e);
        },
    };
    let o = TxOut { script, value };
    proof {
        let q = dec_txout(s@.skip(*old(pos) as int)).unwrap();
        assert(o@ =~= q.0);
    }
    Ok(o)
}

#[verifier::rlimit(80)]
fn read_utxo_list(s: &Vec<u8>, pos: &mut usize, n: u32) -> (r: Result<Vec<Utxo>, WalletError>)
    requires
        *old(pos) <= s@.len(),
    ensures
        *old(pos) <= *final(pos) <= s@.len(),
        r matches Err(e) ==> e == WalletError::DecodeError,
        match dec_utxo_list(n as nat, s@.skip(*old(pos) as int)) {
            Some(q) => r matches Ok(v) && utxos_view(v@) == q.0 && v@.len() == n
                && s@.skip(*final(pos) as int) == q.1,
            None => r is Err,
        },
{
    let ghost t0 = s@.skip(*old(pos) as int);
    let mut acc: Vec<Utxo> = Vec::new();
    let mut i: u32 = 0;
    proof {
        assert(utxos_view(acc@) =~= Seq::<UtxoV>::empty());
    }
    while i < n
        invariant
            *old(pos) <= *pos <= s@.len(),
            i <= n,
            acc@.len() == i,
            t0 == s@.skip(*old(pos) as int),
            match dec_utxo_list((n - i) as nat, s@.skip(*pos as int)) {
                Some(q) => dec_utxo_list(n as nat, t0) == Some::<(Seq<UtxoV>, Seq<u8>)>(
                    (utxos_view(acc@) + q.0, q.1),
                ),
                None => dec_utxo_list(n as nat, t0) is None,
            },
        decreases n - i,
    {
        let ghost pos_before = *pos;
        let u = match read_utxo(s, pos) {
            Ok(u) => u,
            Err(e) => {
                proof {
                    assert(dec_utxo_list((n - i) as nat, s@.skip(pos_before as int)) is None);
                }
                return Err(e);
            },
        };
        proof {
            let rem = s@.skip(pos_before as int);
            let q1 = dec_utxo(rem).unwrap();
            assert(q1.0 == u@);
            assert(q1.1 == s@.skip(*pos as int));
            match dec_utxo_list((n - i - 1) as nat, s@.skip(*pos as int)) {
                Some(q2) => {
                    assert(dec_utxo_list((n - i) as nat, rem) == Some::<(Seq<UtxoV>, Seq<u8>)>(
                        (seq![u@] + q2.0, q2.1),
                    ));
                    assert(utxos_view(acc@) + (seq![u@] + q2.0) =~= utxos_view(acc@.push(u)) + q2.0);
                },
                None => {
                    assert(dec_utxo_list((n - i) as nat, rem) is None);
                },
            }
        }
        acc.push(u);
        i = i + 1;
    }
    proof {
        assert(dec_utxo_list(0, s@.skip(*pos as int)) == Some::<(Seq<UtxoV>, Seq<u8>)>(
            (Seq::<UtxoV>::empty(), s@.skip(*pos as int)),
        ));
        assert(utxos_view(acc@) + Seq::<UtxoV>::empty() =~= utxos_view(acc@));
    }
    Ok(acc)
}

#[verifier::rlimit(80)]
fn read_txout_list(s: &Vec<u8>, pos: &mut usize, n: u32) -> (r: Result<Vec<TxOut>, WalletError>)
    requires
        *old(pos) <= s@.len(),
    ensures
        *old(pos) <= *final(pos) <= s@.len(),
        r matches Err(e) ==> e == WalletError::DecodeError,
        match dec_txout_list(n as nat, s@.skip(*old(pos) as int)) {
            Some(q) => r matches Ok(v) && outputs_view(v@) == q.0 && v@.len() == n
                && s@.skip(*final(pos) as int) == q.1,
            None => r is Err,
        },
{
    let ghost t0 = s@.skip(*old(pos) as int);
    let mut acc: Vec<TxOut> = Vec::new();
    let mut i: u32 = 0;
    proof {
        assert(outputs_view(acc@) =~= Seq::<TxOutV>::empty());
    }
    while i < n
        invariant
            *old(pos) <= *pos <= s@.len(),
            i <= n,
            acc@.len() == i,
            t0 == s@.skip(*old(pos) as int),
            match dec_txout_list((n - i) as nat, s@.skip(*pos as int)) {
                Some(q) => dec_txout_list(n as nat, t0) == Some::<(Seq<TxOutV>, Seq<u8>)>(
                    (outputs_view(acc@) + q.0, q.1),
                ),
                None => dec_txout_list(n as nat, t0) is None,
            },
        decreases n - i,
    {
        let ghost pos_before = *pos;
        let o = match read_txout(s, pos) {
            Ok(o) => o,
            Err(e) => {
                proof {
                    assert(dec_txout_list((n - i) as nat, s@.skip(pos_before as int)) is None);
                }
                return Err(e);
            },
        };
        proof {
            let rem = s@.skip(pos_before as int);
            let q1 = dec_txout(rem).unwrap();
            assert(q1.0 == o@);
            assert(q1.1 == s@.skip(*pos as int));
            match dec_txout_list((n - i - 1) as nat, s@.skip(*pos as int)) {
                Some(q2) => {
                    assert(dec_txout_list((n - i) as nat, rem) == Some::<(Seq<TxOutV>, Seq<u8>)>(
                        (seq![o@] + q2.0, q2.1),
                    ));
                    assert(outputs_view(acc@) + (seq![o@] + q2.0) =~= outputs_view(acc@.push(o))
                        + q2.0);
                },
                None => {
                    assert(dec_txout_list((n - i) as nat, rem) is None);
                },
            }
        }
        acc.push(o);
        i = i + 1;
    }
    proof {
        assert(dec_txout_list(0, s@.skip(*pos as int)) == Some::<(Seq<TxOutV>, Seq<u8>)>(
            (Seq::<TxOutV>::empty(), s@.skip(*pos as int)),
        ));
        assert(outputs_view(acc@) + Seq::<TxOutV>::empty() =~= outputs_view(acc@));
    }
    Ok(acc)
}

fn read_wit(s: &Vec<u8>, pos: &mut usize) -> (r: Result<Option<InputWitness>, WalletError>)
    requires
        *old(pos) <= s@.len(),
    ensures
        *old(pos) <= *final(pos) <= s@.len(),
        r matches Err(e) ==> e == WalletError::DecodeError,
        match dec_wit(s@.skip(*old(pos) as int)) {
            Some(q) => r matches Ok(w) && (match w {
                Some(b) => Some(b@),
                None => None,
            }) == q.0 && s@.skip(*final(pos) as int) == q.1,
            None => r is Err,
        },
{
    let ghost t = s@.skip(*old(pos) as int);
    if s.len() - *pos >= 1 {
        let p = *pos;
        let b = s[p];
        proof {
            assert(t[0] == s@[p as int]);
        }
        if b == 0 {
            *pos = p + 1;
            proof {
                assert(s@.skip(*pos as int) =~= t.skip(1));
            }
            Ok(None)
        } else if b == 1 {
            *pos = p + 1;
            proof {
                assert(s@.skip(*pos as int) =~= t.skip(1));
            }
            let sig = match read_bytes(s, pos) {
                Ok(v) => v,
                Err(e) => {
                    return Err(e);
                },
            };
            let pubkey = match read_bytes(s, pos) {
                Ok(v) => v,
                Err(e) => {
                    return Err(e);
                },
            };
            Ok(Some(InputWitness { sig, pubkey }))
        } else {
            Err(WalletError::DecodeError)
        }
    } else {
        Err(WalletError::DecodeError)
    }
}

#[verifier::rlimit(80)]
fn read_wit_list(s: &Vec<u8>, pos: &mut usize, n: u32) -> (r: Result<
    Vec<Option<InputWitness>>,
    WalletError,
>)
    requires
        *old(pos) <= s@.len(),
    ensures
        *old(pos) <= *final(pos) <= s@.len(),
        r matches Err(e) ==> e == WalletError::DecodeError,
        match dec_wit_list(n as nat, s@.skip(*old(pos) as int)) {
            Some(q) => r matches Ok(v) && wits_view(v@) == q.0 && v@.len() == n
                && s@.skip(*final(pos) as int) == q.1,
            None => r is Err,
        },
{
    let ghost t0 = s@.skip(*old(pos) as int);
    let mut acc: Vec<Option<InputWitness>> = Vec::new();
    let mut i: u32 = 0;
    proof {
        assert(wits_view(acc@) =~= Seq::<Option<WitnessV>>::empty());
    }
    while i < n
        invariant
            *old(pos) <= *pos <= s@.len(),
            i <= n,
            acc@.len() == i,
            t0 == s@.skip(*old(pos) as int),
            match dec_wit_list((n - i) as nat, s@.skip(*pos as int)) {
                Some(q) => dec_wit_list(n as nat, t0) == Some::<(Seq<Option<WitnessV>>, Seq<u8>)>(
                    (wits_view(acc@) + q.0, q.1),
                ),
                None => dec_wit_list(n as nat, t0) is None,
            },
        decreases n - i,
    {
        let ghost pos_before = *pos;
        let w = match read_wit(s, pos) {
            Ok(w) => w,
            Err(e) => {
                proof {
                    assert(dec_wit_list((n - i) as nat, s@.skip(pos_before as int)) is None);
                }
                return Err(e);
            },
        };
        proof {
            let rem = s@.skip(pos_before as int);
            let q1 = dec_wit(rem).unwrap();
            let wv = (match &w {
                Some(b) => Some(b@),
                None => None,
            });
            assert(q1.0 == wv);
            assert(q1.1 == s@.skip(*pos as int));
            match dec_wit_list((n - i - 1) as nat, s@.skip(*pos as int)) {
                Some(q2) => {
                    assert(dec_wit_list((n - i) as nat, rem) == Some::<
                        (Seq<Option<WitnessV>>, Seq<u8>),
                    >((seq![wv] + q2.0, q2.1)));
                    assert(wits_view(acc@) + (seq![wv] + q2.0) =~= wits_view(acc@.push(w)) + q2.0);
                },
                None => {
                    assert(dec_wit_list((n - i) as nat, rem) is None);
                },
            }
        }
        acc.push(w);
        i = i + 1;
    }
    proof {
        assert(dec_wit_list(0, s@.skip(*pos as int)) == Some::<(Seq<Option<WitnessV>>, Seq<u8>)>(
            (Seq::<Option<WitnessV>>::empty(), s@.skip(*pos as int)),
        ));
        assert(wits_view(acc@) + Seq::<Option<WitnessV>>::empty() =~= wits_view(acc@));
    }
    Ok(acc)
}

// ---------------------------------------------------------------------
// Validation and the public decode
// ---------------------------------------------------------------------

/// Check a proposal's well-formedness at run time: exactly the conditions
/// of `proposal_wf`.
pub fn proposal_valid(p: &TransactionProposal) -> (b: bool)
    ensures
        b == proposal_wf(p@),
{
    if p.inputs.len() > 0xFFFF_FFFFusize {
        return false;
    }
    if p.outputs.len() > 0xFFFF_FFFFusize {
        return false;
    }
    let ghost ins = p@.inputs;
    let mut sum_in: u64 = 0;
    let mut i: usize = 0;
    while i < p.inputs.len()
        invariant
            ins == p@.inputs,
            ins.len() == p.inputs.len(),
            i <= p.inputs.len(),
            sum_in as int == sum_utxos(ins.take(i as int)),
            forall|j: int| 0 <= j < i ==> utxo_wf(#[trigger] ins[j]),
        decreases p.inputs.len() - i,
    {
        proof {
            assert(ins[i as int] == p.inputs@[i as int]@);
        }
        if p.inputs[i].txid.len() != 32 {
            return false;
        }
        if p.inputs[i].script.len() > 0xFFFF_FFFFusize {
            return false;
        }
        proof {
            lemma_sum_utxos_take_succ(ins, i as int);
        }
        if p.inputs[i].value > u64::MAX - sum_in {
            proof {
                lemma_sum_utxos_take_le(ins, i + 1);
            }
            return false;
        }
        sum_in = sum_in + p.inputs[i].value;
        i = i + 1;
    }
    proof {
        assert(ins.take(ins.len() as int) =~= ins);
    }
    let ghost outs = p@.outputs;
    let mut sum_out: u64 = 0;
    let mut i: usize = 0;
    while i < p.outputs.len()
        invariant
            ins == p@.inputs,
            outs == p@.outputs,
            outs.len() == p.outputs.len(),
            i <= p.outputs.len(),
            sum_in as int == sum_utxos(ins),
            sum_out as int == sum_outputs(outs.take(i as int)),
            sum_out <= sum_in,
            forall|j: int| 0 <= j < i ==> txout_wf(#[trigger] outs[j]),
        decreases p.outputs.len() - i,
    {
        proof {
            assert(outs[i as int] == p.outputs@[i as int]@);
        }
        if p.outputs[i].script.len() > 0xFFFF_FFFFusize {
            return false;
        }
        if p.outputs[i].value < DUST_LIMIT {
            return false;
        }
        proof {
            lemma_sum_outputs_take_succ(outs, i as int);
        }
        if p.outputs[i].value > sum_in - sum_out {
            // The outputs already exceed the inputs; the balance equation
            // cannot hold.
            proof {
                lemma_sum_outputs_take_le(outs, i + 1);
            }
            return false;
        }
        sum_out = sum_out + p.outputs[i].value;
        i = i + 1;
    }
    proof {
        assert(outs.take(outs.len() as int) =~= outs);
    }
    if p.fee != sum_in - sum_out {
        return false;
    }
    true
}

/// Check a signed transaction's well-formedness at run time: exactly the
/// conditions of `signed_wf`.
pub fn signed_tx_valid(st: &SignedTransaction) -> (b: bool)
    ensures
        b == signed_wf(st@),
{
    if !proposal_valid(&st.proposal) {
        return false;
    }
    if st.witnesses.len() != st.proposal.inputs.len() {
        return false;
    }
    let mut i: usize = 0;
    while i < st.witnesses.len()
        invariant
            st@.witnesses.len() == st.witnesses.len(),
            i <= st.witnesses.len(),
            forall|j: int|
                0 <= j < i ==> (#[trigger] st@.witnesses[j] matches Some(b) ==> b.sig.len()
                    <= 0xFFFF_FFFFu32 && b.pubkey.len() <= 0xFFFF_FFFFu32),
        decreases st.witnesses.len() - i,
    {
        proof {
            assert(st@.witnesses[i as int] == (match st.witnesses@[i as int] {
                Some(b) => Some(b@),
                None => None,
            }));
        }
        let bad = match &st.witnesses[i] {
            Some(b) => b.sig.len() > 0xFFFF_FFFFusize || b.pubkey.len() > 0xFFFF_FFFFusize,
            None => false,
        };
        if bad {
            return false;
        }
        i = i + 1;
    }
    true
}

/// Decode a persisted payload back into a signed transaction, checking
/// both the wire structure and the transaction's well-formedness.
#[verifier::rlimit(80)]
pub fn decode_signed_tx(bytes: &Vec<u8>) -> (r: Result<SignedTransaction, WalletError>)
    ensures
        match restore_spec(bytes@) {
            Some(v) => r matches Ok(st) && st@ == v && signed_wf(st@),
            None => r matches Err(e) && e == WalletError::DecodeError,
        },
{
    let mut pos: usize = 0;
    proof {
        assert(bytes@.skip(0) =~= bytes@);
    }
    let n_in = match read_u32(bytes, &mut pos) {
        Ok(v) => v,
        Err(e) => {
            return Err(e);
        },
    };
    let inputs = match read_utxo_list(bytes, &mut pos, n_in) {
        Ok(v) => v,
        Err(e) => {
            return Err(e);
        },
    };
    let n_out = match read_u32(bytes, &mut pos) {
        Ok(v) => v,
        Err(e) => {
            return Err(e);
        },
    };
    let outputs = match read_txout_list(bytes, &mut pos, n_out) {
        Ok(v) => v,
        Err(e) => {
            return Err(e);
        },
    };
    let fee = match read_u64(bytes, &mut pos) {
        Ok(v) => v,
        Err(e) => {
            return Err(e);
        },
    };
    let proposal = TransactionProposal { inputs, outputs, fee };
    let ghost decoded = dec_proposal(bytes@).unwrap();
    proof {
        assert(proposal@ =~= decoded.0);
    }
    let nw = proposal.inputs.len() as u32;
    let witnesses = match read_wit_list(bytes, &mut pos, nw) {
        Ok(v) => v,
        Err(e) => {
            return Err(e);
        },
    };
    if pos != bytes.len() {
        proof {
            assert(bytes@.skip(pos as int).len() > 0);
        }
        return Err(WalletError::DecodeError);
    }
    let st = SignedTransaction { proposal, witnesses };
    proof {
        let full = dec_signed(bytes@).unwrap();
        assert(st@ =~= full.0);
        assert(bytes@.skip(pos as int).len() == 0);
    }
    if !signed_tx_valid(&st) {
        return Err(WalletError::DecodeError);
    }
    Ok(st)
}

// ---------------------------------------------------------------------
// Text-safe wrapping and persistence
// ---------------------------------------------------------------------

/// The standard base64 rendering of a byte string.
pub uninterp spec fn b64_of(b: Seq<u8>) -> Seq<char>;

/// What the standard base64 decoder yields for a string: the decoded
/// bytes, or nothing if the string is not valid base64.
pub uninterp spec fn b64_decoded(s: Seq<char>) -> Option<Seq<u8>>;

/// Relies on base64's standard engine `encode`: the rendering is a
/// function of the bytes alone, and the engine's `decode` restores
/// exactly the bytes encoded.
#[verifier::external_body]
fn b64_encode(b: &Vec<u8>) -> (r: String)
    ensures
        r@ == b64_of(b@),
        b64_decoded(r@) == Some(b@),
{
    base64::Engine::encode(&base64::engine::general_purpose::STANDARD, b)
}

/// Relies on base64's standard engine `decode`: which strings decode, and
/// to what bytes, is a function of the string alone.
#[verifier::external_body]
fn b64_decode(s: &str) -> (r: Result<Vec<u8>, WalletError>)
    ensures
        r matches Ok(b) ==> b64_decoded(s@) == Some(b@),
        r is Err ==> b64_decoded(s@) is None,
        r matches Err(e) ==> e == WalletError::DecodeError,
{
    base64::Engine::decode(&base64::engine::general_purpose::STANDARD, s)
        .map_err(|_| WalletError::DecodeError)
}

/// Render a signed transaction as the text-safe string persisted in the
/// secrets file: the base64 rendering of its wire encoding.
pub fn to_persist_string(st: &SignedTransaction) -> (r: String)
    requires
        signed_wf(st@),
    ensures
        r@ == b64_of(enc_signed(st@)),
        b64_decoded(r@) == Some(enc_signed(st@)),
{
    proof {
        lemma_signed_wf_implies_codec(st@);
    }
    let bytes = encode_signed(st);
    b64_encode(&bytes)
}

/// Restore a signed transaction from its persisted string. Succeeds
/// exactly on strings that decode as base64 to the wire encoding of a
/// well-formed signed transaction, and yields that transaction.
pub fn from_persist_string(s: &str) -> (r: Result<SignedTransaction, WalletError>)
    ensures
        match b64_decoded(s@) {
            Some(b) => match restore_spec(b) {
                Some(v) => r matches Ok(st) && st@ == v && signed_wf(st@),
                None => r matches Err(e) && e == WalletError::DecodeError,
            },
            None => r matches Err(e) && e == WalletError::DecodeError,
        },
{
    let bytes = match b64_decode(s) {
        Ok(b) => b,
        Err(e) => {
            return Err(e);
        },
    };
    decode_signed_tx(&bytes)
}

/// Law: the wire format round-trips. Encoding any well-formed signed
/// transaction and restoring the bytes yields the transaction back,
/// unchanged.
pub proof fn lemma_wire_round_trip(st: SignedTxV)
    requires
        signed_wf(st),
    ensures
        restore_spec(enc_signed(st)) == Some(st),
{
    assert(signed_codec_wf(st)) by {
        assert(forall|i: int|
            0 <= i < st.proposal.outputs.len() ==> (#[trigger] st.proposal.outputs[i]).script.len()
                <= 0xFFFF_FFFFu32) by {
            assert(forall|i: int|
                0 <= i < st.proposal.outputs.len() ==> txout_wf(#[trigger] st.proposal.outputs[i]));
        }
    }
    lemma_dec_enc_signed(st, Seq::<u8>::empty());
    assert(enc_signed(st) + Seq::<u8>::empty() =~= enc_signed(st));
}

} // verus!
