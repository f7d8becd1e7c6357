//! Transaction building: select inputs from the wallet's UTXO set to cover
//! an amount plus fee, pay the destination, and return any surplus to a
//! freshly issued internal (change) address.
//!
//! Coin selection is deterministic: UTXOs are accumulated in the order the
//! wallet tracks them until the target is covered. A surplus below the
//! dust threshold is folded into the fee instead of producing an
//! uneconomic output.

use vstd::prelude::*;

use crate::keys::address_network_of;
use crate::keys::address_parses;
use crate::keys::address_script_of;
use crate::keys::bip32_derive_index;
use crate::keys::child_key_at;
use crate::keys::p2wpkh_script;
use crate::keys::p2wpkh_script_of;
use crate::keys::parse_address;
use crate::keys::xprv_ok;
use crate::wallet::clone_utxo;
use crate::wallet::sum_utxos;
use crate::wallet::lemma_sum_utxos_take_le;
use crate::wallet::lemma_sum_utxos_take_succ;
use crate::wallet::utxo_wf;
use crate::wallet::utxos_view;
use crate::wallet::Utxo;
use crate::wallet::UtxoV;
use crate::wallet::WalletState;
use crate::wallet::WalletStateV;
use crate::KeychainRole;
use crate::Network;
use crate::WalletError;

verus! {

/// The smallest output value the wallet will produce; anything smaller is
/// folded into the fee.
pub const DUST_LIMIT: u64 = 546;

/// One output of a proposed transaction: a destination script and a value
/// in satoshis.
#[derive(Debug)]
pub struct TxOut {
    pub script: Vec<u8>,
    pub value: u64,
}

/// The mathematical value of a `TxOut`.
#[verifier::ext_equal]
pub struct TxOutV {
    pub script: Seq<u8>,
    pub value: u64,
}

impl View for TxOut {
    type V = TxOutV;

    open spec fn view(&self) -> TxOutV {
        TxOutV { script: self.script@, value: self.value }
    }
}

pub open spec fn outputs_view(s: Seq<TxOut>) -> Seq<TxOutV> {
    s.map_values(|o: TxOut| o@)
}

/// The total value of a sequence of outputs, in satoshis.
pub open spec fn sum_outputs(s: Seq<TxOutV>) -> int
    decreases s.len(),
{
    if s.len() == 0 {
        0
    } else {
        sum_outputs(s.drop_last()) + s.last().value
    }
}

pub proof fn lemma_sum_outputs_singleton(o: TxOutV)
    ensures
        sum_outputs(seq![o]) == o.value,
{
    assert(seq![o].len() == 1);
    assert(seq![o].drop_last() =~= Seq::<TxOutV>::empty());
    assert(sum_outputs(Seq::<TxOutV>::empty()) == 0);
    assert(seq![o].last() == o);
}

pub proof fn lemma_sum_outputs_pair(a: TxOutV, b: TxOutV)
    ensures
        sum_outputs(seq![a, b]) == a.value + b.value,
{
    assert(seq![a, b].drop_last() =~= seq![a]);
    lemma_sum_outputs_singleton(a);
}

pub proof fn lemma_sum_outputs_take_succ(s: Seq<TxOutV>, i: int)
    requires
        0 <= i < s.len(),
    ensures
        sum_outputs(s.take(i + 1)) == sum_outputs(s.take(i)) + s[i].value,
{
    assert(s.take(i + 1).drop_last() =~= s.take(i));
    assert(s.take(i + 1).last() == s[i]);
}

pub proof fn lemma_sum_outputs_take_le(s: Seq<TxOutV>, i: int)
    requires
        0 <= i <= s.len(),
    ensures
        sum_outputs(s.take(i)) <= sum_outputs(s),
    decreases s.len() - i,
{
    if i == s.len() {
        assert(s.take(i) =~= s);
    } else {
        lemma_sum_outputs_take_succ(s, i);
        lemma_sum_outputs_take_le(s, i + 1);
    }
}

/// A well-formed output: a script whose length fits the wire format's
/// prefix and a value at or above the dust threshold.
pub open spec fn txout_wf(o: TxOutV) -> bool {
    o.script.len() <= 0xFFFF_FFFFu32 && o.value >= DUST_LIMIT
}

/// An unsigned transaction proposal: the selected inputs, the outputs
/// (destination first, then any change), and the fee.
#[derive(Debug)]
pub struct TransactionProposal {
    pub inputs: Vec<Utxo>,
    pub outputs: Vec<TxOut>,
    pub fee: u64,
}

/// The mathematical value of a `TransactionProposal`.
#[verifier::ext_equal]
pub struct ProposalV {
    pub inputs: Seq<UtxoV>,
    pub outputs: Seq<TxOutV>,
    pub fee: u64,
}

impl View for TransactionProposal {
    type V = ProposalV;

    open spec fn view(&self) -> ProposalV {
        ProposalV {
            inputs: utxos_view(self.inputs@),
            outputs: outputs_view(self.outputs@),
            fee: self.fee,
        }
    }
}

/// A well-formed proposal: well-formed inputs and outputs whose counts fit
/// the wire format, and an exact balance equation — the inputs' value is
/// the outputs' value plus the fee, to the satoshi.
pub open spec fn proposal_wf(p: ProposalV) -> bool {
    &&& forall|i: int| 0 <= i < p.inputs.len() ==> utxo_wf(#[trigger] p.inputs[i])
    &&& forall|i: int| 0 <= i < p.outputs.len() ==> txout_wf(#[trigger] p.outputs[i])
    &&& p.inputs.len() <= 0xFFFF_FFFFu32
    &&& p.outputs.len() <= 0xFFFF_FFFFu32
    &&& sum_utxos(p.inputs) <= u64::MAX
    &&& sum_outputs(p.outputs) + p.fee == sum_utxos(p.inputs)
}

/// The value returned to the wallet as change: the second output's value
/// if a change output is present, zero otherwise.
pub open spec fn change_value(p: ProposalV) -> int {
    if p.outputs.len() == 2 {
        p.outputs[1].value as int
    } else {
        0
    }
}

/// Copy an output; the copy has the same mathematical value.
pub fn clone_txout(o: &TxOut) -> (r: TxOut)
    ensures
        r@ == o@,
{
    let r = TxOut { script: crate::wallet::clone_bytes(&o.script), value: o.value };
    proof {
        assert(r@ =~= o@);
    }
    r
}

/// Copy a proposal; the copy has the same mathematical value.
pub fn clone_proposal(p: &TransactionProposal) -> (r: TransactionProposal)
    ensures
        r@ == p@,
{
    let mut inputs: Vec<Utxo> = Vec::new();
    let mut i: usize = 0;
    while i < p.inputs.len()
        invariant
            i <= p.inputs.len(),
            inputs@.len() == i,
            forall|j: int| 0 <= j < i ==> inputs@[j]@ == #[trigger] p.inputs@[j]@,
        decreases p.inputs.len() - i,
    {
        inputs.push(clone_utxo(&p.inputs[i]));
        i = i + 1;
    }
    let mut outputs: Vec<TxOut> = Vec::new();
    let mut i: usize = 0;
    while i < p.outputs.len()
        invariant
            i <= p.outputs.len(),
            outputs@.len() == i,
            forall|j: int| 0 <= j < i ==> outputs@[j]@ == #[trigger] p.outputs@[j]@,
        decreases p.outputs.len() - i,
    {
        outputs.push(clone_txout(&p.outputs[i]));
        i = i + 1;
    }
    let r = TransactionProposal { inputs, outputs, fee: p.fee };
    proof {
        assert(utxos_view(r.inputs@) =~= utxos_view(p.inputs@));
        assert(outputs_view(r.outputs@) =~= outputs_view(p.outputs@));
        assert(r@ =~= p@);
    }
    r
}

/// Whether a destination string is a valid address for the wallet's
/// network.
pub open spec fn address_valid_for(addr: Seq<char>, net: Network) -> bool {
    address_parses(addr) && address_network_of(addr) == net
}

/// What a successful `build_transaction` call produces. The inputs are the
/// shortest prefix of the wallet's UTXO list covering `amount + fee`; the
/// first output pays the destination exactly `amount`; a surplus at or
/// above the dust threshold becomes a change output at the wallet's next
/// internal address (consuming that index), while a smaller surplus is
/// folded into the fee and the wallet is left untouched.
pub open spec fn build_ok_post(
    w0: WalletStateV,
    w1: WalletStateV,
    p: ProposalV,
    dest: Seq<char>,
    amount: u64,
    fee: u64,
) -> bool {
    let target = amount + fee;
    let change = sum_utxos(p.inputs) - target;
    &&& w0.initialized()
    &&& 1 <= p.inputs.len() <= w0.utxos.len()
    &&& p.inputs == w0.utxos.take(p.inputs.len() as int)
    &&& sum_utxos(p.inputs) >= target
    &&& sum_utxos(p.inputs.drop_last()) < target
    &&& p.outputs[0] == (TxOutV { script: address_script_of(dest), value: amount })
    &&& if change >= DUST_LIMIT {
        &&& p.outputs.len() == 2
        &&& p.outputs[1] == (TxOutV {
            script: p2wpkh_script_of(
                child_key_at(w0.role_key(KeychainRole::Internal), w0.next_internal),
            ),
            value: change as u64,
        })
        &&& p.fee == fee
        &&& w0.next_internal < 0x8000_0000u32
        &&& w1 == w0.with_next(KeychainRole::Internal, (w0.next_internal + 1) as u32)
    } else {
        &&& p.outputs.len() == 1
        &&& p.fee == fee + change
        &&& w1 == w0
    }
}

/// Build an unsigned transaction paying `amount_sats` to `dest` with the
/// given fee. Inputs are selected deterministically from the wallet's
/// UTXO set; a change output consumes one internal address index. On any
/// failure the wallet is unchanged.
pub fn build_transaction(
    wallet: &mut WalletState,
    dest: &str,
    amount_sats: u64,
    fee_sats: u64,
) -> (r: Result<TransactionProposal, WalletError>)
    requires
        old(wallet)@.wf(),
        amount_sats >= DUST_LIMIT,
    ensures
        final(wallet)@.wf(),
        r is Err ==> final(wallet)@ == old(wallet)@,
        (r matches Err(e) && e == WalletError::NotInitialized) <==> !old(wallet)@.initialized(),
        (r matches Err(e) && e == WalletError::InvalidAddress) <==> (old(wallet)@.initialized()
            && !address_valid_for(dest@, old(wallet)@.net())),
        (r matches Err(e) && e == WalletError::InsufficientFunds) <==> (old(wallet)@.initialized()
            && address_valid_for(dest@, old(wallet)@.net())
            && sum_utxos(old(wallet)@.utxos) < amount_sats + fee_sats),
        old(wallet)@.initialized() && address_valid_for(dest@, old(wallet)@.net()) && sum_utxos(
            old(wallet)@.utxos,
        ) >= amount_sats + fee_sats && xprv_ok(old(wallet)@.role_key(KeychainRole::Internal)) && old(
            wallet,
        )@.next_internal < 0x8000_0000u32 ==> r is Ok,
        r matches Ok(p) ==> proposal_wf(p@)
            && build_ok_post(old(wallet)@, final(wallet)@, p@, dest@, amount_sats, fee_sats),
{
    if wallet.keys.is_none() {
        return Err(WalletError::NotInitialized);
    }
    let dest_script = match parse_address(dest) {
        Ok(p) => {
            let net = match &wallet.keys {
                Some(k) => k.net,
                None => Network::Testnet,
            };
            if p.1 != net {
                return Err(WalletError::InvalidAddress);
            }
            p.0
        },
        Err(e) => {
            return Err(e);
        },
    };
    if fee_sats > u64::MAX - amount_sats {
        proof {
            assert(sum_utxos(old(wallet)@.utxos) <= u64::MAX < amount_sats + fee_sats);
        }
        return Err(WalletError::InsufficientFunds);
    }
    let target: u64 = amount_sats + fee_sats;

    let ghost w0 = wallet@;
    let mut acc: u64 = 0;
    let mut k: usize = 0;
    while k < wallet.utxos.len() && acc < target
        invariant
            wallet@ == w0,
            w0.wf(),
            k <= wallet.utxos.len(),
            w0.utxos.len() == wallet.utxos.len(),
            acc as int == sum_utxos(w0.utxos.take(k as int)),
            k > 0 ==> sum_utxos(w0.utxos.take(k - 1)) < target,
        decreases wallet.utxos.len() - k,
    {
        proof {
            lemma_sum_utxos_take_succ(w0.utxos, k as int);
            lemma_sum_utxos_take_le(w0.utxos, k + 1);
            assert(w0.utxos[k as int] == wallet.utxos@[k as int]@);
        }
        acc = acc + wallet.utxos[k].value;
        k = k + 1;
    }
    if acc < target {
        proof {
            assert(w0.utxos.take(k as int) =~= w0.utxos);
        }
        return Err(WalletError::InsufficientFunds);
    }
    proof {
        lemma_sum_utxos_take_le(w0.utxos, k as int);
        assert(k > 0) by {
            if k == 0 {
                assert(w0.utxos.take(0) =~= Seq::<UtxoV>::empty());
            }
        }
    }

    let mut inputs: Vec<Utxo> = Vec::new();
    let mut j: usize = 0;
    while j < k
        invariant
            wallet@ == w0,
            j <= k <= wallet.utxos.len(),
            w0.utxos.len() == wallet.utxos.len(),
            inputs@.len() == j,
            forall|t: int| 0 <= t < j ==> inputs@[t]@ == #[trigger] wallet.utxos@[t]@,
        decreases k - j,
    {
        inputs.push(clone_utxo(&wallet.utxos[j]));
        j = j + 1;
    }
    proof {
        assert(utxos_view(inputs@) =~= w0.utxos.take(k as int));
    }

    let change: u64 = acc - target;
    let mut outputs: Vec<TxOut> = Vec::new();
    let ghost dest_out = TxOutV { script: address_script_of(dest@), value: amount_sats };
    outputs.push(TxOut { script: dest_script, value: amount_sats });

    if change >= DUST_LIMIT {
        let idx = wallet.next_internal;
        if idx >= 0x8000_0000u32 {
            // The internal index space is exhausted; no change address can
            // be issued.
            return Err(WalletError::DecodeError);
        }
        let internal_key = match &wallet.keys {
            Some(ks) => {
                proof {
                    assert(ks.internal@ == old(wallet)@.role_key(KeychainRole::Internal));
                }
                ks.internal.as_str()
            },
            None => {
                proof {
                    assert(false);
                }
                return Err(WalletError::DecodeError);
            },
        };
        let child = match bip32_derive_index(internal_key, idx) {
            Ok(c) => c,
            Err(e) => {
                return Err(e);
            },
        };
        let change_script = match p2wpkh_script(child.as_str()) {
            Ok(s) => s,
            Err(e) => {
                return Err(e);
            },
        };
        let ghost change_out = TxOutV { script: change_script@, value: change };
        outputs.push(TxOut { script: change_script, value: change });
        wallet.next_internal = idx + 1;
        let p = TransactionProposal { inputs, outputs, fee: fee_sats };
        proof {
            assert(wallet@ =~= w0.with_next(KeychainRole::Internal, (idx + 1) as u32));
            assert(outputs_view(p.outputs@) =~= seq![dest_out, change_out]);
            lemma_sum_outputs_pair(dest_out, change_out);
            assert(p@.inputs == w0.utxos.take(k as int));
            assert(p@.inputs.drop_last() =~= w0.utxos.take(k as int - 1));
            assert(sum_utxos(p@.inputs) == acc as int);
            assert forall|i: int| 0 <= i < p@.inputs.len() implies utxo_wf(#[trigger] p@.inputs[i]) by {
                assert(p@.inputs[i] == w0.utxos[i]);
            }
            assert(p@.outputs[0] == dest_out);
            assert(p@.outputs[1] == change_out);
            assert(txout_wf(dest_out));
            assert(txout_wf(change_out));
            assert(sum_outputs(p@.outputs) + p@.fee == sum_utxos(p@.inputs));
            assert(proposal_wf(p@));
            assert(build_ok_post(w0, wallet@, p@, dest@, amount_sats, fee_sats));
        }
        Ok(p)
    } else {
        let fee_final: u64 = acc - amount_sats;
        let p = TransactionProposal { inputs, outputs, fee: fee_final };
        proof {
            assert(outputs_view(p.outputs@) =~= seq![dest_out]);
            lemma_sum_outputs_singleton(dest_out);
            assert(p@.inputs == w0.utxos.take(k as int));
            assert(p@.inputs.drop_last() =~= w0.utxos.take(k as int - 1));
            assert(sum_utxos(p@.inputs) == acc as int);
            assert forall|i: int| 0 <= i < p@.inputs.len() implies utxo_wf(#[trigger] p@.inputs[i]) by {
                assert(p@.inputs[i] == w0.utxos[i]);
            }
            assert(p@.outputs[0] == dest_out);
            assert(txout_wf(dest_out));
            assert(sum_outputs(p@.outputs) + p@.fee == sum_utxos(p@.inputs));
            assert(proposal_wf(p@));
            assert(build_ok_post(w0, wallet@, p@, dest@, amount_sats, fee_sats));
        }
        Ok(p)
    }
}

/// Law: a built transaction neither creates nor destroys value. For every
/// proposal `build_transaction` can return, the selected inputs' total
/// value equals the amount paid plus the proposal's fee plus the change
/// returned to the wallet, exactly.
pub proof fn lemma_value_conservation(
    w0: WalletStateV,
    w1: WalletStateV,
    p: ProposalV,
    dest: Seq<char>,
    amount: u64,
    fee: u64,
)
    requires
        build_ok_post(w0, w1, p, dest, amount, fee),
    ensures
        sum_utxos(p.inputs) == amount + p.fee + change_value(p),
{
}

} // verus!
