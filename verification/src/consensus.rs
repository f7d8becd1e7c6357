//! The consensus representation of the wallet's transactions: BIP-143
//! signature digests and the segwit wire serialization a chain backend
//! accepts. Byte assembly is the library's own verified logic; only the
//! double-SHA256 digest itself is an outside call.
//!
//! Every transaction this wallet builds is version 2, spends
//! pay-to-witness-public-key-hash inputs with final sequence numbers, and
//! has lock time zero; the serialization and the signature digests below
//! are exact for that shape.

use vstd::prelude::*;

use crate::builder::ProposalV;
use crate::builder::TransactionProposal;
use crate::builder::TxOutV;
use crate::codec::enc_u32;
use crate::codec::enc_u64;
use crate::codec::push_slice;
use crate::codec::push_u32;
use crate::codec::push_u64;
use crate::signer::InputWitness;
use crate::signer::WitnessV;
use crate::wallet::UtxoV;

verus! {

/// The sequence number every input carries.
pub const SEQUENCE_FINAL: u32 = 0xFFFF_FFFF;

/// The transaction version every transaction carries.
pub const TX_VERSION: u32 = 2;

/// The double-SHA256 digest of a byte string.
pub uninterp spec fn sha256d_of(b: Seq<u8>) -> Seq<u8>;

/// Relies on `bitcoin_hashes::sha256d::Hash::hash`: the 32-byte
/// double-SHA256 digest is a function of the bytes alone.
#[verifier::external_body]
pub(crate) fn sha256d(b: &Vec<u8>) -> (r: Vec<u8>)
    ensures
        r@ == sha256d_of(b@),
        r@.len() == 32,
{
    let h = <bdk::bitcoin::hashes::sha256d::Hash as bdk::bitcoin::hashes::Hash>::hash(
        b.as_slice(),
    );
    bdk::bitcoin::hashes::Hash::into_inner(h).to_vec()
}

/// Bitcoin's compact-size encoding of a count or length.
pub open spec fn enc_varint(n: int) -> Seq<u8> {
    if n < 0xfd {
        seq![n as u8]
    } else if n <= 0xFFFF {
        seq![0xfdu8, (n % 256) as u8, (n / 256) as u8]
    } else if n <= 0xFFFF_FFFF {
        seq![0xfeu8] + enc_u32(n as u32)
    } else {
        seq![0xffu8] + enc_u64(n as u64)
    }
}

pub(crate) fn push_varint(out: &mut Vec<u8>, n: u64)
    ensures
        final(out)@ == old(out)@ + enc_varint(n as int),
{
    if n < 0xfd {
        out.push(n as u8);
    } else if n <= 0xFFFF {
        out.push(0xfdu8);
        out.push((n % 256) as u8);
        out.push((n / 256) as u8);
    } else if n <= 0xFFFF_FFFF {
        out.push(0xfeu8);
        push_u32(out, n as u32);
    } else {
        out.push(0xffu8);
        push_u64(out, n);
    }
    proof {
        assert(out@ =~= old(out)@ + enc_varint(n as int));
    }
}

/// The concatenated outpoints of the inputs (txid, then output index).
pub open spec fn prevouts_bytes(s: Seq<UtxoV>) -> Seq<u8>
    decreases s.len(),
{
    if s.len() == 0 {
        Seq::empty()
    } else {
        prevouts_bytes(s.drop_last()) + (s.last().txid + enc_u32(s.last().vout))
    }
}

/// The concatenated sequence numbers of `n` inputs.
pub open spec fn sequences_bytes(n: int) -> Seq<u8>
    decreases n,
{
    if n <= 0 {
        Seq::empty()
    } else {
        sequences_bytes(n - 1) + enc_u32(SEQUENCE_FINAL)
    }
}

/// The serialized inputs: outpoint, empty script, final sequence.
pub open spec fn inputs_ser(s: Seq<UtxoV>) -> Seq<u8>
    decreases s.len(),
{
    if s.len() == 0 {
        Seq::empty()
    } else {
        inputs_ser(s.drop_last()) + (s.last().txid + enc_u32(s.last().vout) + enc_varint(0)
            + enc_u32(SEQUENCE_FINAL))
    }
}

/// The serialized outputs: value, then the length-prefixed script.
pub open spec fn outputs_ser(s: Seq<TxOutV>) -> Seq<u8>
    decreases s.len(),
{
    if s.len() == 0 {
        Seq::empty()
    } else {
        outputs_ser(s.drop_last()) + (enc_u64(s.last().value) + enc_varint(
            s.last().script.len() as int,
        ) + s.last().script)
    }
}

/// The serialized witness stacks: two items per input, the signature and
/// the public key.
pub open spec fn wits_ser(s: Seq<WitnessV>) -> Seq<u8>
    decreases s.len(),
{
    if s.len() == 0 {
        Seq::empty()
    } else {
        wits_ser(s.drop_last()) + (enc_varint(2) + enc_varint(s.last().sig.len() as int)
            + s.last().sig + enc_varint(s.last().pubkey.len() as int) + s.last().pubkey)
    }
}

/// The BIP-143 script code of a pay-to-witness-public-key-hash output: the
/// length-prefixed legacy pay-to-public-key-hash script over the same
/// 20-byte hash, which sits at bytes 2..22 of the witness script.
pub open spec fn script_code(spk: Seq<u8>) -> Seq<u8> {
    seq![0x19u8, 0x76u8, 0xa9u8, 0x14u8] + spk.subrange(2, 22) + seq![0x88u8, 0xacu8]
}

/// The BIP-143 signature preimage of input `idx`: version, the hashed
/// prevouts and sequences, the input's outpoint, its script code and
/// value, its sequence, the hashed outputs, the lock time and the
/// all-outputs signature-hash type.
pub open spec fn sighash_preimage(p: ProposalV, idx: int, spk: Seq<u8>) -> Seq<u8> {
    enc_u32(TX_VERSION) + sha256d_of(prevouts_bytes(p.inputs)) + sha256d_of(
        sequences_bytes(p.inputs.len() as int),
    ) + p.inputs[idx].txid + enc_u32(p.inputs[idx].vout) + script_code(spk) + enc_u64(
        p.inputs[idx].value,
    ) + enc_u32(SEQUENCE_FINAL) + sha256d_of(outputs_ser(p.outputs)) + enc_u32(0) + enc_u32(1)
}

/// The 32-byte digest an input's witness signs.
pub open spec fn input_digest(p: ProposalV, idx: int, spk: Seq<u8>) -> Seq<u8> {
    sha256d_of(sighash_preimage(p, idx, spk))
}

/// The consensus serialization of the fully signed transaction: version,
/// segwit marker and flag, inputs, outputs, witness stacks, lock time.
pub open spec fn consensus_wire(p: ProposalV, wits: Seq<WitnessV>) -> Seq<u8> {
    enc_u32(TX_VERSION) + seq![0u8, 1u8] + enc_varint(p.inputs.len() as int) + inputs_ser(p.inputs)
        + enc_varint(p.outputs.len() as int) + outputs_ser(p.outputs) + wits_ser(wits) + enc_u32(0)
}

fn push_prevouts(out: &mut Vec<u8>, p: &TransactionProposal)
    ensures
        final(out)@ == old(out)@ + prevouts_bytes(p@.inputs),
{
    proof {
        assert(out@ =~= old(out)@ + prevouts_bytes(p@.inputs.take(0)));
    }
    let mut i: usize = 0;
    while i < p.inputs.len()
        invariant
            i <= p.inputs.len(),
            p@.inputs.len() == p.inputs.len(),
            out@ == old(out)@ + prevouts_bytes(p@.inputs.take(i as int)),
        decreases p.inputs.len() - i,
    {
        proof {
            assert(p@.inputs[i as int] == p.inputs@[i as int]@);
        }
        push_slice(out, &p.inputs[i].txid);
        push_u32(out, p.inputs[i].vout);
        proof {
            assert(p@.inputs.take(i + 1).drop_last() =~= p@.inputs.take(i as int));
            assert(p@.inputs.take(i + 1).last() == p@.inputs[i as int]);
            assert(out@ =~= old(out)@ + prevouts_bytes(p@.inputs.take(i + 1)));
        }
        i = i + 1;
    }
    proof {
        assert(p@.inputs.take(p@.inputs.len() as int) =~= p@.inputs);
    }
}

fn push_sequences(out: &mut Vec<u8>, n: usize)
    ensures
        final(out)@ == old(out)@ + sequences_bytes(n as int),
{
    proof {
        assert(out@ =~= old(out)@ + sequences_bytes(0));
    }
    let mut i: usize = 0;
    while i < n
        invariant
            i <= n,
            out@ == old(out)@ + sequences_bytes(i as int),
        decreases n - i,
    {
        push_u32(out, SEQUENCE_FINAL);
        proof {
            assert(out@ =~= old(out)@ + sequences_bytes(i + 1));
        }
        i = i + 1;
    }
}

fn push_outputs_ser(out: &mut Vec<u8>, p: &TransactionProposal)
    ensures
        final(out)@ == old(out)@ + outputs_ser(p@.outputs),
{
    proof {
        assert(out@ =~= old(out)@ + outputs_ser(p@.outputs.take(0)));
    }
    let mut i: usize = 0;
    while i < p.outputs.len()
        invariant
            i <= p.outputs.len(),
            p@.outputs.len() == p.outputs.len(),
            out@ == old(out)@ + outputs_ser(p@.outputs.take(i as int)),
        decreases p.outputs.len() - i,
    {
        proof {
            assert(p@.outputs[i as int] == p.outputs@[i as int]@);
        }
        push_u64(out, p.outputs[i].value);
        push_varint(out, p.outputs[i].script.len() as u64);
        push_slice(out, &p.outputs[i].script);
        proof {
            assert(p@.outputs.take(i + 1).drop_last() =~= p@.outputs.take(i as int));
            assert(p@.outputs.take(i + 1).last() == p@.outputs[i as int]);
            assert(out@ =~= old(out)@ + outputs_ser(p@.outputs.take(i + 1)));
        }
        i = i + 1;
    }
    proof {
        assert(p@.outputs.take(p@.outputs.len() as int) =~= p@.outputs);
    }
}

fn push_script_code(out: &mut Vec<u8>, spk: &Vec<u8>)
    requires
        spk@.len() == 22,
    ensures
        final(out)@ == old(out)@ + script_code(spk@),
{
    out.push(0x19);
    out.push(0x76);
    out.push(0xa9);
    out.push(0x14);
    let mut i: usize = 2;
    while i < 22
        invariant
            2 <= i <= 22,
            spk@.len() == 22,
            out@ == old(out)@ + seq![0x19u8, 0x76u8, 0xa9u8, 0x14u8] + spk@.subrange(2, i as int),
        decreases 22 - i,
    {
        out.push(spk[i]);
        proof {
            assert(out@ =~= old(out)@ + seq![0x19u8, 0x76u8, 0xa9u8, 0x14u8] + spk@.subrange(
                2,
                i + 1,
            ));
        }
        i = i + 1;
    }
    out.push(0x88);
    out.push(0xac);
    proof {
        assert(out@ =~= old(out)@ + script_code(spk@));
    }
}

/// The BIP-143 digest of input `idx`, for a pay-to-witness-public-key-hash
/// input whose witness script is `spk`.
pub fn compute_input_digest(p: &TransactionProposal, idx: usize, spk: &Vec<u8>) -> (r: Vec<u8>)
    requires
        idx < p@.inputs.len(),
        spk@.len() == 22,
    ensures
        r@ == input_digest(p@, idx as int, spk@),
        r@.len() == 32,
{
    let mut buf: Vec<u8> = Vec::new();
    push_u32(&mut buf, TX_VERSION);
    let mut po: Vec<u8> = Vec::new();
    push_prevouts(&mut po, p);
    let hp = sha256d(&po);
    push_slice(&mut buf, &hp);
    let mut sq: Vec<u8> = Vec::new();
    push_sequences(&mut sq, p.inputs.len());
    let hs = sha256d(&sq);
    push_slice(&mut buf, &hs);
    proof {
        assert(p@.inputs[idx as int] == p.inputs@[idx as int]@);
    }
    push_slice(&mut buf, &p.inputs[idx].txid);
    push_u32(&mut buf, p.inputs[idx].vout);
    push_script_code(&mut buf, spk);
    push_u64(&mut buf, p.inputs[idx].value);
    push_u32(&mut buf, SEQUENCE_FINAL);
    let mut os: Vec<u8> = Vec::new();
    push_outputs_ser(&mut os, p);
    let ho = sha256d(&os);
    push_slice(&mut buf, &ho);
    push_u32(&mut buf, 0);
    push_u32(&mut buf, 1);
    proof {
        assert(po@ =~= prevouts_bytes(p@.inputs));
        assert(sq@ =~= sequences_bytes(p@.inputs.len() as int));
        assert(os@ =~= outputs_ser(p@.outputs));
        assert(buf@ =~= sighash_preimage(p@, idx as int, spk@));
    }
    sha256d(&buf)
}

/// Serialize a proposal with one witness per input to the consensus wire
/// format a chain backend accepts.
pub fn consensus_encode(p: &TransactionProposal, wits: &Vec<InputWitness>) -> (r: Vec<u8>)
    requires
        wits@.len() == p@.inputs.len(),
    ensures
        r@ == consensus_wire(p@, wits@.map_values(|w: InputWitness| w@)),
{
    let ghost wv = wits@.map_values(|w: InputWitness| w@);
    let mut buf: Vec<u8> = Vec::new();
    push_u32(&mut buf, TX_VERSION);
    buf.push(0u8);
    buf.push(1u8);
    push_varint(&mut buf, p.inputs.len() as u64);
    let ghost head = enc_u32(TX_VERSION) + seq![0u8, 1u8] + enc_varint(p@.inputs.len() as int);
    proof {
        assert(buf@ =~= head + inputs_ser(p@.inputs.take(0)));
    }
    let mut i: usize = 0;
    while i < p.inputs.len()
        invariant
            i <= p.inputs.len(),
            p@.inputs.len() == p.inputs.len(),
            buf@ == head + inputs_ser(p@.inputs.take(i as int)),
        decreases p.inputs.len() - i,
    {
        proof {
            assert(p@.inputs[i as int] == p.inputs@[i as int]@);
        }
        push_slice(&mut buf, &p.inputs[i].txid);
        push_u32(&mut buf, p.inputs[i].vout);
        push_varint(&mut buf, 0);
        push_u32(&mut buf, SEQUENCE_FINAL);
        proof {
            assert(p@.inputs.take(i + 1).drop_last() =~= p@.inputs.take(i as int));
            assert(p@.inputs.take(i + 1).last() == p@.inputs[i as int]);
            assert(buf@ =~= head + inputs_ser(p@.inputs.take(i + 1)));
        }
        i = i + 1;
    }
    proof {
        assert(p@.inputs.take(p@.inputs.len() as int) =~= p@.inputs);
    }
    push_varint(&mut buf, p.outputs.len() as u64);
    push_outputs_ser(&mut buf, p);
    let ghost mid = head + inputs_ser(p@.inputs) + enc_varint(p@.outputs.len() as int)
        + outputs_ser(p@.outputs);
    proof {
        assert(buf@ =~= mid + wits_ser(wv.take(0)));
    }
    let mut i: usize = 0;
    while i < wits.len()
        invariant
            i <= wits.len(),
            wits@.len() == wits.len(),
            wv == wits@.map_values(|w: InputWitness| w@),
            wv.len() == wits.len(),
            buf@ == mid + wits_ser(wv.take(i as int)),
        decreases wits.len() - i,
    {
        proof {
            assert(wv[i as int] == wits@[i as int]@);
        }
        push_varint(&mut buf, 2);
        push_varint(&mut buf, wits[i].sig.len() as u64);
        push_slice(&mut buf, &wits[i].sig);
        push_varint(&mut buf, wits[i].pubkey.len() as u64);
        push_slice(&mut buf, &wits[i].pubkey);
        proof {
            assert(wv.take(i + 1).drop_last() =~= wv.take(i as int));
            assert(wv.take(i + 1).last() == wv[i as int]);
            assert(buf@ =~= mid + wits_ser(wv.take(i + 1)));
        }
        i = i + 1;
    }
    proof {
        assert(wv.take(wv.len() as int) =~= wv);
    }
    push_u32(&mut buf, 0);
    proof {
        assert(buf@ =~= consensus_wire(p@, wv));
    }
    buf
}

} // verus!
