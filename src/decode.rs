//! From hex text to a decoded transaction whose outputs name their canonical
//! destinations.

use crate::address::{canonicalize, spec_destinations};
use crate::error::GateError;
use crate::hexcode::{decode_hex, hex_bytes, is_hex};
use crate::tx::{parse_transaction, spec_transaction, OutputModel, Transaction, TxModel};
use vstd::prelude::*;

verus! {

pub struct OutputView {
    pub index: nat,
    pub amount: nat,
    pub destinations: Seq<Seq<char>>,
}

/// An output as the policy sees it: its position, amount and destinations.
pub struct Output {
    pub index: usize,
    pub amount: u64,
    pub destinations: Vec<String>,
}

impl View for Output {
    type V = OutputView;

    open spec fn view(&self) -> OutputView {
        OutputView {
            index: self.index as nat,
            amount: self.amount as nat,
            destinations: self.destinations@.map_values(|a: String| a@),
        }
    }
}

/// The SHA-256 digest of a byte sequence.
pub uninterp spec fn sha256_of(b: Seq<u8>) -> Seq<u8>;

/// Relies on near_sdk::env::sha256_array: the SHA-256 digest of the bytes,
/// which depends on them alone.
#[verifier::external_body]
fn sha256(b: &[u8]) -> (r: [u8; 32])
    ensures
        r@ == sha256_of(b@),
{
    near_sdk::env::sha256_array(b)
}

/// The id of a transaction: the double SHA-256 of its stripped serialization,
/// in digest byte order.
pub open spec fn spec_txid(t: TxModel) -> Seq<u8> {
    sha256_of(sha256_of(t.stripped))
}

/// A decoded transaction: its id, bytes, structure and resolved outputs.
pub struct DecodedTransaction {
    pub id: [u8; 32],
    pub bytes: Vec<u8>,
    pub tx: Transaction,
    pub outputs: Vec<Output>,
}

pub open spec fn outputs_view(outputs: Seq<Output>) -> Seq<OutputView> {
    outputs.map_values(|o: Output| o@)
}

/// The outputs with their destinations, if every locking script has a form.
pub open spec fn spec_resolve(outs: Seq<OutputModel>) -> Option<Seq<OutputView>> {
    if forall|i: int| 0 <= i < outs.len() ==> (#[trigger] spec_destinations(outs[i].script)) is Some {
        Some(
            Seq::new(
                outs.len(),
                |i: int|
                    OutputView {
                        index: i as nat,
                        amount: outs[i].amount,
                        destinations: spec_destinations(outs[i].script).unwrap(),
                    },
            ),
        )
    } else {
        None
    }
}

/// What decoding hex text gives: its bytes, the transaction they serialize
/// and its resolved outputs, or the error.
pub open spec fn spec_decode(s: Seq<char>) -> Result<(Seq<u8>, TxModel, Seq<OutputView>), GateError> {
    if !is_hex(s) {
        Err(GateError::DecodeError)
    } else {
        match spec_transaction(hex_bytes(s)) {
            None => Err(GateError::DecodeError),
            Some(t) => if t.outputs.len() == 0 {
                Err(GateError::DecodeError)
            } else {
                match spec_resolve(t.outputs) {
                    None => Err(GateError::MalformedDestination),
                    Some(o) => Ok((hex_bytes(s), t, o)),
                }
            },
        }
    }
}

/// Decodes a hex-encoded transaction and resolves the destinations of its
/// outputs.
pub fn decode_raw_transaction(raw_tx_hex: &str) -> (r: Result<DecodedTransaction, GateError>)
    ensures
        match r {
            Ok(d) => {
                &&& spec_decode(raw_tx_hex@) == Ok::<_, GateError>(
                    (d.bytes@, d.tx@, outputs_view(d.outputs@)),
                )
                &&& d.id@ == spec_txid(d.tx@)
            },
            Err(e) => spec_decode(raw_tx_hex@) == Err::<(Seq<u8>, TxModel, Seq<OutputView>), _>(e),
        },
{
    let bytes = match decode_hex(raw_tx_hex) {
        Some(b) => b,
        None => return Err(GateError::DecodeError),
    };
    let tx = match parse_transaction(&bytes) {
        Some(t) => t,
        None => return Err(GateError::DecodeError),
    };
    let n = tx.outputs.len();
    if n == 0 {
        return Err(GateError::DecodeError);
    }
    let ghost outs = tx@.outputs;
    let mut outputs: Vec<Output> = Vec::new();
    let mut i: usize = 0;
    while i < n
        invariant
            i <= n,
            n == tx.outputs@.len(),
            outs == tx@.outputs,
            is_hex(raw_tx_hex@),
            bytes@ == hex_bytes(raw_tx_hex@),
            spec_transaction(bytes@) == Some(tx@),
            outputs@.len() == i,
            forall|j: int| 0 <= j < i ==> (#[trigger] spec_destinations(outs[j].script)) is Some,
            forall|j: int|
                0 <= j < i ==> (#[trigger] outputs@[j])@ == (OutputView {
                    index: j as nat,
                    amount: outs[j].amount,
                    destinations: spec_destinations(outs[j].script).unwrap(),
                }),
        decreases n - i,
    {
        let o = &tx.outputs[i];
        assert(outs[i as int] == o@);
        match canonicalize(&o.script) {
            Some(d) => {
                outputs.push(Output { index: i, amount: o.amount, destinations: d });
                i = i + 1;
            },
            None => {
                assert(spec_destinations(outs[i as int].script) is None);
                assert(spec_resolve(outs) is None);
                return Err(GateError::MalformedDestination);
            },
        }
    }
    let ghost resolved = spec_resolve(outs).unwrap();
    assert(outputs_view(outputs@) =~= resolved);
    let inner = sha256(tx.stripped.as_slice());
    let id = sha256(inner.as_slice());
    Ok(DecodedTransaction { id, bytes, tx, outputs })
}

/// Text that is not well-formed hex, of odd length or with a character that
/// is no hexadecimal digit, is refused as undecodable.
pub proof fn lemma_malformed_hex_rejected(s: Seq<char>)
    requires
        !is_hex(s),
    ensures
        spec_decode(s) == Err::<(Seq<u8>, TxModel, Seq<OutputView>), GateError>(GateError::DecodeError),
{
}

} // verus!
