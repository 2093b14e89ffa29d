//! The service: it owns the whitelist and turns a raw transaction into a
//! request for the threshold signer once every precondition holds.

use crate::decode::{decode_raw_transaction, outputs_view, spec_decode, DecodedTransaction};
use crate::error::{Decision, GateError};
use crate::policy::{evaluate_outputs, spec_decision};
use crate::tx::spec_transaction;
use crate::whitelist::Whitelist;
use vstd::prelude::*;

verus! {

/// The deposit, in yoctoNEAR (one NEAR), that a caller attaches to pay for a
/// signature.
pub const SIGNING_COST: u128 = 1_000_000_000_000_000_000_000_000;

/// The 32-byte Keccak-256 digest of a byte sequence.
pub uninterp spec fn keccak256_of(b: Seq<u8>) -> Seq<u8>;

/// Relies on near_sdk::env::keccak256_array: the Keccak-256 digest of the
/// bytes, which depends on them alone.
#[verifier::external_body]
fn keccak256(b: &Vec<u8>) -> (r: [u8; 32])
    ensures
        r@ == keccak256_of(b@),
{
    near_sdk::env::keccak256_array(b)
}

/// What the signer is asked to sign, and with which key.
pub struct SignRequest {
    pub payload: [u8; 32],
    pub path: String,
    pub key_version: u32,
}

/// The payload of a decoded transaction: the digest of its serialized bytes.
pub fn build_payload(tx: &DecodedTransaction) -> (r: [u8; 32])
    ensures
        r@ == keccak256_of(tx.bytes@),
{
    keccak256(&tx.bytes)
}

/// The outcome of a request to sign: the bytes whose digest is signed, or the
/// first precondition that fails, in the order decode, policy, deposit.
pub open spec fn spec_process(wl: Set<Seq<char>>, raw: Seq<char>, attached: nat) -> Result<
    Seq<u8>,
    GateError,
> {
    match spec_decode(raw) {
        Err(e) => Err(e),
        Ok((bytes, _t, outs)) => match spec_decision(outs, wl) {
            Decision::Reject(why) => Err(GateError::PolicyRejected(why)),
            Decision::Admit => if attached < SIGNING_COST {
                Err(GateError::InsufficientDeposit)
            } else {
                Ok(bytes)
            },
        },
    }
}

/// The service's state: the whitelist of approved destinations.
pub struct Contract {
    whitelist: Whitelist,
}

impl View for Contract {
    type V = Set<Seq<char>>;

    closed spec fn view(&self) -> Set<Seq<char>> {
        self.whitelist@
    }
}

impl Contract {
    pub closed spec fn wf(&self) -> bool {
        self.whitelist.wf()
    }

    /// A service with an empty whitelist.
    pub fn new() -> (r: Self)
        ensures
            r.wf(),
            r@ == Set::<Seq<char>>::empty(),
    {
        Contract { whitelist: Whitelist::new() }
    }

    /// Approves a destination address.
    pub fn add_to_whitelist(&mut self, account_id: String)
        requires
            old(self).wf(),
        ensures
            final(self).wf(),
            final(self)@ == old(self)@.insert(account_id@),
    {
        self.whitelist.add(account_id);
    }

    /// Withdraws the approval of a destination address.
    pub fn remove_from_whitelist(&mut self, account_id: &String)
        requires
            old(self).wf(),
        ensures
            final(self).wf(),
            final(self)@ == old(self)@.remove(account_id@),
    {
        self.whitelist.remove(account_id);
    }

    /// Whether a destination address is approved.
    pub fn is_whitelisted(&self, account_id: &String) -> (r: bool)
        ensures
            r == self@.contains(account_id@),
    {
        self.whitelist.contains(account_id)
    }

    /// The approved addresses.
    pub fn whitelisted(&self) -> (r: Vec<String>)
        ensures
            forall|a: Seq<char>|
                self@.contains(a) <==> exists|i: int| 0 <= i < r@.len() && #[trigger] r@[i]@ == a,
    {
        self.whitelist.list()
    }

    /// The verdict of the output policy on a decoded transaction.
    pub fn validate_outputs(&self, decoded_tx: &DecodedTransaction) -> (r: Decision)
        ensures
            r == spec_decision(outputs_view(decoded_tx.outputs@), self@),
    {
        evaluate_outputs(&decoded_tx.outputs, &self.whitelist)
    }

    /// Decodes the transaction, applies the policy, checks the deposit and
    /// builds the request for the signer; nothing is built when a step fails.
    pub fn process_transaction(
        &self,
        hex_psbt: String,
        path: String,
        key_version: u32,
        attached_deposit: u128,
    ) -> (r: Result<SignRequest, GateError>)
        ensures
            match r {
                Ok(req) => {
                    &&& spec_process(self@, hex_psbt@, attached_deposit as nat) is Ok
                    &&& req.payload@ == keccak256_of(
                        spec_process(self@, hex_psbt@, attached_deposit as nat).unwrap(),
                    )
                    &&& req.path == path
                    &&& req.key_version == key_version
                },
                Err(e) => spec_process(self@, hex_psbt@, attached_deposit as nat) == Err::<
                    Seq<u8>,
                    GateError,
                >(e),
            },
    {
        let decoded = match decode_raw_transaction(hex_psbt.as_str()) {
            Ok(d) => d,
            Err(e) => return Err(e),
        };
        match self.validate_outputs(&decoded) {
            Decision::Reject(why) => return Err(GateError::PolicyRejected(why)),
            Decision::Admit => {},
        }
        if attached_deposit < SIGNING_COST {
            return Err(GateError::InsufficientDeposit);
        }
        let payload = build_payload(&decoded);
        Ok(SignRequest { payload, path, key_version })
    }
}

/// The deposit check: one unit below the cost refuses a transaction that the
/// policy admits, and exactly the cost lets it through.
pub proof fn lemma_deposit_gate(wl: Set<Seq<char>>, raw: Seq<char>)
    requires
        spec_decode(raw) is Ok,
        spec_decision(spec_decode(raw).unwrap().2, wl) == Decision::Admit,
    ensures
        spec_process(wl, raw, (SIGNING_COST - 1) as nat) == Err::<Seq<u8>, GateError>(
            GateError::InsufficientDeposit,
        ),
        spec_process(wl, raw, SIGNING_COST as nat) is Ok,
{
}

/// The payload is a function of the transaction's bytes: the same bytes give
/// the same payload.
pub proof fn lemma_payload_deterministic(a: DecodedTransaction, b: DecodedTransaction)
    requires
        a.bytes@ == b.bytes@,
    ensures
        keccak256_of(a.bytes@) == keccak256_of(b.bytes@),
{
}

/// Two transactions whose outputs differ, in an amount or otherwise, are
/// serialized by different bytes, so their payloads are digests of different
/// inputs.
pub proof fn lemma_payload_inputs_differ(a: Seq<u8>, b: Seq<u8>)
    requires
        spec_transaction(a) is Some,
        spec_transaction(b) is Some,
        spec_transaction(a).unwrap().outputs != spec_transaction(b).unwrap().outputs,
    ensures
        a != b,
{
}

} // verus!
