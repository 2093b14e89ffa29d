//! Outcomes of the output policy, and the errors of a request to sign.

use vstd::prelude::*;

verus! {

/// Why the output policy refuses a transaction.
#[derive(Clone, Copy, Debug, PartialEq, Eq, Structural)]
pub enum RejectReason {
    /// An output pays a non-zero amount to no resolvable destination.
    UnresolvedDestination,
    /// The outputs carry no value at all.
    EmptyValueTransaction,
    /// More than 5% of the value leaves for destinations off the whitelist:
    /// that share is `non_whitelisted / total`.
    ThresholdExceeded { non_whitelisted: u128, total: u128 },
}

/// The verdict of the output policy.
#[derive(Clone, Copy, Debug, PartialEq, Eq, Structural)]
pub enum Decision {
    Admit,
    Reject(RejectReason),
}

/// Every way in which a request to sign fails; all of them are final.
#[derive(Clone, Copy, Debug, PartialEq, Eq, Structural)]
pub enum GateError {
    /// An output's locking script has no known destination form.
    MalformedDestination,
    /// The input is not hex, not a transaction, or a transaction without outputs.
    DecodeError,
    /// The output policy refused the transaction.
    PolicyRejected(RejectReason),
    /// The attached amount is below the required deposit.
    InsufficientDeposit,
    /// The request could not be handed to the signer.
    SignerDispatchFailed,
}

} // verus!
