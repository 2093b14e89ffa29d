//! An outbound-transfer policy gate: decodes a serialized transaction, checks
//! its destinations against a whitelist under a value threshold, enforces a
//! deposit precondition and builds the request handed to a threshold signer.

pub mod address;
pub mod bytes;
pub mod contract;
pub mod decode;
pub mod error;
pub mod hexcode;
pub mod policy;
pub mod tx;
pub mod whitelist;
