//! ABI toolkit core: the type grammar for ABI parameter descriptors, the
//! function and event matcher, the plan for decoding a transaction, the
//! expiration rules of external messages, and the checks on what crosses
//! the foreign boundary (public keys, C strings).

pub mod contract;
pub mod error;
pub mod foreign;
pub mod keys;
pub mod message;
pub mod param_type;
pub mod transaction;
