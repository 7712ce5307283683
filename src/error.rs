use vstd::prelude::*;

use crate::keys::KeyError;
use crate::transaction::TransactionError;

verus! {

/// Failures of the type grammar and of the method-name argument.
#[derive(Debug, Clone, Copy, PartialEq, Eq, Structural)]
pub enum AbiError {
    /// An unknown keyword, a bad numeric suffix, unbalanced nesting or a
    /// map key kind that is not allowed.
    ExpectedParamType,
    /// A method name that is neither a string nor an array of strings.
    ExpectedStringOrArray,
    /// Components attached to a type that cannot carry them, or missing
    /// where a tuple needs them.
    InvalidComponents,
}

impl AbiError {
    /// The message shown for this error at the foreign boundary.
    pub fn message(&self) -> (r: String)
        ensures
            *self == AbiError::ExpectedParamType ==> r@ == "Expected param type"@,
            *self == AbiError::ExpectedStringOrArray ==> r@ == "Expected string or array"@,
            *self == AbiError::InvalidComponents ==> r@ == "Invalid components"@,
    {
        match self {
            AbiError::ExpectedParamType => String::from_str("Expected param type"),
            AbiError::ExpectedStringOrArray => String::from_str("Expected string or array"),
            AbiError::InvalidComponents => String::from_str("Invalid components"),
        }
    }
}

impl KeyError {
    /// The message shown for this error at the foreign boundary.
    pub fn message(&self) -> (r: String)
        ensures
            *self == KeyError::InvalidHex ==> r@ == "Invalid hex string"@,
            *self == KeyError::InvalidKey ==> r@ == "Invalid public key"@,
    {
        match self {
            KeyError::InvalidHex => String::from_str("Invalid hex string"),
            KeyError::InvalidKey => String::from_str("Invalid public key"),
        }
    }
}

impl TransactionError {
    /// The message shown for this error at the foreign boundary.
    pub fn message(&self) -> (r: String)
        ensures
            r@ == "Expected message body"@,
    {
        String::from_str("Expected message body")
    }
}

/// Turns a library error into the text that crosses the foreign boundary.
pub trait HandleError {
    type Output;

    fn handle_error(self) -> Result<Self::Output, String>;
}

impl<T> HandleError for Result<T, AbiError> {
    type Output = T;

    fn handle_error(self) -> (r: Result<T, String>) {
        match self {
            Ok(t) => Ok(t),
            Err(e) => Err(e.message()),
        }
    }
}

impl<T> HandleError for Result<T, KeyError> {
    type Output = T;

    fn handle_error(self) -> (r: Result<T, String>) {
        match self {
            Ok(t) => Ok(t),
            Err(e) => Err(e.message()),
        }
    }
}

impl<T> HandleError for Result<T, TransactionError> {
    type Output = T;

    fn handle_error(self) -> (r: Result<T, String>) {
        match self {
            Ok(t) => Ok(t),
            Err(e) => Err(e.message()),
        }
    }
}

} // verus!
