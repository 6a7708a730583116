//! The registry's error taxonomy.
//!
//! Every operation either succeeds with a command batch or aborts with
//! one of these errors; the host then rolls the whole invocation back.

use vstd::prelude::*;

verus! {

/// Spec-level image of a [`ContractError`], with string payloads replaced
/// by character sequences so that contracts can compare errors by value.
pub enum ErrorV {
    /// A host-level failure: an external query gave no answer where one
    /// was required, or an arithmetic result exceeded its machine range.
    Std,
    /// The attached payment could not be read.
    Payment,
    Unauthorized,
    InvalidInput,
    InvalidPayment { amount: u128 },
    NameNotExists { name: Seq<char> },
    NameTaken { name: Seq<char> },
    NameTooShort { length: u64, min_length: u64 },
    NameTooLong { length: u64, max_length: u64 },
    NameOwnershipExpired { name: Seq<char> },
    InvalidCharacter { c: char },
}

/// An error aborting a registry operation.
///
/// `Std` stands for a failure at the host boundary: a token-ledger query
/// that returned nothing where an answer was required, or an arithmetic
/// result that left the machine range.  The host treats any error as an
/// instruction to abort the invocation, so no further detail is carried.
#[derive(Clone, Debug, PartialEq)]
pub enum ContractError {
    Std {},
    Payment {},
    Unauthorized {},
    InvalidInput {},
    InvalidPayment { amount: u128 },
    NameNotExists { name: String },
    NameTaken { name: String },
    NameTooShort { length: u64, min_length: u64 },
    NameTooLong { length: u64, max_length: u64 },
    NameOwnershipExpired { name: String },
    InvalidCharacter { c: char },
}

impl View for ContractError {
    type V = ErrorV;

    open spec fn view(&self) -> ErrorV {
        match self {
            ContractError::Std {} => ErrorV::Std,
            ContractError::Payment {} => ErrorV::Payment,
            ContractError::Unauthorized {} => ErrorV::Unauthorized,
            ContractError::InvalidInput {} => ErrorV::InvalidInput,
            ContractError::InvalidPayment { amount } => ErrorV::InvalidPayment {
                amount: *amount,
            },
            ContractError::NameNotExists { name } => ErrorV::NameNotExists { name: name@ },
            ContractError::NameTaken { name } => ErrorV::NameTaken { name: name@ },
            ContractError::NameTooShort { length, min_length } => ErrorV::NameTooShort {
                length: *length,
                min_length: *min_length,
            },
            ContractError::NameTooLong { length, max_length } => ErrorV::NameTooLong {
                length: *length,
                max_length: *max_length,
            },
            ContractError::NameOwnershipExpired { name } => ErrorV::NameOwnershipExpired {
                name: name@,
            },
            ContractError::InvalidCharacter { c } => ErrorV::InvalidCharacter { c: *c },
        }
    }
}

} // verus!
