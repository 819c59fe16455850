//! Failures of a query, and the four kinds they fall into.

use vstd::prelude::*;

verus! {

/// The broad kind of a failure, by which a caller chooses its response.
#[derive(Clone, Copy, Debug, PartialEq, Eq, Structural)]
pub enum ErrorKind {
    /// A hash, height or output that the store does not hold.
    NotFound,
    /// A request token that is no hash or no height.
    MalformedInput,
    /// A record of the store points at something that is not there.
    StoreInconsistency,
    /// A sum left the 64-bit range.
    Overflow,
}

/// Why a query could not be resolved.
#[derive(Clone, Copy, Debug, PartialEq, Eq, Structural)]
pub enum ResolveError {
    /// The token is not 64 hexadecimal characters.
    InvalidTxHash,
    /// The token is not a decimal height that fits 64 bits.
    InvalidHeight,
    /// No transaction is stored under the hash.
    TransactionNotFound,
    /// No block is stored at the height.
    BlockNotFound,
    /// No output is stored under the key that an offset decodes to.
    OutputNotFound,
    /// An output names a slot outside its block's list of transactions.
    IndexOutOfRange,
    /// A record that another record refers to is absent.
    DanglingReference,
    /// The stored transaction carries a version that names no known format.
    UnknownFormat,
    /// An answer does not belong to the lookup that was asked.
    UnexpectedAnswer,
    /// The key offsets of an input add up to more than 64 bits hold.
    ArithmeticOverflow,
}

impl ResolveError {
    /// The kind of `self`.
    pub open spec fn spec_kind(self) -> ErrorKind {
        match self {
            ResolveError::InvalidTxHash | ResolveError::InvalidHeight => ErrorKind::MalformedInput,
            ResolveError::TransactionNotFound
            | ResolveError::BlockNotFound
            | ResolveError::OutputNotFound => ErrorKind::NotFound,
            ResolveError::IndexOutOfRange
            | ResolveError::DanglingReference
            | ResolveError::UnknownFormat
            | ResolveError::UnexpectedAnswer => ErrorKind::StoreInconsistency,
            ResolveError::ArithmeticOverflow => ErrorKind::Overflow,
        }
    }

    /// The kind of the failure.
    #[verifier::when_used_as_spec(spec_kind)]
    pub fn kind(self) -> (k: ErrorKind)
        ensures
            k == self.spec_kind(),
    {
        match self {
            ResolveError::InvalidTxHash => ErrorKind::MalformedInput,
            ResolveError::InvalidHeight => ErrorKind::MalformedInput,
            ResolveError::TransactionNotFound => ErrorKind::NotFound,
            ResolveError::BlockNotFound => ErrorKind::NotFound,
            ResolveError::OutputNotFound => ErrorKind::NotFound,
            ResolveError::IndexOutOfRange => ErrorKind::StoreInconsistency,
            ResolveError::DanglingReference => ErrorKind::StoreInconsistency,
            ResolveError::UnknownFormat => ErrorKind::StoreInconsistency,
            ResolveError::UnexpectedAnswer => ErrorKind::StoreInconsistency,
            ResolveError::ArithmeticOverflow => ErrorKind::Overflow,
        }
    }

    /// The name of the failure as it goes out to a client.
    pub open spec fn spec_code(self) -> Seq<char> {
        match self {
            ResolveError::InvalidTxHash => "INVALID_TX_HASH"@,
            ResolveError::InvalidHeight => "INVALID_BLOCK_HEIGHT"@,
            ResolveError::TransactionNotFound => "TX_HASH_NOT_FOUND"@,
            ResolveError::BlockNotFound => "BLOCK_NOT_FOUND"@,
            ResolveError::OutputNotFound => "OUTPUT_NOT_FOUND"@,
            ResolveError::IndexOutOfRange => "INDEX_OUT_OF_RANGE"@,
            ResolveError::DanglingReference => "DANGLING_REFERENCE"@,
            ResolveError::UnknownFormat => "UNKNOWN_FORMAT"@,
            ResolveError::UnexpectedAnswer => "UNEXPECTED_ANSWER"@,
            ResolveError::ArithmeticOverflow => "ARITHMETIC_OVERFLOW"@,
        }
    }

    /// The name of the failure as it goes out to a client.
    pub fn code(self) -> (name: &'static str)
        ensures
            name@ == self.spec_code(),
    {
        match self {
            ResolveError::InvalidTxHash => "INVALID_TX_HASH",
            ResolveError::InvalidHeight => "INVALID_BLOCK_HEIGHT",
            ResolveError::TransactionNotFound => "TX_HASH_NOT_FOUND",
            ResolveError::BlockNotFound => "BLOCK_NOT_FOUND",
            ResolveError::OutputNotFound => "OUTPUT_NOT_FOUND",
            ResolveError::IndexOutOfRange => "INDEX_OUT_OF_RANGE",
            ResolveError::DanglingReference => "DANGLING_REFERENCE",
            ResolveError::UnknownFormat => "UNKNOWN_FORMAT",
            ResolveError::UnexpectedAnswer => "UNEXPECTED_ANSWER",
            ResolveError::ArithmeticOverflow => "ARITHMETIC_OVERFLOW",
        }
    }

    /// The status a web front end answers with: 400 where the request is at
    /// fault, 500 where the store or the arithmetic is.
    pub open spec fn spec_status_code(self) -> u16 {
        match self.spec_kind() {
            ErrorKind::NotFound | ErrorKind::MalformedInput => 400,
            ErrorKind::StoreInconsistency | ErrorKind::Overflow => 500,
        }
    }

    /// The HTTP status that goes with the failure.
    #[verifier::when_used_as_spec(spec_status_code)]
    pub fn status_code(self) -> (code: u16)
        ensures
            code == self.spec_status_code(),
    {
        match self.kind() {
            ErrorKind::NotFound => 400,
            ErrorKind::MalformedInput => 400,
            ErrorKind::StoreInconsistency => 500,
            ErrorKind::Overflow => 500,
        }
    }
}

} // verus!
