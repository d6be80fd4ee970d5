//! The single error taxonomy shared by every hook capability.
//!
//! A host routine answers with one signed 64-bit code.  A non-negative
//! code is a success payload; a negative code selects one of the kinds
//! below.  The numeric values are fixed protocol constants, so turning a
//! code back into a kind is an explicit table lookup, never a raw
//! reinterpretation: a negative code outside the table falls back to
//! `Error::InternalError` instead of producing an undefined value.

use vstd::prelude::*;

verus! {

/// Every error kind a hook API can report.
///
/// The taxonomy is global: there are no per-capability error types.
#[derive(Clone, Copy, PartialEq, Eq, Structural, Debug)]
pub enum Error {
    /// A pointer or length described memory outside the hook's region.
    OutOfBounds,
    /// An internal invariant of the host tripped; unrelated to inputs.
    InternalError,
    /// Attempted to set a parameter or value larger than the allowed space.
    TooBig,
    /// The output buffer handed to the host was too small.
    TooSmall,
    /// The requested object or item was not found.
    DoesntExist,
    /// No slot is free for the item the hook tried to allocate.
    NoFreeSlots,
    /// One or more parameters were invalid for the called API.
    InvalidArgument,
    /// A once-per-execution parameter was set a second time.
    AlreadySet,
    /// The API required a preparatory call that has not happened yet.
    PrerequisiteNotMet,
    /// Fee calculation produced an absurdly large fee.
    FeeTooLarge,
    /// Emitting a transaction failed.
    EmissionFailure,
    /// More nonces were requested than one execution may draw.
    TooManyNonces,
    /// More transactions were emitted than were reserved.
    TooManyEmittedTxn,
    /// The called part of the API is not implemented yet.
    NotImplemented,
    /// A 20-byte account identifier was not valid.
    InvalidAccount,
    /// A loop ran past its declared iteration bound; always fatal.
    GuardViolation,
    /// The requested serialized field is absent from the object.
    InvalidField,
    /// Serialized content could not be parsed.
    ParseError,
    /// Used internally to communicate a rollback event.
    RcRollback,
    /// Used internally to communicate an accept event.
    RcAccept,
    /// The keylet could not be found or is invalid.
    NoSuchKeylet,
    /// The object under analysis is not an array.
    NotAnArray,
    /// The object under analysis is not an object.
    NotAnObject,
    /// A float operation produced no representable number.
    InvalidFloat,
    /// The operation would divide by a zero-valued operand.
    DivisionByZero,
    /// A float mantissa had more than sixteen decimal digits.
    MantissaOversized,
    /// A float mantissa had fewer than sixteen decimal digits.
    MantissaUndersized,
    /// A float exponent exceeded the largest legal exponent.
    ExponentOversized,
    /// A float exponent fell below the smallest legal exponent.
    ExponentUndersized,
    /// A float operation overflowed the representable magnitude.
    XflOverflow,
    /// The amount under analysis is the native currency, not an IOU.
    NotIouAmount,
    /// The object under analysis is not an amount.
    NotAnAmount,
    /// The API would have returned a negative integer, which is reserved.
    CantReturnNegative,
    /// Foreign state may not be set without a valid grant.
    NotAuthorized,
    /// An earlier authorization failure forbids a retry.
    PreviousFailurePreventsRetry,
    /// Too many parameters were set for a later hook in the chain.
    TooManyParams,
    /// The serialized transaction was not a valid transaction.
    InvalidTxn,
    /// A further state entry would exceed the account's reserve.
    ReserveInssuficient,
    /// The API would be forced to return a complex number.
    ComplexNotSupported,
    /// Two arguments had to be of the same type but were not.
    DoesNotMatch,
    /// The provided public key was not valid.
    InvalidKey,
    /// The buffer did not hold a nul-terminated string.
    NotAString,
    /// A write buffer and a read buffer of one call overlap.
    MemOverlap,
    /// Too many state entries were modified across the hook chains.
    TooManyStateModifications,
    /// Too many namespaces exist on this account.
    TooManyNamespaces,
}

impl Error {
    /// The protocol constant for this kind.
    pub open spec fn spec_code(self) -> i32 {
        match self {
            Error::OutOfBounds => -1i32,
            Error::InternalError => -2i32,
            Error::TooBig => -3i32,
            Error::TooSmall => -4i32,
            Error::DoesntExist => -5i32,
            Error::NoFreeSlots => -6i32,
            Error::InvalidArgument => -7i32,
            Error::AlreadySet => -8i32,
            Error::PrerequisiteNotMet => -9i32,
            Error::FeeTooLarge => -10i32,
            Error::EmissionFailure => -11i32,
            Error::TooManyNonces => -12i32,
            Error::TooManyEmittedTxn => -13i32,
            Error::NotImplemented => -14i32,
            Error::InvalidAccount => -15i32,
            Error::GuardViolation => -16i32,
            Error::InvalidField => -17i32,
            Error::ParseError => -18i32,
            Error::RcRollback => -19i32,
            Error::RcAccept => -20i32,
            Error::NoSuchKeylet => -21i32,
            Error::NotAnArray => -22i32,
            Error::NotAnObject => -23i32,
            Error::InvalidFloat => -10024i32,
            Error::DivisionByZero => -25i32,
            Error::MantissaOversized => -26i32,
            Error::MantissaUndersized => -27i32,
            Error::ExponentOversized => -28i32,
            Error::ExponentUndersized => -29i32,
            Error::XflOverflow => -30i32,
            Error::NotIouAmount => -31i32,
            Error::NotAnAmount => -32i32,
            Error::CantReturnNegative => -33i32,
            Error::NotAuthorized => -34i32,
            Error::PreviousFailurePreventsRetry => -35i32,
            Error::TooManyParams => -36i32,
            Error::InvalidTxn => -37i32,
            Error::ReserveInssuficient => -38i32,
            Error::ComplexNotSupported => -39i32,
            Error::DoesNotMatch => -40i32,
            Error::InvalidKey => -41i32,
            Error::NotAString => -42i32,
            Error::MemOverlap => -43i32,
            Error::TooManyStateModifications => -44i32,
            Error::TooManyNamespaces => -45i32,
        }
    }

    /// Numeric error code of this kind.
    #[verifier::when_used_as_spec(spec_code)]
    pub fn code(self) -> (c: i32)
        ensures
            c == self.spec_code(),
    {
        match self {
            Error::OutOfBounds => -1,
            Error::InternalError => -2,
            Error::TooBig => -3,
            Error::TooSmall => -4,
            Error::DoesntExist => -5,
            Error::NoFreeSlots => -6,
            Error::InvalidArgument => -7,
            Error::AlreadySet => -8,
            Error::PrerequisiteNotMet => -9,
            Error::FeeTooLarge => -10,
            Error::EmissionFailure => -11,
            Error::TooManyNonces => -12,
            Error::TooManyEmittedTxn => -13,
            Error::NotImplemented => -14,
            Error::InvalidAccount => -15,
            Error::GuardViolation => -16,
            Error::InvalidField => -17,
            Error::ParseError => -18,
            Error::RcRollback => -19,
            Error::RcAccept => -20,
            Error::NoSuchKeylet => -21,
            Error::NotAnArray => -22,
            Error::NotAnObject => -23,
            Error::InvalidFloat => -10024,
            Error::DivisionByZero => -25,
            Error::MantissaOversized => -26,
            Error::MantissaUndersized => -27,
            Error::ExponentOversized => -28,
            Error::ExponentUndersized => -29,
            Error::XflOverflow => -30,
            Error::NotIouAmount => -31,
            Error::NotAnAmount => -32,
            Error::CantReturnNegative => -33,
            Error::NotAuthorized => -34,
            Error::PreviousFailurePreventsRetry => -35,
            Error::TooManyParams => -36,
            Error::InvalidTxn => -37,
            Error::ReserveInssuficient => -38,
            Error::ComplexNotSupported => -39,
            Error::DoesNotMatch => -40,
            Error::InvalidKey => -41,
            Error::NotAString => -42,
            Error::MemOverlap => -43,
            Error::TooManyStateModifications => -44,
            Error::TooManyNamespaces => -45,
        }
    }

    /// The kind selected by a raw code, with `Error::InternalError`
    /// standing in for any code outside the table.  The lookup ranges
    /// over the whole signed 64-bit code the host answers with: no bits
    /// are reinterpreted or truncated on the way to the table.
    pub open spec fn spec_from_code(code: i64) -> Error {
        if code == -1 {
            Error::OutOfBounds
        } else if code == -2 {
            Error::InternalError
        } else if code == -3 {
            Error::TooBig
        } else if code == -4 {
            Error::TooSmall
        } else if code == -5 {
            Error::DoesntExist
        } else if code == -6 {
            Error::NoFreeSlots
        } else if code == -7 {
            Error::InvalidArgument
        } else if code == -8 {
            Error::AlreadySet
        } else if code == -9 {
            Error::PrerequisiteNotMet
        } else if code == -10 {
            Error::FeeTooLarge
        } else if code == -11 {
            Error::EmissionFailure
        } else if code == -12 {
            Error::TooManyNonces
        } else if code == -13 {
            Error::TooManyEmittedTxn
        } else if code == -14 {
            Error::NotImplemented
        } else if code == -15 {
            Error::InvalidAccount
        } else if code == -16 {
            Error::GuardViolation
        } else if code == -17 {
            Error::InvalidField
        } else if code == -18 {
            Error::ParseError
        } else if code == -19 {
            Error::RcRollback
        } else if code == -20 {
            Error::RcAccept
        } else if code == -21 {
            Error::NoSuchKeylet
        } else if code == -22 {
            Error::NotAnArray
        } else if code == -23 {
            Error::NotAnObject
        } else if code == -10024 {
            Error::InvalidFloat
        } else if code == -25 {
            Error::DivisionByZero
        } else if code == -26 {
            Error::MantissaOversized
        } else if code == -27 {
            Error::MantissaUndersized
        } else if code == -28 {
            Error::ExponentOversized
        } else if code == -29 {
            Error::ExponentUndersized
        } else if code == -30 {
            Error::XflOverflow
        } else if code == -31 {
            Error::NotIouAmount
        } else if code == -32 {
            Error::NotAnAmount
        } else if code == -33 {
            Error::CantReturnNegative
        } else if code == -34 {
            Error::NotAuthorized
        } else if code == -35 {
            Error::PreviousFailurePreventsRetry
        } else if code == -36 {
            Error::TooManyParams
        } else if code == -37 {
            Error::InvalidTxn
        } else if code == -38 {
            Error::ReserveInssuficient
        } else if code == -39 {
            Error::ComplexNotSupported
        } else if code == -40 {
            Error::DoesNotMatch
        } else if code == -41 {
            Error::InvalidKey
        } else if code == -42 {
            Error::NotAString
        } else if code == -43 {
            Error::MemOverlap
        } else if code == -44 {
            Error::TooManyStateModifications
        } else if code == -45 {
            Error::TooManyNamespaces
        } else {
            Error::InternalError
        }
    }

    /// Table lookup from a raw code to its kind.
    #[verifier::when_used_as_spec(spec_from_code)]
    pub fn from_code(code: i64) -> (e: Error)
        ensures
            e == Error::spec_from_code(code),
    {
        match code {
            -1 => Error::OutOfBounds,
            -2 => Error::InternalError,
            -3 => Error::TooBig,
            -4 => Error::TooSmall,
            -5 => Error::DoesntExist,
            -6 => Error::NoFreeSlots,
            -7 => Error::InvalidArgument,
            -8 => Error::AlreadySet,
            -9 => Error::PrerequisiteNotMet,
            -10 => Error::FeeTooLarge,
            -11 => Error::EmissionFailure,
            -12 => Error::TooManyNonces,
            -13 => Error::TooManyEmittedTxn,
            -14 => Error::NotImplemented,
            -15 => Error::InvalidAccount,
            -16 => Error::GuardViolation,
            -17 => Error::InvalidField,
            -18 => Error::ParseError,
            -19 => Error::RcRollback,
            -20 => Error::RcAccept,
            -21 => Error::NoSuchKeylet,
            -22 => Error::NotAnArray,
            -23 => Error::NotAnObject,
            -10024 => Error::InvalidFloat,
            -25 => Error::DivisionByZero,
            -26 => Error::MantissaOversized,
            -27 => Error::MantissaUndersized,
            -28 => Error::ExponentOversized,
            -29 => Error::ExponentUndersized,
            -30 => Error::XflOverflow,
            -31 => Error::NotIouAmount,
            -32 => Error::NotAnAmount,
            -33 => Error::CantReturnNegative,
            -34 => Error::NotAuthorized,
            -35 => Error::PreviousFailurePreventsRetry,
            -36 => Error::TooManyParams,
            -37 => Error::InvalidTxn,
            -38 => Error::ReserveInssuficient,
            -39 => Error::ComplexNotSupported,
            -40 => Error::DoesNotMatch,
            -41 => Error::InvalidKey,
            -42 => Error::NotAString,
            -43 => Error::MemOverlap,
            -44 => Error::TooManyStateModifications,
            -45 => Error::TooManyNamespaces,
            _ => Error::InternalError,
        }
    }
}

/// True of exactly the codes the table defines.
pub open spec fn is_error_code(code: i64) -> bool {
    (-45 <= code <= -1 && code != -24) || code == -10024
}

/// The table round-trips: every kind is recovered from its own code, and
/// every defined code is recovered from the kind it selects.
pub proof fn lemma_error_code_round_trip()
    ensures
        forall|e: Error| #[trigger] Error::spec_from_code(e.spec_code() as i64) == e,
        forall|c: i64|
            is_error_code(c) ==> (#[trigger] Error::spec_from_code(c)).spec_code() == c,
{
}

} // verus!
