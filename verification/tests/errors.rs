use xrpl_hooks::error::Error;
use xrpl_hooks::result::to_bool;
use xrpl_hooks::result::result_i64;
use xrpl_hooks::result::Result;

#[test]
fn code_table_round_trip() {
    let kinds = [
        Error::OutOfBounds,
        Error::InternalError,
        Error::TooBig,
        Error::TooSmall,
        Error::DoesntExist,
        Error::NoFreeSlots,
        Error::InvalidArgument,
        Error::AlreadySet,
        Error::PrerequisiteNotMet,
        Error::FeeTooLarge,
        Error::EmissionFailure,
        Error::TooManyNonces,
        Error::TooManyEmittedTxn,
        Error::NotImplemented,
        Error::InvalidAccount,
        Error::GuardViolation,
        Error::InvalidField,
        Error::ParseError,
        Error::RcRollback,
        Error::RcAccept,
        Error::NoSuchKeylet,
        Error::NotAnArray,
        Error::NotAnObject,
        Error::InvalidFloat,
        Error::DivisionByZero,
        Error::MantissaOversized,
        Error::MantissaUndersized,
        Error::ExponentOversized,
        Error::ExponentUndersized,
        Error::XflOverflow,
        Error::NotIouAmount,
        Error::NotAnAmount,
        Error::CantReturnNegative,
        Error::NotAuthorized,
        Error::PreviousFailurePreventsRetry,
        Error::TooManyParams,
        Error::InvalidTxn,
        Error::ReserveInssuficient,
        Error::ComplexNotSupported,
        Error::DoesNotMatch,
        Error::InvalidKey,
        Error::NotAString,
        Error::MemOverlap,
        Error::TooManyStateModifications,
        Error::TooManyNamespaces,
    ];
    for kind in kinds {
        assert!(kind.code() < 0);
        assert_eq!(Error::from_code(kind.code() as i64), kind);
    }
}

#[test]
fn specific_codes() {
    assert_eq!(Error::OutOfBounds.code(), -1);
    assert_eq!(Error::DoesntExist.code(), -5);
    assert_eq!(Error::GuardViolation.code(), -16);
    assert_eq!(Error::InvalidFloat.code(), -10024);
    assert_eq!(Error::DivisionByZero.code(), -25);
    assert_eq!(Error::TooManyNamespaces.code(), -45);
}

#[test]
fn unknown_code_falls_back() {
    assert_eq!(Error::from_code(-24), Error::InternalError);
    assert_eq!(Error::from_code(-9999), Error::InternalError);
    assert_eq!(Error::from_code(7), Error::InternalError);
}

#[test]
fn out_of_range_codes_fall_back() {
    // the low 32 bits of these codes spell defined kinds; the lookup
    // must not read them that way
    assert_eq!(Error::from_code(-4294967297), Error::InternalError);
    assert_eq!(Error::from_code(-4294977320), Error::InternalError);
    assert_eq!(Error::from_code(i64::MIN), Error::InternalError);
    match result_i64(-4294967297) {
        Result::Okay(_) => panic!("error code classified as a success"),
        Result::Fail(e) => assert_eq!(e, Error::InternalError),
    }
    assert_eq!(to_bool(-4294967297), Result::Fail(Error::InternalError));
}

#[test]
fn map_success_is_identity() {
    for code in [0i64, 1, 34, 100000000] {
        match result_i64(code) {
            Result::Okay(v) => assert_eq!(v, code),
            Result::Fail(_) => panic!("success code classified as an error"),
        }
    }
}

#[test]
fn map_negative_selects_kind() {
    match result_i64(-5) {
        Result::Okay(_) => panic!("error code classified as a success"),
        Result::Fail(e) => assert_eq!(e, Error::DoesntExist),
    }
    match result_i64(-10024) {
        Result::Okay(_) => panic!("error code classified as a success"),
        Result::Fail(e) => assert_eq!(e, Error::InvalidFloat),
    }
}

#[test]
fn to_bool_strictness() {
    assert_eq!(to_bool(0), Result::Okay(false));
    assert_eq!(to_bool(1), Result::Okay(true));
    assert_eq!(to_bool(2), Result::Fail(Error::InternalError));
    assert_eq!(to_bool(-7), Result::Fail(Error::InvalidArgument));
}

#[test]
fn missing_state_is_absent_not_fatal() {
    let looked_up: Result<i64> = result_i64(Error::DoesntExist.code() as i64);
    assert_eq!(looked_up, Result::Fail(Error::DoesntExist));
    assert_eq!(looked_up.optional(), None);
    let found: Result<i64> = result_i64(32);
    assert_eq!(found.optional(), Some(32));
}

#[test]
fn consumption_primitives() {
    let ok: Result<u32> = Result::Okay(9);
    assert!(ok.is_ok());
    assert!(!ok.is_err());
    assert_eq!(ok.clone().unwrap(), 9);
    assert_eq!(ok.expect(b"value owed"), 9);
    let bad: Result<u32> = Result::Fail(Error::TooBig);
    assert!(bad.is_err());
    assert!(!bad.is_ok());
}
