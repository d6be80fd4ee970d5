//! The two-variant outcome every hook call produces, and the
//! classification of raw return codes into it.
//!
//! A host routine never panics and never throws: it answers with one
//! signed 64-bit code.  `result_i64` turns that code into a typed
//! outcome, and `to_bool` does the same for the routines whose only
//! valid successes are 0 and 1.  A caller then consumes the outcome in
//! one of three sanctioned ways: propagate it, ask for `optional()`
//! (absent on "does not exist", fatal on anything else), or force the
//! value out with `unwrap`/`expect`.  Forcing the value out of an error
//! terminates the whole invocation, so the verified library admits those
//! calls only where the outcome is known to allow them; the unverified
//! dispatcher around the library checks first and performs the
//! terminating rollback itself when the check fails.

use vstd::prelude::*;

use crate::error::Error;

verus! {

/// Success carrying a payload, or one kind of the shared error taxonomy.
///
/// This stands in for the standard library's result type because the
/// sandbox's calling convention knows no other error channel than the
/// shared taxonomy.
#[derive(Clone, PartialEq, Eq, Debug)]
pub enum Result<T> {
    /// The call succeeded with this payload.
    Okay(T),
    /// The call failed with this kind.
    Fail(Error),
}

impl<T> Result<T> {
    /// True exactly of a success.
    pub fn is_ok(&self) -> (r: bool)
        ensures
            r == (self is Okay),
    {
        match self {
            Result::Okay(_) => true,
            Result::Fail(_) => false,
        }
    }

    /// True exactly of a failure.
    pub fn is_err(&self) -> (r: bool)
        ensures
            r == (self is Fail),
    {
        match self {
            Result::Okay(_) => false,
            Result::Fail(_) => true,
        }
    }

    /// The success payload.
    ///
    /// On an error the layer rolls the invocation back instead of
    /// returning; the verified library therefore admits this call only
    /// on a success, and the dispatcher performs the rollback for the
    /// other case.
    pub fn unwrap(self) -> (r: T)
        requires
            self is Okay,
        ensures
            self == Result::Okay(r),
    {
        match self {
            Result::Okay(v) => v,
            Result::Fail(_) => vstd::pervasive::unreached(),
        }
    }

    /// The success payload, with a diagnostic message for the rollback
    /// that the dispatcher emits in the error case.
    pub fn expect(self, msg: &[u8]) -> (r: T)
        requires
            self is Okay,
        ensures
            self == Result::Okay(r),
    {
        let _ = msg;
        match self {
            Result::Okay(v) => v,
            Result::Fail(_) => vstd::pervasive::unreached(),
        }
    }

    /// The success payload, or `None` when the object was not found.
    ///
    /// Only `Error::DoesntExist` converts to an absent value; every
    /// other error rolls the invocation back, so the verified library
    /// admits this call only on a success or on that one error kind.
    pub fn optional(self) -> (r: Option<T>)
        requires
            self is Okay || self == Result::<T>::Fail(Error::DoesntExist),
        ensures
            self matches Result::Okay(v) ==> r == Option::Some(v),
            self is Fail ==> r is None,
    {
        match self {
            Result::Okay(v) => Option::Some(v),
            Result::Fail(_) => Option::None,
        }
    }
}

/// Classification of a raw return code whose success payload is the
/// code itself: non-negative codes succeed unchanged, negative codes
/// select an error kind by table lookup over the whole 64-bit code.
pub fn result_i64(res: i64) -> (r: Result<i64>)
    ensures
        res >= 0 ==> r == Result::Okay(res),
        res < 0 ==> r == Result::<i64>::Fail(Error::spec_from_code(res)),
{
    if res >= 0 {
        Result::Okay(res)
    } else {
        Result::Fail(Error::from_code(res))
    }
}

/// Classification of a raw return code from a routine whose only valid
/// successes are 0 and 1: those two map to `false` and `true`, a
/// negative code selects its error kind, and any other non-negative
/// code is itself an internal error.
pub fn to_bool(res: i64) -> (r: Result<bool>)
    ensures
        res == 0 ==> r == Result::Okay(false),
        res == 1 ==> r == Result::Okay(true),
        res < 0 ==> r == Result::<bool>::Fail(Error::spec_from_code(res)),
        res > 1 ==> r == Result::<bool>::Fail(Error::InternalError),
{
    if res == 0 {
        Result::Okay(false)
    } else if res == 1 {
        Result::Okay(true)
    } else if res < 0 {
        Result::Fail(Error::from_code(res))
    } else {
        Result::Fail(Error::InternalError)
    }
}

} // verus!
