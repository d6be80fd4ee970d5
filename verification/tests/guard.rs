use xrpl_hooks::error::Error;
use xrpl_hooks::guard::GuardMeter;
use xrpl_hooks::result::Result;

#[test]
fn declared_bound_suffices() {
    let mut meter = GuardMeter::new();
    for _ in 0..5 {
        assert!(meter.hit(1, 5).is_ok());
    }
}

#[test]
fn bound_exceeded_is_fatal() {
    let mut meter = GuardMeter::new();
    for _ in 0..3 {
        assert!(meter.hit(1, 3).is_ok());
    }
    match meter.hit(1, 3) {
        Result::Okay(_) => panic!("a fourth run under a bound of three passed"),
        Result::Fail(e) => assert_eq!(e, Error::GuardViolation),
    }
}

#[test]
fn zero_bound_refuses_first_hit() {
    let mut meter = GuardMeter::new();
    match meter.hit(9, 0) {
        Result::Okay(_) => panic!("a zero bound admitted an iteration"),
        Result::Fail(e) => assert_eq!(e, Error::GuardViolation),
    }
}

#[test]
fn redeclared_bound_is_a_violation() {
    let mut meter = GuardMeter::new();
    assert!(meter.hit(4, 10).is_ok());
    match meter.hit(4, 11) {
        Result::Okay(_) => panic!("one token accepted two bounds"),
        Result::Fail(e) => assert_eq!(e, Error::GuardViolation),
    }
}

#[test]
fn tokens_do_not_share_counts() {
    let mut meter = GuardMeter::new();
    for _ in 0..2 {
        assert!(meter.hit(1, 2).is_ok());
    }
    // token 1 is spent; token 2 still has its full bound
    for _ in 0..2 {
        assert!(meter.hit(2, 2).is_ok());
    }
    assert!(meter.hit(1, 2).is_err());
    assert!(meter.hit(2, 2).is_err());
}
