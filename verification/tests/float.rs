use xrpl_hooks::error::Error;
use xrpl_hooks::float::compare_mask;
use xrpl_hooks::float::float_compare;
use xrpl_hooks::float::float_mantissa;
use xrpl_hooks::float::float_negate;
use xrpl_hooks::float::float_one;
use xrpl_hooks::float::float_set;
use xrpl_hooks::float::float_sign;
use xrpl_hooks::float::float_sto;
use xrpl_hooks::float::float_sto_set;
use xrpl_hooks::float::result_xfl;
use xrpl_hooks::float::XFLCompareMode;
use xrpl_hooks::float::XFL;
use xrpl_hooks::result::Result;

const CUR: [u8; 20] = [2; 20];
const ISS: [u8; 20] = [3; 20];

#[test]
fn one_is_canonical() {
    let one = float_one();
    assert_eq!(one, XFL(6089866696204910592));
    assert_eq!(float_mantissa(one), 1000000000000000);
    assert_eq!(float_sign(one), Result::Okay(false));
}

#[test]
fn set_builds_one() {
    assert_eq!(float_set(0, 1), Result::Okay(float_one()));
    assert_eq!(float_set(-15, 1000000000000000), Result::Okay(float_one()));
}

#[test]
fn set_zero_mantissa_is_canonical_zero() {
    assert_eq!(float_set(0, 0), Result::Okay(XFL(0)));
    assert_eq!(float_set(80, 0), Result::Okay(XFL(0)));
    assert_eq!(float_mantissa(XFL(0)), 0);
    assert_eq!(float_sign(XFL(0)), Result::Okay(false));
}

#[test]
fn set_normalizes_by_truncation() {
    // seventeen digits: the last is dropped toward zero
    let a = float_set(0, 10000000000000019);
    let b = float_set(1, 1000000000000001);
    assert_eq!(a, b);
    assert!(a.is_ok());
}

#[test]
fn set_rejects_out_of_range_exponents() {
    assert_eq!(
        float_set(81, 1000000000000000),
        Result::Fail(Error::ExponentOversized)
    );
    assert_eq!(
        float_set(-97, 1000000000000000),
        Result::Fail(Error::ExponentUndersized)
    );
    // a small mantissa lowers the exponent during normalization
    assert_eq!(float_set(-96, 1), Result::Fail(Error::ExponentUndersized));
}

#[test]
fn set_keeps_the_sign() {
    let minus_one = float_set(0, -1);
    match minus_one {
        Result::Okay(x) => {
            assert_eq!(float_sign(x), Result::Okay(true));
            assert_eq!(float_mantissa(x), 1000000000000000);
        }
        Result::Fail(_) => panic!("a plain negative mantissa was refused"),
    }
}

#[test]
fn negate_flips_and_restores() {
    let one = float_one();
    let minus_one = match float_negate(one) {
        Result::Okay(x) => x,
        Result::Fail(_) => panic!("negation of one was refused"),
    };
    assert_eq!(float_sign(minus_one), Result::Okay(true));
    assert_eq!(float_negate(minus_one), Result::Okay(one));
    assert_eq!(float_negate(XFL(0)), Result::Okay(XFL(0)));
    assert_eq!(float_negate(XFL(-3)), Result::Fail(Error::InvalidFloat));
}

#[test]
fn compare_single_modes() {
    let five = match float_set(0, 5) {
        Result::Okay(x) => x,
        Result::Fail(_) => panic!("five was refused"),
    };
    let seven = match float_set(0, 7) {
        Result::Okay(x) => x,
        Result::Fail(_) => panic!("seven was refused"),
    };
    assert_eq!(
        float_compare(five, seven, XFLCompareMode::Less),
        Result::Okay(true)
    );
    assert_eq!(
        float_compare(five, seven, XFLCompareMode::Greater),
        Result::Okay(false)
    );
    assert_eq!(
        float_compare(five, five, XFLCompareMode::Equal),
        Result::Okay(true)
    );
    assert_eq!(
        float_compare(seven, five, XFLCompareMode::Greater),
        Result::Okay(true)
    );
    // differing magnitudes across exponents and signs
    let fifty = match float_set(1, 5) {
        Result::Okay(x) => x,
        Result::Fail(_) => panic!("fifty was refused"),
    };
    assert_eq!(
        float_compare(seven, fifty, XFLCompareMode::Less),
        Result::Okay(true)
    );
    let minus_seven = match float_set(0, -7) {
        Result::Okay(x) => x,
        Result::Fail(_) => panic!("minus seven was refused"),
    };
    assert_eq!(
        float_compare(minus_seven, five, XFLCompareMode::Less),
        Result::Okay(true)
    );
    assert_eq!(
        float_compare(minus_seven, XFL(0), XFLCompareMode::Less),
        Result::Okay(true)
    );
    assert_eq!(
        float_compare(XFL(0), five, XFLCompareMode::Less),
        Result::Okay(true)
    );
}

#[test]
fn compare_masks_compose() {
    assert_eq!(compare_mask(XFLCompareMode::Less), 1);
    assert_eq!(compare_mask(XFLCompareMode::Equal), 2);
    assert_eq!(compare_mask(XFLCompareMode::Greater), 4);
    assert_eq!(compare_mask(XFLCompareMode::NotEqual), 1 | 4);
    assert_eq!(compare_mask(XFLCompareMode::LessOrEqual), 1 | 2);
    assert_eq!(compare_mask(XFLCompareMode::GreaterOrEqual), 4 | 2);
}

#[test]
fn not_equal_is_less_or_greater() {
    let values = [
        float_set(0, 5),
        float_set(0, 7),
        float_set(1, 5),
        float_set(0, -5),
        Result::Okay(XFL(0)),
    ];
    for a in &values {
        for b in &values {
            let (a, b) = match (a, b) {
                (Result::Okay(a), Result::Okay(b)) => (*a, *b),
                _ => panic!("a test value was refused"),
            };
            let ne = float_compare(a, b, XFLCompareMode::NotEqual);
            let lt = float_compare(a, b, XFLCompareMode::Less);
            let gt = float_compare(a, b, XFLCompareMode::Greater);
            match (ne, lt, gt) {
                (Result::Okay(ne), Result::Okay(lt), Result::Okay(gt)) => {
                    assert_eq!(ne, lt || gt);
                }
                _ => panic!("comparison of canonical values failed"),
            }
        }
    }
}

#[test]
fn compare_refuses_junk() {
    assert_eq!(
        float_compare(XFL(17), float_one(), XFLCompareMode::Less),
        Result::Fail(Error::InvalidFloat)
    );
}

#[test]
fn sto_round_trips_with_every_header_shape() {
    let one = float_one();
    let minus_one = match float_negate(one) {
        Result::Okay(x) => x,
        Result::Fail(_) => panic!("negation of one was refused"),
    };
    // no header; nibble header; field extension; type extension; both
    for field_code in [0u32, 0x60001, 0x6001E, 0x110005, 0x11001E] {
        for value in [one, minus_one, XFL(0)] {
            let bytes = match float_sto(&CUR, &ISS, value, field_code) {
                Result::Okay(v) => v,
                Result::Fail(_) => panic!("serialization of a canonical value was refused"),
            };
            assert_eq!(float_sto_set(&bytes), Result::Okay(value));
        }
    }
}

#[test]
fn sto_header_bytes() {
    let bytes = match float_sto(&CUR, &ISS, float_one(), 0x60001) {
        Result::Okay(v) => v,
        Result::Fail(_) => panic!("serialization of a canonical value was refused"),
    };
    assert_eq!(bytes.len(), 49);
    assert_eq!(bytes[0], 0x61);
    assert_eq!(&bytes[9..29], &CUR);
    assert_eq!(&bytes[29..49], &ISS);
    let headerless = match float_sto(&CUR, &ISS, float_one(), 0) {
        Result::Okay(v) => v,
        Result::Fail(_) => panic!("serialization of a canonical value was refused"),
    };
    assert_eq!(headerless.len(), 48);
}

#[test]
fn sto_rejects_bad_arguments() {
    let short: [u8; 19] = [2; 19];
    assert_eq!(
        float_sto(&short, &ISS, float_one(), 0),
        Result::Fail(Error::InvalidArgument)
    );
    assert_eq!(
        float_sto(&CUR, &ISS, float_one(), 0x1000000),
        Result::Fail(Error::InvalidArgument)
    );
    assert_eq!(
        float_sto(&CUR, &ISS, XFL(-9), 0),
        Result::Fail(Error::InvalidFloat)
    );
}

#[test]
fn sto_set_rejects_bad_buffers() {
    // a native amount: marker bit clear
    let mut native = [0u8; 48];
    native[0] = 0x40;
    assert_eq!(float_sto_set(&native), Result::Fail(Error::NotIouAmount));
    // a wrong length
    let junk = [0u8; 30];
    assert_eq!(float_sto_set(&junk), Result::Fail(Error::ParseError));
    // a marker bit with a non-canonical mantissa
    let mut bad = [0u8; 48];
    bad[0] = 0x80;
    bad[7] = 0x01;
    assert_eq!(float_sto_set(&bad), Result::Fail(Error::InvalidFloat));
}

#[test]
fn raw_code_to_float() {
    assert_eq!(result_xfl(6089866696204910592), Result::Okay(float_one()));
    assert_eq!(result_xfl(-25), Result::Fail(Error::DivisionByZero));
}
