use xrpl_hooks::error::Error;
use xrpl_hooks::keylet::KeyletParam;
use xrpl_hooks::keylet::KeyletType;
use xrpl_hooks::keylet::util_keylet;
use xrpl_hooks::keylet::KEYLET_ACCOUNT;
use xrpl_hooks::keylet::KEYLET_AMENDMENTS;
use xrpl_hooks::keylet::KEYLET_HOOK_STATE;
use xrpl_hooks::keylet::KEYLET_LINE;
use xrpl_hooks::keylet::KEYLET_PAYCHAN;
use xrpl_hooks::keylet::KEYLET_SKIP;
use xrpl_hooks::result::Result;

const ACC: [u8; 20] = [
    1, 2, 3, 4, 5, 6, 7, 8, 9, 10, 11, 12, 13, 14, 15, 16, 17, 18, 19, 20,
];
const ACC_2: [u8; 20] = [9; 20];
const KEY: [u8; 32] = [5; 32];
const CUR: [u8; 20] = [3; 20];

#[test]
fn account_request_shape() {
    match util_keylet(&KeyletType::Account(&ACC)) {
        Result::Okay(req) => {
            assert_eq!(req.tag, KEYLET_ACCOUNT);
            assert_eq!(req.params.len(), 1);
            assert_eq!(req.params[0], KeyletParam::Buf(ACC.to_vec()));
        }
        Result::Fail(_) => panic!("canonical components were refused"),
    }
}

#[test]
fn hook_state_request_shape() {
    match util_keylet(&KeyletType::HookState(&ACC, &KEY)) {
        Result::Okay(req) => {
            assert_eq!(req.tag, KEYLET_HOOK_STATE);
            assert_eq!(req.params.len(), 2);
            assert_eq!(req.params[0], KeyletParam::Buf(ACC.to_vec()));
            assert_eq!(req.params[1], KeyletParam::Buf(KEY.to_vec()));
        }
        Result::Fail(_) => panic!("canonical components were refused"),
    }
}

#[test]
fn line_request_shape() {
    match util_keylet(&KeyletType::Line(&ACC, &ACC_2, &CUR)) {
        Result::Okay(req) => {
            assert_eq!(req.tag, KEYLET_LINE);
            assert_eq!(req.params.len(), 3);
            assert_eq!(req.params[2], KeyletParam::Buf(CUR.to_vec()));
        }
        Result::Fail(_) => panic!("canonical components were refused"),
    }
}

#[test]
fn paychan_request_shape() {
    match util_keylet(&KeyletType::Paychan(&ACC, &ACC_2, 77)) {
        Result::Okay(req) => {
            assert_eq!(req.tag, KEYLET_PAYCHAN);
            assert_eq!(req.params.len(), 3);
            assert_eq!(req.params[2], KeyletParam::Num(77));
        }
        Result::Fail(_) => panic!("canonical components were refused"),
    }
}

#[test]
fn skip_request_shapes() {
    match util_keylet(&KeyletType::Skip(None)) {
        Result::Okay(req) => {
            assert_eq!(req.tag, KEYLET_SKIP);
            assert!(req.params.is_empty());
        }
        Result::Fail(_) => panic!("the bare skip list was refused"),
    }
    match util_keylet(&KeyletType::Skip(Some((70000, 1)))) {
        Result::Okay(req) => {
            assert_eq!(req.tag, KEYLET_SKIP);
            assert_eq!(req.params.len(), 2);
            assert_eq!(req.params[0], KeyletParam::Num(70000));
            assert_eq!(req.params[1], KeyletParam::Num(1));
        }
        Result::Fail(_) => panic!("the indexed skip list was refused"),
    }
}

#[test]
fn no_component_request_shape() {
    match util_keylet(&KeyletType::Amendments) {
        Result::Okay(req) => {
            assert_eq!(req.tag, KEYLET_AMENDMENTS);
            assert!(req.params.is_empty());
        }
        Result::Fail(_) => panic!("the amendments keylet was refused"),
    }
}

#[test]
fn wrong_size_rejected_before_the_call() {
    let short: [u8; 19] = [1; 19];
    match util_keylet(&KeyletType::Account(&short)) {
        Result::Okay(_) => panic!("an undersized account identifier passed"),
        Result::Fail(e) => assert_eq!(e, Error::InvalidArgument),
    }
    let long: [u8; 33] = [1; 33];
    match util_keylet(&KeyletType::HookState(&ACC, &long)) {
        Result::Okay(_) => panic!("an oversized state key passed"),
        Result::Fail(e) => assert_eq!(e, Error::InvalidArgument),
    }
    let not_a_keylet: [u8; 32] = [1; 32];
    match util_keylet(&KeyletType::Quality(&not_a_keylet, 0, 0)) {
        Result::Okay(_) => panic!("an undersized serialized keylet passed"),
        Result::Fail(e) => assert_eq!(e, Error::InvalidArgument),
    }
}

#[test]
fn identical_inputs_identical_requests() {
    let first_copy: [u8; 20] = ACC;
    let r1 = util_keylet(&KeyletType::Offer(&ACC, 42));
    let r2 = util_keylet(&KeyletType::Offer(&first_copy, 42));
    match (r1, r2) {
        (Result::Okay(a), Result::Okay(b)) => assert_eq!(a, b),
        _ => panic!("canonical components were refused"),
    }
}
