//! The keylet builder: from a tagged key request to the one fixed-arity
//! derivation call the host accepts.
//!
//! A keylet names one of about two dozen ledger-object kinds.  The host
//! derives the canonical 34-byte key through a single routine that takes
//! a type tag, up to three byte components and up to two numeric
//! arguments, with zero filled into every unused slot.  `util_keylet`
//! maps each request variant onto that call shape and checks, before
//! anything reaches the host, that every supplied component has its
//! variant's fixed size; a wrong size is refused as
//! `Error::InvalidArgument` without a call.  The builder is a pure
//! function of the component bytes, so identical inputs always yield the
//! identical call, and the host's derivation being deterministic, the
//! identical 34-byte key.

use vstd::prelude::*;

use crate::error::Error;
use crate::result::Result;

verus! {

/// Canonical length of an account identifier component.
pub const ACC_ID_LEN: usize = 20;

/// Canonical length of a currency code component.
pub const CURRENCY_CODE_LEN: usize = 20;

/// Canonical length of a hash component.
pub const HASH_LEN: usize = 32;

/// Canonical length of a state key component.
pub const STATE_KEY_LEN: usize = 32;

/// Canonical length of a namespace component.
pub const NAMESPACE_LEN: usize = 32;

/// Length of a serialized keylet, as a component and as the output.
pub const KEYLET_LEN: usize = 34;

/// Type tag for a hook keylet.
pub const KEYLET_HOOK: u32 = 1;

/// Type tag for a hook-state keylet.
pub const KEYLET_HOOK_STATE: u32 = 2;

/// Type tag for an account keylet.
pub const KEYLET_ACCOUNT: u32 = 3;

/// Type tag for the amendments keylet.
pub const KEYLET_AMENDMENTS: u32 = 4;

/// Type tag for a child keylet.
pub const KEYLET_CHILD: u32 = 5;

/// Type tag for a skip-list keylet.
pub const KEYLET_SKIP: u32 = 6;

/// Type tag for the fees keylet.
pub const KEYLET_FEES: u32 = 7;

/// Type tag for the negative-UNL keylet.
pub const KEYLET_NEGATIVE_UNL: u32 = 8;

/// Type tag for a trust-line keylet.
pub const KEYLET_LINE: u32 = 9;

/// Type tag for an offer keylet.
pub const KEYLET_OFFER: u32 = 10;

/// Type tag for a quality-directory keylet.
pub const KEYLET_QUALITY: u32 = 11;

/// Type tag for the emitted-transaction directory keylet.
pub const KEYLET_EMITTED_DIR: u32 = 12;

/// Type tag for a signer-list keylet.
pub const KEYLET_SIGNERS: u32 = 14;

/// Type tag for a check keylet.
pub const KEYLET_CHECK: u32 = 15;

/// Type tag for a deposit-preauthorization keylet.
pub const KEYLET_DEPOSIT_PREAUTH: u32 = 16;

/// Type tag for an unchecked keylet.
pub const KEYLET_UNCHECKED: u32 = 17;

/// Type tag for an owner-directory keylet.
pub const KEYLET_OWNER_DIR: u32 = 18;

/// Type tag for a directory-page keylet.
pub const KEYLET_PAGE: u32 = 19;

/// Type tag for an escrow keylet.
pub const KEYLET_ESCROW: u32 = 20;

/// Type tag for a payment-channel keylet.
pub const KEYLET_PAYCHAN: u32 = 21;

/// Type tag for an emitted-transaction keylet.
pub const KEYLET_EMITTED_TXN: u32 = 22;

/// Type tag for a non-fungible-token offer keylet.
pub const KEYLET_NFT_OFFER: u32 = 23;

/// Type tag for a hook-definition keylet.
pub const KEYLET_HOOK_DEFINITION: u32 = 24;

/// Type tag for a hook-state directory keylet.
pub const KEYLET_HOOK_STATE_DIR: u32 = 25;

/// One keylet request variant, tagging the components it derives from.
///
/// Each variant has a fixed arity; component buffers are borrowed from
/// the caller for the single call.
#[derive(Clone, Copy)]
pub enum KeyletType<'a> {
    /// The hook object of an account.
    Hook(&'a [u8]),
    /// One hook-state entry: account and 32-byte state key.
    HookState(&'a [u8], &'a [u8]),
    /// The root object of an account.
    Account(&'a [u8]),
    /// The amendments list of the ledger.
    Amendments,
    /// A child object under a 32-byte key.
    Child(&'a [u8]),
    /// The skip list, optionally at a ledger index and page.
    Skip(Option<(u32, u32)>),
    /// The fee settings of the ledger.
    Fees,
    /// The negative-UNL object of the ledger.
    NegativeUnl,
    /// A trust line: high account, low account and currency code.
    Line(&'a [u8], &'a [u8], &'a [u8]),
    /// An offer of an account under a sequence number.
    Offer(&'a [u8], u32),
    /// A quality directory over a 34-byte serialized keylet and the two
    /// halves of the quality bits.
    Quality(&'a [u8], u32, u32),
    /// The emitted-transaction directory.
    EmittedDir,
    /// The signer list of an account.
    Signers(&'a [u8]),
    /// A check of an account under a sequence number.
    Check(&'a [u8], u32),
    /// A deposit preauthorization from one account to another.
    DepositPreauth(&'a [u8], &'a [u8]),
    /// An unchecked object under a 32-byte key.
    Unchecked(&'a [u8]),
    /// The owner directory of an account.
    OwnerDir(&'a [u8]),
    /// A directory page under a 32-byte key and the two halves of the
    /// page index.
    Page(&'a [u8], u32, u32),
    /// An escrow of an account under a sequence number.
    Escrow(&'a [u8], u32),
    /// A payment channel between two accounts under a sequence number.
    Paychan(&'a [u8], &'a [u8], u32),
    /// An emitted transaction under its 32-byte hash.
    EmittedTxn(&'a [u8]),
    /// A non-fungible-token offer of an account under a sequence number.
    NFTOffer(&'a [u8], u32),
    /// A hook definition under its 32-byte hash.
    HookDefinition(&'a [u8]),
    /// The hook-state directory of an account and a 32-byte namespace.
    HookStateDir(&'a [u8], &'a [u8]),
}

/// One positional argument of the derivation call: a byte component
/// that expands to a pointer/length pair, or a plain number.
#[derive(PartialEq, Eq, Debug)]
pub enum KeyletParam {
    /// A byte component, passed as pointer and length.
    Buf(Vec<u8>),
    /// A numeric argument, passed as one scalar.
    Num(u32),
}

/// The derivation call `util_keylet` decides on: the type tag and the
/// positional arguments, in call order.  Slots after the listed
/// arguments are zero-filled by the shim that performs the call.
#[derive(PartialEq, Eq, Debug)]
pub struct KeyletRequest {
    /// The keylet type tag, first scalar of the call.
    pub tag: u32,
    /// The positional arguments following the tag.
    pub params: Vec<KeyletParam>,
}

/// The content of one positional argument.
pub enum KeyletParamData {
    /// The bytes of a component.
    Buf(Seq<u8>),
    /// A numeric argument.
    Num(u32),
}

impl View for KeyletParam {
    type V = KeyletParamData;

    open spec fn view(&self) -> KeyletParamData {
        match self {
            KeyletParam::Buf(v) => KeyletParamData::Buf(v@),
            KeyletParam::Num(n) => KeyletParamData::Num(*n),
        }
    }
}

impl View for KeyletRequest {
    type V = (u32, Seq<KeyletParamData>);

    open spec fn view(&self) -> (u32, Seq<KeyletParamData>) {
        (self.tag, self.params@.map_values(|p: KeyletParam| p@))
    }
}

/// The content of a keylet request: each variant with the bytes of its
/// components.  Two requests with equal content are the same request,
/// whatever buffers carried the components.
pub enum KeyletData {
    /// See `KeyletType::Hook`.
    Hook(Seq<u8>),
    /// See `KeyletType::HookState`.
    HookState(Seq<u8>, Seq<u8>),
    /// See `KeyletType::Account`.
    Account(Seq<u8>),
    /// See `KeyletType::Amendments`.
    Amendments,
    /// See `KeyletType::Child`.
    Child(Seq<u8>),
    /// See `KeyletType::Skip`.
    Skip(Option<(u32, u32)>),
    /// See `KeyletType::Fees`.
    Fees,
    /// See `KeyletType::NegativeUnl`.
    NegativeUnl,
    /// See `KeyletType::Line`.
    Line(Seq<u8>, Seq<u8>, Seq<u8>),
    /// See `KeyletType::Offer`.
    Offer(Seq<u8>, u32),
    /// See `KeyletType::Quality`.
    Quality(Seq<u8>, u32, u32),
    /// See `KeyletType::EmittedDir`.
    EmittedDir,
    /// See `KeyletType::Signers`.
    Signers(Seq<u8>),
    /// See `KeyletType::Check`.
    Check(Seq<u8>, u32),
    /// See `KeyletType::DepositPreauth`.
    DepositPreauth(Seq<u8>, Seq<u8>),
    /// See `KeyletType::Unchecked`.
    Unchecked(Seq<u8>),
    /// See `KeyletType::OwnerDir`.
    OwnerDir(Seq<u8>),
    /// See `KeyletType::Page`.
    Page(Seq<u8>, u32, u32),
    /// See `KeyletType::Escrow`.
    Escrow(Seq<u8>, u32),
    /// See `KeyletType::Paychan`.
    Paychan(Seq<u8>, Seq<u8>, u32),
    /// See `KeyletType::EmittedTxn`.
    EmittedTxn(Seq<u8>),
    /// See `KeyletType::NFTOffer`.
    NFTOffer(Seq<u8>, u32),
    /// See `KeyletType::HookDefinition`.
    HookDefinition(Seq<u8>),
    /// See `KeyletType::HookStateDir`.
    HookStateDir(Seq<u8>, Seq<u8>),
}

impl<'a> View for KeyletType<'a> {
    type V = KeyletData;

    open spec fn view(&self) -> KeyletData {
        match self {
            KeyletType::Hook(a) => KeyletData::Hook(a@),
            KeyletType::HookState(a, k) => KeyletData::HookState(a@, k@),
            KeyletType::Account(a) => KeyletData::Account(a@),
            KeyletType::Amendments => KeyletData::Amendments,
            KeyletType::Child(h) => KeyletData::Child(h@),
            KeyletType::Skip(o) => KeyletData::Skip(*o),
            KeyletType::Fees => KeyletData::Fees,
            KeyletType::NegativeUnl => KeyletData::NegativeUnl,
            KeyletType::Line(a, b, c) => KeyletData::Line(a@, b@, c@),
            KeyletType::Offer(a, n) => KeyletData::Offer(a@, *n),
            KeyletType::Quality(q, hi, lo) => KeyletData::Quality(q@, *hi, *lo),
            KeyletType::EmittedDir => KeyletData::EmittedDir,
            KeyletType::Signers(a) => KeyletData::Signers(a@),
            KeyletType::Check(a, n) => KeyletData::Check(a@, *n),
            KeyletType::DepositPreauth(a, b) => KeyletData::DepositPreauth(a@, b@),
            KeyletType::Unchecked(h) => KeyletData::Unchecked(h@),
            KeyletType::OwnerDir(a) => KeyletData::OwnerDir(a@),
            KeyletType::Page(h, hi, lo) => KeyletData::Page(h@, *hi, *lo),
            KeyletType::Escrow(a, n) => KeyletData::Escrow(a@, *n),
            KeyletType::Paychan(a, b, n) => KeyletData::Paychan(a@, b@, *n),
            KeyletType::EmittedTxn(h) => KeyletData::EmittedTxn(h@),
            KeyletType::NFTOffer(a, n) => KeyletData::NFTOffer(a@, *n),
            KeyletType::HookDefinition(h) => KeyletData::HookDefinition(h@),
            KeyletType::HookStateDir(a, ns) => KeyletData::HookStateDir(a@, ns@),
        }
    }
}

/// The derivation call owed to a request, over its content alone: the
/// tag and argument list when every component has its variant's fixed
/// size, and `Error::InvalidArgument` otherwise.
pub open spec fn keylet_request_spec(d: KeyletData) -> Result<(u32, Seq<KeyletParamData>)> {
    match d {
        KeyletData::Hook(a) => if a.len() == ACC_ID_LEN {
            Result::Okay((KEYLET_HOOK, seq![KeyletParamData::Buf(a)]))
        } else {
            Result::Fail(Error::InvalidArgument)
        },
        KeyletData::HookState(a, k) => if a.len() == ACC_ID_LEN && k.len() == STATE_KEY_LEN {
            Result::Okay((KEYLET_HOOK_STATE, seq![KeyletParamData::Buf(a), KeyletParamData::Buf(k)]))
        } else {
            Result::Fail(Error::InvalidArgument)
        },
        KeyletData::Account(a) => if a.len() == ACC_ID_LEN {
            Result::Okay((KEYLET_ACCOUNT, seq![KeyletParamData::Buf(a)]))
        } else {
            Result::Fail(Error::InvalidArgument)
        },
        KeyletData::Amendments => Result::Okay((KEYLET_AMENDMENTS, Seq::empty())),
        KeyletData::Child(h) => if h.len() == HASH_LEN {
            Result::Okay((KEYLET_CHILD, seq![KeyletParamData::Buf(h)]))
        } else {
            Result::Fail(Error::InvalidArgument)
        },
        KeyletData::Skip(o) => match o {
            Option::None => Result::Okay((KEYLET_SKIP, Seq::empty())),
            Option::Some((ledger_index, num)) => Result::Okay(
                (KEYLET_SKIP, seq![KeyletParamData::Num(ledger_index), KeyletParamData::Num(num)]),
            ),
        },
        KeyletData::Fees => Result::Okay((KEYLET_FEES, Seq::empty())),
        KeyletData::NegativeUnl => Result::Okay((KEYLET_NEGATIVE_UNL, Seq::empty())),
        KeyletData::Line(a, b, c) => if a.len() == ACC_ID_LEN && b.len() == ACC_ID_LEN && c.len()
            == CURRENCY_CODE_LEN {
            Result::Okay(
                (
                    KEYLET_LINE,
                    seq![
                        KeyletParamData::Buf(a),
                        KeyletParamData::Buf(b),
                        KeyletParamData::Buf(c),
                    ],
                ),
            )
        } else {
            Result::Fail(Error::InvalidArgument)
        },
        KeyletData::Offer(a, n) => if a.len() == ACC_ID_LEN {
            Result::Okay((KEYLET_OFFER, seq![KeyletParamData::Buf(a), KeyletParamData::Num(n)]))
        } else {
            Result::Fail(Error::InvalidArgument)
        },
        KeyletData::Quality(q, hi, lo) => if q.len() == KEYLET_LEN {
            Result::Okay(
                (
                    KEYLET_QUALITY,
                    seq![
                        KeyletParamData::Buf(q),
                        KeyletParamData::Num(hi),
                        KeyletParamData::Num(lo),
                    ],
                ),
            )
        } else {
            Result::Fail(Error::InvalidArgument)
        },
        KeyletData::EmittedDir => Result::Okay((KEYLET_EMITTED_DIR, Seq::empty())),
        KeyletData::Signers(a) => if a.len() == ACC_ID_LEN {
            Result::Okay((KEYLET_SIGNERS, seq![KeyletParamData::Buf(a)]))
        } else {
            Result::Fail(Error::InvalidArgument)
        },
        KeyletData::Check(a, n) => if a.len() == ACC_ID_LEN {
            Result::Okay((KEYLET_CHECK, seq![KeyletParamData::Buf(a), KeyletParamData::Num(n)]))
        } else {
            Result::Fail(Error::InvalidArgument)
        },
        KeyletData::DepositPreauth(a, b) => if a.len() == ACC_ID_LEN && b.len() == ACC_ID_LEN {
            Result::Okay(
                (KEYLET_DEPOSIT_PREAUTH, seq![KeyletParamData::Buf(a), KeyletParamData::Buf(b)]),
            )
        } else {
            Result::Fail(Error::InvalidArgument)
        },
        KeyletData::Unchecked(h) => if h.len() == HASH_LEN {
            Result::Okay((KEYLET_UNCHECKED, seq![KeyletParamData::Buf(h)]))
        } else {
            Result::Fail(Error::InvalidArgument)
        },
        KeyletData::OwnerDir(a) => if a.len() == ACC_ID_LEN {
            Result::Okay((KEYLET_OWNER_DIR, seq![KeyletParamData::Buf(a)]))
        } else {
            Result::Fail(Error::InvalidArgument)
        },
        KeyletData::Page(h, hi, lo) => if h.len() == HASH_LEN {
            Result::Okay(
                (
                    KEYLET_PAGE,
                    seq![
                        KeyletParamData::Buf(h),
                        KeyletParamData::Num(hi),
                        KeyletParamData::Num(lo),
                    ],
                ),
            )
        } else {
            Result::Fail(Error::InvalidArgument)
        },
        KeyletData::Escrow(a, n) => if a.len() == ACC_ID_LEN {
            Result::Okay((KEYLET_ESCROW, seq![KeyletParamData::Buf(a), KeyletParamData::Num(n)]))
        } else {
            Result::Fail(Error::InvalidArgument)
        },
        KeyletData::Paychan(a, b, n) => if a.len() == ACC_ID_LEN && b.len() == ACC_ID_LEN {
            Result::Okay(
                (
                    KEYLET_PAYCHAN,
                    seq![
                        KeyletParamData::Buf(a),
                        KeyletParamData::Buf(b),
                        KeyletParamData::Num(n),
                    ],
                ),
            )
        } else {
            Result::Fail(Error::InvalidArgument)
        },
        KeyletData::EmittedTxn(h) => if h.len() == HASH_LEN {
            Result::Okay((KEYLET_EMITTED_TXN, seq![KeyletParamData::Buf(h)]))
        } else {
            Result::Fail(Error::InvalidArgument)
        },
        KeyletData::NFTOffer(a, n) => if a.len() == ACC_ID_LEN {
            Result::Okay((KEYLET_NFT_OFFER, seq![KeyletParamData::Buf(a), KeyletParamData::Num(n)]))
        } else {
            Result::Fail(Error::InvalidArgument)
        },
        KeyletData::HookDefinition(h) => if h.len() == HASH_LEN {
            Result::Okay((KEYLET_HOOK_DEFINITION, seq![KeyletParamData::Buf(h)]))
        } else {
            Result::Fail(Error::InvalidArgument)
        },
        KeyletData::HookStateDir(a, ns) => if a.len() == ACC_ID_LEN && ns.len() == NAMESPACE_LEN {
            Result::Okay(
                (KEYLET_HOOK_STATE_DIR, seq![KeyletParamData::Buf(a), KeyletParamData::Buf(ns)]),
            )
        } else {
            Result::Fail(Error::InvalidArgument)
        },
    }
}

/// The view of a built request, or the error unchanged.
pub open spec fn keylet_result_view(r: Result<KeyletRequest>) -> Result<
    (u32, Seq<KeyletParamData>),
> {
    match r {
        Result::Okay(req) => Result::Okay(req@),
        Result::Fail(e) => Result::Fail(e),
    }
}

/// A request with no positional arguments.
fn req0(tag: u32) -> (r: KeyletRequest)
    ensures
        r@ == (tag, Seq::<KeyletParamData>::empty()),
{
    let req = KeyletRequest { tag, params: Vec::new() };
    proof {
        assert(req@.1 =~= Seq::<KeyletParamData>::empty());
    }
    req
}

/// A request with one byte component.
fn req_b(tag: u32, b1: &[u8]) -> (r: KeyletRequest)
    ensures
        r@ == (tag, seq![KeyletParamData::Buf(b1@)]),
{
    let mut params: Vec<KeyletParam> = Vec::new();
    params.push(KeyletParam::Buf(vstd::slice::slice_to_vec(b1)));
    let req = KeyletRequest { tag, params };
    proof {
        assert(req@.1 =~= seq![KeyletParamData::Buf(b1@)]);
    }
    req
}

/// A request with one byte component and one numeric argument.
fn req_bn(tag: u32, b1: &[u8], n1: u32) -> (r: KeyletRequest)
    ensures
        r@ == (tag, seq![KeyletParamData::Buf(b1@), KeyletParamData::Num(n1)]),
{
    let mut params: Vec<KeyletParam> = Vec::new();
    params.push(KeyletParam::Buf(vstd::slice::slice_to_vec(b1)));
    params.push(KeyletParam::Num(n1));
    let req = KeyletRequest { tag, params };
    proof {
        assert(req@.1 =~= seq![KeyletParamData::Buf(b1@), KeyletParamData::Num(n1)]);
    }
    req
}

/// A request with one byte component and two numeric arguments.
fn req_bnn(tag: u32, b1: &[u8], n1: u32, n2: u32) -> (r: KeyletRequest)
    ensures
        r@ == (
            tag,
            seq![KeyletParamData::Buf(b1@), KeyletParamData::Num(n1), KeyletParamData::Num(n2)],
        ),
{
    let mut params: Vec<KeyletParam> = Vec::new();
    params.push(KeyletParam::Buf(vstd::slice::slice_to_vec(b1)));
    params.push(KeyletParam::Num(n1));
    params.push(KeyletParam::Num(n2));
    let req = KeyletRequest { tag, params };
    proof {
        assert(req@.1 =~= seq![
            KeyletParamData::Buf(b1@),
            KeyletParamData::Num(n1),
            KeyletParamData::Num(n2),
        ]);
    }
    req
}

/// A request with two byte components.
fn req_bb(tag: u32, b1: &[u8], b2: &[u8]) -> (r: KeyletRequest)
    ensures
        r@ == (tag, seq![KeyletParamData::Buf(b1@), KeyletParamData::Buf(b2@)]),
{
    let mut params: Vec<KeyletParam> = Vec::new();
    params.push(KeyletParam::Buf(vstd::slice::slice_to_vec(b1)));
    params.push(KeyletParam::Buf(vstd::slice::slice_to_vec(b2)));
    let req = KeyletRequest { tag, params };
    proof {
        assert(req@.1 =~= seq![KeyletParamData::Buf(b1@), KeyletParamData::Buf(b2@)]);
    }
    req
}

/// A request with two byte components and one numeric argument.
fn req_bbn(tag: u32, b1: &[u8], b2: &[u8], n1: u32) -> (r: KeyletRequest)
    ensures
        r@ == (
            tag,
            seq![KeyletParamData::Buf(b1@), KeyletParamData::Buf(b2@), KeyletParamData::Num(n1)],
        ),
{
    let mut params: Vec<KeyletParam> = Vec::new();
    params.push(KeyletParam::Buf(vstd::slice::slice_to_vec(b1)));
    params.push(KeyletParam::Buf(vstd::slice::slice_to_vec(b2)));
    params.push(KeyletParam::Num(n1));
    let req = KeyletRequest { tag, params };
    proof {
        assert(req@.1 =~= seq![
            KeyletParamData::Buf(b1@),
            KeyletParamData::Buf(b2@),
            KeyletParamData::Num(n1),
        ]);
    }
    req
}

/// A request with three byte components.
fn req_bbb(tag: u32, b1: &[u8], b2: &[u8], b3: &[u8]) -> (r: KeyletRequest)
    ensures
        r@ == (
            tag,
            seq![KeyletParamData::Buf(b1@), KeyletParamData::Buf(b2@), KeyletParamData::Buf(b3@)],
        ),
{
    let mut params: Vec<KeyletParam> = Vec::new();
    params.push(KeyletParam::Buf(vstd::slice::slice_to_vec(b1)));
    params.push(KeyletParam::Buf(vstd::slice::slice_to_vec(b2)));
    params.push(KeyletParam::Buf(vstd::slice::slice_to_vec(b3)));
    let req = KeyletRequest { tag, params };
    proof {
        assert(req@.1 =~= seq![
            KeyletParamData::Buf(b1@),
            KeyletParamData::Buf(b2@),
            KeyletParamData::Buf(b3@),
        ]);
    }
    req
}

/// A request with two numeric arguments.
fn req_nn(tag: u32, n1: u32, n2: u32) -> (r: KeyletRequest)
    ensures
        r@ == (tag, seq![KeyletParamData::Num(n1), KeyletParamData::Num(n2)]),
{
    let mut params: Vec<KeyletParam> = Vec::new();
    params.push(KeyletParam::Num(n1));
    params.push(KeyletParam::Num(n2));
    let req = KeyletRequest { tag, params };
    proof {
        assert(req@.1 =~= seq![KeyletParamData::Num(n1), KeyletParamData::Num(n2)]);
    }
    req
}

/// Builds the derivation call for a keylet request.
///
/// Every component is checked against its variant's fixed size before
/// anything is handed on: a wrong size is refused as
/// `Error::InvalidArgument` without reaching the host.  The call owed
/// for each variant, and exactly when one is owed, is fixed by
/// `keylet_request_spec` over the request's content alone.
pub fn util_keylet(keylet_type: &KeyletType) -> (r: Result<KeyletRequest>)
    ensures
        keylet_result_view(r) == keylet_request_spec(keylet_type@),
{
    match *keylet_type {
        KeyletType::Hook(accid) => {
            if accid.len() != ACC_ID_LEN {
                Result::Fail(Error::InvalidArgument)
            } else {
                Result::Okay(req_b(KEYLET_HOOK, accid))
            }
        },
        KeyletType::HookState(accid, statekey) => {
            if accid.len() != ACC_ID_LEN || statekey.len() != STATE_KEY_LEN {
                Result::Fail(Error::InvalidArgument)
            } else {
                Result::Okay(req_bb(KEYLET_HOOK_STATE, accid, statekey))
            }
        },
        KeyletType::Account(accid) => {
            if accid.len() != ACC_ID_LEN {
                Result::Fail(Error::InvalidArgument)
            } else {
                Result::Okay(req_b(KEYLET_ACCOUNT, accid))
            }
        },
        KeyletType::Amendments => Result::Okay(req0(KEYLET_AMENDMENTS)),
        KeyletType::Child(key) => {
            if key.len() != HASH_LEN {
                Result::Fail(Error::InvalidArgument)
            } else {
                Result::Okay(req_b(KEYLET_CHILD, key))
            }
        },
        KeyletType::Skip(opt) => match opt {
            Option::None => Result::Okay(req0(KEYLET_SKIP)),
            Option::Some((ledger_index, num)) => Result::Okay(
                req_nn(KEYLET_SKIP, ledger_index, num),
            ),
        },
        KeyletType::Fees => Result::Okay(req0(KEYLET_FEES)),
        KeyletType::NegativeUnl => Result::Okay(req0(KEYLET_NEGATIVE_UNL)),
        KeyletType::Line(accid_high, accid_low, currency_code) => {
            if accid_high.len() != ACC_ID_LEN || accid_low.len() != ACC_ID_LEN
                || currency_code.len() != CURRENCY_CODE_LEN {
                Result::Fail(Error::InvalidArgument)
            } else {
                Result::Okay(req_bbb(KEYLET_LINE, accid_high, accid_low, currency_code))
            }
        },
        KeyletType::Offer(accid, num) => {
            if accid.len() != ACC_ID_LEN {
                Result::Fail(Error::InvalidArgument)
            } else {
                Result::Okay(req_bn(KEYLET_OFFER, accid, num))
            }
        },
        KeyletType::Quality(serialized_keylet, bits_high, bits_low) => {
            if serialized_keylet.len() != KEYLET_LEN {
                Result::Fail(Error::InvalidArgument)
            } else {
                Result::Okay(req_bnn(KEYLET_QUALITY, serialized_keylet, bits_high, bits_low))
            }
        },
        KeyletType::EmittedDir => Result::Okay(req0(KEYLET_EMITTED_DIR)),
        KeyletType::Signers(accid) => {
            if accid.len() != ACC_ID_LEN {
                Result::Fail(Error::InvalidArgument)
            } else {
                Result::Okay(req_b(KEYLET_SIGNERS, accid))
            }
        },
        KeyletType::Check(accid, num) => {
            if accid.len() != ACC_ID_LEN {
                Result::Fail(Error::InvalidArgument)
            } else {
                Result::Okay(req_bn(KEYLET_CHECK, accid, num))
            }
        },
        KeyletType::DepositPreauth(accid_1, accid_2) => {
            if accid_1.len() != ACC_ID_LEN || accid_2.len() != ACC_ID_LEN {
                Result::Fail(Error::InvalidArgument)
            } else {
                Result::Okay(req_bb(KEYLET_DEPOSIT_PREAUTH, accid_1, accid_2))
            }
        },
        KeyletType::Unchecked(key) => {
            if key.len() != HASH_LEN {
                Result::Fail(Error::InvalidArgument)
            } else {
                Result::Okay(req_b(KEYLET_UNCHECKED, key))
            }
        },
        KeyletType::OwnerDir(accid) => {
            if accid.len() != ACC_ID_LEN {
                Result::Fail(Error::InvalidArgument)
            } else {
                Result::Okay(req_b(KEYLET_OWNER_DIR, accid))
            }
        },
        KeyletType::Page(key, bits_high, bits_low) => {
            if key.len() != HASH_LEN {
                Result::Fail(Error::InvalidArgument)
            } else {
                Result::Okay(req_bnn(KEYLET_PAGE, key, bits_high, bits_low))
            }
        },
        KeyletType::Escrow(accid, num) => {
            if accid.len() != ACC_ID_LEN {
                Result::Fail(Error::InvalidArgument)
            } else {
                Result::Okay(req_bn(KEYLET_ESCROW, accid, num))
            }
        },
        KeyletType::Paychan(accid_1, accid_2, num) => {
            if accid_1.len() != ACC_ID_LEN || accid_2.len() != ACC_ID_LEN {
                Result::Fail(Error::InvalidArgument)
            } else {
                Result::Okay(req_bbn(KEYLET_PAYCHAN, accid_1, accid_2, num))
            }
        },
        KeyletType::EmittedTxn(key) => {
            if key.len() != HASH_LEN {
                Result::Fail(Error::InvalidArgument)
            } else {
                Result::Okay(req_b(KEYLET_EMITTED_TXN, key))
            }
        },
        KeyletType::NFTOffer(accid, num) => {
            if accid.len() != ACC_ID_LEN {
                Result::Fail(Error::InvalidArgument)
            } else {
                Result::Okay(req_bn(KEYLET_NFT_OFFER, accid, num))
            }
        },
        KeyletType::HookDefinition(hash) => {
            if hash.len() != HASH_LEN {
                Result::Fail(Error::InvalidArgument)
            } else {
                Result::Okay(req_b(KEYLET_HOOK_DEFINITION, hash))
            }
        },
        KeyletType::HookStateDir(accid, namespace) => {
            if accid.len() != ACC_ID_LEN || namespace.len() != NAMESPACE_LEN {
                Result::Fail(Error::InvalidArgument)
            } else {
                Result::Okay(req_bb(KEYLET_HOOK_STATE_DIR, accid, namespace))
            }
        },
    }
}

/// The builder is a pure function of the request's content: identical
/// component inputs are owed the identical derivation call, so with the
/// host's derivation they yield byte-identical keylets.
pub proof fn lemma_keylet_deterministic(t1: KeyletType, t2: KeyletType)
    requires
        t1@ == t2@,
    ensures
        keylet_request_spec(t1@) == keylet_request_spec(t2@),
{
}

} // verus!
