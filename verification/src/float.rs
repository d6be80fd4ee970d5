//! The packed decimal float (XFL) and its wire codec.
//!
//! An XFL is one 64-bit enclosing number.  The canonical non-zero form
//! keeps a 16-digit decimal mantissa in the low 54 bits, the exponent
//! biased by 97 in the next 8 bits, and the sign in bit 62, set for a
//! positive value; bit 63 is always clear, and the canonical zero is the
//! enclosing number 0.  Because the mantissa is normalized, every
//! representable value has exactly one canonical form.
//!
//! Decimal arithmetic on these values is the host's work: the layer
//! packs arguments, hands them over, and classifies the returned code
//! (`result_xfl`).  What is pure lives here and is verified: reading the
//! mantissa and the sign, negation, construction from an exponent and a
//! mantissa with decimal normalization, ordered comparison under the
//! composable mask modes, and the serialization to and from the ledger's
//! issued-amount wire form.

use vstd::prelude::*;

use vstd::arithmetic::div_mod::*;
use vstd::arithmetic::mul::*;

use crate::error::Error;
use crate::result::Result;

verus! {

/// A packed decimal float, carried as its 64-bit enclosing number.
#[derive(Clone, Copy, PartialEq, Eq, Structural, Debug)]
pub struct XFL(pub i64);

/// Smallest canonical mantissa: the least 16-digit number.
pub const MANTISSA_MIN: u64 = 1000000000000000;

/// Largest canonical mantissa: the greatest 16-digit number.
pub const MANTISSA_MAX: u64 = 9999999999999999;

/// Smallest legal exponent.
pub const EXPONENT_MIN: i64 = -96;

/// Largest legal exponent.
pub const EXPONENT_MAX: i64 = 80;

/// The mantissa carried in the low 54 bits of the enclosing number.
pub open spec fn xfl_mantissa_spec(x: XFL) -> int {
    (x.0 as int) % 0x40000000000000
}

/// The biased exponent field in bits 54 to 61 of the enclosing number.
pub open spec fn xfl_exp_field(x: XFL) -> int {
    ((x.0 as int) / 0x40000000000000) % 256
}

/// The exponent, unbiased.
pub open spec fn xfl_exponent(x: XFL) -> int {
    xfl_exp_field(x) - 97
}

/// The sign bit, bit 62; set means positive.
pub open spec fn xfl_is_positive(x: XFL) -> bool {
    ((x.0 as int) / 0x4000000000000000) % 2 == 1
}

/// The canonical forms: zero, or a positive enclosing number holding a
/// 16-digit mantissa and an exponent within the legal range.
pub open spec fn xfl_valid(x: XFL) -> bool {
    x.0 == 0 || (x.0 > 0 && MANTISSA_MIN <= xfl_mantissa_spec(x) <= MANTISSA_MAX && 1
        <= xfl_exp_field(x) <= 178)
}

/// Ten to the `n`.
pub open spec fn pow10(n: nat) -> int
    decreases n,
{
    if n == 0 {
        1
    } else {
        10 * pow10((n - 1) as nat)
    }
}

/// Ten to the anything is at least one.
pub proof fn lemma_pow10_pos(n: nat)
    ensures
        pow10(n) >= 1,
    decreases n,
{
    if n > 0 {
        lemma_pow10_pos((n - 1) as nat);
    }
}

/// Powers of ten do not shrink as the exponent grows.
pub proof fn lemma_pow10_mono(a: nat, b: nat)
    requires
        a <= b,
    ensures
        pow10(a) <= pow10(b),
    decreases b,
{
    if a < b {
        lemma_pow10_mono(a, (b - 1) as nat);
        lemma_pow10_pos((b - 1) as nat);
    }
}

/// The value of an XFL, scaled by ten to the 96 so that the smallest
/// legal exponent still yields an integer: sign times mantissa times
/// ten to the exponent plus 96.
pub open spec fn xfl_val(x: XFL) -> int {
    if x.0 == 0 {
        0
    } else if xfl_is_positive(x) {
        xfl_mantissa_spec(x) * pow10((xfl_exp_field(x) - 1) as nat)
    } else {
        -(xfl_mantissa_spec(x) * pow10((xfl_exp_field(x) - 1) as nat))
    }
}

/// Splitting an enclosing number into its three fields.
proof fn lemma_xfl_fields(v: u64)
    by (bit_vector)
    ensures
        v % 0x40000000000000 < 0x40000000000000,
        (v / 0x40000000000000) % 256 < 256,
        (v / 0x4000000000000000) % 2 < 2,
        v == ((v / 0x4000000000000000) % 2) * 0x4000000000000000 + ((v / 0x40000000000000) % 256)
            * 0x40000000000000 + v % 0x40000000000000 + (v / 0x8000000000000000)
            * 0x8000000000000000,
{
}

/// Reassembling an enclosing number from its three fields.
proof fn lemma_xfl_assemble(p: u64, ef: u64, m: u64)
    by (bit_vector)
    requires
        p < 2,
        ef < 256,
        m < 0x40000000000000,
    ensures
        (p * 0x4000000000000000 + ef * 0x40000000000000 + m) % 0x40000000000000 == m,
        ((p * 0x4000000000000000 + ef * 0x40000000000000 + m) / 0x40000000000000) % 256 == ef,
        ((p * 0x4000000000000000 + ef * 0x40000000000000 + m) / 0x4000000000000000) % 2 == p,
        p * 0x4000000000000000 + ef * 0x40000000000000 + m < 0x8000000000000000,
{
}

/// Reads the three fields of a non-negative enclosing number.
fn xfl_fields(x: XFL) -> (r: (bool, u32, u64))
    requires
        x.0 >= 0,
    ensures
        r.0 == xfl_is_positive(x),
        r.1 == xfl_exp_field(x),
        r.2 == xfl_mantissa_spec(x),
{
    let v = x.0 as u64;
    proof {
        lemma_xfl_fields(v);
    }
    let m: u64 = v % 0x40000000000000;
    let ef: u32 = ((v / 0x40000000000000) % 256) as u32;
    let pos: bool = (v / 0x4000000000000000) % 2 == 1;
    (pos, ef, m)
}

/// Packs sign, biased exponent field and mantissa into an enclosing
/// number.
fn xfl_assemble(pos: bool, ef: u32, m: u64) -> (r: XFL)
    requires
        1 <= ef <= 178,
        MANTISSA_MIN <= m <= MANTISSA_MAX,
    ensures
        xfl_valid(r),
        r.0 > 0,
        xfl_is_positive(r) == pos,
        xfl_exp_field(r) == ef,
        xfl_mantissa_spec(r) == m,
{
    let p: u64 = if pos {
        1
    } else {
        0
    };
    proof {
        lemma_xfl_assemble(p, ef as u64, m);
    }
    let v: u64 = p * 0x4000000000000000 + (ef as u64) * 0x40000000000000 + m;
    XFL(v as i64)
}

/// Tests an enclosing number for canonical form.
pub fn is_valid_xfl(x: XFL) -> (r: bool)
    ensures
        r == xfl_valid(x),
{
    if x.0 == 0 {
        return true;
    }
    if x.0 < 0 {
        return false;
    }
    let (_, ef, m) = xfl_fields(x);
    MANTISSA_MIN <= m && m <= MANTISSA_MAX && 1 <= ef && ef <= 178
}

/// The canonical XFL for the number one: mantissa of sixteen digits,
/// exponent minus fifteen, positive.
pub fn float_one() -> (r: XFL)
    ensures
        xfl_valid(r),
        xfl_is_positive(r),
        xfl_mantissa_spec(r) == MANTISSA_MIN,
        xfl_exponent(r) == -15,
{
    XFL(6089866696204910592)
}

/// The mantissa of an enclosing number, or the invalid-float code for a
/// value outside canonical form, mirroring the host routine that answers
/// with the code in band.
pub fn float_mantissa(float: XFL) -> (r: i64)
    ensures
        xfl_valid(float) ==> r == xfl_mantissa_spec(float),
        !xfl_valid(float) ==> r == Error::InvalidFloat.spec_code() as i64,
{
    if !is_valid_xfl(float) {
        return -10024;
    }
    if float.0 == 0 {
        return 0;
    }
    let (_, _, m) = xfl_fields(float);
    m as i64
}

/// The sign of an XFL: true exactly of a negative value; zero counts as
/// not negative.  A value outside canonical form is refused.
pub fn float_sign(float: XFL) -> (r: Result<bool>)
    ensures
        !xfl_valid(float) ==> r == Result::<bool>::Fail(Error::InvalidFloat),
        xfl_valid(float) ==> r == Result::Okay(float.0 != 0 && !xfl_is_positive(float)),
{
    if !is_valid_xfl(float) {
        return Result::Fail(Error::InvalidFloat);
    }
    if float.0 == 0 {
        return Result::Okay(false);
    }
    let (pos, _, _) = xfl_fields(float);
    Result::Okay(!pos)
}

/// Negation: the sign bit flips, mantissa and exponent stay, the value
/// is exactly the opposite.  Zero stays zero, and a value outside
/// canonical form is refused.
pub fn float_negate(float: XFL) -> (r: Result<XFL>)
    ensures
        !xfl_valid(float) ==> r == Result::<XFL>::Fail(Error::InvalidFloat),
        xfl_valid(float) && float.0 == 0 ==> r == Result::Okay(XFL(0)),
        xfl_valid(float) && float.0 != 0 ==> (r matches Result::Okay(y) && xfl_valid(y)
            && xfl_mantissa_spec(y) == xfl_mantissa_spec(float) && xfl_exp_field(y)
            == xfl_exp_field(float) && xfl_is_positive(y) == !xfl_is_positive(float) && xfl_val(y)
            == -xfl_val(float)),
{
    if !is_valid_xfl(float) {
        return Result::Fail(Error::InvalidFloat);
    }
    if float.0 == 0 {
        return Result::Okay(XFL(0));
    }
    let (pos, ef, m) = xfl_fields(float);
    let y = xfl_assemble(!pos, ef, m);
    Result::Okay(y)
}

/// The absolute value of a mantissa argument.
pub open spec fn abs_i64(m: i64) -> nat {
    if m < 0 {
        (-(m as int)) as nat
    } else {
        m as nat
    }
}

/// Decimal normalization upward: while the mantissa has fewer than
/// sixteen digits, multiply it by ten and lower the exponent.
pub open spec fn norm_up(m: nat, e: int) -> (nat, int)
    decreases (if m < MANTISSA_MIN { MANTISSA_MIN - m } else { 0int })
    when m >= 1
{
    if m < MANTISSA_MIN {
        norm_up(m * 10, e - 1)
    } else {
        (m, e)
    }
}

/// Decimal normalization downward: while the mantissa has more than
/// sixteen digits, divide it by ten, dropping toward zero, and raise
/// the exponent.
pub open spec fn norm_down(m: nat, e: int) -> (nat, int)
    decreases m
    when m >= 1
{
    if m > MANTISSA_MAX {
        norm_down(m / 10, e + 1)
    } else {
        (m, e)
    }
}

/// Full decimal normalization of a positive mantissa and an exponent.
pub open spec fn norm(m: nat, e: int) -> (nat, int) {
    norm_down(norm_up(m, e).0, norm_up(m, e).1)
}

/// Construction from an exponent and a signed mantissa.
///
/// A zero mantissa yields the canonical zero whatever the exponent.
/// Otherwise the mantissa's magnitude is normalized to sixteen decimal
/// digits, the final digit dropped toward zero on each division; an
/// exponent that normalization pushes outside the legal range is
/// refused as undersized or oversized.
pub fn float_set(exponent: i32, mantissa: i64) -> (r: Result<XFL>)
    ensures
        mantissa == 0 ==> r == Result::Okay(XFL(0)),
        mantissa != 0 && norm(abs_i64(mantissa), exponent as int).1 < EXPONENT_MIN ==> r
            == Result::<XFL>::Fail(Error::ExponentUndersized),
        mantissa != 0 && norm(abs_i64(mantissa), exponent as int).1 > EXPONENT_MAX ==> r
            == Result::<XFL>::Fail(Error::ExponentOversized),
        mantissa != 0 && EXPONENT_MIN <= norm(abs_i64(mantissa), exponent as int).1
            <= EXPONENT_MAX ==> (r matches Result::Okay(y) && xfl_valid(y) && y.0 != 0
            && xfl_mantissa_spec(y) == norm(abs_i64(mantissa), exponent as int).0
            && xfl_exponent(y) == norm(abs_i64(mantissa), exponent as int).1
            && xfl_is_positive(y) == (mantissa > 0)),
{
    if mantissa == 0 {
        return Result::Okay(XFL(0));
    }
    let neg: bool = mantissa < 0;
    let mut m: u64 = if mantissa < 0 {
        if mantissa == i64::MIN {
            0x8000000000000000u64
        } else {
            (-mantissa) as u64
        }
    } else {
        mantissa as u64
    };
    let mut e: i64 = exponent as i64;
    let ghost m0 = m as nat;
    let ghost e0 = e as int;
    proof {
        assert(m0 == abs_i64(mantissa));
        assert(1 <= m0 <= 0x8000000000000000);
    }
    while m < MANTISSA_MIN
        invariant
            1 <= m,
            m as int <= 0x8000000000000000,
            -0x80000000 <= e0 <= 0x7fffffff,
            e <= e0,
            e0 - e <= 15,
            m as int >= pow10((e0 - e) as nat),
            m0 >= 1,
            norm_up(m0, e0) == norm_up(m as nat, e as int),
        decreases e - e0 + 15,
    {
        proof {
            if e0 - e >= 15 {
                lemma_pow10_mono(15, (e0 - e) as nat);
                assert(pow10(15) == 1000000000000000) by {
                    reveal_with_fuel(pow10, 16);
                }
                assert(false);
            }
            assert(pow10((e0 - e + 1) as nat) == 10 * pow10((e0 - e) as nat));
        }
        m = m * 10;
        e = e - 1;
    }
    let ghost m1 = m as nat;
    let ghost e1 = e as int;
    proof {
        assert(norm_up(m0, e0) == (m1, e1));
    }
    while m > MANTISSA_MAX
        invariant
            m >= MANTISSA_MIN,
            1 <= m1 <= 0x8000000000000000,
            -0x80000010 <= e1 <= 0x7fffffff,
            e1 <= e,
            e - e1 <= 3,
            m as int == m1 as int / pow10((e - e1) as nat),
            norm_down(m1, e1) == norm_down(m as nat, e as int),
        decreases m,
    {
        proof {
            let k = (e - e1) as nat;
            lemma_pow10_pos(k);
            lemma_fundamental_div_mod(m1 as int, pow10(k));
            lemma_mod_bound(m1 as int, pow10(k));
            assert(m1 as int >= pow10(k) * (m as int));
            if k >= 3 {
                lemma_pow10_mono(3, k);
                assert(pow10(3) == 1000) by {
                    reveal_with_fuel(pow10, 4);
                }
                lemma_mul_inequality(1000, pow10(k), m as int);
                assert(1000 * (m as int) >= 1000 * 10000000000000000);
                assert(false);
            }
            assert(pow10((k + 1) as nat) == 10 * pow10(k));
            lemma_div_denominator(m1 as int, pow10(k), 10);
            lemma_mul_is_commutative(pow10(k), 10);
        }
        m = m / 10;
        e = e + 1;
    }
    proof {
        assert(norm_down(m1, e1) == (m as nat, e as int));
        assert(norm(m0, e0) == (m as nat, e as int));
    }
    if e < EXPONENT_MIN {
        return Result::Fail(Error::ExponentUndersized);
    }
    if e > EXPONENT_MAX {
        return Result::Fail(Error::ExponentOversized);
    }
    let y = xfl_assemble(!neg, (e + 97) as u32, m);
    Result::Okay(y)
}

/// Mask bit asking for "less than".
pub const COMPARE_LESS: u32 = 1;

/// Mask bit asking for "equal".
pub const COMPARE_EQUAL: u32 = 2;

/// Mask bit asking for "greater than".
pub const COMPARE_GREATER: u32 = 4;

/// A comparison mode: one relation, or a combination evaluated in one
/// call.
#[derive(Clone, Copy)]
pub enum XFLCompareMode {
    /// Strictly less.
    Less,
    /// Equal.
    Equal,
    /// Strictly greater.
    Greater,
    /// Less or greater: the mask of both.
    NotEqual,
    /// Less or equal: the mask of both.
    LessOrEqual,
    /// Greater or equal: the mask of both.
    GreaterOrEqual,
}

/// The mask a mode stands for; the composed modes are the sums of the
/// masks they combine.
pub open spec fn mode_mask(mode: XFLCompareMode) -> u32 {
    match mode {
        XFLCompareMode::Less => COMPARE_LESS,
        XFLCompareMode::Equal => COMPARE_EQUAL,
        XFLCompareMode::Greater => COMPARE_GREATER,
        XFLCompareMode::NotEqual => 5u32,
        XFLCompareMode::LessOrEqual => 3u32,
        XFLCompareMode::GreaterOrEqual => 6u32,
    }
}

/// The mask a mode stands for.
#[verifier::when_used_as_spec(mode_mask)]
pub fn compare_mask(mode: XFLCompareMode) -> (r: u32)
    ensures
        r == mode_mask(mode),
{
    match mode {
        XFLCompareMode::Less => 1,
        XFLCompareMode::Equal => 2,
        XFLCompareMode::Greater => 4,
        XFLCompareMode::NotEqual => 5,
        XFLCompareMode::LessOrEqual => 3,
        XFLCompareMode::GreaterOrEqual => 6,
    }
}

/// Whether a mask grants the ordering of two values: its low bit grants
/// "less", the next "equal", the next "greater".
pub open spec fn mask_allows(va: int, vb: int, mask: u32) -> bool {
    (va < vb && mask % 2 == 1) || (va == vb && (mask / 2) % 2 == 1) || (va > vb && (mask / 4) % 2
        == 1)
}

/// For canonical positive magnitudes, the value order is the
/// exponent-then-mantissa order.
proof fn lemma_xfl_order_pos(ma: int, ea: int, mb: int, eb: int)
    requires
        MANTISSA_MIN <= ma <= MANTISSA_MAX,
        MANTISSA_MIN <= mb <= MANTISSA_MAX,
        1 <= ea <= 178,
        1 <= eb <= 178,
    ensures
        ea == eb ==> ((ma * pow10((ea - 1) as nat) < mb * pow10((eb - 1) as nat)) <==> ma < mb),
        ea == eb ==> ((ma * pow10((ea - 1) as nat) == mb * pow10((eb - 1) as nat)) <==> ma == mb),
        ea < eb ==> ma * pow10((ea - 1) as nat) < mb * pow10((eb - 1) as nat),
{
    let pa = pow10((ea - 1) as nat);
    let pb = pow10((eb - 1) as nat);
    lemma_pow10_pos((ea - 1) as nat);
    lemma_pow10_pos((eb - 1) as nat);
    if ea == eb {
        if ma < mb {
            lemma_mul_strict_inequality(ma, mb, pa);
        }
        if mb < ma {
            lemma_mul_strict_inequality(mb, ma, pa);
        }
    } else if ea < eb {
        lemma_mul_inequality(ma, 9999999999999999, pa);
        lemma_mul_strict_inequality(9999999999999999, 10000000000000000, pa);
        assert(10000000000000000 * pa == 1000000000000000 * (10 * pa)) by {
            lemma_mul_is_associative(1000000000000000, 10, pa);
        }
        assert(10 * pa == pow10(ea as nat));
        lemma_pow10_mono(ea as nat, (eb - 1) as nat);
        lemma_mul_left_inequality(1000000000000000, pow10(ea as nat), pb);
        lemma_mul_inequality(1000000000000000, mb, pb);
    }
}

/// The ordering of two canonical values: minus one for less, zero for
/// equal, one for greater.
fn compare_xfl_values(a: XFL, b: XFL) -> (ord: i32)
    requires
        xfl_valid(a),
        xfl_valid(b),
    ensures
        ord == -1 || ord == 0 || ord == 1,
        (ord == -1) == (xfl_val(a) < xfl_val(b)),
        (ord == 0) == (xfl_val(a) == xfl_val(b)),
        (ord == 1) == (xfl_val(a) > xfl_val(b)),
{
    let sa: i32 = if a.0 == 0 {
        0
    } else {
        let (p, _, _) = xfl_fields(a);
        if p {
            1
        } else {
            -1
        }
    };
    let sb: i32 = if b.0 == 0 {
        0
    } else {
        let (p, _, _) = xfl_fields(b);
        if p {
            1
        } else {
            -1
        }
    };
    proof {
        if a.0 != 0 {
            lemma_pow10_pos((xfl_exp_field(a) - 1) as nat);
            lemma_mul_strictly_positive(xfl_mantissa_spec(a), pow10((xfl_exp_field(a) - 1) as nat));
        }
        if b.0 != 0 {
            lemma_pow10_pos((xfl_exp_field(b) - 1) as nat);
            lemma_mul_strictly_positive(xfl_mantissa_spec(b), pow10((xfl_exp_field(b) - 1) as nat));
        }
    }
    if sa != sb {
        return if sa < sb {
            -1
        } else {
            1
        };
    }
    if sa == 0 {
        return 0;
    }
    let (_, ea, ma) = xfl_fields(a);
    let (_, eb, mb) = xfl_fields(b);
    let mag: i32 = if ea < eb {
        -1
    } else if ea > eb {
        1
    } else if ma < mb {
        -1
    } else if ma > mb {
        1
    } else {
        0
    };
    proof {
        lemma_xfl_order_pos(ma as int, ea as int, mb as int, eb as int);
        lemma_xfl_order_pos(mb as int, eb as int, ma as int, ea as int);
    }
    if sa == 1 {
        mag
    } else {
        -mag
    }
}

/// Canonical form is unique: two canonical XFLs carrying the same
/// value are the same enclosing number, so equality of values is
/// equality of bits.
pub proof fn lemma_xfl_canonical_unique(a: XFL, b: XFL)
    requires
        xfl_valid(a),
        xfl_valid(b),
        xfl_val(a) == xfl_val(b),
    ensures
        a == b,
{
    if a.0 != 0 {
        lemma_pow10_pos((xfl_exp_field(a) - 1) as nat);
        lemma_mul_strictly_positive(xfl_mantissa_spec(a), pow10((xfl_exp_field(a) - 1) as nat));
    }
    if b.0 != 0 {
        lemma_pow10_pos((xfl_exp_field(b) - 1) as nat);
        lemma_mul_strictly_positive(xfl_mantissa_spec(b), pow10((xfl_exp_field(b) - 1) as nat));
    }
    if a.0 == 0 || b.0 == 0 {
        assert(a.0 == 0 && b.0 == 0);
    } else {
        assert(xfl_is_positive(a) == xfl_is_positive(b));
        lemma_xfl_order_pos(
            xfl_mantissa_spec(a),
            xfl_exp_field(a),
            xfl_mantissa_spec(b),
            xfl_exp_field(b),
        );
        lemma_xfl_order_pos(
            xfl_mantissa_spec(b),
            xfl_exp_field(b),
            xfl_mantissa_spec(a),
            xfl_exp_field(a),
        );
        assert(xfl_exp_field(a) == xfl_exp_field(b) && xfl_mantissa_spec(a) == xfl_mantissa_spec(
            b,
        ));
        lemma_xfl_fields(a.0 as u64);
        lemma_xfl_fields(b.0 as u64);
        assert((a.0 as u64) / 0x8000000000000000 == 0 && (b.0 as u64) / 0x8000000000000000 == 0);
        assert(a.0 == b.0);
    }
}

/// Comparison of two canonical XFL values under a composable mode: the
/// answer is whether the mask of the mode grants their true ordering.
/// A value outside canonical form is refused.
pub fn float_compare(float1: XFL, float2: XFL, mode: XFLCompareMode) -> (r: Result<bool>)
    ensures
        !xfl_valid(float1) || !xfl_valid(float2) ==> r == Result::<bool>::Fail(Error::InvalidFloat),
        xfl_valid(float1) && xfl_valid(float2) ==> r == Result::Okay(
            mask_allows(xfl_val(float1), xfl_val(float2), mode_mask(mode)),
        ),
{
    if !is_valid_xfl(float1) || !is_valid_xfl(float2) {
        return Result::Fail(Error::InvalidFloat);
    }
    let mask = compare_mask(mode);
    let ord = compare_xfl_values(float1, float2);
    let verdict: bool = if ord < 0 {
        mask % 2 == 1
    } else if ord == 0 {
        (mask / 2) % 2 == 1
    } else {
        (mask / 4) % 2 == 1
    };
    Result::Okay(verdict)
}

/// The not-equal mode grants an ordering exactly when the less mode or
/// the greater mode would: the combined mask asks both in one call.
pub proof fn lemma_not_equal_composes(va: int, vb: int)
    ensures
        mask_allows(va, vb, mode_mask(XFLCompareMode::NotEqual)) == (mask_allows(
            va,
            vb,
            mode_mask(XFLCompareMode::Less),
        ) || mask_allows(va, vb, mode_mask(XFLCompareMode::Greater))),
{
}

/// The less-or-equal mode grants an ordering exactly when the less mode
/// or the equal mode would.
pub proof fn lemma_less_or_equal_composes(va: int, vb: int)
    ensures
        mask_allows(va, vb, mode_mask(XFLCompareMode::LessOrEqual)) == (mask_allows(
            va,
            vb,
            mode_mask(XFLCompareMode::Less),
        ) || mask_allows(va, vb, mode_mask(XFLCompareMode::Equal))),
{
}

/// The greater-or-equal mode grants an ordering exactly when the
/// greater mode or the equal mode would.
pub proof fn lemma_greater_or_equal_composes(va: int, vb: int)
    ensures
        mask_allows(va, vb, mode_mask(XFLCompareMode::GreaterOrEqual)) == (mask_allows(
            va,
            vb,
            mode_mask(XFLCompareMode::Greater),
        ) || mask_allows(va, vb, mode_mask(XFLCompareMode::Equal))),
{
}

/// Eight bytes of `s` starting at `off`, read as one big-endian word.
pub open spec fn be_u64_at(s: Seq<u8>, off: int) -> int {
    s[off] * 0x100000000000000 + s[off + 1] * 0x1000000000000 + s[off + 2] * 0x10000000000
        + s[off + 3] * 0x100000000 + s[off + 4] * 0x1000000 + s[off + 5] * 0x10000 + s[off + 6]
        * 0x100 + s[off + 7]
}

/// The eight big-endian bytes of a 64-bit word.
pub open spec fn be_bytes_u64(v: u64) -> Seq<u8> {
    seq![
        ((v as int) / 0x100000000000000 % 256) as u8,
        ((v as int) / 0x1000000000000 % 256) as u8,
        ((v as int) / 0x10000000000 % 256) as u8,
        ((v as int) / 0x100000000 % 256) as u8,
        ((v as int) / 0x1000000 % 256) as u8,
        ((v as int) / 0x10000 % 256) as u8,
        ((v as int) / 0x100 % 256) as u8,
        ((v as int) % 256) as u8,
    ]
}

/// A word survives the round trip through its big-endian bytes.
proof fn lemma_be_round_trip(v: u64)
    by (bit_vector)
    ensures
        v / 0x100000000000000 % 256 * 0x100000000000000 + v / 0x1000000000000 % 256
            * 0x1000000000000 + v / 0x10000000000 % 256 * 0x10000000000 + v / 0x100000000 % 256
            * 0x100000000 + v / 0x1000000 % 256 * 0x1000000 + v / 0x10000 % 256 * 0x10000 + v
            / 0x100 % 256 * 0x100 + v % 256 == v,
{
}

/// Reads eight bytes at `offset` as one big-endian word.
fn read_u64_be(buf: &[u8], offset: usize) -> (r: u64)
    requires
        offset + 8 <= buf@.len(),
    ensures
        r == be_u64_at(buf@, offset as int),
{
    (buf[offset] as u64) * 0x100000000000000 + (buf[offset + 1] as u64) * 0x1000000000000 + (
    buf[offset + 2] as u64) * 0x10000000000 + (buf[offset + 3] as u64) * 0x100000000 + (buf[offset
        + 4] as u64) * 0x1000000 + (buf[offset + 5] as u64) * 0x10000 + (buf[offset + 6] as u64)
        * 0x100 + (buf[offset + 7] as u64)
}

/// Whether a field code can head a serialized amount: zero for no
/// header, or a type and a field number of one byte each, both nonzero.
pub open spec fn valid_field_code(field_code: u32) -> bool {
    field_code == 0 || (1 <= (field_code as int) / 0x10000 <= 255 && 1 <= (field_code as int)
        % 0x10000 <= 255)
}

/// The serialized field-identifier header for a field code: nothing for
/// zero; one byte holding both numbers when each fits a nibble; the
/// small number and an extension byte when only one does; a zero byte
/// and both numbers when neither does.
pub open spec fn field_header(field_code: u32) -> Seq<u8> {
    let t = (field_code as int) / 0x10000;
    let f = (field_code as int) % 0x10000;
    if field_code == 0 {
        Seq::empty()
    } else if t < 16 && f < 16 {
        seq![(t * 16 + f) as u8]
    } else if t < 16 {
        seq![(t * 16) as u8, f as u8]
    } else if f < 16 {
        seq![f as u8, t as u8]
    } else {
        seq![0u8, t as u8, f as u8]
    }
}

/// Whether a byte sequence is a well-formed field-identifier header of
/// its length.
pub open spec fn header_wf(h: Seq<u8>) -> bool {
    if h.len() == 0 {
        true
    } else if h.len() == 1 {
        h[0] / 16 != 0 && h[0] % 16 != 0
    } else if h.len() == 2 {
        (h[0] / 16 != 0 && h[0] % 16 == 0 && h[1] >= 16) || (h[0] / 16 == 0 && h[0] % 16 != 0
            && h[1] >= 16)
    } else if h.len() == 3 {
        h[0] == 0 && h[1] >= 16 && h[2] >= 16
    } else {
        false
    }
}

/// The issued-amount wire form of a canonical XFL under a currency, an
/// issuer and a field code: the header, the enclosing number with the
/// issued-amount marker bit raised, big-endian, then the currency and
/// the issuer.
pub open spec fn sto_bytes(cur: Seq<u8>, iss: Seq<u8>, x: XFL, field_code: u32) -> Seq<u8> {
    field_header(field_code) + be_bytes_u64((x.0 + 0x8000000000000000) as u64) + cur + iss
}

/// What serialization owes: the wire bytes for canonical inputs, and
/// the exact error otherwise.  The currency and the issuer must have
/// their canonical twenty bytes, the field code must be zero or hold a
/// nonzero one-byte type and field number, and the value must be
/// canonical.
pub open spec fn sto_spec(cur: Seq<u8>, iss: Seq<u8>, x: XFL, field_code: u32) -> Result<Seq<u8>> {
    if cur.len() != 20 || iss.len() != 20 {
        Result::Fail(Error::InvalidArgument)
    } else if !valid_field_code(field_code) {
        Result::Fail(Error::InvalidArgument)
    } else if !xfl_valid(x) {
        Result::Fail(Error::InvalidFloat)
    } else {
        Result::Okay(sto_bytes(cur, iss, x, field_code))
    }
}

/// The view of serialized bytes, or the error unchanged.
pub open spec fn sto_result_view(r: Result<Vec<u8>>) -> Result<Seq<u8>> {
    match r {
        Result::Okay(v) => Result::Okay(v@),
        Result::Fail(e) => Result::Fail(e),
    }
}

/// Serializes a canonical XFL to the issued-amount wire form.
pub fn float_sto(currency_code: &[u8], issuer_accid: &[u8], float: XFL, field_code: u32) -> (r:
    Result<Vec<u8>>)
    ensures
        sto_result_view(r) == sto_spec(currency_code@, issuer_accid@, float, field_code),
{
    if currency_code.len() != 20 || issuer_accid.len() != 20 {
        return Result::Fail(Error::InvalidArgument);
    }
    let t: u32 = field_code / 0x10000;
    let f: u32 = field_code % 0x10000;
    if field_code != 0 && (t < 1 || t > 255 || f < 1 || f > 255) {
        return Result::Fail(Error::InvalidArgument);
    }
    if !is_valid_xfl(float) {
        return Result::Fail(Error::InvalidFloat);
    }
    let mut out: Vec<u8> = Vec::new();
    if field_code == 0 {
    } else if t < 16 && f < 16 {
        out.push((t * 16 + f) as u8);
    } else if t < 16 {
        out.push((t * 16) as u8);
        out.push(f as u8);
    } else if f < 16 {
        out.push(f as u8);
        out.push(t as u8);
    } else {
        out.push(0);
        out.push(t as u8);
        out.push(f as u8);
    }
    let w: u64 = (float.0 as u64) + 0x8000000000000000;
    out.push((w / 0x100000000000000 % 256) as u8);
    out.push((w / 0x1000000000000 % 256) as u8);
    out.push((w / 0x10000000000 % 256) as u8);
    out.push((w / 0x100000000 % 256) as u8);
    out.push((w / 0x1000000 % 256) as u8);
    out.push((w / 0x10000 % 256) as u8);
    out.push((w / 0x100 % 256) as u8);
    out.push((w % 256) as u8);
    let mut cur_v = vstd::slice::slice_to_vec(currency_code);
    out.append(&mut cur_v);
    let mut iss_v = vstd::slice::slice_to_vec(issuer_accid);
    out.append(&mut iss_v);
    proof {
        assert(out@ =~= sto_bytes(currency_code@, issuer_accid@, float, field_code));
    }
    Result::Okay(out)
}

/// What deserialization owes for every byte sequence: the enclosing
/// number recovered from a well-formed issued amount of 48 bytes plus
/// its header, `Error::NotIouAmount` where the marker bit shows a
/// native amount, `Error::InvalidFloat` where the carried number is not
/// canonical, and `Error::ParseError` for any other shape.
pub open spec fn sto_set_spec(s: Seq<u8>) -> Result<XFL> {
    if s.len() == 48 || s.len() == 49 || s.len() == 50 || s.len() == 51 {
        let hlen = s.len() - 48;
        if !header_wf(s.take(hlen as int)) {
            Result::Fail(Error::ParseError)
        } else {
            let v = be_u64_at(s, hlen as int);
            if v < 0x8000000000000000 {
                Result::Fail(Error::NotIouAmount)
            } else {
                let enc = v - 0x8000000000000000;
                if enc == 0 {
                    Result::Okay(XFL(0))
                } else if xfl_valid(XFL(enc as i64)) {
                    Result::Okay(XFL(enc as i64))
                } else {
                    Result::Fail(Error::InvalidFloat)
                }
            }
        }
    } else {
        Result::Fail(Error::ParseError)
    }
}

/// Deserializes an issued amount back into its enclosing number.
pub fn float_sto_set(sto_xfl: &[u8]) -> (r: Result<XFL>)
    ensures
        r == sto_set_spec(sto_xfl@),
{
    let len = sto_xfl.len();
    if len < 48 || len > 51 {
        return Result::Fail(Error::ParseError);
    }
    let hlen = len - 48;
    let ghost h = sto_xfl@.take(hlen as int);
    if hlen == 1 {
        let b0 = sto_xfl[0];
        proof {
            assert(h[0] == sto_xfl@[0]);
        }
        if b0 / 16 == 0 || b0 % 16 == 0 {
            return Result::Fail(Error::ParseError);
        }
    } else if hlen == 2 {
        let b0 = sto_xfl[0];
        let b1 = sto_xfl[1];
        proof {
            assert(h[0] == sto_xfl@[0] && h[1] == sto_xfl@[1]);
        }
        let one_ext = b0 / 16 != 0 && b0 % 16 == 0 && b1 >= 16;
        let other_ext = b0 / 16 == 0 && b0 % 16 != 0 && b1 >= 16;
        if !one_ext && !other_ext {
            return Result::Fail(Error::ParseError);
        }
    } else if hlen == 3 {
        let b0 = sto_xfl[0];
        let b1 = sto_xfl[1];
        let b2 = sto_xfl[2];
        proof {
            assert(h[0] == sto_xfl@[0] && h[1] == sto_xfl@[1] && h[2] == sto_xfl@[2]);
        }
        if b0 != 0 || b1 < 16 || b2 < 16 {
            return Result::Fail(Error::ParseError);
        }
    }
    let v = read_u64_be(sto_xfl, hlen);
    if v < 0x8000000000000000 {
        return Result::Fail(Error::NotIouAmount);
    }
    let enc: u64 = v - 0x8000000000000000;
    if enc == 0 {
        return Result::Okay(XFL(0));
    }
    let x = XFL(enc as i64);
    if is_valid_xfl(x) {
        Result::Okay(x)
    } else {
        Result::Fail(Error::InvalidFloat)
    }
}

/// The wire round trip: a canonical value serialized under a currency,
/// an issuer and a field code is recovered exactly, mantissa and
/// exponent unchanged, by deserializing those bytes.
pub proof fn lemma_sto_round_trip(cur: Seq<u8>, iss: Seq<u8>, x: XFL, field_code: u32)
    requires
        cur.len() == 20,
        iss.len() == 20,
        valid_field_code(field_code),
        xfl_valid(x),
    ensures
        sto_spec(cur, iss, x, field_code) == Result::Okay(sto_bytes(cur, iss, x, field_code)),
        sto_set_spec(sto_bytes(cur, iss, x, field_code)) == Result::Okay(x),
{
    let t = (field_code as int) / 0x10000;
    let f = (field_code as int) % 0x10000;
    let h = field_header(field_code);
    let w = (x.0 + 0x8000000000000000) as u64;
    let bytes = sto_bytes(cur, iss, x, field_code);
    let hlen = h.len() as int;
    assert(bytes.len() == hlen + 48);
    assert(bytes.take(hlen) =~= h);
    if field_code != 0 {
        if t < 16 && f < 16 {
            lemma_fundamental_div_mod_converse((t * 16 + f) as int, 16, t, f);
            assert(h[0] == t * 16 + f);
            assert(h[0] / 16 == t && h[0] % 16 == f);
        } else if t < 16 {
            lemma_fundamental_div_mod_converse((t * 16) as int, 16, t, 0);
            assert(h[0] == t * 16);
            assert(h[0] / 16 == t && h[0] % 16 == 0);
            assert(h[1] == f);
        } else if f < 16 {
            assert(h[0] == f);
            lemma_fundamental_div_mod_converse(f, 16, 0, f);
            assert(h[0] / 16 == 0 && h[0] % 16 == f);
            assert(h[1] == t);
        } else {
            assert(h[0] == 0 && h[1] == t && h[2] == f);
        }
    }
    assert(header_wf(bytes.take(hlen)));
    let bb = be_bytes_u64(w);
    assert(bytes[hlen] == bb[0] && bytes[hlen + 1] == bb[1] && bytes[hlen + 2] == bb[2]
        && bytes[hlen + 3] == bb[3] && bytes[hlen + 4] == bb[4] && bytes[hlen + 5] == bb[5]
        && bytes[hlen + 6] == bb[6] && bytes[hlen + 7] == bb[7]);
    lemma_be_round_trip(w);
    assert(be_u64_at(bytes, hlen) == w);
    assert(w >= 0x8000000000000000);
    assert(w - 0x8000000000000000 == x.0);
}

/// Classification of a raw return code from a float routine: a
/// non-negative code is the enclosing number of the result, a negative
/// code selects an error kind by table lookup.
pub fn result_xfl(res: i64) -> (r: Result<XFL>)
    ensures
        res >= 0 ==> r == Result::Okay(XFL(res)),
        res < 0 ==> r == Result::<XFL>::Fail(Error::spec_from_code(res)),
{
    if res >= 0 {
        Result::Okay(XFL(res))
    } else {
        Result::Fail(Error::from_code(res))
    }
}

} // verus!
