//! Fixed-width buffer helpers and the native-amount codec.
//!
//! The 20-byte comparison backs the account-identifier checks and the
//! 32-byte comparison backs hash checks.  Both read the buffers as
//! little-endian words, and both look only at the fixed prefix: a longer
//! buffer that shares the same leading 20 (or 32) bytes compares equal.
//! The contracts state exactly that, so the behaviour on longer inputs
//! is documented rather than assumed.
//!
//! A native amount travels as 8 bytes: the top bit is reserved, the next
//! bit marks the value as positive, and the remaining 62 bits carry the
//! drop count big-endian.

use vstd::prelude::*;

use crate::error::Error;
use crate::guard::GuardMeter;
use crate::guard::guard_run;
use crate::guard::lemma_guard_declared_bound_suffices;
use crate::result::Result;

verus! {

/// Four bytes of `s` starting at `off`, read as a little-endian word.
pub open spec fn le_u32(s: Seq<u8>, off: int) -> int {
    s[off] + s[off + 1] * 0x100 + s[off + 2] * 0x10000 + s[off + 3] * 0x1000000
}

/// Eight bytes of `s` starting at `off`, read as a little-endian word.
pub open spec fn le_u64(s: Seq<u8>, off: int) -> int {
    s[off] + s[off + 1] * 0x100 + s[off + 2] * 0x10000 + s[off + 3] * 0x1000000
        + s[off + 4] * 0x100000000 + s[off + 5] * 0x10000000000
        + s[off + 6] * 0x1000000000000 + s[off + 7] * 0x100000000000000
}

/// Reads four bytes at `offset` as one little-endian word.
pub fn read_u32_le(buf: &[u8], offset: usize) -> (r: u32)
    requires
        offset + 4 <= buf@.len(),
    ensures
        r == le_u32(buf@, offset as int),
{
    (buf[offset] as u32) + (buf[offset + 1] as u32) * 0x100 + (buf[offset + 2] as u32) * 0x10000
        + (buf[offset + 3] as u32) * 0x1000000
}

/// Reads eight bytes at `offset` as one little-endian word.
pub fn read_u64_le(buf: &[u8], offset: usize) -> (r: u64)
    requires
        offset + 8 <= buf@.len(),
    ensures
        r == le_u64(buf@, offset as int),
{
    (buf[offset] as u64) + (buf[offset + 1] as u64) * 0x100 + (buf[offset + 2] as u64) * 0x10000
        + (buf[offset + 3] as u64) * 0x1000000 + (buf[offset + 4] as u64) * 0x100000000
        + (buf[offset + 5] as u64) * 0x10000000000 + (buf[offset + 6] as u64) * 0x1000000000000
        + (buf[offset + 7] as u64) * 0x100000000000000
}

/// Two equal little-endian words are made of pairwise equal bytes.
proof fn lemma_le_u64_bytes_unique(
    a0: u8, a1: u8, a2: u8, a3: u8, a4: u8, a5: u8, a6: u8, a7: u8,
    b0: u8, b1: u8, b2: u8, b3: u8, b4: u8, b5: u8, b6: u8, b7: u8,
)
    by (bit_vector)
    requires
        a0 + a1 * 0x100 + a2 * 0x10000 + a3 * 0x1000000 + a4 * 0x100000000
            + a5 * 0x10000000000 + a6 * 0x1000000000000 + a7 * 0x100000000000000
            == b0 + b1 * 0x100 + b2 * 0x10000 + b3 * 0x1000000 + b4 * 0x100000000
            + b5 * 0x10000000000 + b6 * 0x1000000000000 + b7 * 0x100000000000000,
    ensures
        a0 == b0 && a1 == b1 && a2 == b2 && a3 == b3 && a4 == b4 && a5 == b5 && a6 == b6 && a7
            == b7,
{
}

/// Two equal little-endian words are made of pairwise equal bytes.
proof fn lemma_le_u32_bytes_unique(
    a0: u8, a1: u8, a2: u8, a3: u8,
    b0: u8, b1: u8, b2: u8, b3: u8,
)
    by (bit_vector)
    requires
        a0 + a1 * 0x100 + a2 * 0x10000 + a3 * 0x1000000
            == b0 + b1 * 0x100 + b2 * 0x10000 + b3 * 0x1000000,
    ensures
        a0 == b0 && a1 == b1 && a2 == b2 && a3 == b3,
{
}

/// Tests two 20-byte buffers for equality by reading them as
/// little-endian words.
///
/// Only the first 20 bytes of each buffer take part: a longer buffer
/// whose leading 20 bytes match compares equal, which the postcondition
/// states explicitly.
pub fn is_buffer_equal_20(buf_1: &[u8], buf_2: &[u8]) -> (r: bool)
    requires
        buf_1@.len() >= 20,
        buf_2@.len() >= 20,
    ensures
        r == (buf_1@.subrange(0, 20) == buf_2@.subrange(0, 20)),
{
    let r = read_u64_le(buf_1, 0) == read_u64_le(buf_2, 0)
        && read_u64_le(buf_1, 8) == read_u64_le(buf_2, 8)
        && read_u32_le(buf_1, 16) == read_u32_le(buf_2, 16);
    proof {
        let s1 = buf_1@.subrange(0, 20);
        let s2 = buf_2@.subrange(0, 20);
        if r {
            lemma_le_u64_bytes_unique(
                buf_1@[0], buf_1@[1], buf_1@[2], buf_1@[3], buf_1@[4], buf_1@[5], buf_1@[6],
                buf_1@[7],
                buf_2@[0], buf_2@[1], buf_2@[2], buf_2@[3], buf_2@[4], buf_2@[5], buf_2@[6],
                buf_2@[7],
            );
            lemma_le_u64_bytes_unique(
                buf_1@[8], buf_1@[9], buf_1@[10], buf_1@[11], buf_1@[12], buf_1@[13], buf_1@[14],
                buf_1@[15],
                buf_2@[8], buf_2@[9], buf_2@[10], buf_2@[11], buf_2@[12], buf_2@[13], buf_2@[14],
                buf_2@[15],
            );
            lemma_le_u32_bytes_unique(
                buf_1@[16], buf_1@[17], buf_1@[18], buf_1@[19],
                buf_2@[16], buf_2@[17], buf_2@[18], buf_2@[19],
            );
            assert(s1 =~= s2);
        } else {
            if s1 == s2 {
                assert forall|i: int| 0 <= i < 20 implies buf_1@[i] == buf_2@[i] by {
                    assert(s1[i] == s2[i]);
                }
                assert(false);
            }
        }
    }
    r
}

/// Tests two 32-byte buffers for equality by reading them as
/// little-endian words.
///
/// Only the first 32 bytes of each buffer take part: a longer buffer
/// whose leading 32 bytes match compares equal, which the postcondition
/// states explicitly.
pub fn is_buffer_equal_32(buf_1: &[u8], buf_2: &[u8]) -> (r: bool)
    requires
        buf_1@.len() >= 32,
        buf_2@.len() >= 32,
    ensures
        r == (buf_1@.subrange(0, 32) == buf_2@.subrange(0, 32)),
{
    let r = read_u64_le(buf_1, 0) == read_u64_le(buf_2, 0)
        && read_u64_le(buf_1, 8) == read_u64_le(buf_2, 8)
        && read_u64_le(buf_1, 16) == read_u64_le(buf_2, 16)
        && read_u64_le(buf_1, 24) == read_u64_le(buf_2, 24);
    proof {
        let s1 = buf_1@.subrange(0, 32);
        let s2 = buf_2@.subrange(0, 32);
        if r {
            lemma_le_u64_bytes_unique(
                buf_1@[0], buf_1@[1], buf_1@[2], buf_1@[3], buf_1@[4], buf_1@[5], buf_1@[6],
                buf_1@[7],
                buf_2@[0], buf_2@[1], buf_2@[2], buf_2@[3], buf_2@[4], buf_2@[5], buf_2@[6],
                buf_2@[7],
            );
            lemma_le_u64_bytes_unique(
                buf_1@[8], buf_1@[9], buf_1@[10], buf_1@[11], buf_1@[12], buf_1@[13], buf_1@[14],
                buf_1@[15],
                buf_2@[8], buf_2@[9], buf_2@[10], buf_2@[11], buf_2@[12], buf_2@[13], buf_2@[14],
                buf_2@[15],
            );
            lemma_le_u64_bytes_unique(
                buf_1@[16], buf_1@[17], buf_1@[18], buf_1@[19], buf_1@[20], buf_1@[21],
                buf_1@[22], buf_1@[23],
                buf_2@[16], buf_2@[17], buf_2@[18], buf_2@[19], buf_2@[20], buf_2@[21],
                buf_2@[22], buf_2@[23],
            );
            lemma_le_u64_bytes_unique(
                buf_1@[24], buf_1@[25], buf_1@[26], buf_1@[27], buf_1@[28], buf_1@[29],
                buf_1@[30], buf_1@[31],
                buf_2@[24], buf_2@[25], buf_2@[26], buf_2@[27], buf_2@[28], buf_2@[29],
                buf_2@[30], buf_2@[31],
            );
            assert(s1 =~= s2);
        } else {
            if s1 == s2 {
                assert forall|i: int| 0 <= i < 32 implies buf_1@[i] == buf_2@[i] by {
                    assert(s1[i] == s2[i]);
                }
                assert(false);
            }
        }
    }
    r
}

/// Tests two buffers of any length for equality, one byte per guarded
/// iteration.
///
/// The token must be unique to this call site and not yet asserted in
/// this invocation.  The loop declares the bound `len + 1` the guard
/// protocol prescribes and is proved to stay under it, so the
/// guard never trips: the meter afterwards shows this token with that
/// bound and a count within it, and every other token untouched.
/// Buffers of unequal length compare unequal before the first guarded
/// iteration, leaving the meter as it was.
pub fn is_buffer_equal<const GUARD_ID: u32>(
    meter: &mut GuardMeter,
    buf_1: &[u8],
    buf_2: &[u8],
) -> (r: bool)
    requires
        old(meter).wf(),
        !old(meter)@.dom().contains(GUARD_ID),
        buf_1@.len() + 1 <= u32::MAX,
    ensures
        final(meter).wf(),
        r == (buf_1@ == buf_2@),
        final(meter)@.remove(GUARD_ID) == old(meter)@,
        final(meter)@.dom().contains(GUARD_ID) ==> final(meter)@[GUARD_ID].0 == buf_1@.len() + 1
            && 1 <= final(meter)@[GUARD_ID].1 <= buf_1@.len() + 1,
        buf_1@.len() == buf_2@.len() ==> final(meter)@.dom().contains(GUARD_ID),
        buf_1@.len() != buf_2@.len() ==> final(meter)@ == old(meter)@,
{
    let len1 = buf_1.len();
    if len1 != buf_2.len() {
        proof {
            assert(meter@.remove(GUARD_ID) =~= old(meter)@);
        }
        return false;
    }
    let bound: u32 = (len1 as u32) + 1;
    let mut i: usize = 0;
    while i < len1
        invariant
            meter.wf(),
            buf_1@.len() == len1,
            buf_2@.len() == len1,
            len1 + 1 <= u32::MAX,
            bound == len1 + 1,
            0 <= i <= len1,
            forall|j: int| 0 <= j < i ==> buf_1@[j] == buf_2@[j],
            !old(meter)@.dom().contains(GUARD_ID),
            meter@ == guard_run(old(meter)@, GUARD_ID, bound, i as nat),
        decreases len1 - i,
    {
        proof {
            lemma_guard_declared_bound_suffices(old(meter)@, GUARD_ID, bound, (i + 1) as nat);
        }
        match meter.hit(GUARD_ID, bound) {
            Result::Okay(_) => {},
            Result::Fail(_) => {
                proof {
                    assert(false);
                }
            },
        }
        if buf_1[i] != buf_2[i] {
            proof {
                lemma_guard_declared_bound_suffices(old(meter)@, GUARD_ID, bound, (i + 1) as nat);
                assert(meter@.remove(GUARD_ID) =~= old(meter)@);
                assert(buf_1@[i as int] != buf_2@[i as int]);
            }
            return false;
        }
        i = i + 1;
    }
    proof {
        lemma_guard_declared_bound_suffices(old(meter)@, GUARD_ID, bound, (len1 + 1) as nat);
    }
    match meter.hit(GUARD_ID, bound) {
        Result::Okay(_) => {},
        Result::Fail(_) => {
            proof {
                assert(false);
            }
        },
    }
    proof {
        assert(meter@.remove(GUARD_ID) =~= old(meter)@);
        assert(buf_1@ =~= buf_2@);
    }
    true
}

/// Writes zero over every byte of the buffer, one byte per guarded
/// iteration.
///
/// The token must be unique to this call site and not yet asserted in
/// this invocation.  The loop declares the bound `len + 1` and runs the
/// buffer to its end, so the meter afterwards shows this token with
/// that bound and a count equal to it, and every other token untouched.
pub fn buffer_zeroize<const GUARD_ID: u32>(meter: &mut GuardMeter, buf: &mut Vec<u8>)
    requires
        old(meter).wf(),
        !old(meter)@.dom().contains(GUARD_ID),
        old(buf)@.len() + 1 <= u32::MAX,
    ensures
        final(meter).wf(),
        final(buf)@.len() == old(buf)@.len(),
        forall|j: int| 0 <= j < final(buf)@.len() ==> final(buf)@[j] == 0,
        final(meter)@.remove(GUARD_ID) == old(meter)@,
        final(meter)@.dom().contains(GUARD_ID),
        final(meter)@[GUARD_ID] == ((old(buf)@.len() + 1) as u32, (old(buf)@.len() + 1) as u32),
{
    let len = buf.len();
    let bound: u32 = (len as u32) + 1;
    let mut i: usize = 0;
    while i < len
        invariant
            meter.wf(),
            buf@.len() == len,
            len + 1 <= u32::MAX,
            bound == len + 1,
            0 <= i <= len,
            forall|j: int| 0 <= j < i ==> buf@[j] == 0,
            !old(meter)@.dom().contains(GUARD_ID),
            meter@ == guard_run(old(meter)@, GUARD_ID, bound, i as nat),
        decreases len - i,
    {
        proof {
            lemma_guard_declared_bound_suffices(old(meter)@, GUARD_ID, bound, (i + 1) as nat);
        }
        match meter.hit(GUARD_ID, bound) {
            Result::Okay(_) => {},
            Result::Fail(_) => {
                proof {
                    assert(false);
                }
            },
        }
        buf.set(i, 0);
        i = i + 1;
    }
    proof {
        lemma_guard_declared_bound_suffices(old(meter)@, GUARD_ID, bound, (len + 1) as nat);
    }
    match meter.hit(GUARD_ID, bound) {
        Result::Okay(_) => {},
        Result::Fail(_) => {
            proof {
                assert(false);
            }
        },
    }
    proof {
        assert(meter@.remove(GUARD_ID) =~= old(meter)@);
    }
}

/// Establishes a condition that the surrounding program relies on.
///
/// A failed condition rolls the whole invocation back, so the verified
/// library admits this call only where the condition holds; the
/// dispatcher tests the condition first and performs the rollback with
/// the given message when it fails.
pub fn require(cond: bool, message: &[u8])
    requires
        cond,
{
    let _ = message;
}

/// The drop count carried by an 8-byte native amount: the low six bits
/// of the first byte and the seven following bytes, big-endian.
pub open spec fn native_amount_value(s: Seq<u8>) -> int {
    (s[0] % 64) * 0x100000000000000 + s[1] * 0x1000000000000 + s[2] * 0x10000000000
        + s[3] * 0x100000000 + s[4] * 0x1000000 + s[5] * 0x10000 + s[6] * 0x100 + s[7]
}

/// Reads a serialized native amount as a drop count.
///
/// The top bit of the first byte is reserved; an amount with that bit
/// set is rejected.  The positive-value flag in the next bit is not part
/// of the count and is masked away.
pub fn amount_to_drops(amount_buf: &[u8]) -> (r: Result<u64>)
    requires
        amount_buf@.len() >= 8,
    ensures
        amount_buf@[0] >= 128 ==> r == Result::<u64>::Fail(Error::InternalError),
        amount_buf@[0] < 128 ==> (r matches Result::Okay(v) && v == native_amount_value(
            amount_buf@,
        )),
{
    if amount_buf[0] >= 128 {
        return Result::Fail(Error::InternalError);
    }
    Result::Okay(
        ((amount_buf[0] % 64) as u64) * 0x100000000000000
            + (amount_buf[1] as u64) * 0x1000000000000 + (amount_buf[2] as u64) * 0x10000000000
            + (amount_buf[3] as u64) * 0x100000000 + (amount_buf[4] as u64) * 0x1000000
            + (amount_buf[5] as u64) * 0x10000 + (amount_buf[6] as u64) * 0x100 + (
        amount_buf[7] as u64),
    )
}

/// The 8-byte serialization of a drop count: the positive-value flag,
/// then the 62-bit count big-endian.
pub open spec fn native_amount_bytes(drops: u64) -> Seq<u8> {
    seq![
        (64 + (drops / 0x100000000000000) % 64) as u8,
        ((drops / 0x1000000000000) % 256) as u8,
        ((drops / 0x10000000000) % 256) as u8,
        ((drops / 0x100000000) % 256) as u8,
        ((drops / 0x1000000) % 256) as u8,
        ((drops / 0x10000) % 256) as u8,
        ((drops / 0x100) % 256) as u8,
        (drops % 256) as u8,
    ]
}

/// Serializes a drop count as an 8-byte native amount.
///
/// A count with the reserved top bit set is rejected.
pub fn drops_to_amount(drops: u64) -> (r: Result<[u8; 8]>)
    ensures
        drops >= 0x8000000000000000 ==> r == Result::<[u8; 8]>::Fail(Error::InternalError),
        drops < 0x8000000000000000 ==> (r matches Result::Okay(a) && a@ == native_amount_bytes(
            drops,
        )),
{
    if drops >= 0x8000000000000000 {
        return Result::Fail(Error::InternalError);
    }
    let b0: u8 = 64 + ((drops / 0x100000000000000) % 64) as u8;
    let b1: u8 = ((drops / 0x1000000000000) % 256) as u8;
    let b2: u8 = ((drops / 0x10000000000) % 256) as u8;
    let b3: u8 = ((drops / 0x100000000) % 256) as u8;
    let b4: u8 = ((drops / 0x1000000) % 256) as u8;
    let b5: u8 = ((drops / 0x10000) % 256) as u8;
    let b6: u8 = ((drops / 0x100) % 256) as u8;
    let b7: u8 = (drops % 256) as u8;
    let out: [u8; 8] = [b0, b1, b2, b3, b4, b5, b6, b7];
    proof {
        assert(out@ =~= native_amount_bytes(drops));
    }
    Result::Okay(out)
}

/// A drop count below the positive-value flag survives the round trip
/// through its 8-byte serialization unchanged.
pub proof fn lemma_native_amount_round_trip(drops: u64)
    requires
        drops < 0x4000000000000000,
    ensures
        native_amount_value(native_amount_bytes(drops)) == drops,
{
    let s = native_amount_bytes(drops);
    assert(s[0] == (64 + (drops / 0x100000000000000) % 64) as u8);
    assert((64 + (drops / 0x100000000000000) % 64) as u8 % 64 == (drops / 0x100000000000000) % 64
        && ((drops / 0x1000000000000) % 256) as u8 == (drops / 0x1000000000000) % 256
        && ((drops / 0x10000000000) % 256) as u8 == (drops / 0x10000000000) % 256
        && ((drops / 0x100000000) % 256) as u8 == (drops / 0x100000000) % 256
        && ((drops / 0x1000000) % 256) as u8 == (drops / 0x1000000) % 256
        && ((drops / 0x10000) % 256) as u8 == (drops / 0x10000) % 256
        && ((drops / 0x100) % 256) as u8 == (drops / 0x100) % 256
        && (drops % 256) as u8 == drops % 256) by (bit_vector);
    assert((drops / 0x100000000000000) % 64 * 0x100000000000000
        + (drops / 0x1000000000000) % 256 * 0x1000000000000
        + (drops / 0x10000000000) % 256 * 0x10000000000
        + (drops / 0x100000000) % 256 * 0x100000000
        + (drops / 0x1000000) % 256 * 0x1000000
        + (drops / 0x10000) % 256 * 0x10000
        + (drops / 0x100) % 256 * 0x100
        + drops % 256 == drops) by (bit_vector)
        requires drops < 0x4000000000000000,
    ;
}

/// Whether the transaction now being handled left the hook's own
/// account, given the hook account identifier and the originating
/// transaction's account identifier as fetched from the host.
///
/// Identifiers shorter than the canonical 20 bytes are rejected the way
/// an undersized output buffer is.  Only the first 20 bytes take part
/// in the comparison.
pub fn is_txn_outgoing(hook_acc_id: &[u8], otxn_acc_id: &[u8]) -> (r: Result<bool>)
    ensures
        hook_acc_id@.len() >= 20 && otxn_acc_id@.len() >= 20 ==> r == Result::Okay(
            hook_acc_id@.subrange(0, 20) == otxn_acc_id@.subrange(0, 20),
        ),
        hook_acc_id@.len() < 20 || otxn_acc_id@.len() < 20 ==> r == Result::<bool>::Fail(
            Error::TooSmall,
        ),
{
    if hook_acc_id.len() < 20 || otxn_acc_id.len() < 20 {
        return Result::Fail(Error::TooSmall);
    }
    Result::Okay(is_buffer_equal_20(hook_acc_id, otxn_acc_id))
}

/// Whether the transaction now being handled arrives at the hook's own
/// account: the exact complement of `is_txn_outgoing` on the same
/// identifiers.
pub fn is_txn_ingoing(hook_acc_id: &[u8], otxn_acc_id: &[u8]) -> (r: Result<bool>)
    ensures
        hook_acc_id@.len() >= 20 && otxn_acc_id@.len() >= 20 ==> r == Result::Okay(
            hook_acc_id@.subrange(0, 20) != otxn_acc_id@.subrange(0, 20),
        ),
        hook_acc_id@.len() < 20 || otxn_acc_id@.len() < 20 ==> r == Result::<bool>::Fail(
            Error::TooSmall,
        ),
{
    match is_txn_outgoing(hook_acc_id, otxn_acc_id) {
        Result::Okay(res) => Result::Okay(!res),
        Result::Fail(e) => Result::Fail(e),
    }
}

} // verus!
