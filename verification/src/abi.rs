//! Small decisions of the call adapter.
//!
//! Every host routine is one of a handful of positional call shapes:
//! scalars in, a write buffer out, read buffers in, or a mix.  The
//! unverified shim owns the raw calls; what it must decide beforehand,
//! and how a packed answer is taken apart, is verified here.

use vstd::prelude::*;

verus! {

/// How traced bytes are rendered in the log.
#[derive(Clone, Copy, PartialEq, Eq, Structural, Debug)]
pub enum DataRepr {
    /// Render the bytes as UTF-8 text.
    AsUTF8,
    /// Render the bytes as hexadecimal.
    AsHex,
}

impl DataRepr {
    /// The scalar the host takes for this rendering.
    pub open spec fn spec_code(self) -> u32 {
        match self {
            DataRepr::AsUTF8 => 0u32,
            DataRepr::AsHex => 1u32,
        }
    }

    /// The scalar the host takes for this rendering.
    #[verifier::when_used_as_spec(spec_code)]
    pub fn code(self) -> (c: u32)
        ensures
            c == self.spec_code(),
    {
        match self {
            DataRepr::AsUTF8 => 0,
            DataRepr::AsHex => 1,
        }
    }
}

/// Which transaction hash an identifier request asks for.
#[derive(Clone, Copy, PartialEq, Eq, Structural, Debug)]
pub enum TxnTypeFlags {
    /// The canonical hash of the originating transaction.
    OriginatingTxn,
    /// The canonical hash of the emitting transaction, where the
    /// originating transaction records an emission failure.
    EmittingTxnIfEmitFailure,
}

impl TxnTypeFlags {
    /// The scalar the host takes for this request.
    pub open spec fn spec_code(self) -> u32 {
        match self {
            TxnTypeFlags::OriginatingTxn => 0u32,
            TxnTypeFlags::EmittingTxnIfEmitFailure => 1u32,
        }
    }

    /// The scalar the host takes for this request.
    #[verifier::when_used_as_spec(spec_code)]
    pub fn code(self) -> (c: u32)
        ensures
            c == self.spec_code(),
    {
        match self {
            TxnTypeFlags::OriginatingTxn => 0,
            TxnTypeFlags::EmittingTxnIfEmitFailure => 1,
        }
    }
}

/// What a slot-type query asks about a slotted object.
#[derive(Clone, Copy, PartialEq, Eq, Structural, Debug)]
pub enum SlotTypeFlags {
    /// Ask for the field identifier of the slotted object.
    Field,
    /// Ask whether a slotted amount is the native currency.
    NativeAmount,
}

impl SlotTypeFlags {
    /// The scalar the host takes for this query.
    pub open spec fn spec_code(self) -> u32 {
        match self {
            SlotTypeFlags::Field => 0u32,
            SlotTypeFlags::NativeAmount => 1u32,
        }
    }

    /// The scalar the host takes for this query.
    #[verifier::when_used_as_spec(spec_code)]
    pub fn code(self) -> (c: u32)
        ensures
            c == self.spec_code(),
    {
        match self {
            SlotTypeFlags::Field => 0,
            SlotTypeFlags::NativeAmount => 1,
        }
    }
}

/// Takes apart a packed memory location: the host answers some queries
/// with an offset in the high 32 bits and an unsigned length in the
/// low 32 bits of one non-negative code.  The result is the start and
/// the end of the named region; a negative code is an error, not a
/// location, and the region's end must fit the machine's address
/// width.
pub fn range_from_location(location: i64) -> (r: (usize, usize))
    requires
        0 <= location,
        location / 0x100000000 + location % 0x100000000 <= usize::MAX,
    ensures
        r.0 == location / 0x100000000,
        r.1 == location / 0x100000000 + location % 0x100000000,
{
    let offset: usize = (location / 0x100000000) as usize;
    let length: u64 = (location % 0x100000000) as u64;
    (offset, offset + length as usize)
}

/// Whether a region holds the byte at address `i`.
pub open spec fn region_contains(ptr: usize, len: usize, i: int) -> bool {
    ptr <= i < ptr + len
}

/// Whether a write region and a read region of one call alias any
/// byte.  A call whose regions overlap has host-dependent semantics and
/// must be refused as `Error::MemOverlap` before it is issued; the shim
/// asks this before every write-and-read call.
pub fn buffers_overlap(w_ptr: usize, w_len: usize, r_ptr: usize, r_len: usize) -> (r: bool)
    requires
        w_ptr + w_len <= usize::MAX,
        r_ptr + r_len <= usize::MAX,
    ensures
        r == exists|i: int|
            #[trigger] region_contains(w_ptr, w_len, i) && region_contains(r_ptr, r_len, i),
{
    let overlap = w_len > 0 && r_len > 0 && w_ptr < r_ptr + r_len && r_ptr < w_ptr + w_len;
    proof {
        if overlap {
            let i: int = if w_ptr >= r_ptr {
                w_ptr as int
            } else {
                r_ptr as int
            };
            assert(region_contains(w_ptr, w_len, i) && region_contains(r_ptr, r_len, i));
        }
    }
    overlap
}

} // verus!
