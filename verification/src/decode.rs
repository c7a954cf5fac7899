//! Account decoder: fixed byte layouts for pool, custody and position
//! records.
//!
//! Every record starts with an eight-byte discriminator tag that must
//! equal the expected tag before any field is read.  Fields follow at
//! fixed offsets: multi-byte integers are little-endian, addresses and
//! mints are 32 raw bytes, and a position's side is one byte (0 long,
//! 1 short).  A buffer whose tag mismatches, whose layout is too short,
//! or whose side byte is invalid yields a `DecodeError`; no partial
//! record is ever returned.

use vstd::prelude::*;
use crate::model::{Pool, Custody, Position, Side, DecodeError};

verus! {

/// Total fixed layout of a pool record: tag, aum, fee bps.
pub const POOL_LEN: usize = 24;

/// Total fixed layout of a custody record: tag, mint, oracle, owned,
/// locked, hourly funding bps.
pub const CUSTODY_LEN: usize = 96;

/// Total fixed layout of a position record: tag, custody, collateral
/// custody, side, size, entry price, collateral, update time.
pub const POSITION_LEN: usize = 105;

/// Value of a byte sequence read as a little-endian integer.
pub open spec fn le_bytes(s: Seq<u8>) -> int
    decreases s.len(),
{
    if s.len() == 0 {
        0
    } else {
        s[0] + 256 * le_bytes(s.skip(1))
    }
}

/// Value of the eight bytes at `off`, little-endian.
pub open spec fn le64_at(s: Seq<u8>, off: int) -> int {
    le_bytes(s.subrange(off, off + 8))
}

/// 256 to the power `n`.
pub open spec fn pow256(n: int) -> int
    decreases n,
{
    if n <= 0 {
        1
    } else {
        256 * pow256(n - 1)
    }
}

/// Read the eight bytes at `off` as a little-endian `u64`.
pub fn read_u64_le(bytes: &Vec<u8>, off: usize) -> (r: u64)
    requires
        off + 8 <= bytes@.len(),
    ensures
        r as int == le64_at(bytes@, off as int),
{
    let ghost sub: Seq<u8> = bytes@.subrange(off as int, off as int + 8);
    let len: usize = bytes.len();
    let mut i: usize = 8;
    let mut acc: u64 = 0;
    proof {
        broadcast use vstd::std_specs::vec::group_vec_axioms;
        assert(sub.skip(8) =~= Seq::<u8>::empty());
    }
    while i > 0
        invariant
            i <= 8,
            off + 8 <= len,
            len == bytes@.len(),
            sub == bytes@.subrange(off as int, off as int + 8),
            acc as int == le_bytes(sub.skip(i as int)),
            (acc as int) < pow256(8 - i as int),
        decreases i,
    {
        proof {
            broadcast use vstd::std_specs::vec::group_vec_axioms;
            reveal_with_fuel(pow256, 10);
            assert(sub.skip(i as int - 1).skip(1) =~= sub.skip(i as int));
            assert(sub.skip(i as int - 1)[0] == sub[i as int - 1]);
            assert(pow256(8 - (i - 1) as int) == 256 * pow256(8 - i as int));
        }
        i = i - 1;
        acc = acc * 256 + (bytes[off + i] as u64);
    }
    proof {
        assert(sub.skip(0) =~= sub);
    }
    acc
}

/// Copy the bytes in `[start, end)` into a fresh vector.
pub fn copy_range(bytes: &Vec<u8>, start: usize, end: usize) -> (r: Vec<u8>)
    requires
        start <= end,
        end <= bytes@.len(),
    ensures
        r@ == bytes@.subrange(start as int, end as int),
{
    let mut r: Vec<u8> = Vec::new();
    let mut i: usize = start;
    while i < end
        invariant
            start <= i <= end,
            end <= bytes@.len(),
            r@ =~= bytes@.subrange(start as int, i as int),
        decreases end - i,
    {
        r.push(bytes[i]);
        i = i + 1;
    }
    proof {
        assert(r@ =~= bytes@.subrange(start as int, end as int));
    }
    r
}

/// Does the buffer start with the expected eight-byte tag?
pub fn tag_matches(bytes: &Vec<u8>, tag: &Vec<u8>) -> (r: bool)
    requires
        bytes@.len() >= 8,
        tag@.len() == 8,
    ensures
        r == (bytes@.subrange(0, 8) == tag@),
{
    let mut i: usize = 0;
    while i < 8
        invariant
            i <= 8,
            bytes@.len() >= 8,
            tag@.len() == 8,
            forall|j: int| 0 <= j < i ==> bytes@[j] == tag@[j],
        decreases 8 - i,
    {
        if bytes[i] != tag[i] {
            proof {
                assert(bytes@.subrange(0, 8)[i as int] != tag@[i as int]);
            }
            return false;
        }
        i = i + 1;
    }
    proof {
        assert(bytes@.subrange(0, 8) =~= tag@);
    }
    true
}

/// Decode a pool record: the tag must match and the layout must be
/// complete, else no fields are read.
pub fn decode_pool(bytes: &Vec<u8>, tag: &Vec<u8>) -> (r: Result<Pool, DecodeError>)
    requires
        tag@.len() == 8,
    ensures
        match r {
            Ok(p) => {
                &&& bytes@.len() >= POOL_LEN
                &&& bytes@.subrange(0, 8) == tag@
                &&& p.aum_usd as int == le64_at(bytes@, 8)
                &&& p.increase_position_bps as int == le64_at(bytes@, 16)
            },
            Err(DecodeError::TagMismatch) => bytes@.len() >= 8 && bytes@.subrange(0, 8) != tag@,
            Err(DecodeError::Truncated) => bytes@.len() < 8
                || (bytes@.subrange(0, 8) == tag@ && bytes@.len() < POOL_LEN),
            Err(DecodeError::InvalidSide) => false,
        },
{
    if bytes.len() < 8 {
        return Err(DecodeError::Truncated);
    }
    if !tag_matches(bytes, tag) {
        return Err(DecodeError::TagMismatch);
    }
    if bytes.len() < POOL_LEN {
        return Err(DecodeError::Truncated);
    }
    Ok(Pool {
        aum_usd: read_u64_le(bytes, 8),
        increase_position_bps: read_u64_le(bytes, 16),
    })
}

/// Decode a custody record.
pub fn decode_custody(bytes: &Vec<u8>, tag: &Vec<u8>) -> (r: Result<Custody, DecodeError>)
    requires
        tag@.len() == 8,
    ensures
        match r {
            Ok(c) => {
                &&& bytes@.len() >= CUSTODY_LEN
                &&& bytes@.subrange(0, 8) == tag@
                &&& c.mint@ == bytes@.subrange(8, 40)
                &&& c.oracle@ == bytes@.subrange(40, 72)
                &&& c.owned as int == le64_at(bytes@, 72)
                &&& c.locked as int == le64_at(bytes@, 80)
                &&& c.hourly_funding_bps as int == le64_at(bytes@, 88)
            },
            Err(DecodeError::TagMismatch) => bytes@.len() >= 8 && bytes@.subrange(0, 8) != tag@,
            Err(DecodeError::Truncated) => bytes@.len() < 8
                || (bytes@.subrange(0, 8) == tag@ && bytes@.len() < CUSTODY_LEN),
            Err(DecodeError::InvalidSide) => false,
        },
{
    if bytes.len() < 8 {
        return Err(DecodeError::Truncated);
    }
    if !tag_matches(bytes, tag) {
        return Err(DecodeError::TagMismatch);
    }
    if bytes.len() < CUSTODY_LEN {
        return Err(DecodeError::Truncated);
    }
    Ok(Custody {
        mint: copy_range(bytes, 8, 40),
        oracle: copy_range(bytes, 40, 72),
        owned: read_u64_le(bytes, 72),
        locked: read_u64_le(bytes, 80),
        hourly_funding_bps: read_u64_le(bytes, 88),
    })
}

/// Decode a position record.  The side byte must encode long (0) or
/// short (1).
pub fn decode_position(bytes: &Vec<u8>, tag: &Vec<u8>) -> (r: Result<Position, DecodeError>)
    requires
        tag@.len() == 8,
    ensures
        match r {
            Ok(p) => {
                &&& bytes@.len() >= POSITION_LEN
                &&& bytes@.subrange(0, 8) == tag@
                &&& p.custody@ == bytes@.subrange(8, 40)
                &&& p.collateral_custody@ == bytes@.subrange(40, 72)
                &&& (bytes@[72] == 0 || bytes@[72] == 1)
                &&& p.side == (if bytes@[72] == 0 { Side::Long } else { Side::Short })
                &&& p.size_usd as int == le64_at(bytes@, 73)
                &&& p.price as int == le64_at(bytes@, 81)
                &&& p.collateral_usd as int == le64_at(bytes@, 89)
                &&& p.update_time as int == le64_at(bytes@, 97)
            },
            Err(DecodeError::TagMismatch) => bytes@.len() >= 8 && bytes@.subrange(0, 8) != tag@,
            Err(DecodeError::Truncated) => bytes@.len() < 8
                || (bytes@.subrange(0, 8) == tag@ && bytes@.len() < POSITION_LEN),
            Err(DecodeError::InvalidSide) => bytes@.len() >= POSITION_LEN
                && bytes@.subrange(0, 8) == tag@ && bytes@[72] != 0 && bytes@[72] != 1,
        },
{
    if bytes.len() < 8 {
        return Err(DecodeError::Truncated);
    }
    if !tag_matches(bytes, tag) {
        return Err(DecodeError::TagMismatch);
    }
    if bytes.len() < POSITION_LEN {
        return Err(DecodeError::Truncated);
    }
    let side_byte = bytes[72];
    let side = if side_byte == 0 {
        Side::Long
    } else if side_byte == 1 {
        Side::Short
    } else {
        return Err(DecodeError::InvalidSide);
    };
    Ok(Position {
        custody: copy_range(bytes, 8, 40),
        collateral_custody: copy_range(bytes, 40, 72),
        side,
        size_usd: read_u64_le(bytes, 73),
        price: read_u64_le(bytes, 81),
        collateral_usd: read_u64_le(bytes, 89),
        update_time: read_u64_le(bytes, 97),
    })
}

} // verus!
