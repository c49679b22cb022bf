//! The byte image of the store: every record as a fixed-width block of
//! little-endian fields, the whole collection as their concatenation.
//! Decoding inverts encoding exactly; any malformed image is reported so
//! that loading can degrade to an empty collection instead of failing.
//!
//! The image is deliberately binary rather than a textual mapping with
//! ISO-8601 timestamps: timestamps are stored as their unix seconds and
//! every field is fixed-width, so the round trip is stated and proved field
//! by field. The durable file keeps the same content either way — each
//! record's identity, counter, and the two channel timestamps.

use vstd::prelude::*;
use vstd::bytes::lemma_auto_spec_u32_to_from_le_bytes;
use vstd::bytes::lemma_auto_spec_u64_to_from_le_bytes;
use vstd::bytes::spec_u32_from_le_bytes;
use vstd::bytes::spec_u32_to_le_bytes;
use vstd::bytes::spec_u64_from_le_bytes;
use vstd::bytes::spec_u64_to_le_bytes;
use vstd::bytes::u32_from_le_bytes;
use vstd::bytes::u32_to_le_bytes;
use vstd::bytes::u64_from_le_bytes;
use vstd::bytes::u64_to_le_bytes;
use vstd::slice::slice_subrange;
use crate::config::all_wf;
use crate::user_data::UserData;

verus! {

/// Bytes of one encoded record: identity, counter, and the two channel
/// timestamps.
pub const RECORD_BYTES: usize = 28;

/// One record as 28 bytes: the identity and the two timestamps as 8
/// little-endian bytes each (two's complement), the counter as 4.
pub open spec fn spec_encode_record(u: UserData) -> Seq<u8> {
    spec_u64_to_le_bytes(u.user_id as u64) + spec_u32_to_le_bytes(u.pisun as u32)
        + spec_u64_to_le_bytes(u.last_command as u64) + spec_u64_to_le_bytes(u.last_train as u64)
}

/// The record read back from 28 bytes; nothing when the counter field does
/// not fit a well-formed record.
pub open spec fn spec_decode_record(b: Seq<u8>) -> Option<UserData>
    recommends
        b.len() == RECORD_BYTES,
{
    let val = spec_u32_from_le_bytes(b.subrange(8, 12));
    if val > i32::MAX as u32 {
        None
    } else {
        Some(
            (UserData {
                user_id: spec_u64_from_le_bytes(b.subrange(0, 8)) as i64,
                pisun: val as i32,
                last_command: spec_u64_from_le_bytes(b.subrange(12, 20)) as i64,
                last_train: spec_u64_from_le_bytes(b.subrange(20, 28)) as i64,
            }),
        )
    }
}

/// A collection of records as the concatenation of their encodings, in
/// store order.
pub open spec fn spec_encode_records(s: Seq<UserData>) -> Seq<u8>
    decreases s.len(),
{
    if s.len() == 0 {
        Seq::<u8>::empty()
    } else {
        spec_encode_record(s.first()) + spec_encode_records(s.drop_first())
    }
}

/// The collection read back from a byte image: record by record, nothing
/// as soon as a block is malformed or a partial block remains.
pub open spec fn spec_decode_records(b: Seq<u8>) -> Option<Seq<UserData>>
    decreases b.len(),
{
    if b.len() == 0 {
        Some(Seq::<UserData>::empty())
    } else if b.len() < RECORD_BYTES {
        None
    } else {
        match spec_decode_record(b.subrange(0, RECORD_BYTES as int)) {
            None => None,
            Some(u) => match spec_decode_records(b.skip(RECORD_BYTES as int)) {
                None => None,
                Some(rest) => Some(seq![u] + rest),
            },
        }
    }
}

/// One record's encoding is one block long and decodes back to the record.
proof fn lemma_record_round_trip(u: UserData)
    requires
        u.wf(),
    ensures
        spec_encode_record(u).len() == RECORD_BYTES,
        spec_decode_record(spec_encode_record(u)) == Some(u),
{
    lemma_auto_spec_u64_to_from_le_bytes();
    lemma_auto_spec_u32_to_from_le_bytes();
    let e = spec_encode_record(u);
    let a = spec_u64_to_le_bytes(u.user_id as u64);
    let b = spec_u32_to_le_bytes(u.pisun as u32);
    let c = spec_u64_to_le_bytes(u.last_command as u64);
    let d = spec_u64_to_le_bytes(u.last_train as u64);
    assert(e.subrange(0, 8) =~= a);
    assert(e.subrange(8, 12) =~= b);
    assert(e.subrange(12, 20) =~= c);
    assert(e.subrange(20, 28) =~= d);
    let id = u.user_id;
    assert(((id as u64) as i64) == id) by (bit_vector);
    let lc = u.last_command;
    assert(((lc as u64) as i64) == lc) by (bit_vector);
    let lt = u.last_train;
    assert(((lt as u64) as i64) == lt) by (bit_vector);
    let p = u.pisun;
    assert(p >= 0 ==> (p as u32) <= 0x7fffffffu32 && ((p as u32) as i32) == p) by (bit_vector);
}

/// Appending one record to the collection appends its block to the image.
proof fn lemma_encode_records_push(s: Seq<UserData>, u: UserData)
    ensures
        spec_encode_records(s.push(u)) == spec_encode_records(s) + spec_encode_record(u),
    decreases s.len(),
{
    if s.len() == 0 {
        let e = Seq::<UserData>::empty();
        assert(s.push(u).drop_first() =~= e);
        assert(s.push(u).first() == u);
        assert(spec_encode_records(s.push(u)) == spec_encode_record(u) + spec_encode_records(e));
        assert(spec_encode_records(e) =~= Seq::<u8>::empty());
        assert(spec_encode_record(u) + spec_encode_records(e) =~= spec_encode_record(u));
        assert(spec_encode_records(s) =~= Seq::<u8>::empty());
        assert(spec_encode_records(s) + spec_encode_record(u) =~= spec_encode_record(u));
    } else {
        lemma_encode_records_push(s.drop_first(), u);
        assert(s.push(u).drop_first() =~= s.drop_first().push(u));
        assert(s.push(u).first() == s.first());
        assert(spec_encode_record(s.first()) + (spec_encode_records(s.drop_first())
            + spec_encode_record(u)) =~= (spec_encode_record(s.first()) + spec_encode_records(
            s.drop_first(),
        )) + spec_encode_record(u));
    }
}

/// The round trip: the image of any collection of well-formed records
/// decodes back to exactly that collection, record for record and field
/// for field.
pub proof fn lemma_records_round_trip(s: Seq<UserData>)
    requires
        all_wf(s),
    ensures
        spec_decode_records(spec_encode_records(s)) == Some(s),
    decreases s.len(),
{
    if s.len() == 0 {
        assert(s =~= Seq::<UserData>::empty());
    } else {
        let u = s.first();
        assert(u.wf());
        lemma_record_round_trip(u);
        let rest = s.drop_first();
        assert(all_wf(rest)) by {
            assert(forall|i: int| 0 <= i < rest.len() ==> rest[i] == s[i + 1]);
        }
        lemma_records_round_trip(rest);
        let e = spec_encode_records(s);
        let eu = spec_encode_record(u);
        assert(e == eu + spec_encode_records(rest));
        assert(e.len() >= RECORD_BYTES);
        assert(e.subrange(0, RECORD_BYTES as int) =~= eu);
        assert(e.skip(RECORD_BYTES as int) =~= spec_encode_records(rest));
        assert(seq![u] + rest =~= s);
    }
}

/// Encodes the collection into its byte image, record by record.
pub fn encode_records(users: &Vec<UserData>) -> (r: Vec<u8>)
    ensures
        r@ == spec_encode_records(users@),
{
    let mut out: Vec<u8> = Vec::new();
    let ghost s = users@;
    proof {
        assert(s.subrange(0, 0) =~= Seq::<UserData>::empty());
    }
    let n = users.len();
    let mut i: usize = 0;
    while i < n
        invariant
            i <= n,
            n == s.len(),
            s == users@,
            out@ == spec_encode_records(s.subrange(0, i as int)),
        decreases n - i,
    {
        let u = users[i];
        let mut b0 = u64_to_le_bytes(u.user_id as u64);
        out.append(&mut b0);
        let mut b1 = u32_to_le_bytes(u.pisun as u32);
        out.append(&mut b1);
        let mut b2 = u64_to_le_bytes(u.last_command as u64);
        out.append(&mut b2);
        let mut b3 = u64_to_le_bytes(u.last_train as u64);
        out.append(&mut b3);
        proof {
            let pre = s.subrange(0, i as int);
            assert(s.subrange(0, i + 1) =~= pre.push(s[i as int]));
            lemma_encode_records_push(pre, s[i as int]);
            assert(out@ =~= spec_encode_records(pre) + spec_encode_record(s[i as int]));
        }
        i += 1;
    }
    proof {
        assert(s.subrange(0, n as int) =~= s);
    }
    out
}

/// Decodes a byte image back into its records, or reports a malformed
/// image: a partial trailing block, or a counter field out of range.
pub fn decode_records(bytes: &[u8]) -> (r: Option<Vec<UserData>>)
    ensures
        match r {
            Some(v) => spec_decode_records(bytes@) == Some(v@) && all_wf(v@),
            None => spec_decode_records(bytes@) is None,
        },
{
    let ghost b = bytes@;
    let n = bytes.len();
    let mut acc: Vec<UserData> = Vec::new();
    let mut i: usize = 0;
    proof {
        assert(b.skip(0) =~= b);
    }
    while n - i >= RECORD_BYTES
        invariant
            i <= n,
            n == b.len(),
            b == bytes@,
            all_wf(acc@),
            match spec_decode_records(b.skip(i as int)) {
                Some(rest) => spec_decode_records(b) == Some(acc@ + rest),
                None => spec_decode_records(b) is None,
            },
        decreases n - i,
    {
        let ghost suffix = b.skip(i as int);
        let ghost chunk = suffix.subrange(0, RECORD_BYTES as int);
        proof {
            assert(chunk =~= b.subrange(i as int, i + 28));
            assert(chunk.subrange(0, 8) =~= b.subrange(i as int, i + 8));
            assert(chunk.subrange(8, 12) =~= b.subrange(i + 8, i + 12));
            assert(chunk.subrange(12, 20) =~= b.subrange(i + 12, i + 20));
            assert(chunk.subrange(20, 28) =~= b.subrange(i + 20, i + 28));
        }
        let id = u64_from_le_bytes(slice_subrange(bytes, i, i + 8));
        let val = u32_from_le_bytes(slice_subrange(bytes, i + 8, i + 12));
        let lc = u64_from_le_bytes(slice_subrange(bytes, i + 12, i + 20));
        let lt = u64_from_le_bytes(slice_subrange(bytes, i + 20, i + 28));
        if val > i32::MAX as u32 {
            return None;
        }
        let u = UserData {
            user_id: id as i64,
            pisun: val as i32,
            last_command: lc as i64,
            last_train: lt as i64,
        };
        proof {
            assert((val as i32) >= 0 && spec_decode_record(chunk) == Some(u)) by {
                assert(val <= 0x7fffffffu32 ==> (val as i32) >= 0) by (bit_vector);
            }
            assert(suffix.skip(RECORD_BYTES as int) =~= b.skip(i + 28));
            match spec_decode_records(b.skip(i + 28)) {
                Some(rest2) => {
                    assert(acc@ + (seq![u] + rest2) =~= acc@.push(u) + rest2);
                },
                None => {},
            }
        }
        acc.push(u);
        i += 28;
    }
    if i == n {
        proof {
            assert(b.skip(n as int) =~= Seq::<u8>::empty());
            assert(acc@ + Seq::<UserData>::empty() =~= acc@);
        }
        Some(acc)
    } else {
        proof {
            assert(0 < b.skip(i as int).len() < RECORD_BYTES);
        }
        None
    }
}

} // verus!
