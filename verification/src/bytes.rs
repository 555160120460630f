//! Byte strings: equality, copying, ordering, and fixed-width big-endian
//! integers.

use vstd::prelude::*;

verus! {

/// The big-endian bytes of `value`.
pub open spec fn be64(value: u64) -> Seq<u8> {
    seq![
        (value >> 56) as u8,
        (value >> 48) as u8,
        (value >> 40) as u8,
        (value >> 32) as u8,
        (value >> 24) as u8,
        (value >> 16) as u8,
        (value >> 8) as u8,
        value as u8,
    ]
}

/// The integer whose big-endian bytes are the first eight of `bytes`.
pub open spec fn from_be64(bytes: Seq<u8>) -> u64 {
    ((bytes[0] as u64) << 56) | ((bytes[1] as u64) << 48) | ((bytes[2] as u64) << 40) | ((
    bytes[3] as u64) << 32) | ((bytes[4] as u64) << 24) | ((bytes[5] as u64) << 16) | ((
    bytes[6] as u64) << 8) | (bytes[7] as u64)
}

/// The big-endian bytes of `value`.
pub open spec fn be32(value: u32) -> Seq<u8> {
    seq![(value >> 24) as u8, (value >> 16) as u8, (value >> 8) as u8, value as u8]
}

/// The integer whose big-endian bytes are the first four of `bytes`.
pub open spec fn from_be32(bytes: Seq<u8>) -> u32 {
    ((bytes[0] as u32) << 24) | ((bytes[1] as u32) << 16) | ((bytes[2] as u32) << 8) | (
    bytes[3] as u32)
}

/// The big-endian two's-complement bytes of `value`.
pub open spec fn be_i64(value: i64) -> Seq<u8> {
    be64(value as u64)
}

/// The signed integer whose big-endian bytes are the first eight of `bytes`.
pub open spec fn from_be_i64(bytes: Seq<u8>) -> i64 {
    from_be64(bytes) as i64
}

/// Decoding the eight encoded bytes of an integer gives the integer back.
pub proof fn lemma_be64_round_trip(value: u64)
    ensures
        from_be64(be64(value)) == value,
        be64(value).len() == 8,
{
    assert((((value >> 56) as u8) as u64) << 56 | (((value >> 48) as u8) as u64) << 48 | (((value
        >> 40) as u8) as u64) << 40 | (((value >> 32) as u8) as u64) << 32 | (((value
        >> 24) as u8) as u64) << 24 | (((value >> 16) as u8) as u64) << 16 | (((value
        >> 8) as u8) as u64) << 8 | ((value as u8) as u64) == value) by (bit_vector);
}

/// Eight bytes are the encoding of the integer that they decode to.
pub proof fn lemma_be64_bytes_round_trip(bytes: Seq<u8>)
    requires
        bytes.len() == 8,
    ensures
        be64(from_be64(bytes)) == bytes,
{
    let (a, b, c, d, e, f, g, h) = (
        bytes[0],
        bytes[1],
        bytes[2],
        bytes[3],
        bytes[4],
        bytes[5],
        bytes[6],
        bytes[7],
    );
    let v = from_be64(bytes);
    assert((v >> 56) as u8 == a && (v >> 48) as u8 == b && (v >> 40) as u8 == c && (v
        >> 32) as u8 == d && (v >> 24) as u8 == e && (v >> 16) as u8 == f && (v >> 8) as u8 == g
        && v as u8 == h) by (bit_vector)
        requires
            v == ((a as u64) << 56) | ((b as u64) << 48) | ((c as u64) << 40) | ((d as u64) << 32)
                | ((e as u64) << 24) | ((f as u64) << 16) | ((g as u64) << 8) | (h as u64),
    ;
    assert(be64(v) =~= bytes);
}

/// Decoding the four encoded bytes of an integer gives the integer back.
pub proof fn lemma_be32_round_trip(value: u32)
    ensures
        from_be32(be32(value)) == value,
        be32(value).len() == 4,
{
    assert((((value >> 24) as u8) as u32) << 24 | (((value >> 16) as u8) as u32) << 16 | (((value
        >> 8) as u8) as u32) << 8 | ((value as u8) as u32) == value) by (bit_vector);
}

/// Four bytes are the encoding of the integer that they decode to.
pub proof fn lemma_be32_bytes_round_trip(bytes: Seq<u8>)
    requires
        bytes.len() == 4,
    ensures
        be32(from_be32(bytes)) == bytes,
{
    let (a, b, c, d) = (bytes[0], bytes[1], bytes[2], bytes[3]);
    let v = from_be32(bytes);
    assert((v >> 24) as u8 == a && (v >> 16) as u8 == b && (v >> 8) as u8 == c && v as u8 == d)
        by (bit_vector)
        requires
            v == ((a as u32) << 24) | ((b as u32) << 16) | ((c as u32) << 8) | (d as u32),
    ;
    assert(be32(v) =~= bytes);
}

/// Decoding the eight encoded bytes of a signed integer gives it back.
pub proof fn lemma_be_i64_round_trip(value: i64)
    ensures
        from_be_i64(be_i64(value)) == value,
        be_i64(value).len() == 8,
{
    lemma_be64_round_trip(value as u64);
    assert((value as u64) as i64 == value) by (bit_vector);
}

/// Eight bytes are the encoding of the signed integer that they decode to.
pub proof fn lemma_be_i64_bytes_round_trip(bytes: Seq<u8>)
    requires
        bytes.len() == 8,
    ensures
        be_i64(from_be_i64(bytes)) == bytes,
{
    lemma_be64_bytes_round_trip(bytes);
    let v = from_be64(bytes);
    assert((v as i64) as u64 == v) by (bit_vector);
}

/// Appends `data` to `out`.
pub fn append(out: &mut Vec<u8>, data: &[u8])
    ensures
        final(out)@ == old(out)@ + data@,
{
    out.extend_from_slice(data);
    assert(out@ =~= old(out)@ + data@);
}

/// A vector with the bytes of `data`.
pub fn to_vec(data: &[u8]) -> (copy: Vec<u8>)
    ensures
        copy@ == data@,
{
    let mut copy: Vec<u8> = Vec::new();
    append(&mut copy, data);
    assert(copy@ =~= data@);
    copy
}

/// Whether two byte strings hold the same bytes.
pub fn bytes_equal(left: &[u8], right: &[u8]) -> (equal: bool)
    ensures
        equal == (left@ == right@),
{
    if left.len() != right.len() {
        return false;
    }
    let mut i: usize = 0;
    while i < left.len()
        invariant
            i <= left.len(),
            left.len() == right.len(),
            forall|j: int| 0 <= j < i ==> left@[j] == right@[j],
        decreases left.len() - i,
    {
        if left[i] != right[i] {
            return false;
        }
        i += 1;
    }
    assert(left@ =~= right@);
    true
}

/// Appends the big-endian bytes of `value` to `out`.
pub fn put_u64(out: &mut Vec<u8>, value: u64)
    ensures
        final(out)@ == old(out)@ + be64(value),
{
    out.push((value >> 56) as u8);
    out.push((value >> 48) as u8);
    out.push((value >> 40) as u8);
    out.push((value >> 32) as u8);
    out.push((value >> 24) as u8);
    out.push((value >> 16) as u8);
    out.push((value >> 8) as u8);
    out.push(value as u8);
    assert(out@ =~= old(out)@ + be64(value));
}

/// Appends the big-endian bytes of `value` to `out`.
pub fn put_u32(out: &mut Vec<u8>, value: u32)
    ensures
        final(out)@ == old(out)@ + be32(value),
{
    out.push((value >> 24) as u8);
    out.push((value >> 16) as u8);
    out.push((value >> 8) as u8);
    out.push(value as u8);
    assert(out@ =~= old(out)@ + be32(value));
}

/// Appends the big-endian two's-complement bytes of `value` to `out`.
pub fn put_i64(out: &mut Vec<u8>, value: i64)
    ensures
        final(out)@ == old(out)@ + be_i64(value),
{
    put_u64(out, #[verifier::truncate] (value as u64));
}

/// The integer encoded by the eight bytes of `data` that start at `at`.
pub fn get_u64(data: &[u8], at: usize) -> (value: u64)
    requires
        at + 8 <= data@.len(),
    ensures
        value == from_be64(data@.subrange(at as int, at + 8)),
{
    ((data[at] as u64) << 56) | ((data[at + 1] as u64) << 48) | ((data[at + 2] as u64) << 40) | ((
    data[at + 3] as u64) << 32) | ((data[at + 4] as u64) << 24) | ((data[at + 5] as u64) << 16)
        | ((data[at + 6] as u64) << 8) | (data[at + 7] as u64)
}

/// The integer encoded by the four bytes of `data` that start at `at`.
pub fn get_u32(data: &[u8], at: usize) -> (value: u32)
    requires
        at + 4 <= data@.len(),
    ensures
        value == from_be32(data@.subrange(at as int, at + 4)),
{
    ((data[at] as u32) << 24) | ((data[at + 1] as u32) << 16) | ((data[at + 2] as u32) << 8) | (
    data[at + 3] as u32)
}

/// The signed integer encoded by the eight bytes of `data` that start at `at`.
pub fn get_i64(data: &[u8], at: usize) -> (value: i64)
    requires
        at + 8 <= data@.len(),
    ensures
        value == from_be_i64(data@.subrange(at as int, at + 8)),
{
    #[verifier::truncate]
    (get_u64(data, at) as i64)
}

/// The 32 bytes of `data` that start at `at`.
pub fn get_array32(data: &[u8], at: usize) -> (value: [u8; 32])
    requires
        at + 32 <= data@.len(),
    ensures
        value@ == data@.subrange(at as int, at + 32),
{
    let mut value: [u8; 32] = [0u8; 32];
    let mut i: usize = 0;
    while i < 32
        invariant
            i <= 32,
            at + 32 <= data.len(),
            forall|j: int| 0 <= j < i ==> value@[j] == data@[at + j],
        decreases 32 - i,
    {
        value[i] = data[at + i];
        i += 1;
    }
    assert(value@ =~= data@.subrange(at as int, at + 32));
    value
}

/// Whether two digests hold the same bytes.
pub fn arrays_equal(left: &[u8; 32], right: &[u8; 32]) -> (equal: bool)
    ensures
        equal == (*left == *right),
{
    let mut i: usize = 0;
    while i < 32
        invariant
            i <= 32,
            forall|j: int| 0 <= j < i ==> left@[j] == right@[j],
        decreases 32 - i,
    {
        if left[i] != right[i] {
            assert(left@[i as int] != right@[i as int]);
            return false;
        }
        i += 1;
    }
    assert(left@ =~= right@);
    assert(*left =~= *right);
    true
}

/// `data` starts with `prefix`.
pub open spec fn has_prefix(data: Seq<u8>, prefix: Seq<u8>) -> bool {
    prefix.len() <= data.len() && data.take(prefix.len() as int) == prefix
}

/// Whether `data` starts with `prefix`.
pub fn starts_with(data: &[u8], prefix: &[u8]) -> (yes: bool)
    ensures
        yes == has_prefix(data@, prefix@),
{
    if prefix.len() > data.len() {
        return false;
    }
    let mut i: usize = 0;
    while i < prefix.len()
        invariant
            i <= prefix@.len() <= data@.len(),
            forall|n: int| 0 <= n < i ==> data@[n] == prefix@[n],
        decreases prefix@.len() - i,
    {
        if data[i] != prefix[i] {
            assert(data@.take(prefix@.len() as int)[i as int] != prefix@[i as int]);
            return false;
        }
        i += 1;
    }
    assert(data@.take(prefix@.len() as int) =~= prefix@);
    true
}

} // verus!
