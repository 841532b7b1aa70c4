//! Fixed-width integers as bytes, most significant byte first.

use vstd::prelude::*;

verus! {

/// The four bytes of a 32-bit number.
pub open spec fn be_u32(value: u32) -> Seq<u8> {
    seq![
        (value as int / 16777216) as u8,
        (value as int / 65536 % 256) as u8,
        (value as int / 256 % 256) as u8,
        (value as int % 256) as u8,
    ]
}

/// The number that the four bytes of `bytes` from `at` on stand for.
pub open spec fn u32_at(bytes: Seq<u8>, at: int) -> int {
    bytes[at] * 16777216 + bytes[at + 1] * 65536 + bytes[at + 2] * 256 + bytes[at + 3]
}

/// The eight bytes of a 64-bit number: its high half, then its low half.
pub open spec fn be_u64(value: u64) -> Seq<u8> {
    be_u32((value as int / 4294967296) as u32) + be_u32((value as int % 4294967296) as u32)
}

/// The number that the eight bytes of `bytes` from `at` on stand for.
pub open spec fn u64_at(bytes: Seq<u8>, at: int) -> int {
    u32_at(bytes, at) * 4294967296 + u32_at(bytes, at + 4)
}

/// Two's complement of a signed 64-bit number.
pub open spec fn unsigned_bits(value: i64) -> int {
    if value < 0 {
        value + 18446744073709551616
    } else {
        value as int
    }
}

/// The eight bytes of a signed 64-bit number in two's complement.
pub open spec fn be_i64(value: i64) -> Seq<u8> {
    be_u64(unsigned_bits(value) as u64)
}

/// The signed number that the eight bytes of `bytes` from `at` on stand for.
pub open spec fn i64_at(bytes: Seq<u8>, at: int) -> int {
    if u64_at(bytes, at) >= 9223372036854775808 {
        u64_at(bytes, at) - 18446744073709551616
    } else {
        u64_at(bytes, at)
    }
}

/// Whether `part` stands in `bytes` from `at` on.
pub open spec fn holds_at(bytes: Seq<u8>, at: int, part: Seq<u8>) -> bool {
    &&& 0 <= at
    &&& at + part.len() <= bytes.len()
    &&& forall|i: int| 0 <= i < part.len() ==> #[trigger] bytes[at + i] == part[i]
}

/// Where two parts stand in a row, each stands at its own place.
pub proof fn lemma_holds_split(bytes: Seq<u8>, at: int, first: Seq<u8>, second: Seq<u8>)
    requires
        holds_at(bytes, at, first + second),
    ensures
        holds_at(bytes, at, first),
        holds_at(bytes, at + first.len(), second),
{
    assert forall|i: int| 0 <= i < first.len() implies #[trigger] bytes[at + i] == first[i] by {
        assert((first + second)[i] == first[i]);
    }
    assert forall|i: int| 0 <= i < second.len() implies #[trigger] bytes[at + first.len() + i]
        == second[i] by {
        assert((first + second)[first.len() + i] == second[i]);
        assert(bytes[at + (first.len() + i)] == (first + second)[first.len() + i]);
    }
}

/// Reading back a written 32-bit number.
pub proof fn lemma_u32_round_trip(bytes: Seq<u8>, at: int, value: u32)
    requires
        holds_at(bytes, at, be_u32(value)),
    ensures
        u32_at(bytes, at) == value,
{
    let part = be_u32(value);
    assert(bytes[at + 0] == part[0]);
    assert(bytes[at + 1] == part[1]);
    assert(bytes[at + 2] == part[2]);
    assert(bytes[at + 3] == part[3]);
}

/// Reading back a written 64-bit number.
pub proof fn lemma_u64_round_trip(bytes: Seq<u8>, at: int, value: u64)
    requires
        holds_at(bytes, at, be_u64(value)),
    ensures
        u64_at(bytes, at) == value,
{
    let high = (value as int / 4294967296) as u32;
    let low = (value as int % 4294967296) as u32;
    lemma_holds_split(bytes, at, be_u32(high), be_u32(low));
    lemma_u32_round_trip(bytes, at, high);
    lemma_u32_round_trip(bytes, at + 4, low);
}

/// Reading back a written signed 64-bit number.
pub proof fn lemma_i64_round_trip(bytes: Seq<u8>, at: int, value: i64)
    requires
        holds_at(bytes, at, be_i64(value)),
    ensures
        i64_at(bytes, at) == value,
{
    lemma_u64_round_trip(bytes, at, unsigned_bits(value) as u64);
}

/// Appends the four bytes of `value`.
pub fn push_u32(out: &mut Vec<u8>, value: u32)
    ensures
        final(out)@ == old(out)@ + be_u32(value),
{
    out.push((value / 16777216) as u8);
    out.push((value / 65536 % 256) as u8);
    out.push((value / 256 % 256) as u8);
    out.push((value % 256) as u8);
    assert(out@ =~= old(out)@ + be_u32(value));
}

/// Appends the eight bytes of `value`.
pub fn push_u64(out: &mut Vec<u8>, value: u64)
    ensures
        final(out)@ == old(out)@ + be_u64(value),
{
    push_u32(out, (value / 4294967296) as u32);
    push_u32(out, (value % 4294967296) as u32);
    assert(out@ =~= old(out)@ + be_u64(value));
}

/// Appends the eight bytes of `value` in two's complement.
pub fn push_i64(out: &mut Vec<u8>, value: i64)
    ensures
        final(out)@ == old(out)@ + be_i64(value),
{
    if value >= 0 {
        push_u64(out, value as u64);
    } else {
        push_u64(out, (value - i64::MIN) as u64 + 9223372036854775808);
    }
}

/// Reads four bytes.
pub fn read_u32_at(bytes: &[u8], at: usize) -> (value: u32)
    requires
        at + 4 <= bytes@.len(),
    ensures
        value == u32_at(bytes@, at as int),
{
    bytes[at] as u32 * 16777216 + bytes[at + 1] as u32 * 65536 + bytes[at + 2] as u32 * 256
        + bytes[at + 3] as u32
}

/// Reads eight bytes.
pub fn read_u64_at(bytes: &[u8], at: usize) -> (value: u64)
    requires
        at + 8 <= bytes@.len(),
    ensures
        value == u64_at(bytes@, at as int),
{
    // A place before the length of the slice is no larger than the largest index.
    let _length: usize = bytes.len();
    let high: u32 = read_u32_at(bytes, at);
    let low: u32 = read_u32_at(bytes, at + 4);
    high as u64 * 4294967296 + low as u64
}

/// Reads eight bytes in two's complement.
pub fn read_i64_at(bytes: &[u8], at: usize) -> (value: i64)
    requires
        at + 8 <= bytes@.len(),
    ensures
        value == i64_at(bytes@, at as int),
{
    let bits: u64 = read_u64_at(bytes, at);
    if bits >= 9223372036854775808 {
        (bits - 9223372036854775808) as i64 + i64::MIN
    } else {
        bits as i64
    }
}

/// Appends a slice of bytes.
pub fn push_bytes(out: &mut Vec<u8>, part: &[u8])
    ensures
        final(out)@ == old(out)@ + part@,
{
    out.extend_from_slice(part);
    assert(out@ =~= old(out)@ + part@);
}

/// Copies the bytes from `from` up to `to`.
pub fn copy_range(bytes: &[u8], from: usize, to: usize) -> (result: Vec<u8>)
    requires
        from <= to <= bytes@.len(),
    ensures
        result@ == bytes@.subrange(from as int, to as int),
{
    vstd::slice::slice_to_vec(vstd::slice::slice_subrange(bytes, from, to))
}

/// Copies bytes.
pub fn copy_bytes(bytes: &Vec<u8>) -> (result: Vec<u8>)
    ensures
        result@ == bytes@,
{
    vstd::slice::slice_to_vec(bytes.as_slice())
}

/// A number is stored with its most significant byte first.
pub proof fn lemma_numbers_start_with_their_high_byte(value: u32)
    ensures
        be_u32(value).len() == 4,
        value == 16777216 * be_u32(value)[0] + 65536 * be_u32(value)[1] + 256 * be_u32(value)[2]
            + be_u32(value)[3],
{
}

} // verus!
