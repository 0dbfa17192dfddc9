//! The byte layout of a record buffer: the separator, where records end,
//! and integers in big-endian order.

use vstd::prelude::*;
use vstd::utf8::*;

verus! {

/// Record separator: a byte that never occurs inside valid UTF-8.
pub const SEP: u8 = 0xFF;

/// Where the record that starts at `pos` ends: the index of the first
/// separator at or after `pos`, or the buffer's length where none follows.
pub open spec fn record_end(buf: Seq<u8>, pos: int) -> int
    decreases buf.len() - pos,
{
    if 0 <= pos < buf.len() && buf[pos] != SEP {
        record_end(buf, pos + 1)
    } else {
        pos
    }
}

/// The bytes of the record that starts at `pos`.
pub open spec fn record_at(buf: Seq<u8>, pos: int) -> Seq<u8> {
    buf.subrange(pos, record_end(buf, pos))
}

/// True when no byte of `bytes` is the separator.
pub open spec fn sep_free(bytes: Seq<u8>) -> bool {
    forall|i: int| 0 <= i < bytes.len() ==> bytes[i] != SEP
}

/// A record ends inside the buffer, holds no separator, and is followed by
/// a separator or by the end of the buffer.
pub proof fn lemma_record_end(buf: Seq<u8>, pos: int)
    requires
        0 <= pos <= buf.len(),
    ensures
        pos <= record_end(buf, pos) <= buf.len(),
        forall|i: int| pos <= i < record_end(buf, pos) ==> buf[i] != SEP,
        record_end(buf, pos) < buf.len() ==> buf[record_end(buf, pos)] == SEP,
        sep_free(record_at(buf, pos)),
    decreases buf.len() - pos,
{
    if pos < buf.len() && buf[pos] != SEP {
        lemma_record_end(buf, pos + 1);
    }
}

/// The end of a record is the only index with the properties of
/// `lemma_record_end`.
pub proof fn lemma_record_end_is(buf: Seq<u8>, pos: int, end: int)
    requires
        0 <= pos <= end <= buf.len(),
        forall|i: int| pos <= i < end ==> buf[i] != SEP,
        end < buf.len() ==> buf[end] == SEP,
    ensures
        record_end(buf, pos) == end,
    decreases end - pos,
{
    if pos < end {
        lemma_record_end_is(buf, pos + 1, end);
    }
}

/// Valid UTF-8 holds no separator byte.
pub proof fn lemma_utf8_sep_free(bytes: Seq<u8>)
    requires
        valid_utf8(bytes),
    ensures
        sep_free(bytes),
    decreases bytes.len(),
{
    if bytes.len() > 0 {
        let n = length_of_first_scalar(bytes);
        let rest = pop_first_scalar(bytes);
        assert(valid_first_scalar(bytes));
        assert(1 <= n <= 4 && n <= bytes.len());
        lemma_utf8_sep_free(rest);
        assert forall|i: int| 0 <= i < bytes.len() implies bytes[i] != SEP by {
            if i >= n {
                assert(rest[i - n] == bytes[i]);
            }
        }
    }
}

/// The number that eight bytes spell in big-endian order.
pub open spec fn be_u64(b: Seq<u8>) -> u64
    recommends
        b.len() == 8,
{
    (b[0] * 0x0100_0000_0000_0000 + b[1] * 0x0001_0000_0000_0000 + b[2] * 0x0000_0100_0000_0000
        + b[3] * 0x0000_0001_0000_0000 + b[4] * 0x0000_0000_0100_0000 + b[5]
        * 0x0000_0000_0001_0000 + b[6] * 0x0000_0000_0000_0100 + b[7]) as u64
}

/// The signed number that an unsigned one stands for in two's complement.
pub open spec fn as_signed(v: u64) -> i64 {
    if v < 0x8000_0000_0000_0000 {
        v as i64
    } else {
        (v - 0x1_0000_0000_0000_0000) as i64
    }
}

/// The unsigned number that stands for a signed one in two's complement.
pub open spec fn as_unsigned(v: i64) -> u64 {
    if v >= 0 {
        v as u64
    } else {
        (v + 0x1_0000_0000_0000_0000) as u64
    }
}

/// The signed number that eight bytes spell in big-endian two's complement.
pub open spec fn be_i64(b: Seq<u8>) -> i64
    recommends
        b.len() == 8,
{
    as_signed(be_u64(b))
}

/// The eight bytes of a number, most significant first.
pub open spec fn be_bytes(v: u64) -> Seq<u8> {
    seq![
        (v / 0x0100_0000_0000_0000) as u8,
        (v / 0x0001_0000_0000_0000 % 256) as u8,
        (v / 0x0000_0100_0000_0000 % 256) as u8,
        (v / 0x0000_0001_0000_0000 % 256) as u8,
        (v / 0x0000_0000_0100_0000 % 256) as u8,
        (v / 0x0000_0000_0001_0000 % 256) as u8,
        (v / 0x0000_0000_0000_0100 % 256) as u8,
        (v % 256) as u8,
    ]
}

/// Reading the bytes of a number gives the number back.
pub proof fn lemma_be_round_trip(v: u64)
    ensures
        be_bytes(v).len() == 8,
        be_u64(be_bytes(v)) == v,
{
    let v1 = v / 256;
    let v2 = v1 / 256;
    let v3 = v2 / 256;
    let v4 = v3 / 256;
    let v5 = v4 / 256;
    let v6 = v5 / 256;
    let v7 = v6 / 256;
    assert(v / 0x0000_0000_0000_0100 == v1);
    assert(v / 0x0000_0000_0001_0000 == v2);
    assert(v / 0x0000_0000_0100_0000 == v3);
    assert(v / 0x0000_0001_0000_0000 == v4);
    assert(v / 0x0000_0100_0000_0000 == v5);
    assert(v / 0x0001_0000_0000_0000 == v6);
    assert(v / 0x0100_0000_0000_0000 == v7);
    assert(v7 < 256);
    let b = be_bytes(v);
    assert(b.len() == 8);
    assert(b[0] == v7);
    assert(b[1] == v6 % 256);
    assert(b[2] == v5 % 256);
    assert(b[3] == v4 % 256);
    assert(b[4] == v3 % 256);
    assert(b[5] == v2 % 256);
    assert(b[6] == v1 % 256);
    assert(b[7] == v % 256);
    assert(v6 == v7 * 256 + b[1]);
    assert(v5 == v6 * 256 + b[2]);
    assert(v4 == v5 * 256 + b[3]);
    assert(v3 == v4 * 256 + b[4]);
    assert(v2 == v3 * 256 + b[5]);
    assert(v1 == v2 * 256 + b[6]);
    assert(v == v1 * 256 + b[7]);
}

/// Two's complement loses nothing in either direction.
pub proof fn lemma_signed_round_trip(v: i64, u: u64)
    ensures
        as_signed(as_unsigned(v)) == v,
        as_unsigned(as_signed(u)) == u,
{
}

/// Reads the eight bytes at `pos` as a big-endian number.
pub fn read_be_u64(buf: &[u8], pos: usize) -> (v: u64)
    requires
        pos + 8 <= buf@.len(),
    ensures
        v == be_u64(buf@.subrange(pos as int, pos + 8)),
{
    let b0: u64 = buf[pos] as u64;
    let b1: u64 = buf[pos + 1] as u64;
    let b2: u64 = buf[pos + 2] as u64;
    let b3: u64 = buf[pos + 3] as u64;
    let b4: u64 = buf[pos + 4] as u64;
    let b5: u64 = buf[pos + 5] as u64;
    let b6: u64 = buf[pos + 6] as u64;
    let b7: u64 = buf[pos + 7] as u64;
    b0 * 0x0100_0000_0000_0000 + b1 * 0x0001_0000_0000_0000 + b2 * 0x0000_0100_0000_0000 + b3
        * 0x0000_0001_0000_0000 + b4 * 0x0000_0000_0100_0000 + b5 * 0x0000_0000_0001_0000 + b6
        * 0x0000_0000_0000_0100 + b7
}

/// The signed number that `v` stands for in two's complement.
pub fn to_signed(v: u64) -> (r: i64)
    ensures
        r == as_signed(v),
{
    if v < 0x8000_0000_0000_0000 {
        v as i64
    } else {
        let low: i64 = (v - 0x8000_0000_0000_0000) as i64;
        low + i64::MIN
    }
}

/// The unsigned number that stands for `v` in two's complement.
pub fn to_unsigned(v: i64) -> (r: u64)
    ensures
        r == as_unsigned(v),
{
    if v >= 0 {
        v as u64
    } else {
        let low: u64 = (v - i64::MIN) as u64;
        low + 0x8000_0000_0000_0000
    }
}

/// Appends the eight bytes of `v`, most significant first.
pub fn write_be_u64(out: &mut Vec<u8>, v: u64)
    ensures
        final(out)@ == old(out)@ + be_bytes(v),
{
    out.push((v / 0x0100_0000_0000_0000) as u8);
    out.push((v / 0x0001_0000_0000_0000 % 256) as u8);
    out.push((v / 0x0000_0100_0000_0000 % 256) as u8);
    out.push((v / 0x0000_0001_0000_0000 % 256) as u8);
    out.push((v / 0x0000_0000_0100_0000 % 256) as u8);
    out.push((v / 0x0000_0000_0001_0000 % 256) as u8);
    out.push((v / 0x0000_0000_0000_0100 % 256) as u8);
    out.push((v % 256) as u8);
    assert(out@ =~= old(out)@ + be_bytes(v));
}

} // verus!
