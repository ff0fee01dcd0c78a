//! Scalars on the wire: single bytes, little-endian 32-bit words and array
//! lengths, written and read by the `bebop` runtime.

use vstd::prelude::*;

verus! {

/// Number of bytes a length prefix or a 32-bit word takes on the wire.
pub const LEN_SIZE: usize = 4;

/// The four bytes of `v`, least significant first.
pub open spec fn spec_u32_le(v: u32) -> Seq<u8> {
    seq![
        (v % 256) as u8,
        ((v / 256) % 256) as u8,
        ((v / 65536) % 256) as u8,
        (v / 16777216) as u8,
    ]
}

/// The word whose little-endian bytes are the first four bytes of `raw`.
pub open spec fn spec_u32_from_le(raw: Seq<u8>) -> u32
    recommends
        raw.len() >= 4,
{
    (raw[0] + 256 * raw[1] + 65536 * raw[2] + 16777216 * raw[3]) as u32
}

/// Reading back the bytes of a word gives the word, whatever follows them.
pub proof fn lemma_u32_le_round_trip(v: u32, rest: Seq<u8>)
    ensures
        spec_u32_le(v).len() == 4,
        spec_u32_from_le(spec_u32_le(v) + rest) == v,
{
    assert((spec_u32_le(v) + rest).subrange(0, 4) == spec_u32_le(v));
}

/// Writing out the word read from four bytes gives those four bytes.
pub proof fn lemma_u32_from_le_inverse(raw: Seq<u8>)
    requires
        raw.len() >= 4,
    ensures
        spec_u32_le(spec_u32_from_le(raw)) == raw.subrange(0, 4),
{
    let (b0, b1, b2, b3) = (raw[0] as int, raw[1] as int, raw[2] as int, raw[3] as int);
    let high = b2 + 256 * b3;
    let upper = b1 + 256 * high;
    let n = b0 + 256 * upper;
    assert(spec_u32_from_le(raw) == n);
    assert(n % 256 == b0 && n / 256 == upper);
    assert(upper % 256 == b1 && n / 65536 == high);
    assert(high % 256 == b2 && n / 16777216 == b3);
    assert(spec_u32_le(spec_u32_from_le(raw)) =~= raw.subrange(0, 4));
}

/// Appends one byte to `dest` with `bebop`'s `SubRecord::_serialize_chained`
/// for `u8`. Writing into a vector cannot fail, and the byte goes in as it is.
#[verifier::external_body]
pub(crate) fn write_u8(dest: &mut Vec<u8>, v: u8) -> (ok: bool)
    ensures
        ok,
        final(dest)@ == old(dest)@.push(v),
{
    bebop::SubRecord::_serialize_chained(&v, dest).is_ok()
}

/// Appends a 32-bit word to `dest` with `bebop`'s
/// `SubRecord::_serialize_chained` for `u32`: four bytes, least significant
/// first. Writing into a vector cannot fail.
#[verifier::external_body]
pub(crate) fn write_u32(dest: &mut Vec<u8>, v: u32) -> (ok: bool)
    ensures
        ok,
        final(dest)@ == old(dest)@ + spec_u32_le(v),
{
    bebop::SubRecord::_serialize_chained(&v, dest).is_ok()
}

/// Appends an array length to `dest` with `bebop::write_len`. A length above
/// `u32::MAX` is refused and nothing is written; any other goes out as a
/// 32-bit word.
#[verifier::external_body]
pub(crate) fn write_len(dest: &mut Vec<u8>, len: usize) -> (ok: bool)
    ensures
        ok <==> len <= u32::MAX,
        ok ==> final(dest)@ == old(dest)@ + spec_u32_le(len as u32),
        !ok ==> final(dest)@ == old(dest)@,
{
    bebop::write_len(dest, len).is_ok()
}

/// Appends a byte array to `dest` with `bebop`'s
/// `SubRecord::_serialize_chained` for `SliceWrapper<u8>`: the number of bytes
/// as a length, then the bytes as they are. An array of more than `u32::MAX`
/// bytes is refused and nothing is written.
#[verifier::external_body]
pub(crate) fn write_bytes(dest: &mut Vec<u8>, data: &[u8]) -> (ok: bool)
    ensures
        ok <==> data@.len() <= u32::MAX,
        ok ==> final(dest)@ == old(dest)@ + spec_u32_le(data@.len() as u32) + data@,
        !ok ==> final(dest)@ == old(dest)@,
{
    bebop::SubRecord::_serialize_chained(&bebop::SliceWrapper::<u8>::Raw(data), dest).is_ok()
}

/// Reads one byte from the front of `raw` with `bebop`'s
/// `SubRecord::_deserialize_chained` for `u8`. It fails on an empty slice
/// only, and otherwise reports one byte read.
#[verifier::external_body]
pub(crate) fn read_u8(raw: &[u8]) -> (r: Option<(usize, u8)>)
    ensures
        raw@.len() == 0 ==> r.is_none(),
        raw@.len() > 0 ==> r == Some((1usize, raw@[0])),
{
    <u8 as bebop::SubRecord>::_deserialize_chained(raw).ok()
}

/// Reads a 32-bit word from the front of `raw` with `bebop`'s
/// `SubRecord::_deserialize_chained` for `u32`. It fails on fewer than four
/// bytes only, and otherwise reports four bytes read.
#[verifier::external_body]
pub(crate) fn read_u32(raw: &[u8]) -> (r: Option<(usize, u32)>)
    ensures
        raw@.len() < 4 ==> r.is_none(),
        raw@.len() >= 4 ==> r == Some((4usize, spec_u32_from_le(raw@))),
{
    <u32 as bebop::SubRecord>::_deserialize_chained(raw).ok()
}

/// Reads an array length from the front of `raw` with `bebop::read_len`: the
/// 32-bit word there, widened. It fails on fewer than four bytes only.
#[verifier::external_body]
pub(crate) fn read_len(raw: &[u8]) -> (r: Option<usize>)
    ensures
        raw@.len() < 4 ==> r.is_none(),
        raw@.len() >= 4 ==> r == Some(spec_u32_from_le(raw@) as usize),
{
    bebop::read_len(raw).ok()
}

} // verus!
