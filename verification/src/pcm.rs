//! Little-endian byte layout of signed 16-bit PCM.

use vstd::prelude::*;

verus! {

/// The signed 16-bit value of a little-endian byte pair.
pub open spec fn pcm16_value(low: u8, high: u8) -> i16 {
    if high < 128 {
        (low + 256 * high) as i16
    } else {
        (low + 256 * high - 65536) as i16
    }
}

/// The low byte of a signed 16-bit value.
pub open spec fn low_byte(value: i16) -> u8 {
    ((value as int) % 256) as u8
}

/// The high byte of a signed 16-bit value.
pub open spec fn high_byte(value: i16) -> u8 {
    (((value as int) / 256) % 256) as u8
}

/// The values of consecutive little-endian byte pairs; a dangling last byte is left out.
pub open spec fn decode_pcm16(bytes: Seq<u8>) -> Seq<i16> {
    Seq::new(bytes.len() / 2, |i: int| pcm16_value(bytes[2 * i], bytes[2 * i + 1]))
}

/// The little-endian byte pairs of consecutive values.
pub open spec fn encode_pcm16(values: Seq<i16>) -> Seq<u8> {
    Seq::new(
        2 * values.len(),
        |i: int|
            if i % 2 == 0 {
                low_byte(values[i / 2])
            } else {
                high_byte(values[i / 2])
            },
    )
}

/// Reads one little-endian signed 16-bit value.
pub fn read_pcm16(low: u8, high: u8) -> (value: i16)
    ensures
        value == pcm16_value(low, high),
{
    let unsigned: i32 = low as i32 + 256 * (high as i32);
    if high < 128 {
        unsigned as i16
    } else {
        (unsigned - 65536) as i16
    }
}

/// Appends one signed 16-bit value in little-endian order.
pub fn push_pcm16(bytes: &mut Vec<u8>, value: i16)
    ensures
        final(bytes)@ == old(bytes)@.push(low_byte(value)).push(high_byte(value)),
{
    let unsigned: i32 = if value < 0 {
        value as i32 + 65536
    } else {
        value as i32
    };
    bytes.push((unsigned % 256) as u8);
    bytes.push((unsigned / 256) as u8);
}

/// Decoding what was encoded gives the values back.
pub proof fn encode_then_decode(values: Seq<i16>)
    ensures
        decode_pcm16(encode_pcm16(values)) == values,
{
    assert forall|i: int| 0 <= i < values.len() implies decode_pcm16(encode_pcm16(values))[i]
        == values[i] by {
        assert(encode_pcm16(values)[2 * i] == low_byte(values[i]));
        assert(encode_pcm16(values)[2 * i + 1] == high_byte(values[i]));
    }
    assert(decode_pcm16(encode_pcm16(values)) =~= values);
}

/// Encoding what was decoded gives the bytes back when no byte dangles.
pub proof fn decode_then_encode(bytes: Seq<u8>)
    requires
        bytes.len() % 2 == 0,
    ensures
        encode_pcm16(decode_pcm16(bytes)) == bytes,
{
    let round = encode_pcm16(decode_pcm16(bytes));
    assert(round.len() == bytes.len());
    assert forall|i: int| 0 <= i < bytes.len() implies round[i] == bytes[i] by {
        let pair = i / 2;
        assert(decode_pcm16(bytes)[pair] == pcm16_value(bytes[2 * pair], bytes[2 * pair + 1]));
        if i % 2 == 0 {
            assert(round[i] == low_byte(decode_pcm16(bytes)[pair]));
            assert(i == 2 * pair);
        } else {
            assert(round[i] == high_byte(decode_pcm16(bytes)[pair]));
            assert(i == 2 * pair + 1);
        }
    }
    assert(round =~= bytes);
}

/// Decoding distributes over a split at an even offset.
pub proof fn decode_concat(a: Seq<u8>, b: Seq<u8>)
    requires
        a.len() % 2 == 0,
    ensures
        decode_pcm16(a + b) == decode_pcm16(a) + decode_pcm16(b),
{
    let whole = decode_pcm16(a + b);
    let parts = decode_pcm16(a) + decode_pcm16(b);
    assert(whole.len() == parts.len());
    assert forall|i: int| 0 <= i < whole.len() implies whole[i] == parts[i] by {
        if i < decode_pcm16(a).len() {
            assert((a + b)[2 * i] == a[2 * i]);
            assert((a + b)[2 * i + 1] == a[2 * i + 1]);
        } else {
            let j = i - decode_pcm16(a).len();
            assert((a + b)[2 * i] == b[2 * j]);
            assert((a + b)[2 * i + 1] == b[2 * j + 1]);
        }
    }
    assert(whole =~= parts);
}

/// Encoding distributes over concatenation.
pub proof fn encode_concat(a: Seq<i16>, b: Seq<i16>)
    ensures
        encode_pcm16(a + b) == encode_pcm16(a) + encode_pcm16(b),
{
    let whole = encode_pcm16(a + b);
    let parts = encode_pcm16(a) + encode_pcm16(b);
    assert forall|i: int| 0 <= i < whole.len() implies whole[i] == parts[i] by {
        if i < 2 * a.len() {
            assert((a + b)[i / 2] == a[i / 2]);
        } else {
            let j = i - 2 * a.len();
            assert(i / 2 == a.len() + j / 2);
            assert((a + b)[i / 2] == b[j / 2]);
        }
    }
    assert(whole =~= parts);
}

/// The little-endian bytes of a 16-bit number.
pub open spec fn le16(n: nat) -> Seq<u8> {
    seq![(n % 256) as u8, ((n / 256) % 256) as u8]
}

/// The little-endian bytes of a 32-bit number.
pub open spec fn le32(n: nat) -> Seq<u8> {
    seq![
        (n % 256) as u8,
        ((n / 256) % 256) as u8,
        ((n / 65536) % 256) as u8,
        ((n / 16777216) % 256) as u8,
    ]
}

/// The 16-bit number at an offset, in little-endian order.
pub open spec fn u16_at(bytes: Seq<u8>, offset: int) -> nat {
    (bytes[offset] + 256 * bytes[offset + 1]) as nat
}

/// The 32-bit number at an offset, in little-endian order.
pub open spec fn u32_at(bytes: Seq<u8>, offset: int) -> nat {
    (bytes[offset] + 256 * bytes[offset + 1] + 65536 * bytes[offset + 2] + 16777216 * bytes[offset
        + 3]) as nat
}

/// Reads the 16-bit number at an offset.
pub fn get_u16(bytes: &[u8], offset: usize) -> (value: u16)
    requires
        offset + 2 <= bytes@.len(),
    ensures
        value as nat == u16_at(bytes@, offset as int),
{
    bytes[offset] as u16 + 256 * (bytes[offset + 1] as u16)
}

/// Reads the 32-bit number at an offset.
pub fn get_u32(bytes: &[u8], offset: usize) -> (value: u32)
    requires
        offset + 4 <= bytes@.len(),
    ensures
        value as nat == u32_at(bytes@, offset as int),
{
    bytes[offset] as u32 + 256 * (bytes[offset + 1] as u32) + 65536 * (bytes[offset + 2] as u32)
        + 16777216 * (bytes[offset + 3] as u32)
}

/// Appends a 16-bit number in little-endian order.
pub fn push_u16(bytes: &mut Vec<u8>, value: u16)
    ensures
        final(bytes)@ == old(bytes)@ + le16(value as nat),
{
    bytes.push((value % 256) as u8);
    bytes.push((value / 256) as u8);
    assert(bytes@ =~= old(bytes)@ + le16(value as nat));
}

/// Appends a 32-bit number in little-endian order.
pub fn push_u32(bytes: &mut Vec<u8>, value: u32)
    ensures
        final(bytes)@ == old(bytes)@ + le32(value as nat),
{
    bytes.push((value % 256) as u8);
    bytes.push(((value / 256) % 256) as u8);
    bytes.push(((value / 65536) % 256) as u8);
    bytes.push(((value / 16777216) % 256) as u8);
    assert(bytes@ =~= old(bytes)@ + le32(value as nat));
}

/// Appends a slice of bytes.
pub fn push_bytes(bytes: &mut Vec<u8>, more: &[u8])
    ensures
        final(bytes)@ == old(bytes)@ + more@,
{
    let mut i: usize = 0;
    while i < more.len()
        invariant
            i <= more@.len(),
            bytes@ == old(bytes)@ + more@.take(i as int),
        decreases more@.len() - i,
    {
        bytes.push(more[i]);
        i += 1;
        assert(more@.take(i as int) =~= more@.take(i - 1).push(more@[i - 1]));
        assert(bytes@ =~= old(bytes)@ + more@.take(i as int));
    }
    assert(more@.take(i as int) =~= more@);
}

/// The least significant byte comes first: two bytes in a row are the value modulo 65,536, and those
/// of value `i` stand at `2 * i`, in encoding as in decoding.
pub proof fn values_are_little_endian(values: Seq<i16>, bytes: Seq<u8>, i: int)
    ensures
        encode_pcm16(values).len() == 2 * values.len(),
        decode_pcm16(bytes).len() == bytes.len() / 2,
        0 <= i < values.len() ==> (encode_pcm16(values)[2 * i] + 256 * encode_pcm16(values)[2 * i
            + 1] - values[i]) % 65_536 == 0,
        0 <= i < bytes.len() / 2 ==> (bytes[2 * i] + 256 * bytes[2 * i + 1] - decode_pcm16(
            bytes,
        )[i]) % 65_536 == 0,
{
    if 0 <= i < values.len() {
        assert(encode_pcm16(values)[2 * i] == low_byte(values[i]));
        assert(encode_pcm16(values)[2 * i + 1] == high_byte(values[i]));
    }
}

/// Numbers of headers are little-endian too: each further byte weighs 256 times the one before, and
/// what is written reads back.
pub proof fn header_numbers_are_little_endian(n: nat, bytes: Seq<u8>, offset: int)
    requires
        n <= u32::MAX,
    ensures
        le32(n).len() == 4,
        le16(n).len() == 2,
        le32(n)[0] + 256 * le32(n)[1] + 65_536 * le32(n)[2] + 16_777_216 * le32(n)[3] == n,
        n <= u16::MAX ==> le16(n)[0] + 256 * le16(n)[1] == n,
        u16_at(bytes, offset) == bytes[offset] + 256 * bytes[offset + 1],
        u32_at(bytes, offset) == u16_at(bytes, offset) + 65_536 * u16_at(bytes, offset + 2),
{
}

}
