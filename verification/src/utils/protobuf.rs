//! The protobuf wire format of the fields that the DSH envelopes use, written through the
//! encoding functions of `prost`.
use vstd::prelude::*;

verus! {

/// The largest field tag that protobuf allows.
pub const MAX_TAG: u32 = 0x1fff_ffff;

/// The LEB128 encoding of `v`: seven bits per byte, least significant group first, the high
/// bit set on every byte but the last.
pub open spec fn varint(v: nat) -> Seq<u8>
    decreases v,
{
    if v < 0x80 {
        seq![v as u8]
    } else {
        seq![(v % 0x80 + 0x80) as u8] + varint(v / 0x80)
    }
}

/// The key of a field: its tag and wire type packed into a varint.
pub open spec fn field_key(tag: nat, wire_type: nat) -> Seq<u8> {
    varint(tag * 8 + wire_type)
}

/// A length-delimited field (wire type 2) carrying `payload`.
pub open spec fn length_delimited(tag: nat, payload: Seq<u8>) -> Seq<u8> {
    field_key(tag, 2) + varint(payload.len()) + payload
}

/// A string field: its UTF-8 bytes, length-delimited.
pub open spec fn string_field(tag: nat, s: Seq<char>) -> Seq<u8> {
    length_delimited(tag, vstd::utf8::encode_utf8(s))
}

/// A varint field (wire type 0) carrying `v`.
pub open spec fn varint_field(tag: nat, v: nat) -> Seq<u8> {
    field_key(tag, 0) + varint(v)
}

/// The unsigned value that protobuf writes for an `int32`: the value sign-extended to 64
/// bits.
pub open spec fn int32_bits(v: i32) -> nat {
    if v >= 0 {
        v as nat
    } else {
        (v + 0x1_0000_0000_0000_0000) as nat
    }
}

/// Calls `prost::encoding::encode_varint`, which appends `value` in LEB128 form.
#[verifier::external_body]
pub fn put_varint(value: u64, buf: &mut Vec<u8>)
    ensures
        final(buf)@ == old(buf)@ + varint(value as nat),
{
    prost::encoding::encode_varint(value, buf)
}

/// Calls `prost::encoding::encode_key` with the length-delimited wire type, which appends
/// `(tag << 3) | 2` as a varint (it asserts, in debug builds, that the tag is in range).
#[verifier::external_body]
pub fn put_length_delimited_key(tag: u32, buf: &mut Vec<u8>)
    requires
        1 <= tag <= MAX_TAG,
    ensures
        final(buf)@ == old(buf)@ + field_key(tag as nat, 2),
{
    prost::encoding::encode_key(tag, prost::encoding::WireType::LengthDelimited, buf)
}

/// Calls `prost::encoding::string::encode`, which appends the key, the byte length and the
/// UTF-8 bytes of `value`.
#[verifier::external_body]
pub fn put_string(tag: u32, value: &String, buf: &mut Vec<u8>)
    requires
        1 <= tag <= MAX_TAG,
    ensures
        final(buf)@ == old(buf)@ + string_field(tag as nat, value@),
{
    prost::encoding::string::encode(tag, value, buf)
}

/// Calls `prost::encoding::bytes::encode`, which appends the key, the length and the bytes of
/// `value`.
#[verifier::external_body]
pub fn put_bytes(tag: u32, value: &Vec<u8>, buf: &mut Vec<u8>)
    requires
        1 <= tag <= MAX_TAG,
    ensures
        final(buf)@ == old(buf)@ + length_delimited(tag as nat, value@),
{
    prost::encoding::bytes::encode(tag, value, buf)
}

/// Calls `prost::encoding::bool::encode`, which appends the key and the varint 1 or 0.
#[verifier::external_body]
pub fn put_bool(tag: u32, value: bool, buf: &mut Vec<u8>)
    requires
        1 <= tag <= MAX_TAG,
    ensures
        final(buf)@ == old(buf)@ + varint_field(tag as nat, if value { 1 } else { 0 }),
{
    prost::encoding::bool::encode(tag, &value, buf)
}

/// Calls `prost::encoding::int32::encode`, which appends the key and the value sign-extended
/// to 64 bits as a varint.
#[verifier::external_body]
pub fn put_int32(tag: u32, value: i32, buf: &mut Vec<u8>)
    requires
        1 <= tag <= MAX_TAG,
    ensures
        final(buf)@ == old(buf)@ + varint_field(tag as nat, int32_bits(value)),
{
    prost::encoding::int32::encode(tag, &value, buf)
}

/// Appends a length-delimited field whose payload is `payload`, the way a nested message is
/// written: key, payload length, payload.
pub fn put_nested(tag: u32, payload: &mut Vec<u8>, buf: &mut Vec<u8>)
    requires
        1 <= tag <= MAX_TAG,
    ensures
        final(buf)@ == old(buf)@ + length_delimited(tag as nat, old(payload)@),
{
    put_length_delimited_key(tag, buf);
    put_varint(payload.len() as u64, buf);
    let ghost p = payload@;
    buf.append(payload);
    assert(buf@ == old(buf)@ + field_key(tag as nat, 2) + varint(p.len()) + p);
}

} // verus!
