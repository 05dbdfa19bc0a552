//! Protocol Buffers wire encoding of single fields, written with prost's
//! field encoders and stated over the wire format.
use vstd::prelude::*;
use vstd::utf8::encode_utf8;

verus! {

/// `v` as a base-128 varint: seven bits per byte, least significant first,
/// the high bit set on every byte but the last.
pub open spec fn varint(v: nat) -> Seq<u8>
    decreases v,
{
    if v < 128 {
        seq![v as u8]
    } else {
        seq![(v % 128 + 128) as u8] + varint(v / 128)
    }
}

/// The key of field `tag` with the given wire type.
pub open spec fn field_key(tag: nat, wire_type: nat) -> Seq<u8> {
    varint(tag * 8 + wire_type)
}

/// Field `tag` holding `payload` with wire type 2: key, length, bytes.
pub open spec fn length_delimited(tag: nat, payload: Seq<u8>) -> Seq<u8> {
    field_key(tag, 2) + varint(payload.len()) + payload
}

/// A string field: its UTF-8 bytes, length-delimited.
pub open spec fn string_field(tag: nat, s: Seq<char>) -> Seq<u8> {
    length_delimited(tag, encode_utf8(s))
}

/// A `uint32` field: key with wire type 0, then the value as a varint.
pub open spec fn uint32_field(tag: nat, v: nat) -> Seq<u8> {
    field_key(tag, 0) + varint(v)
}

/// The field numbers that a field key can carry.
pub open spec fn valid_tag(tag: u32) -> bool {
    1 <= tag <= 536870911
}

/// Appends string field `tag` holding `value` to `buf`
/// (`prost::encoding::string::encode`): the key, the byte length as a
/// varint, then the UTF-8 bytes.
#[verifier::external_body]
pub(crate) fn append_string_field(tag: u32, value: &String, buf: &mut Vec<u8>)
    requires
        valid_tag(tag),
    ensures
        final(buf)@ == old(buf)@ + string_field(tag as nat, value@),
{
    prost::encoding::string::encode(tag, value, buf)
}

/// Appends bytes field `tag` holding `value` to `buf`
/// (`prost::encoding::bytes::encode`): the key, the length as a varint,
/// then the bytes.
#[verifier::external_body]
pub(crate) fn append_bytes_field(tag: u32, value: &Vec<u8>, buf: &mut Vec<u8>)
    requires
        valid_tag(tag),
    ensures
        final(buf)@ == old(buf)@ + length_delimited(tag as nat, value@),
{
    prost::encoding::bytes::encode(tag, value, buf)
}

/// Appends `uint32` field `tag` holding `value` to `buf`
/// (`prost::encoding::uint32::encode`): the key, then the value as a varint.
#[verifier::external_body]
pub(crate) fn append_uint32_field(tag: u32, value: &u32, buf: &mut Vec<u8>)
    requires
        valid_tag(tag),
    ensures
        final(buf)@ == old(buf)@ + uint32_field(tag as nat, *value as nat),
{
    prost::encoding::uint32::encode(tag, value, buf)
}

} // verus!
