//! The MessagePack boundary: the encoder and decoder of the plugin
//! message format, taken from the `polywrap_wasm_rs` crate behind exact
//! write-side contracts and an opaque read side.

use vstd::prelude::*;
use vstd::utf8::encode_utf8;
use polywrap_wasm_rs::{Context, DecodeError, EncodeError, Read, ReadDecoder, Write, WriteEncoder};

verus! {

#[verifier::external_type_specification]
#[verifier::external_body]
pub struct ExReadDecoder(ReadDecoder);

#[verifier::external_type_specification]
#[verifier::external_body]
pub struct ExWriteEncoder(WriteEncoder);

#[verifier::external_type_specification]
#[verifier::external_body]
pub struct ExDecodeError(DecodeError);

#[verifier::external_type_specification]
#[verifier::external_body]
pub struct ExEncodeError(EncodeError);

/// The bytes an encoder holds so far.
pub uninterp spec fn encoder_bytes(w: WriteEncoder) -> Seq<u8>;

/// The MessagePack spelling of a string: a header carrying the UTF-8
/// byte length in its shortest form, then the UTF-8 bytes. Lengths are
/// taken through a 32-bit cast, as the encoder takes them.
pub open spec fn msgpack_str_bytes(s: Seq<char>) -> Seq<u8> {
    let b = encode_utf8(s);
    let n = b.len() as u32;
    let header = if n < 32 {
        seq![(0xa0 + n) as u8]
    } else if n <= 0xff {
        seq![0xd9u8, n as u8]
    } else if n <= 0xffff {
        seq![0xdau8, (n / 256) as u8, (n % 256) as u8]
    } else {
        seq![
            0xdbu8,
            (n / 0x1000000) as u8,
            ((n / 0x10000) % 256) as u8,
            ((n / 256) % 256) as u8,
            (n % 256) as u8,
        ]
    };
    header + b
}

/// The MessagePack spelling of a map header for `n` pairs, shortest form.
pub open spec fn msgpack_map_len_bytes(n: u32) -> Seq<u8> {
    if n < 16 {
        seq![(0x80 + n) as u8]
    } else if n <= 0xffff {
        seq![0xdeu8, (n / 256) as u8, (n % 256) as u8]
    } else {
        seq![
            0xdfu8,
            (n / 0x1000000) as u8,
            ((n / 0x10000) % 256) as u8,
            ((n / 256) % 256) as u8,
            (n % 256) as u8,
        ]
    }
}

/// The MessagePack spelling of an array header for `n` items, shortest
/// form.
pub open spec fn msgpack_array_len_bytes(n: u32) -> Seq<u8> {
    if n < 16 {
        seq![(0x90 + n) as u8]
    } else if n <= 0xffff {
        seq![0xdcu8, (n / 256) as u8, (n % 256) as u8]
    } else {
        seq![
            0xddu8,
            (n / 0x1000000) as u8,
            ((n / 0x10000) % 256) as u8,
            ((n / 256) % 256) as u8,
            (n % 256) as u8,
        ]
    }
}

/// The MessagePack nil byte.
pub open spec fn msgpack_nil_bytes() -> Seq<u8> {
    seq![0xc0u8]
}

/// The MessagePack spelling of a boolean.
pub open spec fn msgpack_bool_bytes(b: bool) -> Seq<u8> {
    if b {
        seq![0xc3u8]
    } else {
        seq![0xc2u8]
    }
}

/// The MessagePack spelling of an optional string: nil, or the string.
pub open spec fn msgpack_opt_str_bytes(s: Option<Seq<char>>) -> Seq<u8> {
    match s {
        Some(v) => msgpack_str_bytes(v),
        None => msgpack_nil_bytes(),
    }
}

/// Relies on `WriteEncoder::new` with an empty buffer: a fresh encoder
/// holds nothing.
#[verifier::external_body]
pub fn new_encoder() -> (w: WriteEncoder)
    ensures
        encoder_bytes(w) == Seq::<u8>::empty(),
{
    WriteEncoder::new(&[], Context::new())
}

/// Relies on `WriteEncoder::get_buffer`: the bytes written so far.
#[verifier::external_body]
pub fn encoder_buffer(w: &WriteEncoder) -> (r: Vec<u8>)
    ensures
        r@ == encoder_bytes(*w),
{
    w.get_buffer()
}

/// Relies on `Write::write_string` of `WriteEncoder`: appends the string
/// header and UTF-8 bytes; writing into a growing buffer does not fail.
#[verifier::external_body]
pub fn encoder_write_string(w: &mut WriteEncoder, v: &str)
    ensures
        encoder_bytes(*final(w)) == encoder_bytes(*old(w)) + msgpack_str_bytes(v@),
{
    let _ = w.write_string(v);
}

/// Relies on `Write::write_map_length` of `WriteEncoder`: appends the map
/// header; writing into a growing buffer does not fail.
#[verifier::external_body]
pub fn encoder_write_map_length(w: &mut WriteEncoder, n: u32)
    ensures
        encoder_bytes(*final(w)) == encoder_bytes(*old(w)) + msgpack_map_len_bytes(n),
{
    let _ = w.write_map_length(&n);
}

/// Relies on `Write::write_array_length` of `WriteEncoder`: appends the
/// array header; writing into a growing buffer does not fail.
#[verifier::external_body]
pub fn encoder_write_array_length(w: &mut WriteEncoder, n: u32)
    ensures
        encoder_bytes(*final(w)) == encoder_bytes(*old(w)) + msgpack_array_len_bytes(n),
{
    let _ = w.write_array_length(&n);
}

/// Relies on `Write::write_nil` of `WriteEncoder`: appends the nil byte;
/// writing into a growing buffer does not fail.
#[verifier::external_body]
pub fn encoder_write_nil(w: &mut WriteEncoder)
    ensures
        encoder_bytes(*final(w)) == encoder_bytes(*old(w)) + msgpack_nil_bytes(),
{
    let _ = w.write_nil();
}

/// Relies on `Write::write_bool` of `WriteEncoder`: appends the boolean
/// byte; writing into a growing buffer does not fail.
#[verifier::external_body]
pub fn encoder_write_bool(w: &mut WriteEncoder, b: bool)
    ensures
        encoder_bytes(*final(w)) == encoder_bytes(*old(w)) + msgpack_bool_bytes(b),
{
    let _ = w.write_bool(&b);
}

/// Writes an optional string: nil for `None`, the string otherwise.
pub fn encoder_write_optional_string(w: &mut WriteEncoder, v: &Option<String>)
    ensures
        encoder_bytes(*final(w)) == encoder_bytes(*old(w)) + msgpack_opt_str_bytes(
            match *v {
                Some(s) => Some(s@),
                None => None,
            },
        ),
{
    match v {
        Some(s) => encoder_write_string(w, s.as_str()),
        None => encoder_write_nil(w),
    }
}

/// The MessagePack spelling of an unsigned number, shortest form: a bare
/// byte below 128, else a tagged one-, two- or four-byte value.
pub open spec fn msgpack_uint_bytes(n: u32) -> Seq<u8> {
    if n < 128 {
        seq![n as u8]
    } else if n <= 0xff {
        seq![0xccu8, n as u8]
    } else if n <= 0xffff {
        seq![0xcdu8, (n / 256) as u8, (n % 256) as u8]
    } else {
        seq![
            0xceu8,
            (n / 0x1000000) as u8,
            ((n / 0x10000) % 256) as u8,
            ((n / 256) % 256) as u8,
            (n % 256) as u8,
        ]
    }
}

/// The MessagePack spelling of an optional number: nil, or the number.
pub open spec fn msgpack_opt_uint_bytes(n: Option<u32>) -> Seq<u8> {
    match n {
        Some(v) => msgpack_uint_bytes(v),
        None => msgpack_nil_bytes(),
    }
}

/// Relies on `Write::write_u32` of `WriteEncoder`: appends the number in
/// its shortest unsigned form; writing into a growing buffer does not
/// fail.
#[verifier::external_body]
pub fn encoder_write_u32(w: &mut WriteEncoder, n: u32)
    ensures
        encoder_bytes(*final(w)) == encoder_bytes(*old(w)) + msgpack_uint_bytes(n),
{
    let _ = w.write_u32(&n);
}

/// Writes an optional number: nil for `None`, the number otherwise.
pub fn encoder_write_optional_u32(w: &mut WriteEncoder, n: &Option<u32>)
    ensures
        encoder_bytes(*final(w)) == encoder_bytes(*old(w)) + msgpack_opt_uint_bytes(*n),
{
    match n {
        Some(v) => encoder_write_u32(w, *v),
        None => encoder_write_nil(w),
    }
}

/// Relies on `ReadDecoder::new`: a decoder over the given bytes.
#[verifier::external_body]
pub fn new_decoder(buf: &[u8]) -> ReadDecoder {
    ReadDecoder::new(buf, Context::new())
}

/// Relies on `Read::read_map_length` of `ReadDecoder`: how many pairs the
/// map at the read position holds, whatever the bytes hold.
#[verifier::external_body]
pub fn decoder_read_map_length(r: &mut ReadDecoder) -> Result<u32, DecodeError> {
    r.read_map_length()
}

/// Relies on `Read::read_string` of `ReadDecoder`: the string at the read
/// position, whatever the bytes hold.
#[verifier::external_body]
pub fn decoder_read_string(r: &mut ReadDecoder) -> Result<String, DecodeError> {
    r.read_string()
}

/// Relies on `Read::read_optional_string` of `ReadDecoder`: nil or the
/// string at the read position, whatever the bytes hold.
#[verifier::external_body]
pub fn decoder_read_optional_string(r: &mut ReadDecoder) -> Result<Option<String>, DecodeError> {
    r.read_optional_string()
}

/// Relies on `Read::read_bool` of `ReadDecoder`: the boolean at the read
/// position, whatever the bytes hold.
#[verifier::external_body]
pub fn decoder_read_bool(r: &mut ReadDecoder) -> Result<bool, DecodeError> {
    r.read_bool()
}

/// Relies on `Read::read_array_length` of `ReadDecoder`: how many items
/// the array at the read position holds, whatever the bytes hold.
#[verifier::external_body]
pub fn decoder_read_array_length(r: &mut ReadDecoder) -> Result<u32, DecodeError> {
    r.read_array_length()
}

/// Relies on `Read::is_next_nil` of `ReadDecoder`: whether nil comes
/// next; the read position does not move unless it does.
#[verifier::external_body]
pub fn decoder_is_next_nil(r: &mut ReadDecoder) -> Result<bool, DecodeError> {
    r.is_next_nil()
}

/// Relies on `Read::read_optional_bigint` of `ReadDecoder`: nil or the
/// big integer at the read position, handed on in decimal, whatever the
/// bytes hold.
#[verifier::external_body]
pub fn decoder_read_optional_bigint_text(r: &mut ReadDecoder) -> Result<Option<String>, DecodeError> {
    match r.read_optional_bigint() {
        Ok(Some(b)) => Ok(Some(b.to_string())),
        Ok(None) => Ok(None),
        Err(e) => Err(e),
    }
}

/// Relies on `Read::read_optional_u32` of `ReadDecoder`: nil or the
/// number at the read position, whatever the bytes hold.
#[verifier::external_body]
pub fn decoder_read_optional_u32(r: &mut ReadDecoder) -> Result<Option<u32>, DecodeError> {
    r.read_optional_u32()
}

/// Relies on `DecodeError`'s `Display`: the error's text.
#[verifier::external_body]
pub fn decode_error_text(e: &DecodeError) -> String {
    e.to_string()
}

/// Relies on `DecodeError::UnknownFieldName`: carries the field name.
#[verifier::external_body]
pub fn unknown_field_error(name: &str) -> DecodeError {
    DecodeError::UnknownFieldName(name.to_string())
}

/// Relies on `DecodeError::MissingField`: carries the field description.
#[verifier::external_body]
pub fn missing_field_error(desc: &str) -> DecodeError {
    DecodeError::MissingField(desc.to_string())
}

} // verus!
