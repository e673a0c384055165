//! The form in which a document's text leaves a session: compressed, and
//! written in the URL-safe base64 alphabet without padding.

use flate2::bufread::ZlibDecoder;
use flate2::write::ZlibEncoder;
use flate2::Compression;
use std::io::{Read, Write};
use vstd::prelude::*;
use vstd::string::{StrSliceExecFns, StringSliceAdditionalSpecFns};
use vstd::utf8::{
    decode_utf8, encode_utf8, encode_utf8_decode_utf8, encode_utf8_valid_utf8, is_ascii_chars,
    is_ascii_chars_encode_utf8, valid_utf8,
};

verus! {

/// The longest compressed stream that is written as text.
pub const MAX_STREAM_LEN: usize = usize::MAX / 4;

/// The longest text, in bytes, that is read as an encoded document.
pub const MAX_ENCODED_LEN: usize = usize::MAX / 2;

/// The error of std's writers, with which flate2 refuses a stream. Nothing is
/// read from it.
#[verifier::external_type_specification]
#[verifier::external_body]
pub struct ExIoError(std::io::Error);

/// The error with which base64 refuses a text. Nothing is read from it.
#[verifier::external_type_specification]
#[verifier::external_body]
pub struct ExDecodeError(base64::DecodeError);

/// The error with which std refuses bytes that are not UTF-8. Nothing is read
/// from it.
#[verifier::external_type_specification]
#[verifier::external_body]
pub struct ExFromUtf8Error(std::string::FromUtf8Error);

/// The zlib stream that flate2 makes of `data` at its default level, where it
/// makes one.
pub uninterp spec fn zlib_compressed(data: Seq<u8>) -> Option<Seq<u8>>;

/// What flate2 reads from bytes that start with a whole zlib stream: the
/// data in the stream, and the number of bytes that the stream takes. Bytes
/// that are cut short or damaged give nothing.
pub uninterp spec fn zlib_inflated(stream: Seq<u8>) -> Option<(Seq<u8>, nat)>;

/// The text that base64 writes for `data` in the URL-safe alphabet, without
/// padding.
pub uninterp spec fn base64url_text(data: Seq<u8>) -> Seq<char>;

/// The data that base64 reads from a text in the URL-safe alphabet without
/// padding, where it accepts the text.
pub uninterp spec fn base64url_bytes(text: Seq<char>) -> Option<Seq<u8>>;

/// Whether a character belongs to the URL-safe base64 alphabet.
pub open spec fn is_base64url_char(c: char) -> bool {
    ('A' <= c && c <= 'Z') || ('a' <= c && c <= 'z') || ('0' <= c && c <= '9') || c == '-' || c
        == '_'
}

/// The number of characters that unpadded base64 takes for `n` bytes: four
/// for every three bytes, and two or three for the one or two bytes left.
pub open spec fn base64_len(n: nat) -> nat {
    n / 3 * 4 + if n % 3 == 0 {
        0nat
    } else {
        n % 3 + 1
    }
}

/// Whether a character is white space: one of the twenty-five characters with
/// the Unicode property White_Space.
pub open spec fn is_white_space(c: char) -> bool {
    let code = c as u32;
    (0x09 <= code && code <= 0x0D) || code == 0x20 || code == 0x85 || code == 0xA0 || code
        == 0x1680 || (0x2000 <= code && code <= 0x200A) || code == 0x2028 || code == 0x2029
        || code == 0x202F || code == 0x205F || code == 0x3000
}

/// A text without the white space at its end.
pub open spec fn trim_end(text: Seq<char>) -> Seq<char>
    decreases text.len(),
{
    if text.len() > 0 && is_white_space(text.last()) {
        trim_end(text.drop_last())
    } else {
        text
    }
}

/// The text that a document is read back as from its bytes: the bytes as
/// UTF-8, without the white space at the end. Bytes that are not UTF-8 give
/// nothing.
pub open spec fn content_of_bytes(raw: Seq<u8>) -> Option<Seq<char>> {
    if valid_utf8(raw) {
        Some(trim_end(decode_utf8(raw)))
    } else {
        None
    }
}

/// The text of a document that was read from a compressed stream: `read`
/// holds the data and the number of bytes that the stream took of `len`.
/// Where bytes are left over behind the stream, there is no text.
pub open spec fn content_of_read(read: (Seq<u8>, nat), len: nat) -> Option<Seq<char>> {
    if read.1 == len {
        content_of_bytes(read.0)
    } else {
        None
    }
}

/// The text that a compressed stream holds, where it holds one: the bytes
/// must be one whole zlib stream and nothing else.
pub open spec fn content_of_stream(stream: Seq<u8>) -> Option<Seq<char>> {
    match zlib_inflated(stream) {
        Some(read) => content_of_read(read, stream.len()),
        None => None,
    }
}

/// The text that an encoded document holds, where it holds one.
pub open spec fn decoded_content(encoded: Seq<char>) -> Option<Seq<char>> {
    if encode_utf8(encoded).len() > MAX_ENCODED_LEN {
        None
    } else {
        match base64url_bytes(encoded) {
            Some(stream) => content_of_stream(stream),
            None => None,
        }
    }
}

/// A compressed stream written as text: nothing for a stream that is too
/// long.
pub open spec fn encoded_stream(stream: Seq<u8>) -> Seq<char> {
    if stream.len() <= MAX_STREAM_LEN {
        base64url_text(stream)
    } else {
        Seq::empty()
    }
}

/// The encoded form of a document: its UTF-8 bytes, compressed and written as
/// text, or nothing where they could not be compressed.
pub open spec fn encoded_content(text: Seq<char>) -> Seq<char> {
    match zlib_compressed(encode_utf8(text)) {
        Some(stream) => encoded_stream(stream),
        None => Seq::empty(),
    }
}

/// Whether a document's text can be compressed into a stream that is short
/// enough to be written as text.
pub open spec fn can_encode(text: Seq<char>) -> bool {
    zlib_compressed(encode_utf8(text)) matches Some(stream) && stream.len() <= MAX_STREAM_LEN
}

/// `ZlibEncoder` of flate2, writing into a vector at the default level: all
/// of `data` is written to it and the stream is finished. What comes out
/// depends on `data` alone. It starts with the header of a zlib stream and so
/// is not empty; the decoder below reads `data` back from it and takes all of
/// its bytes to do so; and because the decoder asks for the end of a stream,
/// which here is the last byte, it reads nothing from a part of it that was
/// cut short.
#[verifier::external_body]
fn zlib_compress(data: &[u8]) -> (r: Result<Vec<u8>, std::io::Error>)
    ensures
        r matches Ok(stream) ==> zlib_compressed(data@) == Some(stream@),
        r matches Ok(stream) ==> stream@.len() > 0,
        r matches Ok(stream) ==> zlib_inflated(stream@) == Some((data@, stream@.len())),
        r matches Ok(stream) ==> forall|cut: int|
            0 <= cut < stream@.len() ==> (#[trigger] zlib_inflated(stream@.take(cut))) is None,
        r is Err ==> zlib_compressed(data@) is None,
{
    let mut encoder = ZlibEncoder::new(Vec::new(), Compression::default());
    encoder.write_all(data)?;
    encoder.finish()
}

/// `bufread::ZlibDecoder` of flate2, read to its end, and then its
/// `total_in`: the data of the zlib stream with which `stream` starts, and
/// the number of bytes that this stream takes. Bytes that end before the
/// stream does are an error, as are damaged ones, and so is no byte at all.
/// What comes out depends on `stream` alone.
#[verifier::external_body]
fn zlib_inflate(stream: &[u8]) -> (r: Result<(Vec<u8>, u64), std::io::Error>)
    ensures
        r matches Ok(read) ==> zlib_inflated(stream@) == Some((read.0@, read.1 as nat)),
        r is Err ==> zlib_inflated(stream@) is None,
        stream@.len() == 0 ==> r is Err,
{
    let mut decoder = ZlibDecoder::new(stream);
    let mut data = Vec::new();
    decoder.read_to_end(&mut data)?;
    Ok((data, decoder.total_in()))
}

/// `base64::encode_config` with `URL_SAFE_NO_PAD`: the text is made of the
/// URL-safe alphabet, has the length that unpadded base64 takes, and
/// `base64::decode_config` reads `data` back from it. The call computes that
/// length first, which must fit in `usize`.
#[verifier::external_body]
fn base64url_encode(data: &[u8]) -> (r: String)
    requires
        data@.len() <= MAX_STREAM_LEN,
    ensures
        r@ == base64url_text(data@),
        r@.len() == base64_len(data@.len()),
        forall|i: int| 0 <= i < r@.len() ==> is_base64url_char(#[trigger] r@[i]),
        base64url_bytes(r@) == Some(data@),
{
    base64::encode_config(data, base64::URL_SAFE_NO_PAD)
}

/// `base64::decode_config` with `URL_SAFE_NO_PAD`: the bytes that the text
/// stands for, or an error where base64 does not accept the text. It accepts
/// no character from outside the URL-safe alphabet but the padding sign at
/// the end. The call rounds the text's length up to whole chunks of eight
/// characters first, which must fit in `usize`, and gives at most six bytes
/// for each chunk.
#[verifier::external_body]
fn base64url_decode(text: &str) -> (r: Result<Vec<u8>, base64::DecodeError>)
    requires
        text.spec_bytes().len() <= MAX_ENCODED_LEN,
    ensures
        r matches Ok(data) ==> base64url_bytes(text@) == Some(data@),
        r matches Ok(data) ==> data@.len() <= (text.spec_bytes().len() + 7) / 8 * 6,
        r is Err ==> base64url_bytes(text@) is None,
{
    base64::decode_config(text, base64::URL_SAFE_NO_PAD)
}

/// `String::from_utf8` of std: the string that the bytes encode, or an error
/// where they are not UTF-8.
pub assume_specification[ String::from_utf8 ](bytes: Vec<u8>) -> (r: Result<
    String,
    std::string::FromUtf8Error,
>)
    ensures
        r is Ok <==> valid_utf8(bytes@),
        r matches Ok(text) ==> text@ == decode_utf8(bytes@),
;

/// Whether a character is white space.
pub fn is_white_space_char(c: char) -> (r: bool)
    ensures
        r == is_white_space(c),
{
    let code: u32 = c as u32;
    (0x09 <= code && code <= 0x0D) || code == 0x20 || code == 0x85 || code == 0xA0 || code
        == 0x1680 || (0x2000 <= code && code <= 0x200A) || code == 0x2028 || code == 0x2029
        || code == 0x202F || code == 0x205F || code == 0x3000
}

/// A text that ends in a character that is no white space is left as it is.
proof fn lemma_trim_end_kept(text: Seq<char>)
    requires
        text.len() > 0,
        !is_white_space(text.last()),
    ensures
        trim_end(text) == text,
{
}

/// White space at the end of a text goes with the white space before it.
proof fn lemma_trim_end_dropped(text: Seq<char>)
    requires
        text.len() > 0,
        is_white_space(text.last()),
    ensures
        trim_end(text) == trim_end(text.drop_last()),
{
}

/// The text without the white space at its end.
pub fn trim_trailing_white_space(text: &str) -> (r: &str)
    ensures
        r@ == trim_end(text@),
{
    let n: usize = text.unicode_len();
    let mut seen: usize = 0;
    let mut end: usize = 0;
    proof {
        assert(text@.take(0) =~= Seq::<char>::empty());
    }
    for c in it: text.chars()
        invariant
            it.seq() == text@,
            n == text@.len(),
            seen == it.index(),
            seen <= n,
            end <= seen,
            trim_end(text@.take(seen as int)) == text@.take(end as int),
    {
        proof {
            let grown = text@.take(seen + 1);
            assert(grown.drop_last() =~= text@.take(seen as int));
            assert(grown.last() == c);
            if is_white_space(c) {
                lemma_trim_end_dropped(grown);
            } else {
                lemma_trim_end_kept(grown);
            }
        }
        seen = seen + 1;
        if !is_white_space_char(c) {
            end = seen;
        }
    }
    proof {
        assert(text@.take(n as int) =~= text@);
    }
    text.substring_char(0, end)
}

/// Reads a document's text from its bytes: the bytes as UTF-8, without the
/// white space at the end. Bytes that are not UTF-8 give nothing.
pub fn content_from_bytes(raw: Vec<u8>) -> (r: Option<String>)
    ensures
        r matches Some(text) ==> content_of_bytes(raw@) == Some(text@),
        r is None ==> content_of_bytes(raw@) is None,
{
    match String::from_utf8(raw) {
        Ok(text) => Some(trim_trailing_white_space(text.as_str()).to_owned()),
        Err(_) => None,
    }
}

/// Decides what a document's text is once its stream has been read: `data`
/// is what the stream held, `consumed` of `len` bytes belonged to it. Bytes
/// left over behind the stream make the whole unreadable; else the text is
/// read from `data`.
pub fn content_from_read(data: Vec<u8>, consumed: u64, len: usize) -> (r: Option<String>)
    ensures
        r matches Some(text) ==> content_of_read((data@, consumed as nat), len as nat) == Some(
            text@,
        ),
        r is None ==> content_of_read((data@, consumed as nat), len as nat) is None,
{
    if consumed == len as u64 {
        content_from_bytes(data)
    } else {
        None
    }
}

/// Reads a document's text from a compressed stream. Bytes that are not one
/// whole stream, because they are cut short, are damaged or go on behind the
/// stream's end, give nothing, and so does a stream that holds no UTF-8. No
/// byte at all gives nothing.
pub fn content_from_stream(stream: &[u8]) -> (r: Option<String>)
    ensures
        r matches Some(text) ==> content_of_stream(stream@) == Some(text@),
        r is None ==> content_of_stream(stream@) is None,
        stream@.len() == 0 ==> r is None,
{
    match zlib_inflate(stream) {
        Ok(read) => content_from_read(read.0, read.1, stream.len()),
        Err(_) => None,
    }
}

/// Reads a document's text from its encoded form. A text that base64 does
/// not accept, or whose bytes are not one whole compressed stream, or hold no
/// UTF-8, gives nothing, and so does a text of more than `MAX_ENCODED_LEN`
/// bytes. The loader then goes on as if nothing had been handed to it.
pub fn decode_content(encoded: &str) -> (r: Option<String>)
    ensures
        r matches Some(text) ==> decoded_content(encoded@) == Some(text@),
        r is None ==> decoded_content(encoded@) is None,
        encoded@.len() == 0 ==> r is None,
{
    proof {
        if encoded@.len() == 0 {
            assert(encode_utf8(encoded@).len() == 0);
        }
    }
    if encoded.as_bytes().len() > MAX_ENCODED_LEN {
        return None;
    }
    match base64url_decode(encoded) {
        Ok(stream) => content_from_stream(stream.as_slice()),
        Err(_) => None,
    }
}

/// An encoded text is read back as the stream that it was written from.
proof fn lemma_encoded_stream_reads_back(stream: Seq<u8>, encoded: Seq<char>)
    requires
        stream.len() <= MAX_STREAM_LEN,
        encoded.len() == base64_len(stream.len()),
        forall|i: int| 0 <= i < encoded.len() ==> is_base64url_char(#[trigger] encoded[i]),
        base64url_bytes(encoded) == Some(stream),
    ensures
        decoded_content(encoded) == content_of_stream(stream),
{
    assert(is_ascii_chars(encoded)) by {
        assert forall|i: int| 0 <= i < encoded.len() implies '\0' <= #[trigger] encoded[i]
            <= '\u{7f}' by {
            assert(is_base64url_char(encoded[i]));
        }
    }
    is_ascii_chars_encode_utf8(encoded);
}

/// Writes a compressed stream as text in the URL-safe base64 alphabet,
/// without padding: four characters for every three bytes, and two or three
/// for what is left. base64 reads the stream back from the text. A stream of
/// more than `MAX_STREAM_LEN` bytes gives the empty text.
pub fn encode_stream_text(stream: &[u8]) -> (r: String)
    ensures
        r@ == encoded_stream(stream@),
        forall|i: int| 0 <= i < r@.len() ==> is_base64url_char(#[trigger] r@[i]),
        stream@.len() <= MAX_STREAM_LEN ==> r@.len() == base64_len(stream@.len()),
        stream@.len() <= MAX_STREAM_LEN ==> base64url_bytes(r@) == Some(stream@),
        stream@.len() <= MAX_STREAM_LEN ==> decoded_content(r@) == content_of_stream(stream@),
{
    if stream.len() <= MAX_STREAM_LEN {
        let r = base64url_encode(stream);
        proof {
            lemma_encoded_stream_reads_back(stream@, r@);
        }
        r
    } else {
        String::new()
    }
}

/// Encodes a document's text for keeping outside a session: the text is
/// compressed, and the stream written in the URL-safe base64 alphabet without
/// padding. Where the text cannot be compressed, or the stream is too long to
/// be written, the result is empty. In every other case the result is not
/// empty, even for the empty text; base64 reads from it a stream that holds
/// the text's bytes, all of them and nothing else, and no part of which
/// passes for a stream if the rest is cut off; and `decode_content` reads the
/// text back from it, without the white space at its end.
pub fn encode_content(text: &str) -> (r: String)
    ensures
        r@ == encoded_content(text@),
        forall|i: int| 0 <= i < r@.len() ==> is_base64url_char(#[trigger] r@[i]),
        can_encode(text@) ==> r@.len() > 0 && r@.len() % 4 != 1,
        can_encode(text@) ==> (base64url_bytes(r@) matches Some(stream) && zlib_inflated(stream)
            == Some((encode_utf8(text@), stream.len()))),
        can_encode(text@) ==> (base64url_bytes(r@) matches Some(stream) && forall|cut: int|
            0 <= cut < stream.len() ==> (#[trigger] zlib_inflated(stream.take(cut))) is None),
        can_encode(text@) ==> decoded_content(r@) == Some(trim_end(text@)),
{
    match zlib_compress(text.as_bytes()) {
        Ok(stream) => {
            proof {
                encode_utf8_valid_utf8(text@);
                encode_utf8_decode_utf8(text@);
            }
            encode_stream_text(stream.as_slice())
        },
        Err(_) => String::new(),
    }
}

} // verus!
