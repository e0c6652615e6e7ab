//! Decoding of request bodies: gzip decompression and UTF-8 text.
use std::io::Read;
use vstd::prelude::*;
use vstd::utf8::{
    decode_utf8, encode_utf8, encode_utf8_decode_utf8, encode_utf8_valid_utf8, valid_utf8,
};

verus! {

/// The bytes that a gzip stream decompresses to, or `None` where the stream
/// is not valid gzip.
pub uninterp spec fn gzip_decoded(data: Seq<u8>) -> Option<Seq<u8>>;

/// Decompresses a gzip stream with `flate2::read::GzDecoder`, reading it to
/// its end with `read_to_end`. Trusted: the result is `gzip_decoded` of the
/// input, `None` exactly where the decoder reports an error.
#[verifier::external_body]
fn gunzip(data: &[u8]) -> (res: Option<Vec<u8>>)
    ensures
        match res {
            Some(out) => gzip_decoded(data@) == Some(out@),
            None => gzip_decoded(data@) is None,
        },
{
    let mut out = Vec::new();
    match flate2::read::GzDecoder::new(data).read_to_end(&mut out) {
        Ok(_) => Some(out),
        Err(_) => None,
    }
}

/// Turns bytes into a `String` with `String::from_utf8`. Trusted: std
/// documents that it fails exactly on bytes that are not valid UTF-8, and
/// otherwise keeps the bytes as the string's contents.
#[verifier::external_body]
fn utf8_string(bytes: Vec<u8>) -> (res: Option<String>)
    ensures
        match res {
            Some(s) => valid_utf8(bytes@) && s@ == decode_utf8(bytes@),
            None => !valid_utf8(bytes@),
        },
{
    String::from_utf8(bytes).ok()
}

/// The text that UTF-8 bytes spell, or `None` where they are not valid UTF-8.
pub open spec fn utf8_text(bytes: Seq<u8>) -> Option<Seq<char>> {
    if valid_utf8(bytes) {
        Some(decode_utf8(bytes))
    } else {
        None
    }
}

/// The UTF-8 encoding of any text reads back as that text; a gzip stream
/// that decompresses to the encoding of a text gives that text, and one that
/// does not decompress gives none.
pub proof fn lemma_text_reads_back(text: Seq<char>, data: Seq<u8>)
    ensures
        utf8_text(encode_utf8(text)) == Some(text),
        gzip_decoded(data) == Some(encode_utf8(text)) ==> gunzipped_text(data) == Some(text),
        gzip_decoded(data) is None ==> gunzipped_text(data) is None,
{
    encode_utf8_valid_utf8(text);
    encode_utf8_decode_utf8(text);
}

/// The text that UTF-8 bytes spell, or `None` where they are not valid UTF-8.
pub fn decode_text(bytes: Vec<u8>) -> (res: Option<String>)
    ensures
        match res {
            Some(s) => utf8_text(bytes@) == Some(s@),
            None => utf8_text(bytes@) is None,
        },
{
    utf8_string(bytes)
}

/// The bytes that a gzip stream decompresses to, or `None` where it is not valid gzip.
pub fn decompress(data: &[u8]) -> (res: Option<Vec<u8>>)
    ensures
        match res {
            Some(out) => gzip_decoded(data@) == Some(out@),
            None => gzip_decoded(data@) is None,
        },
{
    gunzip(data)
}

/// The text that a gzip stream decompresses to: `None` where the stream is
/// not valid gzip or what it holds is not valid UTF-8.
pub open spec fn gunzipped_text(data: Seq<u8>) -> Option<Seq<char>> {
    match gzip_decoded(data) {
        Some(plain) => utf8_text(plain),
        None => None,
    }
}

/// The text that a gzip stream decompresses to: `None` where the stream is
/// not valid gzip or what it holds is not valid UTF-8.
pub fn decompress_text(data: &[u8]) -> (res: Option<String>)
    ensures
        match res {
            Some(s) => gunzipped_text(data@) == Some(s@),
            None => gunzipped_text(data@) is None,
        },
{
    match gunzip(data) {
        Some(plain) => decode_text(plain),
        None => None,
    }
}

} // verus!
