//! Text decoding of raw names (archive entries may carry names in legacy
//! Chinese, Japanese or Korean encodings).

use vstd::prelude::*;

verus! {

/// The text encodings a name can be decoded from.
#[derive(Debug, Clone, Copy, PartialEq, Eq)]
pub enum TextEncoding {
    Utf8,
    Gbk,
    Gb18030,
    Big5,
    ShiftJis,
    EucKr,
}

/// A number for each encoding.
pub open spec fn encoding_code(e: TextEncoding) -> nat {
    match e {
        TextEncoding::Utf8 => 0,
        TextEncoding::Gbk => 1,
        TextEncoding::Gb18030 => 2,
        TextEncoding::Big5 => 3,
        TextEncoding::ShiftJis => 4,
        TextEncoding::EucKr => 5,
    }
}

/// The text that `encoding_rs` decodes from `bytes` with the encoding of
/// the given number (malformed sequences become U+FFFD).
pub uninterp spec fn decoded_text(encoding: nat, bytes: Seq<u8>) -> Seq<char>;

/// `Encoding::decode` of `encoding_rs`: decodes the bytes with the encoding
/// (after its byte-order-mark sniffing) into text. Claimed: the result is
/// the named function of the encoding and the bytes; nothing more is said
/// of it.
#[verifier::external_body]
pub(crate) fn decode_bytes(encoding: TextEncoding, bytes: &[u8]) -> (r: String)
    ensures
        r@ == decoded_text(encoding_code(encoding), bytes@),
{
    let enc = match encoding {
        TextEncoding::Utf8 => encoding_rs::UTF_8,
        TextEncoding::Gbk => encoding_rs::GBK,
        TextEncoding::Gb18030 => encoding_rs::GB18030,
        TextEncoding::Big5 => encoding_rs::BIG5,
        TextEncoding::ShiftJis => encoding_rs::SHIFT_JIS,
        TextEncoding::EucKr => encoding_rs::EUC_KR,
    };
    let (decoded, _, _) = enc.decode(bytes);
    decoded.into_owned()
}

/// `std::str::from_utf8`: the text the bytes encode when they are valid
/// UTF-8, `None` otherwise. Claimed: validity and decoding as vstd's UTF-8
/// model (`valid_utf8`, `decode_utf8`) defines them.
#[verifier::external_body]
pub(crate) fn utf8_text(bytes: &[u8]) -> (r: Option<String>)
    ensures
        r is Some <==> vstd::utf8::valid_utf8(bytes@),
        r matches Some(s) ==> s@ == vstd::utf8::decode_utf8(bytes@),
{
    match std::str::from_utf8(bytes) {
        Ok(s) => Some(s.to_string()),
        Err(_) => None,
    }
}

} // verus!
