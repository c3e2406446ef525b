//! Helpers of archive extraction: formats and entry-name decoding.

use vstd::prelude::*;
use super::types::ArchiveFormat;
use crate::encoding::{decode_bytes, decoded_text, encoding_code, utf8_text, TextEncoding};
use crate::text::{chars_of, chars_ends_with, chars_eq, is_suffix, lowercase, to_lowercase};

verus! {

/// The format a (lowercased) file name announces by its ending.
pub open spec fn format_by_suffix(lower: Seq<char>) -> Option<ArchiveFormat> {
    if is_suffix(".tar.gz"@, lower) || is_suffix(".tgz"@, lower) {
        Some(ArchiveFormat::TarGz)
    } else if is_suffix(".tar.bz2"@, lower) || is_suffix(".tbz2"@, lower) {
        Some(ArchiveFormat::TarBz2)
    } else if is_suffix(".zip"@, lower) {
        Some(ArchiveFormat::Zip)
    } else if is_suffix(".tar"@, lower) {
        Some(ArchiveFormat::Tar)
    } else if is_suffix(".7z"@, lower) {
        Some(ArchiveFormat::SevenZip)
    } else {
        None
    }
}

pub fn ends_with_lit(s: &Vec<char>, lit: &str) -> (r: bool)
    ensures
        r == is_suffix(lit@, s@),
{
    let l = chars_of(lit);
    chars_ends_with(s, &l)
}

pub fn equals_lit(s: &Vec<char>, lit: &str) -> (r: bool)
    ensures
        r == (s@ == lit@),
{
    let l = chars_of(lit);
    chars_eq(s, &l)
}

/// The archive format of a file name, by its ending (case ignored).
pub fn get_archive_format(filename: &str) -> (r: Option<ArchiveFormat>)
    ensures
        r == format_by_suffix(lowercase(filename@)),
{
    let lower = chars_of(to_lowercase(filename).as_str());
    if ends_with_lit(&lower, ".tar.gz") || ends_with_lit(&lower, ".tgz") {
        return Some(ArchiveFormat::TarGz);
    }
    if ends_with_lit(&lower, ".tar.bz2") || ends_with_lit(&lower, ".tbz2") {
        return Some(ArchiveFormat::TarBz2);
    }
    if ends_with_lit(&lower, ".zip") {
        return Some(ArchiveFormat::Zip);
    }
    if ends_with_lit(&lower, ".tar") {
        return Some(ArchiveFormat::Tar);
    }
    if ends_with_lit(&lower, ".7z") {
        return Some(ArchiveFormat::SevenZip);
    }
    None
}

/// The decoder chosen by an encoding name (lowercased); UTF-8 for any
/// name not known.
pub open spec fn decoder_for(name_lower: Seq<char>) -> TextEncoding {
    if name_lower == "gbk"@ {
        TextEncoding::Gbk
    } else if name_lower == "gb2312"@ || name_lower == "gb18030"@ {
        TextEncoding::Gb18030
    } else if name_lower == "big5"@ {
        TextEncoding::Big5
    } else if name_lower == "shift_jis"@ || name_lower == "shift-jis"@ {
        TextEncoding::ShiftJis
    } else if name_lower == "euc-kr"@ || name_lower == "euc_kr"@ {
        TextEncoding::EucKr
    } else {
        TextEncoding::Utf8
    }
}

/// A raw entry name as text: as UTF-8 when it is valid UTF-8 and UTF-8 (or
/// nothing) is asked for, else with the decoder the encoding name chooses.
pub open spec fn decoded_filename(raw: Seq<u8>, encoding: Seq<char>) -> Seq<char> {
    if vstd::utf8::valid_utf8(raw) && (encoding == "utf-8"@ || encoding.len() == 0) {
        vstd::utf8::decode_utf8(raw)
    } else {
        decoded_text(encoding_code(decoder_for(lowercase(encoding))), raw)
    }
}

/// Decodes a raw entry name with the given encoding name.
pub fn decode_filename(raw_name: &[u8], encoding: &str) -> (r: String)
    ensures
        r@ == decoded_filename(raw_name@, encoding@),
{
    let enc = chars_of(encoding);
    if let Some(s) = utf8_text(raw_name) {
        if equals_lit(&enc, "utf-8") || enc.len() == 0 {
            return s;
        }
    }
    let lower = chars_of(to_lowercase(encoding).as_str());
    let decoder = if equals_lit(&lower, "gbk") {
        TextEncoding::Gbk
    } else if equals_lit(&lower, "gb2312") || equals_lit(&lower, "gb18030") {
        TextEncoding::Gb18030
    } else if equals_lit(&lower, "big5") {
        TextEncoding::Big5
    } else if equals_lit(&lower, "shift_jis") || equals_lit(&lower, "shift-jis") {
        TextEncoding::ShiftJis
    } else if equals_lit(&lower, "euc-kr") || equals_lit(&lower, "euc_kr") {
        TextEncoding::EucKr
    } else {
        TextEncoding::Utf8
    };
    decode_bytes(decoder, raw_name)
}

} // verus!
