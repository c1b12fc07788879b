//! Images sent as data URLs: reading the base64 payload out of a data
//! URL, where the crop window starts, and writing a JPEG data URL back.
use vstd::prelude::*;
use crate::text::{trim, trimmed};

verus! {

/// Side of the square that an image is cropped to, in pixels.
pub const TARGET_SIZE: u32 = 512;

/// How an image is fitted to the target square.
#[derive(Debug, PartialEq, Eq, Structural)]
pub enum CropMode {
    /// Scale so the shorter side fits, then cut the longer one.
    Cover,
    /// Scale so the whole image fits.
    Contain,
}

/// Where a cropped image goes.
#[derive(Debug, PartialEq, Eq, Structural)]
pub enum Output {
    /// A file on disk.
    File,
    /// A base64 data URL.
    Base64,
}

/// Where an image to crop comes from.
#[derive(Debug, PartialEq, Eq, Structural)]
pub enum Input {
    /// A file on disk.
    File,
    /// A base64 data URL.
    Base64,
}

#[verifier::external_type_specification]
#[verifier::external_body]
pub struct ExDecodeError(base64::DecodeError);

/// What `regex::Regex::new(pattern)` followed by `replace(haystack,
/// replacement)` gives: `None` when the pattern does not compile, else
/// the haystack with its leftmost-first match replaced.
pub uninterp spec fn regex_replacement(pattern: Seq<char>, haystack: Seq<char>, replacement: Seq<char>) -> Option<Seq<char>>;

/// Whether `c` is an ASCII letter, digit or `_` (all of which `\\w` matches).
pub open spec fn is_word_char(c: char) -> bool {
    ('a' <= c <= 'z') || ('A' <= c <= 'Z') || ('0' <= c <= '9') || c == '_'
}

/// The number of ASCII word characters at the start of `s`.
pub open spec fn word_run(s: Seq<char>) -> nat
    decreases s.len(),
{
    if s.len() > 0 && is_word_char(s[0]) {
        1 + word_run(s.drop_first())
    } else {
        0
    }
}

/// Where the payload of a data URL starts when the text begins with
/// `data:image/`, one or more ASCII word characters and `;base64,`.
pub open spec fn data_url_payload_at(h: Seq<char>) -> Option<int> {
    let n = word_run(h.skip(11)) as int;
    if "data:image/"@.is_prefix_of(h) && n > 0 && ";base64,"@.is_prefix_of(h.skip(11 + n)) {
        Some(19 + n)
    } else {
        None
    }
}

/// Compiles `pattern` with `regex::Regex::new` and replaces the first
/// match in `haystack` by `replacement` (with `$` group expansion) using
/// `Regex::replace`. The result is the named function of the three texts.
/// One fact of the regex crate's documented semantics is stated: for the
/// pattern `data:image/([\\w]+);base64,` (which compiles) and an empty
/// replacement, a haystack that starts with `data:image/`, ASCII word
/// characters and `;base64,` has its leftmost-first match at the start,
/// ending after `;base64,` (the greedy `\\w+` stops at `;`), so what is
/// left is the rest of the haystack.
#[verifier::external_body]
fn regex_replace_first(pattern: &str, haystack: &str, replacement: &str) -> (r: Option<String>)
    ensures
        r is Some <==> regex_replacement(pattern@, haystack@, replacement@) is Some,
        r matches Some(s) ==> regex_replacement(pattern@, haystack@, replacement@) == Some(s@),
        r is Some || !(pattern@ == "data:image/([\\w]+);base64,"@ && replacement@ == ""@
            && data_url_payload_at(haystack@) is Some),
        r matches Some(s) ==> (pattern@ == "data:image/([\\w]+);base64,"@ && replacement@ == ""@
            && data_url_payload_at(haystack@) is Some ==> s@ == haystack@.skip(
            data_url_payload_at(haystack@)->0,
        )),
{
    match regex::Regex::new(pattern) {
        Ok(re) => Some(re.replace(haystack, replacement).into_owned()),
        Err(_) => None,
    }
}

/// The character of the standard base64 alphabet for the six bits `v`.
pub open spec fn base64_char(v: int) -> char {
    if v < 26 {
        (65 + v) as char
    } else if v < 52 {
        (97 + v - 26) as char
    } else if v < 62 {
        (48 + v - 52) as char
    } else if v == 62 {
        '+'
    } else {
        '/'
    }
}

/// The standard padded base64 text of `b` (RFC 4648): four characters
/// for each three bytes, the last group padded with `=`.
pub open spec fn base64_text(b: Seq<u8>) -> Seq<char>
    decreases b.len(),
{
    if b.len() == 0 {
        seq![]
    } else {
        let x = b[0] as int;
        let y = if b.len() > 1 { b[1] as int } else { 0 };
        let z = if b.len() > 2 { b[2] as int } else { 0 };
        let c0 = base64_char(x / 4);
        let c1 = base64_char((x % 4) * 16 + y / 16);
        let c2 = base64_char((y % 16) * 4 + z / 64);
        let c3 = base64_char(z % 64);
        if b.len() == 1 {
            seq![c0, c1, '=', '=']
        } else if b.len() == 2 {
            seq![c0, c1, c2, '=']
        } else {
            seq![c0, c1, c2, c3] + base64_text(b.skip(3))
        }
    }
}

/// Decodes base64 text with `base64::decode_engine_vec` and the standard
/// engine `base64::engine::DEFAULT_ENGINE` into a fresh vector. That
/// engine uses the standard alphabet, requires canonical padding and
/// rejects nonzero trailing bits, so it decodes exactly the texts that are
/// the standard padded encoding ([`base64_text`]) of some bytes, and gives
/// those bytes.
#[verifier::external_body]
fn base64_decode(input: &str) -> (r: Result<Vec<u8>, base64::DecodeError>)
    ensures
        r is Ok <==> exists|b: Seq<u8>| base64_text(b) == input@,
        r matches Ok(v) ==> base64_text(v@) == input@,
{
    let mut buffer = Vec::<u8>::new();
    match base64::decode_engine_vec(input, &mut buffer, &base64::engine::DEFAULT_ENGINE) {
        Ok(()) => Ok(buffer),
        Err(e) => Err(e),
    }
}

/// Encodes bytes with `base64::encode` (standard alphabet, padded); its
/// documentation promises the RFC 4648 standard encoding, which the
/// contract states. `encode` panics only when the encoded length would
/// overflow `usize`, which `requires` rules out.
#[verifier::external_body]
fn base64_encode(bytes: &[u8]) -> (r: String)
    requires
        bytes@.len() <= usize::MAX / 2,
    ensures
        r@ == base64_text(bytes@),
{
    base64::encode(bytes)
}

/// Why no image bytes were read out of a data URL.
#[derive(Debug, PartialEq, Eq, Structural)]
pub enum ImageDataError {
    /// The data URL pattern did not compile.
    Pattern,
    /// The payload is not valid base64.
    Base64,
}

/// The bytes that a payload (the data URL with its prefix removed)
/// carries: base64 of its trimmed text.
pub fn decode_payload(stripped: &str) -> (r: Result<Vec<u8>, ImageDataError>)
    ensures
        r is Ok <==> exists|b: Seq<u8>| base64_text(b) == trimmed(stripped@),
        r matches Ok(v) ==> base64_text(v@) == trimmed(stripped@),
        r is Err ==> r == Err::<Vec<u8>, ImageDataError>(ImageDataError::Base64),
{
    let t = trim(stripped);
    match base64_decode(t.as_str()) {
        Ok(v) => Ok(v),
        Err(_) => Err(ImageDataError::Base64),
    }
}

/// The pattern of a data URL's prefix: `data:image/<type>;base64,`.
pub open spec fn data_url_pattern() -> Seq<char> {
    "data:image/([\\w]+);base64,"@
}

/// The image bytes of a data URL: its first `data:image/<type>;base64,`
/// removed, the rest trimmed and decoded from base64.
pub fn decode_data_url(data_url: &str) -> (r: Result<Vec<u8>, ImageDataError>)
    ensures
        regex_replacement(data_url_pattern(), data_url@, ""@) is None ==> r == Err::<
            Vec<u8>,
            ImageDataError,
        >(ImageDataError::Pattern),
        regex_replacement(data_url_pattern(), data_url@, ""@) matches Some(s) ==> (
        (r is Ok <==> exists|b: Seq<u8>| base64_text(b) == trimmed(s)) && (r matches Ok(v)
            ==> base64_text(v@) == trimmed(s)) && (r is Err ==> r == Err::<Vec<u8>, ImageDataError>(
            ImageDataError::Base64,
        ))),
        data_url_payload_at(data_url@) matches Some(k) ==> ((r is Ok <==> exists|b: Seq<u8>|
            base64_text(b) == trimmed(data_url@.skip(k))) && (r matches Ok(v) ==> base64_text(v@)
            == trimmed(data_url@.skip(k)))),
{
    proof {
        reveal_strlit("data:image/([\\w]+);base64,");
        reveal_strlit("");
    }
    match regex_replace_first("data:image/([\\w]+);base64,", data_url, "") {
        Some(stripped) => decode_payload(stripped.as_str()),
        None => Err(ImageDataError::Pattern),
    }
}

/// `data:image/jpeg;base64,` + the base64 text of the image bytes.
pub fn encode_jpeg_data_url(jpeg: &[u8]) -> (r: String)
    requires
        jpeg@.len() <= usize::MAX / 2,
    ensures
        r@ == "data:image/jpeg;base64,"@ + base64_text(jpeg@),
{
    let mut r = String::new();
    r.append("data:image/jpeg;base64,");
    let b = base64_encode(jpeg);
    r.append(b.as_str());
    r
}

/// Where the crop window starts in an image of `width` by `height`
/// pixels scaled for [`CropMode::Cover`]: half the excess width along
/// the longer side (the excess of the width is used for both sides).
pub open spec fn crop_origin_spec(width: u32, height: u32) -> (u32, u32) {
    let offset = ((width - TARGET_SIZE) / 2) as u32;
    if width > height {
        (offset, 0)
    } else {
        (0, offset)
    }
}

/// The top-left corner of the crop window for a scaled image.
pub fn crop_origin(width: u32, height: u32) -> (r: (u32, u32))
    requires
        width >= TARGET_SIZE,
    ensures
        r == crop_origin_spec(width, height),
{
    let offset = (width - TARGET_SIZE) / 2;
    if width > height {
        (offset, 0)
    } else {
        (0, offset)
    }
}

} // verus!
