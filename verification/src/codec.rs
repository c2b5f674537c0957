//! Byte/text codecs: hexadecimal (through the `hex` crate), base64 (through
//! the `base64` crate) and UTF-8 (through `std`), with the specifications
//! they are held to, and the facts about them that round trips rest on.

use vstd::prelude::*;
use vstd::utf8::{decode_utf8, encode_utf8, valid_utf8, is_ascii_chars};
use base64::Engine;
use crate::text::{decimal, hex2_lower, hex_digit_lower};

verus! {

// ---------------------------------------------------------------------------
// Hexadecimal
// ---------------------------------------------------------------------------

/// `hex::FromHexError`, the error `hex::decode` reports.
#[verifier::external_type_specification]
#[verifier::external_body]
pub struct ExFromHexError(hex::FromHexError);

/// `base64::DecodeError`, the error the base64 decoders report.
#[verifier::external_type_specification]
#[verifier::external_body]
pub struct ExBase64DecodeError(base64::DecodeError);

/// Lowercase hexadecimal rendering of bytes, two digits per byte, high nibble first.
pub open spec fn hex_lower_bytes(b: Seq<u8>) -> Seq<char>
    decreases b.len(),
{
    if b.len() == 0 {
        Seq::empty()
    } else {
        hex2_lower(b[0]) + hex_lower_bytes(b.skip(1))
    }
}

/// The value of an ASCII hexadecimal digit (either case).
pub open spec fn hex_value(c: u8) -> Option<u8> {
    if 48 <= c && c <= 57 {
        Some((c - 48) as u8)
    } else if 65 <= c && c <= 70 {
        Some((c - 55) as u8)
    } else if 97 <= c && c <= 102 {
        Some((c - 87) as u8)
    } else {
        None
    }
}

/// Why hexadecimal text could not be decoded.
#[derive(Debug, Clone, Copy, PartialEq, Eq, Structural)]
pub enum HexDecodeError {
    /// A byte that is no hexadecimal digit, and its position.
    InvalidHexCharacter { c: char, index: usize },
    /// An odd number of digits.
    OddLength,
    /// A length that does not fit the target (fixed-size targets only).
    InvalidStringLength,
}

/// Decodes digit pairs of `s`, whose first byte stands at `offset` in the
/// whole input; the first byte that is no digit is reported.
pub open spec fn hex_pairs(s: Seq<u8>, offset: nat) -> Result<Seq<u8>, HexDecodeError>
    decreases s.len(),
{
    if s.len() < 2 {
        Ok(Seq::empty())
    } else if hex_value(s[0]) is None {
        Err(HexDecodeError::InvalidHexCharacter { c: (s[0] as u32) as char, index: offset as usize })
    } else if hex_value(s[1]) is None {
        Err(
            HexDecodeError::InvalidHexCharacter {
                c: (s[1] as u32) as char,
                index: (offset + 1) as usize,
            },
        )
    } else {
        match hex_pairs(s.skip(2), offset + 2) {
            Ok(rest) => Ok(
                seq![(hex_value(s[0])->0 * 16 + hex_value(s[1])->0) as u8] + rest,
            ),
            Err(e) => Err(e),
        }
    }
}

/// What `hex::decode` gives for the bytes `s`.
pub open spec fn hex_decoded(s: Seq<u8>) -> Result<Seq<u8>, HexDecodeError> {
    if s.len() % 2 != 0 {
        Err(HexDecodeError::OddLength)
    } else {
        hex_pairs(s, 0)
    }
}

/// `r`, a decoding result in memory, is the outcome `o` stated in sequences.
pub open spec fn same_outcome<E>(r: Result<Vec<u8>, E>, o: Result<Seq<u8>, E>) -> bool {
    match r {
        Ok(v) => o is Ok && o->Ok_0 == v@,
        Err(e) => o is Err && o->Err_0 == e,
    }
}

/// Lengths whose encodings fit in memory without overflowing a `usize`.
pub open spec fn encodable_len(n: nat) -> bool {
    n <= usize::MAX / 4
}

/// `hex::encode`: lowercase hexadecimal digits of the bytes, two per byte,
/// high nibble first.
#[verifier::external_body]
pub(crate) fn hex_encode(data: &[u8]) -> (r: String)
    requires
        encodable_len(data@.len()),
    ensures
        r@ == hex_lower_bytes(data@),
{
    hex::encode(data)
}

/// `hex::decode`: an odd number of bytes is `OddLength`; otherwise pairs are
/// decoded in order and the first byte that is no hexadecimal digit (either
/// case) is reported with its position; else the decoded bytes.
#[verifier::external_body]
pub(crate) fn hex_decode(data: &[u8]) -> (r: Result<Vec<u8>, HexDecodeError>)
    ensures
        same_outcome(r, hex_decoded(data@)),
{
    hex::decode(data).map_err(hex_error_of)
}

/// `hex::FromHexError` as this library's [`HexDecodeError`], variant for
/// variant with the same fields. The outside error is opaque here, so
/// nothing ties the result to it in a contract.
#[verifier::external_body]
pub(crate) fn hex_error_of(e: hex::FromHexError) -> HexDecodeError {
    match e {
        hex::FromHexError::InvalidHexCharacter { c, index } => HexDecodeError::InvalidHexCharacter { c, index },
        hex::FromHexError::OddLength => HexDecodeError::OddLength,
        hex::FromHexError::InvalidStringLength => HexDecodeError::InvalidStringLength,
    }
}

/// What `format!("{:?}", c)` prints for a character.
pub uninterp spec fn char_debug_text(c: char) -> Seq<char>;

/// `<char as Debug>::fmt`: the quoted, escaped form of a character; the
/// escaping rules are not restated here, the text is named.
#[verifier::external_body]
pub(crate) fn char_debug(c: char) -> (r: String)
    ensures
        r@ == char_debug_text(c),
{
    format!("{:?}", c)
}

impl HexDecodeError {
    /// The message `hex::FromHexError` displays for this error.
    pub open spec fn text(&self) -> Seq<char> {
        match self {
            HexDecodeError::InvalidHexCharacter { c, index } => "Invalid character "@
                + char_debug_text(*c) + " at position "@ + decimal(*index as nat),
            HexDecodeError::OddLength => "Odd number of digits"@,
            HexDecodeError::InvalidStringLength => "Invalid string length"@,
        }
    }

    /// Renders the message of this error.
    pub fn message(&self) -> (r: String)
        ensures
            r@ == self.text(),
    {
        match self {
            HexDecodeError::InvalidHexCharacter { c, index } => {
                let mut s = crate::text::owned("Invalid character ");
                crate::text::push_str(&mut s, char_debug(*c).as_str());
                crate::text::push_str(&mut s, " at position ");
                crate::text::push_str(&mut s, crate::text::usize_to_string(*index).as_str());
                s
            },
            HexDecodeError::OddLength => crate::text::owned("Odd number of digits"),
            HexDecodeError::InvalidStringLength => crate::text::owned("Invalid string length"),
        }
    }
}

// ---------------------------------------------------------------------------
// Base64
// ---------------------------------------------------------------------------

/// The standard base64 alphabet (RFC 4648): A-Z, a-z, 0-9, '+', '/'.
pub open spec fn b64_char(v: nat) -> char {
    if v < 26 {
        ((v + 65) as u32) as char
    } else if v < 52 {
        ((v + 71) as u32) as char
    } else if v < 62 {
        ((v - 4) as u32) as char
    } else if v == 62 {
        '+'
    } else {
        '/'
    }
}

/// Standard base64 with '=' padding, three bytes to four characters.
pub open spec fn base64_encoded(b: Seq<u8>) -> Seq<char>
    decreases b.len(),
{
    if b.len() == 0 {
        Seq::empty()
    } else if b.len() == 1 {
        seq![b64_char((b[0] / 4) as nat), b64_char(((b[0] % 4) * 16) as nat), '=', '=']
    } else if b.len() == 2 {
        seq![
            b64_char((b[0] / 4) as nat),
            b64_char(((b[0] % 4) * 16 + b[1] / 16) as nat),
            b64_char(((b[1] % 16) * 4) as nat),
            '=',
        ]
    } else {
        seq![
            b64_char((b[0] / 4) as nat),
            b64_char(((b[0] % 4) * 16 + b[1] / 16) as nat),
            b64_char(((b[1] % 16) * 4 + b[2] / 64) as nat),
            b64_char((b[2] % 64) as nat),
        ] + base64_encoded(b.skip(3))
    }
}

/// Why base64 text could not be decoded.
#[derive(Debug, Clone, Copy, PartialEq, Eq, Structural)]
pub enum Base64DecodeError {
    /// A byte outside the alphabet, at an offset.
    InvalidByte(usize, u8),
    /// An impossible number of symbols.
    InvalidLength(usize),
    /// A last symbol whose discarded bits are not zero, at an offset.
    InvalidLastSymbol(usize, u8),
    /// Padding absent, misplaced or not as configured.
    InvalidPadding,
}

impl Base64DecodeError {
    /// The message `base64::DecodeError` displays for this error.
    pub open spec fn text(&self) -> Seq<char> {
        match self {
            Base64DecodeError::InvalidByte(index, byte) => "Invalid symbol "@ + decimal(
                *byte as nat,
            ) + ", offset "@ + decimal(*index as nat) + "."@,
            Base64DecodeError::InvalidLength(len) => "Invalid input length: "@ + decimal(
                *len as nat,
            ),
            Base64DecodeError::InvalidLastSymbol(index, byte) => "Invalid last symbol "@ + decimal(
                *byte as nat,
            ) + ", offset "@ + decimal(*index as nat) + "."@,
            Base64DecodeError::InvalidPadding => "Invalid padding"@,
        }
    }

    /// Renders the message of this error.
    pub fn message(&self) -> (r: String)
        ensures
            r@ == self.text(),
    {
        match self {
            Base64DecodeError::InvalidByte(index, byte) => {
                let mut s = crate::text::owned("Invalid symbol ");
                crate::text::push_str(&mut s, crate::text::u64_to_string(*byte as u64).as_str());
                crate::text::push_str(&mut s, ", offset ");
                crate::text::push_str(&mut s, crate::text::usize_to_string(*index).as_str());
                crate::text::push_str(&mut s, ".");
                s
            },
            Base64DecodeError::InvalidLength(len) => crate::text::concat2(
                "Invalid input length: ",
                crate::text::usize_to_string(*len).as_str(),
            ),
            Base64DecodeError::InvalidLastSymbol(index, byte) => {
                let mut s = crate::text::owned("Invalid last symbol ");
                crate::text::push_str(&mut s, crate::text::u64_to_string(*byte as u64).as_str());
                crate::text::push_str(&mut s, ", offset ");
                crate::text::push_str(&mut s, crate::text::usize_to_string(*index).as_str());
                crate::text::push_str(&mut s, ".");
                s
            },
            Base64DecodeError::InvalidPadding => crate::text::owned("Invalid padding"),
        }
    }
}

/// `base64::engine::general_purpose::STANDARD.encode`: standard alphabet,
/// '=' padding.
#[verifier::external_body]
pub(crate) fn base64_standard_encode(data: &[u8]) -> (r: String)
    requires
        encodable_len(data@.len()),
    ensures
        r@ == base64_encoded(data@),
{
    base64::engine::general_purpose::STANDARD.encode(data)
}

/// What `STANDARD.decode` gives for the input bytes.
pub uninterp spec fn standard_base64_decoding(input: Seq<u8>) -> Result<Seq<u8>, Base64DecodeError>;

/// What `URL_SAFE_NO_PAD.decode` gives for the input bytes.
pub uninterp spec fn url_safe_unpadded_base64_decoding(input: Seq<u8>) -> Result<Seq<u8>, Base64DecodeError>;

/// `base64::engine::general_purpose::STANDARD.decode`. The acceptance rules
/// (canonical padding, zero trailing bits) are not restated: the result is
/// named. What is stated is that the padded standard encoding of any bytes
/// decodes back to those bytes.
#[verifier::external_body]
pub(crate) fn base64_standard_decode(input: &[u8]) -> (r: Result<Vec<u8>, Base64DecodeError>)
    ensures
        same_outcome(r, standard_base64_decoding(input@)),
        forall|b: Seq<u8>| input@ == encode_utf8(#[trigger] base64_encoded(b)) ==> same_outcome(r, Ok(b)),
{
    base64::engine::general_purpose::STANDARD.decode(input).map_err(base64_error_of)
}

/// `base64::DecodeError` as this library's [`Base64DecodeError`], variant
/// for variant with the same fields. The outside error is opaque here, so
/// nothing ties the result to it in a contract.
#[verifier::external_body]
pub(crate) fn base64_error_of(e: base64::DecodeError) -> Base64DecodeError {
    match e {
        base64::DecodeError::InvalidByte(i, b) => Base64DecodeError::InvalidByte(i, b),
        base64::DecodeError::InvalidLength(n) => Base64DecodeError::InvalidLength(n),
        base64::DecodeError::InvalidLastSymbol(i, b) => Base64DecodeError::InvalidLastSymbol(i, b),
        base64::DecodeError::InvalidPadding => Base64DecodeError::InvalidPadding,
    }
}

/// `base64::engine::general_purpose::URL_SAFE_NO_PAD.decode` ('-' and '_' in
/// place of '+' and '/', no padding accepted). The result is named.
#[verifier::external_body]
pub(crate) fn base64_url_safe_unpadded_decode(input: &[u8]) -> (r: Result<
    Vec<u8>,
    Base64DecodeError,
>)
    ensures
        same_outcome(r, url_safe_unpadded_base64_decoding(input@)),
{
    base64::engine::general_purpose::URL_SAFE_NO_PAD.decode(input).map_err(base64_error_of)
}

/// What `format!("{:?}", s)` prints for a string.
pub uninterp spec fn str_debug_text(s: Seq<char>) -> Seq<char>;

/// `<str as Debug>::fmt`: the string in double quotes with quotes,
/// backslashes and unprintable characters escaped; the escaping rules are
/// not restated here, the text is named.
#[verifier::external_body]
pub(crate) fn str_debug(s: &str) -> (r: String)
    ensures
        r@ == str_debug_text(s@),
{
    format!("{:?}", s)
}

// ---------------------------------------------------------------------------
// UTF-8
// ---------------------------------------------------------------------------

/// Where and how bytes stopped being UTF-8 (`std::str::Utf8Error`).
#[derive(Debug, Clone, Copy, PartialEq, Eq, Structural)]
pub struct Utf8Failure {
    /// Length of the longest valid prefix.
    pub valid_up_to: usize,
    /// Length of the invalid sequence after it; `None` when the input ended
    /// in the middle of a character.
    pub error_len: Option<usize>,
}

/// What `String::from_utf8` reports about invalid bytes.
pub uninterp spec fn utf8_failure(bytes: Seq<u8>) -> Utf8Failure;

impl Utf8Failure {
    /// The message `std::str::Utf8Error` displays.
    pub open spec fn text(&self) -> Seq<char> {
        match self.error_len {
            Some(n) => "invalid utf-8 sequence of "@ + decimal(n as nat) + " bytes from index "@
                + decimal(self.valid_up_to as nat),
            None => "incomplete utf-8 byte sequence from index "@ + decimal(
                self.valid_up_to as nat,
            ),
        }
    }

    /// Renders the message of this failure.
    pub fn message(&self) -> (r: String)
        ensures
            r@ == self.text(),
    {
        match self.error_len {
            Some(n) => {
                let mut s = crate::text::owned("invalid utf-8 sequence of ");
                crate::text::push_str(&mut s, crate::text::usize_to_string(n).as_str());
                crate::text::push_str(&mut s, " bytes from index ");
                crate::text::push_str(
                    &mut s,
                    crate::text::usize_to_string(self.valid_up_to).as_str(),
                );
                s
            },
            None => crate::text::concat2(
                "incomplete utf-8 byte sequence from index ",
                crate::text::usize_to_string(self.valid_up_to).as_str(),
            ),
        }
    }
}

/// `String::from_utf8`: succeeds exactly on valid UTF-8, with the decoded
/// characters; otherwise reports the longest valid prefix (a valid prefix,
/// not longer than the input, and the longest: no longer prefix is valid)
/// and the length, between 1 and 3, of the bad
/// sequence when there is one. The exact position is named, not restated.
#[verifier::external_body]
pub(crate) fn utf8_string(bytes: Vec<u8>) -> (r: Result<String, Utf8Failure>)
    ensures
        r is Ok <==> valid_utf8(bytes@),
        r matches Ok(s) ==> s@ == decode_utf8(bytes@),
        r matches Err(f) ==> {
            &&& f == utf8_failure(bytes@)
            &&& f.valid_up_to <= bytes@.len()
            &&& valid_utf8(bytes@.take(f.valid_up_to as int))
            &&& forall|j: int| f.valid_up_to < j <= bytes@.len() ==> !valid_utf8(#[trigger] bytes@.take(j))
            &&& (f.error_len matches Some(n) ==> 1 <= n <= 3)
        },
{
    String::from_utf8(bytes).map_err(
        |e| {
            let u = e.utf8_error();
            Utf8Failure { valid_up_to: u.valid_up_to(), error_len: u.error_len() }
        },
    )
}

/// `FromUtf8Error::utf8_error` read as plain values: the length of the
/// longest valid prefix and the length of the bad sequence (between 1 and 3,
/// per the documentation of `Utf8Error::error_len`). The outside error is
/// opaque here, so the position is not tied to it in a contract.
#[verifier::external_body]
pub(crate) fn utf8_failure_of(e: &std::string::FromUtf8Error) -> (r: Utf8Failure)
    ensures
        r.error_len matches Some(n) ==> 1 <= n <= 3,
{
    let u = e.utf8_error();
    Utf8Failure { valid_up_to: u.valid_up_to(), error_len: u.error_len() }
}

/// The bytes of `s` (its UTF-8 encoding), in a new vector.
pub fn utf8_bytes(s: &str) -> (r: Vec<u8>)
    ensures
        r@ == encode_utf8(s@),
{
    let b = s.as_bytes();
    vstd::slice::slice_to_vec(b)
}

// ---------------------------------------------------------------------------
// Facts used by round trips
// ---------------------------------------------------------------------------

pub proof fn lemma_hex2_lower_ascii(b: u8)
    ensures
        is_ascii_chars(hex2_lower(b)),
        hex2_lower(b).len() == 2,
        hex_value((hex2_lower(b)[0] as u32) as u8) == Some((b / 16) as u8),
        hex_value((hex2_lower(b)[1] as u32) as u8) == Some((b % 16) as u8),
{
}

pub proof fn lemma_hex_lower_bytes_len(b: Seq<u8>)
    ensures
        hex_lower_bytes(b).len() == 2 * b.len(),
        is_ascii_chars(hex_lower_bytes(b)),
    decreases b.len(),
{
    if b.len() > 0 {
        lemma_hex_lower_bytes_len(b.skip(1));
        lemma_hex2_lower_ascii(b[0]);
        let h = hex_lower_bytes(b);
        assert forall|i: int| 0 <= i < h.len() implies (h[i] as u32) < 128 by {
            if i >= 2 {
                assert(h[i] == hex_lower_bytes(b.skip(1))[i - 2]);
            }
        }
    }
}

/// The ASCII bytes of a run of ASCII characters.
pub open spec fn ascii_bytes(s: Seq<char>) -> Seq<u8> {
    Seq::new(s.len(), |i: int| (s[i] as u32) as u8)
}

pub proof fn lemma_hex_pairs_of_lower(b: Seq<u8>, offset: nat)
    ensures
        hex_pairs(ascii_bytes(hex_lower_bytes(b)), offset) == Ok::<Seq<u8>, HexDecodeError>(b),
    decreases b.len(),
{
    lemma_hex_lower_bytes_len(b);
    let a = ascii_bytes(hex_lower_bytes(b));
    if b.len() == 0 {
        assert(b =~= Seq::<u8>::empty());
    } else {
        lemma_hex2_lower_ascii(b[0]);
        lemma_hex_lower_bytes_len(b.skip(1));
        lemma_hex_pairs_of_lower(b.skip(1), offset + 2);
        assert(a.skip(2) =~= ascii_bytes(hex_lower_bytes(b.skip(1))));
        assert(a[0] == (hex2_lower(b[0])[0] as u32) as u8);
        assert(a[1] == (hex2_lower(b[0])[1] as u32) as u8);
        assert((b[0] / 16) * 16 + b[0] % 16 == b[0]);
        assert(seq![b[0]] + b.skip(1) =~= b);
    }
}

/// Decoding the lowercase hexadecimal rendering of bytes gives the bytes back.
pub proof fn lemma_hex_roundtrip(b: Seq<u8>)
    ensures
        hex_decoded(encode_utf8(hex_lower_bytes(b))) == Ok::<Seq<u8>, HexDecodeError>(b),
{
    lemma_hex_lower_bytes_len(b);
    vstd::utf8::is_ascii_chars_encode_utf8(hex_lower_bytes(b));
    assert(encode_utf8(hex_lower_bytes(b)) =~= ascii_bytes(hex_lower_bytes(b)));
    lemma_hex_pairs_of_lower(b, 0);
}

} // verus!
