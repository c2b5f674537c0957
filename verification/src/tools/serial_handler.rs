//! What the serial tools answer: the data codecs the tools apply to what
//! they send and receive, and the texts of their replies.
//!
//! The tools name encodings exactly ("utf8", "utf-8", "hex", "base64"), and
//! their hexadecimal parsing takes each digit pair the way
//! `u8::from_str_radix(pair, 16)` does.

use vstd::prelude::*;
use vstd::utf8::{decode_utf8, encode_utf8, is_continuation_byte, valid_utf8};
use crate::codec::{base64_encoded, encodable_len, hex_lower_bytes, hex_value, standard_base64_decoding};
use crate::text::{chars_equal, chars_of, concat2, decimal, hex2_lower, push_hex2_lower, string_of};
use crate::tools::types::{spaced_hex, spaced_pairs, without_spaces};
use crate::utils::{trimmed, StringUtils};
use crate::codec::str_debug_text;
use crate::serial::PortInfo;
use crate::serial::error::SerialError;
use crate::text::{owned, push_str, u64_to_string, usize_to_string};

verus! {

// ---------------------------------------------------------------------------
// Hexadecimal digit pairs
// ---------------------------------------------------------------------------

/// What `u8::from_str_radix` gives, in base 16, for the two bytes `b0 b1`:
/// two digits (either case), or '+' and one digit.
pub open spec fn radix16_pair(b0: u8, b1: u8) -> Option<u8> {
    if b0 == 43 {
        hex_value(b1)
    } else if hex_value(b0) is Some && hex_value(b1) is Some {
        Some((hex_value(b0)->0 * 16 + hex_value(b1)->0) as u8)
    } else {
        None
    }
}

/// The values of the digit pairs of `b`, whose first byte stands at
/// `offset`; or the position of the first pair that is no number.
pub open spec fn radix16_pairs(b: Seq<u8>, offset: nat) -> Result<Seq<u8>, nat>
    decreases b.len(),
{
    if b.len() < 2 {
        Ok(Seq::empty())
    } else {
        match radix16_pair(b[0], b[1]) {
            Some(v) => match radix16_pairs(b.skip(2), offset + 2) {
                Ok(rest) => Ok(seq![v] + rest),
                Err(k) => Err(k),
            },
            None => Err(offset),
        }
    }
}

/// `prefix` in front of a successful result; a failure passes through.
pub open spec fn after_prefix(prefix: Seq<u8>, r: Result<Seq<u8>, nat>) -> Result<Seq<u8>, nat> {
    match r {
        Ok(t) => Ok(prefix + t),
        Err(k) => Err(k),
    }
}

/// The bytes the tools read hexadecimal digits from: the text trimmed,
/// without its spaces.
pub open spec fn hex_text_bytes(data: Seq<char>) -> Seq<u8> {
    encode_utf8(without_spaces(trimmed(data)))
}

/// Every pair of an even number of bytes starts on a character boundary,
/// so that each pair can be taken as a text of its own.
pub open spec fn pairs_on_char_boundaries(b: Seq<u8>) -> bool {
    b.len() % 2 == 0 ==> forall|i: int|
        0 <= i < b.len() && i % 2 == 0 ==> !is_continuation_byte(#[trigger] b[i])
}

/// What the tools' hexadecimal parsing gives: an odd number of bytes is
/// refused, then each pair is taken as a number.
pub open spec fn tool_hex_decoded(data: Seq<char>) -> Result<Seq<u8>, Seq<char>> {
    let b = hex_text_bytes(data);
    if b.len() % 2 != 0 {
        Err("Hex string must have even length"@)
    } else {
        match radix16_pairs(b, 0) {
            Ok(v) => Ok(v),
            Err(k) => Err("Invalid hex character at position "@ + decimal(k)),
        }
    }
}

/// The value of the digit pair `b0 b1`.
fn parse_radix16_pair(b0: u8, b1: u8) -> (r: Option<u8>)
    ensures
        r == radix16_pair(b0, b1),
{
    let lo = digit_value(b1);
    if b0 == 43 {
        lo
    } else {
        match (digit_value(b0), lo) {
            (Some(h), Some(l)) => Some(h * 16 + l),
            _ => None,
        }
    }
}

/// The value of an ASCII hexadecimal digit.
fn digit_value(c: u8) -> (r: Option<u8>)
    ensures
        r == hex_value(c),
        r matches Some(v) ==> v < 16,
{
    if 48 <= c && c <= 57 {
        Some(c - 48)
    } else if 65 <= c && c <= 70 {
        Some(c - 55)
    } else if 97 <= c && c <= 102 {
        Some(c - 87)
    } else {
        None
    }
}

/// Parses the digit pairs of an even number of bytes.
fn parse_radix16_pairs(b: &Vec<u8>) -> (r: Result<Vec<u8>, usize>)
    requires
        b@.len() % 2 == 0,
    ensures
        match radix16_pairs(b@, 0) {
            Ok(v) => r matches Ok(w) && w@ == v,
            Err(k) => r matches Err(j) && j == k,
        },
{
    let mut out: Vec<u8> = Vec::new();
    let mut i: usize = 0;
    assert(b@.skip(0) =~= b@);
    assert(after_prefix(Seq::empty(), radix16_pairs(b@, 0)) == radix16_pairs(b@, 0)) by {
        match radix16_pairs(b@, 0) {
            Ok(t) => assert(Seq::<u8>::empty() + t =~= t),
            Err(_) => {},
        }
    }
    while i < b.len()
        invariant
            i <= b@.len(),
            i % 2 == 0,
            b@.len() % 2 == 0,
            radix16_pairs(b@, 0) == after_prefix(out@, radix16_pairs(b@.skip(i as int), i as nat)),
        decreases b@.len() - i,
    {
        let ghost rest = b@.skip(i as int);
        assert(rest[0] == b@[i as int] && rest[1] == b@[i + 1]);
        match parse_radix16_pair(b[i], b[i + 1]) {
            Some(v) => {
                proof {
                    assert(rest.skip(2) =~= b@.skip(i + 2));
                    let tail = radix16_pairs(b@.skip(i + 2), (i + 2) as nat);
                    match tail {
                        Ok(t) => assert(out@ + (seq![v] + t) =~= out@.push(v) + t),
                        Err(_) => {},
                    }
                }
                out.push(v);
                i = i + 2;
            },
            None => {
                return Err(i);
            },
        }
    }
    proof {
        assert(b@.skip(i as int).len() == 0);
        assert(out@ + Seq::<u8>::empty() =~= out@);
    }
    Ok(out)
}

/// Tests whether the digit pairs of `data` can each be taken as a text of
/// its own (see [`pairs_on_char_boundaries`]); hexadecimal parsing asks it.
pub fn hex_pairs_splittable(data: &str) -> (r: bool)
    ensures
        r == pairs_on_char_boundaries(hex_text_bytes(data@)),
{
    let t = string_of(&StringUtils::trim_chars(&chars_of(data)));
    let clean = crate::tools::types::remove_spaces(t.as_str());
    let b = crate::codec::utf8_bytes(clean.as_str());
    if b.len() % 2 != 0 {
        return true;
    }
    let mut i: usize = 0;
    while i < b.len()
        invariant
            i <= b@.len(),
            i % 2 == 0,
            b@.len() % 2 == 0,
            b@ == hex_text_bytes(data@),
            forall|j: int| 0 <= j < i && j % 2 == 0 ==> !is_continuation_byte(#[trigger] b@[j]),
        decreases b@.len() - i,
    {
        if 0x80 <= b[i] && b[i] <= 0xbf {
            return false;
        }
        i = i + 2;
    }
    true
}

/// Bytes of `data` read as hexadecimal digit pairs, spaces and surrounding
/// white space ignored.
fn decode_tool_hex(data: &str) -> (r: Result<Vec<u8>, String>)
    requires
        pairs_on_char_boundaries(hex_text_bytes(data@)),
    ensures
        match tool_hex_decoded(data@) {
            Ok(v) => r matches Ok(w) && w@ == v,
            Err(m) => r matches Err(n) && n@ == m,
        },
{
    let t = string_of(&StringUtils::trim_chars(&chars_of(data)));
    let clean = crate::tools::types::remove_spaces(t.as_str());
    let b = crate::codec::utf8_bytes(clean.as_str());
    if b.len() % 2 != 0 {
        return Err(crate::text::owned("Hex string must have even length"));
    }
    match parse_radix16_pairs(&b) {
        Ok(v) => Ok(v),
        Err(k) => Err(concat2("Invalid hex character at position ", crate::text::usize_to_string(k).as_str())),
    }
}

// ---------------------------------------------------------------------------
// Codecs of the tools
// ---------------------------------------------------------------------------

/// The name is "utf8" or "utf-8", exactly.
pub open spec fn is_utf8_name(e: Seq<char>) -> bool {
    e == "utf8"@ || e == "utf-8"@
}

/// What the tools send for `data` in the named encoding, or the message
/// of the failure.
pub open spec fn tool_decoded(data: Seq<char>, encoding: Seq<char>) -> Result<Seq<u8>, Seq<char>> {
    if is_utf8_name(encoding) {
        Ok(encode_utf8(data))
    } else if encoding == "hex"@ {
        tool_hex_decoded(data)
    } else if encoding == "base64"@ {
        match standard_base64_decoding(encode_utf8(trimmed(data))) {
            Ok(v) => Ok(v),
            Err(e) => Err("Invalid base64: "@ + e.text()),
        }
    } else {
        Err("Unsupported encoding: "@ + encoding)
    }
}

/// What the tools report for received bytes in the named encoding, or the
/// message of the failure.
pub open spec fn tool_encoded(data: Seq<u8>, encoding: Seq<char>) -> Result<Seq<char>, Seq<char>> {
    if is_utf8_name(encoding) {
        if valid_utf8(data) {
            Ok(decode_utf8(data))
        } else {
            Err("Invalid UTF-8: "@ + crate::codec::utf8_failure(data).text())
        }
    } else if encoding == "hex"@ {
        Ok(spaced_hex(data))
    } else if encoding == "base64"@ {
        Ok(base64_encoded(data))
    } else {
        Err("Unsupported encoding: "@ + encoding)
    }
}

/// Decode text the tools are asked to send: "utf8"/"utf-8" sends its bytes,
/// "hex" reads digit pairs (see [`tool_hex_decoded`]), "base64" decodes the
/// trimmed text with the standard alphabet and padding; other names are
/// refused. The error is a message.
pub fn decode_data(data: &str, encoding: &str) -> (r: Result<Vec<u8>, String>)
    requires
        encoding@ == "hex"@ ==> pairs_on_char_boundaries(hex_text_bytes(data@)),
    ensures
        match tool_decoded(data@, encoding@) {
            Ok(v) => r matches Ok(w) && w@ == v,
            Err(m) => r matches Err(n) && n@ == m,
        },
        forall|b: Seq<u8>| encoding@ == "base64"@ && data@ == #[trigger] base64_encoded(b) ==> (r matches Ok(v)
            && v@ == b),
        forall|b: Seq<u8>| is_utf8_name(encoding@) && valid_utf8(b) && data@ == #[trigger] decode_utf8(b) ==> (r matches Ok(
            v,
        ) && v@ == b),
        forall|b: Seq<u8>| encoding@ == "hex"@ && data@ == #[trigger] spaced_hex(b) ==> (r matches Ok(v) && v@ == b),
        forall|b: Seq<u8>| encoding@ == "hex"@ && data@ == spaced_pairs(#[trigger] hex_upper_bytes(b)) ==> (r matches Ok(
            v,
        ) && v@ == b),
{
    proof {
        assert forall|b: Seq<u8>| encoding@ == "hex"@ && data@ == spaced_pairs(#[trigger] hex_upper_bytes(b)) implies tool_decoded(
            data@,
            encoding@,
        ) == Ok::<Seq<u8>, Seq<char>>(b) by {
            lemma_tool_hex_upper_decoded(b);
        }
        assert forall|b: Seq<u8>| valid_utf8(b) && data@ == #[trigger] decode_utf8(b) implies encode_utf8(data@) == b by {
            vstd::utf8::decode_utf8_encode_utf8(b);
        }
        assert forall|b: Seq<u8>| encoding@ == "hex"@ && data@ == #[trigger] spaced_hex(b) implies tool_decoded(
            data@,
            encoding@,
        ) == Ok::<Seq<u8>, Seq<char>>(b) by {
            lemma_tool_hex_roundtrip(b);
        }
        lemma_tool_names_distinct();
        assert forall|b: Seq<u8>| data@ == #[trigger] base64_encoded(b) implies trimmed(data@) == base64_encoded(b) by {
            lemma_base64_trimmed(b);
        }
    }
    let e = chars_of(encoding);
    if chars_equal(&e, "utf8") || chars_equal(&e, "utf-8") {
        Ok(crate::codec::utf8_bytes(data))
    } else if chars_equal(&e, "hex") {
        decode_tool_hex(data)
    } else if chars_equal(&e, "base64") {
        let t = string_of(&StringUtils::trim_chars(&chars_of(data)));
        let b = crate::codec::utf8_bytes(t.as_str());
        match crate::codec::base64_standard_decode(b.as_slice()) {
            Ok(v) => Ok(v),
            Err(err) => Err(concat2("Invalid base64: ", err.message().as_str())),
        }
    } else {
        Err(concat2("Unsupported encoding: ", encoding))
    }
}

proof fn lemma_hex_lower_bytes_push(b: Seq<u8>, x: u8)
    ensures
        hex_lower_bytes(b.push(x)) == hex_lower_bytes(b) + hex2_lower(x),
    decreases b.len(),
{
    let bx = b.push(x);
    if b.len() == 0 {
        assert(bx.skip(1) =~= Seq::<u8>::empty());
        assert(hex_lower_bytes(bx.skip(1)) == Seq::<char>::empty());
        assert(hex_lower_bytes(bx) == hex2_lower(x) + hex_lower_bytes(bx.skip(1)));
        assert(hex2_lower(x) + Seq::<char>::empty() =~= hex2_lower(x));
        assert(Seq::<char>::empty() + hex2_lower(x) =~= hex2_lower(x));
    } else {
        assert(bx.skip(1) =~= b.skip(1).push(x));
        assert(bx[0] == b[0]);
        lemma_hex_lower_bytes_push(b.skip(1), x);
        assert(hex_lower_bytes(bx) == hex2_lower(b[0]) + hex_lower_bytes(bx.skip(1)));
        assert(hex2_lower(b[0]) + (hex_lower_bytes(b.skip(1)) + hex2_lower(x)) =~= (hex2_lower(b[0])
            + hex_lower_bytes(b.skip(1))) + hex2_lower(x));
    }
}

/// No two encoding names of the tools are the same.
proof fn lemma_tool_names_distinct()
    ensures
        "hex"@ != "utf8"@,
        "hex"@ != "utf-8"@,
        "base64"@ != "utf8"@,
        "base64"@ != "utf-8"@,
        "base64"@ != "hex"@,
{
    reveal_strlit("hex");
    reveal_strlit("utf8");
    reveal_strlit("utf-8");
    reveal_strlit("base64");
    assert("hex"@.len() == 3);
    assert("utf8"@.len() == 4);
    assert("utf-8"@.len() == 5);
    assert("base64"@.len() == 6);
}

proof fn lemma_spaced_pairs_two(h: Seq<char>, c1: char, c2: char)
    requires
        h.len() % 2 == 0,
    ensures
        spaced_pairs(h + seq![c1, c2]) == spaced_pairs(h) + (if h.len() > 0 {
            seq![' ', c1, c2]
        } else {
            seq![c1, c2]
        }),
{
    let h1 = h.push(c1);
    let h2 = h1.push(c2);
    assert(h + seq![c1, c2] =~= h2);
    assert(h2.drop_last() =~= h1);
    assert(h1.drop_last() =~= h);
    if h.len() > 0 {
        assert(spaced_pairs(h1) == spaced_pairs(h) + seq![' ', c1]);
        assert(spaced_pairs(h) + seq![' ', c1] + seq![c2] =~= spaced_pairs(h) + seq![' ', c1, c2]);
        assert((spaced_pairs(h) + seq![' ', c1]).push(c2) =~= spaced_pairs(h) + seq![' ', c1, c2]);
    } else {
        assert(spaced_pairs(h1) == spaced_pairs(h).push(c1));
        assert(spaced_pairs(h).push(c1).push(c2) =~= spaced_pairs(h) + seq![c1, c2]);
    }
}

proof fn lemma_spaced_hex_push(b: Seq<u8>, x: u8)
    ensures
        spaced_hex(b.push(x)) == spaced_hex(b) + (if b.len() > 0 {
            seq![' '] + hex2_lower(x)
        } else {
            hex2_lower(x)
        }),
{
    lemma_hex_lower_bytes_push(b, x);
    crate::codec::lemma_hex_lower_bytes_len(b);
    let h2 = hex2_lower(x);
    assert(h2 =~= seq![h2[0], h2[1]]);
    lemma_spaced_pairs_two(hex_lower_bytes(b), h2[0], h2[1]);
    assert(seq![' ', h2[0], h2[1]] =~= seq![' '] + h2);
}

/// Lowercase hexadecimal of each byte, two digits each, separated by spaces.
fn encode_tool_hex(data: &[u8]) -> (r: String)
    ensures
        r@ == spaced_hex(data@),
{
    let mut out = String::new();
    let mut i: usize = 0;
    assert(data@.take(0) =~= Seq::<u8>::empty());
    while i < data.len()
        invariant
            i <= data@.len(),
            out@ == spaced_hex(data@.take(i as int)),
        decreases data@.len() - i,
    {
        proof {
            assert(data@.take(i + 1) =~= data@.take(i as int).push(data@[i as int]));
            lemma_spaced_hex_push(data@.take(i as int), data@[i as int]);
        }
        if i > 0 {
            crate::text::push_char(&mut out, ' ');
            proof {
                assert(out@ =~= spaced_hex(data@.take(i as int)) + seq![' ']);
            }
        }
        push_hex2_lower(&mut out, data[i]);
        proof {
            assert(out@ =~= spaced_hex(data@.take(i + 1)));
        }
        i = i + 1;
    }
    assert(data@.take(data@.len() as int) =~= data@);
    out
}

/// Encode bytes the tools received: "utf8"/"utf-8" as text, "hex" as
/// spaced lowercase digit pairs, "base64" with the standard alphabet and
/// padding; other names are refused. The error is a message.
pub fn encode_data(data: &[u8], encoding: &str) -> (r: Result<String, String>)
    requires
        encodable_len(data@.len()),
    ensures
        match tool_encoded(data@, encoding@) {
            Ok(t) => r matches Ok(s) && s@ == t,
            Err(m) => r matches Err(n) && n@ == m,
        },
{
    proof {
        lemma_tool_names_distinct();
    }
    let e = chars_of(encoding);
    if chars_equal(&e, "utf8") || chars_equal(&e, "utf-8") {
        match crate::codec::utf8_string(vstd::slice::slice_to_vec(data)) {
            Ok(s) => Ok(s),
            Err(f) => Err(concat2("Invalid UTF-8: ", f.message().as_str())),
        }
    } else if chars_equal(&e, "hex") {
        Ok(encode_tool_hex(data))
    } else if chars_equal(&e, "base64") {
        Ok(crate::codec::base64_standard_encode(data))
    } else {
        Err(concat2("Unsupported encoding: ", encoding))
    }
}

// ---------------------------------------------------------------------------
// Round trips
// ---------------------------------------------------------------------------

proof fn lemma_radix16_pairs_of_lower(b: Seq<u8>, offset: nat)
    ensures
        radix16_pairs(crate::codec::ascii_bytes(hex_lower_bytes(b)), offset) == Ok::<Seq<u8>, nat>(b),
    decreases b.len(),
{
    crate::codec::lemma_hex_lower_bytes_len(b);
    let a = crate::codec::ascii_bytes(hex_lower_bytes(b));
    if b.len() == 0 {
        assert(b =~= Seq::<u8>::empty());
    } else {
        crate::codec::lemma_hex2_lower_ascii(b[0]);
        crate::codec::lemma_hex_lower_bytes_len(b.skip(1));
        lemma_radix16_pairs_of_lower(b.skip(1), offset + 2);
        assert(a.skip(2) =~= crate::codec::ascii_bytes(hex_lower_bytes(b.skip(1))));
        assert(a[0] == (hex2_lower(b[0])[0] as u32) as u8);
        assert(a[1] == (hex2_lower(b[0])[1] as u32) as u8);
        assert((b[0] / 16) * 16 + b[0] % 16 == b[0]);
        assert(seq![b[0]] + b.skip(1) =~= b);
    }
}

proof fn lemma_hex_lower_digits(b: Seq<u8>, i: int)
    requires
        0 <= i < hex_lower_bytes(b).len(),
    ensures
        ('0' <= hex_lower_bytes(b)[i] <= '9') || ('a' <= hex_lower_bytes(b)[i] <= 'f'),
    decreases b.len(),
{
    crate::codec::lemma_hex_lower_bytes_len(b);
    if b.len() > 0 && i >= 2 {
        crate::codec::lemma_hex_lower_bytes_len(b.skip(1));
        lemma_hex_lower_digits(b.skip(1), i - 2);
    }
}

proof fn lemma_spaced_pairs_ends(h: Seq<char>)
    requires
        h.len() > 0,
    ensures
        spaced_pairs(h).len() > 0,
        spaced_pairs(h)[0] == h[0],
        spaced_pairs(h).last() == h.last(),
    decreases h.len(),
{
    if h.len() > 1 {
        let d = h.drop_last();
        lemma_spaced_pairs_ends(d);
        assert(d[0] == h[0]);
        let p = spaced_pairs(d);
        if (h.len() - 1) % 2 == 0 {
            assert(spaced_pairs(h) == p + seq![' ', h.last()]);
            assert((p + seq![' ', h.last()])[0] == p[0]);
        } else {
            assert(spaced_pairs(h) == p.push(h.last()));
            assert(p.push(h.last())[0] == p[0]);
        }
    } else {
        assert(h.drop_last().len() == 0);
        assert(spaced_pairs(h.drop_last()) == Seq::<char>::empty());
        assert(spaced_pairs(h) == Seq::<char>::empty().push(h.last()));
    }
}

/// Text made of the characters `a..=f`, digits and inner spaces, is its own trim.
proof fn lemma_spaced_hex_trimmed(b: Seq<u8>)
    ensures
        trimmed(spaced_hex(b)) == spaced_hex(b),
{
    let h = hex_lower_bytes(b);
    let s = spaced_hex(b);
    crate::codec::lemma_hex_lower_bytes_len(b);
    if h.len() > 0 {
        lemma_spaced_pairs_ends(h);
        lemma_hex_lower_digits(b, 0);
        lemma_hex_lower_digits(b, h.len() - 1);
        assert(!crate::text::is_whitespace(s[0]));
        assert(crate::utils::trim_start(s) == s);
        assert(!crate::text::is_whitespace(s.last()));
    } else {
        assert(s.len() == 0);
    }
}

/// What the tools report in "hex" they read back, byte for byte, and the
/// text is one they can read without splitting a character.
pub proof fn lemma_tool_hex_roundtrip(b: Seq<u8>)
    ensures
        tool_encoded(b, "hex"@) == Ok::<Seq<char>, Seq<char>>(spaced_hex(b)),
        pairs_on_char_boundaries(hex_text_bytes(spaced_hex(b))),
        tool_decoded(spaced_hex(b), "hex"@) == Ok::<Seq<u8>, Seq<char>>(b),
{
    lemma_tool_names_distinct();
    let h = hex_lower_bytes(b);
    lemma_spaced_hex_trimmed(b);
    crate::codec::lemma_hex_lower_bytes_len(b);
    assert forall|i: int| 0 <= i < h.len() implies h[i] != ' ' by {
        lemma_hex_lower_digits(b, i);
    }
    crate::tools::types::lemma_without_spaces_of_spaced(h);
    vstd::utf8::is_ascii_chars_encode_utf8(h);
    let a = crate::codec::ascii_bytes(h);
    assert(encode_utf8(h) =~= a);
    assert(hex_text_bytes(spaced_hex(b)) == a);
    assert forall|i: int| 0 <= i < a.len() && i % 2 == 0 implies !is_continuation_byte(#[trigger] a[i]) by {
        assert((h[i] as u32) < 128);
    }
    lemma_radix16_pairs_of_lower(b, 0);
}


/// A byte as two uppercase hexadecimal digits, high nibble first.
pub open spec fn hex2_upper(b: u8) -> Seq<char> {
    seq![crate::text::hex_digit_upper((b / 16) as nat), crate::text::hex_digit_upper((b % 16) as nat)]
}

/// Uppercase hexadecimal rendering of bytes, two digits per byte.
pub open spec fn hex_upper_bytes(b: Seq<u8>) -> Seq<char>
    decreases b.len(),
{
    if b.len() == 0 {
        Seq::empty()
    } else {
        hex2_upper(b[0]) + hex_upper_bytes(b.skip(1))
    }
}

/// Digits are read without regard to case, in either position of a pair:
/// two ASCII hexadecimal digits `d1 d2` ('0'..='9', 'a'..='f' or 'A'..='F')
/// have the value `16 * d1 + d2`, and an uppercase letter reads as its
/// lowercase twin.
pub proof fn lemma_radix16_pair_either_case(b0: u8, b1: u8)
    requires
        (48 <= b0 <= 57) || (65 <= b0 <= 70) || (97 <= b0 <= 102),
        (48 <= b1 <= 57) || (65 <= b1 <= 70) || (97 <= b1 <= 102),
    ensures
        radix16_pair(b0, b1) == Some((hex_value(b0)->0 * 16 + hex_value(b1)->0) as u8),
        65 <= b0 <= 70 ==> radix16_pair(b0, b1) == radix16_pair((b0 + 32) as u8, b1),
        65 <= b1 <= 70 ==> radix16_pair(b0, b1) == radix16_pair(b0, (b1 + 32) as u8),
        65 <= b0 <= 70 ==> radix16_pair(b0, b1) == Some(((b0 - 55) * 16 + hex_value(b1)->0) as u8),
{
}

proof fn lemma_hex2_upper_ascii(b: u8)
    ensures
        hex2_upper(b).len() == 2,
        crate::codec::ascii_bytes(hex2_upper(b)).len() == 2,
        (hex2_upper(b)[0] as u32) < 128 && (hex2_upper(b)[1] as u32) < 128,
        hex2_upper(b)[0] != ' ' && hex2_upper(b)[1] != ' ',
        hex_value((hex2_upper(b)[0] as u32) as u8) == Some((b / 16) as u8),
        hex_value((hex2_upper(b)[1] as u32) as u8) == Some((b % 16) as u8),
        ('0' <= hex2_upper(b)[0] <= '9') || ('A' <= hex2_upper(b)[0] <= 'F'),
        ('0' <= hex2_upper(b)[1] <= '9') || ('A' <= hex2_upper(b)[1] <= 'F'),
{
}

proof fn lemma_hex_upper_bytes_digits(b: Seq<u8>)
    ensures
        hex_upper_bytes(b).len() == 2 * b.len(),
        forall|i: int| 0 <= i < hex_upper_bytes(b).len() ==> (('0' <= #[trigger] hex_upper_bytes(b)[i] <= '9') || (
        'A' <= hex_upper_bytes(b)[i] <= 'F')),
    decreases b.len(),
{
    if b.len() > 0 {
        lemma_hex_upper_bytes_digits(b.skip(1));
        lemma_hex2_upper_ascii(b[0]);
        let h = hex_upper_bytes(b);
        assert forall|i: int| 0 <= i < h.len() implies (('0' <= #[trigger] h[i] <= '9') || ('A' <= h[i] <= 'F')) by {
            if i >= 2 {
                assert(h[i] == hex_upper_bytes(b.skip(1))[i - 2]);
            }
        }
    }
}

proof fn lemma_radix16_pairs_of_upper(b: Seq<u8>, offset: nat)
    ensures
        radix16_pairs(crate::codec::ascii_bytes(hex_upper_bytes(b)), offset) == Ok::<Seq<u8>, nat>(b),
    decreases b.len(),
{
    lemma_hex_upper_bytes_digits(b);
    let a = crate::codec::ascii_bytes(hex_upper_bytes(b));
    if b.len() == 0 {
        assert(b =~= Seq::<u8>::empty());
    } else {
        lemma_hex2_upper_ascii(b[0]);
        lemma_hex_upper_bytes_digits(b.skip(1));
        lemma_radix16_pairs_of_upper(b.skip(1), offset + 2);
        assert(a.skip(2) =~= crate::codec::ascii_bytes(hex_upper_bytes(b.skip(1))));
        assert(a[0] == (hex2_upper(b[0])[0] as u32) as u8);
        assert(a[1] == (hex2_upper(b[0])[1] as u32) as u8);
        assert((b[0] / 16) * 16 + b[0] % 16 == b[0]);
        assert(seq![b[0]] + b.skip(1) =~= b);
    }
}

/// Hexadecimal text written with uppercase digits, in spaced pairs as the
/// tools report it, is read back byte for byte: case does not matter to
/// the tools' hexadecimal decoding.
pub proof fn lemma_tool_hex_upper_decoded(b: Seq<u8>)
    ensures
        pairs_on_char_boundaries(hex_text_bytes(spaced_pairs(hex_upper_bytes(b)))),
        tool_decoded(spaced_pairs(hex_upper_bytes(b)), "hex"@) == Ok::<Seq<u8>, Seq<char>>(b),
{
    lemma_tool_names_distinct();
    let h = hex_upper_bytes(b);
    let s = spaced_pairs(h);
    lemma_hex_upper_bytes_digits(b);
    if h.len() > 0 {
        lemma_spaced_pairs_ends(h);
        assert(!crate::text::is_whitespace(s[0]));
        assert(crate::utils::trim_start(s) == s);
        assert(!crate::text::is_whitespace(s.last()));
    } else {
        assert(s.len() == 0);
    }
    assert(trimmed(s) == s);
    assert forall|i: int| 0 <= i < h.len() implies h[i] != ' ' by {
        assert(('0' <= h[i] <= '9') || ('A' <= h[i] <= 'F'));
    }
    crate::tools::types::lemma_without_spaces_of_spaced(h);
    assert(vstd::utf8::is_ascii_chars(h)) by {
        assert forall|i: int| 0 <= i < h.len() implies '\0' <= #[trigger] h[i] <= '\u{7f}' by {
            assert(('0' <= h[i] <= '9') || ('A' <= h[i] <= 'F'));
        }
    }
    vstd::utf8::is_ascii_chars_encode_utf8(h);
    let a = crate::codec::ascii_bytes(h);
    assert(encode_utf8(h) =~= a);
    assert(hex_text_bytes(s) == a);
    assert forall|i: int| 0 <= i < a.len() && i % 2 == 0 implies !is_continuation_byte(#[trigger] a[i]) by {
        assert(('0' <= h[i] <= '9') || ('A' <= h[i] <= 'F'));
    }
    lemma_radix16_pairs_of_upper(b, 0);
}
proof fn lemma_b64_char_not_whitespace(v: nat)
    ensures
        !crate::text::is_whitespace(crate::codec::b64_char(v)),
{
    let c = crate::codec::b64_char(v);
    if v < 26 {
        assert((c as u32) == v + 65) by {
            vstd::utf8::char_u32_cast(c, (v + 65) as u32);
        }
    } else if v < 52 {
        assert((c as u32) == v + 71) by {
            vstd::utf8::char_u32_cast(c, (v + 71) as u32);
        }
    } else if v < 62 {
        assert((c as u32) == v - 4) by {
            vstd::utf8::char_u32_cast(c, (v - 4) as u32);
        }
    }
}

proof fn lemma_base64_no_whitespace(b: Seq<u8>)
    ensures
        forall|i: int| 0 <= i < base64_encoded(b).len() ==> !crate::text::is_whitespace(#[trigger] base64_encoded(b)[i]),
    decreases b.len(),
{
    let e = base64_encoded(b);
    if b.len() == 1 {
        lemma_b64_char_not_whitespace((b[0] / 4) as nat);
        lemma_b64_char_not_whitespace(((b[0] % 4) * 16) as nat);
    } else if b.len() == 2 {
        lemma_b64_char_not_whitespace((b[0] / 4) as nat);
        lemma_b64_char_not_whitespace(((b[0] % 4) * 16 + b[1] / 16) as nat);
        lemma_b64_char_not_whitespace(((b[1] % 16) * 4) as nat);
    } else if b.len() >= 3 {
        lemma_b64_char_not_whitespace((b[0] / 4) as nat);
        lemma_b64_char_not_whitespace(((b[0] % 4) * 16 + b[1] / 16) as nat);
        lemma_b64_char_not_whitespace(((b[1] % 16) * 4 + b[2] / 64) as nat);
        lemma_b64_char_not_whitespace((b[2] % 64) as nat);
        lemma_base64_no_whitespace(b.skip(3));
        assert forall|i: int| 0 <= i < e.len() implies !crate::text::is_whitespace(#[trigger] e[i]) by {
            if i >= 4 {
                assert(e[i] == base64_encoded(b.skip(3))[i - 4]);
            }
        }
    }
}

/// The standard base64 text of any bytes is its own trim.
pub proof fn lemma_base64_trimmed(b: Seq<u8>)
    ensures
        trimmed(base64_encoded(b)) == base64_encoded(b),
{
    let e = base64_encoded(b);
    lemma_base64_no_whitespace(b);
    if e.len() > 0 {
        assert(!crate::text::is_whitespace(e[0]));
        assert(crate::utils::trim_start(e) == e);
        assert(!crate::text::is_whitespace(e[e.len() - 1]));
    }
}

/// What the tools report as UTF-8 text they send back as the same bytes.
pub proof fn lemma_tool_utf8_roundtrip(b: Seq<u8>, encoding: Seq<char>)
    requires
        is_utf8_name(encoding),
        valid_utf8(b),
    ensures
        tool_encoded(b, encoding) == Ok::<Seq<char>, Seq<char>>(decode_utf8(b)),
        tool_decoded(decode_utf8(b), encoding) == Ok::<Seq<u8>, Seq<char>>(b),
{
    vstd::utf8::decode_utf8_encode_utf8(b);
}

// ---------------------------------------------------------------------------
// Replies
// ---------------------------------------------------------------------------

/// The line that lists one port: its name, its description and, when it
/// has one, its hardware identifier in brackets.
pub open spec fn port_line(p: PortInfo) -> Seq<char> {
    "- "@ + p.name@ + ": "@ + p.description@ + match p.hardware_id {
        Some(h) => " ("@ + h@ + ")"@,
        None => Seq::empty(),
    }
}

/// The lines of the ports, in order, separated by newlines.
pub open spec fn port_lines(ps: Seq<PortInfo>) -> Seq<char>
    decreases ps.len(),
{
    if ps.len() == 0 {
        Seq::empty()
    } else if ps.len() == 1 {
        port_line(ps[0])
    } else {
        port_lines(ps.drop_last()) + "\n"@ + port_line(ps.last())
    }
}

/// The reply listing the ports found.
pub open spec fn ports_text(ps: Seq<PortInfo>) -> Seq<char> {
    if ps.len() == 0 {
        "No serial ports found on the system"@
    } else {
        "Found "@ + decimal(ps.len()) + " serial ports:\n"@ + port_lines(ps)
    }
}

/// The line that lists one port.
fn port_line_text(p: &PortInfo) -> (r: String)
    ensures
        r@ == port_line(*p),
{
    let mut s = owned("- ");
    push_str(&mut s, p.name.as_str());
    push_str(&mut s, ": ");
    push_str(&mut s, p.description.as_str());
    match &p.hardware_id {
        Some(h) => {
            push_str(&mut s, " (");
            push_str(&mut s, h.as_str());
            push_str(&mut s, ")");
        },
        None => {},
    }
    assert(s@ =~= port_line(*p));
    s
}

/// The reply listing the ports found.
pub fn ports_message(ports: &Vec<PortInfo>) -> (r: String)
    ensures
        r@ == ports_text(ports@),
{
    if ports.len() == 0 {
        return owned("No serial ports found on the system");
    }
    let mut lines = String::new();
    let mut i: usize = 0;
    while i < ports.len()
        invariant
            i <= ports@.len(),
            lines@ == port_lines(ports@.take(i as int)),
        decreases ports@.len() - i,
    {
        let line = port_line_text(&ports[i]);
        proof {
            let t = ports@.take(i + 1);
            assert(t.drop_last() =~= ports@.take(i as int));
            assert(t.last() == ports@[i as int]);
            if i == 0 {
                assert(t =~= seq![ports@[0]]);
            }
        }
        if i > 0 {
            push_str(&mut lines, "\n");
        }
        push_str(&mut lines, line.as_str());
        proof {
            if i == 0 {
                assert(lines@ =~= port_lines(ports@.take(1)));
            } else {
                assert(lines@ =~= port_lines(ports@.take(i + 1)));
            }
        }
        i = i + 1;
    }
    assert(ports@.take(ports@.len() as int) =~= ports@);
    let mut s = concat2("Found ", usize_to_string(ports.len()).as_str());
    push_str(&mut s, " serial ports:\n");
    push_str(&mut s, lines.as_str());
    assert(s@ =~= ports_text(ports@));
    s
}

/// The reply when the ports could not be listed.
pub fn list_ports_failed_message(error: &str) -> (r: String)
    ensures
        r@ == "Failed to list ports: "@ + error@,
{
    concat2("Failed to list ports: ", error)
}

/// `m` is the message of `e`: its text where it is stated, else a text
/// that starts with the error's label.
pub open spec fn is_message_of(e: SerialError, m: Seq<char>) -> bool {
    match e.known_text() {
        Some(t) => m == t,
        None => m.len() >= e.label().len() && m.take(e.label().len() as int) == e.label(),
    }
}

/// `r` is `prefix` followed by the message of `e`.
pub open spec fn prefixed_message(prefix: Seq<char>, e: SerialError, r: Seq<char>) -> bool {
    &&& r.len() >= prefix.len()
    &&& r.take(prefix.len() as int) == prefix
    &&& is_message_of(e, r.skip(prefix.len() as int))
}

/// `prefix` followed by the message of `e`.
fn with_message(prefix: &str, e: &SerialError) -> (r: String)
    ensures
        prefixed_message(prefix@, *e, r@),
{
    let m = e.message();
    let r = concat2(prefix, m.as_str());
    proof {
        assert(r@.take(prefix@.len() as int) =~= prefix@);
        assert(r@.skip(prefix@.len() as int) =~= m@);
        if e.known_text() is None {
            assert(m@.take(e.label().len() as int) =~= m@.subrange(0, e.label().len() as int));
        }
    }
    r
}

/// The reply to a connection opened on `port`.
pub fn opened_message(connection_id: &str, port: &str, baud_rate: u32) -> (r: String)
    ensures
        r@ == "Serial connection opened\nConnection ID: "@ + connection_id@ + "\nPort: "@ + port@
            + "\nBaud rate: "@ + decimal(baud_rate as nat),
{
    let mut s = concat2("Serial connection opened\nConnection ID: ", connection_id);
    push_str(&mut s, "\nPort: ");
    push_str(&mut s, port);
    push_str(&mut s, "\nBaud rate: ");
    push_str(&mut s, u64_to_string(baud_rate as u64).as_str());
    s
}

/// The reply when `port` could not be opened.
pub fn open_failed_message(port: &str, error: &SerialError) -> (r: String)
    ensures
        prefixed_message("Error: Failed to open port "@ + port@ + " - "@, *error, r@),
{
    let mut p = concat2("Error: Failed to open port ", port);
    push_str(&mut p, " - ");
    with_message(p.as_str(), error)
}

/// The reply to a connection closed.
pub fn closed_message(connection_id: &str) -> (r: String)
    ensures
        r@ == "Serial connection closed\nConnection ID: "@ + connection_id@,
{
    concat2("Serial connection closed\nConnection ID: ", connection_id)
}

/// The reply when a connection could not be closed.
pub fn close_failed_message(connection_id: &str, error: &SerialError) -> (r: String)
    ensures
        prefixed_message("Error: Failed to close connection "@ + connection_id@ + " - "@, *error, r@),
{
    let mut p = concat2("Error: Failed to close connection ", connection_id);
    push_str(&mut p, " - ");
    with_message(p.as_str(), error)
}

/// The reply when no open connection has the identifier.
pub fn unknown_connection_message(connection_id: &str) -> (r: String)
    ensures
        r@ == "Error: Connection ID "@ + connection_id@ + " not found"@,
{
    let mut s = concat2("Error: Connection ID ", connection_id);
    push_str(&mut s, " not found");
    s
}

/// The bytes a write request asks to send, or the reply when its data
/// cannot be decoded.
pub fn write_payload(data: &str, encoding: &str) -> (r: Result<Vec<u8>, String>)
    requires
        encoding@ == "hex"@ ==> pairs_on_char_boundaries(hex_text_bytes(data@)),
    ensures
        match tool_decoded(data@, encoding@) {
            Ok(v) => r matches Ok(w) && w@ == v,
            Err(m) => r matches Err(n) && n@ == "Error: Data decoding failed - "@ + m,
        },
{
    match decode_data(data, encoding) {
        Ok(v) => Ok(v),
        Err(m) => Err(concat2("Error: Data decoding failed - ", m.as_str())),
    }
}

/// The reply to a write of the text `data`, given what the port did with it.
pub fn write_reply(connection_id: &str, data: &str, outcome: Result<usize, SerialError>) -> (r: Result<
    String,
    String,
>)
    ensures
        outcome matches Ok(n) ==> (r matches Ok(m) && m@ == "Data sent successfully\nConnection ID: "@
            + connection_id@ + "\nBytes written: "@ + decimal(n as nat) + "\nData: "@ + str_debug_text(data@)),
        outcome matches Err(e) ==> (r matches Err(m) && prefixed_message(
            "Error: Data sending failed - "@,
            e,
            m@,
        )),
{
    match outcome {
        Ok(n) => {
            let mut s = concat2("Data sent successfully\nConnection ID: ", connection_id);
            push_str(&mut s, "\nBytes written: ");
            push_str(&mut s, usize_to_string(n).as_str());
            push_str(&mut s, "\nData: ");
            push_str(&mut s, crate::codec::str_debug(data).as_str());
            Ok(s)
        },
        Err(e) => Err(with_message("Error: Data sending failed - ", &e)),
    }
}

/// The timeout a read waits for when its request names none, in milliseconds.
pub open spec fn shown_timeout(timeout_ms: Option<u64>) -> nat {
    match timeout_ms {
        Some(t) => t as nat,
        None => 1000,
    }
}

/// The reply to a read that brought nothing.
pub open spec fn read_timeout_text(connection_id: Seq<char>, timeout_ms: Option<u64>) -> Seq<char> {
    "Read timeout\nConnection ID: "@ + connection_id + "\nTimeout: "@ + decimal(shown_timeout(timeout_ms))
        + "ms\nBytes read: 0"@
}

/// The reply to a read that brought `n` bytes, shown as `encoded`.
pub open spec fn read_data_text(connection_id: Seq<char>, n: nat, encoded: Seq<char>) -> Seq<char> {
    "Data read successfully\nConnection ID: "@ + connection_id + "\nBytes read: "@ + decimal(n)
        + "\nData: "@ + str_debug_text(encoded)
}

fn read_timeout_message(connection_id: &str, timeout_ms: Option<u64>) -> (r: String)
    ensures
        r@ == read_timeout_text(connection_id@, timeout_ms),
{
    let t: u64 = match timeout_ms {
        Some(t) => t,
        None => 1000,
    };
    let mut s = concat2("Read timeout\nConnection ID: ", connection_id);
    push_str(&mut s, "\nTimeout: ");
    push_str(&mut s, u64_to_string(t).as_str());
    push_str(&mut s, "ms\nBytes read: 0");
    s
}

/// The reply to a read, given what the port gave: the bytes read, or the
/// failure. A timeout, like a read of nothing, is answered as a timeout;
/// the bytes are shown in the requested encoding.
pub fn read_reply(
    connection_id: &str,
    timeout_ms: Option<u64>,
    encoding: &str,
    outcome: Result<Vec<u8>, SerialError>,
) -> (r: Result<String, String>)
    requires
        outcome matches Ok(b) ==> encodable_len(b@.len()),
    ensures
        match outcome {
            Ok(b) => match tool_encoded(b@, encoding@) {
                Ok(t) => r matches Ok(m) && m@ == (if b@.len() > 0 {
                    read_data_text(connection_id@, b@.len(), t)
                } else {
                    read_timeout_text(connection_id@, timeout_ms)
                }),
                Err(x) => r matches Err(m) && m@ == "Error: Data encoding failed - "@ + x,
            },
            Err(e) => if e is ReadTimeout {
                r matches Ok(m) && m@ == read_timeout_text(connection_id@, timeout_ms)
            } else {
                r matches Err(m) && prefixed_message("Error: Data reading failed - "@, e, m@)
            },
        },
{
    match outcome {
        Ok(b) => match encode_data(b.as_slice(), encoding) {
            Ok(t) => if b.len() > 0 {
                let mut s = concat2("Data read successfully\nConnection ID: ", connection_id);
                push_str(&mut s, "\nBytes read: ");
                push_str(&mut s, usize_to_string(b.len()).as_str());
                push_str(&mut s, "\nData: ");
                push_str(&mut s, crate::codec::str_debug(t.as_str()).as_str());
                Ok(s)
            } else {
                Ok(read_timeout_message(connection_id, timeout_ms))
            },
            Err(x) => Err(concat2("Error: Data encoding failed - ", x.as_str())),
        },
        Err(e) => match e {
            SerialError::ReadTimeout => Ok(read_timeout_message(connection_id, timeout_ms)),
            _ => Err(with_message("Error: Data reading failed - ", &e)),
        },
    }
}

/// What the server tells clients about itself.
pub fn server_instructions() -> (r: String)
    ensures
        r@ == "A serial port communication MCP server. Use list_ports to discover available serial ports, then open connections to communicate with serial devices."@,
{
    owned(
        "A serial port communication MCP server. Use list_ports to discover available serial ports, then open connections to communicate with serial devices.",
    )
}

} // verus!
