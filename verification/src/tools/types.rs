//! Tool arguments and responses, and the data encodings the tools use.

use vstd::prelude::*;
use vstd::utf8::{decode_utf8, encode_utf8, valid_utf8};
use crate::codec::{
    base64_encoded, hex_decoded, hex_lower_bytes, standard_base64_decoding,
    url_safe_unpadded_base64_decoding, encodable_len,
};
use crate::serial::{ConnectionConfig, DataBits, FlowControl, Parity, PortInfo, StopBits};
use crate::text::{chars_equal, chars_of, concat2, fold_case, folded, owned, push_char, push_str};

verus! {

/// Arguments of the port listing tool (none).
#[derive(Debug)]
pub struct ListPortsArgs {}

/// Arguments of the open tool.
#[derive(Debug)]
pub struct OpenArgs {
    pub port: String,
    pub baud_rate: u32,
    pub data_bits: String,
    pub stop_bits: String,
    pub parity: String,
    pub flow_control: String,
}

/// Arguments of the close tool.
#[derive(Debug)]
pub struct CloseArgs {
    pub connection_id: String,
}

/// Arguments of the write tool.
#[derive(Debug)]
pub struct WriteArgs {
    pub connection_id: String,
    pub data: String,
    pub encoding: String,
}

/// Arguments of the read tool.
#[derive(Debug)]
pub struct ReadArgs {
    pub connection_id: String,
    pub timeout_ms: Option<u64>,
    pub max_bytes: usize,
    pub encoding: String,
}

/// Arguments of the configure tool.
#[derive(Debug)]
pub struct ConfigureArgs {
    pub connection_id: String,
    pub baud_rate: Option<u32>,
}

/// Arguments of the status tool.
#[derive(Debug)]
pub struct StatusArgs {
    pub connection_id: String,
}

/// Response listing ports.
#[derive(Debug)]
pub struct PortsResponse {
    pub ports: Vec<PortInfo>,
}

/// Response to opening a connection.
#[derive(Debug)]
pub struct OpenResponse {
    pub connection_id: String,
    pub status: String,
    pub port: String,
    pub baud_rate: u32,
    pub config: String,
}

/// Response to closing a connection.
#[derive(Debug)]
pub struct CloseResponse {
    pub connection_id: String,
    pub status: String,
}

/// Response to a write.
#[derive(Debug)]
pub struct WriteResponse {
    pub connection_id: String,
    pub bytes_written: usize,
    pub data: String,
}

/// Response to a read.
#[derive(Debug)]
pub struct ReadResponse {
    pub connection_id: String,
    pub bytes_read: usize,
    pub data: String,
    pub encoding: String,
    pub status: String,
}

/// Response to a configuration change.
#[derive(Debug)]
pub struct ConfigureResponse {
    pub connection_id: String,
    pub status: String,
    pub new_baud_rate: Option<u32>,
}

/// Response describing a connection.
#[derive(Debug)]
pub struct StatusResponse {
    pub connection_id: String,
    pub port: String,
    pub baud_rate: u32,
    pub config: String,
    pub status: String,
    pub created_at: String,
    pub bytes_sent: u64,
    pub bytes_received: u64,
}

/// Data bits used when an open request names none: "8".
pub fn default_data_bits() -> (r: String)
    ensures
        r@ == "8"@,
{
    owned("8")
}

/// Stop bits used when an open request names none: "1".
pub fn default_stop_bits() -> (r: String)
    ensures
        r@ == "1"@,
{
    owned("1")
}

/// Parity used when an open request names none: "none".
pub fn default_parity() -> (r: String)
    ensures
        r@ == "none"@,
{
    owned("none")
}

/// Flow control used when an open request names none: "none".
pub fn default_flow_control() -> (r: String)
    ensures
        r@ == "none"@,
{
    owned("none")
}

/// Encoding used when a request names none: "utf8".
pub fn default_encoding() -> (r: String)
    ensures
        r@ == "utf8"@,
{
    owned("utf8")
}

/// Largest read when a request names none: 1024 bytes.
pub fn default_max_bytes() -> (r: usize)
    ensures
        r == 1024,
{
    1024
}

// ---------------------------------------------------------------------------
// Encodings
// ---------------------------------------------------------------------------

/// The text with a space before every even position but the first: digit
/// pairs separated by single spaces ("48656c" becomes "48 65 6c").
pub open spec fn spaced_pairs(h: Seq<char>) -> Seq<char>
    decreases h.len(),
{
    if h.len() == 0 {
        Seq::empty()
    } else if h.len() > 1 && (h.len() - 1) % 2 == 0 {
        spaced_pairs(h.drop_last()) + seq![' ', h.last()]
    } else {
        spaced_pairs(h.drop_last()).push(h.last())
    }
}

/// The text without its spaces.
pub open spec fn without_spaces(s: Seq<char>) -> Seq<char>
    decreases s.len(),
{
    if s.len() == 0 {
        Seq::empty()
    } else if s.last() == ' ' {
        without_spaces(s.drop_last())
    } else {
        without_spaces(s.drop_last()).push(s.last())
    }
}

/// The name selects UTF-8 text ("utf8" or "utf-8", without case).
pub open spec fn names_utf8(e: Seq<char>) -> bool {
    folded(e) == "utf8"@ || folded(e) == "utf-8"@
}

/// The name selects hexadecimal ("hex", without case).
pub open spec fn names_hex(e: Seq<char>) -> bool {
    folded(e) == "hex"@
}

/// The name selects base64 ("base64", without case).
pub open spec fn names_base64(e: Seq<char>) -> bool {
    folded(e) == "base64"@
}

/// Lowercase hexadecimal of the bytes, two digits per byte, pairs spaced.
pub open spec fn spaced_hex(b: Seq<u8>) -> Seq<char> {
    spaced_pairs(hex_lower_bytes(b))
}

pub(crate) proof fn lemma_without_spaces_of_spaced(h: Seq<char>)
    requires
        forall|i: int| 0 <= i < h.len() ==> h[i] != ' ',
    ensures
        without_spaces(spaced_pairs(h)) == h,
    decreases h.len(),
{
    if h.len() > 0 {
        lemma_without_spaces_of_spaced(h.drop_last());
        let p = spaced_pairs(h.drop_last());
        lemma_without_spaces_append(p, h.last(), h.len() > 1 && (h.len() - 1) % 2 == 0);
        assert(without_spaces(p).push(h.last()) =~= h);
    }
}

proof fn lemma_without_spaces_append(p: Seq<char>, c: char, space_first: bool)
    requires
        c != ' ',
    ensures
        without_spaces(if space_first { p + seq![' ', c] } else { p.push(c) }) == without_spaces(p).push(c),
{
    if space_first {
        let q = p + seq![' ', c];
        assert(q.drop_last() =~= p.push(' '));
        assert(q.last() == c);
        assert(p.push(' ').drop_last() =~= p);
        assert(p.push(' ').last() == ' ');
        assert(without_spaces(p.push(' ')) == without_spaces(p));
        assert(without_spaces(q) == without_spaces(q.drop_last()).push(c));
    } else {
        assert(p.push(c).drop_last() =~= p);
        assert(p.push(c).last() == c);
    }
}

/// Decoding undoes the spaced hexadecimal rendering.
pub proof fn lemma_spaced_hex_roundtrip(b: Seq<u8>)
    ensures
        hex_decoded(encode_utf8(without_spaces(spaced_hex(b)))) == Ok::<Seq<u8>, crate::codec::HexDecodeError>(b),
{
    crate::codec::lemma_hex_lower_bytes_len(b);
    let h = hex_lower_bytes(b);
    assert forall|i: int| 0 <= i < h.len() implies h[i] != ' ' by {
        assert(vstd::utf8::is_ascii_chars(h));
        lemma_hex_chars(b, i);
    }
    lemma_without_spaces_of_spaced(h);
    crate::codec::lemma_hex_roundtrip(b);
}

proof fn lemma_hex_chars(b: Seq<u8>, i: int)
    requires
        0 <= i < hex_lower_bytes(b).len(),
    ensures
        hex_lower_bytes(b)[i] != ' ',
    decreases b.len(),
{
    crate::codec::lemma_hex_lower_bytes_len(b);
    if b.len() > 0 {
        if i >= 2 {
            crate::codec::lemma_hex_lower_bytes_len(b.skip(1));
            lemma_hex_chars(b.skip(1), i - 2);
        }
    }
}

/// No name selects two encodings.
proof fn lemma_encoding_names_distinct(e: Seq<char>)
    ensures
        names_hex(e) ==> !names_utf8(e),
        names_base64(e) ==> !names_utf8(e) && !names_hex(e),
{
    reveal_strlit("hex");
    reveal_strlit("utf8");
    reveal_strlit("utf-8");
    reveal_strlit("base64");
    assert("hex"@.len() == 3);
    assert("utf8"@.len() == 4);
    assert("utf-8"@.len() == 5);
    assert("base64"@.len() == 6);
}

/// Spaces digit pairs of `h` apart.
pub(crate) fn space_pairs(h: &str) -> (r: String)
    ensures
        r@ == spaced_pairs(h@),
{
    let cs = chars_of(h);
    let mut out = String::new();
    let mut i: usize = 0;
    while i < cs.len()
        invariant
            i <= cs@.len(),
            cs@ == h@,
            out@ == spaced_pairs(h@.take(i as int)),
        decreases cs@.len() - i,
    {
        proof {
            assert(h@.take(i + 1).drop_last() =~= h@.take(i as int));
        }
        if i > 0 && i % 2 == 0 {
            push_char(&mut out, ' ');
        }
        push_char(&mut out, cs[i]);
        proof {
            if i > 0 && i % 2 == 0 {
                assert(out@ =~= spaced_pairs(h@.take(i as int)) + seq![' ', h@[i as int]]);
            }
        }
        i = i + 1;
    }
    assert(h@.take(cs@.len() as int) =~= h@);
    out
}

/// The text without its spaces.
pub(crate) fn remove_spaces(s: &str) -> (r: String)
    ensures
        r@ == without_spaces(s@),
{
    let cs = chars_of(s);
    let mut out = String::new();
    let mut i: usize = 0;
    while i < cs.len()
        invariant
            i <= cs@.len(),
            cs@ == s@,
            out@ == without_spaces(s@.take(i as int)),
        decreases cs@.len() - i,
    {
        proof {
            assert(s@.take(i + 1).drop_last() =~= s@.take(i as int));
        }
        if cs[i] != ' ' {
            push_char(&mut out, cs[i]);
        }
        i = i + 1;
    }
    assert(s@.take(cs@.len() as int) =~= s@);
    out
}

/// Encode bytes as text in the named encoding ("utf8"/"utf-8", "hex",
/// "base64", without case); the error is a message.
pub fn encode_data(data: &[u8], encoding: &str) -> (r: Result<String, String>)
    requires
        encodable_len(data@.len()),
    ensures
        names_utf8(encoding@) ==> (if valid_utf8(data@) {
            r matches Ok(s) && s@ == decode_utf8(data@)
        } else {
            r matches Err(m) && m@ == "UTF-8 encoding error: "@ + crate::codec::utf8_failure(data@).text()
        }),
        !names_utf8(encoding@) && names_hex(encoding@) ==> (r matches Ok(s) && s@ == spaced_hex(data@)),
        !names_utf8(encoding@) && !names_hex(encoding@) && names_base64(encoding@) ==> (r matches Ok(s) && s@
            == base64_encoded(data@)),
        !names_utf8(encoding@) && !names_hex(encoding@) && !names_base64(encoding@) ==> (r matches Err(m) && m@
            == "Unsupported encoding: "@ + encoding@),
        forall|s: Seq<char>| names_utf8(encoding@) && data@ == #[trigger] encode_utf8(s) ==> (r matches Ok(t) && t@ == s),
{
    proof {
        assert forall|s: Seq<char>| names_utf8(encoding@) && data@ == #[trigger] encode_utf8(s) implies valid_utf8(data@)
            && decode_utf8(data@) == s by {
            vstd::utf8::encode_utf8_valid_utf8(s);
            vstd::utf8::encode_utf8_decode_utf8(s);
        }
    }
    let e = fold_case(encoding);
    if chars_equal(&e, "utf8") || chars_equal(&e, "utf-8") {
        match crate::codec::utf8_string(vstd::slice::slice_to_vec(data)) {
            Ok(s) => Ok(s),
            Err(f) => Err(concat2("UTF-8 encoding error: ", f.message().as_str())),
        }
    } else if chars_equal(&e, "hex") {
        let h = crate::codec::hex_encode(data);
        Ok(space_pairs(h.as_str()))
    } else if chars_equal(&e, "base64") {
        Ok(crate::codec::base64_standard_encode(data))
    } else {
        Err(concat2("Unsupported encoding: ", encoding))
    }
}

/// Decode text in the named encoding ("utf8"/"utf-8", "hex" with spaces
/// ignored, "base64" padded or else URL-safe unpadded, without case) into
/// bytes; the error is a message.
pub fn decode_data(data: &str, encoding: &str) -> (r: Result<Vec<u8>, String>)
    ensures
        names_utf8(encoding@) ==> (r matches Ok(v) && v@ == encode_utf8(data@)),
        !names_utf8(encoding@) && names_hex(encoding@) ==> match hex_decoded(encode_utf8(without_spaces(data@))) {
            Ok(b) => r matches Ok(v) && v@ == b,
            Err(e) => r matches Err(m) && m@ == "Hex decoding error: "@ + e.text(),
        },
        !names_utf8(encoding@) && !names_hex(encoding@) && names_base64(encoding@) ==> match standard_base64_decoding(
            encode_utf8(data@),
        ) {
            Ok(b) => r matches Ok(v) && v@ == b,
            Err(_) => match url_safe_unpadded_base64_decoding(encode_utf8(data@)) {
                Ok(b) => r matches Ok(v) && v@ == b,
                Err(e) => r matches Err(m) && m@ == "Base64 decoding error: "@ + e.text(),
            },
        },
        !names_utf8(encoding@) && !names_hex(encoding@) && !names_base64(encoding@) ==> (r matches Err(m) && m@
            == "Unsupported encoding: "@ + encoding@),
        forall|b: Seq<u8>| names_hex(encoding@) && data@ == #[trigger] spaced_hex(b) ==> (r matches Ok(v) && v@ == b),
        forall|b: Seq<u8>| names_base64(encoding@) && data@ == #[trigger] base64_encoded(b) ==> (r matches Ok(v) && v@ == b),
        forall|b: Seq<u8>| names_utf8(encoding@) && valid_utf8(b) && data@ == #[trigger] decode_utf8(b) ==> (r matches Ok(v)
            && v@ == b),
{
    proof {
        assert forall|b: Seq<u8>| valid_utf8(b) && data@ == #[trigger] decode_utf8(b) implies encode_utf8(data@) == b by {
            vstd::utf8::decode_utf8_encode_utf8(b);
        }
        assert forall|b: Seq<u8>| names_hex(encoding@) && data@ == #[trigger] spaced_hex(b) implies hex_decoded(
            encode_utf8(without_spaces(data@)),
        ) == Ok::<Seq<u8>, crate::codec::HexDecodeError>(b) by {
            lemma_spaced_hex_roundtrip(b);
        }
        lemma_encoding_names_distinct(encoding@);
    }
    let e = fold_case(encoding);
    if chars_equal(&e, "utf8") || chars_equal(&e, "utf-8") {
        Ok(crate::codec::utf8_bytes(data))
    } else if chars_equal(&e, "hex") {
        let clean = remove_spaces(data);
        match crate::codec::hex_decode(clean.as_str().as_bytes()) {
            Ok(v) => Ok(v),
            Err(err) => Err(concat2("Hex decoding error: ", err.message().as_str())),
        }
    } else if chars_equal(&e, "base64") {
        match crate::codec::base64_standard_decode(data.as_bytes()) {
            Ok(v) => Ok(v),
            Err(_) => match crate::codec::base64_url_safe_unpadded_decode(data.as_bytes()) {
                Ok(v) => Ok(v),
                Err(err) => Err(concat2("Base64 decoding error: ", err.message().as_str())),
            },
        }
    } else {
        Err(concat2("Unsupported encoding: ", encoding))
    }
}

// ---------------------------------------------------------------------------
// Open arguments to connection settings
// ---------------------------------------------------------------------------

/// Data bits named in an open request: "5" to "8"; anything else is eight.
pub open spec fn data_bits_named(s: Seq<char>) -> DataBits {
    if s == "5"@ {
        DataBits::Five
    } else if s == "6"@ {
        DataBits::Six
    } else if s == "7"@ {
        DataBits::Seven
    } else {
        DataBits::Eight
    }
}

/// Stop bits named in an open request: "2" is two; anything else is one.
pub open spec fn stop_bits_named_in_request(s: Seq<char>) -> StopBits {
    if s == "2"@ {
        StopBits::Two
    } else {
        StopBits::One
    }
}

/// Parity named in an open request, without case; anything unknown is none.
pub open spec fn parity_named_in_request(s: Seq<char>) -> Parity {
    if folded(s) == "odd"@ {
        Parity::Odd
    } else if folded(s) == "even"@ {
        Parity::Even
    } else {
        Parity::NoParity
    }
}

/// Flow control named in an open request, without case; anything unknown is none.
pub open spec fn flow_control_named_in_request(s: Seq<char>) -> FlowControl {
    if folded(s) == "software"@ {
        FlowControl::Software
    } else if folded(s) == "hardware"@ {
        FlowControl::Hardware
    } else {
        FlowControl::NoFlowControl
    }
}

/// An open request that names a count of data bits from five to eight, in
/// decimal, gets exactly that many bits per character.
pub proof fn lemma_named_data_bits_count(n: nat)
    requires
        5 <= n <= 8,
    ensures
        crate::serial::connection::data_bit_count(data_bits_named(crate::text::decimal(n))) == n,
{
    reveal_strlit("5");
    reveal_strlit("6");
    reveal_strlit("7");
    reveal_strlit("8");
    let d = crate::text::decimal(n);
    assert(d == seq![crate::text::digit_char(n)]);
    let c = crate::text::digit_char(n);
    if n == 5 {
        vstd::utf8::char_u32_cast('5', 53);
    } else if n == 6 {
        vstd::utf8::char_u32_cast('6', 54);
    } else if n == 7 {
        vstd::utf8::char_u32_cast('7', 55);
    } else {
        vstd::utf8::char_u32_cast('8', 56);
    }
    assert(d[0] == c);
    assert(c != '5' ==> d != "5"@);
    assert(c != '6' ==> d != "6"@);
    assert(c != '7' ==> d != "7"@);
    assert(c == '5' ==> d =~= "5"@);
    assert(c == '6' ==> d =~= "6"@);
    assert(c == '7' ==> d =~= "7"@);
}

impl ConnectionConfig {
    /// The connection settings an open request asks for.
    pub fn from_open_args(args: OpenArgs) -> (r: ConnectionConfig)
        ensures
            r.port == args.port,
            r.baud_rate == args.baud_rate,
            r.data_bits == data_bits_named(args.data_bits@),
            r.stop_bits == stop_bits_named_in_request(args.stop_bits@),
            r.parity == parity_named_in_request(args.parity@),
            r.flow_control == flow_control_named_in_request(args.flow_control@),
            forall|n: nat| 5 <= n <= 8 && args.data_bits@ == #[trigger] crate::text::decimal(n)
                ==> crate::serial::connection::data_bit_count(r.data_bits) == n,
    {
        proof {
            assert forall|n: nat| 5 <= n <= 8 && args.data_bits@ == #[trigger] crate::text::decimal(n)
                implies crate::serial::connection::data_bit_count(data_bits_named(args.data_bits@)) == n by {
                lemma_named_data_bits_count(n);
            }
        }
        let d = chars_of(args.data_bits.as_str());
        let data_bits = if chars_equal(&d, "5") {
            DataBits::Five
        } else if chars_equal(&d, "6") {
            DataBits::Six
        } else if chars_equal(&d, "7") {
            DataBits::Seven
        } else {
            DataBits::Eight
        };
        let sb = chars_of(args.stop_bits.as_str());
        let stop_bits = if chars_equal(&sb, "2") {
            StopBits::Two
        } else {
            StopBits::One
        };
        let p = fold_case(args.parity.as_str());
        let parity = if chars_equal(&p, "odd") {
            Parity::Odd
        } else if chars_equal(&p, "even") {
            Parity::Even
        } else {
            Parity::NoParity
        };
        let f = fold_case(args.flow_control.as_str());
        let flow_control = if chars_equal(&f, "software") {
            FlowControl::Software
        } else if chars_equal(&f, "hardware") {
            FlowControl::Hardware
        } else {
            FlowControl::NoFlowControl
        };
        ConnectionConfig {
            port: args.port,
            baud_rate: args.baud_rate,
            data_bits,
            stop_bits,
            parity,
            flow_control,
        }
    }
}

impl From<OpenArgs> for ConnectionConfig {
    fn from(args: OpenArgs) -> (r: ConnectionConfig) {
        ConnectionConfig::from_open_args(args)
    }
}

impl vstd::std_specs::convert::FromSpecImpl<OpenArgs> for ConnectionConfig {
    open spec fn obeys_from_spec() -> bool {
        true
    }

    open spec fn from_spec(args: OpenArgs) -> ConnectionConfig {
        ConnectionConfig {
            port: args.port,
            baud_rate: args.baud_rate,
            data_bits: data_bits_named(args.data_bits@),
            stop_bits: stop_bits_named_in_request(args.stop_bits@),
            parity: parity_named_in_request(args.parity@),
            flow_control: flow_control_named_in_request(args.flow_control@),
        }
    }
}

} // verus!
