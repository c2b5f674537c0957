//! Utility functions and helper types: port classification, data formats
//! and conversion, validation, buffer scanning and checksums, identifiers
//! and string helpers.

use vstd::prelude::*;
use vstd::utf8::{decode_utf8, encode_utf8, valid_utf8};
use crate::error::SerialError;
use crate::text::{
    chars_equal, chars_of, concat2, contains_run, contains_word, decimal, fold_case, folded, hex2_lower, is_control, char_is_control, push_hex2_lower, string_of, is_whitespace,
    char_is_whitespace, u64_zero_padded, zero_padded,
    owned, push_char, push_str, u64_to_string,
};

verus! {

// ---------------------------------------------------------------------------
// Port types
// ---------------------------------------------------------------------------

/// Serial port type enumeration.
#[derive(Debug, Clone, PartialEq, Eq, Structural)]
pub enum PortType {
    /// USB-to-Serial adapter
    UsbSerial,
    /// Built-in serial port
    Native,
    /// Bluetooth serial
    Bluetooth,
    /// Virtual serial port
    Virtual,
    /// Unknown type
    Unknown,
}

/// The port type that a port name and description (both case folded) indicate.
pub open spec fn port_type_of(name: Seq<char>, description: Seq<char>) -> PortType {
    let p = folded(name);
    let d = folded(description);
    if contains_run(p, "usb"@) || contains_run(d, "usb"@) {
        PortType::UsbSerial
    } else if contains_run(p, "bluetooth"@) || contains_run(d, "bluetooth"@) {
        PortType::Bluetooth
    } else if contains_run(p, "tty"@) && !contains_run(p, "usb"@) {
        PortType::Native
    } else if contains_run(d, "virtual"@) || contains_run(d, "loopback"@) {
        PortType::Virtual
    } else {
        PortType::Unknown
    }
}

/// The characters of an optional description; none counts as empty.
pub open spec fn description_chars(description: Option<&str>) -> Seq<char> {
    match description {
        Some(d) => d@,
        None => Seq::empty(),
    }
}

impl PortType {
    /// Detect port type from port name or description.
    pub fn from_port_info(port_name: &str, description: Option<&str>) -> (r: PortType)
        ensures
            r == port_type_of(port_name@, description_chars(description)),
    {
        let port_lower = fold_case(port_name);
        let desc_lower = match description {
            Some(d) => fold_case(d),
            None => {
                let v: Vec<char> = Vec::new();
                assert(v@ =~= folded(Seq::empty()));
                v
            },
        };
        if contains_word(&port_lower, "usb") || contains_word(&desc_lower, "usb") {
            PortType::UsbSerial
        } else if contains_word(&port_lower, "bluetooth") || contains_word(
            &desc_lower,
            "bluetooth",
        ) {
            PortType::Bluetooth
        } else if contains_word(&port_lower, "tty") && !contains_word(&port_lower, "usb") {
            PortType::Native
        } else if contains_word(&desc_lower, "virtual") || contains_word(&desc_lower, "loopback") {
            PortType::Virtual
        } else {
            PortType::Unknown
        }
    }

    /// The name this port type displays as.
    pub open spec fn spec_display_name(&self) -> Seq<char> {
        match self {
            PortType::UsbSerial => "USB Serial"@,
            PortType::Native => "Native Serial"@,
            PortType::Bluetooth => "Bluetooth Serial"@,
            PortType::Virtual => "Virtual Serial"@,
            PortType::Unknown => "Unknown"@,
        }
    }

    /// The name this port type displays as.
    pub fn display_name(&self) -> (r: &'static str)
        ensures
            r@ == self.spec_display_name(),
    {
        match self {
            PortType::UsbSerial => "USB Serial",
            PortType::Native => "Native Serial",
            PortType::Bluetooth => "Bluetooth Serial",
            PortType::Virtual => "Virtual Serial",
            PortType::Unknown => "Unknown",
        }
    }
}

// ---------------------------------------------------------------------------
// Data formats
// ---------------------------------------------------------------------------

/// Data encoding formats supported by the server.
#[derive(Debug, Clone, Copy, PartialEq, Eq, Structural)]
pub enum DataFormat {
    /// Plain text (UTF-8)
    Text,
    /// Hexadecimal encoding
    Hex,
    /// Base64 encoding
    Base64,
    /// Binary data
    Binary,
}

/// The format a name selects, compared without case; `None` for unknown names.
pub open spec fn format_named(s: Seq<char>) -> Option<DataFormat> {
    let f = folded(s);
    if f == "text"@ || f == "utf8"@ || f == "string"@ {
        Some(DataFormat::Text)
    } else if f == "hex"@ || f == "hexadecimal"@ {
        Some(DataFormat::Hex)
    } else if f == "base64"@ || f == "b64"@ {
        Some(DataFormat::Base64)
    } else if f == "binary"@ || f == "bin"@ || f == "raw"@ {
        Some(DataFormat::Binary)
    } else {
        None
    }
}

impl DataFormat {
    /// Parse format from string.
    pub fn from_str(s: &str) -> (r: Result<DataFormat, SerialError>)
        ensures
            match format_named(s@) {
                Some(f) => r == Ok::<DataFormat, SerialError>(f),
                None => r matches Err(SerialError::InvalidConfig(m)) && m@ == "Unknown data format: "@
                    + s@,
            },
    {
        let f = fold_case(s);
        if chars_equal(&f, "text") || chars_equal(&f, "utf8") || chars_equal(&f, "string") {
            Ok(DataFormat::Text)
        } else if chars_equal(&f, "hex") || chars_equal(&f, "hexadecimal") {
            Ok(DataFormat::Hex)
        } else if chars_equal(&f, "base64") || chars_equal(&f, "b64") {
            Ok(DataFormat::Base64)
        } else if chars_equal(&f, "binary") || chars_equal(&f, "bin") || chars_equal(&f, "raw") {
            Ok(DataFormat::Binary)
        } else {
            Err(SerialError::InvalidConfig(concat2("Unknown data format: ", s)))
        }
    }

    /// The name this format displays as.
    pub open spec fn spec_display_name(&self) -> Seq<char> {
        match self {
            DataFormat::Text => "text"@,
            DataFormat::Hex => "hex"@,
            DataFormat::Base64 => "base64"@,
            DataFormat::Binary => "binary"@,
        }
    }

    /// The name this format displays as.
    pub fn display_name(&self) -> (r: &'static str)
        ensures
            r@ == self.spec_display_name(),
    {
        match self {
            DataFormat::Text => "text",
            DataFormat::Hex => "hex",
            DataFormat::Base64 => "base64",
            DataFormat::Binary => "binary",
        }
    }
}

// ---------------------------------------------------------------------------
// Validation
// ---------------------------------------------------------------------------

/// The baud rates the server accepts.
pub open spec fn is_standard_baud_rate(b: u32) -> bool {
    b == 300 || b == 600 || b == 1200 || b == 2400 || b == 4800 || b == 9600 || b == 14400 || b
        == 19200 || b == 28800 || b == 38400 || b == 57600 || b == 115200 || b == 230400 || b
        == 460800 || b == 921600
}

/// Stop-bit names accepted without case: "one", "1", "two", "2".
pub open spec fn is_stop_bits_name(s: Seq<char>) -> bool {
    let f = folded(s);
    f == "one"@ || f == "1"@ || f == "two"@ || f == "2"@
}

/// Parity names accepted without case: "none", "even", "odd".
pub open spec fn is_parity_name(s: Seq<char>) -> bool {
    let f = folded(s);
    f == "none"@ || f == "even"@ || f == "odd"@
}

/// Flow-control names accepted without case: "none", "software", "hardware".
pub open spec fn is_flow_control_name(s: Seq<char>) -> bool {
    let f = folded(s);
    f == "none"@ || f == "software"@ || f == "hardware"@
}

/// The longest port name accepted, in bytes.
pub const MAX_PORT_NAME_BYTES: usize = 255;

/// Validation utilities.
pub struct Validator;

impl Validator {
    /// Validate baud rate.
    pub fn validate_baud_rate(baud_rate: u32) -> (r: Result<(), SerialError>)
        ensures
            is_standard_baud_rate(baud_rate) ==> r is Ok,
            !is_standard_baud_rate(baud_rate) ==> (r matches Err(SerialError::InvalidBaudRate(b))
                && b == baud_rate),
    {
        let valid: [u32; 15] = [
            300,
            600,
            1200,
            2400,
            4800,
            9600,
            14400,
            19200,
            28800,
            38400,
            57600,
            115200,
            230400,
            460800,
            921600,
        ];
        let mut i: usize = 0;
        while i < 15
            invariant
                i <= 15,
                valid@ == seq![
                    300u32,
                    600,
                    1200,
                    2400,
                    4800,
                    9600,
                    14400,
                    19200,
                    28800,
                    38400,
                    57600,
                    115200,
                    230400,
                    460800,
                    921600,
                ],
                forall|j: int| 0 <= j < i ==> valid@[j] != baud_rate,
            decreases 15 - i,
        {
            if valid[i] == baud_rate {
                return Ok(());
            }
            i = i + 1;
        }
        assert(!is_standard_baud_rate(baud_rate)) by {
            assert(valid@[0] != baud_rate && valid@[1] != baud_rate && valid@[2] != baud_rate
                && valid@[3] != baud_rate && valid@[4] != baud_rate && valid@[5] != baud_rate
                && valid@[6] != baud_rate && valid@[7] != baud_rate && valid@[8] != baud_rate
                && valid@[9] != baud_rate && valid@[10] != baud_rate && valid@[11] != baud_rate
                && valid@[12] != baud_rate && valid@[13] != baud_rate && valid@[14] != baud_rate);
        }
        Err(SerialError::InvalidBaudRate(baud_rate))
    }

    /// Validate data bits.
    pub fn validate_data_bits(data_bits: u8) -> (r: Result<(), SerialError>)
        ensures
            5 <= data_bits <= 8 ==> r is Ok,
            !(5 <= data_bits <= 8) ==> (r matches Err(SerialError::InvalidDataBits(d)) && d
                == data_bits),
    {
        if 5 <= data_bits && data_bits <= 8 {
            Ok(())
        } else {
            Err(SerialError::InvalidDataBits(data_bits))
        }
    }

    /// Validate stop bits.
    pub fn validate_stop_bits(stop_bits: &str) -> (r: Result<(), SerialError>)
        ensures
            is_stop_bits_name(stop_bits@) ==> r is Ok,
            !is_stop_bits_name(stop_bits@) ==> (r matches Err(SerialError::InvalidStopBits(m))
                && m@ == stop_bits@),
    {
        let f = fold_case(stop_bits);
        if chars_equal(&f, "one") || chars_equal(&f, "1") || chars_equal(&f, "two") || chars_equal(
            &f,
            "2",
        ) {
            Ok(())
        } else {
            Err(SerialError::InvalidStopBits(owned(stop_bits)))
        }
    }

    /// Validate parity.
    pub fn validate_parity(parity: &str) -> (r: Result<(), SerialError>)
        ensures
            is_parity_name(parity@) ==> r is Ok,
            !is_parity_name(parity@) ==> (r matches Err(SerialError::InvalidParity(m)) && m@
                == parity@),
    {
        let f = fold_case(parity);
        if chars_equal(&f, "none") || chars_equal(&f, "even") || chars_equal(&f, "odd") {
            Ok(())
        } else {
            Err(SerialError::InvalidParity(owned(parity)))
        }
    }

    /// Validate flow control.
    pub fn validate_flow_control(flow_control: &str) -> (r: Result<(), SerialError>)
        ensures
            is_flow_control_name(flow_control@) ==> r is Ok,
            !is_flow_control_name(flow_control@) ==> (r matches Err(
                SerialError::InvalidFlowControl(m),
            ) && m@ == flow_control@),
    {
        let f = fold_case(flow_control);
        if chars_equal(&f, "none") || chars_equal(&f, "software") || chars_equal(&f, "hardware") {
            Ok(())
        } else {
            Err(SerialError::InvalidFlowControl(owned(flow_control)))
        }
    }

    /// Validate port name format.
    pub fn validate_port_name(port_name: &str) -> (r: Result<(), SerialError>)
        ensures
            port_name@.len() == 0 ==> (r matches Err(SerialError::InvalidConfig(m)) && m@
                == "Port name cannot be empty"@),
            port_name@.len() > 0 && (encode_utf8(port_name@).len() as usize) > MAX_PORT_NAME_BYTES ==> (r matches Err(
                SerialError::InvalidConfig(m),
            ) && m@ == "Port name too long"@),
            port_name@.len() > 0 && (encode_utf8(port_name@).len() as usize) <= MAX_PORT_NAME_BYTES ==> r is Ok,
    {
        if port_name.is_empty() {
            return Err(SerialError::InvalidConfig(owned("Port name cannot be empty")));
        }
        if port_name.len() > MAX_PORT_NAME_BYTES {
            return Err(SerialError::InvalidConfig(owned("Port name too long")));
        }
        Ok(())
    }
}

// ---------------------------------------------------------------------------
// Buffers
// ---------------------------------------------------------------------------

/// `pat` occurs in `buf` starting at index `i`.
pub open spec fn occurs_at(buf: Seq<u8>, pat: Seq<u8>, i: int) -> bool {
    0 <= i && i + pat.len() <= buf.len() && buf.subrange(i, i + pat.len()) == pat
}

/// The first index at or after `i` where `pat` occurs in `buf`.
pub open spec fn find_from(buf: Seq<u8>, pat: Seq<u8>, i: nat) -> Option<nat>
    decreases buf.len() + 1 - i,
{
    if i + pat.len() > buf.len() {
        None
    } else if occurs_at(buf, pat, i as int) {
        Some(i)
    } else {
        find_from(buf, pat, i + 1)
    }
}

pub proof fn lemma_find_from(buf: Seq<u8>, pat: Seq<u8>, i: nat)
    ensures
        match find_from(buf, pat, i) {
            Some(p) => i <= p && occurs_at(buf, pat, p as int) && forall|j: int|
                i <= j < p ==> !#[trigger] occurs_at(buf, pat, j),
            None => forall|j: int| i <= j ==> !#[trigger] occurs_at(buf, pat, j),
        },
    decreases buf.len() + 1 - i,
{
    if i + pat.len() > buf.len() {
    } else if occurs_at(buf, pat, i as int) {
    } else {
        lemma_find_from(buf, pat, i + 1);
    }
}

/// The pieces of `buf` from `start` on, cut at each occurrence of `d`
/// (found left to right); a non-empty rest after the last cut is kept.
pub open spec fn split_from(buf: Seq<u8>, d: Seq<u8>, start: nat) -> Seq<Seq<u8>>
    recommends
        d.len() > 0,
    decreases buf.len() + 1 - start,
{
    if d.len() == 0 {
        Seq::empty()
    } else {
        match find_from(buf, d, start) {
            Some(p) => {
                proof {
                    lemma_find_from(buf, d, start);
                }
                seq![buf.subrange(start as int, p as int)] + split_from(buf, d, p + d.len())
            },
            None => if start < buf.len() {
                seq![buf.subrange(start as int, buf.len() as int)]
            } else {
                Seq::empty()
            },
        }
    }
}

/// What `split_by_delimiter` gives: the whole buffer for an empty delimiter,
/// else the pieces between occurrences.
pub open spec fn split_pieces(buf: Seq<u8>, d: Seq<u8>) -> Seq<Seq<u8>> {
    if d.len() == 0 {
        seq![buf]
    } else {
        split_from(buf, d, 0)
    }
}

/// Pieces joined with `d` between neighbours.
pub open spec fn rejoined(parts: Seq<Seq<u8>>, d: Seq<u8>) -> Seq<u8>
    decreases parts.len(),
{
    if parts.len() == 0 {
        Seq::empty()
    } else if parts.len() == 1 {
        parts[0]
    } else {
        parts[0] + d + rejoined(parts.skip(1), d)
    }
}

/// Sum of the bytes.
pub open spec fn byte_sum(s: Seq<u8>) -> nat
    decreases s.len(),
{
    if s.len() == 0 {
        0
    } else {
        byte_sum(s.drop_last()) + (s.last() as nat)
    }
}

/// Exclusive or of the bytes.
pub open spec fn byte_xor(s: Seq<u8>) -> u8
    decreases s.len(),
{
    if s.len() == 0 {
        0
    } else {
        byte_xor(s.drop_last()) ^ s.last()
    }
}

/// One step of CRC-8 with polynomial x^8 + x^2 + x + 1 (0x07): shift left,
/// folding the polynomial in when the top bit falls out.
pub open spec fn crc8_shift(x: u8) -> u8 {
    if x & 0x80 != 0 {
        ((x << 1u8) ^ 0x07u8) as u8
    } else {
        (x << 1u8) as u8
    }
}

/// CRC-8 (polynomial 0x07) of a single byte value: eight shift steps.
pub open spec fn crc8_byte(x: u8) -> u8 {
    crc8_shift(crc8_shift(crc8_shift(crc8_shift(crc8_shift(crc8_shift(crc8_shift(crc8_shift(x))))))))
}

/// CRC-8 (polynomial 0x07, initial value 0, no reflection, no final xor).
pub open spec fn crc8_of(s: Seq<u8>) -> u8
    decreases s.len(),
{
    if s.len() == 0 {
        0
    } else {
        crc8_byte(crc8_of(s.drop_last()) ^ s.last())
    }
}


/// The bytes of `a` and `b` combined by exclusive or, position by position.
pub open spec fn xor_bytes(a: Seq<u8>, b: Seq<u8>) -> Seq<u8> {
    Seq::new(a.len(), |i: int| a[i] ^ b[i])
}

proof fn lemma_crc8_byte_xor(x: u8, y: u8)
    by (bit_vector)
    ensures
        crc8_byte(x ^ y) == crc8_byte(x) ^ crc8_byte(y),
{
}

proof fn lemma_crc8_byte_zero()
    by (bit_vector)
    ensures
        crc8_byte(0u8) == 0u8,
{
}

proof fn lemma_xor_regroup(p: u8, q: u8, r: u8, t: u8)
    by (bit_vector)
    ensures
        (p ^ q) ^ (r ^ t) == (p ^ r) ^ (q ^ t),
{
}

/// CRC-8 is linear over exclusive or: the CRC of two equally long inputs
/// combined byte by byte is the combination of their CRCs.
pub proof fn lemma_crc8_xor(a: Seq<u8>, b: Seq<u8>)
    requires
        a.len() == b.len(),
    ensures
        crc8_of(xor_bytes(a, b)) == crc8_of(a) ^ crc8_of(b),
    decreases a.len(),
{
    let x = xor_bytes(a, b);
    if a.len() == 0 {
        assert(0u8 ^ 0u8 == 0u8) by (bit_vector);
    } else {
        lemma_crc8_xor(a.drop_last(), b.drop_last());
        assert(x.drop_last() =~= xor_bytes(a.drop_last(), b.drop_last()));
        let ca = crc8_of(a.drop_last());
        let cb = crc8_of(b.drop_last());
        lemma_xor_regroup(ca, cb, a.last(), b.last());
        lemma_crc8_byte_xor(ca ^ a.last(), cb ^ b.last());
    }
}

/// Appending the CRC-8 of some bytes to them gives bytes whose CRC-8 is 0.
pub proof fn lemma_crc8_appended(d: Seq<u8>)
    ensures
        crc8_of(d.push(crc8_of(d))) == 0,
{
    let c = crc8_of(d);
    assert(d.push(c).drop_last() =~= d);
    assert(c ^ c == 0u8) by (bit_vector);
    lemma_crc8_byte_zero();
}

/// The CRC-8 computed here is CRC-8/SMBUS: its check value, the CRC of the
/// ASCII digits "123456789", is 0xF4.
pub proof fn lemma_crc8_check_value()
    ensures
        crc8_of(seq![49u8, 50u8, 51u8, 52u8, 53u8, 54u8, 55u8, 56u8, 57u8]) == 0xF4,
{
    let s = seq![49u8, 50u8, 51u8, 52u8, 53u8, 54u8, 55u8, 56u8, 57u8];
    assert(crc8_of(s.take(0)) == 0u8);
    assert(crc8_byte(0u8 ^ 49u8) == 151u8) by (bit_vector);
    assert(s.take(1).drop_last() =~= s.take(0));
    assert(s.take(1).last() == 49u8);
    assert(crc8_of(s.take(1)) == 151u8);
    assert(crc8_byte(151u8 ^ 50u8) == 114u8) by (bit_vector);
    assert(s.take(2).drop_last() =~= s.take(1));
    assert(s.take(2).last() == 50u8);
    assert(crc8_of(s.take(2)) == 114u8);
    assert(crc8_byte(114u8 ^ 51u8) == 192u8) by (bit_vector);
    assert(s.take(3).drop_last() =~= s.take(2));
    assert(s.take(3).last() == 51u8);
    assert(crc8_of(s.take(3)) == 192u8);
    assert(crc8_byte(192u8 ^ 52u8) == 194u8) by (bit_vector);
    assert(s.take(4).drop_last() =~= s.take(3));
    assert(s.take(4).last() == 52u8);
    assert(crc8_of(s.take(4)) == 194u8);
    assert(crc8_byte(194u8 ^ 53u8) == 203u8) by (bit_vector);
    assert(s.take(5).drop_last() =~= s.take(4));
    assert(s.take(5).last() == 53u8);
    assert(crc8_of(s.take(5)) == 203u8);
    assert(crc8_byte(203u8 ^ 54u8) == 253u8) by (bit_vector);
    assert(s.take(6).drop_last() =~= s.take(5));
    assert(s.take(6).last() == 54u8);
    assert(crc8_of(s.take(6)) == 253u8);
    assert(crc8_byte(253u8 ^ 55u8) == 120u8) by (bit_vector);
    assert(s.take(7).drop_last() =~= s.take(6));
    assert(s.take(7).last() == 55u8);
    assert(crc8_of(s.take(7)) == 120u8);
    assert(crc8_byte(120u8 ^ 56u8) == 199u8) by (bit_vector);
    assert(s.take(8).drop_last() =~= s.take(7));
    assert(s.take(8).last() == 56u8);
    assert(crc8_of(s.take(8)) == 199u8);
    assert(crc8_byte(199u8 ^ 57u8) == 244u8) by (bit_vector);
    assert(s.take(9).drop_last() =~= s.take(8));
    assert(s.take(9).last() == 57u8);
    assert(crc8_of(s.take(9)) == 244u8);
    assert(s.take(9) =~= s);
}

/// A piece before the first occurrence found from `start` holds no occurrence.
proof fn lemma_piece_free(buf: Seq<u8>, d: Seq<u8>, start: int, end: int)
    requires
        0 <= start <= end <= buf.len(),
        forall|j: int| start <= j && j + d.len() <= end ==> !#[trigger] occurs_at(buf, d, j),
    ensures
        !contains_run(buf.subrange(start, end), d),
{
    let x = buf.subrange(start, end);
    if contains_run(x, d) {
        let k = choose|k: int| 0 <= k && k + d.len() <= x.len() && #[trigger] x.subrange(k, k + d.len()) == d;
        assert(buf.subrange(start + k, start + k + d.len()) =~= x.subrange(k, k + d.len()));
        assert(occurs_at(buf, d, start + k));
    }
}

proof fn lemma_split_from_rejoin(buf: Seq<u8>, d: Seq<u8>, start: nat)
    requires
        d.len() > 0,
        start <= buf.len(),
    ensures
        split_from(buf, d, start).len() == 0 <==> start == buf.len(),
        rejoined(split_from(buf, d, start), d) == buf.skip(start as int) || rejoined(
            split_from(buf, d, start),
            d,
        ) + d == buf.skip(start as int),
        forall|i: int|
            0 <= i < split_from(buf, d, start).len() ==> !contains_run(
                #[trigger] split_from(buf, d, start)[i],
                d,
            ),
    decreases buf.len() + 1 - start,
{
    lemma_find_from(buf, d, start);
    let parts = split_from(buf, d, start);
    match find_from(buf, d, start) {
        Some(p) => {
            let x = buf.subrange(start as int, p as int);
            let next = (p + d.len()) as nat;
            let rest = split_from(buf, d, next);
            assert(parts == seq![x] + rest);
            lemma_split_from_rejoin(buf, d, next);
            lemma_piece_free(buf, d, start as int, p as int);
            assert(buf.skip(start as int) =~= x + d + buf.skip(next as int)) by {
                assert(buf.subrange(p as int, (p + d.len()) as int) == d);
            }
            assert(parts.skip(1) =~= rest);
            if rest.len() == 0 {
                assert(buf.skip(next as int) =~= Seq::<u8>::empty());
                assert(rejoined(parts, d) == x);
                assert(x + d =~= x + d + buf.skip(next as int));
            } else {
                assert(rejoined(parts, d) == x + d + rejoined(rest, d));
                if rejoined(rest, d) == buf.skip(next as int) {
                } else {
                    assert(rejoined(parts, d) + d =~= x + d + (rejoined(rest, d) + d));
                }
            }
            assert forall|i: int| 0 <= i < parts.len() implies !contains_run(#[trigger] parts[i], d) by {
                if i > 0 {
                    assert(parts[i] == rest[i - 1]);
                }
            }
        },
        None => {
            if start < buf.len() {
                assert(buf.subrange(start as int, buf.len() as int) =~= buf.skip(start as int));
                lemma_piece_free(buf, d, start as int, buf.len() as int);
            } else {
                assert(buf.skip(start as int) =~= Seq::<u8>::empty());
            }
        },
    }
}

/// The last occurrence of `d` that the left-to-right scan from `start` cuts
/// at ends the buffer (so the split drops an empty last field).
pub open spec fn trailing_cut(buf: Seq<u8>, d: Seq<u8>, start: nat) -> bool
    decreases buf.len() + 1 - start,
{
    if d.len() == 0 {
        false
    } else {
        match find_from(buf, d, start) {
            Some(p) => {
                proof {
                    lemma_find_from(buf, d, start);
                }
                p + d.len() == buf.len() || trailing_cut(buf, d, p + d.len())
            },
            None => false,
        }
    }
}

proof fn lemma_split_from_trailing(buf: Seq<u8>, d: Seq<u8>, start: nat)
    requires
        d.len() > 0,
        start <= buf.len(),
    ensures
        trailing_cut(buf, d, start) ==> rejoined(split_from(buf, d, start), d) + d == buf.skip(start as int),
        !trailing_cut(buf, d, start) ==> rejoined(split_from(buf, d, start), d) == buf.skip(start as int),
    decreases buf.len() + 1 - start,
{
    lemma_find_from(buf, d, start);
    let parts = split_from(buf, d, start);
    match find_from(buf, d, start) {
        Some(p) => {
            let x = buf.subrange(start as int, p as int);
            let next = (p + d.len()) as nat;
            let rest = split_from(buf, d, next);
            assert(parts == seq![x] + rest);
            lemma_split_from_rejoin(buf, d, next);
            assert(buf.skip(start as int) =~= x + d + buf.skip(next as int)) by {
                assert(buf.subrange(p as int, (p + d.len()) as int) == d);
            }
            assert(parts.skip(1) =~= rest);
            if next == buf.len() {
                assert(rest.len() == 0);
                assert(buf.skip(next as int) =~= Seq::<u8>::empty());
                assert(rejoined(parts, d) == x);
                assert(x + d =~= x + d + buf.skip(next as int));
            } else {
                lemma_split_from_trailing(buf, d, next);
                assert(rest.len() > 0);
                assert(rejoined(parts, d) == x + d + rejoined(rest, d));
                assert(trailing_cut(buf, d, start) == trailing_cut(buf, d, next));
                if trailing_cut(buf, d, next) {
                    assert(rejoined(parts, d) + d =~= x + d + (rejoined(rest, d) + d));
                }
            }
        },
        None => {
            lemma_split_from_rejoin(buf, d, start);
        },
    }
}

/// Joining the pieces of a split with the delimiter gives the buffer back,
/// but for one trailing delimiter that the split drops, which happens
/// exactly when the last cut ends the buffer; no piece holds the delimiter;
/// an empty delimiter leaves the buffer whole.
pub proof fn lemma_split_then_rejoin(buf: Seq<u8>, d: Seq<u8>)
    ensures
        rejoined(split_pieces(buf, d), d) == buf || rejoined(split_pieces(buf, d), d) + d == buf,
        d.len() == 0 ==> split_pieces(buf, d) == seq![buf],
        d.len() > 0 ==> (rejoined(split_pieces(buf, d), d) + d == buf <==> trailing_cut(buf, d, 0)),
        d.len() > 0 ==> (rejoined(split_pieces(buf, d), d) == buf <==> !trailing_cut(buf, d, 0)),
        d.len() > 0 ==> forall|i: int|
            0 <= i < split_pieces(buf, d).len() ==> !contains_run(
                #[trigger] split_pieces(buf, d)[i],
                d,
            ),
{
    if d.len() == 0 {
    } else {
        lemma_split_from_rejoin(buf, d, 0);
        lemma_split_from_trailing(buf, d, 0);
        assert(buf.skip(0) =~= buf);
        let j = rejoined(split_pieces(buf, d), d);
        assert((j + d).len() == j.len() + d.len());
    }
}

/// Buffer utilities.
pub struct BufferUtils;

impl BufferUtils {
    /// First index at or after `start` where `pattern` occurs in `buffer`.
    fn find_at_or_after(buffer: &[u8], pattern: &[u8], start: usize) -> (r: Option<usize>)
        requires
            start <= buffer@.len(),
            pattern@.len() > 0,
        ensures
            r matches Some(p) ==> find_from(buffer@, pattern@, start as nat) == Some(p as nat),
            r is None ==> find_from(buffer@, pattern@, start as nat) is None,
    {
        if pattern.len() > buffer.len() {
            return None;
        }
        let last = buffer.len() - pattern.len();
        let mut i = start;
        while i <= last
            invariant
                start <= i,
                pattern@.len() > 0,
                buffer@.len() <= usize::MAX,
                last == buffer@.len() - pattern@.len(),
                find_from(buffer@, pattern@, start as nat) == find_from(buffer@, pattern@, i as nat),
            decreases last + 1 - i,
        {
            let mut j: usize = 0;
            let mut same = true;
            while j < pattern.len()
                invariant
                    buffer@.len() <= usize::MAX,
                    i <= last,
                    last == buffer@.len() - pattern@.len(),
                    i + pattern@.len() <= buffer@.len(),
                    j <= pattern@.len(),
                    same == (forall|m: int| 0 <= m < j ==> buffer@[i + m] == pattern@[m]),
                decreases pattern@.len() - j,
            {
                if buffer[i + j] != pattern[j] {
                    same = false;
                }
                j = j + 1;
            }
            if same {
                assert(buffer@.subrange(i as int, i + pattern@.len()) =~= pattern@);
                return Some(i);
            }
            assert(!occurs_at(buffer@, pattern@, i as int)) by {
                let m = choose|m: int| 0 <= m < pattern@.len() && buffer@[i + m] != pattern@[m];
                assert(buffer@.subrange(i as int, i + pattern@.len())[m] != pattern@[m]);
            }
            i = i + 1;
        }
        None
    }

    /// Find pattern in buffer: the first index where it occurs; `None` for an
    /// empty pattern, a buffer shorter than the pattern, or no occurrence.
    pub fn find_pattern(buffer: &[u8], pattern: &[u8]) -> (r: Option<usize>)
        ensures
            pattern@.len() == 0 || buffer@.len() < pattern@.len() ==> r is None,
            pattern@.len() > 0 ==> match r {
                Some(i) => occurs_at(buffer@, pattern@, i as int) && forall|j: int|
                    0 <= j < i ==> !#[trigger] occurs_at(buffer@, pattern@, j),
                None => forall|j: int| !#[trigger] occurs_at(buffer@, pattern@, j),
            },
            pattern@.len() > 0 ==> (r matches Some(p) ==> find_from(buffer@, pattern@, 0) == Some(p as nat)),
            pattern@.len() > 0 ==> (r is None ==> find_from(buffer@, pattern@, 0) is None),
    {
        if pattern.len() == 0 || buffer.len() < pattern.len() {
            return None;
        }
        proof {
            lemma_find_from(buffer@, pattern@, 0);
        }
        Self::find_at_or_after(buffer, pattern, 0)
    }

    /// Split buffer by delimiter.
    pub fn split_by_delimiter(buffer: &[u8], delimiter: &[u8]) -> (r: Vec<Vec<u8>>)
        ensures
            r@.len() == split_pieces(buffer@, delimiter@).len(),
            forall|i: int| 0 <= i < r@.len() ==> #[trigger] r@[i]@ == split_pieces(buffer@, delimiter@)[i],
    {
        if delimiter.len() == 0 {
            let mut result: Vec<Vec<u8>> = Vec::new();
            result.push(vstd::slice::slice_to_vec(buffer));
            return result;
        }
        let mut result: Vec<Vec<u8>> = Vec::new();
        let mut start: usize = 0;
        let blen = buffer.len();
        loop
            invariant
                delimiter@.len() > 0,
                blen == buffer@.len(),
                start <= buffer@.len(),
                split_pieces(buffer@, delimiter@).len() == result@.len() + split_from(buffer@, delimiter@, start as nat).len(),
                forall|i: int| 0 <= i < result@.len() ==> #[trigger] result@[i]@ == split_pieces(buffer@, delimiter@)[i],
                forall|i: int| 0 <= i < split_from(buffer@, delimiter@, start as nat).len() ==>
                    #[trigger] split_from(buffer@, delimiter@, start as nat)[i] == split_pieces(buffer@, delimiter@)[result@.len() + i],
            decreases buffer@.len() + 1 - start,
        {
            proof {
                lemma_find_from(buffer@, delimiter@, start as nat);
            }
            match Self::find_at_or_after(buffer, delimiter, start) {
                Some(pos) => {
                    let ghost rest = split_from(buffer@, delimiter@, (pos + delimiter@.len()) as nat);
                    let ghost here = split_from(buffer@, delimiter@, start as nat);
                    assert(here == seq![buffer@.subrange(start as int, pos as int)] + rest);
                    let piece = vstd::slice::slice_to_vec(&buffer[start..pos]);
                    proof {
                        assert(here[0] == split_pieces(buffer@, delimiter@)[result@.len() as int]);
                        assert forall|i: int| 0 <= i < rest.len() implies #[trigger] rest[i]
                            == split_pieces(buffer@, delimiter@)[result@.len() + 1 + i] by {
                            assert(here[1 + i] == rest[i]);
                        }
                    }
                    result.push(piece);
                    start = pos + delimiter.len();
                },
                None => {
                    let ghost here = split_from(buffer@, delimiter@, start as nat);
                    if start < blen {
                        assert(here == seq![buffer@.subrange(start as int, buffer@.len() as int)]);
                        assert(here[0] == split_pieces(buffer@, delimiter@)[result@.len() as int]);
                        let piece = vstd::slice::slice_to_vec(&buffer[start..buffer.len()]);
                        result.push(piece);
                    } else {
                        assert(here.len() == 0);
                    }
                    return result;
                },
            }
        }
    }

    /// Calculate checksum (simple sum, modulo 256).
    pub fn checksum_sum(data: &[u8]) -> (r: u8)
        ensures
            r == byte_sum(data@) % 256,
    {
        let mut acc: u8 = 0;
        let mut i: usize = 0;
        while i < data.len()
            invariant
                i <= data@.len(),
                acc == byte_sum(data@.take(i as int)) % 256,
            decreases data@.len() - i,
        {
            proof {
                assert(data@.take(i + 1).drop_last() =~= data@.take(i as int));
            }
            acc = acc.wrapping_add(data[i]);
            i = i + 1;
        }
        assert(data@.take(data@.len() as int) =~= data@);
        acc
    }

    /// Calculate checksum (XOR).
    pub fn checksum_xor(data: &[u8]) -> (r: u8)
        ensures
            r == byte_xor(data@),
    {
        let mut acc: u8 = 0;
        let mut i: usize = 0;
        while i < data.len()
            invariant
                i <= data@.len(),
                acc == byte_xor(data@.take(i as int)),
            decreases data@.len() - i,
        {
            proof {
                assert(data@.take(i + 1).drop_last() =~= data@.take(i as int));
            }
            acc = acc ^ data[i];
            i = i + 1;
        }
        assert(data@.take(data@.len() as int) =~= data@);
        acc
    }

    /// CRC-8 of one byte value, computed bit by bit.
    fn crc8_entry(x: u8) -> (r: u8)
        ensures
            r == crc8_byte(x),
    {
        let mut v = x;
        let mut k: usize = 0;
        let ghost mut g: Seq<u8> = seq![x];
        while k < 8
            invariant
                k <= 8,
                g.len() == k + 1,
                g[0] == x,
                v == g[k as int],
                forall|m: int| #![trigger g[m]] 0 <= m < k ==> g[m + 1] == crc8_shift(g[m]),
            decreases 8 - k,
        {
            let next = if v & 0x80 != 0 {
                (v << 1u8) ^ 0x07u8
            } else {
                v << 1u8
            };
            proof {
                g = g.push(next);
            }
            v = next;
            k = k + 1;
        }
        assert(g[1] == crc8_shift(g[0]));
        assert(g[2] == crc8_shift(g[1]));
        assert(g[3] == crc8_shift(g[2]));
        assert(g[4] == crc8_shift(g[3]));
        assert(g[5] == crc8_shift(g[4]));
        assert(g[6] == crc8_shift(g[5]));
        assert(g[7] == crc8_shift(g[6]));
        assert(g[8] == crc8_shift(g[7]));
        v
    }

    /// Calculate CRC-8 (polynomial 0x07, initial value 0).
    pub fn crc8(data: &[u8]) -> (r: u8)
        ensures
            r == crc8_of(data@),
    {
        let mut crc: u8 = 0;
        let mut i: usize = 0;
        while i < data.len()
            invariant
                i <= data@.len(),
                crc == crc8_of(data@.take(i as int)),
            decreases data@.len() - i,
        {
            proof {
                assert(data@.take(i + 1).drop_last() =~= data@.take(i as int));
            }
            crc = Self::crc8_entry(crc ^ data[i]);
            i = i + 1;
        }
        assert(data@.take(data@.len() as int) =~= data@);
        crc
    }
}

// ---------------------------------------------------------------------------
// Data conversion
// ---------------------------------------------------------------------------

/// Decimal renderings of the bytes separated by ", ".
pub open spec fn decimal_list(b: Seq<u8>) -> Seq<char>
    decreases b.len(),
{
    if b.len() == 0 {
        Seq::empty()
    } else if b.len() == 1 {
        decimal(b[0] as nat)
    } else {
        decimal_list(b.drop_last()) + ", "@ + decimal(b.last() as nat)
    }
}

/// What `format!("{:?}", bytes)` prints for a byte slice: "[1, 2, 3]".
pub open spec fn bytes_debug(b: Seq<u8>) -> Seq<char> {
    "["@ + decimal_list(b) + "]"@
}

/// The escape sequence `escape_string` writes for one character.
pub open spec fn escape_char(c: char) -> Seq<char> {
    if c == '\n' {
        seq!['\\', 'n']
    } else if c == '\r' {
        seq!['\\', 'r']
    } else if c == '\t' {
        seq!['\\', 't']
    } else if c == '\0' {
        seq!['\\', '0']
    } else if c == '\\' {
        seq!['\\', '\\']
    } else if is_control(c) {
        seq!['\\', 'x'] + hex2_lower((c as u32) as u8)
    } else {
        seq![c]
    }
}

/// The escaped form of a whole string.
pub open spec fn escaped(s: Seq<char>) -> Seq<char>
    decreases s.len(),
{
    if s.len() == 0 {
        Seq::empty()
    } else {
        escape_char(s[0]) + escaped(s.skip(1))
    }
}

/// The value of a hexadecimal digit character (either case).
pub open spec fn hex_digit_value(c: char) -> Option<nat> {
    if '0' <= c && c <= '9' {
        Some(((c as u32) - 48) as nat)
    } else if 'a' <= c && c <= 'f' {
        Some(((c as u32) - 87) as nat)
    } else if 'A' <= c && c <= 'F' {
        Some(((c as u32) - 55) as nat)
    } else {
        None
    }
}

/// What `u8::from_str_radix(h, 16)` gives for a text of two bytes: two
/// digits, or '+' and one digit.
pub open spec fn parse_hex_pair(h: Seq<char>) -> Option<u8> {
    if h.len() == 2 && hex_digit_value(h[0]) is Some && hex_digit_value(h[1]) is Some {
        Some((hex_digit_value(h[0])->0 * 16 + hex_digit_value(h[1])->0) as u8)
    } else if h.len() == 2 && h[0] == '+' && hex_digit_value(h[1]) is Some {
        Some(hex_digit_value(h[1])->0 as u8)
    } else {
        None
    }
}

/// Number of bytes in the UTF-8 form of a character.
pub open spec fn utf8_width(c: char) -> nat {
    if (c as u32) < 0x80 {
        1
    } else if (c as u32) < 0x800 {
        2
    } else if (c as u32) < 0x10000 {
        3
    } else {
        4
    }
}

/// Number of bytes in the UTF-8 form of a string.
pub open spec fn utf8_size(s: Seq<char>) -> nat
    decreases s.len(),
{
    if s.len() == 0 {
        0
    } else {
        utf8_width(s[0]) + utf8_size(s.skip(1))
    }
}

/// `c` in front of a successful result; errors pass through.
pub open spec fn prefixed(c: Seq<char>, r: Result<Seq<char>, Seq<char>>) -> Result<Seq<char>, Seq<char>> {
    match r {
        Ok(t) => Ok(c + t),
        Err(m) => Err(m),
    }
}

/// What `unescape_string` gives: the unescaped text, or the message of the
/// first bad escape.
pub open spec fn unescaped(s: Seq<char>) -> Result<Seq<char>, Seq<char>>
    decreases s.len(),
{
    if s.len() == 0 {
        Ok(Seq::empty())
    } else if s[0] != '\\' {
        prefixed(seq![s[0]], unescaped(s.skip(1)))
    } else if s.len() == 1 {
        Err("Incomplete escape sequence"@)
    } else if s[1] == 'n' {
        prefixed(seq!['\n'], unescaped(s.skip(2)))
    } else if s[1] == 'r' {
        prefixed(seq!['\r'], unescaped(s.skip(2)))
    } else if s[1] == 't' {
        prefixed(seq!['\t'], unescaped(s.skip(2)))
    } else if s[1] == '0' {
        prefixed(seq!['\0'], unescaped(s.skip(2)))
    } else if s[1] == '\\' {
        prefixed(seq!['\\'], unescaped(s.skip(2)))
    } else if s[1] == 'x' {
        let h = s.subrange(2, if s.len() < 4 { s.len() as int } else { 4 });
        if utf8_size(h) == 2 {
            match parse_hex_pair(h) {
                Some(b) => prefixed(seq![(b as u32) as char], unescaped(s.skip(4))),
                None => Err("Invalid hex escape: \\x"@ + h),
            }
        } else {
            Err("Incomplete hex escape"@)
        }
    } else {
        Err("Unknown escape sequence: \\"@ + seq![s[1]])
    }
}

/// The characters of `s` with every control character other than
/// newline, carriage return and tab replaced by '?'.
pub open spec fn sanitized(s: Seq<char>) -> Seq<char> {
    s.map_values(|c: char| if is_control(c) && c != '\n' && c != '\r' && c != '\t' { '?' } else { c })
}

/// Data conversion utilities.
pub struct DataConverter;

impl DataConverter {
    /// Convert data to the specified format.
    pub fn encode(data: &[u8], format: DataFormat) -> (r: Result<String, SerialError>)
        requires
            crate::codec::encodable_len(data@.len()),
        ensures
            match format {
                DataFormat::Text => if valid_utf8(data@) {
                    r matches Ok(s) && s@ == decode_utf8(data@)
                } else {
                    r matches Err(SerialError::EncodingError(m)) && m@ == "UTF-8 encoding failed: "@
                        + crate::codec::utf8_failure(data@).text()
                },
                DataFormat::Hex => r matches Ok(s) && s@ == crate::codec::hex_lower_bytes(data@),
                DataFormat::Base64 => r matches Ok(s) && s@ == crate::codec::base64_encoded(data@),
                DataFormat::Binary => r matches Ok(s) && s@ == bytes_debug(data@),
            },
    {
        match format {
            DataFormat::Text => match crate::codec::utf8_string(vstd::slice::slice_to_vec(data)) {
                Ok(s) => Ok(s),
                Err(f) => Err(
                    SerialError::EncodingError(
                        concat2("UTF-8 encoding failed: ", f.message().as_str()),
                    ),
                ),
            },
            DataFormat::Hex => Ok(crate::codec::hex_encode(data)),
            DataFormat::Base64 => Ok(crate::codec::base64_standard_encode(data)),
            DataFormat::Binary => Ok(Self::debug_bytes(data)),
        }
    }

    /// The bytes as `format!("{:?}", data)` prints them.
    fn debug_bytes(data: &[u8]) -> (r: String)
        ensures
            r@ == bytes_debug(data@),
    {
        let mut s = owned("[");
        let mut i: usize = 0;
        while i < data.len()
            invariant
                i <= data@.len(),
                s@ == "["@ + decimal_list(data@.take(i as int)),
            decreases data@.len() - i,
        {
            proof {
                assert(data@.take(i + 1).drop_last() =~= data@.take(i as int));
            }
            if i > 0 {
                push_str(&mut s, ", ");
            }
            push_str(&mut s, u64_to_string(data[i] as u64).as_str());
            proof {
                if i == 0 {
                    assert(decimal_list(data@.take(1)) == decimal(data@[0] as nat));
                }
                assert(s@ =~= "["@ + decimal_list(data@.take(i + 1)));
            }
            i = i + 1;
        }
        assert(data@.take(data@.len() as int) =~= data@);
        push_str(&mut s, "]");
        s
    }

    /// Convert data from the specified format.
    pub fn decode(data: &str, format: DataFormat) -> (r: Result<Vec<u8>, SerialError>)
        ensures
            match format {
                DataFormat::Text => r matches Ok(v) && v@ == encode_utf8(data@),
                DataFormat::Hex => match crate::codec::hex_decoded(encode_utf8(data@)) {
                    Ok(b) => r matches Ok(v) && v@ == b,
                    Err(e) => r matches Err(SerialError::EncodingError(m)) && m@
                        == "Hex decoding failed: "@ + e.text(),
                },
                DataFormat::Base64 => match crate::codec::standard_base64_decoding(
                    encode_utf8(data@),
                ) {
                    Ok(b) => r matches Ok(v) && v@ == b,
                    Err(e) => r matches Err(SerialError::EncodingError(m)) && m@
                        == "Base64 decoding failed: "@ + e.text(),
                },
                DataFormat::Binary => r matches Err(SerialError::NotImplemented(m)) && m@
                    == "Binary format decoding"@,
            },
            forall|b: Seq<u8>|
                format == DataFormat::Hex && data@ == #[trigger] crate::codec::hex_lower_bytes(b)
                    ==> (r matches Ok(v) && v@ == b),
            forall|b: Seq<u8>|
                format == DataFormat::Base64 && data@ == #[trigger] crate::codec::base64_encoded(b)
                    ==> (r matches Ok(v) && v@ == b),
    {
        proof {
            assert forall|b: Seq<u8>|
                format == DataFormat::Hex && data@ == #[trigger] crate::codec::hex_lower_bytes(b)
                    implies crate::codec::hex_decoded(encode_utf8(data@)) == Ok::<Seq<u8>, crate::codec::HexDecodeError>(b) by {
                crate::codec::lemma_hex_roundtrip(b);
            }
        }
        match format {
            DataFormat::Text => Ok(crate::codec::utf8_bytes(data)),
            DataFormat::Hex => match crate::codec::hex_decode(data.as_bytes()) {
                Ok(v) => Ok(v),
                Err(e) => Err(
                    SerialError::EncodingError(
                        concat2("Hex decoding failed: ", e.message().as_str()),
                    ),
                ),
            },
            DataFormat::Base64 => match crate::codec::base64_standard_decode(data.as_bytes()) {
                Ok(v) => Ok(v),
                Err(e) => Err(
                    SerialError::EncodingError(
                        concat2("Base64 decoding failed: ", e.message().as_str()),
                    ),
                ),
            },
            DataFormat::Binary => Err(SerialError::NotImplemented(owned("Binary format decoding"))),
        }
    }
}

/// What `DataConverter::encode` gives in `Text` format, `DataConverter::decode`
/// in `Text` format turns back into the same bytes.
pub proof fn lemma_converter_text_roundtrip(b: Seq<u8>)
    requires
        valid_utf8(b),
    ensures
        encode_utf8(decode_utf8(b)) == b,
{
    vstd::utf8::decode_utf8_encode_utf8(b);
}

proof fn lemma_escaped_append(a: Seq<char>, c: char)
    ensures
        escaped(a.push(c)) == escaped(a) + escape_char(c),
    decreases a.len(),
{
    if a.len() == 0 {
        assert(a.push(c).skip(1) =~= Seq::<char>::empty());
        assert(escaped(a.push(c).skip(1)) == Seq::<char>::empty());
        assert(escaped(a.push(c)) =~= escape_char(c));
        assert(escaped(a) == Seq::<char>::empty());
        assert(escaped(a) + escape_char(c) =~= escape_char(c));
    } else {
        lemma_escaped_append(a.skip(1), c);
        assert(a.push(c).skip(1) =~= a.skip(1).push(c));
        assert(escaped(a.push(c)) =~= escape_char(a[0]) + (escaped(a.skip(1)) + escape_char(c)));
    }
}

proof fn lemma_utf8_size_ascii_pair(h: Seq<char>)
    requires
        h.len() == 2,
        (h[0] as u32) < 0x80,
        (h[1] as u32) < 0x80,
    ensures
        utf8_size(h) == 2,
{
    assert(h.skip(1).skip(1).len() == 0);
    assert(utf8_size(h.skip(1)) == 1 + utf8_size(h.skip(1).skip(1)));
}

/// Unescaping the escaped form of a character in front of more escaped text
/// gives the character back in front of the rest.
proof fn lemma_unescape_escape_char(c: char, rest: Seq<char>)
    ensures
        unescaped(escape_char(c) + rest) == prefixed(seq![c], unescaped(rest)),
{
    let s = escape_char(c) + rest;
    if c == '\n' || c == '\r' || c == '\t' || c == '\0' || c == '\\' {
        assert(s.skip(2) =~= rest);
    } else if is_control(c) {
        let b = (c as u32) as u8;
        let h = hex2_lower(b);
        assert(s.subrange(2, 4) =~= h);
        lemma_utf8_size_ascii_pair(h);
        assert(parse_hex_pair(h) == Some(b)) by {
            assert((b / 16) * 16 + b % 16 == b);
        }
        assert(s.skip(4) =~= rest);
        assert(((b as u32) as char) == c);
    } else {
        assert(s.skip(1) =~= rest);
    }
}

/// Unescaping undoes escaping, for every string.
pub proof fn lemma_unescape_escape(s: Seq<char>)
    ensures
        unescaped(escaped(s)) == Ok::<Seq<char>, Seq<char>>(s),
    decreases s.len(),
{
    if s.len() == 0 {
        assert(s =~= Seq::<char>::empty());
        assert(escaped(s) == Seq::<char>::empty());
    } else {
        lemma_unescape_escape(s.skip(1));
        lemma_unescape_escape_char(s[0], escaped(s.skip(1)));
        assert(escaped(s) == escape_char(s[0]) + escaped(s.skip(1)));
        assert(unescaped(escaped(s)) == prefixed(seq![s[0]], Ok::<Seq<char>, Seq<char>>(s.skip(1))));
        assert(seq![s[0]] + s.skip(1) =~= s);
        assert(prefixed(seq![s[0]], Ok::<Seq<char>, Seq<char>>(s.skip(1))) == Ok::<Seq<char>, Seq<char>>(s));
    }
}

impl DataConverter {
    /// Escape special characters for display.
    pub fn escape_string(data: &str) -> (r: String)
        ensures
            r@ == escaped(data@),
    {
        let cs = chars_of(data);
        let mut out = String::new();
        let mut i: usize = 0;
        while i < cs.len()
            invariant
                i <= cs@.len(),
                cs@ == data@,
                out@ == escaped(data@.take(i as int)),
            decreases cs@.len() - i,
        {
            let c = cs[i];
            proof {
                assert(data@.take(i + 1) =~= data@.take(i as int).push(c));
                lemma_escaped_append(data@.take(i as int), c);
            }
            if c == '\n' {
                push_char(&mut out, '\\');
                push_char(&mut out, 'n');
            } else if c == '\r' {
                push_char(&mut out, '\\');
                push_char(&mut out, 'r');
            } else if c == '\t' {
                push_char(&mut out, '\\');
                push_char(&mut out, 't');
            } else if c == '\0' {
                push_char(&mut out, '\\');
                push_char(&mut out, '0');
            } else if c == '\\' {
                push_char(&mut out, '\\');
                push_char(&mut out, '\\');
            } else if char_is_control(c) {
                push_char(&mut out, '\\');
                push_char(&mut out, 'x');
                push_hex2_lower(&mut out, (c as u32) as u8);
            } else {
                push_char(&mut out, c);
            }
            proof {
                assert(out@ =~= escaped(data@.take(i as int)) + escape_char(c));
            }
            i = i + 1;
        }
        assert(data@.take(cs@.len() as int) =~= data@);
        out
    }

    /// The value of a hexadecimal digit character.
    fn digit_value(c: char) -> (r: Option<u8>)
        ensures
            match hex_digit_value(c) {
                Some(v) => r == Some(v as u8),
                None => r is None,
            },
    {
        if '0' <= c && c <= '9' {
            Some(((c as u32) - 48) as u8)
        } else if 'a' <= c && c <= 'f' {
            Some(((c as u32) - 87) as u8)
        } else if 'A' <= c && c <= 'F' {
            Some(((c as u32) - 55) as u8)
        } else {
            None
        }
    }

    /// Parses the text after "\x": two digits, or '+' and a digit.
    fn parse_pair(h: &Vec<char>) -> (r: Option<u8>)
        ensures
            r == parse_hex_pair(h@),
    {
        if h.len() != 2 {
            return None;
        }
        match (Self::digit_value(h[0]), Self::digit_value(h[1])) {
            (Some(a), Some(b)) => Some(a * 16 + b),
            (None, Some(b)) => if h[0] == '+' {
                Some(b)
            } else {
                None
            },
            _ => None,
        }
    }

    /// Number of bytes in the UTF-8 form of the characters.
    fn utf8_len_of(h: &Vec<char>) -> (r: usize)
        requires
            h@.len() <= 2,
        ensures
            r == utf8_size(h@),
    {
        let mut total: usize = 0;
        let mut i: usize = h.len();
        assert(h@.skip(i as int) =~= Seq::<char>::empty());
        while i > 0
            invariant
                i <= h@.len() <= 2,
                total <= 4 * (h@.len() - i),
                total == utf8_size(h@.skip(i as int)),
            decreases i,
        {
            i = i - 1;
            let c = h[i];
            let u = c as u32;
            let w: usize = if u < 0x80 {
                1
            } else if u < 0x800 {
                2
            } else if u < 0x10000 {
                3
            } else {
                4
            };
            proof {
                assert(h@.skip(i as int).skip(1) =~= h@.skip(i + 1));
                assert(h@.skip(i as int)[0] == h@[i as int]);
                assert(utf8_size(h@.skip(i as int)) == utf8_width(h@[i as int]) + utf8_size(h@.skip(i + 1)));
            }
            total = total + w;
        }
        assert(h@.skip(0) =~= h@);
        total
    }

    /// Unescape string with special characters.
    pub fn unescape_string(data: &str) -> (r: Result<String, SerialError>)
        ensures
            match unescaped(data@) {
                Ok(t) => r matches Ok(s) && s@ == t,
                Err(m) => r matches Err(SerialError::EncodingError(e)) && e@ == m,
            },
    {
        let cs = chars_of(data);
        let n = cs.len();
        let mut out = String::new();
        let mut i: usize = 0;
        proof {
            assert(data@.skip(0) =~= data@);
            match unescaped(data@) {
                Ok(t) => {
                    assert(out@ + t =~= t);
                },
                Err(_) => {},
            }
        }
        while i < n
            invariant
                i <= n,
                n == cs@.len(),
                cs@ == data@,
                unescaped(data@) == prefixed(out@, unescaped(data@.skip(i as int))),
            decreases n - i,
        {
            let ghost rest = data@.skip(i as int);
            let c = cs[i];
            assert(rest[0] == c);
            assert(rest.skip(1) =~= data@.skip(i + 1));
            if c != '\\' {
                let ghost before = out@;
                push_char(&mut out, c);
                proof {
                    assert(before + seq![c] =~= out@);
                    match unescaped(data@.skip(i + 1)) {
                        Ok(t) => {
                            assert(before + (seq![c] + t) =~= out@ + t);
                        },
                        Err(_) => {},
                    }
                }
                i = i + 1;
            } else {
                if i + 1 >= n {
                    return Err(SerialError::EncodingError(owned("Incomplete escape sequence")));
                }
                let e = cs[i + 1];
                assert(rest[1] == e);
                assert(rest.skip(2) =~= data@.skip(i + 2));
                if e == 'n' || e == 'r' || e == 't' || e == '0' || e == '\\' {
                    let v = if e == 'n' {
                        '\n'
                    } else if e == 'r' {
                        '\r'
                    } else if e == 't' {
                        '\t'
                    } else if e == '0' {
                        '\0'
                    } else {
                        '\\'
                    };
                    let ghost before = out@;
                    push_char(&mut out, v);
                    proof {
                        assert(prefixed(before, prefixed(seq![v], unescaped(data@.skip(i + 2))))
                            == prefixed(out@, unescaped(data@.skip(i + 2)))) by {
                            assert(before + seq![v] =~= out@);
                            match unescaped(data@.skip(i + 2)) {
                                Ok(t) => {
                                    assert(before + (seq![v] + t) =~= out@ + t);
                                },
                                Err(_) => {},
                            }
                        }
                    }
                    i = i + 2;
                } else if e == 'x' {
                    let end = if n - (i + 2) < 2 {
                        n
                    } else {
                        i + 4
                    };
                    let mut h: Vec<char> = Vec::new();
                    let mut k = i + 2;
                    while k < end
                        invariant
                            i + 2 <= k <= end <= n,
                            n == cs@.len(),
                            h@ == cs@.subrange(i + 2, k as int),
                        decreases end - k,
                    {
                        h.push(cs[k]);
                        k = k + 1;
                        assert(h@ =~= cs@.subrange(i + 2, k as int));
                    }
                    assert(h@ =~= rest.subrange(2, if rest.len() < 4 { rest.len() as int } else { 4 }));
                    if Self::utf8_len_of(&h) == 2 {
                        match Self::parse_pair(&h) {
                            Some(b) => {
                                let ghost before = out@;
                                push_char(&mut out, b as char);
                                proof {
                                    assert(h@.len() == 2);
                                    assert(rest.skip(4) =~= data@.skip(i + 4));
                                    assert(before + seq![(b as u32) as char] =~= out@);
                                    match unescaped(data@.skip(i + 4)) {
                                        Ok(t) => {
                                            assert(before + (seq![(b as u32) as char] + t) =~= out@ + t);
                                        },
                                        Err(_) => {},
                                    }
                                }
                                i = i + 4;
                            },
                            None => {
                                let mut m = owned("Invalid hex escape: \\x");
                                push_str(&mut m, string_of(&h).as_str());
                                return Err(SerialError::EncodingError(m));
                            },
                        }
                    } else {
                        return Err(SerialError::EncodingError(owned("Incomplete hex escape")));
                    }
                } else {
                    let mut m = owned("Unknown escape sequence: \\");
                    push_char(&mut m, e);
                    return Err(SerialError::EncodingError(m));
                }
            }
        }
        assert(data@.skip(n as int) =~= Seq::<char>::empty());
        assert(out@ + Seq::<char>::empty() =~= out@);
        Ok(out)
    }
}

// ---------------------------------------------------------------------------
// Time
// ---------------------------------------------------------------------------

/// `std::time::SystemTime`, a reading of the system clock.
#[verifier::external_type_specification]
#[verifier::external_body]
pub struct ExSystemTime(std::time::SystemTime);

/// `SystemTime::now`: the current reading of the system clock; nothing is
/// stated of it.
#[verifier::external_body]
fn system_now() -> std::time::SystemTime {
    std::time::SystemTime::now()
}

/// `SystemTime::duration_since(UNIX_EPOCH)`, `None` for a reading before
/// the epoch; nothing is stated of the duration.
#[verifier::external_body]
fn since_unix_epoch(t: &std::time::SystemTime) -> Option<std::time::Duration> {
    t.duration_since(std::time::UNIX_EPOCH).ok()
}

/// `Duration::as_secs`: the whole seconds; not stated here.
#[verifier::external_body]
fn duration_secs(d: &std::time::Duration) -> u64 {
    d.as_secs()
}

/// `Duration::subsec_nanos`: the nanoseconds past the whole seconds, which
/// the documentation bounds below one billion.
#[verifier::external_body]
fn duration_subsec_nanos(d: &std::time::Duration) -> (r: u32)
    ensures
        r < 1_000_000_000,
{
    d.subsec_nanos()
}

/// Time since the Unix epoch as whole seconds and the nanoseconds past them
/// (below one billion); `None` when the clock reads before the epoch.
pub(crate) fn unix_time() -> (r: Option<(u64, u32)>)
    ensures
        r matches Some(t) ==> t.1 < 1_000_000_000,
{
    let now = system_now();
    match since_unix_epoch(&now) {
        Some(d) => Some((duration_secs(&d), duration_subsec_nanos(&d))),
        None => None,
    }
}

/// Milliseconds of an elapsed time, as `as_millis() as u64` gives them
/// (wrapping at 2^64); zero when there is none.
pub open spec fn millis_of(elapsed: Option<(u64, u32)>) -> u64 {
    match elapsed {
        Some(t) => ((t.0 as nat * 1000 + t.1 as nat / 1_000_000) % 0x1_0000_0000_0000_0000) as u64,
        None => 0,
    }
}

/// Whole seconds of an elapsed time; zero when there is none.
pub open spec fn seconds_of(elapsed: Option<(u64, u32)>) -> u64 {
    match elapsed {
        Some(t) => t.0,
        None => 0,
    }
}

/// How `format_duration` renders whole seconds and milliseconds.
pub open spec fn duration_text(total_secs: u64, millis: u32) -> Seq<char> {
    if total_secs >= 3600 {
        decimal((total_secs / 3600) as nat) + "h "@ + decimal(((total_secs % 3600) / 60) as nat) + "m "@
            + decimal((total_secs % 60) as nat) + "s"@
    } else if total_secs >= 60 {
        decimal((total_secs / 60) as nat) + "m "@ + decimal((total_secs % 60) as nat) + "s"@
    } else if total_secs > 0 {
        decimal(total_secs as nat) + "."@ + zero_padded(millis as nat, 3) + "s"@
    } else {
        decimal(millis as nat) + "ms"@
    }
}

/// A span of time: whole seconds and the nanoseconds past them.
#[derive(Debug, Clone, Copy, PartialEq, Eq, Structural)]
pub struct Elapsed {
    pub secs: u64,
    pub nanos: u32,
}

impl Elapsed {
    /// The nanoseconds past the whole seconds make less than a second.
    pub open spec fn is_valid(&self) -> bool {
        self.nanos < 1_000_000_000
    }

    /// The whole milliseconds past the whole seconds.
    pub open spec fn subsec_millis(&self) -> u32 {
        (self.nanos / 1_000_000) as u32
    }
}

/// Time utilities.
pub struct TimeUtils;

impl TimeUtils {
    /// Milliseconds of an elapsed time since the epoch, as reported by the
    /// clock (`None` before the epoch).
    pub fn millis_since_epoch(elapsed: Option<(u64, u32)>) -> (r: u64)
        requires
            elapsed matches Some(t) ==> t.1 < 1_000_000_000,
        ensures
            r == millis_of(elapsed),
    {
        match elapsed {
            Some((secs, nanos)) => {
                let total: u128 = (secs as u128) * 1000 + (nanos as u128) / 1_000_000;
                (total % 0x1_0000_0000_0000_0000u128) as u64
            },
            None => 0,
        }
    }

    /// Get current Unix timestamp in milliseconds.
    pub fn now_millis() -> (r: u64)
        ensures
            exists|e: Option<(u64, u32)>| r == millis_of(e),
    {
        let e = unix_time();
        Self::millis_since_epoch(e)
    }

    /// Get current Unix timestamp in seconds.
    pub fn now_seconds() -> (r: u64)
        ensures
            exists|e: Option<(u64, u32)>| r == seconds_of(e),
    {
        let e = unix_time();
        let r = match e {
            Some((secs, _)) => secs,
            None => 0,
        };
        assert(r == seconds_of(e));
        r
    }

    /// Format whole seconds and milliseconds as human-readable text.
    pub fn format_duration_parts(total_secs: u64, millis: u32) -> (r: String)
        ensures
            r@ == duration_text(total_secs, millis),
    {
        if total_secs >= 3600 {
            let mut s = u64_to_string(total_secs / 3600);
            push_str(&mut s, "h ");
            push_str(&mut s, u64_to_string((total_secs % 3600) / 60).as_str());
            push_str(&mut s, "m ");
            push_str(&mut s, u64_to_string(total_secs % 60).as_str());
            push_str(&mut s, "s");
            s
        } else if total_secs >= 60 {
            let mut s = u64_to_string(total_secs / 60);
            push_str(&mut s, "m ");
            push_str(&mut s, u64_to_string(total_secs % 60).as_str());
            push_str(&mut s, "s");
            s
        } else if total_secs > 0 {
            let mut s = u64_to_string(total_secs);
            push_str(&mut s, ".");
            push_str(&mut s, u64_zero_padded(millis as u64, 3).as_str());
            push_str(&mut s, "s");
            s
        } else {
            let mut s = u64_to_string(millis as u64);
            push_str(&mut s, "ms");
            s
        }
    }

    /// Format duration as human-readable string: the whole seconds and the
    /// milliseconds past them.
    pub fn format_duration(duration: Elapsed) -> (r: String)
        requires
            duration.is_valid(),
        ensures
            r@ == duration_text(duration.secs, duration.subsec_millis()),
    {
        Self::format_duration_parts(duration.secs, duration.nanos / 1_000_000)
    }
}

// ---------------------------------------------------------------------------
// Identifiers
// ---------------------------------------------------------------------------

/// A lowercase hexadecimal digit character.
pub open spec fn is_lower_hex_char(c: char) -> bool {
    ('0' <= c && c <= '9') || ('a' <= c && c <= 'f')
}

/// The hyphenated lowercase text of a version 4 UUID: 8-4-4-4-12 hexadecimal
/// digits, '4' as the version digit, one of "89ab" as the variant digit.
pub open spec fn is_uuid_v4_text(u: Seq<char>) -> bool {
    &&& u.len() == 36
    &&& forall|i: int| 0 <= i < 36 && i != 8 && i != 13 && i != 18 && i != 23 ==> is_lower_hex_char(#[trigger] u[i])
    &&& u[8] == '-' && u[13] == '-' && u[18] == '-' && u[23] == '-'
    &&& u[14] == '4'
    &&& (u[19] == '8' || u[19] == '9' || u[19] == 'a' || u[19] == 'b')
}

/// The first sixteen hexadecimal digits of a hyphenated UUID text.
pub open spec fn uuid_prefix16(u: Seq<char>) -> Seq<char> {
    u.subrange(0, 8) + u.subrange(9, 13) + u.subrange(14, 18)
}

/// `Uuid::new_v4().to_string()`: a random version 4 UUID in hyphenated
/// lowercase form.
#[verifier::external_body]
fn new_uuid_v4_text() -> (r: String)
    ensures
        is_uuid_v4_text(r@),
{
    uuid::Uuid::new_v4().to_string()
}

/// Wrapping sum of the code points of the characters (a 32-bit hash).
pub open spec fn code_point_sum(s: Seq<char>) -> u32
    decreases s.len(),
{
    if s.len() == 0 {
        0
    } else {
        ((code_point_sum(s.drop_last()) as nat + (s.last() as u32) as nat) % 0x1_0000_0000) as u32
    }
}

/// A 32-bit value as eight lowercase hexadecimal digits.
pub open spec fn hex8_lower(v: u32) -> Seq<char> {
    hex2_lower((v / 0x100_0000) as u8) + hex2_lower(((v / 0x1_0000) % 256) as u8) + hex2_lower(
        ((v / 256) % 256) as u8,
    ) + hex2_lower((v % 256) as u8)
}

/// Session and connection identifier generation.
pub struct SessionIdGenerator;

impl SessionIdGenerator {
    /// The session identifier made from a UUID text: "serial_session_"
    /// followed by its first sixteen hexadecimal digits.
    pub fn session_id_from_uuid(uuid_text: &str) -> (r: String)
        requires
            is_uuid_v4_text(uuid_text@),
        ensures
            r@ == "serial_session_"@ + uuid_prefix16(uuid_text@),
    {
        let cs = chars_of(uuid_text);
        let mut digits: Vec<char> = Vec::new();
        let mut i: usize = 0;
        while i < cs.len()
            invariant
                cs@ == uuid_text@,
                is_uuid_v4_text(cs@),
                i <= 36,
                digits@ == (if i <= 8 {
                    cs@.subrange(0, i as int)
                } else if i <= 13 {
                    cs@.subrange(0, 8) + cs@.subrange(9, i as int)
                } else if i <= 18 {
                    cs@.subrange(0, 8) + cs@.subrange(9, 13) + cs@.subrange(14, i as int)
                } else if i <= 23 {
                    cs@.subrange(0, 8) + cs@.subrange(9, 13) + cs@.subrange(14, 18) + cs@.subrange(19, i as int)
                } else {
                    cs@.subrange(0, 8) + cs@.subrange(9, 13) + cs@.subrange(14, 18) + cs@.subrange(19, 23) + cs@.subrange(24, i as int)
                }),
            decreases cs@.len() - i,
        {
            if cs[i] != '-' {
                digits.push(cs[i]);
            }
            i = i + 1;
            proof {
                if i <= 8 {
                    assert(digits@ =~= cs@.subrange(0, i as int));
                } else if i <= 13 {
                    assert(digits@ =~= cs@.subrange(0, 8) + cs@.subrange(9, i as int));
                } else if i <= 18 {
                    assert(digits@ =~= cs@.subrange(0, 8) + cs@.subrange(9, 13) + cs@.subrange(14, i as int));
                } else if i <= 23 {
                    assert(digits@ =~= cs@.subrange(0, 8) + cs@.subrange(9, 13) + cs@.subrange(14, 18) + cs@.subrange(19, i as int));
                } else {
                    assert(digits@ =~= cs@.subrange(0, 8) + cs@.subrange(9, 13) + cs@.subrange(14, 18) + cs@.subrange(19, 23) + cs@.subrange(24, i as int));
                }
            }
        }
        let mut r = owned("serial_session_");
        let mut k: usize = 0;
        while k < 16
            invariant
                k <= 16,
                digits@.len() == 32,
                digits@.take(16) =~= uuid_prefix16(uuid_text@),
                r@ == "serial_session_"@ + digits@.take(k as int),
            decreases 16 - k,
        {
            push_char(&mut r, digits[k]);
            k = k + 1;
            assert(r@ =~= "serial_session_"@ + digits@.take(k as int));
        }
        r
    }

    /// Generate a unique session ID.
    pub fn generate() -> (r: String)
        ensures
            exists|u: Seq<char>| is_uuid_v4_text(u) && r@ == "serial_session_"@ + uuid_prefix16(u),
    {
        let u = new_uuid_v4_text();
        Self::session_id_from_uuid(u.as_str())
    }

    /// The connection identifier for a port at a timestamp:
    /// "conn_<timestamp>_<hash as 8 hex digits>".
    pub fn connection_id_at(port_name: &str, timestamp: u64) -> (r: String)
        ensures
            r@ == "conn_"@ + decimal(timestamp as nat) + "_"@ + hex8_lower(code_point_sum(port_name@)),
    {
        let cs = chars_of(port_name);
        let mut hash: u32 = 0;
        let mut i: usize = 0;
        while i < cs.len()
            invariant
                i <= cs@.len(),
                cs@ == port_name@,
                hash == code_point_sum(port_name@.take(i as int)),
            decreases cs@.len() - i,
        {
            proof {
                assert(port_name@.take(i + 1).drop_last() =~= port_name@.take(i as int));
            }
            hash = hash.wrapping_add(cs[i] as u32);
            i = i + 1;
        }
        assert(port_name@.take(cs@.len() as int) =~= port_name@);
        let mut s = owned("conn_");
        push_str(&mut s, u64_to_string(timestamp).as_str());
        push_str(&mut s, "_");
        push_hex2_lower(&mut s, (hash / 0x100_0000) as u8);
        push_hex2_lower(&mut s, ((hash / 0x1_0000) % 256) as u8);
        push_hex2_lower(&mut s, ((hash / 256) % 256) as u8);
        push_hex2_lower(&mut s, (hash % 256) as u8);
        s
    }

    /// Generate a connection ID from the port name and the current time.
    pub fn generate_connection_id(port_name: &str) -> (r: String)
        ensures
            exists|t: u64| r@ == "conn_"@ + decimal(t as nat) + "_"@ + hex8_lower(code_point_sum(port_name@)),
    {
        let timestamp = TimeUtils::now_millis();
        Self::connection_id_at(port_name, timestamp)
    }
}

// ---------------------------------------------------------------------------
// Strings
// ---------------------------------------------------------------------------

/// `s` without leading white space.
pub open spec fn trim_start(s: Seq<char>) -> Seq<char>
    decreases s.len(),
{
    if s.len() > 0 && is_whitespace(s[0]) {
        trim_start(s.skip(1))
    } else {
        s
    }
}

/// `s` without trailing white space.
pub open spec fn trim_end(s: Seq<char>) -> Seq<char>
    decreases s.len(),
{
    if s.len() > 0 && is_whitespace(s.last()) {
        trim_end(s.drop_last())
    } else {
        s
    }
}

/// `s` without leading or trailing white space (`str::trim`).
pub open spec fn trimmed(s: Seq<char>) -> Seq<char> {
    trim_end(trim_start(s))
}

/// The pieces of `s` between commas, empty ones included (`str::split(',')`).
pub open spec fn comma_pieces(s: Seq<char>) -> Seq<Seq<char>>
    decreases s.len(),
{
    if s.len() == 0 {
        seq![Seq::empty()]
    } else if s.last() == ',' {
        comma_pieces(s.drop_last()).push(Seq::empty())
    } else {
        let p = comma_pieces(s.drop_last());
        p.update(p.len() - 1, p.last().push(s.last()))
    }
}

/// The trimmed pieces that are not empty, in order.
pub open spec fn nonempty_trimmed(p: Seq<Seq<char>>) -> Seq<Seq<char>>
    decreases p.len(),
{
    if p.len() == 0 {
        Seq::empty()
    } else if trimmed(p.last()).len() > 0 {
        nonempty_trimmed(p.drop_last()).push(trimmed(p.last()))
    } else {
        nonempty_trimmed(p.drop_last())
    }
}

/// The values of a comma-separated list: pieces trimmed, empty ones dropped.
pub open spec fn csv_values(s: Seq<char>) -> Seq<Seq<char>> {
    nonempty_trimmed(comma_pieces(s))
}

proof fn lemma_comma_pieces_nonempty(s: Seq<char>)
    ensures
        comma_pieces(s).len() >= 1,
    decreases s.len(),
{
    if s.len() > 0 {
        lemma_comma_pieces_nonempty(s.drop_last());
    }
}

/// String utilities.
pub struct StringUtils;

impl StringUtils {
    /// Truncate string to a maximum length in bytes, ending it with "...".
    pub fn truncate(s: &str, max_len: usize) -> (r: String)
        requires
            (encode_utf8(s@).len() as usize) > max_len && max_len > 3 ==> vstd::utf8::is_char_boundary(
                encode_utf8(s@),
                max_len - 3,
            ),
        ensures
            (encode_utf8(s@).len() as usize) <= max_len ==> r@ == s@,
            (encode_utf8(s@).len() as usize) > max_len && max_len <= 3 ==> r@ == "..."@,
            (encode_utf8(s@).len() as usize) > max_len && max_len > 3 ==> r@ == decode_utf8(
                encode_utf8(s@).take(max_len - 3),
            ) + "..."@,
    {
        if s.len() <= max_len {
            owned(s)
        } else if max_len <= 3 {
            owned("...")
        } else {
            let (head, _) = s.split_at(max_len - 3);
            proof {
                vstd::utf8::encode_utf8_decode_utf8(head@);
                assert(encode_utf8(s@).subrange(0, max_len - 3) =~= encode_utf8(s@).take(max_len - 3));
            }
            concat2(head, "...")
        }
    }

    /// Sanitize string for safe display: control characters other than
    /// newline, carriage return and tab become '?'.
    pub fn sanitize(s: &str) -> (r: String)
        ensures
            r@ == sanitized(s@),
    {
        let cs = chars_of(s);
        let mut out = String::new();
        let mut i: usize = 0;
        while i < cs.len()
            invariant
                i <= cs@.len(),
                cs@ == s@,
                out@ == sanitized(s@).take(i as int),
            decreases cs@.len() - i,
        {
            let c = cs[i];
            if char_is_control(c) && c != '\n' && c != '\r' && c != '\t' {
                push_char(&mut out, '?');
            } else {
                push_char(&mut out, c);
            }
            i = i + 1;
            assert(out@ =~= sanitized(s@).take(i as int));
        }
        assert(sanitized(s@).take(cs@.len() as int) =~= sanitized(s@));
        out
    }

    /// `v` without leading and trailing white space.
    pub(crate) fn trim_chars(v: &Vec<char>) -> (r: Vec<char>)
        ensures
            r@ == trimmed(v@),
    {
        let mut a: usize = 0;
        assert(v@.skip(0) =~= v@);
        while a < v.len() && char_is_whitespace(v[a])
            invariant
                a <= v@.len(),
                trim_start(v@) == trim_start(v@.skip(a as int)),
            decreases v@.len() - a,
        {
            assert(v@.skip(a as int).skip(1) =~= v@.skip(a + 1));
            a = a + 1;
        }
        let mut b: usize = v.len();
        let ghost t = v@.skip(a as int);
        assert(trim_start(v@) == t) by {
            assert(v@.skip(0) =~= v@);
        }
        assert(v@.subrange(a as int, b as int) =~= t);
        while b > a && char_is_whitespace(v[b - 1])
            invariant
                a <= b <= v@.len(),
                t == v@.skip(a as int),
                trim_end(t) == trim_end(v@.subrange(a as int, b as int)),
            decreases b,
        {
            assert(v@.subrange(a as int, b as int).drop_last() =~= v@.subrange(a as int, b - 1));
            b = b - 1;
        }
        let mut out: Vec<char> = Vec::new();
        let mut k = a;
        while k < b
            invariant
                a <= k <= b <= v@.len(),
                out@ == v@.subrange(a as int, k as int),
            decreases b - k,
        {
            out.push(v[k]);
            k = k + 1;
            assert(out@ =~= v@.subrange(a as int, k as int));
        }
        out
    }

    /// Parse comma-separated values: pieces trimmed, empty ones dropped.
    pub fn parse_csv(s: &str) -> (r: Vec<String>)
        ensures
            r@.len() == csv_values(s@).len(),
            forall|i: int| 0 <= i < r@.len() ==> #[trigger] r@[i]@ == csv_values(s@)[i],
    {
        let cs = chars_of(s);
        // The pieces between commas.
        let mut pieces: Vec<Vec<char>> = Vec::new();
        let mut current: Vec<char> = Vec::new();
        let mut i: usize = 0;
        while i < cs.len()
            invariant
                i <= cs@.len(),
                cs@ == s@,
                pieces@.len() + 1 == comma_pieces(s@.take(i as int)).len(),
                forall|j: int| 0 <= j < pieces@.len() ==> #[trigger] pieces@[j]@ == comma_pieces(s@.take(i as int))[j],
                current@ == comma_pieces(s@.take(i as int)).last(),
            decreases cs@.len() - i,
        {
            proof {
                assert(s@.take(i + 1).drop_last() =~= s@.take(i as int));
                lemma_comma_pieces_nonempty(s@.take(i as int));
            }
            let c = cs[i];
            if c == ',' {
                let done = current;
                pieces.push(done);
                current = Vec::new();
            } else {
                current.push(c);
            }
            i = i + 1;
            proof {
                let p = comma_pieces(s@.take(i as int));
                assert forall|j: int| 0 <= j < pieces@.len() implies #[trigger] pieces@[j]@ == p[j] by {}
            }
        }
        assert(s@.take(cs@.len() as int) =~= s@);
        pieces.push(current);
        let ghost all = comma_pieces(s@);
        assert(pieces@.len() == all.len());
        assert forall|j: int| 0 <= j < pieces@.len() implies #[trigger] pieces@[j]@ == all[j] by {}
        // Trim them and keep the non-empty ones.
        let mut out: Vec<String> = Vec::new();
        let mut k: usize = 0;
        while k < pieces.len()
            invariant
                k <= pieces@.len(),
                pieces@.len() == all.len(),
                forall|j: int| 0 <= j < pieces@.len() ==> #[trigger] pieces@[j]@ == all[j],
                out@.len() == nonempty_trimmed(all.take(k as int)).len(),
                forall|j: int| 0 <= j < out@.len() ==> #[trigger] out@[j]@ == nonempty_trimmed(all.take(k as int))[j],
            decreases pieces@.len() - k,
        {
            proof {
                assert(all.take(k + 1).drop_last() =~= all.take(k as int));
                assert(all.take(k + 1).last() == all[k as int]);
            }
            let t = Self::trim_chars(&pieces[k]);
            if t.len() > 0 {
                out.push(string_of(&t));
            }
            k = k + 1;
        }
        assert(all.take(pieces@.len() as int) =~= all);
        out
    }
}

} // verus!
