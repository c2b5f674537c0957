//! Text building blocks: decimal and hexadecimal rendering of integers,
//! character classes, case folding and string assembly.

use vstd::prelude::*;

verus! {

/// The ASCII digit for a value below ten.
pub open spec fn digit_char(d: nat) -> char {
    ((d + 48) as u32) as char
}

/// Decimal rendering of a natural number, most significant digit first.
pub open spec fn decimal(n: nat) -> Seq<char>
    decreases n,
{
    if n < 10 {
        seq![digit_char(n)]
    } else {
        decimal(n / 10).push(digit_char(n % 10))
    }
}

/// Decimal rendering padded with leading zeros to at least `width` digits.
pub open spec fn zero_padded(n: nat, width: nat) -> Seq<char>
    decreases width,
{
    if decimal(n).len() >= width {
        decimal(n)
    } else {
        seq!['0'] + zero_padded(n, (width - 1) as nat)
    }
}

/// The lowercase hexadecimal digit for a value below sixteen.
pub open spec fn hex_digit_lower(d: nat) -> char {
    if d < 10 {
        ((d + 48) as u32) as char
    } else {
        ((d + 87) as u32) as char
    }
}

/// The uppercase hexadecimal digit for a value below sixteen.
pub open spec fn hex_digit_upper(d: nat) -> char {
    if d < 10 {
        ((d + 48) as u32) as char
    } else {
        ((d + 55) as u32) as char
    }
}

/// A byte as two lowercase hexadecimal digits, as `format!("{:02x}", b)` renders it.
pub open spec fn hex2_lower(b: u8) -> Seq<char> {
    seq![hex_digit_lower((b / 16) as nat), hex_digit_lower((b % 16) as nat)]
}

/// A 16-bit value as four uppercase hexadecimal digits, as `format!("{:04X}", v)` renders it.
pub open spec fn hex4_upper(v: u16) -> Seq<char> {
    seq![
        hex_digit_upper((v / 4096) as nat),
        hex_digit_upper(((v / 256) % 16) as nat),
        hex_digit_upper(((v / 16) % 16) as nat),
        hex_digit_upper((v % 16) as nat),
    ]
}

/// Unicode general category Cc, the class that `char::is_control` tests.
pub open spec fn is_control(c: char) -> bool {
    (c as u32) <= 0x1f || (0x7f <= (c as u32) && (c as u32) <= 0x9f)
}

/// The Unicode White_Space property, the class that `char::is_whitespace` tests.
pub open spec fn is_whitespace(c: char) -> bool {
    let u = c as u32;
    ||| 0x09 <= u && u <= 0x0d
    ||| u == 0x20
    ||| u == 0x85
    ||| u == 0xa0
    ||| u == 0x1680
    ||| 0x2000 <= u && u <= 0x200a
    ||| u == 0x2028
    ||| u == 0x2029
    ||| u == 0x202f
    ||| u == 0x205f
    ||| u == 0x3000
}

/// One character of `str::to_lowercase`, on every character whose lowercase
/// form holds an ASCII character: ASCII capitals, KELVIN SIGN (to 'k') and
/// LATIN CAPITAL I WITH DOT ABOVE (to 'i' and COMBINING DOT ABOVE). Every other
/// character is kept: its lowercase form holds no ASCII character, so the
/// comparisons with ASCII words that this crate makes come out the same.
pub open spec fn fold_char(c: char) -> Seq<char> {
    if 'A' <= c && c <= 'Z' {
        seq![((c as u32) + 32) as char]
    } else if c == '\u{212A}' {
        seq!['k']
    } else if c == '\u{130}' {
        seq!['i', '\u{307}']
    } else {
        seq![c]
    }
}

/// Case folding of a whole string, character by character (see [`fold_char`]).
pub open spec fn folded(s: Seq<char>) -> Seq<char>
    decreases s.len(),
{
    if s.len() == 0 {
        Seq::empty()
    } else {
        folded(s.drop_last()) + fold_char(s.last())
    }
}

/// `needle` occurs in `hay` as a contiguous run.
pub open spec fn contains_run<T>(hay: Seq<T>, needle: Seq<T>) -> bool {
    exists|i: int| 0 <= i && i + needle.len() <= hay.len() && #[trigger] hay.subrange(i, i + needle.len()) == needle
}

#[verifier::external_body]
pub(crate) fn push_char(s: &mut String, c: char)
    ensures
        final(s)@ == old(s)@.push(c),
{
    s.push(c);
}

/// Appends `t` to `s`.
pub fn push_str(s: &mut String, t: &str)
    ensures
        final(s)@ == old(s)@ + t@,
{
    s.append(t);
}

/// A fresh string holding the characters of `t`.
pub fn owned(t: &str) -> (r: String)
    ensures
        r@ == t@,
{
    t.to_owned()
}

/// The concatenation of two strings.
pub fn concat2(a: &str, b: &str) -> (r: String)
    ensures
        r@ == a@ + b@,
{
    let mut s = owned(a);
    push_str(&mut s, b);
    s
}

/// A string holding the characters of `v`.
pub fn string_of(v: &Vec<char>) -> (r: String)
    ensures
        r@ == v@,
{
    let mut s = String::new();
    let mut i: usize = 0;
    while i < v.len()
        invariant
            i <= v.len(),
            s@ == v@.take(i as int),
        decreases v.len() - i,
    {
        push_char(&mut s, v[i]);
        i = i + 1;
        assert(s@ =~= v@.take(i as int));
    }
    assert(v@.take(v.len() as int) =~= v@);
    s
}

/// The characters of `s`, in order.
pub fn chars_of(s: &str) -> (r: Vec<char>)
    ensures
        r@ == s@,
{
    let mut v: Vec<char> = Vec::new();
    for c in it: s.chars()
        invariant
            it.seq() == s@,
            v@ == s@.take(it.index() as int),
    {
        v.push(c);
    }
    v
}

/// The ASCII digit for `d < 10`.
pub fn digit(d: u64) -> (c: char)
    requires
        d < 10,
    ensures
        c == digit_char(d as nat),
{
    ((d as u8) + 48) as char
}

/// Renders `n` in decimal, as `n.to_string()` does.
pub fn u64_to_string(n: u64) -> (r: String)
    ensures
        r@ == decimal(n as nat),
    decreases n,
{
    if n < 10 {
        let mut s = String::new();
        push_char(&mut s, digit(n));
        assert(s@ =~= decimal(n as nat));
        s
    } else {
        let mut s = u64_to_string(n / 10);
        push_char(&mut s, digit(n % 10));
        s
    }
}

/// Renders `n` in decimal, as `n.to_string()` does.
pub fn usize_to_string(n: usize) -> (r: String)
    ensures
        r@ == decimal(n as nat),
{
    u64_to_string(n as u64)
}

/// Renders `n` in decimal with at least `width` digits.
pub fn u64_zero_padded(n: u64, width: usize) -> (r: String)
    ensures
        r@ == zero_padded(n as nat, width as nat),
    decreases width,
{
    let s = u64_to_string(n);
    if s.unicode_len() >= width {
        s
    } else {
        let rest = u64_zero_padded(n, width - 1);
        let mut out = String::new();
        push_char(&mut out, '0');
        push_str(&mut out, rest.as_str());
        assert(out@ =~= seq!['0'] + rest@);
        out
    }
}

/// The lowercase hexadecimal digit for `d < 16`.
pub fn hex_lower_char(d: u8) -> (c: char)
    requires
        d < 16,
    ensures
        c == hex_digit_lower(d as nat),
{
    if d < 10 {
        (d + 48) as char
    } else {
        (d + 87) as char
    }
}

/// The uppercase hexadecimal digit for `d < 16`.
pub fn hex_upper_char(d: u16) -> (c: char)
    requires
        d < 16,
    ensures
        c == hex_digit_upper(d as nat),
{
    if d < 10 {
        ((d as u8) + 48) as char
    } else {
        ((d as u8) + 55) as char
    }
}

/// Appends the two lowercase hexadecimal digits of `b` to `s`.
pub fn push_hex2_lower(s: &mut String, b: u8)
    ensures
        final(s)@ == old(s)@ + hex2_lower(b),
{
    push_char(s, hex_lower_char(b / 16));
    push_char(s, hex_lower_char(b % 16));
    assert(s@ =~= old(s)@ + hex2_lower(b));
}

/// Appends the four uppercase hexadecimal digits of `v` to `s`.
pub fn push_hex4_upper(s: &mut String, v: u16)
    ensures
        final(s)@ == old(s)@ + hex4_upper(v),
{
    push_char(s, hex_upper_char(v / 4096));
    push_char(s, hex_upper_char((v / 256) % 16));
    push_char(s, hex_upper_char((v / 16) % 16));
    push_char(s, hex_upper_char(v % 16));
    assert(s@ =~= old(s)@ + hex4_upper(v));
}

/// Tests whether `c` is a control character (category Cc).
pub fn char_is_control(c: char) -> (r: bool)
    ensures
        r == is_control(c),
{
    let u = c as u32;
    u <= 0x1f || (0x7f <= u && u <= 0x9f)
}

/// Tests whether `c` is white space (property White_Space).
pub fn char_is_whitespace(c: char) -> (r: bool)
    ensures
        r == is_whitespace(c),
{
    let u = c as u32;
    (0x09 <= u && u <= 0x0d) || u == 0x20 || u == 0x85 || u == 0xa0 || u == 0x1680 || (0x2000 <= u
        && u <= 0x200a) || u == 0x2028 || u == 0x2029 || u == 0x202f || u == 0x205f || u == 0x3000
}

/// The case-folded characters of `s` (see [`folded`]).
pub fn fold_case(s: &str) -> (r: Vec<char>)
    ensures
        r@ == folded(s@),
{
    let cs = chars_of(s);
    let mut out: Vec<char> = Vec::new();
    let mut i: usize = 0;
    while i < cs.len()
        invariant
            i <= cs.len(),
            cs@ == s@,
            out@ == folded(s@.take(i as int)),
        decreases cs.len() - i,
    {
        let c = cs[i];
        proof {
            assert(s@.take(i + 1).drop_last() =~= s@.take(i as int));
        }
        if 'A' <= c && c <= 'Z' {
            out.push(((c as u32) + 32) as u8 as char);
        } else if c == '\u{212A}' {
            out.push('k');
        } else if c == '\u{130}' {
            out.push('i');
            out.push('\u{307}');
        } else {
            out.push(c);
        }
        proof {
            assert(out@ =~= folded(s@.take(i as int)) + fold_char(c));
        }
        i = i + 1;
    }
    assert(s@.take(cs.len() as int) =~= s@);
    out
}

/// Tests whether `v` holds exactly the characters of `w`.
pub fn chars_equal(v: &Vec<char>, w: &str) -> (r: bool)
    ensures
        r == (v@ == w@),
{
    let ws = chars_of(w);
    if v.len() != ws.len() {
        return false;
    }
    let mut i: usize = 0;
    while i < v.len()
        invariant
            i <= v.len(),
            v.len() == ws.len(),
            ws@ == w@,
            forall|j: int| 0 <= j < i ==> v@[j] == ws@[j],
        decreases v.len() - i,
    {
        if v[i] != ws[i] {
            return false;
        }
        i = i + 1;
    }
    assert(v@ =~= ws@);
    true
}

/// Tests whether `needle` occurs in `hay`.
pub fn contains_chars(hay: &Vec<char>, needle: &Vec<char>) -> (r: bool)
    ensures
        r == contains_run(hay@, needle@),
{
    if needle.len() > hay.len() {
        return false;
    }
    let mut i: usize = 0;
    while i <= hay.len() - needle.len()
        invariant
            needle.len() <= hay.len(),
            i <= hay.len() - needle.len() + 1,
            forall|k: int| 0 <= k < i ==> #[trigger] hay@.subrange(k, k + needle@.len()) != needle@,
        decreases hay.len() - i,
    {
        let mut j: usize = 0;
        let mut same = true;
        while j < needle.len()
            invariant
                i + needle.len() <= hay.len(),
                j <= needle.len(),
                same == (forall|m: int| 0 <= m < j ==> hay@[i + m] == needle@[m]),
            decreases needle.len() - j,
        {
            if hay[i + j] != needle[j] {
                same = false;
            }
            j = j + 1;
        }
        if same {
            assert(hay@.subrange(i as int, i + needle@.len()) =~= needle@);
            return true;
        }
        assert(hay@.subrange(i as int, i + needle@.len()) != needle@) by {
            let m = choose|m: int| 0 <= m < needle.len() && hay@[i + m] != needle@[m];
            assert(hay@.subrange(i as int, i + needle@.len())[m] != needle@[m]);
        }
        i = i + 1;
    }
    assert forall|k: int| 0 <= k && k + needle@.len() <= hay@.len() implies #[trigger] hay@.subrange(
        k,
        k + needle@.len(),
    ) != needle@ by {}
    false
}

/// Tests whether the characters of `w` occur in `hay`.
pub fn contains_word(hay: &Vec<char>, w: &str) -> (r: bool)
    ensures
        r == contains_run(hay@, w@),
{
    let ws = chars_of(w);
    contains_chars(hay, &ws)
}

} // verus!
