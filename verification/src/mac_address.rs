//! A compact 6-byte device address and its canonical text form,
//! six colon-separated uppercase hex octets.

use crate::text::{
    chars_of, closed_parts, digits, join_closed, last_part, lemma_join_split, lemma_split_append,
    push_unsigned, split, split_chars, string_of, views,
};
use std::str::FromStr;
use vstd::prelude::*;
use vstd::string::StringExecFns;

verus! {

/// A Bluetooth device address, most significant octet first.
#[derive(Debug, Clone, Copy, PartialEq, Eq, PartialOrd, Ord, Hash, Default)]
pub struct MacAddress(pub [u8; 6]);

/// Why a text is not a device address.
#[derive(Debug, PartialEq)]
pub enum ParseMacError {
    /// The text does not have six colon-separated parts; holds the number found.
    InvalidLength(usize),
    /// The part at this index is not two bytes long.
    InvalidPartLength(usize),
    /// This part, two bytes long, is not two hex digits.
    InvalidHex(String),
}

/// The one-line text of a parse error.
pub open spec fn parse_error_text(e: ParseMacError) -> Seq<char> {
    match e {
        ParseMacError::InvalidLength(n) => "invalid MAC address: expected 6 parts, got "@ + digits(
            n as nat,
        ),
        ParseMacError::InvalidPartLength(i) => "invalid MAC address: part "@ + digits(i as nat)
            + " has wrong length"@,
        ParseMacError::InvalidHex(t) => "invalid MAC address: '"@ + t@ + "' is not valid hex"@,
    }
}

impl ParseMacError {
    /// The error as one line of text.
    pub fn to_string(&self) -> (s: String)
        ensures
            s@ == parse_error_text(*self),
    {
        match self {
            ParseMacError::InvalidLength(n) => {
                let mut s = "invalid MAC address: expected 6 parts, got ".to_owned();
                push_unsigned(&mut s, *n as u128);
                s
            },
            ParseMacError::InvalidPartLength(i) => {
                let mut s = "invalid MAC address: part ".to_owned();
                push_unsigned(&mut s, *i as u128);
                s.append(" has wrong length");
                s
            },
            ParseMacError::InvalidHex(t) => "invalid MAC address: '".to_owned().concat(
                t.as_str(),
            ).concat("' is not valid hex"),
        }
    }
}

/// The value of a hex digit, upper or lower case.
pub open spec fn hex_digit_value(c: char) -> Option<u8> {
    if '0' <= c <= '9' {
        Some((c as int - '0' as int) as u8)
    } else if 'a' <= c <= 'f' {
        Some((c as int - 'a' as int + 10) as u8)
    } else if 'A' <= c <= 'F' {
        Some((c as int - 'A' as int + 10) as u8)
    } else {
        None
    }
}

/// The uppercase hex digit of a value below sixteen.
pub open spec fn hex_digit_upper(n: int) -> char {
    if n < 10 {
        ('0' as int + n) as char
    } else {
        ('A' as int + n - 10) as char
    }
}

/// A part is an octet when it is two hex digits.
pub open spec fn is_octet(p: Seq<char>) -> bool {
    p.len() == 2 && hex_digit_value(p[0]) is Some && hex_digit_value(p[1]) is Some
}

/// The byte that two hex digits spell.
pub open spec fn octet_value(p: Seq<char>) -> u8 {
    (hex_digit_value(p[0])->0 * 16 + hex_digit_value(p[1])->0) as u8
}

/// The two uppercase hex digits of a byte.
pub open spec fn octet_text(b: u8) -> Seq<char> {
    seq![hex_digit_upper(b as int / 16), hex_digit_upper(b as int % 16)]
}

/// A text is an address when it has six parts and each is an octet.
pub open spec fn is_address_text(s: Seq<char>) -> bool {
    let parts = split(s, ':');
    parts.len() == 6 && forall|i: int| 0 <= i < 6 ==> is_octet(#[trigger] parts[i])
}

/// The six bytes that an address text spells.
pub open spec fn address_bytes(s: Seq<char>) -> Seq<u8> {
    Seq::new(6, |i: int| octet_value(split(s, ':')[i]))
}

/// The canonical text of six bytes: `AA:BB:CC:DD:EE:FF`.
pub open spec fn address_text(b: Seq<u8>) -> Seq<char> {
    octet_text(b[0]).push(':') + octet_text(b[1]).push(':') + octet_text(b[2]).push(':')
        + octet_text(b[3]).push(':') + octet_text(b[4]).push(':') + octet_text(b[5])
}

/// A lowercase ASCII letter turned to upper case; any other character unchanged.
pub open spec fn ascii_upper(c: char) -> char {
    if 'a' <= c <= 'z' {
        (c as int - 32) as char
    } else {
        c
    }
}

/// The 48-bit number whose big-endian bytes are `b`.
pub open spec fn address_number(b: Seq<u8>) -> int {
    ((((b[0] as int * 256 + b[1] as int) * 256 + b[2] as int) * 256 + b[3] as int) * 256
        + b[4] as int) * 256 + b[5] as int
}

/// The number of bytes that a character takes in a text.
pub open spec fn utf8_length(c: char) -> nat {
    if (c as u32) < 0x80 {
        1
    } else if (c as u32) < 0x800 {
        2
    } else if (c as u32) < 0x1_0000 {
        3
    } else {
        4
    }
}

/// The number of bytes that a run of characters takes in a text.
pub open spec fn byte_length(s: Seq<char>) -> nat
    decreases s.len(),
{
    if s.len() == 0 {
        0
    } else {
        byte_length(s.drop_last()) + utf8_length(s.last())
    }
}

/// A run of characters takes at least one byte for each.
pub proof fn lemma_byte_length_at_least(s: Seq<char>)
    ensures
        byte_length(s) >= s.len(),
    decreases s.len(),
{
    if s.len() > 0 {
        lemma_byte_length_at_least(s.drop_last());
    }
}

/// An octet is two bytes long.
pub proof fn lemma_octet_is_two_bytes(p: Seq<char>)
    requires
        is_octet(p),
    ensures
        byte_length(p) == 2,
{
    reveal_with_fuel(byte_length, 3);
    assert(p.drop_last().drop_last().len() == 0);
    assert(p.drop_last().last() == p[0]);
}

/// Whether `r` is what reading the text `s` as an address gives.
///
/// The text is cut at every colon. Anything but six parts is
/// `InvalidLength` with the number of parts; otherwise the first part that
/// is not an octet decides: `InvalidPartLength` with its index when it is
/// not two bytes long, else `InvalidHex` with the part itself.
pub open spec fn is_parse_of(r: Result<MacAddress, ParseMacError>, s: Seq<char>) -> bool {
    let parts = split(s, ':');
    match r {
        Ok(m) => is_address_text(s) && m@ == address_bytes(s),
        Err(ParseMacError::InvalidLength(n)) => n != 6 && n == parts.len(),
        Err(ParseMacError::InvalidPartLength(i)) => {
            &&& parts.len() == 6
            &&& i < 6
            &&& byte_length(parts[i as int]) != 2
            &&& forall|j: int| 0 <= j < i ==> is_octet(#[trigger] parts[j])
        },
        Err(ParseMacError::InvalidHex(t)) => {
            &&& parts.len() == 6
            &&& exists|i: int|
                {
                    &&& 0 <= i < 6
                    &&& t@ == #[trigger] parts[i]
                    &&& byte_length(t@) == 2
                    &&& !is_octet(t@)
                    &&& forall|j: int| 0 <= j < i ==> is_octet(#[trigger] parts[j])
                }
        },
    }
}

/// A text is read as an address exactly when it is an address text: each
/// error stands for a text that is none.
pub proof fn lemma_parse_succeeds_on_address_text(
    r: Result<MacAddress, ParseMacError>,
    s: Seq<char>,
)
    requires
        is_parse_of(r, s),
    ensures
        r is Ok <==> is_address_text(s),
{
    let parts = split(s, ':');
    match r {
        Ok(_) => {},
        Err(ParseMacError::InvalidLength(_)) => {},
        Err(ParseMacError::InvalidPartLength(i)) => {
            if is_octet(parts[i as int]) {
                lemma_octet_is_two_bytes(parts[i as int]);
            }
        },
        Err(ParseMacError::InvalidHex(t)) => {},
    }
}

fn is_two_bytes(part: &Vec<char>) -> (r: bool)
    ensures
        r == (byte_length(part@) == 2),
{
    proof {
        lemma_byte_length_at_least(part@);
        reveal_with_fuel(byte_length, 3);
    }
    if part.len() == 1 {
        let c: u32 = part[0] as u32;
        assert(part@.drop_last().len() == 0);
        assert(part@.last() == part@[0]);
        0x80 <= c && c < 0x800
    } else if part.len() == 2 {
        let first: u32 = part[0] as u32;
        let second: u32 = part[1] as u32;
        assert(part@.drop_last().drop_last().len() == 0);
        assert(part@.drop_last().last() == part@[0]);
        assert(part@.last() == part@[1]);
        first < 0x80 && second < 0x80
    } else {
        false
    }
}

fn hex_value(c: char) -> (r: Option<u8>)
    ensures
        r == hex_digit_value(c),
{
    if '0' <= c && c <= '9' {
        Some((c as u32 - '0' as u32) as u8)
    } else if 'a' <= c && c <= 'f' {
        Some((c as u32 - 'a' as u32 + 10) as u8)
    } else if 'A' <= c && c <= 'F' {
        Some((c as u32 - 'A' as u32 + 10) as u8)
    } else {
        None
    }
}

fn hex_upper(n: u8) -> (c: char)
    requires
        n < 16,
    ensures
        c == hex_digit_upper(n as int),
{
    if n < 10 {
        (48u8 + n) as char
    } else {
        (55u8 + n) as char
    }
}

fn push_octet(out: &mut String, b: u8)
    ensures
        final(out)@ == old(out)@ + octet_text(b),
{
    out.push(hex_upper(b / 16));
    out.push(hex_upper(b % 16));
    assert(out@ =~= old(out)@ + octet_text(b));
}

impl MacAddress {
    /// The six bytes, most significant first.
    pub open spec fn view(&self) -> Seq<u8> {
        self.0@
    }

    /// Reads an address from its text form. Hex digits may be of either case.
    pub fn parse(s: &str) -> (r: Result<MacAddress, ParseMacError>)
        ensures
            is_parse_of(r, s@),
            r is Ok <==> is_address_text(s@),
    {
        let r = MacAddress::parse_parts(s);
        proof {
            lemma_parse_succeeds_on_address_text(r, s@);
        }
        r
    }

    fn parse_parts(s: &str) -> (r: Result<MacAddress, ParseMacError>)
        ensures
            is_parse_of(r, s@),
    {
        let cs = chars_of(s);
        let parts = split_chars(&cs, ':');
        if parts.len() != 6 {
            return Err(ParseMacError::InvalidLength(parts.len()));
        }
        let ghost sp = split(s@, ':');
        let mut bytes: [u8; 6] = [0u8; 6];
        let mut i: usize = 0;
        while i < 6
            invariant
                i <= 6,
                parts.len() == 6,
                views(parts@) == sp,
                sp == split(s@, ':'),
                forall|j: int| 0 <= j < i ==> is_octet(#[trigger] sp[j]),
                forall|j: int| 0 <= j < i ==> bytes@[j] == octet_value(#[trigger] sp[j]),
            decreases 6 - i,
        {
            let part = &parts[i];
            assert(part@ == sp[i as int]);
            if !is_two_bytes(part) {
                return Err(ParseMacError::InvalidPartLength(i));
            }
            let octet = if part.len() == 2 {
                match (hex_value(part[0]), hex_value(part[1])) {
                    (Some(h), Some(l)) => Some(h * 16 + l),
                    _ => None,
                }
            } else {
                None
            };
            match octet {
                Some(b) => {
                    bytes[i] = b;
                },
                None => {
                    let t = string_of(part);
                    assert(!is_octet(t@));
                    return Err(ParseMacError::InvalidHex(t));
                },
            }
            i += 1;
        }
        let m = MacAddress(bytes);
        assert(m@ == address_bytes(s@));
        Ok(m)
    }

    /// The canonical text form: six uppercase hex octets with colons between.
    pub fn to_string(&self) -> (s: String)
        ensures
            s@ == address_text(self@),
    {
        let mut out = String::new();
        push_octet(&mut out, self.0[0]);
        out.push(':');
        push_octet(&mut out, self.0[1]);
        out.push(':');
        push_octet(&mut out, self.0[2]);
        out.push(':');
        push_octet(&mut out, self.0[3]);
        out.push(':');
        push_octet(&mut out, self.0[4]);
        out.push(':');
        push_octet(&mut out, self.0[5]);
        assert(out@ =~= address_text(self@));
        out
    }

    /// The address as a 48-bit number, most significant octet first.
    pub fn to_u64(&self) -> (n: u64)
        ensures
            n == address_number(self@),
            n < 0x1_0000_0000_0000,
    {
        let b = &self.0;
        let mut n: u64 = b[0] as u64;
        n = n * 256 + b[1] as u64;
        n = n * 256 + b[2] as u64;
        n = n * 256 + b[3] as u64;
        n = n * 256 + b[4] as u64;
        n = n * 256 + b[5] as u64;
        n
    }
}

/// Different addresses have different numbers.
pub proof fn lemma_address_number_injective(a: Seq<u8>, b: Seq<u8>)
    requires
        a.len() == 6,
        b.len() == 6,
        address_number(a) == address_number(b),
    ensures
        a == b,
{
    assert(a[5] == b[5]);
    assert(a[4] == b[4]);
    assert(a[3] == b[3]);
    assert(a[2] == b[2]);
    assert(a[1] == b[1]);
    assert(a[0] == b[0]);
    assert(a =~= b);
}

/// A hex digit of either case has the value whose uppercase digit is its upper case.
pub proof fn lemma_hex_digit(c: char)
    requires
        hex_digit_value(c) is Some,
    ensures
        hex_digit_value(c)->0 < 16,
        hex_digit_upper(hex_digit_value(c)->0 as int) == ascii_upper(c),
        c != ':',
{
}

/// An uppercase hex digit has the value it was made from.
pub proof fn lemma_hex_upper(n: int)
    requires
        0 <= n < 16,
    ensures
        hex_digit_value(hex_digit_upper(n)) == Some(n as u8),
        hex_digit_upper(n) != ':',
{
}

/// The text of a byte is an octet that spells the byte.
pub proof fn lemma_octet_text(b: u8)
    ensures
        is_octet(octet_text(b)),
        octet_value(octet_text(b)) == b,
        !octet_text(b).contains(':'),
{
    lemma_hex_upper(b as int / 16);
    lemma_hex_upper(b as int % 16);
}

/// An octet of either case spells a byte whose text is the octet in upper case.
pub proof fn lemma_octet_value(p: Seq<char>)
    requires
        is_octet(p),
    ensures
        octet_text(octet_value(p)) == p.map_values(|c: char| ascii_upper(c)),
        !p.contains(':'),
{
    lemma_hex_digit(p[0]);
    lemma_hex_digit(p[1]);
    let h = hex_digit_value(p[0])->0 as int;
    let l = hex_digit_value(p[1])->0 as int;
    assert((h * 16 + l) / 16 == h && (h * 16 + l) % 16 == l);
    assert(octet_text(octet_value(p)) =~= p.map_values(|c: char| ascii_upper(c)));
}

proof fn lemma_split_step(s: Seq<char>, p: Seq<char>, sep: char)
    requires
        !p.contains(sep),
    ensures
        closed_parts(s + p.push(sep), sep) == closed_parts(s, sep).push(last_part(s, sep) + p),
        last_part(s + p.push(sep), sep) == Seq::<char>::empty(),
{
    lemma_split_append(s, p, sep);
    let t = s + p.push(sep);
    assert(t.drop_last() == s + p);
    assert(t.last() == sep);
}

/// Round trip from bytes: the canonical text of any six bytes is an address
/// text, and it spells those bytes.
pub proof fn lemma_parse_of_text(b: Seq<u8>)
    requires
        b.len() == 6,
    ensures
        is_address_text(address_text(b)),
        address_bytes(address_text(b)) == b,
{
    let e = Seq::<char>::empty();
    let part0 = octet_text(b[0]);
    let part1 = octet_text(b[1]);
    let part2 = octet_text(b[2]);
    let part3 = octet_text(b[3]);
    let part4 = octet_text(b[4]);
    let part5 = octet_text(b[5]);
    lemma_octet_text(b[0]);
    lemma_octet_text(b[1]);
    lemma_octet_text(b[2]);
    lemma_octet_text(b[3]);
    lemma_octet_text(b[4]);
    lemma_octet_text(b[5]);
    let s1 = e + part0.push(':');
    let s2 = s1 + part1.push(':');
    let s3 = s2 + part2.push(':');
    let s4 = s3 + part3.push(':');
    let s5 = s4 + part4.push(':');
    let s6 = s5 + part5;
    lemma_split_step(e, part0, ':');
    lemma_split_step(s1, part1, ':');
    lemma_split_step(s2, part2, ':');
    lemma_split_step(s3, part3, ':');
    lemma_split_step(s4, part4, ':');
    lemma_split_append(s5, part5, ':');
    assert(e + part0 == part0 && e + part1 == part1 && e + part2 == part2 && e + part3 == part3 && e + part4 == part4 && e + part5
        == part5);
    assert(s6 == address_text(b));
    let parts = split(s6, ':');
    assert(parts == seq![part0, part1, part2, part3, part4, part5]);
    assert(address_bytes(s6) =~= b);
}

/// Round trip from text: the canonical text of the bytes that an address
/// text spells is that text with its hex digits in upper case.
pub proof fn lemma_text_of_parse(s: Seq<char>)
    requires
        is_address_text(s),
    ensures
        address_bytes(s).len() == 6,
        address_text(address_bytes(s)) == s.map_values(|c: char| ascii_upper(c)),
{
    let parts = split(s, ':');
    let cp = closed_parts(s, ':');
    lemma_join_split(s, ':');
    assert(cp == parts.drop_last());
    assert(last_part(s, ':') == parts[5]);
    reveal_with_fuel(join_closed, 6);
    let part0 = parts[0];
    let part1 = parts[1];
    let part2 = parts[2];
    let part3 = parts[3];
    let part4 = parts[4];
    let part5 = parts[5];
    assert(cp.drop_last().drop_last().drop_last().drop_last().drop_last().len() == 0);
    assert(cp[4] == part4 && cp.drop_last()[3] == part3 && cp.drop_last().drop_last()[2] == part2
        && cp.drop_last().drop_last().drop_last()[1] == part1
        && cp.drop_last().drop_last().drop_last().drop_last()[0] == part0);
    let e = Seq::<char>::empty();
    assert(join_closed(cp, ':') == e + part0.push(':') + part1.push(':') + part2.push(':') + part3.push(':')
        + part4.push(':'));
    assert(s == e + part0.push(':') + part1.push(':') + part2.push(':') + part3.push(':') + part4.push(':') + part5);
    lemma_octet_value(part0);
    lemma_octet_value(part1);
    lemma_octet_value(part2);
    lemma_octet_value(part3);
    lemma_octet_value(part4);
    lemma_octet_value(part5);
    let b = address_bytes(s);
    assert(address_text(b) =~= s.map_values(|c: char| ascii_upper(c)));
}

impl From<[u8; 6]> for MacAddress {
    fn from(bytes: [u8; 6]) -> (m: Self) {
        MacAddress(bytes)
    }
}

impl vstd::std_specs::convert::FromSpecImpl<[u8; 6]> for MacAddress {
    open spec fn obeys_from_spec() -> bool {
        true
    }

    open spec fn from_spec(bytes: [u8; 6]) -> Self {
        MacAddress(bytes)
    }
}

impl FromStr for MacAddress {
    type Err = ParseMacError;

    fn from_str(s: &str) -> (r: Result<Self, ParseMacError>)
        ensures
            is_parse_of(r, s@),
            r is Ok <==> is_address_text(s@),
    {
        MacAddress::parse(s)
    }
}

} // verus!
