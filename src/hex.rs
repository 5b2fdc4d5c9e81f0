//! Hexadecimal sRGB colour strings: `#RGB` (each digit doubled) or
//! `#RRGGBB`, one byte per channel, big-endian.

use vstd::prelude::*;

verus! {

/// Why a string is not a hexadecimal colour.
#[derive(Clone, Copy, Debug, PartialEq, Eq, Structural)]
pub enum HexError {
    /// The string is neither 4 (`#RGB`) nor 7 (`#RRGGBB`) characters long.
    BadLength,
    /// The string does not start with `#`.
    MissingHash,
    /// A character after the `#` is not a hexadecimal digit.
    BadDigit,
}

/// The sixteen digits used when writing a colour, upper case.
pub open spec fn upper_digits() -> Seq<char> {
    seq!['0', '1', '2', '3', '4', '5', '6', '7', '8', '9', 'A', 'B', 'C', 'D', 'E', 'F']
}

/// The upper-case digit for a nibble `d < 16`.
pub open spec fn hex_char(d: u8) -> char {
    upper_digits()[d as int]
}

/// Whether `c` is a hexadecimal digit, in either case.
pub open spec fn is_hex_digit(c: char) -> bool {
    ('0' <= c && c <= '9') || ('a' <= c && c <= 'f') || ('A' <= c && c <= 'F')
}

/// The value of a hexadecimal digit.
pub open spec fn digit_value(c: char) -> int {
    if '0' <= c && c <= '9' {
        c as int - '0' as int
    } else if 'a' <= c && c <= 'f' {
        c as int - 'a' as int + 10
    } else {
        c as int - 'A' as int + 10
    }
}

/// The byte written by the digits `hi` and `lo`.
pub open spec fn byte_of(hi: char, lo: char) -> int {
    16 * digit_value(hi) + digit_value(lo)
}

/// Every character after the leading one is a hexadecimal digit.
pub open spec fn digits_after_hash(s: Seq<char>) -> bool {
    forall|i: int| 1 <= i < s.len() ==> is_hex_digit(#[trigger] s[i])
}

/// The channels that a well-formed colour string of length 4 or 7 denotes.
pub open spec fn channels_of(s: Seq<char>) -> (u8, u8, u8) {
    if s.len() == 4 {
        (byte_of(s[1], s[1]) as u8, byte_of(s[2], s[2]) as u8, byte_of(s[3], s[3]) as u8)
    } else {
        (byte_of(s[1], s[2]) as u8, byte_of(s[3], s[4]) as u8, byte_of(s[5], s[6]) as u8)
    }
}

/// What reading `s` as a colour gives: its channels, or the first thing
/// wrong with it (length, then the `#`, then the digits).
pub open spec fn parse_hex(s: Seq<char>) -> Result<(u8, u8, u8), HexError> {
    if s.len() != 4 && s.len() != 7 {
        Err(HexError::BadLength)
    } else if s[0] != '#' {
        Err(HexError::MissingHash)
    } else if !digits_after_hash(s) {
        Err(HexError::BadDigit)
    } else {
        Ok(channels_of(s))
    }
}

/// Whether both nibbles of `v` are equal (0x00, 0x11, ..., 0xFF).
pub open spec fn doubled_nibble(v: u8) -> bool {
    v / 16 == v % 16
}

/// The canonical upper-case string of a colour: `#RGB` when every channel
/// is a doubled nibble, `#RRGGBB` otherwise.
pub open spec fn hex_form(r: u8, g: u8, b: u8) -> Seq<char> {
    if doubled_nibble(r) && doubled_nibble(g) && doubled_nibble(b) {
        seq!['#', hex_char(r % 16), hex_char(g % 16), hex_char(b % 16)]
    } else {
        seq![
            '#',
            hex_char(r / 16),
            hex_char(r % 16),
            hex_char(g / 16),
            hex_char(g % 16),
            hex_char(b / 16),
            hex_char(b % 16),
        ]
    }
}

/// The value of one digit, or `None` for a character that is not one.
fn digit_of(c: char) -> (r: Option<u8>)
    ensures
        r is Some <==> is_hex_digit(c),
        r is Some ==> r.unwrap() as int == digit_value(c),
{
    if '0' <= c && c <= '9' {
        Some((c as u32 - '0' as u32) as u8)
    } else if 'a' <= c && c <= 'f' {
        Some((c as u32 - 'a' as u32 + 10) as u8)
    } else if 'A' <= c && c <= 'F' {
        Some((c as u32 - 'A' as u32 + 10) as u8)
    } else {
        None
    }
}

/// Reads a colour written `#RGB` or `#RRGGBB` (digits in either case) into
/// its three channel bytes.
pub fn hex_to_rgb(s: &str) -> (r: Result<(u8, u8, u8), HexError>)
    ensures
        r == parse_hex(s@),
{
    let len = s.unicode_len();
    if len != 4 && len != 7 {
        return Err(HexError::BadLength);
    }
    if s.get_char(0) != '#' {
        return Err(HexError::MissingHash);
    }
    let mut d: Vec<u8> = Vec::new();
    let mut i: usize = 1;
    while i < len
        invariant
            len == s@.len(),
            len == 4 || len == 7,
            s@[0] == '#',
            1 <= i <= len,
            d@.len() == i - 1,
            forall|k: int| 1 <= k < i ==> is_hex_digit(#[trigger] s@[k]),
            forall|k: int| 1 <= k < i ==> d@[k - 1] as int == digit_value(#[trigger] s@[k]),
        decreases len - i,
    {
        let c = s.get_char(i);
        match digit_of(c) {
            Some(v) => d.push(v),
            None => {
                assert(!is_hex_digit(s@[i as int]));
                return Err(HexError::BadDigit);
            },
        }
        i = i + 1;
    }
    assert(digits_after_hash(s@));
    assert(forall|k: int| 0 <= k < d@.len() ==> d@[k] < 16) by {
        assert forall|k: int| 0 <= k < d@.len() implies d@[k] < 16 by {
            assert(is_hex_digit(s@[k + 1]));
        }
    }
    if len == 4 {
        Ok((d[0] * 17, d[1] * 17, d[2] * 17))
    } else {
        Ok((d[0] * 16 + d[1], d[2] * 16 + d[3], d[4] * 16 + d[5]))
    }
}

/// Appends the upper-case digit of the nibble `n` to `out`.
fn push_digit(out: &mut String, n: u8)
    requires
        n < 16,
    ensures
        final(out)@ == old(out)@.push(hex_char(n)),
{
    let digits = "0123456789ABCDEF";
    proof {
        reveal_strlit("0123456789ABCDEF");
        assert(digits@ =~= upper_digits());
    }
    let one = digits.substring_ascii(n as usize, n as usize + 1);
    assert(one@ =~= seq![hex_char(n)]);
    out.append(one);
}

/// Writes a colour as an upper-case hexadecimal string: `#RGB` when each
/// channel's two digits are equal, `#RRGGBB` otherwise.
pub fn rgb_to_hex(r: u8, g: u8, b: u8) -> (s: String)
    ensures
        s@ == hex_form(r, g, b),
{
    let mut s = String::from_str("#");
    proof {
        reveal_strlit("#");
    }
    if r / 16 == r % 16 && g / 16 == g % 16 && b / 16 == b % 16 {
        push_digit(&mut s, r % 16);
        push_digit(&mut s, g % 16);
        push_digit(&mut s, b % 16);
    } else {
        push_digit(&mut s, r / 16);
        push_digit(&mut s, r % 16);
        push_digit(&mut s, g / 16);
        push_digit(&mut s, g % 16);
        push_digit(&mut s, b / 16);
        push_digit(&mut s, b % 16);
    }
    assert(s@ =~= hex_form(r, g, b));
    s
}

/// Each upper-case digit reads back as the nibble it was written for.
proof fn lemma_digit_round_trip(n: u8)
    requires
        n < 16,
    ensures
        is_hex_digit(hex_char(n)),
        digit_value(hex_char(n)) == n as int,
{
    if n == 0 {
    } else if n == 1 {
    } else if n == 2 {
    } else if n == 3 {
    } else if n == 4 {
    } else if n == 5 {
    } else if n == 6 {
    } else if n == 7 {
    } else if n == 8 {
    } else if n == 9 {
    } else if n == 10 {
    } else if n == 11 {
    } else if n == 12 {
    } else if n == 13 {
    } else if n == 14 {
    } else {
    }
}

/// The two digits written for a byte read back as that byte, and so does a
/// single digit repeated when the byte is a doubled nibble.
proof fn lemma_byte_round_trip(v: u8)
    ensures
        is_hex_digit(hex_char(v / 16)),
        is_hex_digit(hex_char(v % 16)),
        byte_of(hex_char(v / 16), hex_char(v % 16)) == v as int,
        doubled_nibble(v) ==> byte_of(hex_char(v % 16), hex_char(v % 16)) == v as int,
{
    lemma_digit_round_trip(v / 16);
    lemma_digit_round_trip(v % 16);
}

/// Writing a colour and reading the string back gives the same three
/// channels; the written string is the four-character short form exactly
/// when every channel is a doubled nibble, and the seven-character form
/// otherwise.
pub proof fn lemma_hex_round_trip(r: u8, g: u8, b: u8)
    ensures
        parse_hex(hex_form(r, g, b)) == Ok::<(u8, u8, u8), HexError>((r, g, b)),
        hex_form(r, g, b).len() == 4 <==> (doubled_nibble(r) && doubled_nibble(g)
            && doubled_nibble(b)),
        hex_form(r, g, b).len() == 7 <==> !(doubled_nibble(r) && doubled_nibble(g)
            && doubled_nibble(b)),
{
    lemma_byte_round_trip(r);
    lemma_byte_round_trip(g);
    lemma_byte_round_trip(b);
    let s = hex_form(r, g, b);
    assert(digits_after_hash(s));
}

} // verus!
