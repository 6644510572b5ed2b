//! Hardware (link-layer) addresses.
//!
//! An address is six raw octets. Its accepted textual forms are twelve hex
//! digits, either bare or as six two-digit groups joined consistently by `:`
//! or by `-`; parsing is case-insensitive. The canonical text is lowercase
//! pairs joined by `:`.

use vstd::prelude::*;
use vstd::string::StrSliceExecFns;
use vstd::string::StringExecFns;

verus! {

/// A 6-octet link-layer (MAC) address.
#[derive(Clone, Copy, Debug, Hash, PartialEq, Eq, Structural)]
pub struct HardwareAddr {
    o0: u8,
    o1: u8,
    o2: u8,
    o3: u8,
    o4: u8,
    o5: u8,
}

impl View for HardwareAddr {
    type V = Seq<u8>;

    closed spec fn view(&self) -> Seq<u8> {
        seq![self.o0, self.o1, self.o2, self.o3, self.o4, self.o5]
    }
}

impl HardwareAddr {
    /// An address from its six octets, most significant first.
    pub fn new(o0: u8, o1: u8, o2: u8, o3: u8, o4: u8, o5: u8) -> (r: Self)
        ensures
            r@ == seq![o0, o1, o2, o3, o4, o5],
    {
        HardwareAddr { o0, o1, o2, o3, o4, o5 }
    }

    /// Octet number `i`, most significant first.
    pub fn octet(&self, i: usize) -> (b: u8)
        requires
            i < 6,
        ensures
            b == self@[i as int],
    {
        if i == 0 {
            self.o0
        } else if i == 1 {
            self.o1
        } else if i == 2 {
            self.o2
        } else if i == 3 {
            self.o3
        } else if i == 4 {
            self.o4
        } else {
            self.o5
        }
    }

    /// The view of an address always has exactly six octets.
    pub proof fn lemma_view_len(&self)
        ensures
            self@.len() == 6,
    {
    }
}

/// Why an address text was rejected.
#[derive(Clone, Copy, Debug, PartialEq, Eq, Structural)]
pub enum ParseError {
    /// The text has neither 12 characters (bare digits) nor 17 (separated
    /// pairs).
    WrongLength,
    /// A position that should hold a hex digit holds something else.
    InvalidHexDigit,
    /// The separator is neither `:` nor `-`, or the separators are mixed.
    InvalidSeparator,
}

/// An ASCII hex digit of either case: `0`-`9` (codes 48..=57), `a`-`f`
/// (97..=102), or `A`-`F` (65..=70).
pub open spec fn is_hex_digit(c: char) -> bool {
    (48 <= c as u32 && c as u32 <= 57) || (97 <= c as u32 && c as u32 <= 102) || (65 <= c as u32
        && c as u32 <= 70)
}

/// Numeric value of a hex digit (0 for any other character).
pub open spec fn hex_digit_value(c: char) -> u8 {
    let u = c as u32;
    if 48 <= u && u <= 57 {
        (u - 48) as u8
    } else if 97 <= u && u <= 102 {
        (u - 87) as u8
    } else if 65 <= u && u <= 70 {
        (u - 55) as u8
    } else {
        0
    }
}

/// Twelve bare hex digits, no separators.
pub open spec fn is_plain_hex_text(s: Seq<char>) -> bool {
    s.len() == 12 && forall|k: int| 0 <= k < 12 ==> is_hex_digit(#[trigger] s[k])
}

/// The separator layout of a 17-character text is consistent: the character
/// after the first pair is `:` or `-`, and every third position repeats it.
pub open spec fn separators_ok(s: Seq<char>) -> bool {
    (s[2] == ':' || s[2] == '-') && forall|m: int| 0 <= m < 5 ==> #[trigger] s[3 * m + 2] == s[2]
}

/// All twelve digit positions of a 17-character separated text hold hex
/// digits (digit number `k` sits at position `k + k / 2`).
pub open spec fn separated_digits_hex(s: Seq<char>) -> bool {
    forall|k: int| 0 <= k < 12 ==> is_hex_digit(#[trigger] s[k + k / 2])
}

/// Six hex pairs joined by the single separator `sep`.
pub open spec fn is_separated_hex_text(s: Seq<char>, sep: char) -> bool {
    s.len() == 17 && (sep == ':' || sep == '-') && s[2] == sep && (forall|m: int|
        0 <= m < 5 ==> #[trigger] s[3 * m + 2] == sep) && separated_digits_hex(s)
}

/// A well-formed textual hardware address: twelve hex digits, bare or as six
/// pairs consistently separated by `:` or by `-`.
pub open spec fn is_valid_addr_text(s: Seq<char>) -> bool {
    is_plain_hex_text(s) || is_separated_hex_text(s, ':') || is_separated_hex_text(s, '-')
}

/// Position in the text of hex digit number `k` (of 12): consecutive when
/// bare, every third position skipped when separated.
pub open spec fn digit_pos(s: Seq<char>, k: int) -> int {
    if s.len() == 12 {
        k
    } else {
        k + k / 2
    }
}

/// Hex digit number `k` of the address text `s`.
pub open spec fn digit_at(s: Seq<char>, k: int) -> char {
    s[digit_pos(s, k)]
}

/// Octet number `j` (of 6) denoted by the address text `s`.
pub open spec fn octet_at(s: Seq<char>, j: int) -> u8 {
    (hex_digit_value(digit_at(s, 2 * j)) * 16 + hex_digit_value(digit_at(s, 2 * j + 1))) as u8
}

/// The six octets denoted by a well-formed address text.
pub open spec fn denoted_octets(s: Seq<char>) -> Seq<u8> {
    Seq::new(6, |j: int| octet_at(s, j))
}

/// The hex value of `c`, or `None` when `c` is no hex digit.
fn hex_value(c: char) -> (r: Option<u8>)
    ensures
        r matches Some(v) ==> is_hex_digit(c) && v == hex_digit_value(c) && v < 16,
        r is None <==> !is_hex_digit(c),
{
    let u = c as u32;
    if 48 <= u && u <= 57 {
        Some((u - 48) as u8)
    } else if 97 <= u && u <= 102 {
        Some((u - 87) as u8)
    } else if 65 <= u && u <= 70 {
        Some((u - 55) as u8)
    } else {
        None
    }
}

/// Parses a textual hardware address.
///
/// Accepts exactly the well-formed forms: twelve hex digits of either case,
/// bare, or grouped in pairs joined consistently by `:` or by `-`. The three
/// error variants pin down what was wrong: a length that fits no form; a
/// misplaced, mixed or unknown separator; or a non-hex character where a
/// digit belongs.
pub fn parse_hardware_addr(s: &str) -> (r: Result<HardwareAddr, ParseError>)
    ensures
        r is Ok <==> is_valid_addr_text(s@),
        r matches Ok(a) ==> a@ == denoted_octets(s@),
        r matches Err(ParseError::WrongLength) <==> s@.len() != 12 && s@.len() != 17,
        r matches Err(ParseError::InvalidSeparator) <==> s@.len() == 17 && !separators_ok(s@),
        r matches Err(ParseError::InvalidHexDigit) <==> ((s@.len() == 12 && !is_plain_hex_text(s@))
            || (s@.len() == 17 && separators_ok(s@) && !separated_digits_hex(s@))),
{
    let n = s.unicode_len();
    if n == 12 {
        let mut octs: Vec<u8> = Vec::new();
        let mut j: usize = 0;
        while j < 6
            invariant
                j <= 6,
                s@.len() == 12,
                octs@.len() == j,
                forall|m: int| 0 <= m < j ==> octs@[m] == octet_at(s@, m),
                forall|k: int| 0 <= k < 2 * j ==> is_hex_digit(#[trigger] s@[k]),
            decreases 6 - j,
        {
            let c1 = s.get_char(2 * j);
            let c2 = s.get_char(2 * j + 1);
            let v1 = match hex_value(c1) {
                Some(v) => v,
                None => {
                    return Err(ParseError::InvalidHexDigit);
                },
            };
            let v2 = match hex_value(c2) {
                Some(v) => v,
                None => {
                    return Err(ParseError::InvalidHexDigit);
                },
            };
            octs.push(v1 * 16 + v2);
            j += 1;
        }
        let a = HardwareAddr::new(octs[0], octs[1], octs[2], octs[3], octs[4], octs[5]);
        proof {
            assert(a@ =~= denoted_octets(s@));
        }
        Ok(a)
    } else if n == 17 {
        let sep = s.get_char(2);
        if !(sep == ':' || sep == '-') {
            return Err(ParseError::InvalidSeparator);
        }
        let mut m: usize = 0;
        while m < 5
            invariant
                m <= 5,
                s@.len() == 17,
                sep == s@[2],
                sep == ':' || sep == '-',
                forall|i: int| 0 <= i < m ==> #[trigger] s@[3 * i + 2] == s@[2],
            decreases 5 - m,
        {
            let c = s.get_char(3 * m + 2);
            if c != sep {
                return Err(ParseError::InvalidSeparator);
            }
            m += 1;
        }
        let mut octs: Vec<u8> = Vec::new();
        let mut j: usize = 0;
        while j < 6
            invariant
                j <= 6,
                s@.len() == 17,
                separators_ok(s@),
                octs@.len() == j,
                forall|m2: int| 0 <= m2 < j ==> octs@[m2] == octet_at(s@, m2),
                forall|k: int| 0 <= k < 2 * j ==> is_hex_digit(#[trigger] s@[k + k / 2]),
            decreases 6 - j,
        {
            let c1 = s.get_char(3 * j);
            let c2 = s.get_char(3 * j + 1);
            proof {
                assert(3 * j == (2 * j) + (2 * j) / 2);
                assert(3 * j + 1 == (2 * j + 1) + (2 * j + 1) / 2);
            }
            let v1 = match hex_value(c1) {
                Some(v) => v,
                None => {
                    return Err(ParseError::InvalidHexDigit);
                },
            };
            let v2 = match hex_value(c2) {
                Some(v) => v,
                None => {
                    return Err(ParseError::InvalidHexDigit);
                },
            };
            octs.push(v1 * 16 + v2);
            j += 1;
        }
        proof {
            assert forall|k: int| 0 <= k < 12 implies is_hex_digit(#[trigger] s@[k + k / 2]) by {}
            assert(is_separated_hex_text(s@, s@[2]));
        }
        let a = HardwareAddr::new(octs[0], octs[1], octs[2], octs[3], octs[4], octs[5]);
        proof {
            assert(a@ =~= denoted_octets(s@));
        }
        Ok(a)
    } else {
        Err(ParseError::WrongLength)
    }
}

/// The lowercase hex digit character for the value `v` (0..16).
pub open spec fn hex_char_lower(v: int) -> char {
    if v == 0 {
        '0'
    } else if v == 1 {
        '1'
    } else if v == 2 {
        '2'
    } else if v == 3 {
        '3'
    } else if v == 4 {
        '4'
    } else if v == 5 {
        '5'
    } else if v == 6 {
        '6'
    } else if v == 7 {
        '7'
    } else if v == 8 {
        '8'
    } else if v == 9 {
        '9'
    } else if v == 10 {
        'a'
    } else if v == 11 {
        'b'
    } else if v == 12 {
        'c'
    } else if v == 13 {
        'd'
    } else if v == 14 {
        'e'
    } else {
        'f'
    }
}

/// The two lowercase hex digits of one octet, most significant first.
pub open spec fn hex_pair(b: u8) -> Seq<char> {
    seq![hex_char_lower(b as int / 16), hex_char_lower(b as int % 16)]
}

/// The canonical text of six octets: lowercase hex pairs joined by `:`.
pub open spec fn canonical_addr_text(o: Seq<u8>) -> Seq<char> {
    hex_pair(o[0]) + seq![':'] + hex_pair(o[1]) + seq![':'] + hex_pair(o[2]) + seq![':'] + hex_pair(
        o[3],
    ) + seq![':'] + hex_pair(o[4]) + seq![':'] + hex_pair(o[5])
}

/// A lowercase hex digit character is a hex digit and denotes its value.
pub proof fn lemma_hex_char_lower_props(v: int)
    requires
        0 <= v < 16,
    ensures
        is_hex_digit(hex_char_lower(v)),
        hex_digit_value(hex_char_lower(v)) == v as u8,
{
}

/// Appends the lowercase hex digit for `v` to `out`.
fn append_hex_digit(out: &mut String, v: u8)
    requires
        v < 16,
    ensures
        final(out)@ == old(out)@ + seq![hex_char_lower(v as int)],
{
    proof {
        reveal_strlit("0");
        reveal_strlit("1");
        reveal_strlit("2");
        reveal_strlit("3");
        reveal_strlit("4");
        reveal_strlit("5");
        reveal_strlit("6");
        reveal_strlit("7");
        reveal_strlit("8");
        reveal_strlit("9");
        reveal_strlit("a");
        reveal_strlit("b");
        reveal_strlit("c");
        reveal_strlit("d");
        reveal_strlit("e");
        reveal_strlit("f");
    }
    if v == 0 {
        out.append("0");
    } else if v == 1 {
        out.append("1");
    } else if v == 2 {
        out.append("2");
    } else if v == 3 {
        out.append("3");
    } else if v == 4 {
        out.append("4");
    } else if v == 5 {
        out.append("5");
    } else if v == 6 {
        out.append("6");
    } else if v == 7 {
        out.append("7");
    } else if v == 8 {
        out.append("8");
    } else if v == 9 {
        out.append("9");
    } else if v == 10 {
        out.append("a");
    } else if v == 11 {
        out.append("b");
    } else if v == 12 {
        out.append("c");
    } else if v == 13 {
        out.append("d");
    } else if v == 14 {
        out.append("e");
    } else {
        out.append("f");
    }
    proof {
        assert(final(out)@ =~= old(out)@ + seq![hex_char_lower(v as int)]);
    }
}

/// Appends both lowercase hex digits of the octet `b` to `out`.
fn append_hex_pair(out: &mut String, b: u8)
    ensures
        final(out)@ == old(out)@ + hex_pair(b),
{
    append_hex_digit(out, b / 16);
    append_hex_digit(out, b % 16);
    proof {
        assert(final(out)@ =~= old(out)@ + hex_pair(b));
    }
}

/// Appends the canonical separator `:` to `out`.
fn append_separator(out: &mut String)
    ensures
        final(out)@ == old(out)@ + seq![':'],
{
    proof {
        reveal_strlit(":");
    }
    out.append(":");
    proof {
        assert(final(out)@ =~= old(out)@ + seq![':']);
    }
}

impl HardwareAddr {
    /// The canonical text of the address: lowercase hex pairs joined by `:`.
    pub fn to_text(&self) -> (r: String)
        ensures
            r@ == canonical_addr_text(self@),
    {
        let mut out = String::new();
        append_hex_pair(&mut out, self.o0);
        append_separator(&mut out);
        append_hex_pair(&mut out, self.o1);
        append_separator(&mut out);
        append_hex_pair(&mut out, self.o2);
        append_separator(&mut out);
        append_hex_pair(&mut out, self.o3);
        append_separator(&mut out);
        append_hex_pair(&mut out, self.o4);
        append_separator(&mut out);
        append_hex_pair(&mut out, self.o5);
        proof {
            assert(out@ =~= canonical_addr_text(self@));
        }
        out
    }
}

/// Two characters that are the same hex digit up to ASCII case (`A`-`F`
/// versus `a`-`f`; codes 32 apart).
pub open spec fn same_hex_digit_any_case(c: char, d: char) -> bool {
    c == d || (65 <= c as u32 && c as u32 <= 70 && d as u32 == c as u32 + 32) || (65 <= d as u32
        && d as u32 <= 70 && c as u32 == d as u32 + 32)
}

/// The value of a hex digit does not depend on its case.
pub proof fn lemma_hex_value_ignores_case(c: char, d: char)
    requires
        same_hex_digit_any_case(c, d),
    ensures
        hex_digit_value(c) == hex_digit_value(d),
        is_hex_digit(c) == is_hex_digit(d),
{
}

/// Parsing is indifferent to separator choice and digit case: two
/// well-formed address texts whose twelve hex digits agree up to ASCII case
/// denote the same six octets, whichever of the accepted forms (bare,
/// `:`-separated, `-`-separated) each text uses.
pub proof fn lemma_denoted_octets_same(s1: Seq<char>, s2: Seq<char>)
    requires
        is_valid_addr_text(s1),
        is_valid_addr_text(s2),
        forall|k: int|
            0 <= k < 12 ==> same_hex_digit_any_case(#[trigger] digit_at(s1, k), digit_at(s2, k)),
    ensures
        denoted_octets(s1) == denoted_octets(s2),
{
    assert forall|j: int| 0 <= j < 6 implies octet_at(s1, j) == octet_at(s2, j) by {
        lemma_hex_value_ignores_case(digit_at(s1, 2 * j), digit_at(s2, 2 * j));
        lemma_hex_value_ignores_case(digit_at(s1, 2 * j + 1), digit_at(s2, 2 * j + 1));
    }
    assert(denoted_octets(s1) =~= denoted_octets(s2));
}

/// Formatting an address canonically and parsing the text back yields the
/// same six octets: the canonical text is well-formed and denotes exactly
/// the octets it was built from.
pub proof fn lemma_canonical_round_trip(o: Seq<u8>)
    requires
        o.len() == 6,
    ensures
        is_valid_addr_text(canonical_addr_text(o)),
        denoted_octets(canonical_addr_text(o)) == o,
{
    let s = canonical_addr_text(o);
    assert(s.len() == 17);
    assert(s[2] == ':');
    assert forall|m: int| 0 <= m < 5 implies #[trigger] s[3 * m + 2] == ':' by {
        if m == 0 {
            assert(s[2] == ':');
        } else if m == 1 {
            assert(s[5] == ':');
        } else if m == 2 {
            assert(s[8] == ':');
        } else if m == 3 {
            assert(s[11] == ':');
        } else {
            assert(s[14] == ':');
        }
    }
    assert forall|j: int| 0 <= j < 6 implies s[3 * j] == hex_char_lower(o[j] as int / 16) && s[3 * j
        + 1] == hex_char_lower(o[j] as int % 16) by {
        if j == 0 {
            assert(s[0] == hex_char_lower(o[0] as int / 16));
            assert(s[1] == hex_char_lower(o[0] as int % 16));
        } else if j == 1 {
            assert(s[3] == hex_char_lower(o[1] as int / 16));
            assert(s[4] == hex_char_lower(o[1] as int % 16));
        } else if j == 2 {
            assert(s[6] == hex_char_lower(o[2] as int / 16));
            assert(s[7] == hex_char_lower(o[2] as int % 16));
        } else if j == 3 {
            assert(s[9] == hex_char_lower(o[3] as int / 16));
            assert(s[10] == hex_char_lower(o[3] as int % 16));
        } else if j == 4 {
            assert(s[12] == hex_char_lower(o[4] as int / 16));
            assert(s[13] == hex_char_lower(o[4] as int % 16));
        } else {
            assert(s[15] == hex_char_lower(o[5] as int / 16));
            assert(s[16] == hex_char_lower(o[5] as int % 16));
        }
    }
    assert forall|k: int| 0 <= k < 12 implies is_hex_digit(#[trigger] s[k + k / 2]) by {
        let j = k / 2;
        assert(0 <= j < 6);
        if k % 2 == 0 {
            assert(k + k / 2 == 3 * j);
            lemma_hex_char_lower_props(o[j] as int / 16);
        } else {
            assert(k + k / 2 == 3 * j + 1);
            lemma_hex_char_lower_props(o[j] as int % 16);
        }
    }
    assert(is_separated_hex_text(s, ':'));
    assert forall|j: int| 0 <= j < 6 implies octet_at(s, j) == o[j] by {
        assert(digit_pos(s, 2 * j) == 2 * j + (2 * j) / 2 == 3 * j);
        assert(digit_pos(s, 2 * j + 1) == 3 * j + 1);
        lemma_hex_char_lower_props(o[j] as int / 16);
        lemma_hex_char_lower_props(o[j] as int % 16);
        assert(hex_digit_value(digit_at(s, 2 * j)) == o[j] as int / 16);
        assert(hex_digit_value(digit_at(s, 2 * j + 1)) == o[j] as int % 16);
        vstd::arithmetic::div_mod::lemma_fundamental_div_mod(o[j] as int, 16);
    }
    assert(denoted_octets(s) =~= o);
}

/// The plain-text description of each address-parse rejection.
pub open spec fn parse_error_message(e: ParseError) -> Seq<char> {
    match e {
        ParseError::WrongLength => "Hardware address must have exactly 12 hex digits"@,
        ParseError::InvalidHexDigit => "Hardware address contains a non-hex character"@,
        ParseError::InvalidSeparator => "Hardware address separators must be a consistent ':' or '-'"@,
    }
}

impl ParseError {
    /// A plain-text description of the rejection.
    pub fn message(&self) -> (r: String)
        ensures
            r@ == parse_error_message(*self),
    {
        match self {
            ParseError::WrongLength => "Hardware address must have exactly 12 hex digits".to_owned(),
            ParseError::InvalidHexDigit => "Hardware address contains a non-hex character".to_owned(),
            ParseError::InvalidSeparator => {
                "Hardware address separators must be a consistent ':' or '-'".to_owned()
            },
        }
    }
}

} // verus!
