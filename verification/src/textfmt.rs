//! Rendering of numbers and of XML text, with exact character-level
//! specifications.  The report emitters build their output strings from
//! these pieces.

use vstd::prelude::*;

verus! {

/// The character for one decimal digit value.
pub open spec fn digit_char(d: int) -> char {
    if d == 0 {
        '0'
    } else if d == 1 {
        '1'
    } else if d == 2 {
        '2'
    } else if d == 3 {
        '3'
    } else if d == 4 {
        '4'
    } else if d == 5 {
        '5'
    } else if d == 6 {
        '6'
    } else if d == 7 {
        '7'
    } else if d == 8 {
        '8'
    } else {
        '9'
    }
}

/// The character for one hexadecimal digit value, lower case.
pub open spec fn hex_digit_char(d: int) -> char {
    if d < 10 {
        digit_char(d)
    } else if d == 10 {
        'a'
    } else if d == 11 {
        'b'
    } else if d == 12 {
        'c'
    } else if d == 13 {
        'd'
    } else if d == 14 {
        'e'
    } else {
        'f'
    }
}

/// The usual decimal rendering of a number: no sign, no leading zero
/// except for the number zero itself.
pub open spec fn spec_dec(n: nat) -> Seq<char>
    decreases n,
{
    if n < 10 {
        seq![digit_char(n as int)]
    } else {
        spec_dec(n / 10).push(digit_char((n % 10) as int))
    }
}

/// The decimal rendering of a number padded with leading zeros to exactly
/// `width` digits.  Digits beyond `width` are dropped from the left.
pub open spec fn spec_dec_pad(n: nat, width: nat) -> Seq<char>
    decreases width,
{
    if width == 0 {
        Seq::empty()
    } else {
        spec_dec_pad(n / 10, (width - 1) as nat).push(digit_char((n % 10) as int))
    }
}

/// The hexadecimal rendering of a number, lower case, no leading zeros
/// except for the number zero itself.
pub open spec fn spec_hex(n: nat) -> Seq<char>
    decreases n,
{
    if n < 16 {
        seq![hex_digit_char(n as int)]
    } else {
        spec_hex(n / 16).push(hex_digit_char((n % 16) as int))
    }
}

/// A duration in nanoseconds rendered as seconds: the whole seconds in
/// decimal, a point, then the nanosecond remainder padded to nine digits.
pub open spec fn spec_nanos_as_seconds(nanos: nat) -> Seq<char> {
    spec_dec(nanos / 1_000_000_000) + seq!['.'] + spec_dec_pad(nanos % 1_000_000_000, 9)
}

fn digit_str(d: u64) -> (r: &'static str)
    requires
        d < 10,
    ensures
        r@ == seq![digit_char(d as int)],
{
    proof {
        reveal_strlit("0");
        reveal_strlit("1");
        reveal_strlit("2");
        reveal_strlit("3");
        reveal_strlit("4");
        reveal_strlit("5");
        reveal_strlit("6");
        reveal_strlit("7");
        reveal_strlit("8");
        reveal_strlit("9");
    }
    let r = match d {
        0 => "0",
        1 => "1",
        2 => "2",
        3 => "3",
        4 => "4",
        5 => "5",
        6 => "6",
        7 => "7",
        8 => "8",
        _ => "9",
    };
    assert(r@ =~= seq![digit_char(d as int)]);
    r
}

fn hex_digit_str(d: u64) -> (r: &'static str)
    requires
        d < 16,
    ensures
        r@ == seq![hex_digit_char(d as int)],
{
    if d < 10 {
        digit_str(d)
    } else {
        proof {
            reveal_strlit("a");
            reveal_strlit("b");
            reveal_strlit("c");
            reveal_strlit("d");
            reveal_strlit("e");
            reveal_strlit("f");
        }
        let r = match d {
            10 => "a",
            11 => "b",
            12 => "c",
            13 => "d",
            14 => "e",
            _ => "f",
        };
        assert(r@ =~= seq![hex_digit_char(d as int)]);
        r
    }
}

/// Renders a number in decimal.
pub fn dec_u64(n: u64) -> (r: String)
    ensures
        r@ == spec_dec(n as nat),
    decreases n,
{
    if n < 10 {
        let mut r = String::new();
        r.append(digit_str(n));
        assert(r@ =~= spec_dec(n as nat));
        r
    } else {
        let mut r = dec_u64(n / 10);
        r.append(digit_str(n % 10));
        assert(r@ =~= spec_dec(n as nat));
        r
    }
}

/// Renders a number in decimal, padded with leading zeros to `width` digits.
pub fn dec_u64_pad(n: u64, width: u64) -> (r: String)
    ensures
        r@ == spec_dec_pad(n as nat, width as nat),
    decreases width,
{
    if width == 0 {
        let r = String::new();
        assert(r@ =~= spec_dec_pad(n as nat, 0));
        r
    } else {
        let mut r = dec_u64_pad(n / 10, width - 1);
        r.append(digit_str(n % 10));
        assert(r@ =~= spec_dec_pad(n as nat, width as nat));
        r
    }
}

/// Renders a number in lower-case hexadecimal.
pub fn hex_u128(n: u128) -> (r: String)
    ensures
        r@ == spec_hex(n as nat),
    decreases n,
{
    if n < 16 {
        let mut r = String::new();
        r.append(hex_digit_str(n as u64));
        assert(r@ =~= spec_hex(n as nat));
        r
    } else {
        let mut r = hex_u128(n / 16);
        r.append(hex_digit_str((n % 16) as u64));
        assert(r@ =~= spec_hex(n as nat));
        r
    }
}

/// Renders a nanosecond duration as a decimal count of seconds.
pub fn nanos_as_seconds(nanos: u64) -> (r: String)
    ensures
        r@ == spec_nanos_as_seconds(nanos as nat),
{
    proof {
        reveal_strlit(".");
    }
    let mut r = dec_u64(nanos / 1_000_000_000);
    r.append(".");
    let frac = dec_u64_pad(nanos % 1_000_000_000, 9);
    r.append(frac.as_str());
    assert(r@ =~= spec_nanos_as_seconds(nanos as nat));
    r
}

/// Whether two strings hold the same characters.
pub fn str_eq(a: &str, b: &str) -> (r: bool)
    ensures
        r == (a@ == b@),
{
    let x = a.to_owned();
    let y = b.to_owned();
    x == y
}

/// How one character is written inside XML text or an XML attribute value:
/// the five characters with a meaning in that position become entity
/// references, every other character stands for itself.
pub open spec fn spec_xml_escape_char(c: char) -> Seq<char> {
    if c == '&' {
        seq!['&', 'a', 'm', 'p', ';']
    } else if c == '<' {
        seq!['&', 'l', 't', ';']
    } else if c == '>' {
        seq!['&', 'g', 't', ';']
    } else if c == '"' {
        seq!['&', 'q', 'u', 'o', 't', ';']
    } else if c == '\'' {
        seq!['&', 'a', 'p', 'o', 's', ';']
    } else {
        seq![c]
    }
}

/// A whole string escaped for XML, character by character.
pub open spec fn spec_xml_escape(s: Seq<char>) -> Seq<char>
    decreases s.len(),
{
    if s.len() == 0 {
        Seq::empty()
    } else {
        spec_xml_escape(s.drop_last()) + spec_xml_escape_char(s.last())
    }
}

/// Escapes a string for use in XML text or attribute values.
pub fn xml_escape(s: &str) -> (r: String)
    ensures
        r@ == spec_xml_escape(s@),
{
    let len = s.unicode_len();
    let mut r = String::new();
    let mut i: usize = 0;
    assert(s@.subrange(0, 0) =~= Seq::<char>::empty());
    while i < len
        invariant
            len == s@.len(),
            i <= len,
            r@ == spec_xml_escape(s@.subrange(0, i as int)),
        decreases len - i,
    {
        let c = s.get_char(i);
        match c {
            '&' => {
                proof {
                    reveal_strlit("&amp;");
                }
                r.append("&amp;");
            },
            '<' => {
                proof {
                    reveal_strlit("&lt;");
                }
                r.append("&lt;");
            },
            '>' => {
                proof {
                    reveal_strlit("&gt;");
                }
                r.append("&gt;");
            },
            '"' => {
                proof {
                    reveal_strlit("&quot;");
                }
                r.append("&quot;");
            },
            '\'' => {
                proof {
                    reveal_strlit("&apos;");
                }
                r.append("&apos;");
            },
            _ => {
                let piece = s.substring_char(i, i + 1);
                assert(piece@ =~= seq![s@[i as int]]);
                r.append(piece);
            },
        }
        proof {
            assert(s@.subrange(0, i + 1).drop_last() =~= s@.subrange(0, i as int));
            assert(s@.subrange(0, i + 1).last() == s@[i as int]);
            assert(r@ =~= spec_xml_escape(s@.subrange(0, i + 1)));
        }
        i = i + 1;
    }
    assert(s@.subrange(0, len as int) =~= s@);
    r
}

} // verus!
