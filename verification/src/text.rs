//! Text forms used by the capture analysis: colon-separated fields, hexadecimal
//! bytes as `u8::from_str_radix(_, 16)` reads them, and the printed forms of MAC
//! and IPv4 addresses.

use vstd::prelude::*;

verus! {

// ---------------------------------------------------------------------------
// Splitting on ':'
// ---------------------------------------------------------------------------

/// The fields of `s` between ':' separators, as `str::split(':')` yields them:
/// the empty text has one empty field, and a trailing ':' ends with an empty field.
pub open spec fn split_colon(s: Seq<char>) -> Seq<Seq<char>>
    decreases s.len(),
{
    if s.len() == 0 {
        seq![Seq::<char>::empty()]
    } else {
        let r = split_colon(s.drop_last());
        if s.last() == ':' {
            r.push(Seq::<char>::empty())
        } else {
            r.update(r.len() - 1, r.last().push(s.last()))
        }
    }
}

/// Splitting always yields at least one field.
pub proof fn lemma_split_colon_nonempty(s: Seq<char>)
    ensures
        split_colon(s).len() >= 1,
    decreases s.len(),
{
    if s.len() > 0 {
        lemma_split_colon_nonempty(s.drop_last());
    }
}

/// The texts held by a vector of character vectors.
pub open spec fn fields_view(parts: Seq<Vec<char>>) -> Seq<Seq<char>> {
    parts.map_values(|v: Vec<char>| v@)
}

/// The fields of `s` between ':' separators.
pub fn split_colon_fields(s: &str) -> (parts: Vec<Vec<char>>)
    ensures
        fields_view(parts@) == split_colon(s@),
{
    let n = s.unicode_len();
    let mut parts: Vec<Vec<char>> = Vec::new();
    parts.push(Vec::new());
    let mut i: usize = 0;
    proof {
        assert(s@.take(0) =~= Seq::<char>::empty());
        assert(fields_view(parts@) =~= split_colon(s@.take(0)));
    }
    while i < n
        invariant
            n == s@.len(),
            i <= n,
            parts.len() >= 1,
            fields_view(parts@) == split_colon(s@.take(i as int)),
        decreases n - i,
    {
        let c = s.get_char(i);
        let ghost prev = s@.take(i as int);
        proof {
            assert(s@.take(i + 1).drop_last() =~= prev);
            assert(s@.take(i + 1).last() == c);
        }
        if c == ':' {
            parts.push(Vec::new());
            proof {
                assert(fields_view(parts@) =~= split_colon(prev).push(Seq::<char>::empty()));
            }
        } else {
            let last = parts.len() - 1;
            let mut field = parts.remove(last);
            field.push(c);
            parts.push(field);
            proof {
                assert(fields_view(parts@) =~= split_colon(prev).update(
                    split_colon(prev).len() - 1,
                    split_colon(prev).last().push(c),
                ));
            }
        }
        i = i + 1;
    }
    proof {
        assert(s@.take(n as int) =~= s@);
    }
    parts
}

// ---------------------------------------------------------------------------
// Hexadecimal bytes
// ---------------------------------------------------------------------------

/// The value of one hexadecimal digit, in either case.
pub open spec fn hex_digit_value(c: char) -> Option<nat> {
    if '0' <= c && c <= '9' {
        Some((c as nat - '0' as nat) as nat)
    } else if 'a' <= c && c <= 'f' {
        Some((c as nat - 'a' as nat + 10) as nat)
    } else if 'A' <= c && c <= 'F' {
        Some((c as nat - 'A' as nat + 10) as nat)
    } else {
        None
    }
}

/// The value of a run of hexadecimal digits, most significant first
/// (the empty run is worth zero); `None` if some character is not a digit.
pub open spec fn hex_digits_value(s: Seq<char>) -> Option<nat>
    decreases s.len(),
{
    if s.len() == 0 {
        Some(0)
    } else {
        match (hex_digits_value(s.drop_last()), hex_digit_value(s.last())) {
            (Some(v), Some(d)) => Some(v * 16 + d),
            _ => None,
        }
    }
}

/// What `u8::from_str_radix(s, 16).ok()` gives: an optional leading '+', then a
/// non-empty run of hexadecimal digits whose value is at most 255.
pub open spec fn parse_hex_u8(s: Seq<char>) -> Option<u8> {
    let digits = if s.len() > 0 && s[0] == '+' { s.drop_first() } else { s };
    if digits.len() == 0 {
        None
    } else {
        match hex_digits_value(digits) {
            Some(v) => if v <= 255 { Some(v as u8) } else { None },
            None => None,
        }
    }
}

/// A run of digits is worth at least as much as any of its prefixes, and a
/// prefix that holds a non-digit spoils the whole run.
pub proof fn lemma_hex_prefix(s: Seq<char>, i: int)
    requires
        0 <= i <= s.len(),
    ensures
        hex_digits_value(s.take(i)) is None ==> hex_digits_value(s) is None,
        hex_digits_value(s) is Some ==> hex_digits_value(s.take(i)) is Some
            && hex_digits_value(s.take(i))->0 <= hex_digits_value(s)->0,
    decreases s.len() - i,
{
    if i < s.len() {
        assert(s.drop_last().take(i) =~= s.take(i));
        lemma_hex_prefix(s.drop_last(), i);
    } else {
        assert(s.take(i) =~= s);
    }
}

/// The value of one hexadecimal digit.
fn hex_digit(c: char) -> (r: Option<u8>)
    ensures
        r matches Some(d) ==> hex_digit_value(c) == Some(d as nat),
        r is None ==> hex_digit_value(c) is None,
{
    if '0' <= c && c <= '9' {
        Some(((c as u32) - ('0' as u32)) as u8)
    } else if 'a' <= c && c <= 'f' {
        Some(((c as u32) - ('a' as u32) + 10) as u8)
    } else if 'A' <= c && c <= 'F' {
        Some(((c as u32) - ('A' as u32) + 10) as u8)
    } else {
        None
    }
}

/// Reads a byte written in hexadecimal, as `u8::from_str_radix(s, 16).ok()` does.
pub fn parse_hex_byte(s: &Vec<char>) -> (r: Option<u8>)
    ensures
        r == parse_hex_u8(s@),
{
    let n = s.len();
    let start: usize = if n > 0 && s[0] == '+' { 1 } else { 0 };
    let ghost digits = if s@.len() > 0 && s@[0] == '+' { s@.drop_first() } else { s@ };
    if start == n {
        return None;
    }
    let mut value: u32 = 0;
    let mut i: usize = start;
    proof {
        assert(digits.take(0) =~= Seq::<char>::empty());
    }
    while i < n
        invariant
            start <= i <= n,
            n == s@.len(),
            start < n,
            digits =~= s@.subrange(start as int, n as int),
            digits == (if s@.len() > 0 && s@[0] == '+' { s@.drop_first() } else { s@ }),
            hex_digits_value(digits.take(i - start)) == Some(value as nat),
            value <= 255,
        decreases n - i,
    {
        let ghost k: int = i - start;
        proof {
            assert(digits.take(k + 1).drop_last() =~= digits.take(k));
            assert(digits.take(k + 1).last() == s@[i as int]);
        }
        match hex_digit(s[i]) {
            None => {
                proof {
                    assert(hex_digits_value(digits.take(k + 1)) is None);
                    lemma_hex_prefix(digits, k + 1);
                    assert(digits.len() > 0);
                }
                return None;
            },
            Some(d) => {
                let next = value * 16 + (d as u32);
                if next > 255 {
                    proof {
                        assert(hex_digits_value(digits.take(k + 1)) == Some(next as nat));
                        lemma_hex_prefix(digits, k + 1);
                        assert(digits.len() > 0);
                    }
                    return None;
                }
                value = next;
            },
        }
        i = i + 1;
    }
    proof {
        assert(digits.take(n - start) =~= digits);
    }
    Some(value as u8)
}

// ---------------------------------------------------------------------------
// Printed forms
// ---------------------------------------------------------------------------

/// The lower-case hexadecimal digits, and the decimal digits as their first ten.
pub open spec fn digit_chars() -> Seq<char> {
    seq!['0', '1', '2', '3', '4', '5', '6', '7', '8', '9', 'a', 'b', 'c', 'd', 'e', 'f']
}

/// The character of a digit below 16.
pub open spec fn digit_char(d: int) -> char {
    digit_chars()[d]
}

/// A byte as two lower-case hexadecimal digits (`{:02x}`).
pub open spec fn byte_hex(b: u8) -> Seq<char> {
    seq![digit_char((b / 16) as int), digit_char((b % 16) as int)]
}

/// A byte in decimal, without leading zeros.
pub open spec fn byte_decimal(b: u8) -> Seq<char> {
    if b < 10 {
        seq![digit_char(b as int)]
    } else if b < 100 {
        seq![digit_char((b / 10) as int), digit_char((b % 10) as int)]
    } else {
        seq![digit_char((b / 100) as int), digit_char(((b / 10) % 10) as int), digit_char((b % 10) as int)]
    }
}

/// The printed form of a MAC address: its bytes as two-digit lower-case
/// hexadecimal, joined by ':'.
pub open spec fn mac_text(bytes: Seq<u8>) -> Seq<char>
    decreases bytes.len(),
{
    if bytes.len() == 0 {
        Seq::<char>::empty()
    } else if bytes.len() == 1 {
        byte_hex(bytes[0])
    } else {
        mac_text(bytes.drop_last()) + seq![':'] + byte_hex(bytes.last())
    }
}

/// The printed form of an IPv4 address: its four bytes in decimal, joined by '.'.
pub open spec fn ipv4_text(a: [u8; 4]) -> Seq<char> {
    byte_decimal(a[0]) + seq!['.'] + byte_decimal(a[1]) + seq!['.'] + byte_decimal(a[2])
        + seq!['.'] + byte_decimal(a[3])
}

/// Every digit character reads back as its digit.
pub proof fn lemma_digit_char_value(d: int)
    requires
        0 <= d < 16,
    ensures
        hex_digit_value(digit_char(d)) == Some(d as nat),
        digit_char(d) != ':',
        digit_char(d) != '+',
{
}

/// The two-digit hexadecimal form of a byte reads back as the byte.
pub proof fn lemma_byte_hex_roundtrip(b: u8)
    ensures
        parse_hex_u8(byte_hex(b)) == Some(b),
        !byte_hex(b).contains(':'),
{
    let h = byte_hex(b);
    lemma_digit_char_value((b / 16) as int);
    lemma_digit_char_value((b % 16) as int);
    assert(h.drop_last() =~= seq![digit_char((b / 16) as int)]);
    assert(h.drop_last().drop_last() =~= Seq::<char>::empty());
    assert(hex_digits_value(h.drop_last().drop_last()) == Some(0nat));
    assert(h.drop_last().last() == digit_char((b / 16) as int));
    assert(hex_digits_value(h.drop_last()) == Some((b / 16) as nat));
    assert(h.last() == digit_char((b % 16) as int));
    assert(hex_digits_value(h) == Some(((b / 16) * 16 + b % 16) as nat));
    assert(!h.contains(':')) by {
        if h.contains(':') {
            let i = choose|i: int| 0 <= i < h.len() && h[i] == ':';
            assert(i == 0 || i == 1);
        }
    }
}

/// Appending text without ':' extends the last field.
pub proof fn lemma_split_extend(s: Seq<char>, t: Seq<char>)
    requires
        !t.contains(':'),
    ensures
        split_colon(s + t) == split_colon(s).update(
            split_colon(s).len() - 1,
            split_colon(s).last() + t,
        ),
        split_colon(s + t).len() == split_colon(s).len(),
    decreases t.len(),
{
    lemma_split_colon_nonempty(s);
    if t.len() == 0 {
        assert(s + t =~= s);
        assert(split_colon(s).last() + t =~= split_colon(s).last());
        assert(split_colon(s).update(split_colon(s).len() - 1, split_colon(s).last())
            =~= split_colon(s));
    } else {
        let t0 = t.drop_last();
        assert(!t0.contains(':')) by {
            if t0.contains(':') {
                let i = choose|i: int| 0 <= i < t0.len() && t0[i] == ':';
                assert(t[i] == ':');
            }
        }
        lemma_split_extend(s, t0);
        assert((s + t).drop_last() =~= s + t0);
        assert((s + t).last() == t.last());
        assert(t.last() != ':') by {
            assert(t[t.len() - 1] == t.last());
        }
        assert(split_colon(s).last() + t =~= (split_colon(s).last() + t0).push(t.last()));
        lemma_split_colon_nonempty(s + t0);
        assert(split_colon(s + t) =~= split_colon(s).update(
            split_colon(s).len() - 1,
            split_colon(s).last() + t,
        ));
    }
}

/// The fields of a printed MAC address are the two-digit forms of its bytes.
pub proof fn lemma_split_mac_text(bytes: Seq<u8>)
    requires
        bytes.len() >= 1,
    ensures
        split_colon(mac_text(bytes)) == bytes.map_values(|b: u8| byte_hex(b)),
    decreases bytes.len(),
{
    lemma_byte_hex_roundtrip(bytes.last());
    if bytes.len() == 1 {
        lemma_split_extend(Seq::<char>::empty(), byte_hex(bytes[0]));
        assert(Seq::<char>::empty() + byte_hex(bytes[0]) =~= byte_hex(bytes[0]));
        assert(split_colon(mac_text(bytes)) =~= bytes.map_values(|b: u8| byte_hex(b)));
    } else {
        let rest = bytes.drop_last();
        lemma_split_mac_text(rest);
        let u = mac_text(rest) + seq![':'];
        assert(u.drop_last() =~= mac_text(rest));
        lemma_split_colon_nonempty(mac_text(rest));
        lemma_split_extend(u, byte_hex(bytes.last()));
        assert(split_colon(u) == split_colon(mac_text(rest)).push(Seq::<char>::empty()));
        assert(Seq::<char>::empty() + byte_hex(bytes.last()) =~= byte_hex(bytes.last()));
        assert(split_colon(mac_text(bytes)) =~= bytes.map_values(|b: u8| byte_hex(b)));
    }
}

/// The text of one digit below 16.
fn digit_text(d: u8) -> (t: &'static str)
    requires
        d < 16,
    ensures
        t@ == seq![digit_char(d as int)],
{
    match d {
        0 => {
            proof {
                reveal_strlit("0");
            }
            "0"
        },
        1 => {
            proof {
                reveal_strlit("1");
            }
            "1"
        },
        2 => {
            proof {
                reveal_strlit("2");
            }
            "2"
        },
        3 => {
            proof {
                reveal_strlit("3");
            }
            "3"
        },
        4 => {
            proof {
                reveal_strlit("4");
            }
            "4"
        },
        5 => {
            proof {
                reveal_strlit("5");
            }
            "5"
        },
        6 => {
            proof {
                reveal_strlit("6");
            }
            "6"
        },
        7 => {
            proof {
                reveal_strlit("7");
            }
            "7"
        },
        8 => {
            proof {
                reveal_strlit("8");
            }
            "8"
        },
        9 => {
            proof {
                reveal_strlit("9");
            }
            "9"
        },
        10 => {
            proof {
                reveal_strlit("a");
            }
            "a"
        },
        11 => {
            proof {
                reveal_strlit("b");
            }
            "b"
        },
        12 => {
            proof {
                reveal_strlit("c");
            }
            "c"
        },
        13 => {
            proof {
                reveal_strlit("d");
            }
            "d"
        },
        14 => {
            proof {
                reveal_strlit("e");
            }
            "e"
        },
        15 => {
            proof {
                reveal_strlit("f");
            }
            "f"
        },
        _ => {
            proof {
                reveal_strlit("f");
            }
            "f"
        },
    }
}

/// Appends the two-digit hexadecimal form of a byte.
fn push_byte_hex(out: &mut String, b: u8)
    ensures
        final(out)@ == old(out)@ + byte_hex(b),
{
    out.append(digit_text(b / 16));
    out.append(digit_text(b % 16));
}

/// Appends the decimal form of a byte.
fn push_byte_decimal(out: &mut String, b: u8)
    ensures
        final(out)@ == old(out)@ + byte_decimal(b),
{
    if b >= 100 {
        out.append(digit_text(b / 100));
    }
    if b >= 10 {
        out.append(digit_text((b / 10) % 10));
    }
    out.append(digit_text(b % 10));
}

/// Appends a single separator character.
fn push_separator(out: &mut String, dot: bool)
    ensures
        final(out)@ == old(out)@ + seq![if dot { '.' } else { ':' }],
{
    if dot {
        proof {
            reveal_strlit(".");
        }
        out.append(".");
    } else {
        proof {
            reveal_strlit(":");
        }
        out.append(":");
    }
}

/// Formats bytes as a MAC address: two lower-case hexadecimal digits per byte,
/// joined by ':'.
pub fn format_mac(bytes: &[u8]) -> (s: String)
    ensures
        s@ == mac_text(bytes@),
{
    let mut out = String::new();
    let n = bytes.len();
    let mut i: usize = 0;
    proof {
        assert(bytes@.take(0) =~= Seq::<u8>::empty());
    }
    while i < n
        invariant
            n == bytes@.len(),
            i <= n,
            out@ == mac_text(bytes@.take(i as int)),
        decreases n - i,
    {
        proof {
            assert(bytes@.take(i + 1).drop_last() =~= bytes@.take(i as int));
        }
        if i > 0 {
            push_separator(&mut out, false);
        }
        push_byte_hex(&mut out, bytes[i]);
        proof {
            if i == 0 {
                assert(out@ =~= mac_text(bytes@.take(1)));
            } else {
                assert(out@ =~= mac_text(bytes@.take(i + 1)));
            }
        }
        i = i + 1;
    }
    proof {
        assert(bytes@.take(n as int) =~= bytes@);
    }
    out
}

/// Formats an IPv4 address in dotted decimal, as `Ipv4Addr`'s `Display` does.
pub fn format_ipv4(a: [u8; 4]) -> (s: String)
    ensures
        s@ == ipv4_text(a),
{
    let mut out = String::new();
    push_byte_decimal(&mut out, a[0]);
    push_separator(&mut out, true);
    push_byte_decimal(&mut out, a[1]);
    push_separator(&mut out, true);
    push_byte_decimal(&mut out, a[2]);
    push_separator(&mut out, true);
    push_byte_decimal(&mut out, a[3]);
    proof {
        assert(out@ =~= ipv4_text(a));
    }
    out
}

} // verus!
