//! Turning the raw text of a string literal into the characters it stands
//! for, honouring the escape syntax, and the reverse direction used when a
//! string value is rendered back as a literal.

use vstd::prelude::*;
use crate::strutil::push_char;

verus! {

/// Everything that can go wrong inside a string literal's escapes.
#[derive(Debug, PartialEq, Eq, Clone, Copy)]
pub enum EscapeError {
    /// Expected 1 char, but 0 were found.
    ZeroChars,
    /// Expected 1 char, but more than 1 were found.
    MoreThanOneChar,
    /// Escaped '\' character without continuation.
    LoneSlash,
    /// Invalid escape character (e.g. '\z').
    InvalidEscape,
    /// Raw '\r' encountered.
    BareCarriageReturn,
    /// Raw '\r' encountered in raw string.
    BareCarriageReturnInRawString,
    /// Unescaped character that was expected to be escaped (e.g. raw '\t').
    EscapeOnlyChar,
    /// Numeric character escape is too short (e.g. '\x1').
    TooShortHexEscape,
    /// Invalid character in numeric escape (e.g. '\xz').
    InvalidCharInHexEscape,
    /// Character code in numeric escape is non-ascii (e.g. '\xFF').
    OutOfRangeHexEscape,
    /// '\u' not followed by '{'.
    NoBraceInUnicodeEscape,
    /// Non-hexadecimal value in '\u{..}'.
    InvalidCharInUnicodeEscape,
    /// '\u{}'.
    EmptyUnicodeEscape,
    /// No closing brace in '\u{..}', e.g. '\u{12'.
    UnclosedUnicodeEscape,
    /// '\u{_12}'.
    LeadingUnderscoreUnicodeEscape,
    /// More than 6 characters in '\u{..}', e.g. '\u{10FFFF_FF}'.
    OverlongUnicodeEscape,
    /// Invalid in-bound unicode character code, e.g. '\u{DFFF}'.
    LoneSurrogateUnicodeEscape,
    /// Out of bounds unicode character code, e.g. '\u{FFFFFF}'.
    OutOfRangeUnicodeEscape,
    /// Unicode escape code in byte literal.
    UnicodeEscapeInByte,
    /// Non-ascii character in byte literal.
    NonAsciiCharInByte,
    /// Non-ascii character in byte string literal.
    NonAsciiCharInByteString,
}

/// The name of an escape error, as diagnostics print it.
pub open spec fn escape_error_name_spec(e: EscapeError) -> Seq<char> {
    match e {
        EscapeError::ZeroChars => "ZeroChars"@,
        EscapeError::MoreThanOneChar => "MoreThanOneChar"@,
        EscapeError::LoneSlash => "LoneSlash"@,
        EscapeError::InvalidEscape => "InvalidEscape"@,
        EscapeError::BareCarriageReturn => "BareCarriageReturn"@,
        EscapeError::BareCarriageReturnInRawString => "BareCarriageReturnInRawString"@,
        EscapeError::EscapeOnlyChar => "EscapeOnlyChar"@,
        EscapeError::TooShortHexEscape => "TooShortHexEscape"@,
        EscapeError::InvalidCharInHexEscape => "InvalidCharInHexEscape"@,
        EscapeError::OutOfRangeHexEscape => "OutOfRangeHexEscape"@,
        EscapeError::NoBraceInUnicodeEscape => "NoBraceInUnicodeEscape"@,
        EscapeError::InvalidCharInUnicodeEscape => "InvalidCharInUnicodeEscape"@,
        EscapeError::EmptyUnicodeEscape => "EmptyUnicodeEscape"@,
        EscapeError::UnclosedUnicodeEscape => "UnclosedUnicodeEscape"@,
        EscapeError::LeadingUnderscoreUnicodeEscape => "LeadingUnderscoreUnicodeEscape"@,
        EscapeError::OverlongUnicodeEscape => "OverlongUnicodeEscape"@,
        EscapeError::LoneSurrogateUnicodeEscape => "LoneSurrogateUnicodeEscape"@,
        EscapeError::OutOfRangeUnicodeEscape => "OutOfRangeUnicodeEscape"@,
        EscapeError::UnicodeEscapeInByte => "UnicodeEscapeInByte"@,
        EscapeError::NonAsciiCharInByte => "NonAsciiCharInByte"@,
        EscapeError::NonAsciiCharInByteString => "NonAsciiCharInByteString"@,
    }
}

/// The text a string literal collapses to when one of its escapes is bad.
pub open spec fn escape_error_text_spec(e: EscapeError) -> Seq<char> {
    "<Lexer error: string: "@ + escape_error_name_spec(e) + ">"@
}

pub fn escape_error_name(e: &EscapeError) -> (r: &'static str)
    ensures
        r@ == escape_error_name_spec(*e),
{
    match e {
        EscapeError::ZeroChars => "ZeroChars",
        EscapeError::MoreThanOneChar => "MoreThanOneChar",
        EscapeError::LoneSlash => "LoneSlash",
        EscapeError::InvalidEscape => "InvalidEscape",
        EscapeError::BareCarriageReturn => "BareCarriageReturn",
        EscapeError::BareCarriageReturnInRawString => "BareCarriageReturnInRawString",
        EscapeError::EscapeOnlyChar => "EscapeOnlyChar",
        EscapeError::TooShortHexEscape => "TooShortHexEscape",
        EscapeError::InvalidCharInHexEscape => "InvalidCharInHexEscape",
        EscapeError::OutOfRangeHexEscape => "OutOfRangeHexEscape",
        EscapeError::NoBraceInUnicodeEscape => "NoBraceInUnicodeEscape",
        EscapeError::InvalidCharInUnicodeEscape => "InvalidCharInUnicodeEscape",
        EscapeError::EmptyUnicodeEscape => "EmptyUnicodeEscape",
        EscapeError::UnclosedUnicodeEscape => "UnclosedUnicodeEscape",
        EscapeError::LeadingUnderscoreUnicodeEscape => "LeadingUnderscoreUnicodeEscape",
        EscapeError::OverlongUnicodeEscape => "OverlongUnicodeEscape",
        EscapeError::LoneSurrogateUnicodeEscape => "LoneSurrogateUnicodeEscape",
        EscapeError::OutOfRangeUnicodeEscape => "OutOfRangeUnicodeEscape",
        EscapeError::UnicodeEscapeInByte => "UnicodeEscapeInByte",
        EscapeError::NonAsciiCharInByte => "NonAsciiCharInByte",
        EscapeError::NonAsciiCharInByteString => "NonAsciiCharInByteString",
    }
}

/// Whether `c` is a hexadecimal digit.
pub open spec fn is_hex_digit(c: char) -> bool {
    ('0' <= c && c <= '9') || ('a' <= c && c <= 'f') || ('A' <= c && c <= 'F')
}

/// The value of a hexadecimal digit.
pub open spec fn hex_val(c: char) -> int {
    if '0' <= c && c <= '9' {
        c as int - '0' as int
    } else if 'a' <= c && c <= 'f' {
        c as int - 'a' as int + 10
    } else {
        c as int - 'A' as int + 10
    }
}

fn hex_digit_of(c: char) -> (r: Option<u32>)
    ensures
        r is Some <==> is_hex_digit(c),
        r is Some ==> r->0 as int == hex_val(c) && r->0 < 16,
{
    if '0' <= c && c <= '9' {
        Some(c as u32 - '0' as u32)
    } else if 'a' <= c && c <= 'f' {
        Some(c as u32 - 'a' as u32 + 10)
    } else if 'A' <= c && c <= 'F' {
        Some(c as u32 - 'A' as u32 + 10)
    } else {
        None
    }
}

/// Whether `v` is a Unicode scalar value.
pub open spec fn is_scalar_value(v: int) -> bool {
    (0 <= v < 0xD800) || (0xDFFF < v <= 0x10FFFF)
}

/// An upper bound on the value a `\u{...}` escape can have gathered after
/// `n` digits (no digit beyond the sixth changes the value).
pub open spec fn val_cap(n: int) -> int {
    if n <= 1 {
        0x10
    } else if n == 2 {
        0x100
    } else if n == 3 {
        0x1000
    } else if n == 4 {
        0x10000
    } else if n == 5 {
        0x100000
    } else {
        0x1000000
    }
}

/// The tail of a `\u{...}` escape, after the opening brace and the first
/// digit have been read: `value` and `n_digits` carry what has been read so
/// far (`n_digits` counts no further than 7). Yields the resulting character
/// or the error, and the position just past the last character consumed.
pub open spec fn unicode_scan_spec(src: Seq<char>, i: int, value: int, n_digits: int) -> (Result<
    char,
    EscapeError,
>, int)
    decreases src.len() - i when 0 <= i <= src.len()
{
    if i >= src.len() {
        (Err(EscapeError::UnclosedUnicodeEscape), i)
    } else if src[i] == '_' {
        unicode_scan_spec(src, i + 1, value, n_digits)
    } else if src[i] == '}' {
        if n_digits > 6 {
            (Err(EscapeError::OverlongUnicodeEscape), i + 1)
        } else if is_scalar_value(value) {
            (Ok(value as char), i + 1)
        } else if value > 0x10FFFF {
            (Err(EscapeError::OutOfRangeUnicodeEscape), i + 1)
        } else {
            (Err(EscapeError::LoneSurrogateUnicodeEscape), i + 1)
        }
    } else if !is_hex_digit(src[i]) {
        (Err(EscapeError::InvalidCharInUnicodeEscape), i + 1)
    } else {
        let nd = if n_digits < 7 { n_digits + 1 } else { 7 };
        if nd > 6 {
            unicode_scan_spec(src, i + 1, value, nd)
        } else {
            unicode_scan_spec(src, i + 1, value * 16 + hex_val(src[i]), nd)
        }
    }
}

/// One escape, `first` being the character that opened it and `i` the
/// position after it. Yields the unescaped character or the error, and the
/// position just past what was consumed.
pub open spec fn scan_escape_spec(src: Seq<char>, first: char, i: int) -> (Result<
    char,
    EscapeError,
>, int) {
    if first != '\\' {
        if first == '\t' || first == '\n' {
            (Err(EscapeError::EscapeOnlyChar), i)
        } else if first == '\r' {
            (Err(EscapeError::BareCarriageReturn), i)
        } else if first == '"' {
            (Err(EscapeError::EscapeOnlyChar), i)
        } else {
            (Ok(first), i)
        }
    } else if i >= src.len() {
        (Err(EscapeError::LoneSlash), i)
    } else {
        let second = src[i];
        if second == '"' {
            (Ok('"'), i + 1)
        } else if second == 'n' {
            (Ok('\n'), i + 1)
        } else if second == 'r' {
            (Ok('\r'), i + 1)
        } else if second == 't' {
            (Ok('\t'), i + 1)
        } else if second == '\\' {
            (Ok('\\'), i + 1)
        } else if second == '\'' {
            (Ok('\''), i + 1)
        } else if second == '0' {
            (Ok('\0'), i + 1)
        } else if second == 'x' {
            if i + 1 >= src.len() {
                (Err(EscapeError::TooShortHexEscape), src.len() as int)
            } else if !is_hex_digit(src[i + 1]) {
                (Err(EscapeError::InvalidCharInHexEscape), i + 2)
            } else if i + 2 >= src.len() {
                (Err(EscapeError::TooShortHexEscape), src.len() as int)
            } else if !is_hex_digit(src[i + 2]) {
                (Err(EscapeError::InvalidCharInHexEscape), i + 3)
            } else {
                (Ok((hex_val(src[i + 1]) * 16 + hex_val(src[i + 2])) as char), i + 3)
            }
        } else if second == 'u' {
            if i + 1 >= src.len() || src[i + 1] != '{' {
                (Err(EscapeError::NoBraceInUnicodeEscape), if i + 1 >= src.len() {
                    src.len() as int
                } else {
                    i + 2
                })
            } else if i + 2 >= src.len() {
                (Err(EscapeError::UnclosedUnicodeEscape), src.len() as int)
            } else if src[i + 2] == '_' {
                (Err(EscapeError::LeadingUnderscoreUnicodeEscape), i + 3)
            } else if src[i + 2] == '}' {
                (Err(EscapeError::EmptyUnicodeEscape), i + 3)
            } else if !is_hex_digit(src[i + 2]) {
                (Err(EscapeError::InvalidCharInUnicodeEscape), i + 3)
            } else {
                unicode_scan_spec(src, i + 3, hex_val(src[i + 2]), 1)
            }
        } else {
            (Err(EscapeError::InvalidEscape), i + 1)
        }
    }
}

/// The position after the run of ASCII whitespace starting at `i`: the skip
/// that a backslash immediately before a newline performs.
pub open spec fn skip_ascii_ws_spec(src: Seq<char>, i: int) -> int
    decreases src.len() - i when 0 <= i <= src.len()
{
    if i < src.len() && (src[i] == ' ' || src[i] == '\t' || src[i] == '\n' || src[i] == '\r') {
        skip_ascii_ws_spec(src, i + 1)
    } else {
        i
    }
}

/// The unescaping events for `src` from position `i` on, appended to `acc`:
/// one event per unescaped character or error, carrying the range of
/// character positions it was read from.
pub open spec fn unescape_events_spec(
    src: Seq<char>,
    i: int,
    acc: Seq<(int, int, Result<char, EscapeError>)>,
) -> Seq<(int, int, Result<char, EscapeError>)>
    decreases src.len() - i when 0 <= i <= src.len()
{
    if i >= src.len() {
        acc
    } else {
        let first = src[i];
        if first == '\\' && i + 1 < src.len() && src[i + 1] == '\n' {
            let j = skip_ascii_ws_spec(src, i + 1);
            let j2 = if j <= i || j > src.len() { i + 1 } else { j };
            unescape_events_spec(src, j2, acc)
        } else if first == '\n' {
            unescape_events_spec(src, i + 1, acc.push((i, i + 1, Ok('\n'))))
        } else if first == '\t' {
            unescape_events_spec(src, i + 1, acc.push((i, i + 1, Ok('\t'))))
        } else {
            let (res, j) = scan_escape_spec(src, first, i + 1);
            let j2 = if j <= i || j > src.len() { i + 1 } else { j };
            unescape_events_spec(src, j2, acc.push((i, j2, res)))
        }
    }
}

/// The fold that `unescape_str_or_byte_str_all` performs over the events:
/// unescaped characters accumulate; an error replaces everything gathered so
/// far with the error text, and later characters append to that.
pub open spec fn apply_events_spec(
    evs: Seq<(int, int, Result<char, EscapeError>)>,
    i: int,
    buf: Seq<char>,
) -> Seq<char>
    decreases evs.len() - i when 0 <= i <= evs.len()
{
    if i >= evs.len() {
        buf
    } else {
        match evs[i].2 {
            Ok(c) => apply_events_spec(evs, i + 1, buf.push(c)),
            Err(e) => apply_events_spec(evs, i + 1, escape_error_text_spec(e)),
        }
    }
}

/// Whether the literal needs an unescaping pass at all.
pub open spec fn needs_unescape(s: Seq<char>) -> bool {
    exists|k: int| 0 <= k < s.len() && (s[k] == '\\' || s[k] == '\r')
}

/// What the raw inner text of a string literal stands for.
pub open spec fn unescape_all_spec(s: Seq<char>) -> Seq<char> {
    if needs_unescape(s) {
        apply_events_spec(unescape_events_spec(s, 0, Seq::empty()), 0, Seq::empty())
    } else {
        s
    }
}

fn scan_escape(src: &Vec<char>, first: char, i: usize) -> (r: (Result<char, EscapeError>, usize))
    requires
        i <= src@.len(),
    ensures
        (r.0, r.1 as int) == scan_escape_spec(src@, first, i as int),
        i <= r.1 <= src@.len(),
{
    if first != '\\' {
        let res: Result<char, EscapeError> = if first == '\t' || first == '\n' {
            Err(EscapeError::EscapeOnlyChar)
        } else if first == '\r' {
            Err(EscapeError::BareCarriageReturn)
        } else if first == '"' {
            Err(EscapeError::EscapeOnlyChar)
        } else {
            Ok(first)
        };
        return (res, i);
    }
    if i >= src.len() {
        return (Err(EscapeError::LoneSlash), i);
    }
    let second = src[i];
    match second {
        '"' => (Ok('"'), i + 1),
        'n' => (Ok('\n'), i + 1),
        'r' => (Ok('\r'), i + 1),
        't' => (Ok('\t'), i + 1),
        '\\' => (Ok('\\'), i + 1),
        '\'' => (Ok('\''), i + 1),
        '0' => (Ok('\0'), i + 1),
        'x' => {
            if i + 1 >= src.len() {
                return (Err(EscapeError::TooShortHexEscape), src.len());
            }
            let hi = match hex_digit_of(src[i + 1]) {
                Some(v) => v,
                None => {
                    return (Err(EscapeError::InvalidCharInHexEscape), i + 2);
                },
            };
            if i + 2 >= src.len() {
                return (Err(EscapeError::TooShortHexEscape), src.len());
            }
            let lo = match hex_digit_of(src[i + 2]) {
                Some(v) => v,
                None => {
                    return (Err(EscapeError::InvalidCharInHexEscape), i + 3);
                },
            };
            let value = hi * 16 + lo;
            let cr = crate::strutil::char_from_u32(value);
            let c = match cr {
                Some(c) => c,
                None => {
                    // a value below 0x100 is always a scalar value
                    proof {
                        assert(false);
                    }
                    '\0'
                },
            };
            proof {
                assert(value as int == hex_val(src@[i as int + 1]) * 16 + hex_val(
                    src@[i as int + 2],
                ));
                assert(c == (value as int) as char);
            }
            (Ok(c), i + 3)
        },
        'u' => {
            if i + 1 >= src.len() {
                return (Err(EscapeError::NoBraceInUnicodeEscape), src.len());
            }
            if src[i + 1] != '{' {
                return (Err(EscapeError::NoBraceInUnicodeEscape), i + 2);
            }
            if i + 2 >= src.len() {
                return (Err(EscapeError::UnclosedUnicodeEscape), src.len());
            }
            let d0 = src[i + 2];
            if d0 == '_' {
                return (Err(EscapeError::LeadingUnderscoreUnicodeEscape), i + 3);
            }
            if d0 == '}' {
                return (Err(EscapeError::EmptyUnicodeEscape), i + 3);
            }
            let v0 = match hex_digit_of(d0) {
                Some(v) => v,
                None => {
                    return (Err(EscapeError::InvalidCharInUnicodeEscape), i + 3);
                },
            };
            unicode_scan(src, i + 3, v0, 1)
        },
        _ => (Err(EscapeError::InvalidEscape), i + 1),
    }
}

fn unicode_scan(src: &Vec<char>, start: usize, value0: u32, n_digits0: u32) -> (r: (Result<
    char,
    EscapeError,
>, usize))
    requires
        start <= src@.len(),
        1 <= n_digits0 <= 7,
        value0 < val_cap(n_digits0 as int),
    ensures
        (r.0, r.1 as int) == unicode_scan_spec(src@, start as int, value0 as int, n_digits0 as int),
        start <= r.1 <= src@.len(),
{
    let mut i = start;
    let mut value = value0;
    let mut n_digits = n_digits0;
    loop
        invariant
            start <= i <= src@.len(),
            1 <= n_digits <= 7,
            value < val_cap(n_digits as int),
            unicode_scan_spec(src@, start as int, value0 as int, n_digits0 as int)
                == unicode_scan_spec(src@, i as int, value as int, n_digits as int),
        decreases src@.len() - i,
    {
        if i >= src.len() {
            return (Err(EscapeError::UnclosedUnicodeEscape), i);
        }
        let c = src[i];
        if c == '_' {
            i = i + 1;
        } else if c == '}' {
            if n_digits > 6 {
                return (Err(EscapeError::OverlongUnicodeEscape), i + 1);
            }
            let cr = crate::strutil::char_from_u32(value);
            return match cr {
                Some(ch) => {
                    proof {
                        assert(ch == (value as int) as char);
                    }
                    (Ok(ch), i + 1)
                },
                None => {
                    if value > 0x10FFFF {
                        (Err(EscapeError::OutOfRangeUnicodeEscape), i + 1)
                    } else {
                        (Err(EscapeError::LoneSurrogateUnicodeEscape), i + 1)
                    }
                },
            };
        } else {
            match hex_digit_of(c) {
                None => {
                    return (Err(EscapeError::InvalidCharInUnicodeEscape), i + 1);
                },
                Some(d) => {
                    let nd = if n_digits < 7 {
                        n_digits + 1
                    } else {
                        7
                    };
                    if nd <= 6 {
                        value = value * 16 + d;
                    }
                    n_digits = nd;
                    i = i + 1;
                },
            }
        }
    }
}

/// Takes the contents of a string literal (without the quotes) and yields the
/// sequence of unescaped characters or errors, each with the range of
/// character positions it came from.
pub fn unescape_str_or_byte_str(src: &Vec<char>) -> (evs: Vec<(usize, usize, Result<
    char,
    EscapeError,
>)>)
    ensures
        events_of(evs@) == unescape_events_spec(src@, 0, Seq::empty()),
{
    let mut evs: Vec<(usize, usize, Result<char, EscapeError>)> = Vec::new();
    let mut i: usize = 0;
    proof {
        assert(events_of(evs@) =~= Seq::empty());
    }
    while i < src.len()
        invariant
            i <= src@.len(),
            unescape_events_spec(src@, 0, Seq::empty()) == unescape_events_spec(
                src@,
                i as int,
                events_of(evs@),
            ),
        decreases src@.len() - i,
    {
        let first = src[i];
        if first == '\\' && i + 1 < src.len() && src[i + 1] == '\n' {
            let mut j = i + 1;
            while j < src.len() && (src[j] == ' ' || src[j] == '\t' || src[j] == '\n' || src[j]
                == '\r')
                invariant
                    i + 1 <= j <= src@.len(),
                    skip_ascii_ws_spec(src@, i as int + 1) == skip_ascii_ws_spec(src@, j as int),
                decreases src@.len() - j,
            {
                j = j + 1;
            }
            i = j;
        } else if first == '\n' {
            let ghost old_evs = evs@;
            evs.push((i, i + 1, Ok('\n')));
            proof {
                assert(events_of(evs@) =~= events_of(old_evs).push(
                    (i as int, i as int + 1, Ok('\n')),
                ));
            }
            i = i + 1;
        } else if first == '\t' {
            let ghost old_evs = evs@;
            evs.push((i, i + 1, Ok('\t')));
            proof {
                assert(events_of(evs@) =~= events_of(old_evs).push(
                    (i as int, i as int + 1, Ok('\t')),
                ));
            }
            i = i + 1;
        } else {
            let (res, j) = scan_escape(src, first, i + 1);
            let j2 = if j <= i {
                i + 1
            } else {
                j
            };
            let ghost old_evs = evs@;
            evs.push((i, j2, res));
            proof {
                assert(events_of(evs@) =~= events_of(old_evs).push((i as int, j2 as int, res)));
            }
            i = j2;
        }
    }
    evs
}

/// The events of the executable vector, seen mathematically.
pub open spec fn events_of(evs: Seq<(usize, usize, Result<char, EscapeError>)>) -> Seq<(
    int,
    int,
    Result<char, EscapeError>,
)> {
    Seq::new(evs.len(), |k: int| (evs[k].0 as int, evs[k].1 as int, evs[k].2))
}

/// The contents of a string literal after unescaping: errors collapse the
/// text gathered so far to a lexer-error note, as the events fold describes.
pub fn unescape_str_or_byte_str_all(s: &String) -> (r: String)
    ensures
        r@ == unescape_all_spec(s@),
{
    let chars = crate::strutil::str_to_chars(s.as_str());
    let mut needs: bool = false;
    let mut k: usize = 0;
    while k < chars.len()
        invariant
            k <= chars@.len(),
            chars@ == s@,
            needs == exists|m: int| 0 <= m < k && (chars@[m] == '\\' || chars@[m] == '\r'),
        decreases chars@.len() - k,
    {
        if chars[k] == '\\' || chars[k] == '\r' {
            needs = true;
        }
        k = k + 1;
    }
    if !needs {
        return s.clone();
    }
    let evs = unescape_str_or_byte_str(&chars);
    let ghost evs_v = events_of(evs@);
    let mut buf = String::new();
    let mut i: usize = 0;
    while i < evs.len()
        invariant
            i <= evs@.len(),
            evs_v == events_of(evs@),
            apply_events_spec(evs_v, 0, Seq::empty()) == apply_events_spec(evs_v, i as int, buf@),
        decreases evs@.len() - i,
    {
        match &evs[i].2 {
            Ok(c) => {
                push_char(&mut buf, *c);
            },
            Err(e) => {
                let mut t = String::new();
                t.append("<Lexer error: string: ");
                t.append(escape_error_name(e));
                t.append(">");
                buf = t;
                proof {
                    assert(buf@ =~= escape_error_text_spec(evs_v[i as int].2->Err_0));
                }
            },
        }
        i = i + 1;
    }
    buf
}

/// Renders a string as a quoted literal of the language: the quotes and the
/// characters the escape syntax needs are escaped, every other character
/// stands unchanged.
pub open spec fn escape_char_spec(c: char) -> Seq<char> {
    if c == '"' {
        seq!['\\', '"']
    } else if c == '\\' {
        seq!['\\', '\\']
    } else if c == '\n' {
        seq!['\\', 'n']
    } else if c == '\r' {
        seq!['\\', 'r']
    } else if c == '\t' {
        seq!['\\', 't']
    } else if c == '\0' {
        seq!['\\', '0']
    } else {
        seq![c]
    }
}

/// The quoted form of `s`, escape by escape.
pub open spec fn escape_str_app_spec(s: Seq<char>, i: int, acc: Seq<char>) -> Seq<char>
    decreases s.len() - i when 0 <= i <= s.len()
{
    if i >= s.len() {
        acc.push('"')
    } else {
        escape_str_app_spec(s, i + 1, acc + escape_char_spec(s[i]))
    }
}

/// The display form of a string value: quoted, with the language's escapes.
pub open spec fn escape_str_spec(s: Seq<char>) -> Seq<char> {
    escape_str_app_spec(s, 0, seq!['"'])
}

/// The quoted literal form of a string, used by the formatter and by value
/// display.
pub fn escape_str(s: &str) -> (r: String)
    ensures
        r@ == escape_str_spec(s@),
{
    let chars = crate::strutil::str_to_chars(s);
    let mut buf = String::new();
    push_char(&mut buf, '"');
    proof {
        assert(buf@ =~= seq!['"']);
    }
    let mut i: usize = 0;
    while i < chars.len()
        invariant
            i <= chars@.len(),
            chars@ == s@,
            escape_str_app_spec(chars@, 0, seq!['"']) == escape_str_app_spec(
                chars@,
                i as int,
                buf@,
            ),
        decreases chars@.len() - i,
    {
        let c = chars[i];
        let ghost prev = buf@;
        if c == '"' {
            push_char(&mut buf, '\\');
            push_char(&mut buf, '"');
        } else if c == '\\' {
            push_char(&mut buf, '\\');
            push_char(&mut buf, '\\');
        } else if c == '\n' {
            push_char(&mut buf, '\\');
            push_char(&mut buf, 'n');
        } else if c == '\r' {
            push_char(&mut buf, '\\');
            push_char(&mut buf, 'r');
        } else if c == '\t' {
            push_char(&mut buf, '\\');
            push_char(&mut buf, 't');
        } else if c == '\0' {
            push_char(&mut buf, '\\');
            push_char(&mut buf, '0');
        } else {
            push_char(&mut buf, c);
        }
        proof {
            assert(buf@ =~= prev + escape_char_spec(chars@[i as int]));
        }
        i = i + 1;
    }
    push_char(&mut buf, '"');
    buf
}

} // verus!
