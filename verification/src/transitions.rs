//! Decoding of operator-supplied lifecycle transition specifications.
//!
//! A transition specification is a JSON list of records. Each record holds a
//! non-negative `days` integer and a `storage_class` name from the fixed
//! enumerated set, each exactly once; members with other keys are read and
//! discarded. The grammar is defined by the `spec_parse_*` and `spec_skip_*`
//! functions below; the executable parser is proved to return exactly what
//! the grammar prescribes.

use vstd::prelude::*;

use crate::strutil::chars_eq;
use crate::strutil::chars_to_string;
use crate::strutil::str_eq;

verus! {

/// The closed set of storage classes a transition may target.
#[derive(Clone, Copy, Debug, PartialEq, Eq, Structural)]
pub enum StorageClass {
    StandardIa,
    OnezoneIa,
    IntelligentTiering,
    Glacier,
    DeepArchive,
}

/// One lifecycle transition: after `days` days, move objects to
/// `storage_class`. `days` is non-negative by construction of the parser.
#[derive(Clone, Copy, Debug, PartialEq, Eq, Structural)]
pub struct Transition {
    pub days: i32,
    pub storage_class: StorageClass,
}

/// JSON whitespace.
pub open spec fn is_json_ws(c: char) -> bool {
    c == ' ' || c == '\t' || c == '\n' || c == '\r'
}

/// An ASCII decimal digit.
pub open spec fn is_digit_char(c: char) -> bool {
    '0' as u32 <= c as u32 && c as u32 <= '9' as u32
}

/// The numeric value of an ASCII decimal digit.
pub open spec fn digit_val(c: char) -> int {
    c as u32 - '0' as u32
}

/// An ASCII hexadecimal digit.
pub open spec fn is_hex_digit(c: char) -> bool {
    ||| '0' as u32 <= c as u32 && c as u32 <= '9' as u32
    ||| 'a' as u32 <= c as u32 && c as u32 <= 'f' as u32
    ||| 'A' as u32 <= c as u32 && c as u32 <= 'F' as u32
}

/// The numeric value of an ASCII hexadecimal digit.
pub open spec fn hex_val(c: char) -> int {
    if '0' as u32 <= c as u32 && c as u32 <= '9' as u32 {
        c as u32 - '0' as u32
    } else if 'a' as u32 <= c as u32 && c as u32 <= 'f' as u32 {
        c as u32 - 'a' as u32 + 10
    } else {
        c as u32 - 'A' as u32 + 10
    }
}

/// The value of the four hexadecimal digits at `i`, if they are there.
pub open spec fn spec_hex4(s: Seq<char>, i: int) -> Option<int> {
    if 0 <= i && i + 4 <= s.len() && is_hex_digit(s[i]) && is_hex_digit(s[i + 1]) && is_hex_digit(
        s[i + 2],
    ) && is_hex_digit(s[i + 3]) {
        Some(hex_val(s[i]) * 4096 + hex_val(s[i + 1]) * 256 + hex_val(s[i + 2]) * 16 + hex_val(
            s[i + 3],
        ))
    } else {
        None
    }
}

/// The character with unicode scalar value `v`.
pub uninterp spec fn char_of(v: u32) -> char;

/// Relies on `char::from_u32`: it returns a character exactly for the valid
/// scalar values (not a surrogate, at most 0x10FFFF), namely the character
/// with that value.
#[verifier::external_body]
fn char_from_u32(v: u32) -> (r: Option<char>)
    ensures
        r is Some <==> (v < 0xD800 || (0xE000 <= v && v <= 0x10FFFF)),
        r matches Some(c) ==> c == char_of(v) && c as u32 == v,
{
    char::from_u32(v)
}

/// The first index at or after `i` holding a non-whitespace character.
pub open spec fn spec_skip_ws(s: Seq<char>, i: int) -> int
    decreases s.len() - i when 0 <= i
{
    if i < s.len() && is_json_ws(s[i]) {
        spec_skip_ws(s, i + 1)
    } else {
        i
    }
}

/// The decoded remainder of a string literal, starting inside the quotes at
/// `i` with `acc` already decoded: the content and the index just past the
/// closing quote. Escapes `\" \\ \/ \b \f \n \r \t` and `\uXXXX` (with a
/// surrogate pair decoding to one character) are decoded; other escapes,
/// lone surrogates, and raw control characters are rejected.
pub open spec fn spec_string_rest(s: Seq<char>, i: int, acc: Seq<char>) -> Option<(Seq<char>, int)>
    decreases s.len() - i when 0 <= i
{
    if i >= s.len() {
        None
    } else if s[i] == '"' {
        Some((acc, i + 1))
    } else if s[i] == '\\' {
        if i + 1 < s.len() {
            let e = s[i + 1];
            if e == '"' {
                spec_string_rest(s, i + 2, acc.push('"'))
            } else if e == '\\' {
                spec_string_rest(s, i + 2, acc.push('\\'))
            } else if e == '/' {
                spec_string_rest(s, i + 2, acc.push('/'))
            } else if e == 'b' {
                spec_string_rest(s, i + 2, acc.push('\u{8}'))
            } else if e == 'f' {
                spec_string_rest(s, i + 2, acc.push('\u{c}'))
            } else if e == 'n' {
                spec_string_rest(s, i + 2, acc.push('\n'))
            } else if e == 'r' {
                spec_string_rest(s, i + 2, acc.push('\r'))
            } else if e == 't' {
                spec_string_rest(s, i + 2, acc.push('\t'))
            } else if e == 'u' {
                match spec_hex4(s, i + 2) {
                    None => None,
                    Some(c1) => {
                        if 0xD800 <= c1 < 0xDC00 {
                            if i + 8 <= s.len() && s[i + 6] == '\\' && s[i + 7] == 'u' {
                                match spec_hex4(s, i + 8) {
                                    None => None,
                                    Some(c2) => {
                                        if 0xDC00 <= c2 < 0xE000 {
                                            let code = 0x10000 + (c1 - 0xD800) * 0x400 + (c2
                                                - 0xDC00);
                                            spec_string_rest(s, i + 12, acc.push(char_of(code as u32)))
                                        } else {
                                            None
                                        }
                                    },
                                }
                            } else {
                                None
                            }
                        } else if 0xDC00 <= c1 < 0xE000 {
                            None
                        } else {
                            spec_string_rest(s, i + 6, acc.push(char_of(c1 as u32)))
                        }
                    },
                }
            } else {
                None
            }
        } else {
            None
        }
    } else if (s[i] as u32) < 32 {
        None
    } else {
        spec_string_rest(s, i + 1, acc.push(s[i]))
    }
}

/// A whole string literal starting at `i`: its decoded content and the index
/// just past the closing quote.
pub open spec fn spec_parse_string(s: Seq<char>, i: int) -> Option<(Seq<char>, int)> {
    if 0 <= i < s.len() && s[i] == '"' {
        spec_string_rest(s, i + 1, Seq::empty())
    } else {
        None
    }
}

/// The first index at or after `i` holding a non-digit character.
pub open spec fn spec_digit_run_end(s: Seq<char>, i: int) -> int
    decreases s.len() - i when 0 <= i
{
    if i < s.len() && is_digit_char(s[i]) {
        spec_digit_run_end(s, i + 1)
    } else {
        i
    }
}

/// The value of the decimal digits of `s` in the range `[i, k)`.
pub open spec fn spec_digits_value(s: Seq<char>, i: int, k: int) -> int
    decreases k - i,
{
    if k <= i {
        0
    } else {
        spec_digits_value(s, i, k - 1) * 10 + digit_val(s[k - 1])
    }
}

/// A number token starting at `i`: its value and the index just past it.
/// Only integers in `[0, 2147483647]` are accepted (a negative zero is
/// tolerated); fractional or exponent forms and out-of-range values yield
/// `None`.
pub open spec fn spec_parse_number(s: Seq<char>, i: int) -> Option<(i32, int)> {
    if !(0 <= i < s.len()) {
        None
    } else {
        let neg = s[i] == '-';
        let j0 = if neg {
            i + 1
        } else {
            i
        };
        if !(j0 < s.len() && is_digit_char(s[j0])) {
            None
        } else {
            let v = if s[j0] == '0' {
                0
            } else {
                spec_digits_value(s, j0, spec_digit_run_end(s, j0))
            };
            let j = if s[j0] == '0' {
                j0 + 1
            } else {
                spec_digit_run_end(s, j0)
            };
            if j < s.len() && (s[j] == '.' || s[j] == 'e' || s[j] == 'E') {
                None
            } else if neg && v != 0 {
                None
            } else if v > 2147483647 {
                None
            } else {
                Some((v as i32, j))
            }
        }
    }
}

/// Advances past JSON whitespace.
pub(crate) fn skip_ws(s: &str, len: usize, i: usize) -> (j: usize)
    requires
        len == s@.len(),
        i <= len,
    ensures
        j as int == spec_skip_ws(s@, i as int),
        i <= j <= len,
    decreases len - i,
{
    if i < len {
        let c = s.get_char(i);
        if c == ' ' || c == '\t' || c == '\n' || c == '\r' {
            return skip_ws(s, len, i + 1);
        }
    }
    i
}

/// The value of one hexadecimal digit character, if it is one.
fn hex_digit(c: char) -> (r: Option<u32>)
    ensures
        r is Some <==> is_hex_digit(c),
        r matches Some(v) ==> v as int == hex_val(c) && v <= 15,
{
    let u = c as u32;
    if 48 <= u && u <= 57 {
        Some(u - 48)
    } else if 97 <= u && u <= 102 {
        Some(u - 97 + 10)
    } else if 65 <= u && u <= 70 {
        Some(u - 65 + 10)
    } else {
        None
    }
}

/// Reads four hexadecimal digits, mirroring `spec_hex4`.
fn hex4(s: &str, len: usize, i: usize) -> (r: Option<u32>)
    requires
        len == s@.len(),
        i <= len,
    ensures
        match spec_hex4(s@, i as int) {
            None => r is None,
            Some(v) => r matches Some(x) && x as int == v && i + 4 <= len,
        },
{
    if len - i < 4 {
        return None;
    }
    let d0 = hex_digit(s.get_char(i));
    let d1 = hex_digit(s.get_char(i + 1));
    let d2 = hex_digit(s.get_char(i + 2));
    let d3 = hex_digit(s.get_char(i + 3));
    match (d0, d1, d2, d3) {
        (Some(v0), Some(v1), Some(v2), Some(v3)) => Some(v0 * 4096 + v1 * 256 + v2 * 16 + v3),
        _ => None,
    }
}

/// Decodes the remainder of a string literal, mirroring `spec_string_rest`.
fn string_rest(s: &str, len: usize, i: usize, acc: Vec<char>) -> (r: Option<(Vec<char>, usize)>)
    requires
        len == s@.len(),
        i <= len,
    ensures
        match spec_string_rest(s@, i as int, acc@) {
            None => r is None,
            Some(sp) => r matches Some(e) && e.0@ == sp.0 && e.1 as int == sp.1 && i < e.1 <= len,
        },
    decreases len - i,
{
    if i >= len {
        return None;
    }
    let c = s.get_char(i);
    if c == '"' {
        return Some((acc, i + 1));
    }
    if c == '\\' {
        if i + 1 < len {
            let e = s.get_char(i + 1);
            if e == 'u' {
                match hex4(s, len, i + 2) {
                    None => {
                        return None;
                    },
                    Some(c1) => {
                        if 0xD800 <= c1 && c1 < 0xDC00 {
                            if len - i >= 8 && s.get_char(i + 6) == '\\' && s.get_char(i + 7)
                                == 'u' {
                                match hex4(s, len, i + 8) {
                                    None => {
                                        return None;
                                    },
                                    Some(c2) => {
                                        if 0xDC00 <= c2 && c2 < 0xE000 {
                                            let code = 0x10000 + (c1 - 0xD800) * 0x400 + (c2
                                                - 0xDC00);
                                            match char_from_u32(code) {
                                                Some(ch) => {
                                                    let mut acc2 = acc;
                                                    acc2.push(ch);
                                                    return string_rest(s, len, i + 12, acc2);
                                                },
                                                None => {
                                                    return None;
                                                },
                                            }
                                        } else {
                                            return None;
                                        }
                                    },
                                }
                            } else {
                                return None;
                            }
                        } else if 0xDC00 <= c1 && c1 < 0xE000 {
                            return None;
                        } else {
                            match char_from_u32(c1) {
                                Some(ch) => {
                                    let mut acc2 = acc;
                                    acc2.push(ch);
                                    return string_rest(s, len, i + 6, acc2);
                                },
                                None => {
                                    return None;
                                },
                            }
                        }
                    },
                }
            }
            let mut acc2 = acc;
            if e == '"' {
                acc2.push('"');
            } else if e == '\\' {
                acc2.push('\\');
            } else if e == '/' {
                acc2.push('/');
            } else if e == 'b' {
                acc2.push('\u{8}');
            } else if e == 'f' {
                acc2.push('\u{c}');
            } else if e == 'n' {
                acc2.push('\n');
            } else if e == 'r' {
                acc2.push('\r');
            } else if e == 't' {
                acc2.push('\t');
            } else {
                return None;
            }
            return string_rest(s, len, i + 2, acc2);
        }
        return None;
    }
    if (c as u32) < 32 {
        return None;
    }
    let mut acc2 = acc;
    acc2.push(c);
    string_rest(s, len, i + 1, acc2)
}

/// Decodes a whole string literal, mirroring `spec_parse_string`.
fn parse_string(s: &str, len: usize, i: usize) -> (r: Option<(Vec<char>, usize)>)
    requires
        len == s@.len(),
        i <= len,
    ensures
        match spec_parse_string(s@, i as int) {
            None => r is None,
            Some(sp) => r matches Some(e) && e.0@ == sp.0 && e.1 as int == sp.1 && i < e.1 <= len,
        },
{
    if i < len && s.get_char(i) == '"' {
        string_rest(s, len, i + 1, Vec::new())
    } else {
        None
    }
}

/// If every character in `[i, k)` is a digit and `k` sits at the end of the
/// run, then `k` is where the digit run ends.
proof fn lemma_digit_run_end_at(s: Seq<char>, i: int, k: int)
    requires
        0 <= i <= k <= s.len(),
        forall|m: int| i <= m < k ==> is_digit_char(#[trigger] s[m]),
        k == s.len() || !is_digit_char(s[k]),
    ensures
        spec_digit_run_end(s, i) == k,
    decreases k - i,
{
    if i < k {
        lemma_digit_run_end_at(s, i + 1, k);
    }
}

/// Decodes a number token, mirroring `spec_parse_number`.
fn parse_number(s: &str, len: usize, i: usize) -> (r: Option<(i32, usize)>)
    requires
        len == s@.len(),
        i <= len,
    ensures
        match spec_parse_number(s@, i as int) {
            None => r is None,
            Some(sp) => r matches Some(e) && e.0 == sp.0 && e.1 as int == sp.1 && i < e.1 <= len,
        },
{
    if i >= len {
        return None;
    }
    let neg = s.get_char(i) == '-';
    let j0 = if neg {
        i + 1
    } else {
        i
    };
    if !(j0 < len) {
        return None;
    }
    let c0 = s.get_char(j0);
    if !(48 <= c0 as u32 && c0 as u32 <= 57) {
        return None;
    }
    let mut v: u64;
    let mut j: usize;
    if c0 == '0' {
        v = 0;
        j = j0 + 1;
        proof {
            assert(spec_digits_value(s@, j0 as int, j0 as int) == 0);
        }
    } else {
        v = 0;
        j = j0;
        while j < len && 48 <= s.get_char(j) as u32 && s.get_char(j) as u32 <= 57
            invariant
                len == s@.len(),
                j0 <= j <= len,
                forall|m: int| j0 <= m < j ==> is_digit_char(#[trigger] s@[m]),
                (v as int == spec_digits_value(s@, j0 as int, j as int) && v < 2147483648u64)
                    || (v == 2147483648u64 && spec_digits_value(s@, j0 as int, j as int)
                    >= 2147483648),
            decreases len - j,
        {
            let c = s.get_char(j);
            let d = (c as u32 - 48) as u64;
            proof {
                assert(spec_digits_value(s@, j0 as int, j as int + 1) == spec_digits_value(
                    s@,
                    j0 as int,
                    j as int,
                ) * 10 + digit_val(s@[j as int]));
            }
            let n = v * 10 + d;
            if n >= 2147483648u64 {
                v = 2147483648u64;
            } else {
                v = n;
            }
            j += 1;
        }
        proof {
            lemma_digit_run_end_at(s@, j0 as int, j as int);
        }
    }
    if j < len {
        let cj = s.get_char(j);
        if cj == '.' || cj == 'e' || cj == 'E' {
            return None;
        }
    }
    if neg && v != 0 {
        return None;
    }
    if v > 2147483647 {
        return None;
    }
    Some((v as i32, j))
}

/// The end of a number token in full JSON form (optional sign, integer
/// part, optional fraction, optional exponent), or `None` where no such
/// token starts at `i`. Used only to read past numbers that are discarded.
pub open spec fn spec_skip_number(s: Seq<char>, i: int) -> Option<int> {
    if !(0 <= i < s.len()) {
        None
    } else {
        let j0 = if s[i] == '-' {
            i + 1
        } else {
            i
        };
        if !(j0 < s.len() && is_digit_char(s[j0])) {
            None
        } else {
            let j1 = if s[j0] == '0' {
                j0 + 1
            } else {
                spec_digit_run_end(s, j0)
            };
            let j2 = if j1 < s.len() && s[j1] == '.' {
                if j1 + 1 < s.len() && is_digit_char(s[j1 + 1]) {
                    spec_digit_run_end(s, j1 + 1)
                } else {
                    -1
                }
            } else {
                j1
            };
            if j2 < 0 {
                None
            } else {
                let j3 = if j2 < s.len() && (s[j2] == 'e' || s[j2] == 'E') {
                    let p = if j2 + 1 < s.len() && (s[j2 + 1] == '+' || s[j2 + 1] == '-') {
                        j2 + 2
                    } else {
                        j2 + 1
                    };
                    if p < s.len() && is_digit_char(s[p]) {
                        spec_digit_run_end(s, p)
                    } else {
                        -1
                    }
                } else {
                    j2
                };
                if j3 < 0 {
                    None
                } else {
                    Some(j3)
                }
            }
        }
    }
}

/// The end of any JSON value starting at `i` (string, number, literal,
/// array or object), or `None` where none starts there. Used only to read
/// past the values of members this tool does not understand.
pub open spec fn spec_skip_value(s: Seq<char>, i: int) -> Option<int>
    decreases s.len() - i, 0int when 0 <= i
{
    if i >= s.len() {
        None
    } else if s[i] == '"' {
        match spec_parse_string(s, i) {
            None => None,
            Some((v, j)) => Some(j),
        }
    } else if s[i] == '-' || is_digit_char(s[i]) {
        spec_skip_number(s, i)
    } else if s[i] == 't' {
        if i + 4 <= s.len() && s[i + 1] == 'r' && s[i + 2] == 'u' && s[i + 3] == 'e' {
            Some(i + 4)
        } else {
            None
        }
    } else if s[i] == 'f' {
        if i + 5 <= s.len() && s[i + 1] == 'a' && s[i + 2] == 'l' && s[i + 3] == 's' && s[i + 4]
            == 'e' {
            Some(i + 5)
        } else {
            None
        }
    } else if s[i] == 'n' {
        if i + 4 <= s.len() && s[i + 1] == 'u' && s[i + 2] == 'l' && s[i + 3] == 'l' {
            Some(i + 4)
        } else {
            None
        }
    } else if s[i] == '[' {
        spec_skip_array_rest(s, i + 1)
    } else if s[i] == '{' {
        spec_skip_object_rest(s, i + 1)
    } else {
        None
    }
}

/// The end of an array whose opening bracket stands just before `i`.
pub open spec fn spec_skip_array_rest(s: Seq<char>, i: int) -> Option<int>
    decreases s.len() - i, 1int when 0 <= i
{
    let j = spec_skip_ws(s, i);
    if j < s.len() && s[j] == ']' {
        Some(j + 1)
    } else if i <= j && j <= s.len() {
        match spec_skip_value(s, j) {
            None => None,
            Some(k) => {
                let j2 = spec_skip_ws(s, k);
                if j2 < s.len() && s[j2] == ']' {
                    Some(j2 + 1)
                } else if j2 < s.len() && s[j2] == ',' {
                    if i < j2 + 1 && j2 + 1 <= s.len() {
                        spec_skip_array_rest(s, j2 + 1)
                    } else {
                        None
                    }
                } else {
                    None
                }
            },
        }
    } else {
        None
    }
}

/// The end of an object whose opening brace stands just before `i`.
pub open spec fn spec_skip_object_rest(s: Seq<char>, i: int) -> Option<int>
    decreases s.len() - i, 1int when 0 <= i
{
    let j = spec_skip_ws(s, i);
    if j < s.len() && s[j] == '}' {
        Some(j + 1)
    } else {
        match spec_parse_string(s, j) {
            None => None,
            Some((key, k)) => {
                let j1 = spec_skip_ws(s, k);
                if j1 < s.len() && s[j1] == ':' {
                    let j2 = spec_skip_ws(s, j1 + 1);
                    if i <= j2 && j2 <= s.len() {
                        match spec_skip_value(s, j2) {
                            None => None,
                            Some(k2) => {
                                let j3 = spec_skip_ws(s, k2);
                                if j3 < s.len() && s[j3] == '}' {
                                    Some(j3 + 1)
                                } else if j3 < s.len() && s[j3] == ',' {
                                    if i < j3 + 1 && j3 + 1 <= s.len() {
                                        spec_skip_object_rest(s, j3 + 1)
                                    } else {
                                        None
                                    }
                                } else {
                                    None
                                }
                            },
                        }
                    } else {
                        None
                    }
                } else {
                    None
                }
            },
        }
    }
}

/// Advances past decimal digits, mirroring `spec_digit_run_end`.
fn digit_run_end(s: &str, len: usize, i: usize) -> (j: usize)
    requires
        len == s@.len(),
        i <= len,
    ensures
        j as int == spec_digit_run_end(s@, i as int),
        i <= j <= len,
    decreases len - i,
{
    if i < len {
        let c = s.get_char(i);
        if 48 <= c as u32 && c as u32 <= 57 {
            return digit_run_end(s, len, i + 1);
        }
    }
    i
}

/// Reads past a number token, mirroring `spec_skip_number`.
fn skip_number(s: &str, len: usize, i: usize) -> (r: Option<usize>)
    requires
        len == s@.len(),
        i <= len,
    ensures
        match spec_skip_number(s@, i as int) {
            None => r is None,
            Some(j) => r matches Some(x) && x as int == j && i < x <= len,
        },
{
    if i >= len {
        return None;
    }
    let j0 = if s.get_char(i) == '-' {
        i + 1
    } else {
        i
    };
    if !(j0 < len) {
        return None;
    }
    let c0 = s.get_char(j0);
    if !(48 <= c0 as u32 && c0 as u32 <= 57) {
        return None;
    }
    let j1 = if c0 == '0' {
        j0 + 1
    } else {
        proof {
            assert(spec_digit_run_end(s@, j0 as int) == spec_digit_run_end(s@, j0 as int + 1));
        }
        digit_run_end(s, len, j0 + 1)
    };
    let mut j2 = j1;
    if j1 < len && s.get_char(j1) == '.' {
        if j1 + 1 < len {
            let cf = s.get_char(j1 + 1);
            if 48 <= cf as u32 && cf as u32 <= 57 {
                j2 = digit_run_end(s, len, j1 + 1);
            } else {
                return None;
            }
        } else {
            return None;
        }
    }
    let mut j3 = j2;
    if j2 < len && (s.get_char(j2) == 'e' || s.get_char(j2) == 'E') {
        let p = if j2 + 1 < len && (s.get_char(j2 + 1) == '+' || s.get_char(j2 + 1) == '-') {
            j2 + 2
        } else {
            j2 + 1
        };
        if p < len {
            let ce = s.get_char(p);
            if 48 <= ce as u32 && ce as u32 <= 57 {
                j3 = digit_run_end(s, len, p);
            } else {
                return None;
            }
        } else {
            return None;
        }
    }
    Some(j3)
}

/// Reads past any JSON value, mirroring `spec_skip_value`.
fn skip_value(s: &str, len: usize, i: usize) -> (r: Option<usize>)
    requires
        len == s@.len(),
        i <= len,
    ensures
        match spec_skip_value(s@, i as int) {
            None => r is None,
            Some(j) => r matches Some(x) && x as int == j && i < x <= len,
        },
    decreases len - i, 0usize,
{
    if i >= len {
        return None;
    }
    let c = s.get_char(i);
    if c == '"' {
        match parse_string(s, len, i) {
            None => None,
            Some((v, j)) => Some(j),
        }
    } else if c == '-' || (48 <= c as u32 && c as u32 <= 57) {
        skip_number(s, len, i)
    } else if c == 't' {
        if len - i >= 4 && s.get_char(i + 1) == 'r' && s.get_char(i + 2) == 'u' && s.get_char(
            i + 3,
        ) == 'e' {
            Some(i + 4)
        } else {
            None
        }
    } else if c == 'f' {
        if len - i >= 5 && s.get_char(i + 1) == 'a' && s.get_char(i + 2) == 'l' && s.get_char(
            i + 3,
        ) == 's' && s.get_char(i + 4) == 'e' {
            Some(i + 5)
        } else {
            None
        }
    } else if c == 'n' {
        if len - i >= 4 && s.get_char(i + 1) == 'u' && s.get_char(i + 2) == 'l' && s.get_char(
            i + 3,
        ) == 'l' {
            Some(i + 4)
        } else {
            None
        }
    } else if c == '[' {
        skip_array_rest(s, len, i + 1)
    } else if c == '{' {
        skip_object_rest(s, len, i + 1)
    } else {
        None
    }
}

/// Reads to the end of an array, mirroring `spec_skip_array_rest`.
fn skip_array_rest(s: &str, len: usize, i: usize) -> (r: Option<usize>)
    requires
        len == s@.len(),
        i <= len,
    ensures
        match spec_skip_array_rest(s@, i as int) {
            None => r is None,
            Some(j) => r matches Some(x) && x as int == j && i < x <= len,
        },
    decreases len - i, 1usize,
{
    let j = skip_ws(s, len, i);
    if j < len && s.get_char(j) == ']' {
        return Some(j + 1);
    }
    match skip_value(s, len, j) {
        None => None,
        Some(k) => {
            let j2 = skip_ws(s, len, k);
            if j2 < len && s.get_char(j2) == ']' {
                Some(j2 + 1)
            } else if j2 < len && s.get_char(j2) == ',' {
                skip_array_rest(s, len, j2 + 1)
            } else {
                None
            }
        },
    }
}

/// Reads to the end of an object, mirroring `spec_skip_object_rest`.
fn skip_object_rest(s: &str, len: usize, i: usize) -> (r: Option<usize>)
    requires
        len == s@.len(),
        i <= len,
    ensures
        match spec_skip_object_rest(s@, i as int) {
            None => r is None,
            Some(j) => r matches Some(x) && x as int == j && i < x <= len,
        },
    decreases len - i, 1usize,
{
    let j = skip_ws(s, len, i);
    if j < len && s.get_char(j) == '}' {
        return Some(j + 1);
    }
    match parse_string(s, len, j) {
        None => None,
        Some((key, k)) => {
            let j1 = skip_ws(s, len, k);
            if j1 < len && s.get_char(j1) == ':' {
                let j2 = skip_ws(s, len, j1 + 1);
                match skip_value(s, len, j2) {
                    None => None,
                    Some(k2) => {
                        let j3 = skip_ws(s, len, k2);
                        if j3 < len && s.get_char(j3) == '}' {
                            Some(j3 + 1)
                        } else if j3 < len && s.get_char(j3) == ',' {
                            skip_object_rest(s, len, j3 + 1)
                        } else {
                            None
                        }
                    },
                }
            } else {
                None
            }
        },
    }
}

/// One `key: value` member of a record, starting at the opening quote of the
/// key. Exactly two keys are understood: `days` takes a number and
/// `storage_class` takes a string; any other member's value is read and
/// discarded, as a decoder of such records tolerates fields it does not
/// know. The result carries the one understood value, if one was read.
pub open spec fn spec_parse_member(s: Seq<char>, i: int) -> Option<
    ((Option<i32>, Option<Seq<char>>), int),
> {
    match spec_parse_string(s, i) {
        None => None,
        Some((key, j)) => {
            let j1 = spec_skip_ws(s, j);
            if j1 < s.len() && s[j1] == ':' {
                let j2 = spec_skip_ws(s, j1 + 1);
                if key == "days"@ {
                    match spec_parse_number(s, j2) {
                        None => None,
                        Some((d, j3)) => Some(((Some(d), None), j3)),
                    }
                } else if key == "storage_class"@ {
                    match spec_parse_string(s, j2) {
                        None => None,
                        Some((v, j3)) => Some(((None, Some(v)), j3)),
                    }
                } else {
                    match spec_skip_value(s, j2) {
                        None => None,
                        Some(j3) => Some(((None, None), j3)),
                    }
                }
            } else {
                None
            }
        },
    }
}

/// The members of a record from `i` on, with `d` and `c` the understood
/// values read so far: the completed `(days, storage_class)` pair and the
/// index just past the closing brace. A duplicate of an understood member,
/// or a record that ends with either still missing, is rejected.
pub open spec fn spec_members_rest(
    s: Seq<char>,
    i: int,
    d: Option<i32>,
    c: Option<Seq<char>>,
) -> Option<((i32, Seq<char>), int)>
    decreases s.len() - i when 0 <= i
{
    match spec_parse_member(s, i) {
        None => None,
        Some((m, j)) => {
            if (m.0 is Some && d is Some) || (m.1 is Some && c is Some) {
                None
            } else {
                let d2 = if m.0 is Some {
                    m.0
                } else {
                    d
                };
                let c2 = if m.1 is Some {
                    m.1
                } else {
                    c
                };
                let j1 = spec_skip_ws(s, j);
                if j1 < s.len() && s[j1] == '}' {
                    match (d2, c2) {
                        (Some(dv), Some(cv)) => Some(((dv, cv), j1 + 1)),
                        _ => None,
                    }
                } else if j1 < s.len() && s[j1] == ',' {
                    let j2 = spec_skip_ws(s, j1 + 1);
                    if i < j2 && j2 <= s.len() {
                        spec_members_rest(s, j2, d2, c2)
                    } else {
                        None
                    }
                } else {
                    None
                }
            }
        },
    }
}

/// A record `{ ... }` starting at `i`: its `(days, storage_class)` pair and
/// the index just past the closing brace. A record holds each of the two
/// understood members exactly once, in any position among members this tool
/// does not understand.
pub open spec fn spec_parse_record(s: Seq<char>, i: int) -> Option<((i32, Seq<char>), int)> {
    if !(0 <= i < s.len() && s[i] == '{') {
        None
    } else {
        let j0 = spec_skip_ws(s, i + 1);
        if j0 < s.len() && s[j0] == '}' {
            None
        } else {
            spec_members_rest(s, j0, None, None)
        }
    }
}

/// A non-empty, comma-separated run of records starting at `i`, ended by
/// `]`: the records and the index just past the bracket.
pub open spec fn spec_records_rest(s: Seq<char>, i: int) -> Option<(Seq<(i32, Seq<char>)>, int)>
    decreases s.len() - i when 0 <= i
{
    match spec_parse_record(s, i) {
        None => None,
        Some((rec, k)) => {
            let j = spec_skip_ws(s, k);
            if j < s.len() && s[j] == ']' {
                Some((seq![rec], j + 1))
            } else if j < s.len() && s[j] == ',' {
                let j2 = spec_skip_ws(s, j + 1);
                if i < j2 && j2 <= s.len() {
                    match spec_records_rest(s, j2) {
                        None => None,
                        Some((rest, m)) => Some((seq![rec] + rest, m)),
                    }
                } else {
                    None
                }
            } else {
                None
            }
        },
    }
}

/// A whole transition specification: a bracketed, comma-separated list of
/// records, possibly empty, surrounded by whitespace, spanning the entire
/// input.
pub open spec fn spec_parse_transitions(s: Seq<char>) -> Option<Seq<(i32, Seq<char>)>> {
    let i0 = spec_skip_ws(s, 0);
    if i0 < s.len() && s[i0] == '[' {
        let j = spec_skip_ws(s, i0 + 1);
        if j < s.len() && s[j] == ']' {
            if spec_skip_ws(s, j + 1) == s.len() {
                Some(Seq::empty())
            } else {
                None
            }
        } else {
            match spec_records_rest(s, j) {
                None => None,
                Some((recs, k)) => if spec_skip_ws(s, k) == s.len() {
                    Some(recs)
                } else {
                    None
                },
            }
        }
    } else {
        None
    }
}

/// Reads one record member, mirroring `spec_parse_member`.
fn parse_member(s: &str, len: usize, i: usize) -> (r: Option<((Option<i32>, Option<String>), usize)>)
    requires
        len == s@.len(),
        i <= len,
    ensures
        match spec_parse_member(s@, i as int) {
            None => r is None,
            Some(sp) => {
                &&& r matches Some(e)
                &&& e.0.0 == sp.0.0
                &&& match sp.0.1 {
                    None => e.0.1 is None,
                    Some(cv) => e.0.1 matches Some(cs) && cs@ == cv,
                }
                &&& e.1 as int == sp.1
                &&& i < e.1 <= len
            },
        },
{
    match parse_string(s, len, i) {
        None => None,
        Some((key, j)) => {
            let j1 = skip_ws(s, len, j);
            if j1 < len && s.get_char(j1) == ':' {
                let j2 = skip_ws(s, len, j1 + 1);
                if chars_eq(&key, "days") {
                    match parse_number(s, len, j2) {
                        None => None,
                        Some((d, j3)) => Some(((Some(d), None), j3)),
                    }
                } else if chars_eq(&key, "storage_class") {
                    match parse_string(s, len, j2) {
                        None => None,
                        Some((v, j3)) => Some(((None, Some(chars_to_string(&v))), j3)),
                    }
                } else {
                    match skip_value(s, len, j2) {
                        None => None,
                        Some(j3) => Some(((None, None), j3)),
                    }
                }
            } else {
                None
            }
        },
    }
}

/// The specification-level form of an already-read `storage_class` value.
pub open spec fn class_view(c: Option<String>) -> Option<Seq<char>> {
    match c {
        Some(cs) => Some(cs@),
        None => None,
    }
}

/// Reads the members of a record from `i` on, mirroring
/// `spec_members_rest`.
fn members_rest(s: &str, len: usize, i: usize, d: Option<i32>, c: Option<String>) -> (r: Option<
    ((i32, String), usize),
>)
    requires
        len == s@.len(),
        i <= len,
    ensures
        match spec_members_rest(s@, i as int, d, class_view(c)) {
            None => r is None,
            Some(sp) => {
                &&& r matches Some(e)
                &&& e.0.0 == sp.0.0
                &&& e.0.1@ == sp.0.1
                &&& e.1 as int == sp.1
                &&& i < e.1 <= len
            },
        },
    decreases len - i,
{
    match parse_member(s, len, i) {
        None => None,
        Some((m, j)) => {
            if (m.0.is_some() && d.is_some()) || (m.1.is_some() && c.is_some()) {
                return None;
            }
            let d2 = if m.0.is_some() {
                m.0
            } else {
                d
            };
            let c2 = if m.1.is_some() {
                m.1
            } else {
                c
            };
            let j1 = skip_ws(s, len, j);
            if j1 < len && s.get_char(j1) == '}' {
                match (d2, c2) {
                    (Some(dv), Some(cv)) => Some(((dv, cv), j1 + 1)),
                    _ => None,
                }
            } else if j1 < len && s.get_char(j1) == ',' {
                let j2 = skip_ws(s, len, j1 + 1);
                if i < j2 && j2 <= len {
                    members_rest(s, len, j2, d2, c2)
                } else {
                    None
                }
            } else {
                None
            }
        },
    }
}

/// Reads one record, mirroring `spec_parse_record`.
fn parse_record(s: &str, len: usize, i: usize) -> (r: Option<((i32, String), usize)>)
    requires
        len == s@.len(),
        i <= len,
    ensures
        match spec_parse_record(s@, i as int) {
            None => r is None,
            Some(sp) => {
                &&& r matches Some(e)
                &&& e.0.0 == sp.0.0
                &&& e.0.1@ == sp.0.1
                &&& e.1 as int == sp.1
                &&& i < e.1 <= len
            },
        },
{
    if !(i < len && s.get_char(i) == '{') {
        return None;
    }
    let j0 = skip_ws(s, len, i + 1);
    if j0 < len && s.get_char(j0) == '}' {
        return None;
    }
    members_rest(s, len, j0, None, None)
}

/// How an executable record list relates to its specification-level form:
/// same length, same days, and each class name's view matches.
pub open spec fn rel_records(v: Seq<(i32, String)>, sp: Seq<(i32, Seq<char>)>) -> bool {
    &&& v.len() == sp.len()
    &&& forall|k: int|
        0 <= k < v.len() ==> (#[trigger] v[k]).0 == sp[k].0 && v[k].1@ == sp[k].1
}

/// Reads a non-empty record run up to `]`, mirroring `spec_records_rest`.
fn records_rest(s: &str, len: usize, i: usize) -> (r: Option<(Vec<(i32, String)>, usize)>)
    requires
        len == s@.len(),
        i <= len,
    ensures
        match spec_records_rest(s@, i as int) {
            None => r is None,
            Some(sp) => {
                &&& r matches Some(e)
                &&& rel_records(e.0@, sp.0)
                &&& e.1 as int == sp.1
                &&& i < e.1 <= len
            },
        },
    decreases len - i,
{
    match parse_record(s, len, i) {
        None => None,
        Some((rec, k)) => {
            let j = skip_ws(s, len, k);
            if j < len && s.get_char(j) == ']' {
                let mut v: Vec<(i32, String)> = Vec::new();
                v.push(rec);
                Some((v, j + 1))
            } else if j < len && s.get_char(j) == ',' {
                let j2 = skip_ws(s, len, j + 1);
                if i < j2 && j2 <= len {
                    match records_rest(s, len, j2) {
                        None => None,
                        Some((rest, m)) => {
                            let mut v = rest;
                            v.insert(0, rec);
                            Some((v, m))
                        },
                    }
                } else {
                    None
                }
            } else {
                None
            }
        },
    }
}

/// The storage class denoted by `name`, if `name` is one of the five
/// understood identifiers.
pub open spec fn spec_storage_class(name: Seq<char>) -> Option<StorageClass> {
    if name == "STANDARD_IA"@ {
        Some(StorageClass::StandardIa)
    } else if name == "ONEZONE_IA"@ {
        Some(StorageClass::OnezoneIa)
    } else if name == "INTELLIGENT_TIERING"@ {
        Some(StorageClass::IntelligentTiering)
    } else if name == "GLACIER"@ {
        Some(StorageClass::Glacier)
    } else if name == "DEEP_ARCHIVE"@ {
        Some(StorageClass::DeepArchive)
    } else {
        None
    }
}

/// A storage-class identifier outside the enumerated set; holds the
/// offending identifier.
#[derive(Debug)]
pub struct StorageClassError {
    pub class: String,
}

impl StorageClassError {
    /// A human-readable description of the rejection.
    pub fn message(&self) -> (r: String)
        ensures
            r@ == "Invalid storage class: "@ + self.class@,
    {
        "Invalid storage class: ".to_owned().concat(self.class.as_str())
    }
}

/// Maps a storage-class identifier to its enumerated value; every identifier
/// outside the fixed set is an error, never a default.
pub fn map_storage_class(name: &str) -> (r: Result<StorageClass, StorageClassError>)
    ensures
        r is Ok <==> spec_storage_class(name@) is Some,
        r matches Ok(c) ==> spec_storage_class(name@) == Some(c),
        r matches Err(e) ==> e.class@ == name@,
{
    if str_eq(name, "STANDARD_IA") {
        Ok(StorageClass::StandardIa)
    } else if str_eq(name, "ONEZONE_IA") {
        Ok(StorageClass::OnezoneIa)
    } else if str_eq(name, "INTELLIGENT_TIERING") {
        Ok(StorageClass::IntelligentTiering)
    } else if str_eq(name, "GLACIER") {
        Ok(StorageClass::Glacier)
    } else if str_eq(name, "DEEP_ARCHIVE") {
        Ok(StorageClass::DeepArchive)
    } else {
        Err(StorageClassError { class: name.to_owned() })
    }
}

/// The class name of the first record whose storage class is outside the
/// enumerated set, if any.
pub open spec fn spec_first_unknown_class(recs: Seq<(i32, Seq<char>)>) -> Option<Seq<char>>
    decreases recs.len(),
{
    if recs.len() == 0 {
        None
    } else if spec_storage_class(recs[0].1) is None {
        Some(recs[0].1)
    } else {
        spec_first_unknown_class(recs.drop_first())
    }
}

/// If every class before `k` is known and the class at `k` is not, the first
/// unknown class is the one at `k`.
proof fn lemma_first_unknown_at(recs: Seq<(i32, Seq<char>)>, k: int)
    requires
        0 <= k < recs.len(),
        forall|m: int| 0 <= m < k ==> spec_storage_class((#[trigger] recs[m]).1) is Some,
        spec_storage_class(recs[k].1) is None,
    ensures
        spec_first_unknown_class(recs) == Some(recs[k].1),
    decreases recs.len(),
{
    if k > 0 {
        lemma_first_unknown_at(recs.drop_first(), k - 1);
    }
}

/// If every class is known there is no first unknown class.
proof fn lemma_first_unknown_none(recs: Seq<(i32, Seq<char>)>)
    requires
        forall|m: int| 0 <= m < recs.len() ==> spec_storage_class((#[trigger] recs[m]).1) is Some,
    ensures
        spec_first_unknown_class(recs) is None,
    decreases recs.len(),
{
    if recs.len() > 0 {
        lemma_first_unknown_none(recs.drop_first());
    }
}

/// Why a transition specification was rejected.
#[derive(Debug)]
pub enum TransitionsError {
    /// The text is not a well-formed transition list.
    InvalidJson,
    /// A record names a storage class outside the enumerated set; holds the
    /// first such name.
    UnknownStorageClass(String),
}

impl TransitionsError {
    /// A human-readable description of the rejection.
    pub fn message(&self) -> (r: String)
        ensures
            self is InvalidJson ==> r@ == "Invalid transitions JSON: malformed transition list"@,
            self matches TransitionsError::UnknownStorageClass(c) ==> r@
                == "Invalid storage class: "@ + c@,
    {
        match self {
            TransitionsError::InvalidJson => {
                "Invalid transitions JSON: malformed transition list".to_owned()
            },
            TransitionsError::UnknownStorageClass(c) => {
                "Invalid storage class: ".to_owned().concat(c.as_str())
            },
        }
    }
}

/// Decodes a transition specification: exactly the lists the grammar
/// `spec_parse_transitions` accepts are decoded, every record's class is
/// mapped through the enumerated set, and the first unknown class (in record
/// order) is reported as an error.
pub fn parse_transitions(text: &str) -> (r: Result<Vec<Transition>, TransitionsError>)
    ensures
        ({
            let sp = spec_parse_transitions(text@);
            &&& (sp is None <==> r == Err::<Vec<Transition>, TransitionsError>(
                TransitionsError::InvalidJson,
            ))
            &&& (sp matches Some(recs) ==> match spec_first_unknown_class(recs) {
                Some(bad) => r matches Err(TransitionsError::UnknownStorageClass(name))
                    && name@ == bad,
                None => {
                    &&& r matches Ok(v)
                    &&& v@.len() == recs.len()
                    &&& forall|k: int|
                        0 <= k < recs.len() ==> (#[trigger] v@[k]).days == recs[k].0 && Some(
                            v@[k].storage_class,
                        ) == spec_storage_class(recs[k].1)
                },
            })
        }),
{
    let len = text.unicode_len();
    let i0 = skip_ws(text, len, 0);
    if !(i0 < len && text.get_char(i0) == '[') {
        return Err(TransitionsError::InvalidJson);
    }
    let j = skip_ws(text, len, i0 + 1);
    let recs: Vec<(i32, String)>;
    let k: usize;
    if j < len && text.get_char(j) == ']' {
        recs = Vec::new();
        k = j + 1;
    } else {
        match records_rest(text, len, j) {
            None => {
                return Err(TransitionsError::InvalidJson);
            },
            Some((v, m)) => {
                recs = v;
                k = m;
            },
        }
    }
    if skip_ws(text, len, k) != len {
        return Err(TransitionsError::InvalidJson);
    }
    let ghost sp_recs: Seq<(i32, Seq<char>)> = spec_parse_transitions(text@).unwrap();
    let mut out: Vec<Transition> = Vec::new();
    let mut idx: usize = 0;
    while idx < recs.len()
        invariant
            spec_parse_transitions(text@) == Some(sp_recs),
            rel_records(recs@, sp_recs),
            idx <= recs.len(),
            out@.len() == idx,
            forall|m: int|
                0 <= m < idx ==> spec_storage_class((#[trigger] sp_recs[m]).1) is Some
                    && out@[m].days == sp_recs[m].0 && Some(out@[m].storage_class)
                    == spec_storage_class(sp_recs[m].1),
        decreases recs.len() - idx,
    {
        let d = recs[idx].0;
        match map_storage_class(recs[idx].1.as_str()) {
            Ok(c) => {
                out.push(Transition { days: d, storage_class: c });
            },
            Err(e) => {
                proof {
                    lemma_first_unknown_at(sp_recs, idx as int);
                }
                return Err(TransitionsError::UnknownStorageClass(e.class));
            },
        }
        idx += 1;
    }
    proof {
        lemma_first_unknown_none(sp_recs);
    }
    Ok(out)
}

} // verus!

