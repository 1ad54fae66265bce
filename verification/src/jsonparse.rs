//! A JSON reader for request bodies: objects, arrays, strings with the
//! standard escapes (surrogate pairs included), integers, booleans and
//! null.  Fractions and exponents are rejected: the parameter machinery
//! holds numbers as integers.  Every step is mirrored by a spec function,
//! so what a body parses to is pinned exactly.  The spec functions carry a
//! fuel bound of twice the text length, which the executable reader spends
//! the same way.
use vstd::prelude::*;

verus! {

use vstd::string::StrSliceExecFns;
use crate::json::{JsonValue, JsonV, view_json, view_json_arr, lemma_view_arr_push};
use vstd::string::StringExecFns;
use crate::params::{Params, ParamsV, spec_insert};
use crate::strutil::{spec_hex_val, hex_val, push_char, char_from_u32};

/// Whether a character is JSON whitespace.
pub open spec fn spec_is_ws(c: char) -> bool {
    c == ' ' || c == '\t' || c == '\n' || c == '\r'
}

/// The first position at or after `i` that is not whitespace.
pub open spec fn spec_ws_end(s: Seq<char>, i: int) -> int
    decreases s.len() - i,
    when 0 <= i <= s.len()
{
    if i < s.len() && spec_is_ws(s[i]) {
        spec_ws_end(s, i + 1)
    } else {
        i
    }
}

/// Whitespace skipping never leaves the text.
pub proof fn lemma_ws_end(s: Seq<char>, i: int)
    requires
        0 <= i <= s.len(),
    ensures
        i <= spec_ws_end(s, i) <= s.len(),
    decreases s.len() - i,
{
    if i < s.len() && spec_is_ws(s[i]) {
        lemma_ws_end(s, i + 1);
    }
}

/// The value of the four hexadecimal digits at `i`, or -1.
pub open spec fn spec_hex4(s: Seq<char>, i: int) -> int {
    if 0 <= i && i + 4 <= s.len() && spec_hex_val(s[i]) >= 0 && spec_hex_val(s[i + 1]) >= 0
        && spec_hex_val(s[i + 2]) >= 0 && spec_hex_val(s[i + 3]) >= 0 {
        spec_hex_val(s[i]) * 4096 + spec_hex_val(s[i + 1]) * 256 + spec_hex_val(s[i + 2]) * 16
            + spec_hex_val(s[i + 3])
    } else {
        -1
    }
}

/// The body of a JSON string literal read from position `i` (after the
/// opening quote) with `acc` already read: the decoded text and the
/// position after the closing quote.  Escapes cover the eight standard
/// ones and `\u`, with surrogate pairs combined; anything else is
/// malformed.
pub open spec fn spec_str_body(s: Seq<char>, i: int, acc: Seq<char>) -> Option<(Seq<char>, int)>
    decreases s.len() - i,
    when 0 <= i <= s.len()
{
    if i >= s.len() {
        None
    } else if s[i] == '"' {
        Some((acc, i + 1))
    } else if s[i] == '\\' {
        if i + 1 >= s.len() {
            None
        } else {
            let c = s[i + 1];
            if c == '"' {
                spec_str_body(s, i + 2, acc.push('"'))
            } else if c == '\\' {
                spec_str_body(s, i + 2, acc.push('\\'))
            } else if c == '/' {
                spec_str_body(s, i + 2, acc.push('/'))
            } else if c == 'b' {
                spec_str_body(s, i + 2, acc.push('\u{8}'))
            } else if c == 'f' {
                spec_str_body(s, i + 2, acc.push('\u{c}'))
            } else if c == 'n' {
                spec_str_body(s, i + 2, acc.push('\n'))
            } else if c == 'r' {
                spec_str_body(s, i + 2, acc.push('\r'))
            } else if c == 't' {
                spec_str_body(s, i + 2, acc.push('\t'))
            } else if c == 'u' {
                let h = spec_hex4(s, i + 2);
                if h < 0 {
                    None
                } else if 0xD800 <= h && h < 0xDC00 {
                    if i + 12 <= s.len() && s[i + 6] == '\\' && s[i + 7] == 'u' {
                        let lo = spec_hex4(s, i + 8);
                        if 0xDC00 <= lo && lo < 0xE000 {
                            let scalar = 0x10000 + (h - 0xD800) * 0x400 + (lo - 0xDC00);
                            spec_str_body(s, i + 12, acc.push(scalar as u32 as char))
                        } else {
                            None
                        }
                    } else {
                        None
                    }
                } else if 0xDC00 <= h && h < 0xE000 {
                    None
                } else {
                    spec_str_body(s, i + 6, acc.push(h as u32 as char))
                }
            } else {
                None
            }
        }
    } else {
        spec_str_body(s, i + 1, acc.push(s[i]))
    }
}

/// The first position at or after `i` without a decimal digit.
pub open spec fn spec_digit_end(s: Seq<char>, i: int) -> int
    decreases s.len() - i,
    when 0 <= i <= s.len()
{
    if i < s.len() && '0' <= s[i] && s[i] <= '9' {
        spec_digit_end(s, i + 1)
    } else {
        i
    }
}

/// The digit run never leaves the text.
pub proof fn lemma_digit_end(s: Seq<char>, i: int)
    requires
        0 <= i <= s.len(),
    ensures
        i <= spec_digit_end(s, i) <= s.len(),
    decreases s.len() - i,
{
    if i < s.len() && '0' <= s[i] && s[i] <= '9' {
        lemma_digit_end(s, i + 1);
    }
}

/// The number the digits in `i..e` spell, continuing from `acc`; `None`
/// past the largest unsigned 64-bit number.
pub open spec fn spec_digits_val(s: Seq<char>, i: int, e: int, acc: int) -> Option<u64>
    decreases e - i,
    when 0 <= i <= e <= s.len()
{
    if i == e {
        Some(acc as u64)
    } else {
        let d = (s[i] as u32) - ('0' as u32);
        if acc * 10 + d > 0xFFFF_FFFF_FFFF_FFFF {
            None
        } else {
            spec_digits_val(s, i + 1, e, acc * 10 + d)
        }
    }
}

/// The integer read at position `i`: an optional minus sign and a digit
/// run; a following `.`, `e` or `E`, a value past 64 bits, or a negative
/// below the smallest signed 64-bit number is malformed.
pub open spec fn spec_parse_number(s: Seq<char>, i: int) -> Option<(JsonV, int)> {
    if !(0 <= i < s.len()) {
        None
    } else {
        let neg = s[i] == '-';
        let j = if neg {
            i + 1
        } else {
            i
        };
        if j >= s.len() || !('0' <= s[j] && s[j] <= '9') {
            None
        } else {
            let e = spec_digit_end(s, j);
            if e < s.len() && (s[e] == '.' || s[e] == 'e' || s[e] == 'E') {
                None
            } else {
                match spec_digits_val(s, j, e, 0) {
                    None => None,
                    Some(v) => if neg {
                        if v <= 0x8000_0000_0000_0000 {
                            Some((JsonV::I64((-(v as int)) as i64), e))
                        } else {
                            None
                        }
                    } else {
                        Some((JsonV::U64(v), e))
                    },
                }
            }
        }
    }
}

/// The value read at position `i`, leading whitespace skipped: an object,
/// an array, a string, a number, or one of the three literals; `fuel`
/// bounds the reader's recursion and two units per character always
/// suffice.
pub open spec fn spec_parse_value(s: Seq<char>, i: int, fuel: nat) -> Option<(JsonV, int)>
    decreases fuel,
{
    if fuel == 0 || !(0 <= i <= s.len()) {
        None
    } else {
        let j = spec_ws_end(s, i);
        if j >= s.len() {
            None
        } else if s[j] == '{' {
            match spec_parse_members(s, j + 1, Seq::empty(), true, (fuel - 1) as nat) {
                Some((obj, e)) => Some((JsonV::Object(obj), e)),
                None => None,
            }
        } else if s[j] == '[' {
            match spec_parse_items(s, j + 1, Seq::empty(), true, (fuel - 1) as nat) {
                Some((items, e)) => Some((JsonV::Array(items), e)),
                None => None,
            }
        } else if s[j] == '"' {
            match spec_str_body(s, j + 1, Seq::empty()) {
                Some((t, e)) => Some((JsonV::Str(t), e)),
                None => None,
            }
        } else if s[j] == 't' {
            if j + 4 <= s.len() && s[j + 1] == 'r' && s[j + 2] == 'u' && s[j + 3] == 'e' {
                Some((JsonV::Bool(true), j + 4))
            } else {
                None
            }
        } else if s[j] == 'f' {
            if j + 5 <= s.len() && s[j + 1] == 'a' && s[j + 2] == 'l' && s[j + 3] == 's' && s[j + 4]
                == 'e' {
                Some((JsonV::Bool(false), j + 5))
            } else {
                None
            }
        } else if s[j] == 'n' {
            if j + 4 <= s.len() && s[j + 1] == 'u' && s[j + 2] == 'l' && s[j + 3] == 'l' {
                Some((JsonV::Null, j + 4))
            } else {
                None
            }
        } else if s[j] == '-' || ('0' <= s[j] && s[j] <= '9') {
            spec_parse_number(s, j)
        } else {
            None
        }
    }
}

/// The object members read from position `i` (after `{` or a comma) into
/// `acc`: `"key": value` pairs separated by commas, a later value under a
/// repeated key replacing the earlier one in place; `first` allows the
/// immediate `}` of an empty object.
pub open spec fn spec_parse_members(
    s: Seq<char>,
    i: int,
    acc: ParamsV,
    first: bool,
    fuel: nat,
) -> Option<(ParamsV, int)>
    decreases fuel,
{
    if fuel == 0 || !(0 <= i <= s.len()) {
        None
    } else {
        let j = spec_ws_end(s, i);
        if j >= s.len() {
            None
        } else if first && s[j] == '}' {
            Some((acc, j + 1))
        } else if s[j] != '"' {
            None
        } else {
            match spec_str_body(s, j + 1, Seq::empty()) {
                None => None,
                Some((key, k)) => {
                    if !(0 <= k <= s.len()) {
                        None
                    } else {
                        let j2 = spec_ws_end(s, k);
                        if j2 >= s.len() || s[j2] != ':' {
                            None
                        } else {
                            match spec_parse_value(s, j2 + 1, (fuel - 1) as nat) {
                                None => None,
                                Some((v, e)) => {
                                    let acc2 = spec_insert(acc, key, v);
                                    if !(0 <= e <= s.len()) {
                                        None
                                    } else {
                                        let j3 = spec_ws_end(s, e);
                                        if j3 >= s.len() {
                                            None
                                        } else if s[j3] == ',' {
                                            spec_parse_members(
                                                s,
                                                j3 + 1,
                                                acc2,
                                                false,
                                                (fuel - 1) as nat,
                                            )
                                        } else if s[j3] == '}' {
                                            Some((acc2, j3 + 1))
                                        } else {
                                            None
                                        }
                                    }
                                },
                            }
                        }
                    }
                },
            }
        }
    }
}

/// The array items read from position `i` (after `[` or a comma) into
/// `acc`, comma-separated; `first` allows the immediate `]` of an empty
/// array.
pub open spec fn spec_parse_items(
    s: Seq<char>,
    i: int,
    acc: Seq<JsonV>,
    first: bool,
    fuel: nat,
) -> Option<(Seq<JsonV>, int)>
    decreases fuel,
{
    if fuel == 0 || !(0 <= i <= s.len()) {
        None
    } else {
        let j = spec_ws_end(s, i);
        if j >= s.len() {
            None
        } else if first && s[j] == ']' {
            Some((acc, j + 1))
        } else {
            match spec_parse_value(s, i, (fuel - 1) as nat) {
                None => None,
                Some((v, e)) => {
                    let acc2 = acc.push(v);
                    if !(0 <= e <= s.len()) {
                        None
                    } else {
                        let j3 = spec_ws_end(s, e);
                        if j3 >= s.len() {
                            None
                        } else if s[j3] == ',' {
                            spec_parse_items(s, j3 + 1, acc2, false, (fuel - 1) as nat)
                        } else if s[j3] == ']' {
                            Some((acc2, j3 + 1))
                        } else {
                            None
                        }
                    }
                },
            }
        }
    }
}

/// What a whole body parses to: one value, with nothing but whitespace
/// after it.
pub open spec fn spec_parse_json(s: Seq<char>) -> Option<JsonV> {
    match spec_parse_value(s, 0, (2 * s.len() + 2) as nat) {
        None => None,
        Some((v, e)) => {
            if 0 <= e <= s.len() && spec_ws_end(s, e) == s.len() {
                Some(v)
            } else {
                None
            }
        },
    }
}

/// Whether a character is JSON whitespace.
fn is_ws_char(c: char) -> (r: bool)
    ensures
        r == spec_is_ws(c),
{
    c == ' ' || c == '\t' || c == '\n' || c == '\r'
}

/// Whether a character is a decimal digit.
fn is_digit_char(c: char) -> (r: bool)
    ensures
        r == ('0' <= c && c <= '9'),
{
    '0' <= c && c <= '9'
}

/// The first position at or after `i` that is not whitespace.
fn ws_end(s: &str, i: usize) -> (r: usize)
    requires
        i <= s@.len(),
    ensures
        r as int == spec_ws_end(s@, i as int),
        i <= r <= s@.len(),
{
    proof {
        lemma_ws_end(s@, i as int);
    }
    let n = s.unicode_len();
    let mut j: usize = i;
    while j < n && is_ws_char(s.get_char(j))
        invariant
            i <= j <= n,
            n == s@.len(),
            spec_ws_end(s@, i as int) == spec_ws_end(s@, j as int),
        decreases n - j,
    {
        j += 1;
    }
    proof {
        assert(spec_ws_end(s@, j as int) == j);
    }
    j
}

/// The value of the four hexadecimal digits at `i` (-1 as `None`).
fn hex4(s: &str, i: usize) -> (r: Option<u32>)
    requires
        i <= s@.len(),
    ensures
        match r {
            Some(h) => spec_hex4(s@, i as int) == h as int && h < 0x10000,
            None => spec_hex4(s@, i as int) < 0,
        },
{
    let n = s.unicode_len();
    if n - i < 4 {
        return None;
    }
    let h0 = hex_val(s.get_char(i));
    let h1 = hex_val(s.get_char(i + 1));
    let h2 = hex_val(s.get_char(i + 2));
    let h3 = hex_val(s.get_char(i + 3));
    if h0 == 255 || h1 == 255 || h2 == 255 || h3 == 255 {
        return None;
    }
    Some((h0 as u32) * 4096 + (h1 as u32) * 256 + (h2 as u32) * 16 + (h3 as u32))
}

/// The body of a JSON string literal from position `i`, decoded onto
/// `acc`.
fn str_body(s: &str, i: usize, acc: String) -> (r: Option<(String, usize)>)
    requires
        i <= s@.len(),
    ensures
        match r {
            Some(m) => spec_str_body(s@, i as int, acc@) == Some((m.0@, m.1 as int)) && i < m.1
                <= s@.len(),
            None => spec_str_body(s@, i as int, acc@) is None,
        },
    decreases s@.len() - i,
{
    let n = s.unicode_len();
    if i >= n {
        return None;
    }
    let c0 = s.get_char(i);
    if c0 == '"' {
        return Some((acc, i + 1));
    }
    if c0 == '\\' {
        if n - i < 2 {
            return None;
        }
        let c = s.get_char(i + 1);
        let mut acc2 = acc;
        if c == '"' {
            push_char(&mut acc2, '"');
            return str_body(s, i + 2, acc2);
        } else if c == '\\' {
            push_char(&mut acc2, '\\');
            return str_body(s, i + 2, acc2);
        } else if c == '/' {
            push_char(&mut acc2, '/');
            return str_body(s, i + 2, acc2);
        } else if c == 'b' {
            push_char(&mut acc2, '\u{8}');
            return str_body(s, i + 2, acc2);
        } else if c == 'f' {
            push_char(&mut acc2, '\u{c}');
            return str_body(s, i + 2, acc2);
        } else if c == 'n' {
            push_char(&mut acc2, '\n');
            return str_body(s, i + 2, acc2);
        } else if c == 'r' {
            push_char(&mut acc2, '\r');
            return str_body(s, i + 2, acc2);
        } else if c == 't' {
            push_char(&mut acc2, '\t');
            return str_body(s, i + 2, acc2);
        } else if c == 'u' {
            let h = match hex4(s, i + 2) {
                Some(h) => h,
                None => {
                    return None;
                },
            };
            if 0xD800 <= h && h < 0xDC00 {
                if n - i >= 12 && s.get_char(i + 6) == '\\' && s.get_char(i + 7) == 'u' {
                    let lo = match hex4(s, i + 8) {
                        Some(lo) => lo,
                        None => {
                            return None;
                        },
                    };
                    if 0xDC00 <= lo && lo < 0xE000 {
                        let scalar: u32 = 0x10000 + (h - 0xD800) * 0x400 + (lo - 0xDC00);
                        let ch = match char_from_u32(scalar) {
                            Some(ch) => ch,
                            None => vstd::pervasive::unreached(),
                        };
                        push_char(&mut acc2, ch);
                        return str_body(s, i + 12, acc2);
                    } else {
                        return None;
                    }
                } else {
                    return None;
                }
            } else if 0xDC00 <= h && h < 0xE000 {
                return None;
            } else {
                let ch = match char_from_u32(h) {
                    Some(ch) => ch,
                    None => vstd::pervasive::unreached(),
                };
                push_char(&mut acc2, ch);
                return str_body(s, i + 6, acc2);
            }
        } else {
            return None;
        }
    }
    let mut acc2 = acc;
    push_char(&mut acc2, c0);
    str_body(s, i + 1, acc2)
}

/// The end of the digit run starting at `i`.
fn digit_end(s: &str, i: usize) -> (r: usize)
    requires
        i <= s@.len(),
    ensures
        r as int == spec_digit_end(s@, i as int),
        i <= r <= s@.len(),
{
    proof {
        lemma_digit_end(s@, i as int);
    }
    let n = s.unicode_len();
    let mut j: usize = i;
    while j < n && is_digit_char(s.get_char(j))
        invariant
            i <= j <= n,
            n == s@.len(),
            spec_digit_end(s@, i as int) == spec_digit_end(s@, j as int),
        decreases n - j,
    {
        j += 1;
    }
    proof {
        assert(spec_digit_end(s@, j as int) == j);
    }
    j
}

/// The number the digits in `i..e` spell, continuing from `acc`.
fn digits_val(s: &str, i: usize, e: usize, acc: u64) -> (r: Option<u64>)
    requires
        i <= e <= s@.len(),
        forall|k: int| i <= k < e ==> '0' <= s@[k] && s@[k] <= '9',
    ensures
        r == spec_digits_val(s@, i as int, e as int, acc as int),
    decreases e - i,
{
    if i == e {
        return Some(acc);
    }
    let c = s.get_char(i);
    let d: u64 = (((c as u32) - 48) as u8) as u64;
    if acc > 1844674407370955161u64 || (acc == 1844674407370955161u64 && d > 5) {
        proof {
            assert(acc as int * 10 + d > 0xFFFF_FFFF_FFFF_FFFF);
        }
        return None;
    }
    proof {
        assert(acc as int * 10 + d <= 0xFFFF_FFFF_FFFF_FFFF);
    }
    digits_val(s, i + 1, e, acc * 10 + d)
}

/// The integer read at position `i`.
fn parse_number(s: &str, i: usize) -> (r: Option<(JsonValue, usize)>)
    requires
        i < s@.len(),
    ensures
        match r {
            Some(m) => spec_parse_number(s@, i as int) == Some((view_json(m.0), m.1 as int)) && i
                < m.1 <= s@.len(),
            None => spec_parse_number(s@, i as int) is None,
        },
{
    let n = s.unicode_len();
    let neg = s.get_char(i) == '-';
    let j = if neg {
        i + 1
    } else {
        i
    };
    if j >= n {
        return None;
    }
    let cj = s.get_char(j);
    if !('0' <= cj && cj <= '9') {
        return None;
    }
    let e = digit_end(s, j);
    if e < n {
        let ce = s.get_char(e);
        if ce == '.' || ce == 'e' || ce == 'E' {
            return None;
        }
    }
    proof {
        assert(spec_digit_end(s@, j as int) == e) by {
            assert(e as int == spec_digit_end(s@, j as int));
        }
        lemma_digit_end(s@, j as int + 1);
        assert(spec_digit_end(s@, j as int) == spec_digit_end(s@, j as int + 1));
        assert(e > j);
        assert forall|k: int| j <= k < e implies '0' <= s@[k] && s@[k] <= '9' by {
            lemma_digit_run(s@, j as int, k);
        }
    }
    let v = match digits_val(s, j, e, 0) {
        Some(v) => v,
        None => {
            return None;
        },
    };
    if neg {
        if v <= 0x8000_0000_0000_0000u64 {
            let value: i64 = if v == 0x8000_0000_0000_0000u64 {
                i64::MIN
            } else {
                -(v as i64)
            };
            proof {
                assert(value as int == -(v as int));
            }
            Some((JsonValue::I64(value), e))
        } else {
            None
        }
    } else {
        Some((JsonValue::U64(v), e))
    }
}

/// Every position inside a digit run holds a digit.
pub proof fn lemma_digit_run(s: Seq<char>, i: int, k: int)
    requires
        0 <= i <= s.len(),
        i <= k < spec_digit_end(s, i),
    ensures
        '0' <= s[k] && s[k] <= '9',
    decreases k - i,
{
    lemma_digit_end(s, i);
    if i < k {
        lemma_digit_run(s, i + 1, k);
    }
}

/// The value read at position `i`, spending `fuel` as the spec reader
/// does.
fn parse_value(s: &str, i: usize, fuel: u128) -> (r: Option<(JsonValue, usize)>)
    requires
        i <= s@.len(),
    ensures
        match r {
            Some(m) => spec_parse_value(s@, i as int, fuel as nat) == Some(
                (view_json(m.0), m.1 as int),
            ) && i < m.1 <= s@.len(),
            None => spec_parse_value(s@, i as int, fuel as nat) is None,
        },
    decreases fuel,
{
    if fuel == 0 {
        return None;
    }
    let n = s.unicode_len();
    let j = ws_end(s, i);
    if j >= n {
        return None;
    }
    let c = s.get_char(j);
    if c == '{' {
        match parse_members(s, j + 1, Params::new(), true, fuel - 1) {
            Some((obj, e)) => {
                let r = JsonValue::Object(obj.entries);
                Some((r, e))
            },
            None => None,
        }
    } else if c == '[' {
        match parse_items(s, j + 1, Vec::new(), true, fuel - 1) {
            Some((items, e)) => {
                proof {
                    assert(view_json_arr(Seq::<JsonValue>::empty(), 0) =~= Seq::<JsonV>::empty());
                }
                Some((JsonValue::Array(items), e))
            },
            None => None,
        }
    } else if c == '"' {
        match str_body(s, j + 1, String::new()) {
            Some((t, e)) => Some((JsonValue::Str(t), e)),
            None => None,
        }
    } else if c == 't' {
        if n - j >= 4 && s.get_char(j + 1) == 'r' && s.get_char(j + 2) == 'u' && s.get_char(j + 3)
            == 'e' {
            Some((JsonValue::Bool(true), j + 4))
        } else {
            None
        }
    } else if c == 'f' {
        if n - j >= 5 && s.get_char(j + 1) == 'a' && s.get_char(j + 2) == 'l' && s.get_char(j + 3)
            == 's' && s.get_char(j + 4) == 'e' {
            Some((JsonValue::Bool(false), j + 5))
        } else {
            None
        }
    } else if c == 'n' {
        if n - j >= 4 && s.get_char(j + 1) == 'u' && s.get_char(j + 2) == 'l' && s.get_char(j + 3)
            == 'l' {
            Some((JsonValue::Null, j + 4))
        } else {
            None
        }
    } else if c == '-' || ('0' <= c && c <= '9') {
        parse_number(s, j)
    } else {
        None
    }
}

/// The object members read from position `i` into `acc`.
fn parse_members(s: &str, i: usize, acc: Params, first: bool, fuel: u128) -> (r: Option<
    (Params, usize),
>)
    requires
        i <= s@.len(),
    ensures
        match r {
            Some(m) => spec_parse_members(s@, i as int, acc.view(), first, fuel as nat) == Some(
                (m.0.view(), m.1 as int),
            ) && i < m.1 <= s@.len(),
            None => spec_parse_members(s@, i as int, acc.view(), first, fuel as nat) is None,
        },
    decreases fuel,
{
    if fuel == 0 {
        return None;
    }
    let n = s.unicode_len();
    let j = ws_end(s, i);
    if j >= n {
        return None;
    }
    if first && s.get_char(j) == '}' {
        return Some((acc, j + 1));
    }
    if s.get_char(j) != '"' {
        return None;
    }
    let (key, k) = match str_body(s, j + 1, String::new()) {
        Some(m) => m,
        None => {
            return None;
        },
    };
    let j2 = ws_end(s, k);
    if j2 >= n || s.get_char(j2) != ':' {
        return None;
    }
    let (v, e) = match parse_value(s, j2 + 1, fuel - 1) {
        Some(m) => m,
        None => {
            return None;
        },
    };
    let mut acc2 = acc;
    acc2.insert(key, v);
    let j3 = ws_end(s, e);
    if j3 >= n {
        return None;
    }
    let c3 = s.get_char(j3);
    if c3 == ',' {
        parse_members(s, j3 + 1, acc2, false, fuel - 1)
    } else if c3 == '}' {
        Some((acc2, j3 + 1))
    } else {
        None
    }
}

/// The array items read from position `i` into `acc`.
fn parse_items(s: &str, i: usize, acc: Vec<JsonValue>, first: bool, fuel: u128) -> (r: Option<
    (Vec<JsonValue>, usize),
>)
    requires
        i <= s@.len(),
    ensures
        match r {
            Some(m) => spec_parse_items(
                s@,
                i as int,
                view_json_arr(acc@, 0),
                first,
                fuel as nat,
            ) == Some((view_json_arr(m.0@, 0), m.1 as int)) && i < m.1 <= s@.len(),
            None => spec_parse_items(
                s@,
                i as int,
                view_json_arr(acc@, 0),
                first,
                fuel as nat,
            ) is None,
        },
    decreases fuel,
{
    if fuel == 0 {
        return None;
    }
    let n = s.unicode_len();
    let j = ws_end(s, i);
    if j >= n {
        return None;
    }
    if first && s.get_char(j) == ']' {
        return Some((acc, j + 1));
    }
    let (v, e) = match parse_value(s, i, fuel - 1) {
        Some(m) => m,
        None => {
            return None;
        },
    };
    let ghost acc0 = acc@;
    let mut acc2 = acc;
    proof {
        lemma_view_arr_push(acc0, v);
    }
    acc2.push(v);
    let j3 = ws_end(s, e);
    if j3 >= n {
        return None;
    }
    let c3 = s.get_char(j3);
    if c3 == ',' {
        parse_items(s, j3 + 1, acc2, false, fuel - 1)
    } else if c3 == ']' {
        Some((acc2, j3 + 1))
    } else {
        None
    }
}

/// Parses a whole JSON body: one value with nothing but whitespace after
/// it.
pub fn parse_json(s: &str) -> (r: Option<JsonValue>)
    ensures
        match r {
            Some(v) => spec_parse_json(s@) == Some(view_json(v)),
            None => spec_parse_json(s@) is None,
        },
{
    let n = s.unicode_len();
    let fuel: u128 = 2 * (n as u128) + 2;
    let (v, e) = match parse_value(s, 0, fuel) {
        Some(m) => m,
        None => {
            return None;
        },
    };
    let j = ws_end(s, e);
    if j == n {
        Some(v)
    } else {
        None
    }
}

} // verus!
