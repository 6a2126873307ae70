//! The alert request body format: a JSON object with string members `from`,
//! `theme` and `text`, all required, unknown members ignored. This module
//! states the grammar as spec functions over the body's characters and proves
//! an executable decoder against it.

use vstd::prelude::*;

verus! {

/// Why a request body was rejected. Callers only ever surface a generic
/// failure; the variant is for server-side logging.
#[derive(Clone, Copy, Debug, PartialEq, Eq, Structural)]
pub enum ParseError {
    /// The body is not well-formed JSON (or not valid UTF-8), or has trailing
    /// characters after the object.
    Malformed,
    /// The body is well-formed JSON but not an object.
    NotAnObject,
    /// One of `from`, `theme`, `text` appears twice.
    DuplicateField,
    /// One of `from`, `theme`, `text` holds a non-string value.
    WrongFieldType,
    /// One of `from`, `theme`, `text` is missing.
    MissingField,
}

/// JSON insignificant whitespace.
pub open spec fn is_ws(c: char) -> bool {
    c == ' ' || c == '\n' || c == '\r' || c == '\t'
}

pub open spec fn is_digit(c: char) -> bool {
    48 <= c as u32 <= 57
}

pub open spec fn is_hex_digit(c: char) -> bool {
    is_digit(c) || (97 <= c as u32 <= 102) || (65 <= c as u32 <= 70)
}

/// Numeric value of one hex digit.
pub open spec fn hex_val(c: char) -> u32 {
    if is_digit(c) {
        (c as u32 - 48) as u32
    } else if 97 <= c as u32 <= 102 {
        (c as u32 - 87) as u32
    } else {
        (c as u32 - 55) as u32
    }
}

/// First position at or after `i` holding no whitespace.
pub open spec fn spec_skip_ws(s: Seq<char>, i: int) -> int
    decreases s.len() - i,
{
    if 0 <= i < s.len() && is_ws(s[i]) {
        spec_skip_ws(s, i + 1)
    } else {
        i
    }
}

pub proof fn lemma_skip_ws_bounds(s: Seq<char>, i: int)
    requires
        0 <= i <= s.len(),
    ensures
        i <= spec_skip_ws(s, i) <= s.len(),
    decreases s.len() - i,
{
    if i < s.len() && is_ws(s[i]) {
        lemma_skip_ws_bounds(s, i + 1);
    }
}

/// Four hex digits starting at `i`, as a code unit.
pub open spec fn spec_hex4(s: Seq<char>, i: int) -> Option<u32> {
    if i < 0 || i + 4 > s.len() {
        None
    } else if is_hex_digit(s[i]) && is_hex_digit(s[i + 1]) && is_hex_digit(s[i + 2])
        && is_hex_digit(s[i + 3]) {
        Some(
            (hex_val(s[i]) * 0x1000 + hex_val(s[i + 1]) * 0x100 + hex_val(s[i + 2]) * 0x10
                + hex_val(s[i + 3])) as u32,
        )
    } else {
        None
    }
}

/// A `\u` escape body at `i` (the first hex digit): a scalar, or a surrogate
/// pair spelled as two `\u` escapes. A lone surrogate is rejected.
pub open spec fn spec_unicode_escape(s: Seq<char>, i: int) -> Option<(char, int)> {
    match spec_hex4(s, i) {
        None => None,
        Some(hi) => {
            if hi < 0xD800 || hi > 0xDFFF {
                Some((hi as char, i + 4))
            } else if hi >= 0xDC00 {
                None
            } else if i + 6 <= s.len() && s[i + 4] == '\\' && s[i + 5] == 'u' {
                match spec_hex4(s, i + 6) {
                    None => None,
                    Some(lo) => if 0xDC00 <= lo <= 0xDFFF {
                        Some(
                            (
                                ((0x10000 + (hi - 0xD800) * 0x400 + (lo - 0xDC00)) as u32) as char,
                                i + 10,
                            ),
                        )
                    } else {
                        None
                    },
                }
            } else {
                None
            }
        },
    }
}

/// An escape at `i` (the character after the backslash): the character it
/// stands for and the position after the escape.
pub open spec fn spec_escape(s: Seq<char>, i: int) -> Option<(char, int)> {
    if i < 0 || i >= s.len() {
        None
    } else {
        let c = s[i];
        if c == '"' {
            Some(('"', i + 1))
        } else if c == '\\' {
            Some(('\\', i + 1))
        } else if c == '/' {
            Some(('/', i + 1))
        } else if c == 'b' {
            Some(('\u{8}', i + 1))
        } else if c == 'f' {
            Some(('\u{c}', i + 1))
        } else if c == 'n' {
            Some(('\n', i + 1))
        } else if c == 'r' {
            Some(('\r', i + 1))
        } else if c == 't' {
            Some(('\t', i + 1))
        } else if c == 'u' {
            spec_unicode_escape(s, i + 1)
        } else {
            None
        }
    }
}

pub proof fn lemma_escape_bounds(s: Seq<char>, i: int)
    ensures
        spec_escape(s, i) matches Some(p) ==> i < p.1 <= s.len(),
{
}

/// String contents from `i` (just inside the opening quote) up to the closing
/// quote: the unescaped characters and the position after the quote.
pub open spec fn spec_string_rest(s: Seq<char>, i: int) -> Option<(Seq<char>, int)>
    decreases s.len() - i,
{
    if i < 0 || i >= s.len() {
        None
    } else if s[i] == '"' {
        Some((Seq::empty(), i + 1))
    } else if s[i] == '\\' {
        match spec_escape(s, i + 1) {
            None => None,
            Some(p) => {
                proof {
                    lemma_escape_bounds(s, i + 1);
                }
                match spec_string_rest(s, p.1) {
                    None => None,
                    Some(q) => Some((seq![p.0] + q.0, q.1)),
                }
            },
        }
    } else if (s[i] as u32) < 0x20 {
        None
    } else {
        match spec_string_rest(s, i + 1) {
            None => None,
            Some(q) => Some((seq![s[i]] + q.0, q.1)),
        }
    }
}

pub proof fn lemma_string_rest_bounds(s: Seq<char>, i: int)
    ensures
        spec_string_rest(s, i) matches Some(q) ==> i < q.1 <= s.len(),
    decreases s.len() - i,
{
    if 0 <= i < s.len() {
        if s[i] == '\\' {
            lemma_escape_bounds(s, i + 1);
            if let Some(p) = spec_escape(s, i + 1) {
                lemma_string_rest_bounds(s, p.1);
            }
        } else if s[i] != '"' && (s[i] as u32) >= 0x20 {
            lemma_string_rest_bounds(s, i + 1);
        }
    }
}

/// A whole JSON string at `i` (the opening quote).
pub open spec fn spec_parse_string(s: Seq<char>, i: int) -> Option<(Seq<char>, int)> {
    if 0 <= i < s.len() && s[i] == '"' {
        spec_string_rest(s, i + 1)
    } else {
        None
    }
}

pub proof fn lemma_parse_string_bounds(s: Seq<char>, i: int)
    ensures
        spec_parse_string(s, i) matches Some(q) ==> i + 2 <= q.1 <= s.len(),
{
    if 0 <= i < s.len() && s[i] == '"' {
        lemma_string_rest_bounds(s, i + 1);
    }
}

/// First position at or after `i` holding no decimal digit.
pub open spec fn spec_skip_digits(s: Seq<char>, i: int) -> int
    decreases s.len() - i,
{
    if 0 <= i < s.len() && is_digit(s[i]) {
        spec_skip_digits(s, i + 1)
    } else {
        i
    }
}

pub proof fn lemma_skip_digits_bounds(s: Seq<char>, i: int)
    requires
        0 <= i <= s.len(),
    ensures
        i <= spec_skip_digits(s, i) <= s.len(),
    decreases s.len() - i,
{
    if i < s.len() && is_digit(s[i]) {
        lemma_skip_digits_bounds(s, i + 1);
    }
}

/// A JSON number at `i` (a minus sign or first digit): the position after it.
/// Only its extent matters; numbers appear only in ignored members.
pub open spec fn spec_parse_number(s: Seq<char>, i: int) -> Option<int> {
    if i < 0 || i >= s.len() {
        None
    } else {
        let j = if s[i] == '-' {
            i + 1
        } else {
            i
        };
        if 0 <= j < s.len() && is_digit(s[j]) {
            let k = if s[j] == '0' {
                j + 1
            } else {
                spec_skip_digits(s, j)
            };
            spec_parse_number_frac(s, k)
        } else {
            None
        }
    }
}

/// The optional fraction and exponent parts starting at `k`.
pub open spec fn spec_parse_number_frac(s: Seq<char>, k: int) -> Option<int> {
    if k < s.len() && s[k] == '.' {
        let d = spec_skip_digits(s, k + 1);
        if d > k + 1 {
            spec_parse_number_exp(s, d)
        } else {
            None
        }
    } else {
        spec_parse_number_exp(s, k)
    }
}

/// The optional exponent part starting at `k`.
pub open spec fn spec_parse_number_exp(s: Seq<char>, k: int) -> Option<int> {
    if k < s.len() && (s[k] == 'e' || s[k] == 'E') {
        let e0 = if k + 1 < s.len() && (s[k + 1] == '+' || s[k + 1] == '-') {
            k + 2
        } else {
            k + 1
        };
        let d = spec_skip_digits(s, e0);
        if d > e0 {
            Some(d)
        } else {
            None
        }
    } else {
        Some(k)
    }
}

pub proof fn lemma_parse_number_bounds(s: Seq<char>, i: int)
    requires
        0 <= i,
    ensures
        spec_parse_number(s, i) matches Some(j) ==> i < j <= s.len(),
{
    if 0 <= i < s.len() {
        let j = if s[i] == '-' {
            i + 1
        } else {
            i
        };
        if j < s.len() && is_digit(s[j]) {
            let k = if s[j] == '0' {
                j + 1
            } else {
                spec_skip_digits(s, j)
            };
            lemma_skip_digits_bounds(s, j + 1);
            assert(spec_skip_digits(s, j) == spec_skip_digits(s, j + 1));
            lemma_number_frac_bounds(s, k);
        }
    }
}

pub proof fn lemma_number_frac_bounds(s: Seq<char>, k: int)
    requires
        0 <= k <= s.len(),
    ensures
        spec_parse_number_frac(s, k) matches Some(j) ==> k <= j <= s.len(),
{
    if k < s.len() && s[k] == '.' {
        lemma_skip_digits_bounds(s, k + 1);
        let d = spec_skip_digits(s, k + 1);
        if d > k + 1 {
            lemma_number_exp_bounds(s, d);
        }
    } else {
        lemma_number_exp_bounds(s, k);
    }
}

pub proof fn lemma_number_exp_bounds(s: Seq<char>, k: int)
    requires
        0 <= k <= s.len(),
    ensures
        spec_parse_number_exp(s, k) matches Some(j) ==> k <= j <= s.len(),
{
    if k < s.len() && (s[k] == 'e' || s[k] == 'E') {
        let e0 = if k + 1 < s.len() && (s[k + 1] == '+' || s[k + 1] == '-') {
            k + 2
        } else {
            k + 1
        };
        lemma_skip_digits_bounds(s, e0);
    }
}

/// The exact characters of a literal keyword (`true`, `false`, `null`) at `i`.
pub open spec fn spec_match_lit(s: Seq<char>, i: int, w: Seq<char>) -> bool {
    i >= 0 && i + w.len() <= s.len() && s.subrange(i, i + w.len() as int) == w
}

/// Any JSON value at `i` (first non-whitespace character of the value):
/// the position after it. Values are validated but not kept; only the three
/// alert members' string contents are extracted, by `spec_member_value`.
pub open spec fn spec_parse_value(s: Seq<char>, i: int) -> Option<int>
    decreases s.len() - i, 0int,
{
    if i < 0 || i >= s.len() {
        None
    } else {
        let c = s[i];
        if c == '{' {
            proof {
                lemma_skip_ws_bounds(s, i + 1);
            }
            spec_parse_object_rest(s, spec_skip_ws(s, i + 1))
        } else if c == '[' {
            proof {
                lemma_skip_ws_bounds(s, i + 1);
            }
            spec_parse_array_rest(s, spec_skip_ws(s, i + 1))
        } else if c == '"' {
            match spec_parse_string(s, i) {
                None => None,
                Some(q) => Some(q.1),
            }
        } else if c == 't' {
            if spec_match_lit(s, i, "true"@) {
                Some(i + 4)
            } else {
                None
            }
        } else if c == 'f' {
            if spec_match_lit(s, i, "false"@) {
                Some(i + 5)
            } else {
                None
            }
        } else if c == 'n' {
            if spec_match_lit(s, i, "null"@) {
                Some(i + 4)
            } else {
                None
            }
        } else if c == '-' || is_digit(c) {
            spec_parse_number(s, i)
        } else {
            None
        }
    }
}

/// The rest of an object after its `{` and any whitespace: `}` or members.
pub open spec fn spec_parse_object_rest(s: Seq<char>, i: int) -> Option<int>
    decreases s.len() - i, 2int,
{
    if 0 <= i < s.len() && s[i] == '}' {
        Some(i + 1)
    } else {
        spec_parse_members(s, i)
    }
}

/// One or more `key : value` members from `i` (the key's opening quote) up to
/// and including the closing `}`, keys and values ignored.
pub open spec fn spec_parse_members(s: Seq<char>, i: int) -> Option<int>
    decreases s.len() - i, 1int,
{
    match spec_parse_string(s, i) {
        None => None,
        Some(q) => {
            proof {
                lemma_parse_string_bounds(s, i);
                lemma_skip_ws_bounds(s, q.1);
            }
            let j2 = spec_skip_ws(s, q.1);
            if j2 < s.len() && s[j2] == ':' {
                proof {
                    lemma_skip_ws_bounds(s, j2 + 1);
                }
                let j3 = spec_skip_ws(s, j2 + 1);
                if j3 >= s.len() {
                    None
                } else {
                match spec_parse_value(s, j3) {
                    None => None,
                    Some(j4) => {
                        // A value always ends past where it starts and within
                        // the input; the clamp makes that structurally
                        // evident for the termination measure and never
                        // changes the result (`lemma_parse_value_bounds`).
                        let j4c = if j3 < j4 <= s.len() {
                            j4
                        } else {
                            j3 + 1
                        };
                        proof {
                            lemma_skip_ws_bounds(s, j4c);
                        }
                        let j5 = spec_skip_ws(s, j4c);
                        if j5 < s.len() && s[j5] == ',' {
                            proof {
                                lemma_skip_ws_bounds(s, j5 + 1);
                            }
                            spec_parse_members(s, spec_skip_ws(s, j5 + 1))
                        } else if j5 < s.len() && s[j5] == '}' {
                            Some(j5 + 1)
                        } else {
                            None
                        }
                    },
                }
                }
            } else {
                None
            }
        },
    }
}

/// The rest of an array after its `[` and any whitespace: `]` or elements.
pub open spec fn spec_parse_array_rest(s: Seq<char>, i: int) -> Option<int>
    decreases s.len() - i, 2int,
{
    if 0 <= i < s.len() && s[i] == ']' {
        Some(i + 1)
    } else {
        spec_parse_elements(s, i)
    }
}

/// One or more elements from `i` (the first element's first character) up to
/// and including the closing `]`.
pub open spec fn spec_parse_elements(s: Seq<char>, i: int) -> Option<int>
    decreases s.len() - i, 1int,
{
    if i < 0 || i >= s.len() {
        None
    } else {
    match spec_parse_value(s, i) {
        None => None,
        Some(j) => {
            // Same clamp as in `spec_parse_members`: a no-op in fact, but it
            // carries the termination measure.
            let jc = if i < j <= s.len() {
                j
            } else {
                i + 1
            };
            proof {
                lemma_skip_ws_bounds(s, jc);
            }
            let k = spec_skip_ws(s, jc);
            if k < s.len() && s[k] == ',' {
                proof {
                    lemma_skip_ws_bounds(s, k + 1);
                }
                spec_parse_elements(s, spec_skip_ws(s, k + 1))
            } else if k < s.len() && s[k] == ']' {
                Some(k + 1)
            } else {
                None
            }
        },
    }
    }
}

/// Every grammar production, when it accepts, ends strictly past where it
/// started and within the input. In particular the clamps inside
/// `spec_parse_members` and `spec_parse_elements` never change the result.
pub proof fn lemma_parse_value_bounds(s: Seq<char>, i: int)
    ensures
        spec_parse_value(s, i) matches Some(j) ==> i < j <= s.len(),
    decreases s.len() - i, 0int,
{
    reveal_strlit("true");
    reveal_strlit("false");
    reveal_strlit("null");
    if 0 <= i < s.len() {
        let c = s[i];
        if c == '{' {
            lemma_skip_ws_bounds(s, i + 1);
            lemma_parse_object_rest_bounds(s, spec_skip_ws(s, i + 1));
        } else if c == '[' {
            lemma_skip_ws_bounds(s, i + 1);
            lemma_parse_array_rest_bounds(s, spec_skip_ws(s, i + 1));
        } else if c == '"' {
            lemma_parse_string_bounds(s, i);
        } else if c == '-' || is_digit(c) {
            lemma_parse_number_bounds(s, i);
        }
    }
}

pub proof fn lemma_parse_object_rest_bounds(s: Seq<char>, i: int)
    ensures
        spec_parse_object_rest(s, i) matches Some(j) ==> i < j <= s.len(),
    decreases s.len() - i, 2int,
{
    if !(0 <= i < s.len() && s[i] == '}') {
        lemma_parse_members_bounds(s, i);
    }
}

pub proof fn lemma_parse_members_bounds(s: Seq<char>, i: int)
    ensures
        spec_parse_members(s, i) matches Some(j) ==> i < j <= s.len(),
    decreases s.len() - i, 1int,
{
    lemma_parse_string_bounds(s, i);
    if let Some(q) = spec_parse_string(s, i) {
        lemma_skip_ws_bounds(s, q.1);
        let j2 = spec_skip_ws(s, q.1);
        if j2 < s.len() && s[j2] == ':' {
            lemma_skip_ws_bounds(s, j2 + 1);
            let j3 = spec_skip_ws(s, j2 + 1);
            if j3 < s.len() {
                lemma_parse_value_bounds(s, j3);
                if let Some(j4) = spec_parse_value(s, j3) {
                    let j4c = if j3 < j4 <= s.len() {
                        j4
                    } else {
                        j3 + 1
                    };
                    lemma_skip_ws_bounds(s, j4c);
                    let j5 = spec_skip_ws(s, j4c);
                    if j5 < s.len() && s[j5] == ',' {
                        lemma_skip_ws_bounds(s, j5 + 1);
                        lemma_parse_members_bounds(s, spec_skip_ws(s, j5 + 1));
                    }
                }
            }
        }
    }
}

pub proof fn lemma_parse_array_rest_bounds(s: Seq<char>, i: int)
    ensures
        spec_parse_array_rest(s, i) matches Some(j) ==> i < j <= s.len(),
    decreases s.len() - i, 2int,
{
    if !(0 <= i < s.len() && s[i] == ']') {
        lemma_parse_elements_bounds(s, i);
    }
}

/// Relies on std's char::from_u32: `Some` exactly on Unicode scalar values,
/// returning the char with that value.
#[verifier::external_body]
fn char_from_u32(u: u32) -> (r: Option<char>)
    ensures
        r matches Some(c) ==> c == (u as char) && (u < 0xD800 || (0xE000 <= u && u <= 0x10FFFF)),
        r is None ==> !(u < 0xD800 || (0xE000 <= u && u <= 0x10FFFF)),
{
    char::from_u32(u)
}

/// Relies on std's FromIterator for String: collecting chars yields the
/// string of exactly those chars.
#[verifier::external_body]
pub(crate) fn chars_to_string(v: &Vec<char>) -> (r: String)
    ensures
        r@ == v@,
{
    v.iter().collect()
}

fn is_ws_e(c: char) -> (b: bool)
    ensures
        b == is_ws(c),
{
    c == ' ' || c == '\n' || c == '\r' || c == '\t'
}

fn is_digit_e(c: char) -> (b: bool)
    ensures
        b == is_digit(c),
{
    let u = c as u32;
    48 <= u && u <= 57
}

fn is_hex_digit_e(c: char) -> (b: bool)
    ensures
        b == is_hex_digit(c),
{
    let u = c as u32;
    (48 <= u && u <= 57) || (97 <= u && u <= 102) || (65 <= u && u <= 70)
}

fn hex_val_e(c: char) -> (v: u32)
    requires
        is_hex_digit(c),
    ensures
        v == hex_val(c),
        v <= 15,
{
    let u = c as u32;
    if u >= 97 {
        u - 87
    } else if u >= 65 {
        u - 55
    } else {
        u - 48
    }
}

pub(crate) fn e_skip_ws(s: &str, i: usize) -> (r: usize)
    requires
        i <= s@.len(),
    ensures
        r == spec_skip_ws(s@, i as int),
        i <= r <= s@.len(),
    decreases s@.len() - i,
{
    let n = s.unicode_len();
    if i < n && is_ws_e(s.get_char(i)) {
        e_skip_ws(s, i + 1)
    } else {
        i
    }
}

fn e_hex4(s: &str, i: usize) -> (r: Option<u32>)
    requires
        i <= s@.len(),
    ensures
        r == spec_hex4(s@, i as int),
    decreases s@.len() - i,
{
    let n = s.unicode_len();
    if n - i < 4 {
        None
    } else if is_hex_digit_e(s.get_char(i)) && is_hex_digit_e(s.get_char(i + 1))
        && is_hex_digit_e(s.get_char(i + 2)) && is_hex_digit_e(s.get_char(i + 3)) {
        let v = hex_val_e(s.get_char(i)) * 0x1000 + hex_val_e(s.get_char(i + 1)) * 0x100
            + hex_val_e(s.get_char(i + 2)) * 0x10 + hex_val_e(s.get_char(i + 3));
        Some(v)
    } else {
        None
    }
}

fn e_unicode_escape(s: &str, i: usize) -> (r: Option<(char, usize)>)
    requires
        i <= s@.len(),
    ensures
        match r {
            Some(p) => spec_unicode_escape(s@, i as int) == Some((p.0, p.1 as int)) && i < p.1
                <= s@.len(),
            None => spec_unicode_escape(s@, i as int) is None,
        },
{
    let n = s.unicode_len();
    match e_hex4(s, i) {
        None => None,
        Some(hi) => {
            if hi < 0xD800 || hi > 0xDFFF {
                match char_from_u32(hi) {
                    Some(c) => Some((c, i + 4)),
                    None => {
                        proof {
                            assert(false);
                        }
                        None
                    },
                }
            } else if hi >= 0xDC00 {
                None
            } else if n - i >= 6 && s.get_char(i + 4) == '\\' && s.get_char(i + 5) == 'u' {
                match e_hex4(s, i + 6) {
                    None => None,
                    Some(lo) => {
                        if 0xDC00 <= lo && lo <= 0xDFFF {
                            let u = 0x10000 + (hi - 0xD800) * 0x400 + (lo - 0xDC00);
                            match char_from_u32(u) {
                                Some(c) => Some((c, i + 10)),
                                None => {
                                    proof {
                                        assert(false);
                                    }
                                    None
                                },
                            }
                        } else {
                            None
                        }
                    },
                }
            } else {
                None
            }
        },
    }
}

fn e_escape(s: &str, i: usize) -> (r: Option<(char, usize)>)
    requires
        i <= s@.len(),
    ensures
        match r {
            Some(p) => spec_escape(s@, i as int) == Some((p.0, p.1 as int)) && i < p.1 <= s@.len(),
            None => spec_escape(s@, i as int) is None,
        },
{
    let n = s.unicode_len();
    if i >= n {
        None
    } else {
        let c = s.get_char(i);
        if c == '"' {
            Some(('"', i + 1))
        } else if c == '\\' {
            Some(('\\', i + 1))
        } else if c == '/' {
            Some(('/', i + 1))
        } else if c == 'b' {
            Some(('\u{8}', i + 1))
        } else if c == 'f' {
            Some(('\u{c}', i + 1))
        } else if c == 'n' {
            Some(('\n', i + 1))
        } else if c == 'r' {
            Some(('\r', i + 1))
        } else if c == 't' {
            Some(('\t', i + 1))
        } else if c == 'u' {
            e_unicode_escape(s, i + 1)
        } else {
            None
        }
    }
}

fn e_string_rest(s: &str, i: usize) -> (r: Option<(Vec<char>, usize)>)
    requires
        i <= s@.len(),
    ensures
        match r {
            Some(p) => spec_string_rest(s@, i as int) == Some((p.0@, p.1 as int)) && i < p.1
                <= s@.len(),
            None => spec_string_rest(s@, i as int) is None,
        },
    decreases s@.len() - i,
{
    let n = s.unicode_len();
    if i >= n {
        None
    } else {
        let c = s.get_char(i);
        if c == '"' {
            let v: Vec<char> = Vec::new();
            Some((v, i + 1))
        } else if c == '\\' {
            match e_escape(s, i + 1) {
                None => None,
                Some((ec, j)) => {
                    match e_string_rest(s, j) {
                        None => None,
                        Some((mut rest, k)) => {
                            rest.insert(0, ec);
                            proof {
                                let sp = spec_string_rest(s@, j as int)->Some_0;
                                assert(sp.0.insert(0, ec) =~= seq![ec] + sp.0);
                            }
                            Some((rest, k))
                        },
                    }
                },
            }
        } else if (c as u32) < 0x20 {
            None
        } else {
            match e_string_rest(s, i + 1) {
                None => None,
                Some((mut rest, k)) => {
                    rest.insert(0, c);
                    proof {
                        let sp = spec_string_rest(s@, i + 1)->Some_0;
                        assert(sp.0.insert(0, c) =~= seq![c] + sp.0);
                    }
                    Some((rest, k))
                },
            }
        }
    }
}

pub(crate) fn e_parse_string(s: &str, i: usize) -> (r: Option<(Vec<char>, usize)>)
    requires
        i <= s@.len(),
    ensures
        match r {
            Some(p) => spec_parse_string(s@, i as int) == Some((p.0@, p.1 as int)) && i + 2 <= p.1
                <= s@.len(),
            None => spec_parse_string(s@, i as int) is None,
        },
{
    let n = s.unicode_len();
    if i < n && s.get_char(i) == '"' {
        e_string_rest(s, i + 1)
    } else {
        None
    }
}

fn e_skip_digits(s: &str, i: usize) -> (r: usize)
    requires
        i <= s@.len(),
    ensures
        r == spec_skip_digits(s@, i as int),
        i <= r <= s@.len(),
    decreases s@.len() - i,
{
    let n = s.unicode_len();
    if i < n && is_digit_e(s.get_char(i)) {
        e_skip_digits(s, i + 1)
    } else {
        i
    }
}

fn e_parse_number(s: &str, i: usize) -> (r: Option<usize>)
    requires
        i <= s@.len(),
    ensures
        match r {
            Some(j) => spec_parse_number(s@, i as int) == Some(j as int) && i < j <= s@.len(),
            None => spec_parse_number(s@, i as int) is None,
        },
{
    proof {
        lemma_parse_number_bounds(s@, i as int);
    }
    let n = s.unicode_len();
    if i >= n {
        None
    } else {
        let j = if s.get_char(i) == '-' {
            i + 1
        } else {
            i
        };
        if j < n && is_digit_e(s.get_char(j)) {
            let k = if s.get_char(j) == '0' {
                j + 1
            } else {
                e_skip_digits(s, j)
            };
            e_parse_number_frac(s, k)
        } else {
            None
        }
    }
}

fn e_parse_number_frac(s: &str, k: usize) -> (r: Option<usize>)
    requires
        k <= s@.len(),
    ensures
        match r {
            Some(j) => spec_parse_number_frac(s@, k as int) == Some(j as int) && k <= j <= s@.len(),
            None => spec_parse_number_frac(s@, k as int) is None,
        },
{
    proof {
        lemma_number_frac_bounds(s@, k as int);
    }
    let n = s.unicode_len();
    if k < n && s.get_char(k) == '.' {
        let d = e_skip_digits(s, k + 1);
        if d > k + 1 {
            e_parse_number_exp(s, d)
        } else {
            None
        }
    } else {
        e_parse_number_exp(s, k)
    }
}

fn e_parse_number_exp(s: &str, k: usize) -> (r: Option<usize>)
    requires
        k <= s@.len(),
    ensures
        match r {
            Some(j) => spec_parse_number_exp(s@, k as int) == Some(j as int) && k <= j <= s@.len(),
            None => spec_parse_number_exp(s@, k as int) is None,
        },
{
    let n = s.unicode_len();
    if k < n && (s.get_char(k) == 'e' || s.get_char(k) == 'E') {
        let e0 = if k + 1 < n && (s.get_char(k + 1) == '+' || s.get_char(k + 1) == '-') {
            k + 2
        } else {
            k + 1
        };
        let d = e_skip_digits(s, e0);
        if d > e0 {
            Some(d)
        } else {
            None
        }
    } else {
        Some(k)
    }
}

/// Whether the characters of `w` appear verbatim at position `i` of `s`.
fn match_lit_e(s: &str, i: usize, w: &str) -> (b: bool)
    requires
        i <= s@.len(),
    ensures
        b == spec_match_lit(s@, i as int, w@),
{
    let n = s.unicode_len();
    let m = w.unicode_len();
    if n - i < m {
        assert(!spec_match_lit(s@, i as int, w@));
        return false;
    }
    let mut k: usize = 0;
    while k < m
        invariant
            i + m <= n,
            n == s@.len(),
            m == w@.len(),
            k <= m,
            forall|t: int| 0 <= t < k ==> s@[i + t] == w@[t],
        decreases m - k,
    {
        if s.get_char(i + k) != w.get_char(k) {
            assert(s@.subrange(i as int, i + w@.len()) != w@) by {
                assert(s@.subrange(i as int, i + w@.len())[k as int] == s@[i + k]);
            }
            return false;
        }
        k = k + 1;
    }
    assert(s@.subrange(i as int, i + w@.len()) =~= w@);
    true
}

/// End position of the JSON value at `i`, validating its syntax.
pub(crate) fn e_value(s: &str, i: usize) -> (r: Option<usize>)
    requires
        i <= s@.len(),
    ensures
        match r {
            Some(j) => spec_parse_value(s@, i as int) == Some(j as int) && i < j <= s@.len(),
            None => spec_parse_value(s@, i as int) is None,
        },
    decreases s@.len() - i, 0int,
{
    proof {
        lemma_parse_value_bounds(s@, i as int);
    }
    let n = s.unicode_len();
    if i >= n {
        None
    } else {
        let c = s.get_char(i);
        if c == '{' {
            let j = e_skip_ws(s, i + 1);
            e_object_rest(s, j)
        } else if c == '[' {
            let j = e_skip_ws(s, i + 1);
            e_array_rest(s, j)
        } else if c == '"' {
            match e_parse_string(s, i) {
                None => None,
                Some((_, j)) => Some(j),
            }
        } else if c == 't' {
            proof {
                reveal_strlit("true");
            }
            if match_lit_e(s, i, "true") {
                Some(i + 4)
            } else {
                None
            }
        } else if c == 'f' {
            proof {
                reveal_strlit("false");
            }
            if match_lit_e(s, i, "false") {
                Some(i + 5)
            } else {
                None
            }
        } else if c == 'n' {
            proof {
                reveal_strlit("null");
            }
            if match_lit_e(s, i, "null") {
                Some(i + 4)
            } else {
                None
            }
        } else if c == '-' || is_digit_e(c) {
            e_parse_number(s, i)
        } else {
            None
        }
    }
}

fn e_object_rest(s: &str, i: usize) -> (r: Option<usize>)
    requires
        i <= s@.len(),
    ensures
        match r {
            Some(j) => spec_parse_object_rest(s@, i as int) == Some(j as int) && i < j <= s@.len(),
            None => spec_parse_object_rest(s@, i as int) is None,
        },
    decreases s@.len() - i, 2int,
{
    proof {
        lemma_parse_object_rest_bounds(s@, i as int);
    }
    let n = s.unicode_len();
    if i < n && s.get_char(i) == '}' {
        Some(i + 1)
    } else {
        e_members(s, i)
    }
}

fn e_members(s: &str, i: usize) -> (r: Option<usize>)
    requires
        i <= s@.len(),
    ensures
        match r {
            Some(j) => spec_parse_members(s@, i as int) == Some(j as int) && i < j <= s@.len(),
            None => spec_parse_members(s@, i as int) is None,
        },
    decreases s@.len() - i, 1int,
{
    proof {
        lemma_parse_members_bounds(s@, i as int);
    }
    let n = s.unicode_len();
    match e_parse_string(s, i) {
        None => None,
        Some((_, j1)) => {
            let j2 = e_skip_ws(s, j1);
            if j2 < n && s.get_char(j2) == ':' {
                let j3 = e_skip_ws(s, j2 + 1);
                if j3 >= n {
                    None
                } else {
                    match e_value(s, j3) {
                        None => None,
                        Some(j4) => {
                            let j5 = e_skip_ws(s, j4);
                            if j5 < n && s.get_char(j5) == ',' {
                                let j6 = e_skip_ws(s, j5 + 1);
                                e_members(s, j6)
                            } else if j5 < n && s.get_char(j5) == '}' {
                                Some(j5 + 1)
                            } else {
                                None
                            }
                        },
                    }
                }
            } else {
                None
            }
        },
    }
}

fn e_array_rest(s: &str, i: usize) -> (r: Option<usize>)
    requires
        i <= s@.len(),
    ensures
        match r {
            Some(j) => spec_parse_array_rest(s@, i as int) == Some(j as int) && i < j <= s@.len(),
            None => spec_parse_array_rest(s@, i as int) is None,
        },
    decreases s@.len() - i, 2int,
{
    proof {
        lemma_parse_array_rest_bounds(s@, i as int);
    }
    let n = s.unicode_len();
    if i < n && s.get_char(i) == ']' {
        Some(i + 1)
    } else {
        e_elements(s, i)
    }
}

fn e_elements(s: &str, i: usize) -> (r: Option<usize>)
    requires
        i <= s@.len(),
    ensures
        match r {
            Some(j) => spec_parse_elements(s@, i as int) == Some(j as int) && i < j <= s@.len(),
            None => spec_parse_elements(s@, i as int) is None,
        },
    decreases s@.len() - i, 1int,
{
    proof {
        lemma_parse_elements_bounds(s@, i as int);
    }
    let n = s.unicode_len();
    if i >= n {
        None
    } else {
        match e_value(s, i) {
            None => None,
            Some(j) => {
                let k = e_skip_ws(s, j);
                if k < n && s.get_char(k) == ',' {
                    let k2 = e_skip_ws(s, k + 1);
                    e_elements(s, k2)
                } else if k < n && s.get_char(k) == ']' {
                    Some(k + 1)
                } else {
                    None
                }
            },
        }
    }
}

pub proof fn lemma_parse_elements_bounds(s: Seq<char>, i: int)
    ensures
        spec_parse_elements(s, i) matches Some(j) ==> i < j <= s.len(),
    decreases s.len() - i, 1int,
{
    if 0 <= i < s.len() {
        lemma_parse_value_bounds(s, i);
        if let Some(j) = spec_parse_value(s, i) {
            let jc = if i < j <= s.len() {
                j
            } else {
                i + 1
            };
            lemma_skip_ws_bounds(s, jc);
            let k = spec_skip_ws(s, jc);
            if k < s.len() && s[k] == ',' {
                lemma_skip_ws_bounds(s, k + 1);
                lemma_parse_elements_bounds(s, spec_skip_ws(s, k + 1));
            }
        }
    }
}

} // verus!
