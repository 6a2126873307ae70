//! Decoding an alert request body: a JSON object with string members `from`,
//! `theme` and `text`, all required, unknown members ignored, nothing after
//! the object. The decoder is a pure function of the body bytes.

use vstd::prelude::*;

use crate::json::{
    chars_to_string, e_parse_string, e_skip_ws, e_value, lemma_parse_string_bounds,
    lemma_parse_value_bounds, lemma_skip_ws_bounds, spec_parse_string, spec_parse_value,
    spec_skip_ws, ParseError,
};

verus! {

/// One decoded alert request. Transient: lives for one HTTP request.
#[derive(Clone, Debug, PartialEq, Eq)]
pub struct AlertRequest {
    /// Who raised the alert; used only for the success log line.
    pub from: String,
    /// What the alert is about; used only for the success log line.
    pub theme: String,
    /// The message text broadcast to every admin.
    pub text: String,
}

/// The three member slots while walking the object, in declaration order:
/// `from`, `theme`, `text`.
pub type SpecSlots = (Option<Seq<char>>, Option<Seq<char>>, Option<Seq<char>>);

/// Executable counterpart of `SpecSlots`.
pub type Slots = (Option<String>, Option<String>, Option<String>);

pub open spec fn slots_view(a: Slots) -> SpecSlots {
    (
        match a.0 {
            Some(x) => Some(x@),
            None => None,
        },
        match a.1 {
            Some(x) => Some(x@),
            None => None,
        },
        match a.2 {
            Some(x) => Some(x@),
            None => None,
        },
    )
}

/// Whether `key` is one of the three alert members.
pub open spec fn is_alert_key(key: Seq<char>) -> bool {
    key == "from"@ || key == "theme"@ || key == "text"@
}

/// The slot `key` names.
pub open spec fn key_slot(acc: SpecSlots, key: Seq<char>) -> Option<Seq<char>> {
    if key == "from"@ {
        acc.0
    } else if key == "theme"@ {
        acc.1
    } else {
        acc.2
    }
}

/// `acc` with the slot `key` names set to `v`.
pub open spec fn set_slot(acc: SpecSlots, key: Seq<char>, v: Seq<char>) -> SpecSlots {
    if key == "from"@ {
        (Some(v), acc.1, acc.2)
    } else if key == "theme"@ {
        (acc.0, Some(v), acc.2)
    } else {
        (acc.0, acc.1, Some(v))
    }
}

/// One member's value at `i`: an alert member must be a string and fills its
/// slot; any other member may be any JSON value and is ignored.
pub open spec fn spec_member_value(s: Seq<char>, i: int, acc: SpecSlots, key: Seq<char>) -> Result<
    (SpecSlots, int),
    ParseError,
> {
    if is_alert_key(key) {
        match spec_parse_string(s, i) {
            Some(q) => Ok((set_slot(acc, key, q.0), q.1)),
            None => {
                if 0 <= i < s.len() && s[i] == '"' {
                    Err(ParseError::Malformed)
                } else {
                    match spec_parse_value(s, i) {
                        Some(_) => Err(ParseError::WrongFieldType),
                        None => Err(ParseError::Malformed),
                    }
                }
            },
        }
    } else {
        match spec_parse_value(s, i) {
            None => Err(ParseError::Malformed),
            Some(j) => Ok((acc, j)),
        }
    }
}

pub proof fn lemma_member_value_bounds(s: Seq<char>, i: int, acc: SpecSlots, key: Seq<char>)
    ensures
        spec_member_value(s, i, acc, key) matches Ok(p) ==> i < p.1 <= s.len(),
{
    lemma_parse_string_bounds(s, i);
    lemma_parse_value_bounds(s, i);
}

/// The members of the alert object from `i` (the first key's opening quote)
/// up to and including the closing `}`: the filled slots and the end
/// position. A repeated alert member is rejected; a repeated other member is
/// ignored like any other unknown member.
pub open spec fn spec_parse_top_members(s: Seq<char>, i: int, acc: SpecSlots) -> Result<
    (SpecSlots, int),
    ParseError,
>
    decreases s.len() - i,
{
    match spec_parse_string(s, i) {
        None => Err(ParseError::Malformed),
        Some(kq) => {
            proof {
                lemma_parse_string_bounds(s, i);
                lemma_skip_ws_bounds(s, kq.1);
            }
            let j2 = spec_skip_ws(s, kq.1);
            if !(j2 < s.len() && s[j2] == ':') {
                Err(ParseError::Malformed)
            } else {
                proof {
                    lemma_skip_ws_bounds(s, j2 + 1);
                }
                let j3 = spec_skip_ws(s, j2 + 1);
                if is_alert_key(kq.0) && key_slot(acc, kq.0) is Some {
                    Err(ParseError::DuplicateField)
                } else if j3 >= s.len() {
                    Err(ParseError::Malformed)
                } else {
                    match spec_member_value(s, j3, acc, kq.0) {
                        Err(e) => Err(e),
                        Ok(p) => {
                            // A member's value always ends past where it
                            // starts and within the input
                            // (`lemma_member_value_bounds`); the clamp makes
                            // that structurally evident for the termination
                            // measure and never changes the result.
                            let j4 = if j3 < p.1 <= s.len() {
                                p.1
                            } else {
                                j3 + 1
                            };
                            proof {
                                lemma_skip_ws_bounds(s, j4);
                            }
                            let j5 = spec_skip_ws(s, j4);
                            if j5 < s.len() && s[j5] == ',' {
                                proof {
                                    lemma_skip_ws_bounds(s, j5 + 1);
                                }
                                spec_parse_top_members(s, spec_skip_ws(s, j5 + 1), p.0)
                            } else if j5 < s.len() && s[j5] == '}' {
                                Ok((p.0, j5 + 1))
                            } else {
                                Err(ParseError::Malformed)
                            }
                        },
                    }
                }
            }
        },
    }
}

pub proof fn lemma_top_members_bounds(s: Seq<char>, i: int, acc: SpecSlots)
    ensures
        spec_parse_top_members(s, i, acc) matches Ok(p) ==> i < p.1 <= s.len(),
    decreases s.len() - i,
{
    lemma_parse_string_bounds(s, i);
    if let Some(kq) = spec_parse_string(s, i) {
        lemma_skip_ws_bounds(s, kq.1);
        let j2 = spec_skip_ws(s, kq.1);
        if j2 < s.len() && s[j2] == ':' {
            lemma_skip_ws_bounds(s, j2 + 1);
            let j3 = spec_skip_ws(s, j2 + 1);
            if !(is_alert_key(kq.0) && key_slot(acc, kq.0) is Some) && j3 < s.len() {
                lemma_member_value_bounds(s, j3, acc, kq.0);
                if let Ok(p) = spec_member_value(s, j3, acc, kq.0) {
                    let j4 = if j3 < p.1 <= s.len() {
                        p.1
                    } else {
                        j3 + 1
                    };
                    lemma_skip_ws_bounds(s, j4);
                    let j5 = spec_skip_ws(s, j4);
                    if j5 < s.len() && s[j5] == ',' {
                        lemma_skip_ws_bounds(s, j5 + 1);
                        lemma_top_members_bounds(s, spec_skip_ws(s, j5 + 1), p.0);
                    }
                }
            }
        }
    }
}

/// What decoding the characters of an alert request body yields: the `from`,
/// `theme` and `text` member contents, or the reason the body is rejected.
pub open spec fn spec_parse_alert(s: Seq<char>) -> Result<
    (Seq<char>, Seq<char>, Seq<char>),
    ParseError,
> {
    let i = spec_skip_ws(s, 0);
    if i >= s.len() {
        Err(ParseError::Malformed)
    } else if s[i] != '{' {
        match spec_parse_value(s, i) {
            Some(_) => Err(ParseError::NotAnObject),
            None => Err(ParseError::Malformed),
        }
    } else {
        let j = spec_skip_ws(s, i + 1);
        let r = if j < s.len() && s[j] == '}' {
            Ok(((None, None, None), j + 1))
        } else {
            spec_parse_top_members(s, j, (None, None, None))
        };
        match r {
            Err(e) => Err(e),
            Ok(p) => match p.0 {
                (Some(f), Some(t), Some(x)) => {
                    if spec_skip_ws(s, p.1) < s.len() {
                        Err(ParseError::Malformed)
                    } else {
                        Ok((f, t, x))
                    }
                },
                _ => Err(ParseError::MissingField),
            },
        }
    }
}

/// What decoding an alert request body's bytes yields: bytes that are not
/// valid UTF-8 are rejected outright; otherwise their characters are decoded
/// by `spec_parse_alert`.
pub open spec fn spec_decode_alert(bytes: Seq<u8>) -> Result<
    (Seq<char>, Seq<char>, Seq<char>),
    ParseError,
> {
    if vstd::utf8::valid_utf8(bytes) {
        spec_parse_alert(vstd::utf8::decode_utf8(bytes))
    } else {
        Err(ParseError::Malformed)
    }
}

/// Decoding is a pure function of the body: identical request bodies always
/// decode to identical results.
pub proof fn lemma_decode_deterministic(b1: Seq<u8>, b2: Seq<u8>)
    requires
        b1 == b2,
    ensures
        spec_decode_alert(b1) == spec_decode_alert(b2),
{
}

/// Relies on std's String::from_utf8: `Ok` exactly on valid UTF-8, decoding
/// the bytes to their characters.
#[verifier::external_body]
fn utf8_to_string(bytes: &Vec<u8>) -> (r: Option<String>)
    ensures
        r matches Some(t) ==> vstd::utf8::valid_utf8(bytes@) && t@ == vstd::utf8::decode_utf8(
            bytes@,
        ),
        r is None ==> !vstd::utf8::valid_utf8(bytes@),
{
    match String::from_utf8(bytes.clone()) {
        Ok(t) => Some(t),
        Err(_) => None,
    }
}

/// Whether the characters of `key` are exactly those of `w`.
fn key_is(key: &Vec<char>, w: &str) -> (b: bool)
    ensures
        b == (key@ == w@),
{
    let m = w.unicode_len();
    if key.len() != m {
        return false;
    }
    let mut k: usize = 0;
    while k < m
        invariant
            m == w@.len(),
            key@.len() == m,
            k <= m,
            forall|t: int| 0 <= t < k ==> key@[t] == w@[t],
        decreases m - k,
    {
        if key[k] != w.get_char(k) {
            return false;
        }
        k = k + 1;
    }
    proof {
        assert(key@ =~= w@);
    }
    true
}

fn e_member_value(s: &str, i: usize, acc: Slots, key: &Vec<char>) -> (r: Result<
    (Slots, usize),
    ParseError,
>)
    requires
        i <= s@.len(),
    ensures
        match r {
            Ok(p) => spec_member_value(s@, i as int, slots_view(acc), key@) == Ok::<_, ParseError>(
                (slots_view(p.0), p.1 as int),
            ) && i < p.1 <= s@.len(),
            Err(e) => spec_member_value(s@, i as int, slots_view(acc), key@) == Err::<
                (SpecSlots, int),
                _,
            >(e),
        },
{
    let k_from = key_is(key, "from");
    let k_theme = key_is(key, "theme");
    let k_text = key_is(key, "text");
    if k_from || k_theme || k_text {
        match e_parse_string(s, i) {
            Some((v, j)) => {
                let vs = chars_to_string(&v);
                let acc2 = if k_from {
                    (Some(vs), acc.1, acc.2)
                } else if k_theme {
                    (acc.0, Some(vs), acc.2)
                } else {
                    (acc.0, acc.1, Some(vs))
                };
                Ok((acc2, j))
            },
            None => {
                let n = s.unicode_len();
                if i < n && s.get_char(i) == '"' {
                    Err(ParseError::Malformed)
                } else {
                    match e_value(s, i) {
                        Some(_) => Err(ParseError::WrongFieldType),
                        None => Err(ParseError::Malformed),
                    }
                }
            },
        }
    } else {
        match e_value(s, i) {
            None => Err(ParseError::Malformed),
            Some(j) => Ok((acc, j)),
        }
    }
}

fn e_top_members(s: &str, i: usize, acc: Slots) -> (r: Result<(Slots, usize), ParseError>)
    requires
        i <= s@.len(),
    ensures
        match r {
            Ok(p) => spec_parse_top_members(s@, i as int, slots_view(acc)) == Ok::<_, ParseError>(
                (slots_view(p.0), p.1 as int),
            ) && i < p.1 <= s@.len(),
            Err(e) => spec_parse_top_members(s@, i as int, slots_view(acc)) == Err::<
                (SpecSlots, int),
                _,
            >(e),
        },
    decreases s@.len() - i,
{
    let n = s.unicode_len();
    match e_parse_string(s, i) {
        None => Err(ParseError::Malformed),
        Some((key, j1)) => {
            let j2 = e_skip_ws(s, j1);
            if !(j2 < n && s.get_char(j2) == ':') {
                Err(ParseError::Malformed)
            } else {
                let j3 = e_skip_ws(s, j2 + 1);
                let k_from = key_is(&key, "from");
                let k_theme = key_is(&key, "theme");
                let k_text = key_is(&key, "text");
                let dup = if k_from {
                    acc.0.is_some()
                } else if k_theme {
                    acc.1.is_some()
                } else if k_text {
                    acc.2.is_some()
                } else {
                    false
                };
                if dup {
                    Err(ParseError::DuplicateField)
                } else if j3 >= n {
                    Err(ParseError::Malformed)
                } else {
                    match e_member_value(s, j3, acc, &key) {
                        Err(e) => Err(e),
                        Ok((acc2, j4)) => {
                            let j5 = e_skip_ws(s, j4);
                            if j5 < n && s.get_char(j5) == ',' {
                                let j6 = e_skip_ws(s, j5 + 1);
                                e_top_members(s, j6, acc2)
                            } else if j5 < n && s.get_char(j5) == '}' {
                                Ok((acc2, j5 + 1))
                            } else {
                                Err(ParseError::Malformed)
                            }
                        },
                    }
                }
            }
        },
    }
}

/// Decode an alert request body given as characters.
pub fn parse_alert(s: &str) -> (r: Result<AlertRequest, ParseError>)
    ensures
        match r {
            Ok(a) => spec_parse_alert(s@) == Ok::<_, ParseError>((a.from@, a.theme@, a.text@)),
            Err(e) => spec_parse_alert(s@) == Err::<(Seq<char>, Seq<char>, Seq<char>), _>(e),
        },
{
    let n = s.unicode_len();
    let i = e_skip_ws(s, 0);
    if i >= n {
        Err(ParseError::Malformed)
    } else if s.get_char(i) != '{' {
        match e_value(s, i) {
            Some(_) => Err(ParseError::NotAnObject),
            None => Err(ParseError::Malformed),
        }
    } else {
        let j = e_skip_ws(s, i + 1);
        let r: Result<(Slots, usize), ParseError> = if j < n && s.get_char(j) == '}' {
            Ok(((None, None, None), j + 1))
        } else {
            e_top_members(s, j, (None, None, None))
        };
        match r {
            Err(e) => Err(e),
            Ok((slots, end)) => {
                match slots {
                    (Some(f), Some(t), Some(x)) => {
                        if e_skip_ws(s, end) < n {
                            Err(ParseError::Malformed)
                        } else {
                            Ok(AlertRequest { from: f, theme: t, text: x })
                        }
                    },
                    _ => Err(ParseError::MissingField),
                }
            },
        }
    }
}

/// Decode an alert request body given as bytes, as read from the wire.
pub fn parse_alert_bytes(body: &Vec<u8>) -> (r: Result<AlertRequest, ParseError>)
    ensures
        match r {
            Ok(a) => spec_decode_alert(body@) == Ok::<_, ParseError>((a.from@, a.theme@, a.text@)),
            Err(e) => spec_decode_alert(body@) == Err::<(Seq<char>, Seq<char>, Seq<char>), _>(e),
        },
{
    match utf8_to_string(body) {
        None => Err(ParseError::Malformed),
        Some(t) => parse_alert(t.as_str()),
    }
}

} // verus!
