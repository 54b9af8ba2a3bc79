//! JSON values as the library reads them.
//!
//! JSON text is decoded by serde_json and converted into a `JsonValue`. Only
//! what the library reads is kept: numbers that fit `i64` are kept exactly,
//! other numbers only as being numbers. Object members keep the order serde_json
//! gives them; a decoded object has no duplicate keys.

use vstd::prelude::*;

use crate::text::{chars_of, str_eq, trim_bounds, trim_hi, trim_lo};

verus! {

#[derive(Debug)]
pub enum JsonValue {
    Null,
    Bool(bool),
    /// A number that fits `i64`.
    Int(i64),
    /// Any other number (fractional or out of the `i64` range).
    OtherNumber,
    Str(String),
    Array(Vec<JsonValue>),
    Object(Vec<(String, JsonValue)>),
}

/// Index of the first member named `key` at or after `i`, or the member count.
pub open spec fn member_index_from(members: Seq<(String, JsonValue)>, key: Seq<char>, i: int) -> int
    decreases members.len() - i,
{
    if i >= members.len() {
        members.len() as int
    } else if members[i].0@ == key {
        i
    } else {
        member_index_from(members, key, i + 1)
    }
}

/// `v[key]`: the member's value for an object holding `key`, `Null` otherwise.
pub open spec fn get_spec(v: JsonValue, key: Seq<char>) -> JsonValue {
    match v {
        JsonValue::Object(m) => {
            let k = member_index_from(m@, key, 0);
            if k < m@.len() {
                m@[k].1
            } else {
                JsonValue::Null
            }
        },
        _ => JsonValue::Null,
    }
}

/// `v[i]`: the element of an array, `Null` when out of range or not an array.
pub open spec fn at_spec(v: JsonValue, i: int) -> JsonValue {
    match v {
        JsonValue::Array(a) => if 0 <= i < a@.len() {
            a@[i]
        } else {
            JsonValue::Null
        },
        _ => JsonValue::Null,
    }
}

/// `v.as_str()`.
pub open spec fn as_str_spec(v: JsonValue) -> Option<Seq<char>> {
    match v {
        JsonValue::Str(s) => Some(s@),
        _ => None,
    }
}

/// `v.as_i64()`.
pub open spec fn as_i64_spec(v: JsonValue) -> Option<i64> {
    match v {
        JsonValue::Int(n) => Some(n),
        _ => None,
    }
}

pub proof fn lemma_member_index(members: Seq<(String, JsonValue)>, key: Seq<char>, i: int)
    requires
        0 <= i <= members.len(),
    ensures
        i <= member_index_from(members, key, i) <= members.len(),
        member_index_from(members, key, i) < members.len() ==> members[member_index_from(
            members,
            key,
            i,
        )].0@ == key,
    decreases members.len() - i,
{
    if i < members.len() && members[i].0@ != key {
        lemma_member_index(members, key, i + 1);
    }
}

impl JsonValue {
    /// `self[key]`.
    pub fn get(&self, key: &str) -> (r: &JsonValue)
        ensures
            *r == get_spec(*self, key@),
    {
        match self {
            JsonValue::Object(m) => {
                proof {
                    lemma_member_index(m@, key@, 0);
                }
                let mut i: usize = 0;
                while i < m.len()
                    invariant
                        i <= m.len(),
                        *self == JsonValue::Object(*m),
                        member_index_from(m@, key@, i as int) == member_index_from(m@, key@, 0),
                    decreases m.len() - i,
                {
                    if str_eq(m[i].0.as_str(), key) {
                        assert(member_index_from(m@, key@, i as int) == i as int);
                        assert(get_spec(*self, key@) == m@[i as int].1);
                        return &m[i].1;
                    }
                    i = i + 1;
                }
                &NULL_VALUE
            },
            _ => &NULL_VALUE,
        }
    }

    /// `self[i]`.
    pub fn at(&self, i: usize) -> (r: &JsonValue)
        ensures
            *r == at_spec(*self, i as int),
    {
        match self {
            JsonValue::Array(a) => if i < a.len() {
                &a[i]
            } else {
                &NULL_VALUE
            },
            _ => &NULL_VALUE,
        }
    }

    /// The text of a string value.
    pub fn as_str(&self) -> (r: Option<&str>)
        ensures
            match r {
                Some(s) => as_str_spec(*self) == Some(s@),
                None => as_str_spec(*self) is None,
            },
    {
        match self {
            JsonValue::Str(s) => Some(s.as_str()),
            _ => None,
        }
    }

    /// The value of a number that fits `i64`.
    pub fn as_i64(&self) -> (r: Option<i64>)
        ensures
            r == as_i64_spec(*self),
    {
        match self {
            JsonValue::Int(n) => Some(*n),
            _ => None,
        }
    }
}

/// The shared `Null` returned for missing members and elements.
pub const NULL_VALUE: JsonValue = JsonValue::Null;

// ---------- decoding JSON text ----------

#[verifier::external_type_specification]
#[verifier::external_body]
pub struct ExSerdeJsonValue(serde_json::Value);

/// The value that serde_json's `from_str::<Value>` decodes from the text `t`,
/// in the library's form, or `None` where serde_json rejects the text. It is a
/// function of the text alone.
pub uninterp spec fn json_decode(t: Seq<char>) -> Option<JsonValue>;

/// Converts a value decoded by serde_json into the library's form, variant by
/// variant (a number by serde_json's `as_i64`). Nothing is stated of it: its
/// only caller is `decode_json`, whose result is named.
#[verifier::external_body]
fn value_to_json(v: serde_json::Value) -> JsonValue {
    match v {
        serde_json::Value::Null => JsonValue::Null,
        serde_json::Value::Bool(b) => JsonValue::Bool(b),
        serde_json::Value::Number(n) => match n.as_i64() {
            Some(i) => JsonValue::Int(i),
            None => JsonValue::OtherNumber,
        },
        serde_json::Value::String(s) => JsonValue::Str(s),
        serde_json::Value::Array(a) => JsonValue::Array(a.into_iter().map(value_to_json).collect()),
        serde_json::Value::Object(m) => JsonValue::Object(
            m.into_iter().map(|(k, x)| (k, value_to_json(x))).collect(),
        ),
    }
}

/// serde_json's `from_str::<Value>` on `text`: the decoded value, or `None`
/// where the text is not JSON. Trusted to give `json_decode(text)`; which texts
/// decode, and to what, is serde_json's grammar and is not stated here.
#[verifier::external_body]
pub(crate) fn decode_json(text: &str) -> (r: Option<JsonValue>)
    ensures
        r == json_decode(text@),
{
    serde_json::from_str::<serde_json::Value>(text).ok().map(value_to_json)
}

// ---------- locating a JSON text inside free text ----------

/// Scanner state while matching brackets: (nesting depth, inside a string
/// literal, previous character was a backslash inside a string).
pub open spec fn scan_init() -> (int, bool, bool) {
    (0, false, false)
}

/// State after reading `c`.
pub open spec fn scan_step(st: (int, bool, bool), c: char) -> (int, bool, bool) {
    let (depth, in_string, escaped) = st;
    if in_string {
        if escaped {
            (depth, true, false)
        } else if c == '\\' {
            (depth, true, true)
        } else if c == '"' {
            (depth, false, false)
        } else {
            st
        }
    } else if c == '"' {
        (depth, true, escaped)
    } else if c == '{' || c == '[' {
        (depth + 1, in_string, escaped)
    } else if c == '}' || c == ']' {
        (depth - 1, in_string, escaped)
    } else {
        st
    }
}

/// State after reading `s[start..k]`.
pub open spec fn scan_state(s: Seq<char>, start: int, k: int) -> (int, bool, bool)
    decreases k - start,
{
    if k <= start {
        scan_init()
    } else {
        scan_step(scan_state(s, start, k - 1), s[k - 1])
    }
}

/// Reading `s[k]` outside a string closes a bracket and brings the depth to zero.
pub open spec fn closes_at(s: Seq<char>, start: int, k: int) -> bool {
    let st = scan_state(s, start, k);
    !st.1 && (s[k] == '}' || s[k] == ']') && st.0 - 1 == 0
}

/// Index of the first opening bracket `{` or `[` at or after `i` (or `s.len()`).
pub open spec fn first_open_from(s: Seq<char>, i: int) -> int
    decreases s.len() - i,
{
    if i >= s.len() {
        s.len() as int
    } else if s[i] == '{' || s[i] == '[' {
        i
    } else {
        first_open_from(s, i + 1)
    }
}

/// The first index at or after `k` where the scan from `start` closes, if any.
pub open spec fn first_close_from(s: Seq<char>, start: int, k: int) -> Option<int>
    decreases s.len() - k,
{
    if k >= s.len() {
        None
    } else if closes_at(s, start, k) {
        Some(k)
    } else {
        first_close_from(s, start, k + 1)
    }
}

/// The candidate JSON text of `t`: within the trimmed text, from the first
/// opening bracket to the character that brings the bracket depth back to zero
/// (brackets inside string literals do not count). `None` when there is no
/// opening bracket or it is never closed.
pub open spec fn json_candidate_spec(t: Seq<char>) -> Option<Seq<char>> {
    let s = t.subrange(trim_lo(t), trim_hi(t));
    let start = first_open_from(s, 0);
    if start >= s.len() {
        None
    } else {
        match first_close_from(s, start, start) {
            Some(end) => Some(s.subrange(start, end + 1)),
            None => None,
        }
    }
}

pub proof fn lemma_first_open(s: Seq<char>, i: int)
    requires
        0 <= i <= s.len(),
    ensures
        i <= first_open_from(s, i) <= s.len(),
    decreases s.len() - i,
{
    if i < s.len() && !(s[i] == '{' || s[i] == '[') {
        lemma_first_open(s, i + 1);
    }
}

pub proof fn lemma_first_close(s: Seq<char>, start: int, k: int)
    requires
        0 <= k <= s.len(),
    ensures
        first_close_from(s, start, k) matches Some(e) ==> k <= e < s.len(),
    decreases s.len() - k,
{
    if k < s.len() && !closes_at(s, start, k) {
        lemma_first_close(s, start, k + 1);
    }
}

/// Locates the JSON text inside free text such as "```json ... ```" or
/// "the result is {...}". The caller decodes it.
pub fn json_candidate(text: &str) -> (r: Option<String>)
    ensures
        match r {
            Some(c) => json_candidate_spec(text@) == Some(c@),
            None => json_candidate_spec(text@) is None,
        },
{
    let all = chars_of(text);
    let (lo, hi) = trim_bounds(&all);
    let s = crate::text::slice_vec(&all, lo, hi);
    let n = s.len();
    proof {
        lemma_first_open(s@, 0);
    }
    let mut start: usize = 0;
    while start < n && !(s[start] == '{' || s[start] == '[')
        invariant
            n == s.len(),
            start <= n,
            first_open_from(s@, start as int) == first_open_from(s@, 0),
        decreases n - start,
    {
        start = start + 1;
    }
    if start >= n {
        return None;
    }
    proof {
        lemma_first_close(s@, start as int, start as int);
    }
    assert(first_open_from(s@, start as int) == start as int);
    assert(s@ == text@.subrange(trim_lo(text@), trim_hi(text@)));
    let mut depth: i128 = 0;
    let mut in_string = false;
    let mut escaped = false;
    let mut k: usize = start;
    while k < n
        invariant
            n == s.len(),
            start <= k <= n,
            start < n,
            first_open_from(s@, 0) == start as int,
            s@ == text@.subrange(trim_lo(text@), trim_hi(text@)),
            depth == scan_state(s@, start as int, k as int).0,
            in_string == scan_state(s@, start as int, k as int).1,
            escaped == scan_state(s@, start as int, k as int).2,
            -(k as int) <= depth <= k as int,
            first_close_from(s@, start as int, k as int) == first_close_from(
                s@,
                start as int,
                start as int,
            ),
        decreases n - k,
    {
        let c = s[k];
        if in_string {
            if escaped {
                escaped = false;
            } else if c == '\\' {
                escaped = true;
            } else if c == '"' {
                in_string = false;
            }
        } else {
            if c == '"' {
                in_string = true;
            } else if c == '{' || c == '[' {
                depth = depth + 1;
            } else if c == '}' || c == ']' {
                depth = depth - 1;
                if depth == 0 {
                    assert(closes_at(s@, start as int, k as int));
                    assert(first_close_from(s@, start as int, k as int) == Some(k as int));
                    let mut out = String::new();
                    crate::text::push_chars(&mut out, &s, start, k + 1);
                    return Some(out);
                }
            }
        }
        k = k + 1;
    }
    None
}

} // verus!
