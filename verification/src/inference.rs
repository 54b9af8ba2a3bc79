//! Messages exchanged with the inference engine and the reading of its
//! server-sent event stream.

use vstd::prelude::*;

use crate::json::{as_str_spec, at_spec, decode_json, get_spec, json_decode, JsonValue};
use crate::text::{chars_of, owned, slice_vec, trim_seq, trim_vec};

verus! {

/// Failure classes of a call to the inference engine.
#[derive(Debug, Clone)]
pub enum InferError {
    Connection(String),
    Generation(String),
}

/// What an engine failure displays as.
pub open spec fn infer_error_text(e: InferError) -> Seq<char> {
    match e {
        InferError::Connection(m) => "推論エンジンに接続できません: "@ + m@,
        InferError::Generation(m) => "応答の生成に失敗しました: "@ + m@,
    }
}

impl InferError {
    pub fn text(&self) -> (r: String)
        ensures
            r@ == infer_error_text(*self),
    {
        match self {
            InferError::Connection(m) => {
                let mut s = String::from_str("推論エンジンに接続できません: ");
                s.append(m.as_str());
                s
            },
            InferError::Generation(m) => {
                let mut s = String::from_str("応答の生成に失敗しました: ");
                s.append(m.as_str());
                s
            },
        }
    }
}

/// One chat message: role "system" | "user" | "assistant".
#[derive(Debug, Clone)]
pub struct ChatMessage {
    pub role: String,
    pub content: String,
}

impl ChatMessage {
    pub fn new(role: &str, content: String) -> (r: ChatMessage)
        ensures
            r.role@ == role@,
            r.content@ == content@,
    {
        ChatMessage { role: owned(role), content }
    }
}

/// Result of a streamed generation: the text so far and whether it was canceled.
#[derive(Debug, Clone)]
pub struct StreamOutcome {
    pub text: String,
    pub canceled: bool,
}

/// Meaning of one line of the event stream.
#[derive(Debug, Clone, PartialEq, Eq)]
pub enum SseEvent {
    Delta(String),
    Done,
    Ignore,
}

/// One line of the event stream before JSON decoding: not a data line, the end
/// marker, or a data payload to decode.
#[derive(Debug, Clone)]
pub enum SsePayload {
    NotData,
    Done,
    Json(String),
}

/// `line` is framed as `p`: trimmed, a data line starts with `data:`; the rest,
/// trimmed, is the end marker `[DONE]` or a JSON payload.
pub open spec fn sse_payload_is(line: Seq<char>, p: SsePayload) -> bool {
    let l = trim_seq(line);
    if l.len() < 5 || l.take(5) != "data:"@ {
        p is NotData
    } else {
        let payload = trim_seq(l.skip(5));
        if payload == "[DONE]"@ {
            p is Done
        } else {
            p matches SsePayload::Json(j) && j@ == payload
        }
    }
}

fn starts_with_at(v: &Vec<char>, lo: usize, prefix: &Vec<char>) -> (r: bool)
    requires
        lo <= v.len(),
    ensures
        r == (lo + prefix.len() <= v.len() && v@.subrange(lo as int, lo + prefix.len())
            == prefix@),
{
    if prefix.len() > v.len() - lo {
        return false;
    }
    let mut k: usize = 0;
    while k < prefix.len()
        invariant
            lo + prefix.len() <= v.len(),
            k <= prefix.len(),
            forall|m: int| 0 <= m < k ==> v@[lo + m] == prefix@[m],
        decreases prefix.len() - k,
    {
        if v[lo + k] != prefix[k] {
            assert(v@.subrange(lo as int, lo + prefix.len())[k as int] != prefix@[k as int]);
            return false;
        }
        k = k + 1;
    }
    assert(v@.subrange(lo as int, lo + prefix.len()) =~= prefix@);
    true
}

fn vec_eq(a: &Vec<char>, b: &Vec<char>) -> (r: bool)
    ensures
        r == (a@ == b@),
{
    if a.len() != b.len() {
        return false;
    }
    let r = starts_with_at(a, 0, b);
    assert(a@.subrange(0, b.len() as int) == a@);
    r
}

/// Frames one line of the event stream.
pub fn sse_payload(line: &str) -> (r: SsePayload)
    ensures
        sse_payload_is(line@, r),
{
    proof {
        reveal_strlit("data:");
    }
    let l = trim_vec(&chars_of(line));
    let prefix = chars_of("data:");
    if !starts_with_at(&l, 0, &prefix) {
        assert(l@.len() < 5 || l@.take(5) != "data:"@);
        return SsePayload::NotData;
    }
    assert(l@.take(5) == "data:"@);
    let rest = slice_vec(&l, 5, l.len());
    assert(rest@ == l@.skip(5));
    let payload = trim_vec(&rest);
    let done = chars_of("[DONE]");
    if vec_eq(&payload, &done) {
        SsePayload::Done
    } else {
        SsePayload::Json(crate::text::string_of(&payload))
    }
}

/// The delta text carried by a decoded payload: `choices[0].delta.content`
/// when it is a non-empty string.
pub open spec fn delta_text(v: JsonValue) -> Option<Seq<char>> {
    match as_str_spec(get_spec(get_spec(at_spec(get_spec(v, "choices"@), 0), "delta"@), "content"@)) {
        Some(s) => if s.len() > 0 {
            Some(s)
        } else {
            None
        },
        None => None,
    }
}

/// Meaning of a data payload: its delta text, or nothing when it does not
/// decode (`None`) or carries no text.
pub fn sse_event_of(decoded: Option<&JsonValue>) -> (r: SseEvent)
    ensures
        match decoded {
            Some(v) => match delta_text(*v) {
                Some(t) => r matches SseEvent::Delta(d) && d@ == t,
                None => r is Ignore,
            },
            None => r is Ignore,
        },
{
    match decoded {
        Some(v) => {
            let c = v.get("choices").at(0).get("delta").get("content");
            match c.as_str() {
                Some(s) => if s.unicode_len() > 0 {
                    SseEvent::Delta(owned(s))
                } else {
                    SseEvent::Ignore
                },
                None => SseEvent::Ignore,
            }
        },
        None => SseEvent::Ignore,
    }
}

/// `r` is the meaning of the stream line `line`: trimmed, a line that does not
/// start with `data:` is skipped; otherwise its payload (the rest, trimmed) is
/// the end marker `[DONE]`, or JSON text whose delta text, when it decodes and
/// carries a non-empty one, is the event; anything else is skipped.
pub open spec fn sse_line_means(line: Seq<char>, r: SseEvent) -> bool {
    let l = trim_seq(line);
    if l.len() < 5 || l.take(5) != "data:"@ {
        r is Ignore
    } else {
        let payload = trim_seq(l.skip(5));
        if payload == "[DONE]"@ {
            r is Done
        } else {
            match json_decode(payload) {
                Some(v) => match delta_text(v) {
                    Some(t) => r matches SseEvent::Delta(d) && d@ == t,
                    None => r is Ignore,
                },
                None => r is Ignore,
            }
        }
    }
}

/// Reads one line of the server-sent event stream.
pub fn parse_sse_line(line: &str) -> (r: SseEvent)
    ensures
        sse_line_means(line@, r),
{
    match sse_payload(line) {
        SsePayload::NotData => SseEvent::Ignore,
        SsePayload::Done => SseEvent::Done,
        SsePayload::Json(p) => {
            let decoded = decode_json(p.as_str());
            match &decoded {
                Some(v) => sse_event_of(Some(v)),
                None => sse_event_of(None),
            }
        },
    }
}

/// Splits the first complete line (up to and including its line feed) off a
/// stream buffer: `Some((line, rest))`, or `None` while no line feed has arrived.
pub fn split_first_line(buf: &str) -> (r: Option<(String, String)>)
    ensures
        match r {
            Some((line, rest)) => {
                &&& buf@ == line@ + rest@
                &&& line@.len() > 0
                &&& line@.last() == '\n'
                &&& forall|k: int| 0 <= k < line@.len() - 1 ==> line@[k] != '\n'
            },
            None => forall|k: int| 0 <= k < buf@.len() ==> buf@[k] != '\n',
        },
{
    let v = chars_of(buf);
    let mut i: usize = 0;
    while i < v.len()
        invariant
            v@ == buf@,
            i <= v.len(),
            forall|k: int| 0 <= k < i ==> v@[k] != '\n',
        decreases v.len() - i,
    {
        if v[i] == '\n' {
            let line = slice_vec(&v, 0, i + 1);
            let rest = slice_vec(&v, i + 1, v.len());
            assert(v@ == line@ + rest@);
            return Some((crate::text::string_of(&line), crate::text::string_of(&rest)));
        }
        i = i + 1;
    }
    None
}

/// The text gathered from a streamed generation so far.
#[derive(Debug, Clone)]
pub struct StreamText {
    pub text: String,
}

impl StreamText {
    /// Nothing received yet.
    pub fn new() -> (r: StreamText)
        ensures
            r.text@.len() == 0,
    {
        StreamText { text: String::new() }
    }

    /// Takes in one event of the stream: a delta is appended; the end marker
    /// finishes the stream (the result is `true`); anything else is skipped.
    pub fn take_event(&mut self, ev: &SseEvent) -> (done: bool)
        ensures
            done == (ev is Done),
            match ev {
                SseEvent::Delta(d) => final(self).text@ == old(self).text@ + d@,
                _ => final(self).text@ == old(self).text@,
            },
    {
        match ev {
            SseEvent::Delta(d) => {
                self.text.append(d.as_str());
                false
            },
            SseEvent::Done => true,
            SseEvent::Ignore => false,
        }
    }

    /// The outcome once the stream ended or was canceled.
    pub fn finish(self, canceled: bool) -> (r: StreamOutcome)
        ensures
            r.text@ == self.text@,
            r.canceled == canceled,
    {
        StreamOutcome { text: self.text, canceled }
    }
}

} // verus!
