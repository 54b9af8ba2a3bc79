//! Post-processing of a finished session: reading what the model extracted
//! or assessed, the prompts that ask for it, the transcript they are built
//! on, and the decisions of the post-processing run.

use vstd::prelude::*;

use crate::inference::ChatMessage;
use crate::conversation::{target_views, PartnerTarget};
use crate::models::{Persona, Session, TraitValue, Utterance};
use crate::json::{
    as_i64_spec, as_str_spec, at_spec, decode_json, get_spec, json_candidate, json_candidate_spec,
    json_decode, JsonValue,
};
use crate::personality::{take_chars, take_seq, trait_key, trait_key_spec, PartnerAssessment};
use crate::text::{
    chars_of, clamp_i64, clamp_spec, int_text, join_seqs, lemma_join_take, owned, push_int, str_eq,
    string_of, trim_seq, trim_vec,
};

verus! {

/// At most this many memories are kept from one session.
pub const MAX_MEMORIES_PER_SESSION: usize = 10;

/// A memory is cut to this many characters.
pub const MAX_MEMORY_CONTENT_CHARS: usize = 300;

/// The transcript keeps the newest lines within this many characters.
pub const TRANSCRIPT_BUDGET_CHARS: usize = 6000;

/// The JSON value in a model's answer: the trimmed answer decoded, or else the
/// candidate JSON text found inside it (in a code fence or between prose)
/// decoded.
pub open spec fn extract_json_spec(t: Seq<char>) -> Option<JsonValue> {
    match json_decode(trim_seq(t)) {
        Some(v) => Some(v),
        None => match json_candidate_spec(t) {
            Some(c) => json_decode(c),
            None => None,
        },
    }
}

/// Finds and decodes the JSON value in a model's answer, even inside a code
/// fence or surrounded by prose.
pub fn extract_json(text: &str) -> (r: Option<JsonValue>)
    ensures
        r == extract_json_spec(text@),
{
    let trimmed = string_of(&trim_vec(&chars_of(text)));
    match decode_json(trimmed.as_str()) {
        Some(v) => Some(v),
        None => match json_candidate(text) {
            Some(c) => decode_json(c.as_str()),
            None => None,
        },
    }
}

/// One memory read from the extraction answer.
#[derive(Debug, Clone)]
pub struct ExtractedMemory {
    pub content: String,
    pub kind: String,
    pub importance: i64,
}

/// The mood part of an assessment.
#[derive(Debug, Clone)]
pub struct MoodRating {
    pub delta: i64,
    pub label: String,
}

// ---------- memory kinds and importance ----------

/// A memory kind: one of the four known kinds, "fact" otherwise.
pub open spec fn kind_or_fact(k: Option<Seq<char>>) -> Seq<char> {
    match k {
        Some(s) => if s == "fact"@ || s == "event"@ || s == "promise"@ || s == "impression"@ {
            s
        } else {
            "fact"@
        },
        None => "fact"@,
    }
}

/// An importance: the given value (5 when missing) kept between 1 and 10.
pub open spec fn importance_or_default(v: Option<i64>) -> int {
    match v {
        Some(n) => clamp_spec(n as int, 1, 10),
        None => 5,
    }
}

/// Normalises a memory kind.
pub fn normalize_kind(k: Option<&str>) -> (r: String)
    ensures
        r@ == kind_or_fact(
            match k {
                Some(s) => Some(s@),
                None => None,
            },
        ),
{
    match k {
        Some(s) => {
            if str_eq(s, "fact") || str_eq(s, "event") || str_eq(s, "promise") || str_eq(
                s,
                "impression",
            ) {
                String::from_str(s)
            } else {
                String::from_str("fact")
            }
        },
        None => String::from_str("fact"),
    }
}

fn importance_of(v: Option<i64>) -> (r: i64)
    ensures
        r == importance_or_default(v),
{
    match v {
        Some(n) => clamp_i64(n, 1, 10),
        None => 5,
    }
}

// ---------- the extraction answer ----------

/// The memory an extracted item gives: its trimmed content cut to 300
/// characters (the item is skipped when that is empty or not a string), its
/// kind and its importance.
pub open spec fn item_memory(item: JsonValue) -> Option<(Seq<char>, Seq<char>, int)> {
    match as_str_spec(get_spec(item, "content"@)) {
        None => None,
        Some(c) => {
            let content = take_seq(trim_seq(c), MAX_MEMORY_CONTENT_CHARS as int);
            if content.len() == 0 {
                None
            } else {
                Some(
                    (
                        content,
                        kind_or_fact(as_str_spec(get_spec(item, "kind"@))),
                        importance_or_default(as_i64_spec(get_spec(item, "importance"@))),
                    ),
                )
            }
        },
    }
}

/// The memories of a list of items, in order.
pub open spec fn memories_of_items(items: Seq<JsonValue>) -> Seq<(Seq<char>, Seq<char>, int)>
    decreases items.len(),
{
    if items.len() == 0 {
        Seq::empty()
    } else {
        let r = memories_of_items(items.drop_last());
        match item_memory(items.last()) {
            Some(m) => r.push(m),
            None => r,
        }
    }
}

/// The memories of an extraction answer: those of its first ten items when
/// it is an array, none otherwise.
pub open spec fn extracted_spec(v: JsonValue) -> Seq<(Seq<char>, Seq<char>, int)> {
    match v {
        JsonValue::Array(a) => memories_of_items(
            a@.take(
                if a@.len() < MAX_MEMORIES_PER_SESSION {
                    a@.len() as int
                } else {
                    MAX_MEMORIES_PER_SESSION as int
                },
            ),
        ),
        _ => Seq::empty(),
    }
}

/// The views of extracted memories.
pub open spec fn memory_views(v: Seq<ExtractedMemory>) -> Seq<(Seq<char>, Seq<char>, int)> {
    Seq::new(v.len(), |i: int| (v[i].content@, v[i].kind@, v[i].importance as int))
}

fn memory_of_item(item: &JsonValue) -> (r: Option<ExtractedMemory>)
    ensures
        match item_memory(*item) {
            Some(m) => r matches Some(x) && (x.content@, x.kind@, x.importance as int) == m,
            None => r is None,
        },
{
    let content = match item.get("content").as_str() {
        Some(c) => c,
        None => {
            return None;
        },
    };
    let trimmed = string_of(&trim_vec(&chars_of(content)));
    let cut = take_chars(trimmed.as_str(), MAX_MEMORY_CONTENT_CHARS);
    if cut.unicode_len() == 0 {
        return None;
    }
    let kind = normalize_kind(item.get("kind").as_str());
    let importance = importance_of(item.get("importance").as_i64());
    Some(ExtractedMemory { content: cut, kind, importance })
}

/// Reads the extraction answer: for each of the first ten items of an array,
/// a memory with its trimmed content cut to 300 characters, its kind ("fact"
/// unless one of fact, event, promise, impression) and its importance (5
/// when missing, kept between 1 and 10); items without a non-blank content
/// string are skipped.
pub fn parse_extracted_memories(v: &JsonValue) -> (r: Vec<ExtractedMemory>)
    ensures
        memory_views(r@) == extracted_spec(*v),
{
    let mut out: Vec<ExtractedMemory> = Vec::new();
    match v {
        JsonValue::Array(a) => {
            let n = if a.len() < MAX_MEMORIES_PER_SESSION {
                a.len()
            } else {
                MAX_MEMORIES_PER_SESSION
            };
            let mut i: usize = 0;
            while i < n
                invariant
                    n <= a.len(),
                    i <= n,
                    memory_views(out@) == memories_of_items(a@.take(i as int)),
                decreases n - i,
            {
                assert(a@.take(i + 1).drop_last() == a@.take(i as int));
                assert(a@.take(i + 1).last() == a@[i as int]);
                let ghost before = out@;
                match memory_of_item(&a[i]) {
                    Some(m) => {
                        out.push(m);
                        assert(memory_views(out@) == memory_views(before).push(
                            (out@.last().content@, out@.last().kind@, out@.last().importance as int),
                        ));
                    },
                    None => {},
                }
                i = i + 1;
            }
            out
        },
        _ => {
            assert(memory_views(out@) == Seq::<(Seq<char>, Seq<char>, int)>::empty());
            out
        },
    }
}

// ---------- the assessment answer ----------

/// The trait deltas of an assessment: for each axis in order, the integer
/// under `traits.<axis>` when there is one.
pub open spec fn trait_deltas_spec(traits: JsonValue, k: int) -> Seq<(Seq<char>, i64)>
    decreases k,
{
    if k <= 0 {
        Seq::empty()
    } else {
        let r = trait_deltas_spec(traits, k - 1);
        match as_i64_spec(get_spec(traits, trait_key_spec(k - 1))) {
            Some(d) => r.push((trait_key_spec(k - 1), d)),
            None => r,
        }
    }
}

/// The first of two optional values that is present.
pub open spec fn or_else<T>(a: Option<T>, b: Option<T>) -> Option<T> {
    match a {
        Some(x) => Some(x),
        None => b,
    }
}

/// The intimacy change: `intimacyDelta`, else `intimacy_delta`, else 0.
pub open spec fn intimacy_delta_spec(v: JsonValue) -> i64 {
    match or_else(as_i64_spec(get_spec(v, "intimacyDelta"@)), as_i64_spec(get_spec(v, "intimacy_delta"@))) {
        Some(d) => d,
        None => 0,
    }
}

/// The impression: the trimmed `impression` string when it is not blank.
pub open spec fn impression_spec(v: JsonValue) -> Option<Seq<char>> {
    match as_str_spec(get_spec(v, "impression"@)) {
        Some(s) => if trim_seq(s).len() > 0 {
            Some(trim_seq(s))
        } else {
            None
        },
        None => None,
    }
}

/// The mood change: `mood.delta`, else `moodDelta`, else 0.
pub open spec fn mood_delta_spec(v: JsonValue) -> i64 {
    match or_else(as_i64_spec(get_spec(get_spec(v, "mood"@), "delta"@)), as_i64_spec(get_spec(v, "moodDelta"@))) {
        Some(d) => d,
        None => 0,
    }
}

/// The mood label: `mood.label`, else `moodLabel`, trimmed and cut to 20
/// characters; empty when neither is a string.
pub open spec fn mood_label_spec(v: JsonValue) -> Seq<char> {
    match or_else(as_str_spec(get_spec(get_spec(v, "mood"@), "label"@)), as_str_spec(get_spec(v, "moodLabel"@))) {
        Some(s) => take_seq(trim_seq(s), 20),
        None => Seq::empty(),
    }
}

/// The views of trait deltas.
pub open spec fn delta_views(v: Seq<(String, i64)>) -> Seq<(Seq<char>, i64)> {
    Seq::new(v.len(), |i: int| (v[i].0@, v[i].1))
}

fn trait_deltas_of(traits: &JsonValue) -> (r: Vec<(String, i64)>)
    ensures
        delta_views(r@) == trait_deltas_spec(*traits, 5),
{
    let mut out: Vec<(String, i64)> = Vec::new();
    let mut k: usize = 0;
    while k < 5
        invariant
            k <= 5,
            delta_views(out@) == trait_deltas_spec(*traits, k as int),
        decreases 5 - k,
    {
        let key = trait_key(k);
        let ghost before = out@;
        match traits.get(key).as_i64() {
            Some(d) => {
                out.push((String::from_str(key), d));
                assert(delta_views(out@) == delta_views(before).push((key@, d)));
            },
            None => {},
        }
        k = k + 1;
    }
    out
}

/// Reads the assessment answer: the trait deltas (axes in their fixed
/// order, those given as integers under `traits`), the relationship
/// assessment (intimacy change, non-blank trimmed impression) and the mood
/// rating (change and label).
pub fn parse_assessment(v: &JsonValue) -> (r: (Vec<(String, i64)>, PartnerAssessment, MoodRating))
    ensures
        delta_views(r.0@) == trait_deltas_spec(get_spec(*v, "traits"@), 5),
        r.1.intimacy_delta == intimacy_delta_spec(*v),
        match impression_spec(*v) {
            Some(s) => r.1.impression matches Some(x) && x@ == s,
            None => r.1.impression is None,
        },
        r.2.delta == mood_delta_spec(*v),
        r.2.label@ == mood_label_spec(*v),
{
    let deltas = trait_deltas_of(v.get("traits"));
    let intimacy_delta = match v.get("intimacyDelta").as_i64() {
        Some(d) => d,
        None => match v.get("intimacy_delta").as_i64() {
            Some(d) => d,
            None => 0,
        },
    };
    let impression = match v.get("impression").as_str() {
        Some(s) => {
            let t = trim_vec(&chars_of(s));
            if t.len() > 0 {
                Some(string_of(&t))
            } else {
                None
            }
        },
        None => None,
    };
    let mood = v.get("mood");
    let delta = match mood.get("delta").as_i64() {
        Some(d) => d,
        None => match v.get("moodDelta").as_i64() {
            Some(d) => d,
            None => 0,
        },
    };
    let label_src = match mood.get("label").as_str() {
        Some(s) => Some(s),
        None => v.get("moodLabel").as_str(),
    };
    let label = match label_src {
        Some(s) => {
            let t = string_of(&trim_vec(&chars_of(s)));
            take_chars(t.as_str(), 20)
        },
        None => String::new(),
    };
    (deltas, PartnerAssessment { intimacy_delta, impression }, MoodRating { delta, label })
}

// ---------- the consolidation answer ----------

/// The consolidated memory an answer gives: its trimmed `content` cut to 300
/// characters (none when missing or blank), kind and importance.
pub open spec fn consolidation_spec(v: JsonValue) -> Option<(Seq<char>, Seq<char>, int)> {
    item_memory(v)
}

/// Reads the consolidation answer.
pub fn parse_consolidation(v: &JsonValue) -> (r: Option<(String, String, i64)>)
    ensures
        match consolidation_spec(*v) {
            Some(m) => r matches Some(x) && (x.0@, x.1@, x.2 as int) == m,
            None => r is None,
        },
{
    match memory_of_item(v) {
        Some(m) => Some((m.content, m.kind, m.importance)),
        None => None,
    }
}

// ---------- the transcript ----------

/// The transcript line of an utterance.
pub open spec fn line_of(u: Utterance) -> Seq<char> {
    u.speaker_name@ + ": "@ + u.content@
}

/// The lines of the utterances with some content, in order.
pub open spec fn transcript_lines(us: Seq<Utterance>) -> Seq<Seq<char>>
    decreases us.len(),
{
    if us.len() == 0 {
        Seq::empty()
    } else {
        let r = transcript_lines(us.drop_last());
        if us.last().content@.len() == 0 {
            r
        } else {
            r.push(line_of(us.last()))
        }
    }
}

/// The first line kept when the newest lines before `i` are kept while
/// their characters, added to `used`, stay within `budget`.
pub open spec fn keep_from(lines: Seq<Seq<char>>, budget: int, i: int, used: int) -> int
    decreases i,
{
    if i <= 0 {
        0
    } else if used + lines[i - 1].len() > budget {
        i
    } else {
        keep_from(lines, budget, i - 1, used + lines[i - 1].len())
    }
}

/// The transcript: the lines "name: content" of the utterances with content,
/// the newest kept within `TRANSCRIPT_BUDGET_CHARS` characters, joined by line
/// feeds.
pub open spec fn transcript_spec(us: Seq<Utterance>) -> Seq<char> {
    let lines = transcript_lines(us);
    let k = keep_from(lines, TRANSCRIPT_BUDGET_CHARS as int, lines.len() as int, 0);
    join_seqs(lines.subrange(k, lines.len() as int), "\n"@)
}

proof fn lemma_keep_from_bounds(lines: Seq<Seq<char>>, budget: int, i: int, used: int)
    requires
        0 <= i <= lines.len(),
    ensures
        0 <= keep_from(lines, budget, i, used) <= i,
    decreases i,
{
    if i > 0 && used + lines[i - 1].len() <= budget {
        lemma_keep_from_bounds(lines, budget, i - 1, used + lines[i - 1].len());
    }
}

/// Characters of the lines `a .. b`.
pub open spec fn lines_chars(lines: Seq<Seq<char>>, a: int, b: int) -> int
    decreases b - a,
{
    if b <= a {
        0
    } else {
        lines_chars(lines, a, b - 1) + lines[b - 1].len()
    }
}

proof fn lemma_keep_within(lines: Seq<Seq<char>>, budget: int, i: int, used: int)
    requires
        0 <= i <= lines.len(),
        0 <= used <= budget,
    ensures
        used + lines_chars(lines, keep_from(lines, budget, i, used), i) <= budget,
    decreases i,
{
    if i > 0 && used + lines[i - 1].len() <= budget {
        let u2 = used + lines[i - 1].len();
        lemma_keep_within(lines, budget, i - 1, u2);
        lemma_keep_from_bounds(lines, budget, i - 1, u2);
    }
}

/// The lines a transcript keeps hold at most `TRANSCRIPT_BUDGET_CHARS`
/// characters (line feeds aside), and they are the newest lines.
pub proof fn law_transcript_within_budget(us: Seq<Utterance>)
    ensures
        ({
            let lines = transcript_lines(us);
            let k = keep_from(lines, TRANSCRIPT_BUDGET_CHARS as int, lines.len() as int, 0);
            &&& 0 <= k <= lines.len()
            &&& lines_chars(lines, k, lines.len() as int) <= TRANSCRIPT_BUDGET_CHARS
        }),
{
    let lines = transcript_lines(us);
    lemma_keep_from_bounds(lines, TRANSCRIPT_BUDGET_CHARS as int, lines.len() as int, 0);
    lemma_keep_within(lines, TRANSCRIPT_BUDGET_CHARS as int, lines.len() as int, 0);
}

/// The transcript of a list of utterances (see `transcript_spec`).
pub fn build_transcript(utterances: &[Utterance]) -> (r: String)
    ensures
        r@ == transcript_spec(utterances@),
{
    let mut lines: Vec<String> = Vec::new();
    let mut i: usize = 0;
    while i < utterances.len()
        invariant
            i <= utterances.len(),
            string_views(lines@) == transcript_lines(utterances@.take(i as int)),
        decreases utterances.len() - i,
    {
        assert(utterances@.take(i + 1).drop_last() == utterances@.take(i as int));
        assert(utterances@.take(i + 1).last() == utterances@[i as int]);
        let u = &utterances[i];
        if u.content.unicode_len() > 0 {
            let ghost before = lines@;
            let mut line = String::new();
            line.append(u.speaker_name.as_str());
            line.append(": ");
            line.append(u.content.as_str());
            lines.push(line);
            assert(string_views(lines@) == string_views(before).push(line_of(utterances@[i as int])));
        }
        i = i + 1;
    }
    assert(utterances@.take(utterances.len() as int) == utterances@);
    let ghost ls = string_views(lines@);
    let n = lines.len();
    let mut keep: usize = n;
    let mut used: usize = 0;
    proof {
        lemma_keep_from_bounds(ls, TRANSCRIPT_BUDGET_CHARS as int, n as int, 0);
    }
    while keep > 0
        invariant
            n == lines.len(),
            ls == string_views(lines@),
            keep <= n,
            used <= TRANSCRIPT_BUDGET_CHARS,
            keep_from(ls, TRANSCRIPT_BUDGET_CHARS as int, keep as int, used as int) == keep_from(
                ls,
                TRANSCRIPT_BUDGET_CHARS as int,
                n as int,
                0,
            ),
        ensures
            keep <= n,
            keep_from(ls, TRANSCRIPT_BUDGET_CHARS as int, n as int, 0) == keep as int,
        decreases keep,
    {
        let len = lines[keep - 1].unicode_len();
        assert(ls[keep - 1] == lines@[keep - 1]@);
        if len > TRANSCRIPT_BUDGET_CHARS - used {
            break;
        }
        used = used + len;
        keep = keep - 1;
    }
    let ghost k = keep_from(ls, TRANSCRIPT_BUDGET_CHARS as int, n as int, 0);
    assert(k == keep as int);
    let ghost kept = ls.subrange(keep as int, n as int);
    let mut out = String::new();
    let mut j: usize = keep;
    while j < n
        invariant
            n == lines.len(),
            ls == string_views(lines@),
            keep <= j <= n,
            kept == ls.subrange(keep as int, n as int),
            out@ == join_seqs(kept.take(j - keep), "\n"@),
        decreases n - j,
    {
        proof {
            lemma_join_take(kept, "\n"@, (j - keep) as int);
        }
        if j > keep {
            out.append("\n");
        }
        out.append(lines[j].as_str());
        assert(kept[(j - keep) as int] == lines@[j as int]@);
        j = j + 1;
    }
    assert(kept.take((n - keep) as int) == kept);
    out
}

/// The views of a list of strings.
pub open spec fn string_views(v: Seq<String>) -> Seq<Seq<char>> {
    Seq::new(v.len(), |i: int| v[i]@)
}

// ---------- ordering a day's utterances ----------

/// Where an utterance of time `t` goes in `s`, looking from `i`: before the
/// first utterance later than `t`.
pub open spec fn slot(s: Seq<Utterance>, t: i64, i: int) -> int
    decreases s.len() - i,
{
    if i >= s.len() {
        s.len() as int
    } else if s[i].created_at > t {
        i
    } else {
        slot(s, t, i + 1)
    }
}

/// The utterances ordered by time, those of equal time kept in their order.
pub open spec fn by_time(s: Seq<Utterance>) -> Seq<Utterance>
    decreases s.len(),
{
    if s.len() == 0 {
        s
    } else {
        let r = by_time(s.drop_last());
        r.insert(slot(r, s.last().created_at, 0), s.last())
    }
}

proof fn lemma_slot(s: Seq<Utterance>, t: i64, i: int)
    requires
        0 <= i <= s.len(),
    ensures
        i <= slot(s, t, i) <= s.len(),
        forall|j: int| i <= j < slot(s, t, i) ==> (#[trigger] s[j]).created_at <= t,
        slot(s, t, i) < s.len() ==> s[slot(s, t, i)].created_at > t,
    decreases s.len() - i,
{
    if i < s.len() && s[i].created_at <= t {
        lemma_slot(s, t, i + 1);
    }
}

proof fn lemma_by_time_len(s: Seq<Utterance>)
    ensures
        by_time(s).len() == s.len(),
    decreases s.len(),
{
    if s.len() > 0 {
        lemma_by_time_len(s.drop_last());
        lemma_slot(by_time(s.drop_last()), s.last().created_at, 0);
    }
}

/// Orders utterances by time, keeping those of equal time in their order.
pub fn sort_by_time(utterances: Vec<Utterance>) -> (r: Vec<Utterance>)
    ensures
        r@ == by_time(utterances@),
{
    let ghost orig = utterances@;
    assert(orig.len() == utterances.len());
    let mut src = utterances;
    let mut out: Vec<Utterance> = Vec::new();
    let mut k: usize = 0;
    while src.len() > 0
        invariant
            k <= orig.len(),
            orig.len() <= usize::MAX,
            src@.len() + k == orig.len(),
            src@ == orig.skip(k as int),
            out@ == by_time(orig.take(k as int)),
        decreases src.len(),
    {
        proof {
            lemma_by_time_len(orig.take(k as int));
        }
        let u = src.remove(0);
        assert(u == orig[k as int]);
        assert(orig.take(k + 1).drop_last() == orig.take(k as int));
        assert(orig.take(k + 1).last() == u);
        assert(src@ == orig.skip(k + 1));
        let t = u.created_at;
        let ghost cur = out@;
        proof {
            lemma_slot(cur, t, 0);
        }
        let mut p: usize = 0;
        while p < out.len() && out[p].created_at <= t
            invariant
                out@ == cur,
                p <= out.len(),
                slot(cur, t, p as int) == slot(cur, t, 0),
            decreases out.len() - p,
        {
            p = p + 1;
        }
        out.insert(p, u);
        k = k + 1;
    }
    assert(orig.take(k as int) == orig);
    out
}

/// Ordering by time yields the utterances in non-decreasing time.
pub proof fn law_by_time_sorted(s: Seq<Utterance>)
    ensures
        forall|i: int, j: int|
            0 <= i < j < by_time(s).len() ==> (#[trigger] by_time(s)[i]).created_at <= (
            #[trigger] by_time(s)[j]).created_at,
    decreases s.len(),
{
    if s.len() > 0 {
        law_by_time_sorted(s.drop_last());
        let r = by_time(s.drop_last());
        let t = s.last().created_at;
        lemma_slot(r, t, 0);
        let p = slot(r, t, 0);
        let q = r.insert(p, s.last());
        assert forall|i: int, j: int| 0 <= i < j < q.len() implies (#[trigger] q[i]).created_at
            <= (#[trigger] q[j]).created_at by {
            if j < p {
                assert(q[i] == r[i] && q[j] == r[j]);
            } else if j == p {
                assert(q[i] == r[i]);
            } else if i < p {
                assert(q[i] == r[i] && q[j] == r[j - 1]);
            } else if i == p {
                assert(q[j] == r[j - 1]);
                assert(r[p].created_at > t);
                if j - 1 > p {
                    assert(r[p].created_at <= r[j - 1].created_at);
                }
            } else {
                assert(q[i] == r[i - 1] && q[j] == r[j - 1]);
            }
        }
    }
}

/// Ordering by time keeps exactly the same utterances.
pub proof fn law_by_time_permutation(s: Seq<Utterance>)
    ensures
        by_time(s).to_multiset() == s.to_multiset(),
    decreases s.len(),
{
    broadcast use vstd::seq_lib::group_to_multiset_ensures;

    if s.len() > 0 {
        law_by_time_permutation(s.drop_last());
        let r = by_time(s.drop_last());
        lemma_by_time_len(s.drop_last());
        lemma_slot(r, s.last().created_at, 0);
        assert(s.drop_last().push(s.last()) == s);
    }
}

// ---------- prompts ----------

pub const EXTRACT_HEAD: &'static str = "あなたは会話ログを分析する係である。会話から「";

pub const EXTRACT_MID: &'static str = "」が覚えておくべき事柄を抽出し、JSON配列のみを出力する。\n各要素の形式: {\"content\": \"記憶の内容(1〜2文、";

pub const EXTRACT_TAIL: &'static str = "の視点で書く)\", \"kind\": \"fact|event|promise|impression\", \"importance\": 1から10の整数}\n- fact=相手について知った事実 / event=出来事 / promise=約束 / impression=抱いた感想\n- 重要なものだけ最大10件。なければ [] を出力\n- JSON以外の文章を書かない";

pub const LOG_HEAD: &'static str = "会話ログ:\n";

/// The messages asking the model for the memories `name` should keep.
pub open spec fn extraction_texts(name: Seq<char>, transcript: Seq<char>) -> (Seq<char>, Seq<char>) {
    (EXTRACT_HEAD@ + name + EXTRACT_MID@ + name + EXTRACT_TAIL@, LOG_HEAD@ + transcript)
}

/// A system message and a user message with the given texts.
pub open spec fn is_exchange(r: Seq<ChatMessage>, texts: (Seq<char>, Seq<char>)) -> bool {
    &&& r.len() == 2
    &&& r[0].role@ == "system"@
    &&& r[0].content@ == texts.0
    &&& r[1].role@ == "user"@
    &&& r[1].content@ == texts.1
}

fn exchange(system: String, user: String) -> (r: Vec<ChatMessage>)
    ensures
        is_exchange(r@, (system@, user@)),
{
    let mut v: Vec<ChatMessage> = Vec::new();
    v.push(ChatMessage::new("system", system));
    v.push(ChatMessage::new("user", user));
    v
}

/// The prompt for the memory extraction.
pub fn extraction_prompt(persona_name: &str, transcript: &str) -> (r: Vec<ChatMessage>)
    ensures
        is_exchange(r@, extraction_texts(persona_name@, transcript@)),
{
    let mut system = String::from_str(EXTRACT_HEAD);
    system.append(persona_name);
    system.append(EXTRACT_MID);
    system.append(persona_name);
    system.append(EXTRACT_TAIL);
    let mut user = String::from_str(LOG_HEAD);
    user.append(transcript);
    exchange(system, user)
}

pub const ASSESS_HEAD: &'static str = "あなたは会話ログを分析し、「";

pub const ASSESS_FORMAT: &'static str = "」の心境の変化を評定する係である。JSONのみを出力する。\n形式: {\"traits\": {\"sociability\": 整数, \"empathy\": 整数, \"caution\": 整数, \"assertiveness\": 整数, \"cheerfulness\": 整数}, \"intimacy_delta\": 整数, \"impression\": \"相手(";

pub const ASSESS_RULES: &'static str = ")への現在の印象を50字以内\", \"mood\": {\"delta\": 整数, \"label\": \"今の気分を表す短い語(10字以内)\"}}\n- traits は各性格軸の変化量。-2〜2 の範囲。変化なしは 0\n- intimacy_delta は相手への親密度の変化量。-5〜5 の範囲\n- mood.delta はこの会話で受けた気分の変化。-50〜50 の範囲(平常への戻りは考慮しなくてよい)。label は「上機嫌」「落ち込み」等\n- 現在の性格 (0-100): ";

pub const ASSESS_INTIMACY: &'static str = "\n- 相手への現在の親密度 (0-100): ";

/// The current traits as "key: value" joined by ", ".
pub open spec fn trait_summary(traits: Seq<TraitValue>) -> Seq<char> {
    join_seqs(Seq::new(traits.len(), |i: int| traits[i].key@ + ": "@ + int_text(traits[i].value as int)), ", "@)
}

/// The messages asking the model to assess the session for a persona.
pub open spec fn assessment_texts(
    name: Seq<char>,
    traits: Seq<TraitValue>,
    partner: Seq<char>,
    intimacy: int,
    transcript: Seq<char>,
) -> (Seq<char>, Seq<char>) {
    (
        ASSESS_HEAD@ + name + ASSESS_FORMAT@ + partner + ASSESS_RULES@ + trait_summary(traits)
            + ASSESS_INTIMACY@ + int_text(intimacy),
        LOG_HEAD@ + transcript,
    )
}

fn trait_summary_string(traits: &[TraitValue]) -> (r: String)
    ensures
        r@ == trait_summary(traits@),
{
    let ghost parts = Seq::new(
        traits@.len(),
        |i: int| traits@[i].key@ + ": "@ + int_text(traits@[i].value as int),
    );
    let mut out = String::new();
    let mut i: usize = 0;
    while i < traits.len()
        invariant
            i <= traits.len(),
            parts == Seq::new(
                traits@.len(),
                |i: int| traits@[i].key@ + ": "@ + int_text(traits@[i].value as int),
            ),
            out@ == join_seqs(parts.take(i as int), ", "@),
        decreases traits.len() - i,
    {
        proof {
            lemma_join_take(parts, ", "@, i as int);
        }
        if i > 0 {
            out.append(", ");
        }
        let ghost before = out@;
        out.append(traits[i].key.as_str());
        out.append(": ");
        push_int(&mut out, traits[i].value);
        assert(out@ == before + parts[i as int]);
        i = i + 1;
    }
    assert(parts.take(traits.len() as int) == parts);
    out
}

/// The prompt for the assessment of a session by `persona` towards one
/// partner.
pub fn assessment_prompt(
    persona: &Persona,
    traits: &[TraitValue],
    partner_name: &str,
    current_intimacy: i64,
    transcript: &str,
) -> (r: Vec<ChatMessage>)
    ensures
        is_exchange(
            r@,
            assessment_texts(
                persona.name@,
                traits@,
                partner_name@,
                current_intimacy as int,
                transcript@,
            ),
        ),
{
    let mut system = String::from_str(ASSESS_HEAD);
    system.append(persona.name.as_str());
    system.append(ASSESS_FORMAT);
    system.append(partner_name);
    system.append(ASSESS_RULES);
    let summary = trait_summary_string(traits);
    system.append(summary.as_str());
    system.append(ASSESS_INTIMACY);
    push_int(&mut system, current_intimacy);
    let mut user = String::from_str(LOG_HEAD);
    user.append(transcript);
    exchange(system, user)
}

pub const CONSOLIDATE_HEAD: &'static str = "あなたは「";

pub const CONSOLIDATE_TAIL: &'static str = "」の記憶を整理する係である。次の複数の関連する記憶を、要点を保ったまま1つに要約・一般化する。JSONのみを出力する。\n形式: {\"content\": \"統合した記憶(1〜2文)\", \"kind\": \"fact|event|promise|impression\", \"importance\": 1から10の整数}\n- 元の記憶の重要な情報を落とさない\n- JSON以外の文章を書かない";

pub const CONSOLIDATE_LIST_HEAD: &'static str = "統合する記憶:\n";

/// The memories as "- content" lines.
pub open spec fn memory_list(contents: Seq<String>) -> Seq<char> {
    join_seqs(Seq::new(contents.len(), |i: int| "- "@ + contents[i]@), "\n"@)
}

/// The messages asking the model to merge related memories.
pub open spec fn consolidation_texts(name: Seq<char>, contents: Seq<String>) -> (Seq<char>, Seq<char>) {
    (CONSOLIDATE_HEAD@ + name + CONSOLIDATE_TAIL@, CONSOLIDATE_LIST_HEAD@ + memory_list(contents))
}

/// The prompt for merging the memories `contents` of a persona.
pub fn consolidation_prompt(persona_name: &str, contents: &[String]) -> (r: Vec<ChatMessage>)
    ensures
        is_exchange(r@, consolidation_texts(persona_name@, contents@)),
{
    let mut system = String::from_str(CONSOLIDATE_HEAD);
    system.append(persona_name);
    system.append(CONSOLIDATE_TAIL);
    let ghost parts = Seq::new(contents@.len(), |i: int| "- "@ + contents@[i]@);
    let mut list = String::new();
    let mut i: usize = 0;
    while i < contents.len()
        invariant
            i <= contents.len(),
            parts == Seq::new(contents@.len(), |i: int| "- "@ + contents@[i]@),
            list@ == join_seqs(parts.take(i as int), "\n"@),
        decreases contents.len() - i,
    {
        proof {
            lemma_join_take(parts, "\n"@, i as int);
        }
        if i > 0 {
            list.append("\n");
        }
        let ghost before = list@;
        list.append("- ");
        list.append(contents[i].as_str());
        assert(list@ == before + parts[i as int]);
        i = i + 1;
    }
    assert(parts.take(contents.len() as int) == parts);
    let mut user = String::from_str(CONSOLIDATE_LIST_HEAD);
    user.append(list.as_str());
    exchange(system, user)
}

pub const DIARY_HEAD: &'static str = "あなたは「";

pub const DIARY_SELF: &'static str = "」本人である。今日(";

pub const DIARY_TASK: &'static str = ")の会話を振り返り、日記を書く。\n- ";

pub const DIARY_RULES: &'static str = "自身の一人称視点で、その日感じたことや印象に残った出来事を2〜4文で書く\n- 日記の本文のみを出力し、日付や見出しは付けない";

pub const DIARY_LOG_HEAD: &'static str = "今日の会話:\n";

/// The messages asking a persona to write the diary of `date`.
pub open spec fn diary_texts(name: Seq<char>, date: Seq<char>, transcript: Seq<char>) -> (
    Seq<char>,
    Seq<char>,
) {
    (
        DIARY_HEAD@ + name + DIARY_SELF@ + date + DIARY_TASK@ + name + DIARY_RULES@,
        DIARY_LOG_HEAD@ + transcript,
    )
}

/// The prompt for a persona's diary of one day.
pub fn diary_prompt(persona_name: &str, date: &str, transcript: &str) -> (r: Vec<ChatMessage>)
    ensures
        is_exchange(r@, diary_texts(persona_name@, date@, transcript@)),
{
    let mut system = String::from_str(DIARY_HEAD);
    system.append(persona_name);
    system.append(DIARY_SELF);
    system.append(date);
    system.append(DIARY_TASK);
    system.append(persona_name);
    system.append(DIARY_RULES);
    let mut user = String::from_str(DIARY_LOG_HEAD);
    user.append(transcript);
    exchange(system, user)
}

// ---------- decisions of the post-processing run ----------

/// The session exists, has ended and is not processed yet.
pub fn awaits_postprocess(session: Option<&Session>) -> (r: bool)
    ensures
        r == match session {
            Some(s) => s.status@ != "processed"@ && s.status@ != "active"@,
            None => false,
        },
{
    match session {
        Some(s) => !str_eq(s.status.as_str(), "processed") && !str_eq(s.status.as_str(), "active"),
        None => false,
    }
}

/// The user never spoke in this session.
pub open spec fn user_silent(us: Seq<Utterance>) -> bool {
    forall|i: int| 0 <= i < us.len() ==> (#[trigger] us[i]).speaker_kind@ != "user"@
}

/// A dialogue in which the user never spoke (it held a greeting at most) is
/// closed without being post-processed.
pub fn greeting_only(kind: &str, utterances: &[Utterance]) -> (r: bool)
    ensures
        r == (kind@ == "user_dialogue"@ && user_silent(utterances@)),
{
    if !str_eq(kind, "user_dialogue") {
        return false;
    }
    let mut i: usize = 0;
    while i < utterances.len()
        invariant
            i <= utterances.len(),
            kind@ == "user_dialogue"@,
            forall|j: int| 0 <= j < i ==> (#[trigger] utterances@[j]).speaker_kind@ != "user"@,
        decreases utterances.len() - i,
    {
        if str_eq(utterances[i].speaker_kind.as_str(), "user") {
            return false;
        }
        i = i + 1;
    }
    true
}

/// How a post-processing run starts.
#[derive(Debug, Clone, Copy, PartialEq, Eq)]
pub enum PostprocessStart {
    /// Nothing is done: the session is missing, active or already processed,
    /// or no chat model is set (the session waits for one).
    Leave,
    /// The session is closed as processed without asking the model: a
    /// dialogue in which the user never spoke.
    CloseUnprocessed,
    /// Every participant is post-processed.
    Run,
}

/// The start of a post-processing run of `session`, given the chat model
/// setting and the session's utterances. A run that leaves the session changes
/// nothing, so running it again on a processed session, or without a chat
/// model, does nothing.
pub fn postprocess_start(session: Option<&Session>, chat_model: &str, utterances: &[Utterance]) -> (r:
    PostprocessStart)
    ensures
        match session {
            Some(s) => if s.status@ == "processed"@ || s.status@ == "active"@ || chat_model@.len()
                == 0 {
                r == PostprocessStart::Leave
            } else if s.kind@ == "user_dialogue"@ && user_silent(utterances@) {
                r == PostprocessStart::CloseUnprocessed
            } else {
                r == PostprocessStart::Run
            },
            None => r == PostprocessStart::Leave,
        },
{
    if !awaits_postprocess(session) || chat_model.unicode_len() == 0 {
        return PostprocessStart::Leave;
    }
    match session {
        Some(s) => if greeting_only(s.kind.as_str(), utterances) {
            PostprocessStart::CloseUnprocessed
        } else {
            PostprocessStart::Run
        },
        None => PostprocessStart::Leave,
    }
}

/// Whom a persona assesses after a session, as (kind, id, name): the user
/// after a dialogue, every other participant otherwise.
pub open spec fn assessed_spec(
    kind: Seq<char>,
    pid: Seq<char>,
    participants: Seq<(String, String, bool)>,
) -> Seq<(Seq<char>, Seq<char>, Seq<char>)>
    decreases participants.len(),
{
    if kind == "user_dialogue"@ {
        seq![("user"@, "user"@, "ユーザー"@)]
    } else {
        assessed_others(pid, participants)
    }
}

/// The participants other than `pid`, as persona partners.
pub open spec fn assessed_others(pid: Seq<char>, ps: Seq<(String, String, bool)>) -> Seq<
    (Seq<char>, Seq<char>, Seq<char>),
>
    decreases ps.len(),
{
    if ps.len() == 0 {
        Seq::empty()
    } else {
        let r = assessed_others(pid, ps.drop_last());
        if ps.last().0@ == pid {
            r
        } else {
            r.push(("persona"@, ps.last().0@, ps.last().1@))
        }
    }
}

/// The partners a persona assesses after a session (see `assessed_spec`).
pub fn assessment_partners(kind: &str, pid: &str, participants: &[(String, String, bool)]) -> (r:
    Vec<PartnerTarget>)
    ensures
        target_views(r@) == assessed_spec(kind@, pid@, participants@),
{
    let mut out: Vec<PartnerTarget> = Vec::new();
    if str_eq(kind, "user_dialogue") {
        out.push(
            PartnerTarget {
                kind: String::from_str("user"),
                id: String::from_str("user"),
                name: String::from_str("ユーザー"),
            },
        );
        assert(target_views(out@) == seq![("user"@, "user"@, "ユーザー"@)]);
        return out;
    }
    let mut i: usize = 0;
    while i < participants.len()
        invariant
            i <= participants.len(),
            target_views(out@) == assessed_others(pid@, participants@.take(i as int)),
        decreases participants.len() - i,
    {
        assert(participants@.take(i + 1).drop_last() == participants@.take(i as int));
        assert(participants@.take(i + 1).last() == participants@[i as int]);
        if !str_eq(participants[i].0.as_str(), pid) {
            let ghost before = out@;
            out.push(
                PartnerTarget {
                    kind: String::from_str("persona"),
                    id: participants[i].0.clone(),
                    name: participants[i].1.clone(),
                },
            );
            assert(target_views(out@) == target_views(before).push(
                ("persona"@, participants@[i as int].0@, participants@[i as int].1@),
            ));
        }
        i = i + 1;
    }
    assert(participants@.take(participants.len() as int) == participants@);
    out
}

/// Every participant of the session is processed.
pub open spec fn all_processed(ps: Seq<(String, String, bool)>) -> bool {
    forall|i: int| 0 <= i < ps.len() ==> (#[trigger] ps[i]).2
}

/// The session is processed when every persona went through without a
/// failed extraction and every participant is marked processed.
pub fn postprocess_complete(all_done: bool, participants: &[(String, String, bool)]) -> (r: bool)
    ensures
        r == (all_done && all_processed(participants@)),
{
    if !all_done {
        return false;
    }
    let mut i: usize = 0;
    while i < participants.len()
        invariant
            i <= participants.len(),
            forall|j: int| 0 <= j < i ==> (#[trigger] participants@[j]).2,
        decreases participants.len() - i,
    {
        if !participants[i].2 {
            return false;
        }
        i = i + 1;
    }
    true
}

/// What post-processing does for one participant of the session.
#[derive(Debug, Clone, Copy, PartialEq, Eq)]
pub enum ParticipantStep {
    /// Already processed: left alone.
    Skip,
    /// Nothing to learn (the persona was deleted, or nobody spoke): marked
    /// processed without asking the model.
    MarkProcessed,
    /// Memories are extracted and the partners assessed.
    Process,
}

/// The step for one participant: one already processed is skipped; one whose
/// persona no longer exists, or of a session with an empty transcript, is only
/// marked processed; any other is processed.
pub fn participant_step(processed: bool, persona_exists: bool, transcript_empty: bool) -> (r:
    ParticipantStep)
    ensures
        processed ==> r == ParticipantStep::Skip,
        !processed && (!persona_exists || transcript_empty) ==> r == ParticipantStep::MarkProcessed,
        !processed && persona_exists && !transcript_empty ==> r == ParticipantStep::Process,
{
    if processed {
        ParticipantStep::Skip
    } else if !persona_exists || transcript_empty {
        ParticipantStep::MarkProcessed
    } else {
        ParticipantStep::Process
    }
}

/// The ids whose flag is set, in order.
pub open spec fn flagged_ids(ids: Seq<String>, flags: Seq<bool>) -> Seq<Seq<char>>
    decreases ids.len(),
{
    if ids.len() == 0 {
        Seq::empty()
    } else {
        let n = ids.len() - 1;
        let front = flagged_ids(ids.take(n), flags);
        if flags[n] {
            front.push(ids[n]@)
        } else {
            front
        }
    }
}

/// The new memories that can be merged with similar ones: those stored with an
/// embedding (`embedded[i]` for `ids[i]`), in the order they were stored.
pub fn embedded_ids(ids: &[String], embedded: &[bool]) -> (r: Vec<String>)
    requires
        ids@.len() == embedded@.len(),
    ensures
        string_views(r@) == flagged_ids(ids@, embedded@),
{
    let mut out: Vec<String> = Vec::new();
    let mut i: usize = 0;
    while i < ids.len()
        invariant
            i <= ids.len(),
            ids@.len() == embedded@.len(),
            string_views(out@) == flagged_ids(ids@.take(i as int), embedded@),
        decreases ids.len() - i,
    {
        assert(ids@.take(i + 1).take(i as int) == ids@.take(i as int));
        if embedded[i] {
            let id = owned(ids[i].as_str());
            let ghost before = out@;
            out.push(id);
            assert(string_views(out@) == string_views(before).push(ids@[i as int]@));
        }
        i = i + 1;
    }
    assert(ids@.take(ids.len() as int) == ids@);
    out
}

/// The assessments of one persona after a session: its trait deltas and its
/// mood are applied once, with the first successful assessment, however many
/// partners it has.
#[derive(Debug, Clone)]
pub struct AssessmentRound {
    pub traits_applied: bool,
}

impl AssessmentRound {
    /// A round before any assessment.
    pub fn new() -> (r: AssessmentRound)
        ensures
            !r.traits_applied,
    {
        AssessmentRound { traits_applied: false }
    }

    /// Whether this successful assessment applies the trait deltas and the
    /// mood: only the first one does.
    pub fn take_trait_turn(&mut self) -> (r: bool)
        ensures
            r == !old(self).traits_applied,
            final(self).traits_applied,
    {
        let first = !self.traits_applied;
        self.traits_applied = true;
        first
    }
}

/// The `i`-th call of `take_trait_turn` in a round gave `turns[i]` and left
/// the round as `rounds[i + 1]`, as its contract says.
pub open spec fn trait_turn_taken(rounds: Seq<AssessmentRound>, turns: Seq<bool>, i: int) -> bool {
    turns[i] == !rounds[i].traits_applied && rounds[i + 1].traits_applied
}

/// In a round of assessments, only the first successful one applies trait
/// deltas and mood: starting from a new round, the first call of
/// `take_trait_turn` gives `true` and every later one `false`. `rounds[i]` is
/// the round before the `i`-th call and `turns[i]` what it gave.
pub proof fn law_assessment_only_first(rounds: Seq<AssessmentRound>, turns: Seq<bool>)
    requires
        rounds.len() == turns.len() + 1,
        !rounds[0].traits_applied,
        forall|i: int| 0 <= i < turns.len() ==> #[trigger] trait_turn_taken(rounds, turns, i),
    ensures
        turns.len() > 0 ==> turns[0],
        forall|i: int| 0 < i < turns.len() ==> !#[trigger] turns[i],
{
    if turns.len() > 0 {
        assert(trait_turn_taken(rounds, turns, 0));
    }
    assert forall|i: int| 0 < i < turns.len() implies !#[trigger] turns[i] by {
        assert(trait_turn_taken(rounds, turns, i - 1));
        assert(trait_turn_taken(rounds, turns, i));
    }
}



/// A memory read from an extraction answer keeps the kind the item gives when
/// it is one of fact, event, promise or impression, and is a fact otherwise
/// (a missing or unknown kind); an item whose content is a non-blank string
/// always gives a memory.
pub proof fn law_extracted_kind(item: JsonValue)
    ensures
        ({
            let k = as_str_spec(get_spec(item, "kind"@));
            let known = k matches Some(s) && (s == "fact"@ || s == "event"@ || s == "promise"@ || s
                == "impression"@);
            &&& item_memory(item) matches Some(m) ==> (known ==> Some(m.1) == k) && (!known ==> m.1
                == "fact"@)
        }),
        as_str_spec(get_spec(item, "content"@)) matches Some(c) && trim_seq(c).len() > 0
            ==> item_memory(item) is Some,
{
    if let Some(c) = as_str_spec(get_spec(item, "content"@)) {
        if trim_seq(c).len() > 0 {
            assert(take_seq(trim_seq(c), MAX_MEMORY_CONTENT_CHARS as int).len() > 0);
        }
    }
}

} // verus!
