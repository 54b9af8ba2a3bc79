//! Choosing the next speaker of a group chat.
//!
//! The language model names a participant; the choice is then corrected: no
//! persona speaks three times in a row, personas that have not spoken yet come
//! first, and an unusable answer falls back to round robin.

use vstd::prelude::*;

use crate::models::Utterance;
use crate::text::{chars_of, seq_contains, str_eq, trim_seq, trim_vec, vec_contains};

verus! {

/// Outcome of the speaker selection.
#[derive(Debug, Clone, PartialEq, Eq)]
pub enum SpeakerDecision {
    /// The id of the persona that speaks next.
    Speak(String),
    /// Nobody continues (only when "no speaker" is allowed).
    Nobody,
}

// ---------- generic first-match search ----------

/// Index of the first element at or after `i` that satisfies `p`, or `s.len()`.
pub open spec fn first_from<A>(s: Seq<A>, p: spec_fn(A) -> bool, i: int) -> int
    decreases s.len() - i,
{
    if i >= s.len() {
        s.len() as int
    } else if p(s[i]) {
        i
    } else {
        first_from(s, p, i + 1)
    }
}

pub proof fn lemma_first_from<A>(s: Seq<A>, p: spec_fn(A) -> bool, i: int)
    requires
        0 <= i <= s.len(),
    ensures
        i <= first_from(s, p, i) <= s.len(),
        first_from(s, p, i) < s.len() ==> p(s[first_from(s, p, i)]),
        forall|j: int| i <= j < first_from(s, p, i) ==> !p(#[trigger] s[j]),
    decreases s.len() - i,
{
    if i < s.len() && !p(s[i]) {
        lemma_first_from(s, p, i + 1);
    }
}

// ---------- what the history says ----------

/// Ids of the persona speakers of the history, in order.
pub open spec fn persona_speakers(h: Seq<Utterance>) -> Seq<Seq<char>>
    decreases h.len(),
{
    if h.len() == 0 {
        Seq::empty()
    } else {
        let r = persona_speakers(h.drop_last());
        if h.last().speaker_kind@ == "persona"@ {
            r.push(h.last().speaker_id@)
        } else {
            r
        }
    }
}

/// Length of the run of `x` at the end of `ids`.
pub open spec fn run_len(ids: Seq<Seq<char>>, x: Seq<char>) -> int
    decreases ids.len(),
{
    if ids.len() == 0 || ids.last() != x {
        0
    } else {
        1 + run_len(ids.drop_last(), x)
    }
}

/// `id` may not speak now: it spoke the last two persona turns.
pub open spec fn is_bad(ids: Seq<Seq<char>>, id: Seq<char>) -> bool {
    ids.len() > 0 && ids.last() == id && run_len(ids, id) >= 2
}

/// The answer declines to name anyone: empty, or containing one of the
/// markers "発話なし", "なし", "none", "誰も", "沈黙", "スキップ".
pub open spec fn declines(name: Seq<char>) -> bool {
    ||| name.len() == 0
    ||| seq_contains(name, "発話なし"@)
    ||| seq_contains(name, "なし"@)
    ||| seq_contains(name, "none"@)
    ||| seq_contains(name, "誰も"@)
    ||| seq_contains(name, "沈黙"@)
    ||| seq_contains(name, "スキップ"@)
}

/// Participant whose name is exactly `name`.
pub open spec fn has_name(name: Seq<char>) -> spec_fn((String, String)) -> bool {
    |p: (String, String)| p.1@ == name
}

/// Participant whose name contains `name` or is contained in it.
pub open spec fn shares_name(name: Seq<char>) -> spec_fn((String, String)) -> bool {
    |p: (String, String)| seq_contains(name, p.1@) || seq_contains(p.1@, name)
}

/// Participant that has not spoken yet and may speak now.
pub open spec fn unheard(ids: Seq<Seq<char>>) -> spec_fn((String, String)) -> bool {
    |p: (String, String)| !ids.contains(p.0@) && !is_bad(ids, p.0@)
}

/// Participant with the id `id`.
pub open spec fn has_id(id: Seq<char>) -> spec_fn((String, String)) -> bool {
    |p: (String, String)| p.0@ == id
}

/// The participant the answer names: the first with exactly that name, else
/// (for a non-empty answer) the first whose name contains the answer or is
/// contained in it.
pub open spec fn named_index(name: Seq<char>, ps: Seq<(String, String)>) -> int {
    let exact = first_from(ps, has_name(name), 0);
    if exact < ps.len() {
        exact
    } else if name.len() == 0 {
        ps.len() as int
    } else {
        first_from(ps, shares_name(name), 0)
    }
}

/// The decision, as the id of the next speaker or `None` for nobody.
pub open spec fn decide_spec(
    llm: Seq<char>,
    ps: Seq<(String, String)>,
    h: Seq<Utterance>,
    allow_none: bool,
) -> Option<Seq<char>> {
    let name = trim_seq(llm);
    let ids = persona_speakers(h);
    if allow_none && declines(name) {
        None
    } else {
        let m = named_index(name, ps);
        if m < ps.len() && !is_bad(ids, ps[m].0@) {
            Some(ps[m].0@)
        } else {
            let u = first_from(ps, unheard(ids), 0);
            if u < ps.len() {
                Some(ps[u].0@)
            } else {
                let pos = if ids.len() > 0 {
                    first_from(ps, has_id(ids.last()), 0)
                } else {
                    ps.len() as int
                };
                if pos < ps.len() {
                    Some(ps[(pos + 1) % (ps.len() as int)].0@)
                } else {
                    Some(ps[0].0@)
                }
            }
        }
    }
}

// ---------- executable pieces ----------

/// The ids of the personas that spoke, one per persona utterance, in order.
pub fn persona_speaker_ids(history: &[Utterance]) -> (r: Vec<String>)
    ensures
        r@.len() == persona_speakers(history@).len(),
        forall|i: int| 0 <= i < r@.len() ==> (#[trigger] r@[i])@ == persona_speakers(history@)[i],
{
    let mut out: Vec<String> = Vec::new();
    let mut i: usize = 0;
    while i < history.len()
        invariant
            i <= history.len(),
            out@.len() == persona_speakers(history@.take(i as int)).len(),
            forall|j: int|
                0 <= j < out@.len() ==> (#[trigger] out@[j])@ == persona_speakers(
                    history@.take(i as int),
                )[j],
        decreases history.len() - i,
    {
        assert(history@.take(i + 1).drop_last() == history@.take(i as int));
        if str_eq(history[i].speaker_kind.as_str(), "persona") {
            out.push(history[i].speaker_id.clone());
        }
        i = i + 1;
    }
    assert(history@.take(history.len() as int) == history@);
    out
}

/// The views of the strings of `v`.
pub open spec fn views(v: Seq<String>) -> Seq<Seq<char>> {
    Seq::new(v.len(), |i: int| v[i]@)
}

fn run_len_exec(ids: &Vec<String>, x: &str) -> (r: usize)
    ensures
        r as int == run_len(views(ids@), x@),
{
    let ghost vs = views(ids@);
    let mut j: usize = ids.len();
    assert(vs.take(j as int) == vs);
    while j > 0 && str_eq(ids[j - 1].as_str(), x)
        invariant
            j <= ids.len(),
            vs == views(ids@),
            run_len(vs, x@) == (ids.len() - j) + run_len(vs.take(j as int), x@),
        decreases j,
    {
        assert(vs.take(j as int).drop_last() == vs.take(j - 1));
        assert(vs.take(j as int).last() == vs[j - 1]);
        j = j - 1;
    }
    if j > 0 {
        assert(vs.take(j as int).last() == vs[j - 1]);
    }
    ids.len() - j
}

fn contains_str(ids: &Vec<String>, x: &str) -> (r: bool)
    ensures
        r == views(ids@).contains(x@),
{
    let mut i: usize = 0;
    while i < ids.len()
        invariant
            i <= ids.len(),
            forall|j: int| 0 <= j < i ==> (#[trigger] ids@[j])@ != x@,
        decreases ids.len() - i,
    {
        if str_eq(ids[i].as_str(), x) {
            assert(views(ids@)[i as int] == x@);
            return true;
        }
        i = i + 1;
    }
    assert forall|k: int| 0 <= k < views(ids@).len() implies views(ids@)[k] != x@ by {
        assert(views(ids@)[k] == ids@[k]@);
    }
    false
}

fn is_bad_exec(ids: &Vec<String>, id: &str) -> (r: bool)
    ensures
        r == is_bad(views(ids@), id@),
{
    let n = ids.len();
    if n == 0 {
        return false;
    }
    assert(views(ids@).last() == ids@[n - 1]@);
    if !str_eq(ids[n - 1].as_str(), id) {
        return false;
    }
    run_len_exec(ids, id) >= 2
}

fn declines_exec(name: &Vec<char>) -> (r: bool)
    ensures
        r == declines(name@),
{
    name.len() == 0 || vec_contains(name, &chars_of("発話なし")) || vec_contains(
        name,
        &chars_of("なし"),
    ) || vec_contains(name, &chars_of("none")) || vec_contains(name, &chars_of("誰も"))
        || vec_contains(name, &chars_of("沈黙")) || vec_contains(name, &chars_of("スキップ"))
}

fn named_index_exec(name: &Vec<char>, participants: &[(String, String)]) -> (r: usize)
    ensures
        r as int == named_index(name@, participants@),
{
    let n = participants.len();
    let mut i: usize = 0;
    while i < n
        invariant
            n == participants.len(),
            i <= n,
            first_from(participants@, has_name(name@), i as int) == first_from(participants@, has_name(name@), 0),
        decreases n - i,
    {
        let pn = chars_of(participants[i].1.as_str());
        if vec_eq_chars(&pn, name) {
            assert(has_name(name@)(participants@[i as int]));
            return i;
        }
        i = i + 1;
    }
    if name.len() == 0 {
        return n;
    }
    let mut i: usize = 0;
    while i < n
        invariant
            n == participants.len(),
            i <= n,
            first_from(participants@, has_name(name@), 0) == n,
            name@.len() > 0,
            first_from(participants@, shares_name(name@), i as int) == first_from(participants@, shares_name(name@), 0),
        decreases n - i,
    {
        let pn = chars_of(participants[i].1.as_str());
        if vec_contains(name, &pn) || vec_contains(&pn, name) {
            assert(shares_name(name@)(participants@[i as int]));
            return i;
        }
        i = i + 1;
    }
    n
}

fn vec_eq_chars(a: &Vec<char>, b: &Vec<char>) -> (r: bool)
    ensures
        r == (a@ == b@),
{
    if a.len() != b.len() {
        return false;
    }
    let mut k: usize = 0;
    while k < a.len()
        invariant
            a.len() == b.len(),
            k <= a.len(),
            forall|m: int| 0 <= m < k ==> a@[m] == b@[m],
        decreases a.len() - k,
    {
        if a[k] != b[k] {
            return false;
        }
        k = k + 1;
    }
    assert(a@ =~= b@);
    true
}

fn first_unheard(ids: &Vec<String>, participants: &[(String, String)]) -> (r: usize)
    ensures
        r as int == first_from(participants@, unheard(views(ids@)), 0),
{
    let ghost sids = views(ids@);
    let n = participants.len();
    let mut i: usize = 0;
    while i < n
        invariant
            n == participants.len(),
            i <= n,
            sids == views(ids@),
            first_from(participants@, unheard(sids), i as int) == first_from(
                participants@,
                unheard(sids),
                0,
            ),
        decreases n - i,
    {
        let id = participants[i].0.as_str();
        if !contains_str(ids, id) && !is_bad_exec(ids, id) {
            assert(unheard(sids)(participants@[i as int]));
            return i;
        }
        i = i + 1;
    }
    n
}

fn position_of_id(participants: &[(String, String)], id: &str) -> (r: usize)
    ensures
        r as int == first_from(participants@, has_id(id@), 0),
{
    let n = participants.len();
    let mut j: usize = 0;
    while j < n
        invariant
            n == participants.len(),
            j <= n,
            first_from(participants@, has_id(id@), j as int) == first_from(
                participants@,
                has_id(id@),
                0,
            ),
        decreases n - j,
    {
        if str_eq(participants[j].0.as_str(), id) {
            assert(has_id(id@)(participants@[j as int]));
            return j;
        }
        j = j + 1;
    }
    n
}

/// Decides who speaks next in a group chat from the model's answer `llm_name`,
/// the participants `(id, name)` in their registration order, and the history.
///
/// With `allow_none`, an answer that is empty or declines ("発話なし" and the
/// like) means nobody continues. Otherwise the named participant speaks unless
/// it spoke the last two persona turns; failing that, the first participant
/// that has not spoken (and is not so barred); failing that, the participant
/// after the last persona speaker, round robin; failing that, the first.
pub fn decide_group_speaker(
    llm_name: &str,
    participants: &[(String, String)],
    history: &[Utterance],
    allow_none: bool,
) -> (r: SpeakerDecision)
    requires
        participants@.len() > 0 || (allow_none && declines(trim_seq(llm_name@))),
    ensures
        match decide_spec(llm_name@, participants@, history@, allow_none) {
            Some(id) => r matches SpeakerDecision::Speak(s) && s@ == id,
            None => r is Nobody,
        },
{
    let name = trim_vec(&chars_of(llm_name));
    if allow_none && declines_exec(&name) {
        return SpeakerDecision::Nobody;
    }
    let ids = persona_speaker_ids(history);
    proof {
        assert(views(ids@) =~= persona_speakers(history@));
    }
    let ghost sids = persona_speakers(history@);
    let n = participants.len();
    let m = named_index_exec(&name, participants);
    if m < n && !is_bad_exec(&ids, participants[m].0.as_str()) {
        return SpeakerDecision::Speak(participants[m].0.clone());
    }
    let u = first_unheard(&ids, participants);
    if u < n {
        return SpeakerDecision::Speak(participants[u].0.clone());
    }
    if ids.len() > 0 {
        let last = ids[ids.len() - 1].as_str();
        assert(sids.last() == last@);
        let pos = position_of_id(participants, last);
        if pos < n {
            let next = (pos + 1) % n;
            return SpeakerDecision::Speak(participants[next].0.clone());
        }
    }
    SpeakerDecision::Speak(participants[0].0.clone())
}

/// The chosen speaker is always one of the participants.
pub proof fn law_speaker_is_participant(
    llm: Seq<char>,
    ps: Seq<(String, String)>,
    h: Seq<Utterance>,
    allow_none: bool,
)
    requires
        ps.len() > 0,
    ensures
        decide_spec(llm, ps, h, allow_none) matches Some(id) ==> exists|i: int|
            0 <= i < ps.len() && (#[trigger] ps[i]).0@ == id,
{
    let name = trim_seq(llm);
    let ids = persona_speakers(h);
    lemma_first_from(ps, has_name(name), 0);
    lemma_first_from(ps, shares_name(name), 0);
    lemma_first_from(ps, unheard(ids), 0);
    if ids.len() > 0 {
        lemma_first_from(ps, has_id(ids.last()), 0);
    }
    let m = named_index(name, ps);
    let u = first_from(ps, unheard(ids), 0);
    if !(allow_none && declines(name)) {
        if m < ps.len() && !is_bad(ids, ps[m].0@) {
            assert(ps[m].0@ == ps[m].0@);
        } else if u < ps.len() {
            assert(ps[u].0@ == ps[u].0@);
        } else {
            let pos = if ids.len() > 0 {
                first_from(ps, has_id(ids.last()), 0)
            } else {
                ps.len() as int
            };
            if pos < ps.len() {
                let q = (pos + 1) % (ps.len() as int);
                assert(0 <= q < ps.len());
                assert(ps[q].0@ == ps[q].0@);
            } else {
                assert(ps[0].0@ == ps[0].0@);
            }
        }
    }
}

/// While some participant has not spoken yet, nobody is chosen for a third
/// persona turn in a row.
pub proof fn law_no_third_turn_while_someone_waits(
    llm: Seq<char>,
    ps: Seq<(String, String)>,
    h: Seq<Utterance>,
    allow_none: bool,
    w: int,
)
    requires
        0 <= w < ps.len(),
        !persona_speakers(h).contains(ps[w].0@),
    ensures
        decide_spec(llm, ps, h, allow_none) matches Some(id) ==> !is_bad(persona_speakers(h), id),
{
    let name = trim_seq(llm);
    let ids = persona_speakers(h);
    lemma_first_from(ps, unheard(ids), 0);
    if ids.len() > 0 && ids.last() == ps[w].0@ {
        assert(ids.contains(ps[w].0@)) by {
            assert(ids[ids.len() - 1] == ps[w].0@);
        }
    }
    assert(unheard(ids)(ps[w]));
    let u = first_from(ps, unheard(ids), 0);
    assert(u <= w);
    assert(unheard(ids)(ps[u]));
}

/// In a group of two or more participants with distinct ids, nobody is
/// chosen for a third persona turn in a row.
pub proof fn law_no_third_turn_in_a_row(
    llm: Seq<char>,
    ps: Seq<(String, String)>,
    h: Seq<Utterance>,
    allow_none: bool,
)
    requires
        ps.len() >= 2,
        forall|i: int, j: int| 0 <= i < j < ps.len() ==> (#[trigger] ps[i]).0@ != (#[trigger] ps[j]).0@,
    ensures
        decide_spec(llm, ps, h, allow_none) matches Some(id) ==> !is_bad(persona_speakers(h), id),
{
    let name = trim_seq(llm);
    let ids = persona_speakers(h);
    lemma_first_from(ps, unheard(ids), 0);
    let m = named_index(name, ps);
    let u = first_from(ps, unheard(ids), 0);
    if !(allow_none && declines(name)) && !(m < ps.len() && !is_bad(ids, ps[m].0@)) && u >= ps.len() {
        if ids.len() > 0 {
            lemma_first_from(ps, has_id(ids.last()), 0);
            let pos = first_from(ps, has_id(ids.last()), 0);
            if pos < ps.len() {
                let n = ps.len() as int;
                let q = (pos + 1) % n;
                if pos + 1 < n {
                    assert((pos + 1) % n == pos + 1) by (nonlinear_arith)
                        requires
                            0 <= pos + 1 < n,
                    ;
                } else {
                    assert((pos + 1) % n == 0) by (nonlinear_arith)
                        requires
                            pos + 1 == n,
                            n > 0,
                    ;
                }
                assert(q != pos);
                assert(has_id(ids.last())(ps[pos]));
                if q < pos {
                    assert(ps[q].0@ != ps[pos].0@);
                } else {
                    assert(ps[pos].0@ != ps[q].0@);
                }
            } else {
                assert(!has_id(ids.last())(ps[0]));
            }
        }
    }
}

} // verus!
