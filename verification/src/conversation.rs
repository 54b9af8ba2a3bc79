//! The rules of a conversation: who may join which session, when an
//! autonomous conversation or a group chain goes on, when a persona greets,
//! and how a finished generation is recorded.

use vstd::prelude::*;

use crate::error::{fails_with, kind_spec, message_spec, AppError, AppResult};
use crate::inference::{infer_error_text, InferError, StreamOutcome};
use crate::models::{
    new_id, now_ms, Session, Utterance, AUTO_TURN_HARD_MAX, MAX_AUTONOMOUS_PARTICIPANTS,
    MAX_GROUP_PARTICIPANTS,
};
use crate::speaker::first_from;
use crate::text::{chars_of, clamp_i64, clamp_spec, int_text, push_int, str_eq, trim_seq, trim_vec};

verus! {

// ---------- the registry of busy personas and stop flags ----------

/// Which persona takes part in which session (a persona is in at most one
/// session at a time), and which sessions were asked to stop.
#[derive(Debug)]
pub struct SessionRegistry {
    busy: Vec<(String, String)>,
    stops: Vec<String>,
}

/// Entry `i` of `b` records persona `pid`.
pub open spec fn records(b: Seq<(String, String)>, i: int, pid: Seq<char>) -> bool {
    0 <= i < b.len() && b[i].0@ == pid
}

/// `b` holds persona `pid` for session `sid`.
pub open spec fn holds(b: Seq<(String, String)>, pid: Seq<char>, sid: Seq<char>) -> bool {
    exists|i: int| #[trigger] records(b, i, pid) && b[i].1@ == sid
}

/// `b` holds persona `pid` for some session.
pub open spec fn is_held(b: Seq<(String, String)>, pid: Seq<char>) -> bool {
    exists|i: int| #[trigger] records(b, i, pid)
}

/// No persona is recorded twice.
pub open spec fn unique_personas(b: Seq<(String, String)>) -> bool {
    forall|i: int, j: int|
        0 <= i < b.len() && 0 <= j < b.len() && i != j ==> (#[trigger] b[i]).0@ != (#[trigger] b[j]).0@
}

/// `s` lists session `sid`.
pub open spec fn lists(s: Seq<String>, sid: Seq<char>) -> bool {
    exists|i: int| 0 <= i < s.len() && (#[trigger] s[i])@ == sid
}

/// The message of the refusal for a persona named `name`.
pub open spec fn busy_message(name: Seq<char>) -> Seq<char> {
    "「"@ + name + "」は別の会話に参加中です"@
}

/// Participant already held by some session.
pub open spec fn held_in(b: Seq<(String, String)>) -> spec_fn((String, String)) -> bool {
    |p: (String, String)| is_held(b, p.0@)
}

/// One of `ids` names persona `pid`.
pub open spec fn names_persona(ids: Seq<(String, String)>, pid: Seq<char>) -> bool {
    exists|j: int| 0 <= j < ids.len() && (#[trigger] ids[j]).0@ == pid
}

/// `b` holds what `b0` held plus every persona of `ids` for session `sid`.
pub open spec fn reserved(
    b: Seq<(String, String)>,
    b0: Seq<(String, String)>,
    ids: Seq<(String, String)>,
    sid: Seq<char>,
) -> bool {
    forall|p: Seq<char>, s: Seq<char>|
        #![trigger holds(b, p, s)]
        #![trigger holds(b0, p, s), names_persona(ids, p)]
        holds(b, p, s) <==> (holds(b0, p, s) || (names_persona(ids, p) && s == sid))
}

proof fn lemma_reserved_at(
    b: Seq<(String, String)>,
    b0: Seq<(String, String)>,
    ids: Seq<(String, String)>,
    sid: Seq<char>,
    p: Seq<char>,
    s: Seq<char>,
)
    requires
        reserved(b, b0, ids, sid),
    ensures
        holds(b, p, s) <==> (holds(b0, p, s) || (names_persona(ids, p) && s == sid)),
{
    assert(holds(b, p, s) <==> (holds(b0, p, s) || (names_persona(ids, p) && s == sid)));
}

proof fn lemma_holds_push(b: Seq<(String, String)>, e: (String, String), p: Seq<char>, s: Seq<char>)
    ensures
        holds(b.push(e), p, s) <==> (holds(b, p, s) || (e.0@ == p && e.1@ == s)),
        is_held(b.push(e), p) <==> (is_held(b, p) || e.0@ == p),
{
    let c = b.push(e);
    if holds(c, p, s) {
        let i = choose|i: int| #[trigger] records(c, i, p) && c[i].1@ == s;
        if i < b.len() {
            assert(records(b, i, p));
        }
    }
    if holds(b, p, s) {
        let i = choose|i: int| #[trigger] records(b, i, p) && b[i].1@ == s;
        assert(records(c, i, p));
    }
    if e.0@ == p {
        assert(records(c, b.len() as int, p));
    }
    if is_held(c, p) {
        let i = choose|i: int| #[trigger] records(c, i, p);
        if i < b.len() {
            assert(records(b, i, p));
        }
    }
    if is_held(b, p) {
        let i = choose|i: int| #[trigger] records(b, i, p);
        assert(records(c, i, p));
    }
}

proof fn lemma_holds_remove(b: Seq<(String, String)>, k: int, p: Seq<char>, s: Seq<char>)
    requires
        unique_personas(b),
        0 <= k < b.len(),
    ensures
        unique_personas(b.remove(k)),
        holds(b.remove(k), p, s) <==> (holds(b, p, s) && p != b[k].0@),
{
    let c = b.remove(k);
    b.remove_ensures(k);
    assert forall|i: int, j: int|
        0 <= i < c.len() && 0 <= j < c.len() && i != j implies (#[trigger] c[i]).0@ != (
        #[trigger] c[j]).0@ by {
        let i0 = if i < k { i } else { i + 1 };
        let j0 = if j < k { j } else { j + 1 };
        assert(c[i] == b[i0]);
        assert(c[j] == b[j0]);
    }
    if holds(c, p, s) {
        let i = choose|i: int| #[trigger] records(c, i, p) && c[i].1@ == s;
        let i0 = if i < k { i } else { i + 1 };
        assert(c[i] == b[i0]);
        assert(records(b, i0, p));
        assert(i0 != k);
    }
    if holds(b, p, s) && p != b[k].0@ {
        let i = choose|i: int| #[trigger] records(b, i, p) && b[i].1@ == s;
        let i1 = if i < k { i } else { i - 1 };
        assert(c[i1] == b[i]);
        assert(records(c, i1, p));
    }
}

proof fn lemma_lists_push(l: Seq<String>, e: String, s: Seq<char>)
    ensures
        lists(l.push(e), s) <==> (lists(l, s) || e@ == s),
{
    let c = l.push(e);
    if lists(c, s) {
        let i = choose|i: int| 0 <= i < c.len() && (#[trigger] c[i])@ == s;
        if i < l.len() {
            assert(c[i] == l[i]);
        }
    }
    if lists(l, s) {
        let i = choose|i: int| 0 <= i < l.len() && (#[trigger] l[i])@ == s;
        assert(c[i] == l[i]);
    }
    if e@ == s {
        assert(c[l.len() as int] == e);
    }
}

proof fn lemma_lists_remove(l: Seq<String>, k: int, s: Seq<char>)
    requires
        0 <= k < l.len(),
        l[k]@ != s,
    ensures
        lists(l.remove(k), s) <==> lists(l, s),
{
    let c = l.remove(k);
    l.remove_ensures(k);
    if lists(c, s) {
        let i = choose|i: int| 0 <= i < c.len() && (#[trigger] c[i])@ == s;
        let i0 = if i < k { i } else { i + 1 };
        assert(c[i] == l[i0]);
    }
    if lists(l, s) {
        let i = choose|i: int| 0 <= i < l.len() && (#[trigger] l[i])@ == s;
        let i1 = if i < k { i } else { i - 1 };
        assert(c[i1] == l[i]);
    }
}

proof fn lemma_names_take(ids: Seq<(String, String)>, k: int, p: Seq<char>)
    requires
        0 <= k < ids.len(),
    ensures
        names_persona(ids.take(k + 1), p) <==> (names_persona(ids.take(k), p) || ids[k].0@ == p),
{
    let a = ids.take(k);
    let c = ids.take(k + 1);
    if names_persona(c, p) {
        let j = choose|j: int| 0 <= j < c.len() && (#[trigger] c[j]).0@ == p;
        if j < k {
            assert(a[j] == c[j]);
        }
    }
    if names_persona(a, p) {
        let j = choose|j: int| 0 <= j < a.len() && (#[trigger] a[j]).0@ == p;
        assert(a[j] == c[j]);
    }
    if ids[k].0@ == p {
        assert(c[k] == ids[k]);
    }
}

impl SessionRegistry {
    /// The (persona, session) entries.
    pub closed spec fn entries(&self) -> Seq<(String, String)> {
        self.busy@
    }

    /// The sessions asked to stop.
    pub closed spec fn stop_list(&self) -> Seq<String> {
        self.stops@
    }

    /// Persona `pid` takes part in session `sid`.
    pub open spec fn holds_for(&self, pid: Seq<char>, sid: Seq<char>) -> bool {
        holds(self.entries(), pid, sid)
    }

    /// Session `sid` was asked to stop.
    pub open spec fn stop_requested(&self, sid: Seq<char>) -> bool {
        lists(self.stop_list(), sid)
    }

    /// Well-formedness: each persona is recorded at most once.
    pub open spec fn wf(&self) -> bool {
        unique_personas(self.entries())
    }

    /// An empty registry.
    pub fn new() -> (r: SessionRegistry)
        ensures
            r.wf(),
            forall|p: Seq<char>, s: Seq<char>| !r.holds_for(p, s),
            forall|s: Seq<char>| !r.stop_requested(s),
    {
        SessionRegistry { busy: Vec::new(), stops: Vec::new() }
    }

    fn find_persona(&self, pid: &str) -> (r: Option<usize>)
        ensures
            match r {
                Some(i) => records(self.busy@, i as int, pid@),
                None => !is_held(self.busy@, pid@),
            },
    {
        let mut i: usize = 0;
        while i < self.busy.len()
            invariant
                i <= self.busy.len(),
                forall|j: int| 0 <= j < i ==> !records(self.busy@, j, pid@),
            decreases self.busy.len() - i,
        {
            if str_eq(self.busy[i].0.as_str(), pid) {
                return Some(i);
            }
            i = i + 1;
        }
        None
    }

    fn find_session(&self, sid: &str) -> (r: Option<usize>)
        ensures
            match r {
                Some(i) => 0 <= i < self.busy@.len() && self.busy@[i as int].1@ == sid@,
                None => forall|p: Seq<char>| !holds(self.busy@, p, sid@),
            },
    {
        let mut i: usize = 0;
        while i < self.busy.len()
            invariant
                i <= self.busy.len(),
                forall|j: int| 0 <= j < i ==> (#[trigger] self.busy@[j]).1@ != sid@,
            decreases self.busy.len() - i,
        {
            if str_eq(self.busy[i].1.as_str(), sid) {
                return Some(i);
            }
            i = i + 1;
        }
        None
    }

    fn find_stop(&self, sid: &str) -> (r: Option<usize>)
        ensures
            match r {
                Some(i) => 0 <= i < self.stops@.len() && self.stops@[i as int]@ == sid@,
                None => !lists(self.stops@, sid@),
            },
    {
        let mut i: usize = 0;
        while i < self.stops.len()
            invariant
                i <= self.stops.len(),
                forall|j: int| 0 <= j < i ==> (#[trigger] self.stops@[j])@ != sid@,
            decreases self.stops.len() - i,
        {
            if str_eq(self.stops[i].as_str(), sid) {
                return Some(i);
            }
            i = i + 1;
        }
        None
    }

    /// Reserves every persona of `persona_ids` (id, name) for `session_id`.
    /// Fails with `Busy`, naming the first persona that is already in a
    /// session, and then reserves nobody.
    pub fn try_reserve(&mut self, persona_ids: &[(String, String)], session_id: &str) -> (r:
        AppResult<()>)
        requires
            old(self).wf(),
        ensures
            final(self).wf(),
            final(self).stop_list() == old(self).stop_list(),
            r is Ok <==> forall|j: int|
                0 <= j < persona_ids@.len() ==> !is_held(
                    old(self).entries(),
                    (#[trigger] persona_ids@[j]).0@,
                ),
            r is Ok ==> reserved(
                final(self).entries(),
                old(self).entries(),
                persona_ids@,
                session_id@,
            ),
            r is Err ==> *final(self) == *old(self),
            r is Err ==> fails_with(
                r,
                "busy"@,
                busy_message(
                    persona_ids@[first_from(persona_ids@, held_in(old(self).entries()), 0)].1@,
                ),
            ),
    {
        let ghost b0 = self.busy@;
        let ghost t0 = self.stops@;
        let n = persona_ids.len();
        let mut k: usize = 0;
        while k < n
            invariant
                n == persona_ids.len(),
                k <= n,
                self.busy@ == b0,
                self.stops@ == t0,
                unique_personas(b0),
                first_from(persona_ids@, held_in(b0), k as int) == first_from(
                    persona_ids@,
                    held_in(b0),
                    0,
                ),
                forall|j: int| 0 <= j < k ==> !is_held(b0, (#[trigger] persona_ids@[j]).0@),
            decreases n - k,
        {
            match self.find_persona(persona_ids[k].0.as_str()) {
                Some(_) => {
                    assert(held_in(b0)(persona_ids@[k as int]));
                    let mut m = String::from_str("「");
                    m.append(persona_ids[k].1.as_str());
                    m.append("」は別の会話に参加中です");
                    return Err(AppError::Busy(m));
                },
                None => {},
            }
            k = k + 1;
        }
        let mut k: usize = 0;
        while k < n
            invariant
                n == persona_ids.len(),
                k <= n,
                forall|j: int| 0 <= j < n ==> !is_held(b0, (#[trigger] persona_ids@[j]).0@),
                self.stops@ == t0,
                unique_personas(self.busy@),
                reserved(self.busy@, b0, persona_ids@.take(k as int), session_id@),
            decreases n - k,
        {
            let ghost before = self.busy@;
            let ghost pid = persona_ids@[k as int].0@;
            proof {
                assert forall|p: Seq<char>| #[trigger]
                    names_persona(persona_ids@.take(k + 1), p) <==> (names_persona(
                        persona_ids@.take(k as int),
                        p,
                    ) || pid == p) by {
                    lemma_names_take(persona_ids@, k as int, p);
                }
            }
            match self.find_persona(persona_ids[k].0.as_str()) {
                Some(i) => {
                    proof {
                        assert(records(before, i as int, pid));
                        assert(holds(before, pid, before[i as int].1@));
                        assert(!is_held(b0, pid));
                        assert(!holds(b0, pid, before[i as int].1@));
                        lemma_reserved_at(
                            before,
                            b0,
                            persona_ids@.take(k as int),
                            session_id@,
                            pid,
                            before[i as int].1@,
                        );
                        assert(names_persona(persona_ids@.take(k as int), pid));
                        assert forall|p: Seq<char>, s: Seq<char>|
                            #![trigger holds(self.busy@, p, s)]
                            holds(self.busy@, p, s) <==> (holds(b0, p, s) || (names_persona(
                                persona_ids@.take(k + 1),
                                p,
                            ) && s == session_id@)) by {
                            lemma_reserved_at(
                                before,
                                b0,
                                persona_ids@.take(k as int),
                                session_id@,
                                p,
                                s,
                            );
                            lemma_names_take(persona_ids@, k as int, p);
                            if p == pid {
                                assert(!holds(b0, pid, s));
                            }
                        }
                        assert(reserved(self.busy@, b0, persona_ids@.take(k + 1), session_id@));
                    }
                },
                None => {
                    self.busy.push((persona_ids[k].0.clone(), String::from_str(session_id)));
                    proof {
                        let e = self.busy@.last();
                        assert(self.busy@ == before.push(e));
                        assert forall|i: int, j: int|
                            0 <= i < self.busy@.len() && 0 <= j < self.busy@.len() && i != j implies (
                            #[trigger] self.busy@[i]).0@ != (#[trigger] self.busy@[j]).0@ by {
                            if i == before.len() {
                                assert(!records(before, j, pid));
                            } else if j == before.len() {
                                assert(!records(before, i, pid));
                            }
                        }
                        assert(e.0@ == pid);
                        assert(e.1@ == session_id@);
                        assert forall|p: Seq<char>, s: Seq<char>|
                            #![trigger holds(self.busy@, p, s)]
                            holds(self.busy@, p, s) <==> (holds(b0, p, s) || (names_persona(
                                persona_ids@.take(k + 1),
                                p,
                            ) && s == session_id@)) by {
                            lemma_reserved_at(
                                before,
                                b0,
                                persona_ids@.take(k as int),
                                session_id@,
                                p,
                                s,
                            );
                            lemma_holds_push(before, e, p, s);
                            lemma_names_take(persona_ids@, k as int, p);
                        }
                        assert(reserved(self.busy@, b0, persona_ids@.take(k + 1), session_id@));
                    }
                },
            }
            k = k + 1;
        }
        assert(persona_ids@.take(n as int) == persona_ids@);
        Ok(())
    }

    /// Frees every persona held by `session_id` and drops its stop flag.
    pub fn release_session(&mut self, session_id: &str)
        requires
            old(self).wf(),
        ensures
            final(self).wf(),
            forall|p: Seq<char>, s: Seq<char>|
                final(self).holds_for(p, s) <==> (old(self).holds_for(p, s) && s != session_id@),
            forall|s: Seq<char>|
                final(self).stop_requested(s) <==> (old(self).stop_requested(s) && s
                    != session_id@),
    {
        let ghost b0 = self.busy@;
        let ghost t0 = self.stops@;
        loop
            invariant
                self.stops@ == t0,
                unique_personas(self.busy@),
                forall|p: Seq<char>, s: Seq<char>|
                    s != session_id@ ==> (holds(self.busy@, p, s) <==> holds(b0, p, s)),
                forall|p: Seq<char>| holds(self.busy@, p, session_id@) ==> holds(b0, p, session_id@),
            ensures
                self.stops@ == t0,
                unique_personas(self.busy@),
                forall|p: Seq<char>, s: Seq<char>|
                    holds(self.busy@, p, s) <==> (holds(b0, p, s) && s != session_id@),
            decreases self.busy@.len(),
        {
            match self.find_session(session_id) {
                None => {
                    break;
                },
                Some(i) => {
                    let ghost before = self.busy@;
                    self.busy.remove(i);
                    proof {
                        assert forall|p: Seq<char>, s: Seq<char>|
                            holds(self.busy@, p, s) <==> (holds(before, p, s) && p
                                != before[i as int].0@) by {
                            lemma_holds_remove(before, i as int, p, s);
                        }
                        lemma_holds_remove(before, i as int, before[i as int].0@, session_id@);
                        assert forall|p: Seq<char>, s: Seq<char>|
                            s != session_id@ && p == before[i as int].0@ implies !holds(before, p, s) by {
                            assert(records(before, i as int, p));
                            if holds(before, p, s) {
                                let m = choose|m: int| #[trigger] records(before, m, p) && before[m].1@ == s;
                                assert(m != i);
                            }
                        }
                    }
                },
            }
        }
        let ghost b1 = self.busy@;
        loop
            invariant
                self.busy@ == b1,
                forall|s: Seq<char>|
                    s != session_id@ ==> (lists(self.stops@, s) <==> lists(t0, s)),
            ensures
                self.busy@ == b1,
                forall|s: Seq<char>|
                    lists(self.stops@, s) <==> (lists(t0, s) && s != session_id@),
            decreases self.stops@.len(),
        {
            match self.find_stop(session_id) {
                None => {
                    break;
                },
                Some(i) => {
                    let ghost before = self.stops@;
                    self.stops.remove(i);
                    proof {
                        assert forall|s: Seq<char>| s != session_id@ implies (lists(self.stops@, s)
                            <==> lists(before, s)) by {
                            lemma_lists_remove(before, i as int, s);
                        }
                    }
                },
            }
        }
    }

    /// Asks session `session_id` to stop.
    pub fn set_stop(&mut self, session_id: &str)
        requires
            old(self).wf(),
        ensures
            final(self).wf(),
            final(self).entries() == old(self).entries(),
            forall|s: Seq<char>|
                final(self).stop_requested(s) <==> (old(self).stop_requested(s) || s
                    == session_id@),
    {
        if self.find_stop(session_id).is_none() {
            let ghost before = self.stops@;
            self.stops.push(String::from_str(session_id));
            proof {
                assert forall|s: Seq<char>|
                    lists(self.stops@, s) <==> (lists(before, s) || s == session_id@) by {
                    lemma_lists_push(before, self.stops@.last(), s);
                    assert(self.stops@ == before.push(self.stops@.last()));
                }
            }
        }
    }

    /// Withdraws the stop request of session `session_id`.
    pub fn clear_stop(&mut self, session_id: &str)
        requires
            old(self).wf(),
        ensures
            final(self).wf(),
            final(self).entries() == old(self).entries(),
            forall|s: Seq<char>|
                final(self).stop_requested(s) <==> (old(self).stop_requested(s) && s
                    != session_id@),
    {
        let ghost t0 = self.stops@;
        loop
            invariant
                self.busy@ == old(self).busy@,
                unique_personas(self.busy@),
                forall|s: Seq<char>|
                    s != session_id@ ==> (lists(self.stops@, s) <==> lists(t0, s)),
            ensures
                self.busy@ == old(self).busy@,
                unique_personas(self.busy@),
                forall|s: Seq<char>|
                    lists(self.stops@, s) <==> (lists(t0, s) && s != session_id@),
            decreases self.stops@.len(),
        {
            match self.find_stop(session_id) {
                None => {
                    break;
                },
                Some(i) => {
                    let ghost before = self.stops@;
                    self.stops.remove(i);
                    proof {
                        assert forall|s: Seq<char>| s != session_id@ implies (lists(self.stops@, s)
                            <==> lists(before, s)) by {
                            lemma_lists_remove(before, i as int, s);
                        }
                    }
                },
            }
        }
    }

    /// Whether session `session_id` was asked to stop.
    pub fn is_stopped(&self, session_id: &str) -> (r: bool)
        ensures
            r == self.stop_requested(session_id@),
    {
        self.find_stop(session_id).is_some()
    }
}

/// A persona takes part in at most one session at a time.
pub proof fn law_one_session_per_persona(r: &SessionRegistry, pid: Seq<char>, s1: Seq<char>, s2: Seq<char>)
    requires
        r.wf(),
        r.holds_for(pid, s1),
        r.holds_for(pid, s2),
    ensures
        s1 == s2,
{
    let b = r.entries();
    let i = choose|i: int| #[trigger] records(b, i, pid) && b[i].1@ == s1;
    let j = choose|j: int| #[trigger] records(b, j, pid) && b[j].1@ == s2;
    if i != j {
        assert(b[i].0@ != b[j].0@);
    }
}

/// Releasing a session right after reserving its personas under a new
/// session id gives back exactly the holdings from before the reservation.
pub proof fn law_release_undoes_reserve(
    b0: Seq<(String, String)>,
    b1: Seq<(String, String)>,
    b2: Seq<(String, String)>,
    ids: Seq<(String, String)>,
    sid: Seq<char>,
)
    requires
        forall|p: Seq<char>| !holds(b0, p, sid),
        reserved(b1, b0, ids, sid),
        forall|p: Seq<char>, s: Seq<char>| holds(b2, p, s) <==> (holds(b1, p, s) && s != sid),
    ensures
        forall|p: Seq<char>, s: Seq<char>| holds(b2, p, s) <==> holds(b0, p, s),
{
    assert forall|p: Seq<char>, s: Seq<char>| holds(b2, p, s) <==> holds(b0, p, s) by {
        lemma_reserved_at(b1, b0, ids, sid, p, s);
        if s == sid {
            assert(!holds(b0, p, sid));
        }
    }
}

// ---------- opening and ending sessions ----------

/// Whether a session of kind `kind` may have `n` personas (`None` for an
/// unknown kind): one for a dialogue with the user, two to six for an
/// autonomous conversation or a group chat.
pub open spec fn count_allowed(kind: Seq<char>, n: int) -> Option<bool> {
    if kind == "user_dialogue"@ {
        Some(n == 1)
    } else if kind == "autonomous"@ {
        Some(2 <= n <= MAX_AUTONOMOUS_PARTICIPANTS)
    } else if kind == "group"@ {
        Some(2 <= n <= MAX_GROUP_PARTICIPANTS)
    } else {
        None
    }
}

/// The refusal text for a wrong number of personas.
pub open spec fn count_message() -> Seq<char> {
    "参加ペルソナ数が不正です (1対1対話は1体、自律会話・グループは2〜"@ + int_text(
        MAX_GROUP_PARTICIPANTS as int,
    ) + "体)"@
}

/// Checks the kind of a new session against the number of its personas.
pub fn check_session_request(kind: &str, persona_count: usize) -> (r: AppResult<()>)
    ensures
        count_allowed(kind@, persona_count as int) == Some(true) ==> r is Ok,
        count_allowed(kind@, persona_count as int) == Some(false) ==> fails_with(
            r,
            "validation"@,
            count_message(),
        ),
        count_allowed(kind@, persona_count as int) is None ==> fails_with(
            r,
            "validation"@,
            "不明なセッション種別: "@ + kind@,
        ),
{
    let known = str_eq(kind, "user_dialogue") || str_eq(kind, "autonomous") || str_eq(kind, "group");
    if !known {
        let mut m = String::from_str("不明なセッション種別: ");
        m.append(kind);
        return Err(AppError::Validation(m));
    }
    let ok = if str_eq(kind, "user_dialogue") {
        persona_count == 1
    } else if str_eq(kind, "autonomous") {
        2 <= persona_count && persona_count <= MAX_AUTONOMOUS_PARTICIPANTS as usize
    } else {
        2 <= persona_count && persona_count <= MAX_GROUP_PARTICIPANTS as usize
    };
    if ok {
        Ok(())
    } else {
        let mut m = String::from_str("参加ペルソナ数が不正です (1対1対話は1体、自律会話・グループは2〜");
        push_int(&mut m, MAX_GROUP_PARTICIPANTS as i64);
        m.append("体)");
        Err(AppError::Validation(m))
    }
}

/// The ids of `named` (id, name) pairs.
pub open spec fn ids_of(named: Seq<(String, String)>) -> Seq<Seq<char>> {
    Seq::new(named.len(), |i: int| named[i].0@)
}

/// The names of `named` (id, name) pairs.
pub open spec fn names_of(named: Seq<(String, String)>) -> Seq<Seq<char>> {
    Seq::new(named.len(), |i: int| named[i].1@)
}

/// The views of a list of strings.
pub open spec fn string_views(v: Seq<String>) -> Seq<Seq<char>> {
    Seq::new(v.len(), |i: int| v[i]@)
}

/// Opens a session of kind `kind` on `theme` with the personas `named`
/// (id, name), which it reserves in `registry` under a fresh id. The session
/// is active, started now and not ended. Fails, reserving nobody, when one of
/// the personas is already in a session.
pub fn open_session(
    kind: &str,
    theme: &str,
    named: &[(String, String)],
    registry: &mut SessionRegistry,
) -> (r: AppResult<Session>)
    requires
        old(registry).wf(),
    ensures
        final(registry).wf(),
        r is Ok <==> forall|j: int|
            0 <= j < named@.len() ==> !is_held(old(registry).entries(), (#[trigger] named@[j]).0@),
        r is Err ==> *final(registry) == *old(registry),
        r is Err ==> fails_with(
            r,
            "busy"@,
            busy_message(named@[first_from(named@, held_in(old(registry).entries()), 0)].1@),
        ),
        r matches Ok(s) ==> {
            &&& s.id@.len() == 36
            &&& s.kind@ == kind@
            &&& s.theme@ == theme@
            &&& s.status@ == "active"@
            &&& s.ended_at is None
            &&& string_views(s.participant_ids@) == ids_of(named@)
            &&& string_views(s.participant_names@) == names_of(named@)
            &&& reserved(final(registry).entries(), old(registry).entries(), named@, s.id@)
            &&& final(registry).stop_list() == old(registry).stop_list()
        },
{
    let mut ids: Vec<String> = Vec::new();
    let mut names: Vec<String> = Vec::new();
    let mut i: usize = 0;
    while i < named.len()
        invariant
            i <= named.len(),
            ids@.len() == i,
            names@.len() == i,
            forall|j: int| 0 <= j < i ==> (#[trigger] ids@[j])@ == named@[j].0@,
            forall|j: int| 0 <= j < i ==> (#[trigger] names@[j])@ == named@[j].1@,
        decreases named.len() - i,
    {
        ids.push(named[i].0.clone());
        names.push(named[i].1.clone());
        i = i + 1;
    }
    assert(string_views(ids@) == ids_of(named@));
    assert(string_views(names@) == names_of(named@));
    let session = Session {
        id: new_id(),
        kind: String::from_str(kind),
        theme: String::from_str(theme),
        status: String::from_str("active"),
        started_at: now_ms(),
        ended_at: None,
        participant_ids: ids,
        participant_names: names,
    };
    match registry.try_reserve(named, session.id.as_str()) {
        Ok(()) => Ok(session),
        Err(e) => Err(e),
    }
}

/// `s` is an active session of kind `kind`.
pub open spec fn active_of_kind(s: Session, kind: Seq<char>) -> bool {
    s.status@ == "active"@ && s.kind@ == kind
}

/// The session when it exists, is active and of kind `kind`; otherwise a
/// validation error with `message`.
pub fn require_active(session: Option<Session>, kind: &str, message: &str) -> (r: AppResult<
    Session,
>)
    ensures
        match session {
            Some(s) => if active_of_kind(s, kind@) {
                r == Ok::<Session, AppError>(s)
            } else {
                fails_with(r, "validation"@, message@)
            },
            None => fails_with(r, "validation"@, message@),
        },
{
    match session {
        Some(s) => {
            if str_eq(s.status.as_str(), "active") && str_eq(s.kind.as_str(), kind) {
                Ok(s)
            } else {
                Err(AppError::Validation(String::from_str(message)))
            }
        },
        None => Err(AppError::Validation(String::from_str(message))),
    }
}

/// Whether ending the session marks it ended (it is still active); a missing
/// session is `NotFound`.
pub fn ending_marks_ended(session: Option<&Session>) -> (r: AppResult<bool>)
    ensures
        session is None ==> fails_with(r, "not_found"@, "セッションが見つかりません"@),
        session matches Some(s) ==> r == Ok::<bool, AppError>(s.status@ == "active"@),
{
    match session {
        None => Err(AppError::NotFound(String::from_str("セッションが見つかりません"))),
        Some(s) => Ok(str_eq(s.status.as_str(), "active")),
    }
}

/// A complete utterance of the user in session `session_id`.
pub fn user_utterance(session_id: &str, text: &str) -> (r: Utterance)
    ensures
        r.id@.len() == 36,
        r.session_id@ == session_id@,
        r.speaker_kind@ == "user"@,
        r.speaker_id@ == "user"@,
        r.speaker_name@ == "ユーザー"@,
        r.content@ == text@,
        r.state@ == "complete"@,
{
    Utterance {
        id: new_id(),
        session_id: String::from_str(session_id),
        speaker_kind: String::from_str("user"),
        speaker_id: String::from_str("user"),
        speaker_name: String::from_str("ユーザー"),
        content: String::from_str(text),
        state: String::from_str("complete"),
        created_at: now_ms(),
    }
}

// ---------- one generated utterance ----------

/// Who the speaker talks to, as (kind, id, name).
pub open spec fn partners_spec(
    kind: Seq<char>,
    ids: Seq<String>,
    names: Seq<String>,
    speaker: Seq<char>,
) -> Seq<(Seq<char>, Seq<char>, Seq<char>)>
    decreases ids.len(),
{
    if kind == "user_dialogue"@ {
        seq![("user"@, "user"@, "ユーザー"@)]
    } else {
        others_spec(ids, names, speaker) + if kind == "group"@ {
            seq![("user"@, "user"@, "ユーザー"@)]
        } else {
            Seq::empty()
        }
    }
}

/// The other personas of a session: the pairs of `ids` and `names` (up to
/// the shorter of the two) whose id is not `speaker`.
pub open spec fn others_spec(ids: Seq<String>, names: Seq<String>, speaker: Seq<char>) -> Seq<
    (Seq<char>, Seq<char>, Seq<char>),
>
    decreases ids.len(),
{
    let n = if ids.len() < names.len() { ids.len() } else { names.len() };
    if n == 0 {
        Seq::empty()
    } else {
        let rest = others_spec(ids.take(n - 1), names.take(n - 1), speaker);
        if ids[n - 1]@ == speaker {
            rest
        } else {
            rest.push(("persona"@, ids[n - 1]@, names[n - 1]@))
        }
    }
}

/// One conversation partner of a speaker.
#[derive(Debug, Clone)]
pub struct PartnerTarget {
    /// "user" | "persona"
    pub kind: String,
    pub id: String,
    pub name: String,
}

/// The views of a list of partners.
pub open spec fn target_views(v: Seq<PartnerTarget>) -> Seq<(Seq<char>, Seq<char>, Seq<char>)> {
    Seq::new(v.len(), |i: int| (v[i].kind@, v[i].id@, v[i].name@))
}

fn user_partner() -> (r: PartnerTarget)
    ensures
        (r.kind@, r.id@, r.name@) == ("user"@, "user"@, "ユーザー"@),
{
    PartnerTarget {
        kind: String::from_str("user"),
        id: String::from_str("user"),
        name: String::from_str("ユーザー"),
    }
}

/// Whom `speaker_id` talks to in `session`: the user in a dialogue; every
/// other participant in an autonomous conversation; every other participant
/// and then the user in a group chat.
pub fn conversation_partners(session: &Session, speaker_id: &str) -> (r: Vec<PartnerTarget>)
    ensures
        target_views(r@) == partners_spec(
            session.kind@,
            session.participant_ids@,
            session.participant_names@,
            speaker_id@,
        ),
{
    let mut out: Vec<PartnerTarget> = Vec::new();
    if str_eq(session.kind.as_str(), "user_dialogue") {
        out.push(user_partner());
        assert(target_views(out@) == seq![("user"@, "user"@, "ユーザー"@)]);
        return out;
    }
    let ids = &session.participant_ids;
    let names = &session.participant_names;
    let n = if ids.len() < names.len() { ids.len() } else { names.len() };
    let mut i: usize = 0;
    while i < n
        invariant
            n <= ids.len(),
            n <= names.len(),
            n == ids.len() || n == names.len(),
            i <= n,
            target_views(out@) == others_spec(ids@.take(i as int), names@.take(i as int), speaker_id@),
        decreases n - i,
    {
        assert(ids@.take(i + 1).take(i as int) == ids@.take(i as int));
        assert(names@.take(i + 1).take(i as int) == names@.take(i as int));
        if !str_eq(ids[i].as_str(), speaker_id) {
            let ghost before = out@;
            out.push(PartnerTarget {
                kind: String::from_str("persona"),
                id: ids[i].clone(),
                name: names[i].clone(),
            });
            assert(target_views(out@) == target_views(before).push(
                ("persona"@, ids@[i as int]@, names@[i as int]@),
            ));
        }
        i = i + 1;
    }
    proof {
        if ids@.len() <= names@.len() {
            assert(ids@.take(n as int) == ids@);
            assert(others_spec(ids@, names@.take(n as int), speaker_id@) == others_spec(
                ids@,
                names@,
                speaker_id@,
            )) by {
                lemma_others_trim(ids@, names@, speaker_id@);
            }
        } else {
            assert(names@.take(n as int) == names@);
            lemma_others_trim(ids@, names@, speaker_id@);
        }
    }
    if str_eq(session.kind.as_str(), "group") {
        let ghost before = out@;
        out.push(user_partner());
        assert(target_views(out@) == target_views(before).push(("user"@, "user"@, "ユーザー"@)));
    }
    assert(target_views(out@) == partners_spec(
        session.kind@,
        session.participant_ids@,
        session.participant_names@,
        speaker_id@,
    ));
    out
}

/// Only the common length of the two lists matters.
proof fn lemma_others_trim(ids: Seq<String>, names: Seq<String>, speaker: Seq<char>)
    ensures
        others_spec(ids, names, speaker) == others_spec(
            ids.take(if ids.len() < names.len() { ids.len() as int } else { names.len() as int }),
            names.take(if ids.len() < names.len() { ids.len() as int } else { names.len() as int }),
            speaker,
        ),
{
    let n = if ids.len() < names.len() { ids.len() as int } else { names.len() as int };
    let a = ids.take(n);
    let b = names.take(n);
    if n > 0 {
        assert(a.take(n - 1) == ids.take(n - 1));
        assert(b.take(n - 1) == names.take(n - 1));
        assert(a[n - 1] == ids[n - 1]);
        assert(b[n - 1] == names[n - 1]);
    }
}

/// The recall query: the contents of the last three utterances, newest
/// first, one per line.
pub open spec fn recall_query_spec(h: Seq<Utterance>) -> Seq<char>
    decreases h.len(),
{
    recent_lines(h, if h.len() < 3 { h.len() as int } else { 3 })
}

/// The contents of the last `k` utterances of `h`, newest first, joined by
/// line feeds.
pub open spec fn recent_lines(h: Seq<Utterance>, k: int) -> Seq<char>
    decreases k,
{
    if k <= 0 || h.len() == 0 {
        Seq::empty()
    } else if k == 1 {
        h.last().content@
    } else {
        h.last().content@ + "\n"@ + recent_lines(h.drop_last(), k - 1)
    }
}

/// `k` more lines of `h` (newest first), each preceded by a line feed.
pub open spec fn more_lines(h: Seq<Utterance>, k: int) -> Seq<char> {
    if k <= 0 {
        Seq::empty()
    } else {
        "\n"@ + recent_lines(h, k)
    }
}

/// Builds the recall query from the history.
#[verifier::rlimit(40)]
#[verifier::spinoff_prover]
pub fn recall_query(history: &[Utterance]) -> (r: String)
    ensures
        r@ == recall_query_spec(history@),
{
    let n = history.len();
    let k: usize = if n < 3 { n } else { 3 };
    if k == 0 {
        return String::new();
    }
    let mut out = String::new();
    out.append(history[n - 1].content.as_str());
    proof {
        assert(history@.take(n as int) == history@);
        assert(history@.drop_last() == history@.take(n - 1));
    }
    let mut j: usize = 1;
    while j < k
        invariant
            n == history.len(),
            1 <= k <= n,
            k <= 3,
            1 <= j <= k,
            recent_lines(history@, k as int) == out@ + more_lines(history@.take(n - j), k - j),
        decreases k - j,
    {
        let ghost h = history@.take(n - j);
        assert(h.last() == history@[n - j - 1]);
        assert(h.drop_last() == history@.take(n - j - 1));
        let ghost before = out@;
        out.append("\n");
        out.append(history[n - j - 1].content.as_str());
        assert(more_lines(h, k - j) == "\n"@ + history@[n - j - 1].content@ + more_lines(
            history@.take(n - j - 1),
            k - j - 1,
        ));
        assert(out@ == before + "\n"@ + history@[n - j - 1].content@);
        j = j + 1;
    }
    out
}

/// What a finished generation leaves: the state of the utterance to save, or
/// a generation error when the model completed with nothing but blanks.
pub fn completion_state(canceled: bool, text: &str) -> (r: AppResult<&'static str>)
    ensures
        !canceled && trim_seq(text@).len() == 0 ==> fails_with(r, "generation"@, "応答が空でした"@),
        canceled ==> (r matches Ok(st) && st@ == "canceled"@),
        !canceled && trim_seq(text@).len() > 0 ==> (r matches Ok(st) && st@ == "complete"@),
{
    if canceled {
        return Ok("canceled");
    }
    let t = trim_vec(&chars_of(text));
    if t.len() == 0 {
        Err(AppError::Generation(String::from_str("応答が空でした")))
    } else {
        Ok("complete")
    }
}

/// The application error a failed inference call becomes.
pub fn generation_error(e: InferError) -> (r: AppError)
    ensures
        match e {
            InferError::Connection(m) => r == AppError::Connection(m),
            InferError::Generation(m) => r == AppError::Generation(m),
        },
{
    match e {
        InferError::Connection(m) => AppError::Connection(m),
        InferError::Generation(m) => AppError::Generation(m),
    }
}

/// What a finished generation leads to: the utterance to store (its text and
/// state), or the failure with the notice the front end is sent (its kind and
/// message).
#[derive(Debug)]
pub enum ReplyOutcome {
    Store { text: String, state: &'static str },
    Fail { error: AppError, kind: &'static str, message: String },
}

/// The notice of an empty completion.
pub const EMPTY_REPLY_NOTICE: &'static str = "応答が空でした。モデルの思考がトークン上限を使い切った可能性があります。もう一度送信してください";

/// Decides what a finished generation leads to. An engine failure fails with
/// its own kind and its display text as the notice; a completion that is not
/// canceled and holds nothing but blanks fails as a generation error; any
/// other completion is stored with its text, as canceled or complete.
pub fn reply_outcome(result: Result<StreamOutcome, InferError>) -> (r: ReplyOutcome)
    ensures
        match result {
            Err(e) => r matches ReplyOutcome::Fail { error, kind, message } && {
                &&& error == match e {
                    InferError::Connection(m) => AppError::Connection(m),
                    InferError::Generation(m) => AppError::Generation(m),
                }
                &&& kind@ == kind_spec(error)
                &&& message@ == infer_error_text(e)
            },
            Ok(o) => if !o.canceled && trim_seq(o.text@).len() == 0 {
                r matches ReplyOutcome::Fail { error, kind, message } && {
                    &&& kind_spec(error) == "generation"@
                    &&& message_spec(error) == "応答が空でした"@
                    &&& kind@ == "generation"@
                    &&& message@ == EMPTY_REPLY_NOTICE@
                }
            } else {
                r matches ReplyOutcome::Store { text, state } && text@ == o.text@ && state@ == (
                if o.canceled {
                    "canceled"@
                } else {
                    "complete"@
                })
            },
        },
{
    match result {
        Err(e) => {
            let message = e.text();
            let error = generation_error(e);
            let kind = error.kind();
            ReplyOutcome::Fail { error, kind, message }
        },
        Ok(o) => match completion_state(o.canceled, o.text.as_str()) {
            Ok(state) => ReplyOutcome::Store { text: o.text, state },
            Err(error) => {
                let kind = error.kind();
                ReplyOutcome::Fail { error, kind, message: String::from_str(EMPTY_REPLY_NOTICE) }
            },
        },
    }
}

// ---------- the autonomous conversation ----------

/// The number of turns of an autonomous conversation: the setting, kept
/// between 2 and `AUTO_TURN_HARD_MAX`.
pub fn auto_turn_limit(setting: i64) -> (r: i64)
    ensures
        r == clamp_spec(setting as int, 2, AUTO_TURN_HARD_MAX as int),
        2 <= r <= AUTO_TURN_HARD_MAX,
{
    clamp_i64(setting, 2, AUTO_TURN_HARD_MAX)
}

/// The progress of an autonomous conversation: its speakers take turns in
/// their registration order, round robin, until the turn limit, a stop
/// request, or two failed generations in a row.
#[derive(Debug, Clone)]
pub struct AutonomousRun {
    /// Number of turns allowed.
    pub limit: i64,
    /// Turns taken so far.
    pub turn: i64,
    /// Failed generations since the last success.
    pub failures: i64,
    /// Topic changes inserted so far.
    pub topic_shifts: i64,
    /// Number of speakers.
    pub speakers: usize,
}

impl AutonomousRun {
    /// Well-formedness: the counters stay within their bounds.
    pub open spec fn wf(&self) -> bool {
        &&& 2 <= self.limit <= AUTO_TURN_HARD_MAX
        &&& 0 <= self.turn <= self.limit
        &&& 0 <= self.failures <= 2
        &&& 0 <= self.topic_shifts
        &&& self.speakers > 0
    }

    /// The run is over.
    pub open spec fn finished(&self, stopped: bool) -> bool {
        stopped || self.turn >= self.limit || self.failures >= 2
    }

    /// A run for `speakers` speakers under the turn-limit setting.
    pub fn new(turn_limit_setting: i64, speakers: usize) -> (r: AutonomousRun)
        requires
            speakers > 0,
        ensures
            r.wf(),
            r.limit == clamp_spec(turn_limit_setting as int, 2, AUTO_TURN_HARD_MAX as int),
            r.turn == 0,
            r.failures == 0,
            r.topic_shifts == 0,
            r.speakers == speakers,
    {
        AutonomousRun {
            limit: auto_turn_limit(turn_limit_setting),
            turn: 0,
            failures: 0,
            topic_shifts: 0,
            speakers,
        }
    }

    /// The index of the next speaker, or `None` when the run is over
    /// (`stopped` tells whether a stop was requested).
    pub fn next_speaker(&self, stopped: bool) -> (r: Option<usize>)
        requires
            self.wf(),
        ensures
            self.finished(stopped) ==> r is None,
            !self.finished(stopped) ==> r == Some((self.turn as int % self.speakers as int) as usize),
    {
        if stopped || self.turn >= self.limit || self.failures >= 2 {
            None
        } else {
            Some((self.turn as usize) % self.speakers)
        }
    }

    /// Records the outcome of a turn's generation.
    pub fn record_reply(&mut self, ok: bool)
        requires
            old(self).wf(),
            old(self).turn < old(self).limit,
            old(self).failures < 2,
        ensures
            final(self).wf(),
            final(self).turn == old(self).turn + 1,
            final(self).failures == if ok { 0 } else { old(self).failures + 1 },
            final(self).limit == old(self).limit,
            final(self).speakers == old(self).speakers,
            final(self).topic_shifts == old(self).topic_shifts,
            ok ==> successful_turn(*old(self), *final(self)),
    {
        self.turn = self.turn + 1;
        if ok {
            self.failures = 0;
        } else {
            self.failures = self.failures + 1;
        }
    }

    /// Whether another topic change may be inserted.
    pub fn may_shift_topic(&self, topic_shift_limit: i64) -> (r: bool)
        ensures
            r == (self.topic_shifts < topic_shift_limit),
    {
        self.topic_shifts < topic_shift_limit
    }

    /// Records an inserted topic change.
    pub fn record_topic_shift(&mut self, topic_shift_limit: i64)
        requires
            old(self).wf(),
            old(self).topic_shifts < topic_shift_limit,
        ensures
            final(self).wf(),
            final(self).topic_shifts == old(self).topic_shifts + 1,
            final(self).topic_shifts <= topic_shift_limit,
            final(self).turn == old(self).turn,
            final(self).failures == old(self).failures,
            final(self).limit == old(self).limit,
            final(self).speakers == old(self).speakers,
    {
        self.topic_shifts = self.topic_shifts + 1;
    }
}

/// `after` is `before` after a turn whose generation succeeded.
pub open spec fn successful_turn(before: AutonomousRun, after: AutonomousRun) -> bool {
    &&& after.wf()
    &&& after.turn == before.turn + 1
    &&& after.failures == 0
    &&& after.limit == before.limit
    &&& after.speakers == before.speakers
}

/// In the sequence of run states, the turn after `states[k]` was taken while
/// the run was not over, and its generation succeeded.
pub open spec fn turn_taken(states: Seq<AutonomousRun>, k: int) -> bool {
    !states[k].finished(false) && successful_turn(states[k], states[k + 1])
}

proof fn lemma_run_turns(states: Seq<AutonomousRun>, t: int)
    requires
        states.len() >= 1,
        states[0].turn == 0,
        states[0].failures == 0,
        0 <= t < states.len(),
        forall|k: int| 0 <= k < states.len() - 1 ==> #[trigger] turn_taken(states, k),
    ensures
        states[t].turn == t,
        states[t].failures == 0,
        states[t].limit == states[0].limit,
        states[t].speakers == states[0].speakers,
    decreases t,
{
    if t > 0 {
        lemma_run_turns(states, t - 1);
        assert(turn_taken(states, t - 1));
    }
}

/// A new autonomous run in which no stop is requested and every generation
/// succeeds goes through exactly `limit` turns, turn `t` given to speaker
/// `t mod speakers`, and is then over. `states[t]` is the run after `t`
/// turns; `states` holds as many states as the run reaches.
pub proof fn law_autonomous_full_run(states: Seq<AutonomousRun>)
    requires
        states.len() >= 1,
        states[0].wf(),
        states[0].turn == 0,
        states[0].failures == 0,
        forall|k: int| 0 <= k < states.len() - 1 ==> #[trigger] turn_taken(states, k),
    ensures
        states.len() - 1 <= states[0].limit,
        forall|t: int|
            0 <= t < states.len() ==> (#[trigger] states[t]).turn == t && (t < states[0].limit
                ==> !states[t].finished(false) && (states[t].turn as int) % (
            states[t].speakers as int) == t % (states[0].speakers as int)),
        states[states.len() - 1].turn == states[0].limit ==> states[states.len() - 1].finished(
            false,
        ),
{
    assert forall|t: int| 0 <= t < states.len() implies (#[trigger] states[t]).turn == t && (t
        < states[0].limit ==> !states[t].finished(false) && (states[t].turn as int) % (
    states[t].speakers as int) == t % (states[0].speakers as int)) by {
        lemma_run_turns(states, t);
    }
    let last = states.len() - 1;
    lemma_run_turns(states, last);
    if last > 0 {
        assert(turn_taken(states, last - 1));
        lemma_run_turns(states, last - 1);
    }
}

/// An autonomous conversation never takes more turns than its limit, which
/// is at most `AUTO_TURN_HARD_MAX`, and gives turn `t` to speaker
/// `t mod speakers`.
pub proof fn law_autonomous_bounded(run: AutonomousRun)
    requires
        run.wf(),
    ensures
        run.turn <= run.limit <= AUTO_TURN_HARD_MAX,
        0 <= (run.turn as int) % (run.speakers as int) < run.speakers,
{
}

/// Two failed generations in a row end an autonomous conversation.
pub proof fn law_autonomous_two_failures(before: AutonomousRun, after: AutonomousRun, stopped: bool)
    requires
        before.wf(),
        before.failures == 1,
        after.failures == before.failures + 1,
    ensures
        after.finished(stopped),
{
}

// ---------- the group chain ----------

/// The persona named by the user for the first reply, when it takes part.
pub fn named_first_speaker(target: Option<&str>, participants: &[(String, String)]) -> (r: Option<
    String,
>)
    ensures
        match target {
            Some(t) => if names_persona(participants@, t@) {
                r matches Some(x) && x@ == t@
            } else {
                r is None
            },
            None => r is None,
        },
{
    match target {
        None => None,
        Some(t) => {
            let mut i: usize = 0;
            while i < participants.len()
                invariant
                    target == Some(t),
                    i <= participants.len(),
                    forall|j: int| 0 <= j < i ==> (#[trigger] participants@[j]).0@ != t@,
                decreases participants.len() - i,
            {
                if str_eq(participants[i].0.as_str(), t) {
                    assert(participants@[i as int].0@ == t@);
                    return Some(String::from_str(t));
                }
                i = i + 1;
            }
            None
        },
    }
}

/// The group chain may add a follow-up reply after `chained` of them.
pub open spec fn chain_allows(chained: int, chain_limit: int, stopped: bool) -> bool {
    chained < chain_limit && !stopped
}

/// Whether the group chain goes on after `chained` follow-up replies: below
/// the chain limit and not interrupted by the user.
pub fn chain_continues(chained: i64, chain_limit: i64, stopped: bool) -> (r: bool)
    ensures
        r == chain_allows(chained as int, chain_limit as int, stopped),
{
    chained < chain_limit && !stopped
}

/// The `k`-th follow-up of a chain was allowed and counted.
pub open spec fn follow_up_made(counts: Seq<int>, stops: Seq<bool>, chain_limit: int, k: int) -> bool {
    chain_allows(counts[k], chain_limit, stops[k]) && counts[k + 1] == counts[k] + 1
}

proof fn lemma_chain_counts(counts: Seq<int>, stops: Seq<bool>, chain_limit: int, t: int)
    requires
        counts.len() >= 1,
        counts[0] == 0,
        0 <= t < counts.len(),
        forall|k: int|
            0 <= k < counts.len() - 1 ==> #[trigger] follow_up_made(counts, stops, chain_limit, k),
    ensures
        counts[t] == t,
    decreases t,
{
    if t > 0 {
        lemma_chain_counts(counts, stops, chain_limit, t - 1);
        assert(follow_up_made(counts, stops, chain_limit, t - 1));
    }
}

/// A group chain starts with one reply and adds a follow-up only while the
/// chain allows it, so it gives at most `1 + max(chain_limit, 0)` persona
/// replies. `counts[k]` is the number of follow-ups after `k` of them were
/// made; `stops[k]` tells whether the user interrupted before the next.
pub proof fn law_chain_bounded(counts: Seq<int>, stops: Seq<bool>, chain_limit: int)
    requires
        counts.len() >= 1,
        counts[0] == 0,
        stops.len() == counts.len(),
        forall|k: int|
            0 <= k < counts.len() - 1 ==> #[trigger] follow_up_made(counts, stops, chain_limit, k),
    ensures
        1 + (counts.len() - 1) <= 1 + (if chain_limit > 0 { chain_limit } else { 0 }),
{
    let last = counts.len() - 1;
    if last > 0 {
        lemma_chain_counts(counts, stops, chain_limit, last - 1);
        assert(follow_up_made(counts, stops, chain_limit, last - 1));
    }
}

// ---------- greetings ----------

/// A greeting is considered at all: greetings are enabled and the session has
/// no utterance yet.
pub fn greeting_wanted(enabled: bool, has_utterances: bool) -> (r: bool)
    ensures
        r == (enabled && !has_utterances),
{
    enabled && !has_utterances
}

/// Whole minutes since the last greeting (none before it counts as zero).
pub open spec fn minutes_since(last: int, now: int) -> int {
    if now - last < 0 {
        0
    } else {
        (now - last) / 60_000
    }
}

/// The greeting interval has passed: there was no greeting before, or at
/// least `interval_min` whole minutes passed since the last one.
pub fn greeting_interval_passed(last_greeting_at: Option<i64>, now: i64, interval_min: i64) -> (r:
    bool)
    requires
        last_greeting_at matches Some(l) ==> i64::MIN <= now - l <= i64::MAX,
    ensures
        r == match last_greeting_at {
            Some(l) => minutes_since(l as int, now as int) >= interval_min,
            None => true,
        },
{
    match last_greeting_at {
        None => true,
        Some(l) => {
            let d = now - l;
            let elapsed = if d < 0 { 0 } else { d / 60_000 };
            elapsed >= interval_min
        },
    }
}


/// A dialogue with the user takes exactly one persona; an autonomous
/// conversation and a group chat each take any number from two to six; any
/// other kind is unknown.
pub proof fn law_session_counts(n: int)
    ensures
        count_allowed("user_dialogue"@, n) == Some(n == 1),
        count_allowed("autonomous"@, n) == Some(2 <= n && n <= 6),
        count_allowed("group"@, n) == Some(2 <= n && n <= 6),
{
    reveal_strlit("user_dialogue");
    reveal_strlit("autonomous");
    reveal_strlit("group");
    assert("autonomous"@.len() != "user_dialogue"@.len());
    assert("group"@.len() != "user_dialogue"@.len() && "group"@.len() != "autonomous"@.len());
    assert(MAX_AUTONOMOUS_PARTICIPANTS == 6 && MAX_GROUP_PARTICIPANTS == 6);
}

} // verus!
