//! Personality arithmetic: trait axes, intimacy, impressions and mood.
//!
//! The language model proposes changes; the caps of the settings are enforced
//! here, never by the model.

use vstd::prelude::*;

use crate::models::{MoodEvent, PersonalityEvent, Relationship, Settings, TraitValue, MOOD_MAX, MOOD_MIN, MOOD_NEUTRAL_BAND};
use crate::text::{chars_of, clamp_i64, clamp_spec, int_text, int_to_string, owned, push_chars, str_eq, trim_seq, trim_vec};

verus! {

/// Number of personality axes.
pub const TRAIT_KEY_COUNT: usize = 5;

pub const DEFAULT_TRAIT_VALUE: i64 = 50;

pub const DEFAULT_INTIMACY: i64 = 20;

/// The axes, in their fixed order.
pub open spec fn trait_key_spec(i: int) -> Seq<char> {
    if i == 0 {
        "sociability"@
    } else if i == 1 {
        "empathy"@
    } else if i == 2 {
        "caution"@
    } else if i == 3 {
        "assertiveness"@
    } else {
        "cheerfulness"@
    }
}

/// Japanese display label of each axis.
pub open spec fn trait_label_of(i: int) -> Seq<char> {
    if i == 0 {
        "社交性"@
    } else if i == 1 {
        "共感性"@
    } else if i == 2 {
        "慎重さ"@
    } else if i == 3 {
        "自己主張"@
    } else {
        "明朗さ"@
    }
}

/// `k` names one of the axes.
pub open spec fn is_trait_key(k: Seq<char>) -> bool {
    exists|i: int| 0 <= i < 5 && trait_key_spec(i) == k
}

/// Index of the first axis named `k`, counting from `i`.
pub open spec fn trait_index_from(k: Seq<char>, i: int) -> int
    decreases 5 - i,
{
    if i >= 5 {
        5
    } else if trait_key_spec(i) == k {
        i
    } else {
        trait_index_from(k, i + 1)
    }
}

pub open spec fn trait_index(k: Seq<char>) -> int {
    trait_index_from(k, 0)
}

/// The label of an axis, or the key itself for an unknown key.
pub open spec fn trait_label_spec(k: Seq<char>) -> Seq<char> {
    if trait_index(k) < 5 {
        trait_label_of(trait_index(k))
    } else {
        k
    }
}

pub proof fn lemma_trait_index(k: Seq<char>, i: int)
    requires
        0 <= i <= 5,
    ensures
        i <= trait_index_from(k, i) <= 5,
        trait_index_from(k, i) < 5 ==> trait_key_spec(trait_index_from(k, i)) == k,
        trait_index_from(k, i) == 5 ==> forall|j: int| i <= j < 5 ==> trait_key_spec(j) != k,
    decreases 5 - i,
{
    if i < 5 && trait_key_spec(i) != k {
        lemma_trait_index(k, i + 1);
    }
}

pub proof fn lemma_is_trait_key(k: Seq<char>)
    ensures
        is_trait_key(k) <==> trait_index(k) < 5,
{
    lemma_trait_index(k, 0);
}

/// The axis key at position `i`.
pub fn trait_key(i: usize) -> (r: &'static str)
    requires
        i < 5,
    ensures
        r@ == trait_key_spec(i as int),
{
    if i == 0 {
        "sociability"
    } else if i == 1 {
        "empathy"
    } else if i == 2 {
        "caution"
    } else if i == 3 {
        "assertiveness"
    } else {
        "cheerfulness"
    }
}

fn trait_label_at(i: usize) -> (r: &'static str)
    requires
        i < 5,
    ensures
        r@ == trait_label_of(i as int),
{
    if i == 0 {
        "社交性"
    } else if i == 1 {
        "共感性"
    } else if i == 2 {
        "慎重さ"
    } else if i == 3 {
        "自己主張"
    } else {
        "明朗さ"
    }
}

/// Position of the axis named `key`, or 5 when there is none.
pub fn trait_index_of(key: &str) -> (r: usize)
    ensures
        r as int == trait_index(key@),
        r <= 5,
{
    proof {
        lemma_trait_index(key@, 0);
    }
    let mut i: usize = 0;
    while i < 5
        invariant
            i <= 5,
            trait_index_from(key@, i as int) == trait_index(key@),
        decreases 5 - i,
    {
        if str_eq(trait_key(i), key) {
            return i;
        }
        i = i + 1;
    }
    5
}

/// Japanese label of an axis; an unknown key is returned as it is.
pub fn trait_label_ja(key: &str) -> (r: &str)
    ensures
        r@ == trait_label_spec(key@),
{
    let i = trait_index_of(key);
    if i < 5 {
        trait_label_at(i)
    } else {
        key
    }
}

/// `delta` limited to `[-|cap|, |cap|]`.
pub open spec fn clamp_delta_spec(delta: int, cap: int) -> int {
    let c = if cap < 0 {
        -cap
    } else {
        cap
    };
    clamp_spec(delta, -c, c)
}

/// Limits a proposed change to the cap (the cap's sign is ignored).
pub fn clamp_delta(delta: i64, cap: i64) -> (r: i64)
    requires
        cap != i64::MIN,
    ensures
        r == clamp_delta_spec(delta as int, cap as int),
{
    let c = if cap < 0 {
        -cap
    } else {
        cap
    };
    clamp_i64(delta, -c, c)
}

/// Limits a trait or intimacy value to `[0, 100]`.
pub fn clamp_value(v: i64) -> (r: i64)
    ensures
        r == clamp_spec(v as int, 0, 100),
{
    clamp_i64(v, 0, 100)
}

/// One partner's assessment proposed by the language model.
#[derive(Debug, Clone)]
pub struct PartnerAssessment {
    pub intimacy_delta: i64,
    pub impression: Option<String>,
}

// ---------- trait axes ----------

/// Value of the first entry named `key` in `current`.
pub open spec fn trait_value_in(current: Seq<TraitValue>, key: Seq<char>) -> Option<i64>
    decreases current.len(),
{
    if current.len() == 0 {
        None
    } else if current[0].key@ == key {
        Some(current[0].value)
    } else {
        trait_value_in(current.drop_first(), key)
    }
}

/// Value before the change: the stored one, or the default for a missing axis.
pub open spec fn trait_old(current: Seq<TraitValue>, key: Seq<char>) -> int {
    match trait_value_in(current, key) {
        Some(v) => v as int,
        None => DEFAULT_TRAIT_VALUE as int,
    }
}

/// Result of one proposed change: `Some((old, new))` when the axis is known and
/// the clamped value differs from the old one.
pub open spec fn trait_step(current: Seq<TraitValue>, key: Seq<char>, raw: int, cap: int) -> Option<(int, int)> {
    if !is_trait_key(key) {
        None
    } else {
        let old = trait_old(current, key);
        let new = clamp_spec(old + clamp_delta_spec(raw, cap), 0, 100);
        if new == old {
            None
        } else {
            Some((old, new))
        }
    }
}

/// The changes made by a list of proposals, in proposal order: (key, old, new).
pub open spec fn trait_plan(current: Seq<TraitValue>, deltas: Seq<(String, i64)>, cap: int) -> Seq<(Seq<char>, int, int)>
    decreases deltas.len(),
{
    if deltas.len() == 0 {
        Seq::empty()
    } else {
        let rest = trait_plan(current, deltas.drop_last(), cap);
        let (k, d) = deltas.last();
        match trait_step(current, k@, d as int, cap) {
            Some((o, n)) => rest.push((k@, o, n)),
            None => rest,
        }
    }
}

/// Every proposal for a known axis can be added to the old value without overflow.
pub open spec fn trait_deltas_fit(current: Seq<TraitValue>, deltas: Seq<(String, i64)>, cap: int) -> bool {
    forall|i: int|
        0 <= i < deltas.len() && is_trait_key(#[trigger] deltas[i].0@) ==> i64::MIN <= trait_old(
            current,
            deltas[i].0@,
        ) + clamp_delta_spec(deltas[i].1 as int, cap) <= i64::MAX
}

fn trait_value_lookup(current: &[TraitValue], key: &str) -> (r: Option<i64>)
    ensures
        r == trait_value_in(current@, key@),
{
    let mut i: usize = 0;
    assert(current@.skip(0) == current@);
    while i < current.len()
        invariant
            i <= current.len(),
            trait_value_in(current@, key@) == trait_value_in(current@.skip(i as int), key@),
        decreases current.len() - i,
    {
        assert(current@.skip(i as int).drop_first() == current@.skip(i + 1));
        if str_eq(current[i].key.as_str(), key) {
            return Some(current[i].value);
        }
        i = i + 1;
    }
    None
}

/// The item text of a personality event: `prefix` followed by `name`.
pub fn event_item(prefix: &str, name: &str) -> (r: String)
    ensures
        r@ == prefix@ + name@,
{
    let mut s = owned(prefix);
    s.append(name);
    s
}

/// A change of a trait axis: the stored value to write and the event to append.
#[derive(Debug)]
pub struct TraitChange {
    pub write: TraitValue,
    pub event: PersonalityEvent,
}

/// `c` carries the planned change `p` for the given persona, session and time.
pub open spec fn change_matches(
    c: TraitChange,
    p: (Seq<char>, int, int),
    persona_id: Seq<char>,
    session_id: Seq<char>,
    now: int,
) -> bool {
    &&& c.write.key@ == p.0
    &&& c.write.value == p.2
    &&& c.event.persona_id@ == persona_id
    &&& c.event.session_id matches Some(s) && s@ == session_id
    &&& c.event.item@ == "trait:"@ + p.0
    &&& c.event.old_value@ == int_text(p.1)
    &&& c.event.new_value@ == int_text(p.2)
    &&& c.event.created_at == now
}

/// Applies proposed trait-axis changes with the cap of the settings.
///
/// Unknown axes are ignored; each change is limited to the cap and the value to
/// `[0, 100]`; a change that leaves the value as it was produces nothing. Each
/// produced change carries the value to store and the event to append.
pub fn apply_trait_deltas(
    current: &[TraitValue],
    persona_id: &str,
    session_id: &str,
    deltas: &[(String, i64)],
    settings: &Settings,
    now_ms: i64,
) -> (r: Vec<TraitChange>)
    requires
        settings.trait_delta_cap != i64::MIN,
        trait_deltas_fit(current@, deltas@, settings.trait_delta_cap as int),
    ensures
        r@.len() == trait_plan(current@, deltas@, settings.trait_delta_cap as int).len(),
        forall|i: int|
            0 <= i < r@.len() ==> change_matches(
                #[trigger] r@[i],
                trait_plan(current@, deltas@, settings.trait_delta_cap as int)[i],
                persona_id@,
                session_id@,
                now_ms as int,
            ),
{
    let cap = settings.trait_delta_cap;
    let mut out: Vec<TraitChange> = Vec::new();
    let mut i: usize = 0;
    while i < deltas.len()
        invariant
            i <= deltas.len(),
            cap == settings.trait_delta_cap,
            cap != i64::MIN,
            trait_deltas_fit(current@, deltas@, cap as int),
            out@.len() == trait_plan(current@, deltas@.take(i as int), cap as int).len(),
            forall|j: int|
                0 <= j < out@.len() ==> change_matches(
                    #[trigger] out@[j],
                    trait_plan(current@, deltas@.take(i as int), cap as int)[j],
                    persona_id@,
                    session_id@,
                    now_ms as int,
                ),
        decreases deltas.len() - i,
    {
        assert(deltas@.take(i + 1).drop_last() == deltas@.take(i as int));
        assert(deltas@.take(i + 1).last() == deltas@[i as int]);
        let key = deltas[i].0.as_str();
        let raw = deltas[i].1;
        proof {
            lemma_is_trait_key(key@);
        }
        let idx = trait_index_of(key);
        let ghost prev = trait_plan(current@, deltas@.take(i as int), cap as int);
        assert(trait_plan(current@, deltas@.take(i + 1), cap as int) == match trait_step(
            current@,
            key@,
            raw as int,
            cap as int,
        ) {
            Some((o, n)) => prev.push((key@, o, n)),
            None => prev,
        });
        if idx < 5 {
            let old = match trait_value_lookup(current, key) {
                Some(v) => v,
                None => DEFAULT_TRAIT_VALUE,
            };
            let delta = clamp_delta(raw, cap);
            assert(is_trait_key(deltas@[i as int].0@));
            let new = clamp_value(old + delta);
            assert(trait_old(current@, key@) == old);
            if new != old {
                let ev = PersonalityEvent {
                    id: crate::models::new_id(),
                    persona_id: owned(persona_id),
                    session_id: Some(owned(session_id)),
                    item: event_item("trait:", key),
                    old_value: int_to_string(old),
                    new_value: int_to_string(new),
                    created_at: now_ms,
                };
                out.push(TraitChange { write: TraitValue { key: owned(key), value: new }, event: ev });
            }
        }
        i = i + 1;
    }
    assert(deltas@.take(deltas@.len() as int) == deltas@);
    out
}

// ---------- relationships ----------

/// The relationship after one assessment.
pub open spec fn relationship_after(
    existing: Option<Relationship>,
    persona_id: Seq<char>,
    target_kind: Seq<char>,
    target_id: Seq<char>,
    target_name: Seq<char>,
    a: PartnerAssessment,
    cap: int,
    now: int,
    r: Relationship,
) -> bool {
    let old_int = match existing {
        Some(e) => e.intimacy as int,
        None => DEFAULT_INTIMACY as int,
    };
    let old_imp = match existing {
        Some(e) => e.impression_text@,
        None => Seq::<char>::empty(),
    };
    &&& r.persona_id@ == persona_id
    &&& r.target_kind@ == target_kind
    &&& r.target_id@ == target_id
    &&& r.target_name@ == target_name
    &&& r.intimacy == clamp_spec(old_int + clamp_delta_spec(a.intimacy_delta as int, cap), 0, 100)
    &&& r.impression_text@ == match a.impression {
        Some(s) => take_seq(s@, 200),
        None => old_imp,
    }
    &&& r.updated_at == now
}

/// The first `n` characters of `s` (all of them when it is shorter).
pub open spec fn take_seq(s: Seq<char>, n: int) -> Seq<char> {
    if n < s.len() {
        s.take(n)
    } else {
        s
    }
}

/// Copy of the first `n` characters of `s`.
pub fn take_chars(s: &str, n: usize) -> (r: String)
    ensures
        r@ == take_seq(s@, n as int),
{
    let v = chars_of(s);
    let hi = if n < v.len() {
        n
    } else {
        v.len()
    };
    let mut out = String::new();
    push_chars(&mut out, &v, 0, hi);
    assert(v@.subrange(0, hi as int) == take_seq(s@, n as int));
    out
}

/// The old intimacy plus the capped change stays within `i64`.
pub open spec fn intimacy_fits(existing: Option<Relationship>, a: PartnerAssessment, cap: int) -> bool {
    let old_int = match existing {
        Some(e) => e.intimacy as int,
        None => DEFAULT_INTIMACY as int,
    };
    i64::MIN <= old_int + clamp_delta_spec(a.intimacy_delta as int, cap) <= i64::MAX
}

/// Result of one relationship assessment: the record to store and the events
/// (intimacy change, then impression change) to append.
#[derive(Debug)]
pub struct RelationshipUpdate {
    pub relationship: Relationship,
    pub events: Vec<PersonalityEvent>,
}

/// Updates the relationship towards one partner with the capped intimacy change
/// and the new impression (at most 200 characters; kept when none is given).
/// An event is produced for each of intimacy and impression that changed.
pub fn apply_relationship(
    existing: Option<&Relationship>,
    persona_id: &str,
    session_id: &str,
    target_kind: &str,
    target_id: &str,
    target_name: &str,
    assessment: &PartnerAssessment,
    settings: &Settings,
    now_ms: i64,
) -> (r: RelationshipUpdate)
    requires
        settings.intimacy_delta_cap != i64::MIN,
        intimacy_fits(
            match existing {
                Some(e) => Some(*e),
                None => None,
            },
            *assessment,
            settings.intimacy_delta_cap as int,
        ),
    ensures
        ({
            let ex = match existing {
                Some(e) => Some(*e),
                None => None,
            };
            let old_int = match ex {
                Some(e) => e.intimacy as int,
                None => DEFAULT_INTIMACY as int,
            };
            let old_imp = match ex {
                Some(e) => e.impression_text@,
                None => Seq::<char>::empty(),
            };
            let rel = r.relationship;
            let int_changed = rel.intimacy != old_int;
            let imp_changed = rel.impression_text@ != old_imp;
            &&& relationship_after(
                ex,
                persona_id@,
                target_kind@,
                target_id@,
                target_name@,
                *assessment,
                settings.intimacy_delta_cap as int,
                now_ms as int,
                rel,
            )
            &&& r.events@.len() == (if int_changed { 1int } else { 0int }) + (if imp_changed {
                1int
            } else {
                0int
            })
            &&& forall|i: int|
                0 <= i < r.events@.len() ==> {
                    &&& (#[trigger] r.events@[i]).persona_id@ == persona_id@
                    &&& r.events@[i].session_id matches Some(s) && s@ == session_id@
                    &&& r.events@[i].created_at == now_ms
                }
            &&& int_changed ==> {
                &&& r.events@[0].item@ == "intimacy:"@ + target_name@
                &&& r.events@[0].old_value@ == int_text(old_int)
                &&& r.events@[0].new_value@ == int_text(rel.intimacy as int)
            }
            &&& imp_changed ==> {
                let e = r.events@[r.events@.len() - 1];
                &&& e.item@ == "impression:"@ + target_name@
                &&& e.old_value@ == old_imp
                &&& e.new_value@ == rel.impression_text@
            }
        }),
{
    let old_intimacy = match existing {
        Some(e) => e.intimacy,
        None => DEFAULT_INTIMACY,
    };
    let old_impression = match existing {
        Some(e) => e.impression_text.clone(),
        None => String::new(),
    };
    let delta = clamp_delta(assessment.intimacy_delta, settings.intimacy_delta_cap);
    let new_intimacy = clamp_value(old_intimacy + delta);
    let new_impression = match &assessment.impression {
        Some(s) => take_chars(s.as_str(), 200),
        None => old_impression.clone(),
    };
    let relationship = Relationship {
        persona_id: owned(persona_id),
        target_kind: owned(target_kind),
        target_id: owned(target_id),
        target_name: owned(target_name),
        intimacy: new_intimacy,
        impression_text: new_impression.clone(),
        updated_at: now_ms,
    };
    let mut events: Vec<PersonalityEvent> = Vec::new();
    if new_intimacy != old_intimacy {
        events.push(
            PersonalityEvent {
                id: crate::models::new_id(),
                persona_id: owned(persona_id),
                session_id: Some(owned(session_id)),
                item: event_item("intimacy:", target_name),
                old_value: int_to_string(old_intimacy),
                new_value: int_to_string(new_intimacy),
                created_at: now_ms,
            },
        );
    }
    if new_impression != old_impression {
        events.push(
            PersonalityEvent {
                id: crate::models::new_id(),
                persona_id: owned(persona_id),
                session_id: Some(owned(session_id)),
                item: event_item("impression:", target_name),
                old_value: old_impression,
                new_value: new_impression,
                created_at: now_ms,
            },
        );
    }
    RelationshipUpdate { relationship, events }
}

// ---------- mood ----------

/// Label shown for a mood value: "平常" inside the neutral band, else the stored label.
pub open spec fn mood_label_spec(value: int, stored: Seq<char>) -> Seq<char> {
    if -MOOD_NEUTRAL_BAND < value < MOOD_NEUTRAL_BAND {
        "平常"@
    } else {
        stored
    }
}

pub fn mood_label_for(value: i64, stored_label: &str) -> (r: String)
    requires
        value != i64::MIN,
    ensures
        r@ == mood_label_spec(value as int, stored_label@),
{
    let a = if value < 0 {
        -value
    } else {
        value
    };
    if a < MOOD_NEUTRAL_BAND {
        String::from_str("平常")
    } else {
        owned(stored_label)
    }
}

/// The stored mood after one rating.
#[derive(Debug)]
pub struct MoodUpdate {
    pub value: i64,
    pub label: String,
    /// Present when the value changed.
    pub event: Option<MoodEvent>,
}

/// The mood after adding a rated change to the current (already decayed) mood:
/// the change is limited to the mood cap and the result to `[-100, 100]`.
pub open spec fn mood_after(old: int, raw: int, cap: int) -> int {
    clamp_spec(old + clamp_delta_spec(raw, cap), MOOD_MIN as int, MOOD_MAX as int)
}

/// Applies a rated mood change to the current mood `old`.
///
/// The label is trimmed and cut to 20 characters; it is stored with the new
/// value either way. A mood event is produced only when the value changed. Trait
/// axes and relationships are not touched.
pub fn apply_mood(
    old: i64,
    persona_id: &str,
    session_id: &str,
    raw_delta: i64,
    label: &str,
    settings: &Settings,
    now_ms: i64,
) -> (r: MoodUpdate)
    requires
        settings.mood_delta_cap != i64::MIN,
        i64::MIN <= old + clamp_delta_spec(raw_delta as int, settings.mood_delta_cap as int)
            <= i64::MAX,
    ensures
        r.value == mood_after(old as int, raw_delta as int, settings.mood_delta_cap as int),
        MOOD_MIN <= r.value <= MOOD_MAX,
        r.label@ == take_seq(trim_seq(label@), 20),
        (r.value == old) <==> r.event is None,
        r.event matches Some(e) ==> {
            &&& e.persona_id@ == persona_id@
            &&& e.session_id matches Some(s) && s@ == session_id@
            &&& e.old_value == old
            &&& e.new_value == r.value
            &&& e.label@ == r.label@
            &&& e.created_at == now_ms
        },
{
    let delta = clamp_delta(raw_delta, settings.mood_delta_cap);
    let new = clamp_i64(old + delta, MOOD_MIN, MOOD_MAX);
    let trimmed = trim_vec(&chars_of(label));
    let hi = if 20 < trimmed.len() {
        20
    } else {
        trimmed.len()
    };
    let mut eff_label = String::new();
    push_chars(&mut eff_label, &trimmed, 0, hi);
    assert(trimmed@.subrange(0, hi as int) == take_seq(trim_seq(label@), 20));
    if new == old {
        return MoodUpdate { value: new, label: eff_label, event: None };
    }
    let e = MoodEvent {
        id: crate::models::new_id(),
        persona_id: owned(persona_id),
        session_id: Some(owned(session_id)),
        old_value: old,
        new_value: new,
        label: eff_label.clone(),
        created_at: now_ms,
    };
    MoodUpdate { value: new, label: eff_label, event: Some(e) }
}

// ---------- laws ----------

/// The magnitude of a cap.
pub open spec fn cap_size(cap: int) -> int {
    if cap < 0 {
        -cap
    } else {
        cap
    }
}

/// Every stored trait value lies in `[0, 100]`.
pub open spec fn traits_in_range(current: Seq<TraitValue>) -> bool {
    forall|i: int| 0 <= i < current.len() ==> 0 <= (#[trigger] current[i]).value <= 100
}

proof fn lemma_trait_value_in_range(current: Seq<TraitValue>, key: Seq<char>)
    requires
        traits_in_range(current),
    ensures
        trait_value_in(current, key) matches Some(v) ==> 0 <= v <= 100,
    decreases current.len(),
{
    if current.len() > 0 && current[0].key@ != key {
        assert(traits_in_range(current.drop_first())) by {
            assert forall|i: int| 0 <= i < current.drop_first().len() implies 0 <= (
            #[trigger] current.drop_first()[i]).value <= 100 by {
                assert(current.drop_first()[i] == current[i + 1]);
            }
        }
        lemma_trait_value_in_range(current.drop_first(), key);
    }
}

/// A change is limited to the cap: |clamp_delta(d, cap)| <= |cap|.
pub proof fn law_delta_within_cap(delta: int, cap: int)
    ensures
        -cap_size(cap) <= clamp_delta_spec(delta, cap) <= cap_size(cap),
        delta >= 0 ==> clamp_delta_spec(delta, cap) >= 0,
        delta <= 0 ==> clamp_delta_spec(delta, cap) <= 0,
{
}

/// After a session every trait axis stays in `[0, 100]` and moves by at most
/// the cap; each recorded change really changes the value.
pub proof fn law_trait_changes_bounded(current: Seq<TraitValue>, deltas: Seq<(String, i64)>, cap: int)
    requires
        traits_in_range(current),
    ensures
        forall|i: int|
            0 <= i < trait_plan(current, deltas, cap).len() ==> {
                let c = #[trigger] trait_plan(current, deltas, cap)[i];
                &&& 0 <= c.1 <= 100
                &&& 0 <= c.2 <= 100
                &&& c.1 != c.2
                &&& -cap_size(cap) <= c.2 - c.1 <= cap_size(cap)
                &&& is_trait_key(c.0)
            },
    decreases deltas.len(),
{
    if deltas.len() > 0 {
        law_trait_changes_bounded(current, deltas.drop_last(), cap);
        let (k, d) = deltas.last();
        lemma_trait_value_in_range(current, k@);
        let rest = trait_plan(current, deltas.drop_last(), cap);
        let plan = trait_plan(current, deltas, cap);
        match trait_step(current, k@, d as int, cap) {
            Some((o, n)) => {
                assert(plan == rest.push((k@, o, n)));
                assert(0 <= o <= 100);
                assert forall|i: int| 0 <= i < plan.len() implies {
                    let c = #[trigger] plan[i];
                    &&& 0 <= c.1 <= 100
                    &&& 0 <= c.2 <= 100
                    &&& c.1 != c.2
                    &&& -cap_size(cap) <= c.2 - c.1 <= cap_size(cap)
                    &&& is_trait_key(c.0)
                } by {
                    if i < rest.len() {
                        assert(plan[i] == rest[i]);
                    }
                }
            },
            None => {
                assert(plan == rest);
            },
        }
    }
}

/// A relationship assessment keeps intimacy in `[0, 100]` and moves it by at
/// most the cap.
pub proof fn law_intimacy_bounded(
    existing: Option<Relationship>,
    persona_id: Seq<char>,
    target_kind: Seq<char>,
    target_id: Seq<char>,
    target_name: Seq<char>,
    a: PartnerAssessment,
    cap: int,
    now: int,
    r: Relationship,
)
    requires
        existing matches Some(e) ==> 0 <= e.intimacy <= 100,
        relationship_after(existing, persona_id, target_kind, target_id, target_name, a, cap, now, r),
    ensures
        0 <= r.intimacy <= 100,
        ({
            let old_int = match existing {
                Some(e) => e.intimacy as int,
                None => DEFAULT_INTIMACY as int,
            };
            -cap_size(cap) <= r.intimacy - old_int <= cap_size(cap)
        }),
{
}

/// A positive assessment never lowers intimacy, and raises it below the top
/// of the scale when the cap allows any change.
pub proof fn law_positive_assessment_raises_intimacy(
    existing: Option<Relationship>,
    persona_id: Seq<char>,
    target_kind: Seq<char>,
    target_id: Seq<char>,
    target_name: Seq<char>,
    a: PartnerAssessment,
    cap: int,
    now: int,
    r: Relationship,
)
    requires
        existing matches Some(e) ==> 0 <= e.intimacy <= 100,
        relationship_after(existing, persona_id, target_kind, target_id, target_name, a, cap, now, r),
        a.intimacy_delta > 0,
    ensures
        ({
            let old_int = match existing {
                Some(e) => e.intimacy as int,
                None => DEFAULT_INTIMACY as int,
            };
            &&& r.intimacy >= old_int
            &&& (cap != 0 && old_int < 100) ==> r.intimacy > old_int
        }),
{
}

/// A mood rating keeps the mood in `[-100, 100]` and, from a mood in that
/// range, moves it by at most the cap.
pub proof fn law_mood_bounded(old: int, raw: int, cap: int)
    ensures
        MOOD_MIN <= mood_after(old, raw, cap) <= MOOD_MAX,
        MOOD_MIN <= old <= MOOD_MAX ==> -cap_size(cap) <= mood_after(old, raw, cap) - old
            <= cap_size(cap),
{
}

} // verus!
