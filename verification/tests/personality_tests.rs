use personacle::memory::{mood_decay, MoodDecay};
use personacle::models::{Relationship, Settings, TraitValue};
use personacle::personality::{
    apply_mood, apply_relationship, apply_trait_deltas, clamp_delta, clamp_value, mood_label_for,
    trait_index_of, trait_key, trait_label_ja, PartnerAssessment, DEFAULT_INTIMACY,
};

fn current() -> Vec<TraitValue> {
    vec![TraitValue { key: "sociability".into(), value: 50 }]
}

#[test]
fn clamp_delta_boundaries() {
    assert_eq!(clamp_delta(10, 2), 2);
    assert_eq!(clamp_delta(-10, 2), -2);
    assert_eq!(clamp_delta(1, 2), 1);
    assert_eq!(clamp_delta(0, 2), 0);
    assert_eq!(clamp_delta(-3, 5), -3);
}

#[test]
fn clamp_delta_ignores_cap_sign() {
    assert_eq!(clamp_delta(10, -2), 2);
    assert_eq!(clamp_delta(-10, -2), -2);
    assert_eq!(clamp_delta(7, 0), 0);
}

#[test]
fn clamp_value_range() {
    assert_eq!(clamp_value(-1), 0);
    assert_eq!(clamp_value(101), 100);
    assert_eq!(clamp_value(42), 42);
}

#[test]
fn trait_delta_clamped_and_logged() {
    let s = Settings::default();
    let changes = apply_trait_deltas(
        &current(),
        "p1",
        "sess1",
        &[("sociability".into(), 5), ("unknown_axis".into(), 5)],
        &s,
        1000,
    );
    assert_eq!(changes.len(), 1);
    assert_eq!(changes[0].event.old_value, "50");
    assert_eq!(changes[0].event.new_value, "52");
    assert_eq!(changes[0].write.key, "sociability");
    assert_eq!(changes[0].write.value, 52);
    assert_eq!(changes[0].event.item, "trait:sociability");
    assert_eq!(changes[0].event.session_id.as_deref(), Some("sess1"));
    assert_eq!(changes[0].event.created_at, 1000);
}

#[test]
fn trait_value_stays_in_range() {
    let mut s = Settings::default();
    s.trait_delta_cap = 100;
    let cur = vec![TraitValue { key: "sociability".into(), value: 99 }];
    let changes = apply_trait_deltas(&cur, "p1", "s", &[("sociability".into(), 50)], &s, 0);
    assert_eq!(changes[0].write.value, 100);
}

#[test]
fn trait_missing_axis_starts_from_default() {
    let s = Settings::default();
    let changes = apply_trait_deltas(&current(), "p1", "s", &[("empathy".into(), -9)], &s, 0);
    assert_eq!(changes.len(), 1);
    assert_eq!(changes[0].event.old_value, "50");
    assert_eq!(changes[0].event.new_value, "48");
    // a change that leaves the value as it was produces nothing
    let none = apply_trait_deltas(&current(), "p1", "s", &[("sociability".into(), 0)], &s, 0);
    assert!(none.is_empty());
}

#[test]
fn relationship_created_and_clamped() {
    let s = Settings::default();
    let a = PartnerAssessment { intimacy_delta: 20, impression: Some("話しやすい".into()) };
    let up = apply_relationship(None, "p1", "sess1", "user", "user", "ユーザー", &a, &s, 0);
    assert_eq!(up.relationship.intimacy, DEFAULT_INTIMACY + 5);
    assert_eq!(up.relationship.impression_text, "話しやすい");
    assert_eq!(up.events.len(), 2);
    assert_eq!(up.events[0].item, "intimacy:ユーザー");
    assert_eq!(up.events[1].item, "impression:ユーザー");
}

#[test]
fn repeated_positive_sessions_raise_intimacy() {
    let s = Settings::default();
    let mut rel: Option<Relationship> = None;
    for i in 0..10 {
        let a = PartnerAssessment { intimacy_delta: 3, impression: None };
        let up = apply_relationship(
            rel.as_ref(),
            "p1",
            &format!("s{i}"),
            "user",
            "user",
            "ユーザー",
            &a,
            &s,
            i,
        );
        rel = Some(up.relationship);
    }
    let rel = rel.unwrap();
    assert_eq!(rel.intimacy, DEFAULT_INTIMACY + 30);
    assert!(rel.intimacy > DEFAULT_INTIMACY);
}

#[test]
fn intimacy_never_leaves_the_scale() {
    let s = Settings::default();
    let top = Relationship {
        persona_id: "p1".into(),
        target_kind: "user".into(),
        target_id: "user".into(),
        target_name: "ユーザー".into(),
        intimacy: 98,
        impression_text: "好き".into(),
        updated_at: 0,
    };
    let a = PartnerAssessment { intimacy_delta: 5, impression: None };
    let up = apply_relationship(Some(&top), "p1", "s", "user", "user", "ユーザー", &a, &s, 1);
    assert_eq!(up.relationship.intimacy, 100);
    assert_eq!(up.relationship.impression_text, "好き");
    assert_eq!(up.events.len(), 1);
    assert_eq!(up.events[0].old_value, "98");
    assert_eq!(up.events[0].new_value, "100");
}

#[test]
fn mood_neutral_band_label() {
    assert_eq!(mood_label_for(5, "上機嫌"), "平常");
    assert_eq!(mood_label_for(-5, "不機嫌"), "平常");
    assert_eq!(mood_label_for(40, "上機嫌"), "上機嫌");
}

#[test]
fn mood_apply_clamps_and_records() {
    let s = Settings::default();
    let first = apply_mood(0, "p1", "s1", 100, "上機嫌", &s, 10);
    let e = first.event.clone().unwrap();
    assert_eq!(e.old_value, 0);
    assert_eq!(e.new_value, 50);
    assert_eq!(first.value, 50);
    assert_eq!(mood_label_for(first.value, &first.label), "上機嫌");
    let second = apply_mood(first.value, "p1", "s2", 50, "大喜び", &s, 10);
    let e2 = second.event.clone().unwrap();
    assert_eq!(e2.new_value, 100);
    let recorded = [first.event.is_some(), second.event.is_some()];
    assert_eq!(recorded.iter().filter(|b| **b).count(), 2);
}

#[test]
fn mood_unchanged_records_nothing() {
    let s = Settings::default();
    let up = apply_mood(100, "p1", "s", 30, "  とても上機嫌な気分でいっぱいの一日でした  ", &s, 0);
    assert_eq!(up.value, 100);
    assert!(up.event.is_none());
    assert_eq!(up.label.chars().count(), 20);
}

#[test]
fn mood_decay_reading() {
    assert!(matches!(mood_decay(80, None, 0, 24), MoodDecay::Fixed(0)));
    assert!(matches!(mood_decay(0, Some(0), 10, 24), MoodDecay::Fixed(0)));
    assert!(matches!(mood_decay(80, Some(0), 10, 0), MoodDecay::Fixed(80)));
    assert!(matches!(
        mood_decay(80, Some(100), 50, 24),
        MoodDecay::Decay { value: 80, elapsed_ms: 0, halflife_hours: 24 }
    ));
    assert!(matches!(
        mood_decay(80, Some(0), 3_600_000, 24),
        MoodDecay::Decay { value: 80, elapsed_ms: 3_600_000, halflife_hours: 24 }
    ));
}

#[test]
fn trait_labels() {
    assert_eq!(trait_label_ja("empathy"), "共感性");
    assert_eq!(trait_label_ja("unknown"), "unknown");
    assert_eq!(trait_key(4), "cheerfulness");
    assert_eq!(trait_index_of("caution"), 2);
    assert_eq!(trait_index_of("x"), 5);
}
