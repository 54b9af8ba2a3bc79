use personacle::models::{new_id, now_ms, Utterance};
use personacle::speaker::{decide_group_speaker, SpeakerDecision};

fn utt(kind: &str, id: &str, name: &str) -> Utterance {
    Utterance {
        id: new_id(),
        session_id: "s".into(),
        speaker_kind: kind.into(),
        speaker_id: id.into(),
        speaker_name: name.into(),
        content: "…".into(),
        state: "complete".into(),
        created_at: now_ms(),
    }
}

fn parts() -> Vec<(String, String)> {
    vec![("a".to_string(), "アリス".to_string()), ("b".to_string(), "ボブ".to_string())]
}

#[test]
fn decide_speaker_corrections() {
    let parts = parts();
    assert_eq!(decide_group_speaker("アリス", &parts, &[], false), SpeakerDecision::Speak("a".into()));
    let hist = vec![utt("persona", "a", "アリス")];
    assert_eq!(decide_group_speaker("???", &parts, &hist, false), SpeakerDecision::Speak("b".into()));
    let hist2 = vec![utt("persona", "a", "アリス"), utt("persona", "a", "アリス")];
    assert_eq!(decide_group_speaker("アリス", &parts, &hist2, false), SpeakerDecision::Speak("b".into()));
    assert_eq!(decide_group_speaker("発話なし", &parts, &hist, true), SpeakerDecision::Nobody);
    assert!(matches!(decide_group_speaker("発話なし", &parts, &[], false), SpeakerDecision::Speak(_)));
}

#[test]
fn partial_names_and_trimming() {
    let parts = parts();
    assert_eq!(decide_group_speaker("  ボブです ", &parts, &[], false), SpeakerDecision::Speak("b".into()));
    assert_eq!(decide_group_speaker("ボ", &parts, &[], false), SpeakerDecision::Speak("b".into()));
    assert_eq!(decide_group_speaker("", &parts, &[], true), SpeakerDecision::Nobody);
    assert_eq!(decide_group_speaker("None of them", &parts, &[], true), SpeakerDecision::Speak("a".into()));
    assert_eq!(decide_group_speaker("none", &parts, &[], true), SpeakerDecision::Nobody);
}

#[test]
fn round_robin_after_everyone_spoke() {
    let parts = vec![
        ("a".to_string(), "アリス".to_string()),
        ("b".to_string(), "ボブ".to_string()),
        ("c".to_string(), "キャロル".to_string()),
    ];
    let hist = vec![
        utt("persona", "a", "アリス"),
        utt("persona", "b", "ボブ"),
        utt("user", "user", "ユーザー"),
        utt("persona", "c", "キャロル"),
        utt("persona", "c", "キャロル"),
    ];
    // キャロル spoke twice in a row: asking for her again falls back to the one after her
    assert_eq!(decide_group_speaker("キャロル", &parts, &hist, false), SpeakerDecision::Speak("a".into()));
    // a valid choice among those who spoke is honoured
    assert_eq!(decide_group_speaker("ボブ", &parts, &hist, false), SpeakerDecision::Speak("b".into()));
}

#[test]
fn user_turns_do_not_break_a_persona_run() {
    let parts = parts();
    let hist = vec![utt("persona", "a", "アリス"), utt("user", "user", "ユーザー"), utt("persona", "a", "アリス")];
    assert_eq!(decide_group_speaker("アリス", &parts, &hist, false), SpeakerDecision::Speak("b".into()));
}

#[test]
fn persona_speakers_in_order() {
    let hist = vec![utt("persona", "a", "アリス"), utt("user", "user", "ユーザー"), utt("persona", "b", "ボブ"), utt("persona", "a", "アリス")];
    assert_eq!(
        personacle::speaker::persona_speaker_ids(&hist),
        vec!["a".to_string(), "b".to_string(), "a".to_string()]
    );
}

#[test]
fn no_third_turn_in_a_row_even_when_all_have_spoken() {
    let ps = vec![("a".to_string(), "アリス".to_string()), ("b".to_string(), "ボブ".to_string())];
    let u = |id: &str, name: &str| Utterance {
        id: id.to_string() + name,
        session_id: "s".into(),
        speaker_kind: "persona".into(),
        speaker_id: id.into(),
        speaker_name: name.into(),
        content: "…".into(),
        state: "complete".into(),
        created_at: 0,
    };
    let h = vec![u("b", "ボブ"), u("a", "アリス"), u("a", "アリス")];
    assert_eq!(decide_group_speaker("アリス", &ps, &h, false), SpeakerDecision::Speak("b".into()));
}
