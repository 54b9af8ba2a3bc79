use personacle::conversation::PartnerTarget;
use personacle::json::{json_candidate, JsonValue};
use personacle::models::{Persona, Session, TraitValue, Utterance};
use personacle::worker::{
    assessment_partners, assessment_prompt, awaits_postprocess, build_transcript,
    consolidation_prompt, diary_prompt, extract_json, extraction_prompt, greeting_only,
    embedded_ids, normalize_kind, participant_step, postprocess_start, ParticipantStep,
    PostprocessStart,
    parse_assessment, parse_consolidation, parse_extracted_memories, postprocess_complete,
    sort_by_time, AssessmentRound,
};

/// A JSON text read by the library, for building test inputs.
fn parse(text: &str) -> JsonValue {
    extract_json(text).unwrap()
}

#[test]
fn extract_json_direct_fenced_and_wrapped() {
    assert!(extract_json(r#"[{"a":1}]"#).is_some());
    assert!(extract_json("```json\n[{\"a\":1}]\n```").is_some());
    assert!(extract_json("結果は次のとおりです: {\"a\": {\"b\": [1,2]}} 以上").is_some());
    let v = extract_json(r#"前置き {"s": "閉じ括弧}を含む"} 後書き"#).unwrap();
    assert_eq!(v.get("s").as_str(), Some("閉じ括弧}を含む"));
    assert!(extract_json("JSONはありません").is_none());
    assert!(extract_json("{壊れたJSON").is_none());
}

#[test]
fn extract_json_decodes_numbers_and_nesting() {
    let v = extract_json("  {\"n\": -7, \"f\": 1.5, \"a\": [true, null]}  ").unwrap();
    assert_eq!(v.get("n").as_i64(), Some(-7));
    assert!(matches!(v.get("f"), JsonValue::OtherNumber));
    assert!(matches!(v.get("a").at(0), JsonValue::Bool(true)));
    assert!(matches!(v.get("a").at(1), JsonValue::Null));
    assert!(matches!(v.get("missing"), JsonValue::Null));
    let fenced = extract_json("```json\n{\"k\": \"値\"}\n```").unwrap();
    assert_eq!(fenced.get("k").as_str(), Some("値"));
}

#[test]
fn json_candidate_cuts_at_the_matching_bracket() {
    assert_eq!(json_candidate("x {\"a\":\"]\"} y {}").as_deref(), Some("{\"a\":\"]\"}"));
    assert_eq!(json_candidate(" [1,[2]] tail").as_deref(), Some("[1,[2]]"));
    assert_eq!(json_candidate("{\"a\":\"\\\"}\"}").as_deref(), Some("{\"a\":\"\\\"}\"}"));
    assert!(json_candidate("no brackets").is_none());
    assert!(json_candidate("{ open").is_none());
}

#[test]
fn parse_memories_validates() {
    let v = parse(
        r#"[
            {"content":"ユーザーの職業はエンジニア","kind":"fact","importance":7},
            {"content":"","kind":"fact","importance":5},
            {"content":"変な種別","kind":"unknown","importance":99},
            {"note":"contentなし"}
        ]"#,
    );
    let mems = parse_extracted_memories(&v);
    assert_eq!(mems.len(), 2);
    assert_eq!(mems[0].importance, 7);
    assert_eq!(mems[1].kind, "fact");
    assert_eq!(mems[1].importance, 10);
}

#[test]
fn parse_memories_limits_and_trims() {
    let mut items = Vec::new();
    for i in 0..12 {
        items.push(format!(r#"{{"content":"  記憶{i}  ","kind":"promise"}}"#));
    }
    let v = parse(&format!("[{}]", items.join(",")));
    let mems = parse_extracted_memories(&v);
    assert_eq!(mems.len(), 10);
    assert_eq!(mems[0].content, "記憶0");
    assert_eq!(mems[0].kind, "promise");
    assert_eq!(mems[0].importance, 5);
    let long = parse(&format!(r#"[{{"content":"{}"}}]"#, "あ".repeat(400)));
    assert_eq!(parse_extracted_memories(&long)[0].content.chars().count(), 300);
    assert!(parse_extracted_memories(&parse(r#"{"content":"x"}"#)).is_empty());
}

#[test]
fn parse_assessment_reads_traits_and_partner() {
    let v = parse(
        r#"{"traits":{"sociability":2,"empathy":-1,"unknown":5},"intimacy_delta":3,"impression":"楽しい人","mood":{"delta":30,"label":"上機嫌"}}"#,
    );
    let (deltas, pa, mood) = parse_assessment(&v);
    assert_eq!(deltas.len(), 2);
    assert_eq!(pa.intimacy_delta, 3);
    assert_eq!(pa.impression.as_deref(), Some("楽しい人"));
    assert_eq!(mood.delta, 30);
    assert_eq!(mood.label, "上機嫌");
}

#[test]
fn parse_assessment_alternative_keys_and_defaults() {
    let v = parse(r#"{"intimacyDelta":-2,"intimacy_delta":4,"impression":"   ","moodDelta":-10,"moodLabel":" 落ち込み "}"#);
    let (deltas, pa, mood) = parse_assessment(&v);
    assert!(deltas.is_empty());
    assert_eq!(pa.intimacy_delta, -2);
    assert!(pa.impression.is_none());
    assert_eq!(mood.delta, -10);
    assert_eq!(mood.label, "落ち込み");
    let (d2, pa2, mood2) = parse_assessment(&parse("[]"));
    assert!(d2.is_empty());
    assert_eq!(pa2.intimacy_delta, 0);
    assert_eq!(mood2.delta, 0);
    assert_eq!(mood2.label, "");
    let (d3, _, _) = parse_assessment(&parse(r#"{"traits":{"cheerfulness":1,"sociability":-2}}"#));
    assert_eq!(d3[0].0, "sociability");
    assert_eq!(d3[1].0, "cheerfulness");
}

#[test]
fn parse_consolidation_validates() {
    let v = parse(r#"{"content":"ユーザーは辛い食べ物を好む","kind":"fact","importance":8}"#);
    let (content, kind, imp) = parse_consolidation(&v).unwrap();
    assert!(content.contains("辛い"));
    assert_eq!(kind, "fact");
    assert_eq!(imp, 8);
    let bad = parse(r#"{"content":"","kind":"fact"}"#);
    assert!(parse_consolidation(&bad).is_none());
}

fn utt(kind: &str, name: &str, content: &str) -> Utterance {
    Utterance {
        id: "u".into(),
        session_id: "s".into(),
        speaker_kind: kind.into(),
        speaker_id: name.into(),
        speaker_name: name.into(),
        content: content.into(),
        state: "complete".into(),
        created_at: 0,
    }
}

#[test]
fn transcript_skips_empty_and_keeps_newest() {
    let us = vec![utt("user", "ユーザー", "やあ"), utt("persona", "アリス", ""), utt("persona", "アリス", "こんにちは")];
    assert_eq!(build_transcript(&us), "ユーザー: やあ\nアリス: こんにちは");
    let mut long = Vec::new();
    for i in 0..100 {
        long.push(utt("user", "U", &format!("{i:03}{}", "あ".repeat(97))));
    }
    let t = build_transcript(&long);
    assert!(t.chars().count() <= 6000 + 100);
    assert!(t.ends_with(&format!("099{}", "あ".repeat(97))));
    assert!(!t.contains("U: 000"));
    assert_eq!(build_transcript(&[]), "");
}

#[test]
fn prompts_name_the_persona() {
    let m = extraction_prompt("アリス", "ログ");
    assert_eq!(m[0].role, "system");
    assert!(m[0].content.contains("「アリス」が覚えておくべき事柄"));
    assert!(m[0].content.contains("最大10件"));
    assert_eq!(m[1].content, "会話ログ:\nログ");
    let p = Persona {
        id: "p".into(),
        name: "アリス".into(),
        description: String::new(),
        speech_style: String::new(),
        values_text: String::new(),
        self_intro: String::new(),
        created_at: 0,
        last_talked_at: None,
    };
    let traits = vec![TraitValue { key: "sociability".into(), value: 60 }, TraitValue { key: "empathy".into(), value: 40 }];
    let a = assessment_prompt(&p, &traits, "ボブ", 35, "ログ");
    assert!(a[0].content.contains("「アリス」の心境の変化"));
    assert!(a[0].content.contains("相手(ボブ)への現在の印象"));
    assert!(a[0].content.contains("- 現在の性格 (0-100): sociability: 60, empathy: 40\n"));
    assert!(a[0].content.ends_with("- 相手への現在の親密度 (0-100): 35"));
    let c = consolidation_prompt("アリス", &["一つ目".to_string(), "二つ目".to_string()]);
    assert_eq!(c[1].content, "統合する記憶:\n- 一つ目\n- 二つ目");
    let d = diary_prompt("アリス", "2026-07-07", "ログ");
    assert!(d[0].content.contains("今日(2026-07-07)の会話"));
    assert!(d[0].content.contains("アリス自身の一人称視点"));
    assert_eq!(d[1].content, "今日の会話:\nログ");
}

fn session(kind: &str, status: &str) -> Session {
    Session {
        id: "s".into(),
        kind: kind.into(),
        theme: String::new(),
        status: status.into(),
        started_at: 0,
        ended_at: None,
        participant_ids: vec![],
        participant_names: vec![],
    }
}

#[test]
fn postprocess_decisions() {
    assert!(awaits_postprocess(Some(&session("user_dialogue", "ended"))));
    assert!(!awaits_postprocess(Some(&session("user_dialogue", "active"))));
    assert!(!awaits_postprocess(Some(&session("user_dialogue", "processed"))));
    assert!(!awaits_postprocess(None));
    let greet = vec![utt("persona", "アリス", "こんにちは")];
    assert!(greeting_only("user_dialogue", &greet));
    assert!(!greeting_only("autonomous", &greet));
    let talked = vec![utt("persona", "アリス", "こんにちは"), utt("user", "ユーザー", "やあ")];
    assert!(!greeting_only("user_dialogue", &talked));
    let ps = vec![
        ("a".to_string(), "アリス".to_string(), true),
        ("b".to_string(), "ボブ".to_string(), false),
    ];
    assert!(!postprocess_complete(true, &ps));
    assert!(!postprocess_complete(false, &ps[..1]));
    assert!(postprocess_complete(true, &ps[..1]));
}

fn views(ts: &[PartnerTarget]) -> Vec<(String, String, String)> {
    ts.iter().map(|t| (t.kind.clone(), t.id.clone(), t.name.clone())).collect()
}

#[test]
fn assessment_partners_per_kind() {
    let ps = vec![
        ("a".to_string(), "アリス".to_string(), false),
        ("b".to_string(), "ボブ".to_string(), false),
        ("c".to_string(), "キャロル".to_string(), false),
    ];
    assert_eq!(
        views(&assessment_partners("user_dialogue", "a", &ps)),
        vec![("user".to_string(), "user".to_string(), "ユーザー".to_string())]
    );
    assert_eq!(
        views(&assessment_partners("group", "b", &ps)),
        vec![
            ("persona".to_string(), "a".to_string(), "アリス".to_string()),
            ("persona".to_string(), "c".to_string(), "キャロル".to_string()),
        ]
    );
}

#[test]
fn traits_applied_once_per_session() {
    let mut round = AssessmentRound::new();
    assert!(round.take_trait_turn());
    assert!(!round.take_trait_turn());
    assert!(!round.take_trait_turn());
}

#[test]
fn memory_kinds() {
    assert_eq!(normalize_kind(Some("event")), "event");
    assert_eq!(normalize_kind(Some("other")), "fact");
    assert_eq!(normalize_kind(None), "fact");
}

#[test]
fn utterances_ordered_by_time_stably() {
    let mut us = Vec::new();
    for (t, c) in [(30, "c"), (10, "a1"), (20, "b"), (10, "a2"), (30, "d")] {
        let mut u = utt("user", "U", c);
        u.created_at = t;
        us.push(u);
    }
    let sorted = sort_by_time(us);
    let order: Vec<&str> = sorted.iter().map(|u| u.content.as_str()).collect();
    assert_eq!(order, vec!["a1", "a2", "b", "c", "d"]);
    assert!(sort_by_time(Vec::new()).is_empty());
}

#[test]
fn participant_steps() {
    assert_eq!(participant_step(true, true, false), ParticipantStep::Skip);
    assert_eq!(participant_step(true, false, true), ParticipantStep::Skip);
    assert_eq!(participant_step(false, false, false), ParticipantStep::MarkProcessed);
    assert_eq!(participant_step(false, true, true), ParticipantStep::MarkProcessed);
    assert_eq!(participant_step(false, true, false), ParticipantStep::Process);
}

#[test]
fn only_embedded_memories_are_consolidated() {
    let ids: Vec<String> = vec!["m1".into(), "m2".into(), "m3".into()];
    assert_eq!(embedded_ids(&ids, &[true, false, true]), vec!["m1".to_string(), "m3".to_string()]);
    assert!(embedded_ids(&ids, &[false, false, false]).is_empty());
    assert!(embedded_ids(&[], &[]).is_empty());
}

#[test]
fn only_the_first_assessment_applies_traits() {
    let mut round = AssessmentRound::new();
    let turns: Vec<bool> = (0..4).map(|_| round.take_trait_turn()).collect();
    assert_eq!(turns, vec![true, false, false, false]);
}

#[test]
fn postprocess_start_decides_the_run() {
    let greet = vec![utt("persona", "アリス", "こんにちは")];
    let talked = vec![utt("persona", "アリス", "こんにちは"), utt("user", "ユーザー", "やあ")];
    let ended = session("user_dialogue", "ended");
    assert_eq!(postprocess_start(None, "m", &talked), PostprocessStart::Leave);
    assert_eq!(
        postprocess_start(Some(&session("user_dialogue", "processed")), "m", &talked),
        PostprocessStart::Leave
    );
    assert_eq!(
        postprocess_start(Some(&session("user_dialogue", "active")), "m", &talked),
        PostprocessStart::Leave
    );
    assert_eq!(postprocess_start(Some(&ended), "", &talked), PostprocessStart::Leave);
    assert_eq!(postprocess_start(Some(&ended), "m", &greet), PostprocessStart::CloseUnprocessed);
    assert_eq!(postprocess_start(Some(&ended), "m", &talked), PostprocessStart::Run);
    assert_eq!(
        postprocess_start(Some(&session("autonomous", "ended")), "m", &greet),
        PostprocessStart::Run
    );
}
