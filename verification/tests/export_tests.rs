use personacle::commands::validate_name;
use personacle::context::Job;
use personacle::export::{
    build_export, clamp_chars, decode_export_text, export_summary, import_decode_error, plan_import,
    validate_export_value, ExportFile, ImportPlan, SessionRecord, EXPORT_FORMAT,
};
use personacle::json::JsonValue;
use personacle::models::{
    new_id, now_ms, Memory, Persona, PersonalityEvent, Relationship, Session, TraitValue, Utterance,
};
use personacle::context::recovery_jobs;

struct Seed {
    persona: Persona,
    traits: Vec<TraitValue>,
    relationships: Vec<Relationship>,
    memories: Vec<Memory>,
    events: Vec<PersonalityEvent>,
    history: Vec<SessionRecord>,
}

fn seed() -> Seed {
    let p = Persona {
        id: new_id(),
        name: "アリス".into(),
        description: "テスト用".into(),
        speech_style: "普通".into(),
        values_text: String::new(),
        self_intro: String::new(),
        created_at: now_ms(),
        last_talked_at: None,
    };
    let s = Session {
        id: new_id(),
        kind: "user_dialogue".into(),
        theme: String::new(),
        status: "processed".into(),
        started_at: now_ms(),
        ended_at: Some(now_ms()),
        participant_ids: vec![p.id.clone()],
        participant_names: vec![p.name.clone()],
    };
    let u = Utterance {
        id: new_id(),
        session_id: s.id.clone(),
        speaker_kind: "user".into(),
        speaker_id: "user".into(),
        speaker_name: "ユーザー".into(),
        content: "好物はカレーです".into(),
        state: "complete".into(),
        created_at: now_ms(),
    };
    let memories = vec![
        Memory {
            id: new_id(),
            persona_id: p.id.clone(),
            content: "ユーザーの好物はカレー".into(),
            kind: "fact".into(),
            importance: 7,
            has_embedding: true,
            source_session_id: Some(s.id.clone()),
            created_at: 1_700_000_000_000,
            archived: false,
            user_edited: false,
        },
        Memory {
            id: new_id(),
            persona_id: p.id.clone(),
            content: "古い雑談".into(),
            kind: "event".into(),
            importance: 2,
            has_embedding: false,
            source_session_id: None,
            created_at: 1_600_000_000_000,
            archived: true,
            user_edited: false,
        },
    ];
    let relationships = vec![Relationship {
        persona_id: p.id.clone(),
        target_kind: "user".into(),
        target_id: "user".into(),
        target_name: "ユーザー".into(),
        intimacy: 55,
        impression_text: "優しい人".into(),
        updated_at: now_ms(),
    }];
    let events = vec![PersonalityEvent {
        id: new_id(),
        persona_id: p.id.clone(),
        session_id: Some(s.id.clone()),
        item: "intimacy:ユーザー".into(),
        old_value: "50".into(),
        new_value: "55".into(),
        created_at: now_ms(),
    }];
    let traits = vec![TraitValue { key: "sociability".into(), value: 72 }];
    let history = vec![SessionRecord {
        session: s.clone(),
        participants: vec![(p.id.clone(), p.name.clone(), true)],
        utterances: vec![u],
    }];
    Seed { persona: p, traits, relationships, memories, events, history }
}

fn export(seed: &Seed, include_history: bool) -> ExportFile {
    build_export(
        Some(seed.persona.clone()),
        seed.traits.clone(),
        &seed.relationships,
        &seed.memories,
        &seed.events,
        &seed.history,
        include_history,
        2,
    )
    .unwrap()
}

fn import(file: &ExportFile, existing: &[String], force: bool) -> Result<ImportPlan, personacle::error::AppError> {
    let name = validate_name(&file.persona.name)?;
    let taken = existing.iter().any(|n| *n == name);
    plan_import(file, name, force, taken)
}

#[test]
fn roundtrip_with_history() {
    let seed = seed();
    let file = export(&seed, true);
    let plan = import(&file, &[], false).unwrap();

    assert_eq!(plan.persona.name, "アリス");
    assert_eq!(plan.persona.description, seed.persona.description);
    assert_ne!(plan.persona.id, seed.persona.id);

    assert_eq!(plan.traits.iter().find(|t| t.key == "sociability").unwrap().value, 72);
    let rel = &plan.relationships[0];
    assert_eq!(rel.intimacy, 55);
    assert_eq!(rel.impression_text, "優しい人");
    assert_eq!(rel.persona_id, plan.persona.id);
    assert_eq!(plan.events.len(), 1);

    assert_eq!(plan.memories.len(), 2);
    let curry = plan.memories.iter().find(|m| m.content.contains("カレー")).unwrap();
    assert_eq!(curry.importance, 7);
    assert_eq!(curry.created_at, 1_700_000_000_000);
    assert!(!curry.has_embedding);
    assert!(curry.source_session_id.is_some());

    assert_eq!(plan.sessions.len(), 1);
    let s = &plan.sessions[0];
    assert_eq!(s.session.status, "processed");
    assert_eq!(curry.source_session_id.as_deref(), Some(s.session.id.as_str()));
    assert_eq!(s.utterances.len(), 1);
    assert_eq!(s.utterances[0].session_id, s.session.id);
    assert_eq!(s.processed, vec![plan.persona.id.clone()]);
    assert_eq!(s.session.participant_ids, vec![plan.persona.id.clone()]);
    assert_eq!(plan.events[0].session_id.as_deref(), Some(s.session.id.as_str()));

    // the embeddings of the imported memories are recomputed afterwards
    assert_eq!(recovery_jobs(&[]), vec![Job::Reembed]);
}

#[test]
fn roundtrip_without_history() {
    let seed = seed();
    let file = export(&seed, false);
    assert!(file.sessions.is_empty());
    let plan = import(&file, &[], false).unwrap();
    assert!(plan.sessions.is_empty());
    assert_eq!(plan.memories.len(), 2);
    assert!(plan.memories.iter().all(|m| m.source_session_id.is_none()));
    assert!(plan.events[0].session_id.is_none());
}

#[test]
fn duplicate_name_requires_force() {
    let seed = seed();
    let file = export(&seed, false);
    let existing = vec![seed.persona.name.clone()];
    let err = import(&file, &existing, false).unwrap_err();
    assert_eq!(err.kind(), "duplicate_name");
    let plan = import(&file, &existing, true).unwrap();
    let mut names = existing.clone();
    names.push(plan.persona.name.clone());
    assert_eq!(names.len(), 2);
}

fn header(format: &str, version: i64) -> JsonValue {
    JsonValue::Object(vec![
        ("format".to_string(), JsonValue::Str(format.to_string())),
        ("formatVersion".to_string(), JsonValue::Int(version)),
    ])
}

#[test]
fn rejects_invalid_files() {
    assert_eq!(validate_export_value(&header("other-app", 1)).unwrap_err().kind(), "validation");
    assert_eq!(validate_export_value(&header(EXPORT_FORMAT, 99)).unwrap_err().kind(), "validation");
    // a file with the right header but missing records passes the header
    // check; reading its records then fails with a validation error
    assert!(validate_export_value(&header(EXPORT_FORMAT, 1)).is_ok());
    assert_eq!(import_decode_error("missing field `persona`").kind(), "validation");
}

#[test]
fn export_text_must_be_json() {
    let e = decode_export_text("not json {").unwrap_err();
    assert_eq!(e.kind(), "validation");
    assert_eq!(e.message(), "JSONファイルとして読み込めません");
    let v = decode_export_text(r#"{"format":"personacle-persona","formatVersion":1}"#).unwrap();
    assert!(validate_export_value(&v).is_ok());
    let v = decode_export_text(r#"{"format":"personacle-persona","formatVersion":2}"#).unwrap();
    assert!(validate_export_value(&v).is_err());
}

#[test]
fn header_messages() {
    assert_eq!(
        validate_export_value(&JsonValue::Null).unwrap_err().message(),
        "Personacle のペルソナファイルではありません"
    );
    assert_eq!(
        validate_export_value(&header(EXPORT_FORMAT, 99)).unwrap_err().message(),
        "このファイルの形式バージョン (99) には対応していません。アプリを更新してください"
    );
    let no_version = JsonValue::Object(vec![("format".to_string(), JsonValue::Str(EXPORT_FORMAT.to_string()))]);
    assert_eq!(
        validate_export_value(&no_version).unwrap_err().message(),
        "このファイルの形式バージョン (0) には対応していません。アプリを更新してください"
    );
    assert_eq!(
        import_decode_error("x").message(),
        "インポートファイルの内容が不正です: x"
    );
}

#[test]
fn export_contents_and_summary() {
    let seed = seed();
    let file = export(&seed, true);
    assert_eq!(file.format, EXPORT_FORMAT);
    assert_eq!(file.format_version, 1);
    assert_eq!(file.app_schema_version, 2);
    assert_eq!(file.persona.id, seed.persona.id);
    assert_eq!(file.memories.len(), 2);
    assert!(file.memories[1].archived);
    assert_eq!(file.sessions[0].participants[0].persona_name, "アリス");
    let summary = export_summary(&file);
    assert_eq!(summary.memory_count, 2);
    assert_eq!(summary.session_count, 1);
    let missing = build_export(None, vec![], &[], &[], &[], &[], false, 2).unwrap_err();
    assert_eq!(missing.kind(), "not_found");
}

#[test]
fn import_cleans_and_clamps() {
    let seed = seed();
    let mut file = export(&seed, true);
    file.persona.description = format!("a\u{0007}{}", "b".repeat(2100));
    file.memories[0].importance = 99;
    file.memories[0].kind = "odd".into();
    file.memories[1].content = "  \u{0001} ".into();
    file.relationships[0].intimacy = 140;
    file.traits = vec![TraitValue { key: "empathy".into(), value: -5 }];
    let plan = import(&file, &[], false).unwrap();
    assert_eq!(plan.persona.description.chars().count(), 2000);
    assert!(plan.persona.description.starts_with("ab"));
    assert_eq!(plan.memories.len(), 1);
    assert_eq!(plan.memories[0].importance, 10);
    assert_eq!(plan.memories[0].kind, "fact");
    assert_eq!(plan.relationships[0].intimacy, 100);
    assert_eq!(plan.traits.len(), 5);
    assert_eq!(plan.traits[1].value, 0);
    assert_eq!(plan.traits[0].value, 50);
    assert_eq!(clamp_chars("x\u{0002}yz", 2), "xy");
}

#[test]
fn recovery_queues_ended_sessions_then_embeddings() {
    let jobs = recovery_jobs(&["s1".to_string(), "s2".to_string()]);
    assert_eq!(
        jobs,
        vec![Job::Postprocess("s1".into()), Job::Postprocess("s2".into()), Job::Reembed]
    );
}

#[test]
fn roundtrip_gives_back_traits_and_memories_in_order() {
    let seed = seed();
    let file = export(&seed, false);
    let plan = import(&file, &[], false).unwrap();
    let keys: Vec<&str> = plan.traits.iter().map(|t| t.key.as_str()).collect();
    assert_eq!(keys, vec!["sociability", "empathy", "caution", "assertiveness", "cheerfulness"]);
    let values: Vec<i64> = plan.traits.iter().map(|t| t.value).collect();
    assert_eq!(values, vec![72, 50, 50, 50, 50]);
    assert_eq!(plan.memories.len(), seed.memories.len());
    for (q, m) in plan.memories.iter().zip(seed.memories.iter()) {
        assert_eq!(q.content, m.content);
        assert_eq!(q.kind, m.kind);
        assert_eq!(q.importance, m.importance);
        assert_eq!(q.created_at, m.created_at);
        assert_eq!(q.archived, m.archived);
        assert_eq!(q.user_edited, m.user_edited);
    }
    assert_eq!(plan.persona.speech_style, seed.persona.speech_style);
    assert_eq!(plan.persona.created_at, seed.persona.created_at);
}
