use personacle::commands::{
    apply_stored_setting, check_deletable, clamp_field, connection_test_result, do_create_persona,
    do_update_persona, normalize_settings, parse_i64, reported_separately, sanitize,
    suggested_traits, suggestion_prompt, validate_message, validate_name, PersonaInput,
    SUGGEST_SYSTEM,
};
use personacle::error::AppError;
use personacle::inference::InferError;
use personacle::json::JsonValue;
use personacle::models::{Persona, Session, Settings, TraitValue, AUTO_TURN_HARD_MAX};
use personacle::personality::DEFAULT_TRAIT_VALUE;

#[test]
fn sanitize_removes_control_chars_ec10() {
    assert_eq!(sanitize("abc\u{0007}def"), "abcdef");
    assert_eq!(sanitize("改行\nタブ\tは残る"), "改行\nタブ\tは残る");
    assert_eq!(sanitize("絵文字🎉サロゲート𠮷"), "絵文字🎉サロゲート𠮷");
}

#[test]
fn validate_message_rejects_empty_and_long() {
    assert!(validate_message("", 100).is_err());
    assert!(validate_message("   \n ", 100).is_err());
    assert!(validate_message(&"あ".repeat(101), 100).is_err());
    assert!(validate_message(&"あ".repeat(100), 100).is_ok());
}

#[test]
fn validate_name_rules() {
    assert!(validate_name("").is_err());
    assert!(validate_name("  ").is_err());
    assert!(validate_name(&"あ".repeat(51)).is_err());
    assert_eq!(validate_name(" アリス ").unwrap(), "アリス");
}

fn input(name: &str) -> PersonaInput {
    PersonaInput {
        name: name.into(),
        description: "明るい".into(),
        speech_style: String::new(),
        values_text: String::new(),
        self_intro: String::new(),
        traits: vec![],
        force: false,
    }
}

#[test]
fn duplicate_name_warns_then_force_creates_ec04() {
    let mut names: Vec<String> = Vec::new();
    let first = do_create_persona(&input("アリス"), &names).unwrap();
    names.push(first.persona.name.clone());
    let err = do_create_persona(&input("アリス"), &names).unwrap_err();
    assert_eq!(err.kind(), "duplicate_name");
    let mut forced = input("アリス");
    forced.force = true;
    let second = do_create_persona(&forced, &names).unwrap();
    names.push(second.persona.name.clone());
    assert_eq!(names.len(), 2);
    assert_ne!(first.persona.id, second.persona.id);
}

#[test]
fn create_persona_initializes_all_traits() {
    let mut i = input("アリス");
    i.traits = vec![TraitValue { key: "sociability".into(), value: 150 }];
    let created = do_create_persona(&i, &[]).unwrap();
    let traits = created.traits;
    assert_eq!(traits.len(), 5);
    assert_eq!(traits.iter().find(|t| t.key == "sociability").unwrap().value, 100);
    assert_eq!(traits.iter().find(|t| t.key == "empathy").unwrap().value, DEFAULT_TRAIT_VALUE);
}

#[test]
fn update_persona_keeps_growth_fr03() {
    let created = do_create_persona(&input("アリス"), &[]).unwrap();
    let before = created.persona.clone();
    let updated = do_update_persona(Some(&before), &before.id, &input("アリス改"), &[]).unwrap();
    assert_eq!(updated.name, "アリス改");
    assert_eq!(updated.id, before.id);
    assert_eq!(updated.created_at, before.created_at);
    assert_eq!(updated.last_talked_at, before.last_talked_at);
}

#[test]
fn update_missing_persona_is_not_found() {
    let err = do_update_persona(None, "x", &input("アリス"), &[]).unwrap_err();
    assert_eq!(err.kind(), "not_found");
    assert_eq!(err.message(), "ペルソナが見つかりません");
}

#[test]
fn update_rename_onto_other_name_needs_force() {
    let p = Persona {
        id: "p1".into(),
        name: "アリス".into(),
        description: String::new(),
        speech_style: String::new(),
        values_text: String::new(),
        self_intro: String::new(),
        created_at: 5,
        last_talked_at: Some(7),
    };
    let others = vec!["ボブ".to_string()];
    let err = do_update_persona(Some(&p), "p1", &input("ボブ"), &others).unwrap_err();
    assert_eq!(err.kind(), "duplicate_name");
    assert_eq!(err.message(), "「ボブ」という名前のペルソナは既に存在します");
    // keeping the own name is never a duplicate
    assert!(do_update_persona(Some(&p), "p1", &input("アリス"), &["アリス".to_string()]).is_ok());
}

#[test]
fn validate_message_reports_lengths() {
    let err = validate_message(&"あ".repeat(5), 3).unwrap_err();
    assert_eq!(err.kind(), "validation");
    assert_eq!(err.message(), "メッセージが長すぎます (5文字)。上限は3文字です");
    assert_eq!(validate_message("", 3).unwrap_err().message(), "メッセージが空です");
    assert_eq!(validate_message("a\u{0001}b", 3).unwrap(), "ab");
}

#[test]
fn validate_name_messages() {
    assert_eq!(validate_name("").unwrap_err().message(), "名前は必須です");
    assert_eq!(
        validate_name(&"あ".repeat(51)).unwrap_err().message(),
        "名前は50文字以内にしてください"
    );
    assert_eq!(validate_name(&"あ".repeat(50)).unwrap().chars().count(), 50);
}

#[test]
fn clamp_field_cuts_after_cleaning() {
    assert_eq!(clamp_field("a\u{0007}bcdef", 3), "abc");
    assert_eq!(clamp_field("ab", 10), "ab");
}

fn settings_after(key: &str, value: &str) -> Settings {
    let mut s = Settings::default();
    apply_stored_setting(&mut s, key, value);
    s
}

#[test]
fn settings_roundtrip_and_clamp() {
    let s = Settings::default();
    assert_eq!(s.endpoint, "http://127.0.0.1:11434");
    let mut loaded = Settings::default();
    apply_stored_setting(&mut loaded, "chat_model", "gpt-oss:20b");
    apply_stored_setting(&mut loaded, "auto_turn_limit", &999i64.to_string());
    normalize_settings(&mut loaded);
    assert_eq!(loaded.chat_model, "gpt-oss:20b");
    assert_eq!(loaded.auto_turn_limit, AUTO_TURN_HARD_MAX);
}

#[test]
fn stored_settings_are_read_per_key() {
    assert_eq!(settings_after("recall_k", "3").recall_k, 3);
    assert_eq!(settings_after("recall_k", "three").recall_k, 8);
    assert!(!settings_after("greeting_enabled", "false").greeting_enabled);
    assert!(settings_after("greeting_enabled", "no").greeting_enabled);
    assert_eq!(settings_after("embed_model", "nomic").embed_model, "nomic");
    assert_eq!(settings_after("unknown_key", "1").recall_k, 8);
    let mut s = settings_after("group_max", "1");
    normalize_settings(&mut s);
    assert_eq!(s.group_max, 2);
}

#[test]
fn parse_i64_follows_from_str() {
    assert_eq!(parse_i64("42"), Some(42));
    assert_eq!(parse_i64("-7"), Some(-7));
    assert_eq!(parse_i64("+7"), Some(7));
    assert_eq!(parse_i64(""), None);
    assert_eq!(parse_i64("-"), None);
    assert_eq!(parse_i64(" 1"), None);
    assert_eq!(parse_i64("9223372036854775807"), Some(i64::MAX));
    assert_eq!(parse_i64("9223372036854775808"), None);
    assert_eq!(parse_i64("-9223372036854775808"), Some(i64::MIN));
    assert_eq!(parse_i64("-9223372036854775809"), None);
    for v in [0i64, 12, -3, i64::MAX, i64::MIN] {
        assert_eq!(parse_i64(&v.to_string()), Some(v));
    }
}

#[test]
fn suggestion_needs_a_chat_model() {
    let err = suggestion_prompt("", "明るい").unwrap_err();
    assert_eq!(err.kind(), "validation");
    assert_eq!(err.message(), "チャットモデルが未設定です");
    let msgs = suggestion_prompt("m", "明る\u{0007}い").unwrap();
    assert_eq!(msgs.len(), 2);
    assert_eq!(msgs[0].content, SUGGEST_SYSTEM);
    assert_eq!(msgs[1].role, "user");
    assert_eq!(msgs[1].content, "明るい");
}

#[test]
fn suggested_traits_clamp_and_default() {
    let answer = JsonValue::Object(vec![
        ("sociability".to_string(), JsonValue::Int(150)),
        ("empathy".to_string(), JsonValue::Int(-4)),
        ("caution".to_string(), JsonValue::Str("x".to_string())),
    ]);
    let ts = suggested_traits(Some(&answer)).unwrap();
    let keys: Vec<&str> = ts.iter().map(|t| t.key.as_str()).collect();
    assert_eq!(keys, vec!["sociability", "empathy", "caution", "assertiveness", "cheerfulness"]);
    assert_eq!(ts[0].value, 100);
    assert_eq!(ts[1].value, 0);
    assert_eq!(ts[2].value, 50);
    let err = suggested_traits(None).unwrap_err();
    assert_eq!(err.kind(), "generation");
    assert_eq!(err.message(), "性格評定の解析に失敗しました");
}

fn session(status: &str) -> Session {
    Session {
        id: "s".into(),
        kind: "user_dialogue".into(),
        theme: String::new(),
        status: status.into(),
        started_at: 0,
        ended_at: None,
        participant_ids: vec![],
        participant_names: vec![],
    }
}

#[test]
fn deleting_a_persona_in_conversation_is_refused() {
    assert!(check_deletable(&[session("ended"), session("processed")]).is_ok());
    let err = check_deletable(&[session("ended"), session("active")]).unwrap_err();
    assert_eq!(err.kind(), "busy");
    assert_eq!(err.message(), "会話に参加中のペルソナは削除できません。先に会話を終了してください");
}

#[test]
fn background_failures_reported_once() {
    assert!(!reported_separately(&AppError::Connection("x".into())));
    assert!(!reported_separately(&AppError::Generation("x".into())));
    assert!(reported_separately(&AppError::NotFound("x".into())));
    assert!(reported_separately(&AppError::Validation("x".into())));
}

#[test]
fn connection_test_summaries() {
    let ok = connection_test_result("m1", "", Ok(vec!["m1".to_string(), "m2".to_string()]), true);
    assert!(ok.connected);
    assert!(ok.chat_model_found);
    assert!(!ok.embed_ok);
    assert_eq!(ok.message, "接続に成功しました");
    let down = connection_test_result("m1", "e", Err(InferError::Connection("refused".into())), true);
    assert!(!down.connected);
    assert!(down.models.is_empty());
    assert_eq!(
        down.message,
        "接続できません: 推論エンジンに接続できません: refused。推論エンジンの起動と接続先設定を確認してください"
    );
}

#[test]
fn sanitizing_twice_changes_nothing() {
    for s in ["a\u{0007}b\u{0000}c", "改行\n\tタブ", "\u{009f}x\u{007f}"] {
        let once = sanitize(s);
        assert_eq!(sanitize(&once), once);
    }
    assert_eq!(sanitize("\u{009f}x\u{007f}"), "x");
}
