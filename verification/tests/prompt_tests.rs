use personacle::models::{
    local_date_of, new_id, now_ms, Memory, Persona, Relationship, Session, Settings, TraitValue,
    Utterance,
};
use personacle::prompt::{
    assemble_messages, build_speaker_selection, build_system, build_topic_shift, elapsed_label,
    intimacy_phrase, mood_phrase, reply_messages, trait_phrase, PartnerInfo,
};

fn mk_persona() -> Persona {
    Persona {
        id: "p1".into(),
        name: "アリス".into(),
        description: "明るく好奇心旺盛".into(),
        speech_style: "です・ます調".into(),
        values_text: "正直さ".into(),
        self_intro: "アリスです".into(),
        created_at: now_ms(),
        last_talked_at: None,
    }
}

fn mk_utt(speaker_id: &str, kind: &str, name: &str, content: &str) -> Utterance {
    Utterance {
        id: new_id(),
        session_id: "s1".into(),
        speaker_kind: kind.into(),
        speaker_id: speaker_id.into(),
        speaker_name: name.into(),
        content: content.into(),
        state: "complete".into(),
        created_at: now_ms(),
    }
}

#[test]
fn system_contains_all_sections() {
    let p = mk_persona();
    let traits = vec![TraitValue { key: "sociability".into(), value: 72 }];
    let rel = Relationship {
        persona_id: "p1".into(),
        target_kind: "user".into(),
        target_id: "user".into(),
        target_name: "ユーザー".into(),
        intimacy: 65,
        impression_text: "優しい人".into(),
        updated_at: now_ms(),
    };
    let mem = Memory {
        id: new_id(),
        persona_id: "p1".into(),
        content: "ユーザーの好物はカレー".into(),
        kind: "fact".into(),
        importance: 6,
        has_embedding: true,
        source_session_id: None,
        created_at: now_ms(),
        archived: false,
        user_edited: false,
    };
    let partners = [PartnerInfo { name: "ユーザー", relationship: Some(&rel) }];
    let s = build_system(&p, &traits, &partners, &[mem], None, None, None);
    assert!(s.contains("アリス"));
    assert!(s.contains("社交性: 高め(72/100)"));
    assert!(s.contains("親しい相手"));
    assert!(s.contains("優しい人"));
    assert!(s.contains("カレー"));
    assert!(s.contains("知らない"));
}

#[test]
fn theme_included_for_autonomous() {
    let p = mk_persona();
    let partners = [PartnerInfo { name: "ボブ", relationship: None }];
    let s = build_system(&p, &[], &partners, &[], Some("休日の過ごし方"), None, None);
    assert!(s.contains("休日の過ごし方"));
    assert!(s.contains("初対面"));
}

#[test]
fn multiple_partners_listed_fr19() {
    let p = mk_persona();
    let rel = Relationship {
        persona_id: "p1".into(),
        target_kind: "persona".into(),
        target_id: "p2".into(),
        target_name: "ボブ".into(),
        intimacy: 70,
        impression_text: "頼れる人".into(),
        updated_at: now_ms(),
    };
    let partners = [
        PartnerInfo { name: "ボブ", relationship: Some(&rel) },
        PartnerInfo { name: "キャロル", relationship: None },
    ];
    let s = build_system(&p, &[], &partners, &[], Some("旅行の計画"), None, None);
    assert!(s.contains("ボブ、キャロル"));
    assert!(s.contains("### ボブ"));
    assert!(s.contains("頼れる人"));
    assert!(s.contains("### キャロル"));
    assert!(s.contains("初対面"));
}

#[test]
fn elapsed_label_thresholds() {
    let s = Settings::default();
    let now = 1_000_000_000_000i64;
    let h = 3_600_000i64;
    assert_eq!(elapsed_label(None, now, &s), None);
    assert_eq!(elapsed_label(Some(now - 3 * h), now, &s), None);
    assert!(elapsed_label(Some(now - 24 * h), now, &s).unwrap().contains("少し間が空い"));
    assert!(elapsed_label(Some(now - 5 * 24 * h), now, &s).unwrap().contains("約5日ぶり"));
    assert!(elapsed_label(Some(now - 30 * 24 * h), now, &s).unwrap().contains("長い間"));
    assert_eq!(elapsed_label(Some(now + 10 * h), now, &s), None);
}

#[test]
fn mood_phrase_neutral_is_none() {
    assert_eq!(mood_phrase(5, "上機嫌"), None);
    assert!(mood_phrase(60, "上機嫌").unwrap().contains("上機嫌"));
    assert!(mood_phrase(-60, "落ち込み").unwrap().contains("落ち込み"));
}

#[test]
fn system_includes_mood_and_elapsed() {
    let p = mk_persona();
    let partners = [PartnerInfo { name: "ユーザー", relationship: None }];
    let s = build_system(
        &p,
        &[],
        &partners,
        &[],
        None,
        Some("今はとても上機嫌(前向きな気分)"),
        Some("前回の会話から約3日ぶりである"),
    );
    assert!(s.contains("今の気分"));
    assert!(s.contains("上機嫌"));
    assert!(s.contains("前回からの経過"));
    assert!(s.contains("約3日ぶり"));
}

#[test]
fn assemble_roles_and_prefix() {
    let history = vec![
        mk_utt("user", "user", "ユーザー", "こんにちは"),
        mk_utt("p1", "persona", "アリス", "こんにちは!"),
        mk_utt("p2", "persona", "ボブ", "やあ"),
    ];
    let msgs = assemble_messages("SYS".into(), &history, "p1", 10_000);
    assert_eq!(msgs.len(), 4);
    assert_eq!(msgs[0].role, "system");
    assert_eq!(msgs[1].role, "user");
    assert_eq!(msgs[1].content, "ユーザー: こんにちは");
    assert_eq!(msgs[2].role, "assistant");
    assert_eq!(msgs[2].content, "こんにちは!");
    assert_eq!(msgs[3].role, "user");
    assert_eq!(msgs[3].content, "ボブ: やあ");
}

#[test]
fn assemble_respects_budget_keeps_recent() {
    let mut history = Vec::new();
    for i in 0..100 {
        history.push(mk_utt("user", "user", "ユーザー", &format!("メッセージ{i:03} {}", "あ".repeat(50))));
    }
    let msgs = assemble_messages("SYS".into(), &history, "p1", 500);
    assert!(msgs.len() < 100);
    assert!(msgs.last().unwrap().content.contains("メッセージ099"));
}

#[test]
fn assemble_keeps_newest_even_over_budget() {
    let history = vec![mk_utt("user", "user", "ユーザー", &"あ".repeat(50))];
    let msgs = assemble_messages("SYS".into(), &history, "p1", 10);
    assert_eq!(msgs.len(), 2);
    let empty = assemble_messages("SYS".into(), &[], "p1", 10);
    assert_eq!(empty.len(), 1);
}

#[test]
fn assemble_budget_exact_counts() {
    // each utterance costs content + name + 4 = 1 + 1 + 4 = 6
    let history = vec![
        mk_utt("a", "persona", "A", "1"),
        mk_utt("a", "persona", "A", "2"),
        mk_utt("a", "persona", "A", "3"),
    ];
    assert_eq!(assemble_messages("S".into(), &history, "x", 12).len(), 3);
    assert_eq!(assemble_messages("S".into(), &history, "x", 11).len(), 2);
    assert_eq!(assemble_messages("S".into(), &history, "x", 18).len(), 4);
}

#[test]
fn phrases_for_traits_and_intimacy() {
    assert_eq!(trait_phrase("sociability", 72), "社交性: 高め(72/100)");
    assert!(intimacy_phrase(65).contains("親しい相手"));
    assert!(intimacy_phrase(10).contains("初対面"));
    assert!(intimacy_phrase(20).contains("知り合い"));
}

#[test]
fn topic_shift_and_selection_prompts() {
    let history = vec![mk_utt("p1", "persona", "アリス", "天気がいいね")];
    let t = build_topic_shift("休日", &history);
    assert!(t.contains("休日"));
    assert!(t.contains("アリス: 天気がいいね"));
    let parts = vec![("p1".to_string(), "アリス".to_string()), ("p2".to_string(), "ボブ".to_string())];
    let sel = build_speaker_selection(&history, &parts, &["p1".to_string()], true);
    assert!(sel.contains("アリス"));
    assert!(sel.contains("ボブ"));
}

fn mk_session(kind: &str, theme: &str) -> Session {
    Session {
        id: "s1".into(),
        kind: kind.into(),
        theme: theme.into(),
        status: "active".into(),
        started_at: 0,
        ended_at: None,
        participant_ids: vec!["p1".into()],
        participant_names: vec!["アリス".into()],
    }
}

#[test]
fn reply_in_dialogue_has_elapsed_but_no_theme() {
    let mut p = mk_persona();
    let now: i64 = 10 * 24 * 3_600_000;
    p.last_talked_at = Some(now - 8 * 3_600_000);
    let history = vec![mk_utt("user", "user", "ユーザー", "こんにちは")];
    let settings = Settings::default();
    let msgs = reply_messages(
        &mk_session("user_dialogue", "旅行"),
        &p,
        &[],
        &[],
        &[],
        80,
        "上機嫌",
        &history,
        &settings,
        now,
        None,
    );
    assert_eq!(msgs.len(), 2);
    assert_eq!(msgs[0].role, "system");
    assert!(msgs[0].content.contains("前回の会話から少し間が空いている"));
    assert!(!msgs[0].content.contains("## 会話のテーマ"));
    assert!(msgs[0].content.contains("## 今の気分"));
    assert_eq!(msgs[1].role, "user");
    assert_eq!(msgs[1].content, "ユーザー: こんにちは");
}

#[test]
fn reply_in_autonomous_session_has_theme_and_hint() {
    let mut p = mk_persona();
    p.last_talked_at = Some(0);
    let settings = Settings::default();
    let msgs = reply_messages(
        &mk_session("autonomous", "旅行の計画"),
        &p,
        &[],
        &[],
        &[],
        0,
        "",
        &[],
        &settings,
        30 * 24 * 3_600_000,
        Some("話しかけて"),
    );
    assert_eq!(msgs.len(), 2);
    assert!(msgs[0].content.contains("## 会話のテーマ"));
    assert!(msgs[0].content.contains("旅行の計画"));
    assert!(!msgs[0].content.contains("## 前回からの経過"));
    assert!(!msgs[0].content.contains("## 今の気分"));
    assert_eq!(msgs[1].role, "user");
    assert_eq!(msgs[1].content, "話しかけて");
}

#[test]
fn reply_budget_has_a_floor_of_1000() {
    let p = mk_persona();
    let mut settings = Settings::default();
    settings.context_chars = 10;
    let long = "あ".repeat(400);
    let history: Vec<Utterance> =
        (0..5).map(|_| mk_utt("user", "user", "ユーザー", &long)).collect();
    let msgs = reply_messages(
        &mk_session("user_dialogue", ""),
        &p,
        &[],
        &[],
        &[],
        0,
        "",
        &history,
        &settings,
        0,
        None,
    );
    // each utterance costs 400 + 4 + 4 = 408: two fit within 1000, three do not
    assert_eq!(msgs.len(), 3);
}

#[test]
fn local_dates_are_dates_or_empty() {
    for ts in [0i64, 1_700_000_000_000, -5_000_000_000_000, i64::MAX] {
        let d = local_date_of(ts);
        if d.is_empty() {
            continue;
        }
        let c: Vec<char> = d.chars().collect();
        let n = c.len();
        assert!(n >= 10);
        assert_eq!(c[n - 3], '-');
        assert_eq!(c[n - 6], '-');
        assert!(c[1..n - 6].iter().all(|x| x.is_ascii_digit()));
    }
    let d = local_date_of(1_700_000_000_000);
    assert_eq!(d.len(), 10);
    assert!(d.starts_with("2023-11-1"));
}

#[test]
fn selection_offers_no_speaker_only_in_the_chain() {
    let ps = vec![("p1".to_string(), "アリス".to_string()), ("p2".to_string(), "ボブ".to_string())];
    let h = vec![mk_utt("user", "user", "ユーザー", "やあ")];
    let chain = build_speaker_selection(&h, &ps, &["p1".to_string()], true);
    let first = build_speaker_selection(&h, &ps, &[], false);
    assert!(chain.contains("「発話なし」"));
    assert!(!first.contains("「発話なし」"));
    assert!(chain.ends_with("名前のみを出力し、説明や記号は付けないこと。"));
    assert!(chain.contains("- アリス\n- ボブ (まだ発言していません。優先的に検討)\n"));
}

#[test]
fn traits_heading_only_with_traits() {
    let p = mk_persona();
    let without = build_system(&p, &[], &[], &[], Some("旅行"), Some("今は少し前向きな気分"), None);
    assert!(!without.contains("現在の性格傾向"));
    assert!(without.starts_with("あなたは「アリス」という人物として会話する。\n"));
    assert!(without.contains("\n## 会話のテーマ\n旅行\n"));
    let traits = vec![TraitValue { key: "empathy".into(), value: 10 }];
    let with = build_system(&p, &traits, &[], &[], None, None, None);
    assert!(with.contains("\n## 現在の性格傾向\n"));
    assert!(with.ends_with("発言のみを出力する\n"));
}

#[test]
fn topic_shift_names_theme_only_when_given() {
    let h = vec![mk_utt("user", "user", "ユーザー", "そうだね")];
    let with = build_topic_shift("旅行", &h);
    let without = build_topic_shift("", &h);
    assert!(with.contains("元のテーマ: 旅行\n"));
    assert!(!without.contains("元のテーマ"));
    assert!(without.starts_with("会話が同じ話題で停滞しています。"));
    assert!(without.contains("## 直近の会話\nユーザー: そうだね\n"));
}

#[test]
fn mood_and_elapsed_headings_only_when_given() {
    let p = mk_persona();
    let traits = vec![TraitValue { key: "caution".into(), value: -3 }];
    let none = build_system(&p, &traits, &[], &[], None, None, None);
    assert!(!none.contains("今の気分"));
    assert!(!none.contains("前回からの経過"));
    let both = build_system(&p, &traits, &[], &[], None, Some("今は沈んだ気分"), Some("久しぶり"));
    assert!(both.contains("\n## 今の気分\n今は沈んだ気分\n"));
    assert!(both.contains("\n## 前回からの経過\n久しぶり。自然な範囲でこのことに触れてよい\n"));
}

#[test]
fn theme_and_memory_headings_only_when_given() {
    let p = mk_persona();
    let plain = build_system(&p, &[], &[], &[], Some(""), None, None);
    assert!(!plain.contains("テーマ"));
    assert!(!plain.contains("関連する過去の出来事"));
    let mem = Memory {
        id: new_id(),
        persona_id: "p1".into(),
        content: "海に行った".into(),
        kind: "event".into(),
        importance: 5,
        has_embedding: false,
        source_session_id: None,
        created_at: 1_700_000_000_000,
        archived: false,
        user_edited: false,
    };
    let full = build_system(&p, &[], &[], &[mem], Some("海"), None, None);
    assert!(full.contains("\n## 会話のテーマ\n海\n"));
    assert!(full.contains("\n## あなたの記憶 (関連する過去の出来事)\n- ["));
    assert!(full.contains("] 海に行った\n"));
}

#[test]
fn heading_laws_hold_except_for_a_partner_named_like_a_heading() {
    let p = mk_persona();
    let ok = [
        PartnerInfo { name: "ボブ", relationship: None },
        PartnerInfo { name: "キャロル", relationship: None },
    ];
    let s = build_system(&p, &[], &ok, &[], None, None, None);
    assert!(!s.contains("## 現在の性格傾向"));
    assert!(s.contains("### ボブ\n"));
    // a group partner whose name starts with the heading's words makes the
    // title line hold the heading although no traits are given
    let odd = [
        PartnerInfo { name: "現在の性格傾向さん", relationship: None },
        PartnerInfo { name: "ボブ", relationship: None },
    ];
    let s = build_system(&p, &[], &odd, &[], None, None, None);
    assert!(s.contains("## 現在の性格傾向"));
}

#[test]
fn empty_theme_line_only_from_a_name_ending_in_the_marker() {
    let clear = vec![mk_utt("user", "user", "ユーザー", "元のテーマ: 旅")];
    assert!(!build_topic_shift("", &clear).contains("元のテーマ: \n"));
    let odd = vec![mk_utt("p", "persona", "元のテーマ", "\nこんにちは")];
    assert!(build_topic_shift("", &odd).contains("元のテーマ: \n"));
}
