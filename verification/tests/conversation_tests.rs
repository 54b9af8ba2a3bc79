use personacle::conversation::{
    auto_turn_limit, chain_continues, check_session_request, completion_state, conversation_partners,
    ending_marks_ended, generation_error, greeting_interval_passed, greeting_wanted,
    named_first_speaker, open_session, recall_query, reply_outcome, require_active, user_utterance,
    AutonomousRun, PartnerTarget, ReplyOutcome, SessionRegistry, EMPTY_REPLY_NOTICE,
};
use personacle::inference::{InferError, StreamOutcome};
use personacle::memory::{
    archivable, archive_cutoff, archive_quota, cluster_ready, recall_count, search_pattern,
};
use personacle::models::{Session, Utterance};

fn named(ids: &[(&str, &str)]) -> Vec<(String, String)> {
    ids.iter().map(|(i, n)| (i.to_string(), n.to_string())).collect()
}

#[test]
fn registry_keeps_personas_exclusive() {
    let mut reg = SessionRegistry::new();
    let alice = named(&[("a", "アリス")]);
    assert!(reg.try_reserve(&alice, "s1").is_ok());
    let both = named(&[("b", "ボブ"), ("a", "アリス")]);
    let err = reg.try_reserve(&both, "s2").unwrap_err();
    assert_eq!(err.kind(), "busy");
    assert_eq!(err.message(), "「アリス」は別の会話に参加中です");
    // the refused request reserved nobody: ボブ is still free
    assert!(reg.try_reserve(&named(&[("b", "ボブ")]), "s3").is_ok());
    reg.release_session("s1");
    assert!(reg.try_reserve(&alice, "s4").is_ok());
    // ボブ is still held by s3
    assert!(reg.try_reserve(&named(&[("b", "ボブ")]), "s5").is_err());
}

#[test]
fn registry_stop_flags() {
    let mut reg = SessionRegistry::new();
    assert!(!reg.is_stopped("s1"));
    reg.set_stop("s1");
    reg.set_stop("s1");
    assert!(reg.is_stopped("s1"));
    assert!(!reg.is_stopped("s2"));
    reg.clear_stop("s1");
    assert!(!reg.is_stopped("s1"));
    reg.set_stop("s2");
    reg.release_session("s2");
    assert!(!reg.is_stopped("s2"));
}

#[test]
fn session_kinds_and_counts() {
    assert!(check_session_request("user_dialogue", 1).is_ok());
    assert!(check_session_request("autonomous", 2).is_ok());
    assert!(check_session_request("group", 6).is_ok());
    let err = check_session_request("autonomous", 1).unwrap_err();
    assert_eq!(err.kind(), "validation");
    assert_eq!(
        err.message(),
        "参加ペルソナ数が不正です (1対1対話は1体、自律会話・グループは2〜6体)"
    );
    assert!(check_session_request("autonomous", 7).is_err());
    assert!(check_session_request("user_dialogue", 2).is_err());
    assert_eq!(check_session_request("chat", 1).unwrap_err().message(), "不明なセッション種別: chat");
}

#[test]
fn opening_a_session_reserves_its_personas() {
    let mut reg = SessionRegistry::new();
    let ps = named(&[("a", "アリス"), ("b", "ボブ")]);
    let s = open_session("autonomous", "旅行", &ps, &mut reg).unwrap();
    assert_eq!(s.kind, "autonomous");
    assert_eq!(s.theme, "旅行");
    assert_eq!(s.status, "active");
    assert!(s.ended_at.is_none());
    assert_eq!(s.participant_ids, vec!["a".to_string(), "b".to_string()]);
    assert_eq!(s.participant_names, vec!["アリス".to_string(), "ボブ".to_string()]);
    assert_eq!(s.id.len(), 36);
    let err = open_session("group", "", &named(&[("c", "キャロル"), ("b", "ボブ")]), &mut reg).unwrap_err();
    assert_eq!(err.message(), "「ボブ」は別の会話に参加中です");
    reg.release_session(&s.id);
    assert!(open_session("group", "", &named(&[("c", "キャロル"), ("b", "ボブ")]), &mut reg).is_ok());
}

fn session(kind: &str, status: &str, ids: &[&str], names: &[&str]) -> Session {
    Session {
        id: "s".into(),
        kind: kind.into(),
        theme: String::new(),
        status: status.into(),
        started_at: 0,
        ended_at: None,
        participant_ids: ids.iter().map(|x| x.to_string()).collect(),
        participant_names: names.iter().map(|x| x.to_string()).collect(),
    }
}

#[test]
fn active_sessions_of_a_kind() {
    let msg = "進行中の1対1セッションではありません";
    let s = session("user_dialogue", "active", &["a"], &["アリス"]);
    assert!(require_active(Some(s.clone()), "user_dialogue", msg).is_ok());
    assert_eq!(require_active(Some(s), "group", msg).unwrap_err().message(), msg);
    let ended = session("user_dialogue", "ended", &["a"], &["アリス"]);
    assert_eq!(require_active(Some(ended), "user_dialogue", msg).unwrap_err().kind(), "validation");
    assert!(require_active(None, "user_dialogue", msg).is_err());
}

#[test]
fn ending_sessions() {
    assert_eq!(ending_marks_ended(None).unwrap_err().kind(), "not_found");
    assert!(ending_marks_ended(Some(&session("group", "active", &[], &[]))).unwrap());
    assert!(!ending_marks_ended(Some(&session("group", "ended", &[], &[]))).unwrap());
}

fn views(ts: &[PartnerTarget]) -> Vec<(String, String, String)> {
    ts.iter().map(|t| (t.kind.clone(), t.id.clone(), t.name.clone())).collect()
}

fn v(k: &str, i: &str, n: &str) -> (String, String, String) {
    (k.to_string(), i.to_string(), n.to_string())
}

#[test]
fn partners_per_session_kind() {
    let d = session("user_dialogue", "active", &["a"], &["アリス"]);
    assert_eq!(views(&conversation_partners(&d, "a")), vec![v("user", "user", "ユーザー")]);
    let a = session("autonomous", "active", &["a", "b", "c"], &["アリス", "ボブ", "キャロル"]);
    assert_eq!(
        views(&conversation_partners(&a, "b")),
        vec![v("persona", "a", "アリス"), v("persona", "c", "キャロル")]
    );
    let g = session("group", "active", &["a", "b"], &["アリス", "ボブ"]);
    assert_eq!(
        views(&conversation_partners(&g, "a")),
        vec![v("persona", "b", "ボブ"), v("user", "user", "ユーザー")]
    );
}

fn utt(content: &str) -> Utterance {
    Utterance {
        id: "u".into(),
        session_id: "s".into(),
        speaker_kind: "user".into(),
        speaker_id: "user".into(),
        speaker_name: "ユーザー".into(),
        content: content.into(),
        state: "complete".into(),
        created_at: 0,
    }
}

#[test]
fn recall_query_uses_last_three_newest_first() {
    let h = vec![utt("1"), utt("2"), utt("3"), utt("4")];
    assert_eq!(recall_query(&h), "4\n3\n2");
    assert_eq!(recall_query(&h[..1]), "1");
    assert_eq!(recall_query(&[]), "");
}

#[test]
fn empty_completion_is_a_generation_failure() {
    let err = completion_state(false, " \n ").unwrap_err();
    assert_eq!(err.kind(), "generation");
    assert_eq!(err.message(), "応答が空でした");
    assert_eq!(completion_state(true, "").unwrap(), "canceled");
    assert_eq!(completion_state(false, "はい").unwrap(), "complete");
    assert_eq!(generation_error(InferError::Connection("x".into())).kind(), "connection");
    assert_eq!(generation_error(InferError::Generation("y".into())).message(), "y");
}

#[test]
fn autonomous_round_robin_and_limits() {
    let mut run = AutonomousRun::new(3, 2);
    let mut order = Vec::new();
    while let Some(i) = run.next_speaker(false) {
        order.push(i);
        run.record_reply(true);
    }
    // the setting 3 is used as is
    assert_eq!(order, vec![0, 1, 0]);
    assert_eq!(auto_turn_limit(999), 50);
    assert_eq!(auto_turn_limit(1), 2);
    let three = AutonomousRun::new(6, 3);
    assert_eq!(three.next_speaker(false), Some(0));
    assert_eq!(three.next_speaker(true), None);
}

#[test]
fn autonomous_stops_after_two_failures() {
    let mut run = AutonomousRun::new(10, 2);
    run.record_reply(false);
    assert_eq!(run.next_speaker(false), Some(1));
    run.record_reply(true);
    run.record_reply(false);
    assert!(run.next_speaker(false).is_some());
    run.record_reply(false);
    assert_eq!(run.next_speaker(false), None);
    assert_eq!(run.turn, 4);
}

#[test]
fn autonomous_topic_shift_limit() {
    let mut run = AutonomousRun::new(10, 2);
    assert!(run.may_shift_topic(2));
    run.record_topic_shift(2);
    run.record_topic_shift(2);
    assert!(!run.may_shift_topic(2));
}

#[test]
fn group_chain_rules() {
    let ps = vec![("a".to_string(), "アリス".to_string())];
    assert_eq!(named_first_speaker(Some("a"), &ps).as_deref(), Some("a"));
    assert_eq!(named_first_speaker(Some("z"), &ps), None);
    assert_eq!(named_first_speaker(None, &ps), None);
    assert!(chain_continues(0, 2, false));
    assert!(!chain_continues(2, 2, false));
    assert!(!chain_continues(0, 2, true));
}

#[test]
fn greeting_rules() {
    assert!(greeting_wanted(true, false));
    assert!(!greeting_wanted(false, false));
    assert!(!greeting_wanted(true, true));
    let now = 10 * 3_600_000;
    assert!(greeting_interval_passed(None, now, 60));
    assert!(!greeting_interval_passed(Some(now - 59 * 60_000), now, 60));
    assert!(greeting_interval_passed(Some(now - 60 * 60_000), now, 60));
    // a clock that went back counts as no time passed
    assert!(!greeting_interval_passed(Some(now + 60_000), now, 1));
}

#[test]
fn user_utterances() {
    let u = user_utterance("s1", "やあ");
    assert_eq!(u.session_id, "s1");
    assert_eq!(u.speaker_kind, "user");
    assert_eq!(u.speaker_name, "ユーザー");
    assert_eq!(u.content, "やあ");
    assert_eq!(u.state, "complete");
}

#[test]
fn memory_integer_rules() {
    assert_eq!(archive_quota(12, 10), 2);
    assert_eq!(archive_quota(9, 10), 0);
    assert_eq!(archive_cutoff(31 * 86_400_000), 86_400_000);
    assert!(archivable(1, 2));
    assert!(!archivable(2, 2));
    assert_eq!(recall_count(-3), 0);
    assert_eq!(recall_count(8), 8);
    assert!(cluster_ready(5, 5));
    assert!(!cluster_ready(4, 5));
    assert!(cluster_ready(2, 0));
    assert!(!cluster_ready(1, 0));
}

#[test]
fn search_patterns_escape_wildcards() {
    assert_eq!(search_pattern("  50%_off\\ "), Some("50\\%\\_off\\\\".to_string()));
    assert_eq!(search_pattern("カレー"), Some("カレー".to_string()));
    assert_eq!(search_pattern(" \n "), None);
}

#[test]
fn autonomous_full_run_then_over() {
    let mut run = AutonomousRun::new(5, 3);
    let mut order = Vec::new();
    while let Some(i) = run.next_speaker(false) {
        assert_eq!(i as i64, run.turn % 3);
        order.push(i);
        run.record_reply(true);
    }
    assert_eq!(order, vec![0, 1, 2, 0, 1]);
    assert_eq!(run.turn, run.limit);
    assert_eq!(run.next_speaker(false), None);
}

#[test]
fn group_chain_makes_at_most_limit_follow_ups() {
    for limit in [-1i64, 0, 1, 3] {
        let mut chained = 0i64;
        let mut replies = 1;
        while chain_continues(chained, limit, false) {
            chained += 1;
            replies += 1;
        }
        assert_eq!(replies, 1 + limit.max(0));
    }
    assert!(!chain_continues(0, 3, true));
}

#[test]
fn reply_outcomes() {
    match reply_outcome(Err(InferError::Connection("refused".into()))) {
        ReplyOutcome::Fail { error, kind, message } => {
            assert_eq!(error.kind(), "connection");
            assert_eq!(kind, "connection");
            assert_eq!(message, "推論エンジンに接続できません: refused");
        }
        _ => panic!("expected a failure"),
    }
    match reply_outcome(Ok(StreamOutcome { text: "  \n".into(), canceled: false })) {
        ReplyOutcome::Fail { error, kind, message } => {
            assert_eq!(error.kind(), "generation");
            assert_eq!(error.message(), "応答が空でした");
            assert_eq!(kind, "generation");
            assert_eq!(message, EMPTY_REPLY_NOTICE);
        }
        _ => panic!("expected a failure"),
    }
    match reply_outcome(Ok(StreamOutcome { text: "".into(), canceled: true })) {
        ReplyOutcome::Store { text, state } => {
            assert_eq!(text, "");
            assert_eq!(state, "canceled");
        }
        _ => panic!("expected a stored reply"),
    }
    match reply_outcome(Ok(StreamOutcome { text: "はい".into(), canceled: false })) {
        ReplyOutcome::Store { text, state } => {
            assert_eq!(text, "はい");
            assert_eq!(state, "complete");
        }
        _ => panic!("expected a stored reply"),
    }
}
