//! Prompt assembly: the system prompt of a persona, the speaker-selection and
//! topic-shift prompts, and the fitting of the history into a character budget.

use vstd::prelude::*;

use crate::inference::ChatMessage;
use crate::models::{
    local_date_shape, Memory, Persona, Relationship, Session, Settings, TraitValue, Utterance,
    MOOD_NEUTRAL_BAND,
};
use crate::personality::{trait_index, trait_label_ja, trait_label_of, trait_label_spec};
use crate::text::{digit_char, int_text, nat_digits, occurs_at, owned, push_int, seq_contains, str_eq};

verus! {

// ---------- elapsed time since the last talk ----------

pub const ELAPSED_SHORT_TEXT: &'static str = "前回の会話から少し間が空いている";

pub const ELAPSED_LONG_TEXT: &'static str = "前回会話してから長い間が空いている";

/// Label for the time since the last talk: none below the short threshold or when
/// the clock went backwards; then "a little while", "about N days", "a long time".
pub open spec fn elapsed_label_spec(last: Option<i64>, now: int, s: Settings) -> Option<Seq<char>> {
    match last {
        None => None,
        Some(l) => {
            let elapsed = now - l;
            if elapsed < 0 {
                None
            } else {
                let hours = elapsed / 3_600_000;
                let days = hours / 24;
                if hours < s.elapsed_short_hours {
                    None
                } else if hours < s.elapsed_mid_hours {
                    Some(ELAPSED_SHORT_TEXT@)
                } else if days < s.elapsed_long_days {
                    Some("前回の会話から約"@ + int_text(days) + "日ぶりである"@)
                } else {
                    Some(ELAPSED_LONG_TEXT@)
                }
            }
        },
    }
}

pub fn elapsed_label(last_talked_at: Option<i64>, now_ms: i64, s: &Settings) -> (r: Option<String>)
    requires
        last_talked_at matches Some(l) ==> i64::MIN <= now_ms - l <= i64::MAX,
    ensures
        match r {
            Some(t) => elapsed_label_spec(last_talked_at, now_ms as int, *s) == Some(t@),
            None => elapsed_label_spec(last_talked_at, now_ms as int, *s) is None,
        },
{
    let last = match last_talked_at {
        Some(l) => l,
        None => {
            return None;
        },
    };
    let elapsed_ms = now_ms - last;
    if elapsed_ms < 0 {
        return None;
    }
    let hours = elapsed_ms / 3_600_000;
    let days = hours / 24;
    if hours < s.elapsed_short_hours {
        None
    } else if hours < s.elapsed_mid_hours {
        Some(owned(ELAPSED_SHORT_TEXT))
    } else if days < s.elapsed_long_days {
        let mut t = String::from_str("前回の会話から約");
        push_int(&mut t, days);
        t.append("日ぶりである");
        Some(t)
    } else {
        Some(owned(ELAPSED_LONG_TEXT))
    }
}

// ---------- mood, traits and intimacy in words ----------

/// The mood in words; none inside the neutral band.
pub open spec fn mood_phrase_spec(value: int, label: Seq<char>) -> Option<Seq<char>> {
    let a = if value < 0 {
        -value
    } else {
        value
    };
    if a < MOOD_NEUTRAL_BAND {
        None
    } else {
        let degree = if a <= 39 {
            "少し"@
        } else if a <= 69 {
            ""@
        } else {
            "とても"@
        };
        let dir = if value > 0 {
            "前向きな気分"@
        } else {
            "沈んだ気分"@
        };
        let l = if label.len() == 0 {
            dir
        } else {
            label
        };
        Some("今は"@ + degree + l + "("@ + dir + ")"@)
    }
}

pub fn mood_phrase(value: i64, label: &str) -> (r: Option<String>)
    requires
        value != i64::MIN,
    ensures
        match r {
            Some(t) => mood_phrase_spec(value as int, label@) == Some(t@),
            None => mood_phrase_spec(value as int, label@) is None,
        },
{
    let a = if value < 0 {
        -value
    } else {
        value
    };
    if a < MOOD_NEUTRAL_BAND {
        return None;
    }
    let degree = if a <= 39 {
        "少し"
    } else if a <= 69 {
        ""
    } else {
        "とても"
    };
    let dir = if value > 0 {
        "前向きな気分"
    } else {
        "沈んだ気分"
    };
    let mut t = String::from_str("今は");
    t.append(degree);
    if label.unicode_len() == 0 {
        t.append(dir);
    } else {
        t.append(label);
    }
    t.append("(");
    t.append(dir);
    t.append(")");
    Some(t)
}

/// Degree word of a trait value (negative values read as "very high").
pub open spec fn trait_degree(v: int) -> Seq<char> {
    if 0 <= v <= 19 {
        "とても低い"@
    } else if 20 <= v <= 39 {
        "低め"@
    } else if 40 <= v <= 59 {
        "ふつう"@
    } else if 60 <= v <= 79 {
        "高め"@
    } else {
        "とても高い"@
    }
}

fn trait_degree_str(v: i64) -> (r: &'static str)
    ensures
        r@ == trait_degree(v as int),
{
    if 0 <= v && v <= 19 {
        "とても低い"
    } else if 20 <= v && v <= 39 {
        "低め"
    } else if 40 <= v && v <= 59 {
        "ふつう"
    } else if 60 <= v && v <= 79 {
        "高め"
    } else {
        "とても高い"
    }
}

/// "label: degree(value/100)".
pub open spec fn trait_phrase_spec(key: Seq<char>, value: int) -> Seq<char> {
    trait_label_spec(key) + ": "@ + trait_degree(value) + "("@ + int_text(value) + "/100)"@
}

/// A trait axis in words, e.g. "社交性: 高め(72/100)".
pub fn trait_phrase(key: &str, value: i64) -> (r: String)
    ensures
        r@ == trait_phrase_spec(key@, value as int),
{
    let mut s = owned(trait_label_ja(key));
    s.append(": ");
    s.append(trait_degree_str(value));
    s.append("(");
    push_int(&mut s, value);
    s.append("/100)");
    s
}

/// How close the persona feels to a partner, by intimacy.
pub open spec fn intimacy_phrase_spec(v: int) -> Seq<char> {
    if 0 <= v <= 19 {
        "初対面に近い距離感。丁寧に、少し遠慮がちに接する"@
    } else if 20 <= v <= 39 {
        "知り合い程度。礼儀正しく接する"@
    } else if 40 <= v <= 59 {
        "打ち解けてきた相手。肩の力を抜いて話す"@
    } else if 60 <= v <= 79 {
        "親しい相手。気軽に、率直に話す"@
    } else {
        "とても親しい相手。心を開いて話す"@
    }
}

pub fn intimacy_phrase(v: i64) -> (r: &'static str)
    ensures
        r@ == intimacy_phrase_spec(v as int),
{
    if 0 <= v && v <= 19 {
        "初対面に近い距離感。丁寧に、少し遠慮がちに接する"
    } else if 20 <= v && v <= 39 {
        "知り合い程度。礼儀正しく接する"
    } else if 40 <= v && v <= 59 {
        "打ち解けてきた相手。肩の力を抜いて話す"
    } else if 60 <= v && v <= 79 {
        "親しい相手。気軽に、率直に話す"
    } else {
        "とても親しい相手。心を開いて話す"
    }
}

// ---------- the system prompt ----------

/// One conversation partner (all others in an autonomous talk or group chat).
pub struct PartnerInfo<'a> {
    pub name: &'a str,
    pub relationship: Option<&'a Relationship>,
}

pub const RULES_TEXT: &'static str =
    "\n## 会話のルール\n\
     - 上記の記憶とこの会話に出てきていないことを、知っている・覚えているかのように話さない。知らないことは正直に「知らない」「覚えていない」と言う\n\
     - 設定された口調を一貫して保つ\n\
     - 1回の発言は短く自然に(2〜4文程度)。地の文や説明は書かず、発言のみを出力する\n";

/// Section 1: who the persona is.
pub open spec fn head_section(p: Persona) -> Seq<char> {
    "あなたは「"@ + p.name@ + "」という人物として会話する。\n## あなたの人物像\n性格: "@
        + p.description@ + "\n口調: "@ + p.speech_style@ + "\n価値観: "@ + p.values_text@
        + "\n自己紹介: "@ + p.self_intro@ + "\n"@
}

/// One bullet per trait axis.
pub open spec fn trait_lines(traits: Seq<TraitValue>) -> Seq<char>
    decreases traits.len(),
{
    if traits.len() == 0 {
        Seq::empty()
    } else {
        trait_lines(traits.drop_last()) + "- "@ + trait_phrase_spec(
            traits.last().key@,
            traits.last().value as int,
        ) + "\n"@
    }
}

pub open spec fn traits_section(traits: Seq<TraitValue>) -> Seq<char> {
    if traits.len() == 0 {
        Seq::empty()
    } else {
        "\n## 現在の性格傾向\n"@ + trait_lines(traits)
    }
}

pub open spec fn mood_section(mood: Option<Seq<char>>) -> Seq<char> {
    match mood {
        Some(m) => "\n## 今の気分\n"@ + m + "\n"@,
        None => Seq::empty(),
    }
}

/// The partner names joined by "、".
pub open spec fn joined_names(ps: Seq<PartnerInfo>) -> Seq<char>
    decreases ps.len(),
{
    if ps.len() == 0 {
        Seq::empty()
    } else if ps.len() == 1 {
        ps[0].name@
    } else {
        joined_names(ps.drop_last()) + "、"@ + ps.last().name@
    }
}

pub open spec fn partner_header(ps: Seq<PartnerInfo>) -> Seq<char> {
    if ps.len() == 1 {
        "\n## 会話相手: "@ + ps[0].name@ + "\n"@
    } else {
        "\n## 会話相手 (複数): "@ + joined_names(ps) + "\n"@
    }
}

/// What the persona knows of one partner.
pub open spec fn partner_block(p: PartnerInfo, many: bool) -> Seq<char> {
    let title = if many {
        "### "@ + p.name@ + "\n"@
    } else {
        Seq::empty()
    };
    let body = match p.relationship {
        Some(rel) => "- 距離感: "@ + intimacy_phrase_spec(rel.intimacy as int) + "\n"@ + if rel.impression_text@.len()
            > 0 {
            "- あなたが抱いている印象: "@ + rel.impression_text@ + "\n"@
        } else {
            Seq::empty()
        },
        None => "- 初対面の相手である\n"@,
    };
    title + body
}

pub open spec fn partner_blocks(ps: Seq<PartnerInfo>, many: bool) -> Seq<char>
    decreases ps.len(),
{
    if ps.len() == 0 {
        Seq::empty()
    } else {
        partner_blocks(ps.drop_last(), many) + partner_block(ps.last(), many)
    }
}

pub open spec fn theme_section(theme: Option<Seq<char>>) -> Seq<char> {
    match theme {
        Some(t) => if t.len() > 0 {
            "\n## 会話のテーマ\n"@ + t + "\n"@
        } else {
            Seq::empty()
        },
        None => Seq::empty(),
    }
}

pub open spec fn elapsed_section(e: Option<Seq<char>>) -> Seq<char> {
    match e {
        Some(t) => "\n## 前回からの経過\n"@ + t + "。自然な範囲でこのことに触れてよい\n"@,
        None => Seq::empty(),
    }
}

/// One bullet per recalled memory, with its date.
pub open spec fn memory_lines(ms: Seq<Memory>, dates: Seq<String>) -> Seq<char>
    decreases ms.len(),
{
    if ms.len() == 0 {
        Seq::empty()
    } else {
        let n = ms.len() - 1;
        memory_lines(ms.drop_last(), dates) + "- ["@ + dates[n]@ + "] "@ + ms[n].content@ + "\n"@
    }
}

pub open spec fn memory_section(ms: Seq<Memory>, dates: Seq<String>) -> Seq<char> {
    if ms.len() == 0 {
        Seq::empty()
    } else {
        "\n## あなたの記憶 (関連する過去の出来事)\n"@ + memory_lines(ms, dates)
    }
}

/// The whole system prompt, section by section.
pub open spec fn system_text(
    p: Persona,
    traits: Seq<TraitValue>,
    partners: Seq<PartnerInfo>,
    memories: Seq<Memory>,
    dates: Seq<String>,
    theme: Option<Seq<char>>,
    mood: Option<Seq<char>>,
    elapsed: Option<Seq<char>>,
) -> Seq<char> {
    head_section(p) + traits_section(traits) + mood_section(mood) + partner_header(partners)
        + partner_blocks(partners, partners.len() > 1) + theme_section(theme) + elapsed_section(
        elapsed,
    ) + memory_section(memories, dates) + RULES_TEXT@
}

pub open spec fn opt_view(o: Option<&str>) -> Option<Seq<char>> {
    match o {
        Some(s) => Some(s@),
        None => None,
    }
}

proof fn lemma_contains_start(n: Seq<char>, rest: Seq<char>)
    ensures
        seq_contains(n + rest, n),
{
    assert((n + rest).subrange(0, n.len() as int) =~= n);
    assert(occurs_at(n + rest, n, 0));
}

proof fn lemma_contains_append(x: Seq<char>, y: Seq<char>, n: Seq<char>)
    requires
        seq_contains(x, n),
    ensures
        seq_contains(x + y, n),
{
    let i = choose|i: int| occurs_at(x, n, i);
    assert((x + y).subrange(i, i + n.len()) =~= x.subrange(i, i + n.len()));
    assert(occurs_at(x + y, n, i));
}

proof fn lemma_contains_prepend(y: Seq<char>, x: Seq<char>, n: Seq<char>)
    requires
        seq_contains(x, n),
    ensures
        seq_contains(y + x, n),
{
    let i = choose|i: int| occurs_at(x, n, i);
    assert((y + x).subrange(y.len() + i, y.len() + i + n.len()) =~= x.subrange(i, i + n.len()));
    assert(occurs_at(y + x, n, y.len() + i));
}

proof fn lemma_system_opening(p: Persona, rest: Seq<char>)
    ensures
        ({
            let t = head_section(p) + rest;
            let first = "あなたは「"@ + p.name@ + "」という人物として会話する。\n"@;
            first.len() <= t.len() && t.subrange(0, first.len() as int) == first
        }),
{
    reveal_strlit("」という人物として会話する。\n## あなたの人物像\n性格: ");
    reveal_strlit("」という人物として会話する。\n");
    let first = "あなたは「"@ + p.name@ + "」という人物として会話する。\n"@;
    let t = head_section(p) + rest;
    assert forall|i: int| 0 <= i < first.len() implies t[i] == first[i] by {
        let a = "あなたは「"@;
        if i >= a.len() + p.name@.len() {
            let j = i - a.len() - p.name@.len();
            assert("」という人物として会話する。\n"@[j] == "」という人物として会話する。\n## あなたの人物像\n性格: "@[j]);
        }
    }
    assert(t.subrange(0, first.len() as int) =~= first);
}

/// The system prompt opens with the persona's line, carries the heading of
/// each optional section that is given (traits, mood, a non-empty theme, the
/// time since the last talk, memories) and ends with the rules. That a heading
/// is missing when its section is not given is stated by the
/// `law_system_*_heading` laws, one for each optional section.
#[verifier::rlimit(60)]
#[verifier::spinoff_prover]
pub proof fn law_system_sections(
    p: Persona,
    traits: Seq<TraitValue>,
    partners: Seq<PartnerInfo>,
    memories: Seq<Memory>,
    dates: Seq<String>,
    theme: Option<Seq<char>>,
    mood: Option<Seq<char>>,
    elapsed: Option<Seq<char>>,
)
    ensures
        ({
            let t = system_text(p, traits, partners, memories, dates, theme, mood, elapsed);
            let first = "あなたは「"@ + p.name@ + "」という人物として会話する。\n"@;
            &&& first.len() <= t.len() && t.subrange(0, first.len() as int) == first
            &&& traits.len() > 0 ==> seq_contains(t, "\n## 現在の性格傾向\n"@)
            &&& mood is Some ==> seq_contains(t, "\n## 今の気分\n"@)
            &&& (theme matches Some(th) && th.len() > 0) ==> seq_contains(t, "\n## 会話のテーマ\n"@)
            &&& elapsed is Some ==> seq_contains(t, "\n## 前回からの経過\n"@)
            &&& memories.len() > 0 ==> seq_contains(
                t,
                "\n## あなたの記憶 (関連する過去の出来事)\n"@,
            )
            &&& RULES_TEXT@.len() <= t.len() && t.subrange(
                t.len() - RULES_TEXT@.len(),
                t.len() as int,
            ) == RULES_TEXT@
        }),
{
    let h = head_section(p);
    let ts = traits_section(traits);
    let md = mood_section(mood);
    let ph = partner_header(partners);
    let pb = partner_blocks(partners, partners.len() > 1);
    let th = theme_section(theme);
    let el = elapsed_section(elapsed);
    let me = memory_section(memories, dates);
    let ru = RULES_TEXT@;
    let t = system_text(p, traits, partners, memories, dates, theme, mood, elapsed);
    assert(t =~= h + (ts + md + ph + pb + th + el + me + ru));
    lemma_system_opening(p, ts + md + ph + pb + th + el + me + ru);
    let s1 = h + ts;
    let s2 = s1 + md;
    let s3 = s2 + ph;
    let s4 = s3 + pb;
    let s5 = s4 + th;
    let s6 = s5 + el;
    let s7 = s6 + me;
    assert(t == s7 + ru);
    if traits.len() > 0 {
        let n = "\n## 現在の性格傾向\n"@;
        lemma_contains_start(n, trait_lines(traits));
        lemma_contains_prepend(h, ts, n);
        lemma_contains_append(s1, md, n);
        lemma_contains_append(s2, ph, n);
        lemma_contains_append(s3, pb, n);
        lemma_contains_append(s4, th, n);
        lemma_contains_append(s5, el, n);
        lemma_contains_append(s6, me, n);
        lemma_contains_append(s7, ru, n);
    }
    if let Some(m) = mood {
        let n = "\n## 今の気分\n"@;
        assert(md =~= n + (m + "\n"@));
        lemma_contains_start(n, m + "\n"@);
        lemma_contains_prepend(s1, md, n);
        lemma_contains_append(s2, ph, n);
        lemma_contains_append(s3, pb, n);
        lemma_contains_append(s4, th, n);
        lemma_contains_append(s5, el, n);
        lemma_contains_append(s6, me, n);
        lemma_contains_append(s7, ru, n);
    }
    if let Some(x) = theme {
        if x.len() > 0 {
            let n = "\n## 会話のテーマ\n"@;
            assert(th =~= n + (x + "\n"@));
            lemma_contains_start(n, x + "\n"@);
            lemma_contains_prepend(s4, th, n);
            lemma_contains_append(s5, el, n);
            lemma_contains_append(s6, me, n);
            lemma_contains_append(s7, ru, n);
        }
    }
    if let Some(x) = elapsed {
        let n = "\n## 前回からの経過\n"@;
        let b = x + "。自然な範囲でこのことに触れてよい\n"@;
        assert(el =~= n + b);
        lemma_contains_start(n, b);
        lemma_contains_prepend(s5, el, n);
        lemma_contains_append(s6, me, n);
        lemma_contains_append(s7, ru, n);
    }
    if memories.len() > 0 {
        let n = "\n## あなたの記憶 (関連する過去の出来事)\n"@;
        lemma_contains_start(n, memory_lines(memories, dates));
        lemma_contains_prepend(s6, me, n);
        lemma_contains_append(s7, ru, n);
    }
    assert(t.subrange(t.len() - ru.len(), t.len() as int) =~= ru);
}

/// The topic-change request opens with its fixed request, names the original
/// theme when there is one, and ends with the recent-conversation section (the
/// last four utterances, oldest first) and the closing instruction.
#[verifier::rlimit(40)]
#[verifier::spinoff_prover]
pub proof fn law_topic_shift_shape(theme: Seq<char>, history: Seq<Utterance>)
    ensures
        ({
            let t = topic_shift_text(theme, history);
            let tail = "## 直近の会話\n"@ + utterance_lines(last_n(history, 4)) + TOPIC_SHIFT_TAIL@;
            &&& TOPIC_SHIFT_HEAD@.len() <= t.len()
            &&& t.subrange(0, TOPIC_SHIFT_HEAD@.len() as int) == TOPIC_SHIFT_HEAD@
            &&& theme.len() > 0 ==> seq_contains(t, "元のテーマ: "@ + theme + "\n"@)
            &&& tail.len() <= t.len() && t.subrange(t.len() - tail.len(), t.len() as int) == tail
        }),
{
    let hd = TOPIC_SHIFT_HEAD@;
    let th = if theme.len() > 0 {
        "元のテーマ: "@ + theme + "\n"@
    } else {
        Seq::empty()
    };
    let tail = "## 直近の会話\n"@ + utterance_lines(last_n(history, 4)) + TOPIC_SHIFT_TAIL@;
    let t = topic_shift_text(theme, history);
    assert(t =~= hd + th + tail);
    assert(t.subrange(0, hd.len() as int) =~= hd);
    if theme.len() > 0 {
        lemma_contains_start(th, Seq::empty());
        assert(th + Seq::<char>::empty() =~= th);
        lemma_contains_prepend(hd, th, th);
        lemma_contains_append(hd + th, tail, th);
    }
    assert(t.subrange(t.len() - tail.len(), t.len() as int) =~= tail);
}

fn head_string(p: &Persona) -> (r: String)
    ensures
        r@ == head_section(*p),
{
    let mut s = String::from_str("あなたは「");
    s.append(p.name.as_str());
    s.append("」という人物として会話する。\n## あなたの人物像\n性格: ");
    s.append(p.description.as_str());
    s.append("\n口調: ");
    s.append(p.speech_style.as_str());
    s.append("\n価値観: ");
    s.append(p.values_text.as_str());
    s.append("\n自己紹介: ");
    s.append(p.self_intro.as_str());
    s.append("\n");
    s
}

fn traits_string(traits: &[TraitValue]) -> (r: String)
    ensures
        r@ == traits_section(traits@),
{
    if traits.len() == 0 {
        return String::new();
    }
    let mut lines = String::new();
    let mut i: usize = 0;
    while i < traits.len()
        invariant
            i <= traits.len(),
            lines@ == trait_lines(traits@.take(i as int)),
        decreases traits.len() - i,
    {
        assert(traits@.take(i + 1).drop_last() == traits@.take(i as int));
        lines.append("- ");
        let ph = trait_phrase(traits[i].key.as_str(), traits[i].value);
        lines.append(ph.as_str());
        lines.append("\n");
        i = i + 1;
    }
    assert(traits@.take(traits.len() as int) == traits@);
    let mut s = String::from_str("\n## 現在の性格傾向\n");
    s.append(lines.as_str());
    s
}

fn mood_string(mood: Option<&str>) -> (r: String)
    ensures
        r@ == mood_section(opt_view(mood)),
{
    match mood {
        Some(m) => {
            let mut s = String::from_str("\n## 今の気分\n");
            s.append(m);
            s.append("\n");
            s
        },
        None => String::new(),
    }
}

fn names_string(partners: &[PartnerInfo]) -> (r: String)
    ensures
        r@ == joined_names(partners@),
{
    let n = partners.len();
    let mut s = String::new();
    let mut i: usize = 0;
    while i < n
        invariant
            n == partners.len(),
            i <= n,
            s@ == joined_names(partners@.take(i as int)),
        decreases n - i,
    {
        assert(partners@.take(i + 1).drop_last() == partners@.take(i as int));
        if i > 0 {
            s.append("、");
        } else {
            assert(s@ == Seq::<char>::empty());
        }
        s.append(partners[i].name);
        i = i + 1;
    }
    assert(partners@.take(n as int) == partners@);
    s
}

fn header_string(partners: &[PartnerInfo]) -> (r: String)
    ensures
        r@ == partner_header(partners@),
{
    if partners.len() == 1 {
        let mut s = String::from_str("\n## 会話相手: ");
        s.append(partners[0].name);
        s.append("\n");
        s
    } else {
        let mut s = String::from_str("\n## 会話相手 (複数): ");
        let names = names_string(partners);
        s.append(names.as_str());
        s.append("\n");
        s
    }
}

fn block_string(p: &PartnerInfo, many: bool) -> (r: String)
    ensures
        r@ == partner_block(*p, many),
{
    let mut title = String::new();
    if many {
        title.append("### ");
        title.append(p.name);
        title.append("\n");
    }
    let body = match p.relationship {
        Some(rel) => {
            let mut b = String::from_str("- 距離感: ");
            b.append(intimacy_phrase(rel.intimacy));
            b.append("\n");
            let mut imp = String::new();
            if rel.impression_text.unicode_len() > 0 {
                imp.append("- あなたが抱いている印象: ");
                imp.append(rel.impression_text.as_str());
                imp.append("\n");
            }
            b.append(imp.as_str());
            b
        },
        None => String::from_str("- 初対面の相手である\n"),
    };
    title.append(body.as_str());
    title
}

fn blocks_string(partners: &[PartnerInfo]) -> (r: String)
    ensures
        r@ == partner_blocks(partners@, partners@.len() > 1),
{
    let n = partners.len();
    let many = n > 1;
    let mut s = String::new();
    let mut i: usize = 0;
    while i < n
        invariant
            n == partners.len(),
            many == (n > 1),
            i <= n,
            s@ == partner_blocks(partners@.take(i as int), many),
        decreases n - i,
    {
        assert(partners@.take(i + 1).drop_last() == partners@.take(i as int));
        let b = block_string(&partners[i], many);
        s.append(b.as_str());
        i = i + 1;
    }
    assert(partners@.take(n as int) == partners@);
    s
}

fn theme_string(theme: Option<&str>) -> (r: String)
    ensures
        r@ == theme_section(opt_view(theme)),
{
    match theme {
        Some(t) => if t.unicode_len() > 0 {
            let mut s = String::from_str("\n## 会話のテーマ\n");
            s.append(t);
            s.append("\n");
            s
        } else {
            String::new()
        },
        None => String::new(),
    }
}

fn elapsed_string(elapsed: Option<&str>) -> (r: String)
    ensures
        r@ == elapsed_section(opt_view(elapsed)),
{
    match elapsed {
        Some(e) => {
            let mut s = String::from_str("\n## 前回からの経過\n");
            s.append(e);
            s.append("。自然な範囲でこのことに触れてよい\n");
            s
        },
        None => String::new(),
    }
}

fn memories_string(memories: &[Memory], dates: &[String]) -> (r: String)
    requires
        dates@.len() == memories@.len(),
    ensures
        r@ == memory_section(memories@, dates@),
{
    if memories.len() == 0 {
        return String::new();
    }
    let mut lines = String::new();
    let mut i: usize = 0;
    while i < memories.len()
        invariant
            dates@.len() == memories@.len(),
            i <= memories.len(),
            lines@ == memory_lines(memories@.take(i as int), dates@),
        decreases memories.len() - i,
    {
        assert(memories@.take(i + 1).drop_last() == memories@.take(i as int));
        lines.append("- [");
        lines.append(dates[i].as_str());
        lines.append("] ");
        lines.append(memories[i].content.as_str());
        lines.append("\n");
        i = i + 1;
    }
    assert(memories@.take(memories.len() as int) == memories@);
    let mut s = String::from_str("\n## あなたの記憶 (関連する過去の出来事)\n");
    s.append(lines.as_str());
    s
}

/// The system prompt with the display date of each memory given.
pub fn build_system_dated(
    persona: &Persona,
    traits: &[TraitValue],
    partners: &[PartnerInfo],
    memories: &[Memory],
    dates: &[String],
    theme: Option<&str>,
    mood: Option<&str>,
    elapsed: Option<&str>,
) -> (r: String)
    requires
        dates@.len() == memories@.len(),
    ensures
        r@ == system_text(
            *persona,
            traits@,
            partners@,
            memories@,
            dates@,
            opt_view(theme),
            opt_view(mood),
            opt_view(elapsed),
        ),
{
    let mut s = head_string(persona);
    s.append(traits_string(traits).as_str());
    s.append(mood_string(mood).as_str());
    s.append(header_string(partners).as_str());
    s.append(blocks_string(partners).as_str());
    s.append(theme_string(theme).as_str());
    s.append(elapsed_string(elapsed).as_str());
    s.append(memories_string(memories, dates).as_str());
    s.append(RULES_TEXT);
    s
}

/// Builds the system prompt of a persona: who it is, its current traits and
/// mood, its partners and how close it feels to each, the theme, the time since
/// the last talk, the recalled memories with their local dates, and the rules.
/// Each memory's date is the one `local_date_of` gives for it, which depends on
/// the machine's time zone: a date text for every memory dated within the date
/// range (from 1970 to the end of 9999), otherwise a date text or empty.
/// Everything else is fixed by the arguments.
pub fn build_system(
    persona: &Persona,
    traits: &[TraitValue],
    partners: &[PartnerInfo],
    memories: &[Memory],
    theme: Option<&str>,
    mood: Option<&str>,
    elapsed: Option<&str>,
) -> (r: String)
    ensures
        exists|dates: Seq<String>|
            dates.len() == memories@.len() && (forall|i: int|
                0 <= i < dates.len() ==> local_date_shape(
                    #[trigger] dates[i]@,
                    memories@[i].created_at as int,
                )) && r@ == system_text(
                *persona,
                traits@,
                partners@,
                memories@,
                dates,
                opt_view(theme),
                opt_view(mood),
                opt_view(elapsed),
            ),
{
    let mut dates: Vec<String> = Vec::new();
    let mut i: usize = 0;
    while i < memories.len()
        invariant
            i <= memories.len(),
            dates@.len() == i,
            forall|j: int|
                0 <= j < i ==> local_date_shape(#[trigger] dates@[j]@, memories@[j].created_at as int),
        decreases memories.len() - i,
    {
        dates.push(crate::models::local_date_of(memories[i].created_at));
        i = i + 1;
    }
    let r = build_system_dated(
        persona,
        traits,
        partners,
        memories,
        dates.as_slice(),
        theme,
        mood,
        elapsed,
    );
    assert(dates@.len() == memories@.len());
    r
}

// ---------- history lines ----------

/// "name: content\n" for each utterance.
pub open spec fn utterance_lines(us: Seq<Utterance>) -> Seq<char>
    decreases us.len(),
{
    if us.len() == 0 {
        Seq::empty()
    } else {
        utterance_lines(us.drop_last()) + us.last().speaker_name@ + ": "@ + us.last().content@
            + "\n"@
    }
}

/// The last `k` elements of `s` (all of them when there are fewer).
pub open spec fn last_n<A>(s: Seq<A>, k: int) -> Seq<A> {
    if s.len() <= k {
        s
    } else {
        s.subrange(s.len() - k, s.len() as int)
    }
}

fn push_utterance_lines(s: &mut String, us: &[Utterance], lo: usize)
    requires
        lo <= us.len(),
    ensures
        final(s)@ == old(s)@ + utterance_lines(us@.subrange(lo as int, us@.len() as int)),
{
    let ghost base = s@;
    let mut i: usize = lo;
    while i < us.len()
        invariant
            lo <= i <= us.len(),
            s@ == base + utterance_lines(us@.subrange(lo as int, i as int)),
        decreases us.len() - i,
    {
        assert(us@.subrange(lo as int, i + 1).drop_last() == us@.subrange(lo as int, i as int));
        s.append(us[i].speaker_name.as_str());
        s.append(": ");
        s.append(us[i].content.as_str());
        s.append("\n");
        i = i + 1;
    }
}

pub const TOPIC_SHIFT_HEAD: &'static str = "会話が同じ話題で停滞しています。会話を続けるために、これまでの流れから自然に派生する新しい話題を1つ、短い一文で提案してください。\n";

pub const TOPIC_SHIFT_TAIL: &'static str = "\n新しい話題を促す一文のみを出力してください(例:「ところで、〜についてはどう思う?」)。";

/// The prompt asking for a new topic when an autonomous talk stagnates.
pub open spec fn topic_shift_text(theme: Seq<char>, history: Seq<Utterance>) -> Seq<char> {
    TOPIC_SHIFT_HEAD@ + (if theme.len() > 0 {
        "元のテーマ: "@ + theme + "\n"@
    } else {
        Seq::empty()
    }) + "## 直近の会話\n"@ + utterance_lines(last_n(history, 4)) + TOPIC_SHIFT_TAIL@
}

/// Asks for a topic derived from the theme and the last four utterances.
pub fn build_topic_shift(theme: &str, history: &[Utterance]) -> (r: String)
    ensures
        r@ == topic_shift_text(theme@, history@),
{
    let mut s = owned(TOPIC_SHIFT_HEAD);
    if theme.unicode_len() > 0 {
        s.append("元のテーマ: ");
        s.append(theme);
        s.append("\n");
    }
    s.append("## 直近の会話\n");
    let lo = if history.len() <= 4 {
        0
    } else {
        history.len() - 4
    };
    push_utterance_lines(&mut s, history, lo);
    assert(history@.subrange(lo as int, history@.len() as int) == last_n(history@, 4));
    s.append(TOPIC_SHIFT_TAIL);
    s
}

pub const SELECTION_HEAD: &'static str = "あなたは会話の司会です。次の会話で、次に発言するのが自然な人物を1人だけ選んでください。\n\n## 参加者\n";

pub const SELECTION_NOT_YET: &'static str = " (まだ発言していません。優先的に検討)";

pub const SELECTION_CHAIN: &'static str = "直前の発言を受けて、誰かがさらに続けて話すのが自然なら、その人物の名前だけを出力してください。会話が一区切りついていて誰も続けないのが自然なら「発話なし」と出力してください。\n";

pub const SELECTION_FIRST: &'static str = "最も自然に応答できる人物の名前だけを出力してください。\n";

pub const SELECTION_TAIL: &'static str = "名前のみを出力し、説明や記号は付けないこと。";

/// `id` is among the `responded` ids.
pub open spec fn in_ids(ids: Seq<String>, id: Seq<char>) -> bool {
    exists|i: int| 0 <= i < ids.len() && (#[trigger] ids[i])@ == id
}

/// One bullet per participant, marking who has not spoken yet.
pub open spec fn participant_lines(ps: Seq<(String, String)>, responded: Seq<String>) -> Seq<char>
    decreases ps.len(),
{
    if ps.len() == 0 {
        Seq::empty()
    } else {
        let (id, name) = ps.last();
        participant_lines(ps.drop_last(), responded) + "- "@ + name@ + (if in_ids(responded, id@) {
            Seq::empty()
        } else {
            SELECTION_NOT_YET@
        }) + "\n"@
    }
}

/// The prompt asking which participant speaks next (or whether anyone does).
pub open spec fn speaker_selection_text(
    history: Seq<Utterance>,
    participants: Seq<(String, String)>,
    responded: Seq<String>,
    allow_none: bool,
) -> Seq<char> {
    SELECTION_HEAD@ + participant_lines(participants, responded) + "\n## 直近の会話\n"@
        + utterance_lines(last_n(history, 8)) + "\n## 指示\n"@ + (if allow_none {
        SELECTION_CHAIN@
    } else {
        SELECTION_FIRST@
    }) + SELECTION_TAIL@
}

/// The speaker-selection prompt opens with its fixed head and the participant
/// list (one line per participant, in order, marked when it has not spoken
/// yet), lists the last eight utterances oldest first, gives the chain's
/// instruction when `allow_none` is set and the first reply's otherwise, and
/// ends with the instruction to output the name only.
#[verifier::rlimit(40)]
#[verifier::spinoff_prover]
pub proof fn law_speaker_selection_shape(
    history: Seq<Utterance>,
    participants: Seq<(String, String)>,
    responded: Seq<String>,
    allow_none: bool,
)
    ensures
        ({
            let t = speaker_selection_text(history, participants, responded, allow_none);
            let head = SELECTION_HEAD@ + participant_lines(participants, responded);
            let recent = "\n## 直近の会話\n"@ + utterance_lines(last_n(history, 8));
            let instruction = if allow_none {
                SELECTION_CHAIN@
            } else {
                SELECTION_FIRST@
            };
            &&& head.len() <= t.len() && t.subrange(0, head.len() as int) == head
            &&& seq_contains(t, recent)
            &&& seq_contains(t, "\n## 指示\n"@ + instruction + SELECTION_TAIL@)
            &&& SELECTION_TAIL@.len() <= t.len() && t.subrange(
                t.len() - SELECTION_TAIL@.len(),
                t.len() as int,
            ) == SELECTION_TAIL@
        }),
{
    let head = SELECTION_HEAD@ + participant_lines(participants, responded);
    let recent = "\n## 直近の会話\n"@ + utterance_lines(last_n(history, 8));
    let instruction = if allow_none {
        SELECTION_CHAIN@
    } else {
        SELECTION_FIRST@
    };
    let last = "\n## 指示\n"@ + instruction + SELECTION_TAIL@;
    let t = speaker_selection_text(history, participants, responded, allow_none);
    assert(t =~= head + recent + last);
    assert(t.subrange(0, head.len() as int) =~= head);
    lemma_contains_start(recent, last);
    lemma_contains_prepend(head, recent + last, recent);
    assert(head + (recent + last) =~= t);
    lemma_contains_start(last, Seq::empty());
    assert(last + Seq::<char>::empty() =~= last);
    lemma_contains_prepend(head + recent, last, last);
    assert(t.subrange(t.len() - SELECTION_TAIL@.len(), t.len() as int) =~= SELECTION_TAIL@);
}

// ---------- where a marker can occur ----------

/// `c` is none of the characters of `n` but its last: a text ending in `c`
/// cannot hold the start of `n` running past its end.
pub open spec fn ends_clear(c: char, n: Seq<char>) -> bool {
    forall|k: int| 0 <= k < n.len() - 1 ==> n[k] != c
}

/// `c` is none of the characters of `n` but its first: a text starting with
/// `c` cannot hold the rest of `n` begun before it.
pub open spec fn starts_clear(c: char, n: Seq<char>) -> bool {
    forall|k: int| 1 <= k < n.len() ==> n[k] != c
}

/// In `n`, every space but a last one follows a character other than `c`: a
/// text ending in `c` and a space cannot hold the start of `n` running past
/// its end.
pub open spec fn space_after_clear(c: char, n: Seq<char>) -> bool {
    forall|m: int| 0 <= m < n.len() - 1 && #[trigger] n[m] == ' ' ==> m >= 1 && n[m - 1] != c
}

/// `n` does not occur in `a + b` when it occurs in neither and cannot run
/// across the join.
proof fn lemma_join_free(a: Seq<char>, b: Seq<char>, n: Seq<char>)
    requires
        n.len() > 0,
        !seq_contains(a, n),
        !seq_contains(b, n),
        a.len() == 0 || b.len() == 0 || ends_clear(a.last(), n) || starts_clear(b[0], n) || (
        a.len() >= 2 && a.last() == ' ' && n[0] != ' ' && space_after_clear(a[a.len() - 2], n)),
    ensures
        !seq_contains(a + b, n),
{
    if seq_contains(a + b, n) {
        let i = choose|i: int| occurs_at(a + b, n, i);
        let ab = a + b;
        assert(ab.subrange(i, i + n.len()) == n);
        if i + n.len() <= a.len() {
            assert(a.subrange(i, i + n.len()) =~= ab.subrange(i, i + n.len()));
            assert(occurs_at(a, n, i));
        } else if i >= a.len() {
            assert(b.subrange(i - a.len(), i - a.len() + n.len()) =~= ab.subrange(i, i + n.len()));
            assert(occurs_at(b, n, i - a.len()));
        } else {
            let k = a.len() - i;
            assert(ab.subrange(i, i + n.len())[k - 1] == ab[a.len() - 1]);
            assert(ab.subrange(i, i + n.len())[k] == ab[a.len() as int]);
            assert(n[k - 1] == a.last());
            assert(n[k] == b[0]);
            if k >= 2 && a.len() >= 2 {
                assert(ab.subrange(i, i + n.len())[k - 2] == ab[a.len() - 2]);
                assert(n[k - 2] == a[a.len() - 2]);
            }
        }
    }
}

/// A text without the first character of `n` does not hold `n`.
proof fn lemma_no_start_char(s: Seq<char>, n: Seq<char>)
    requires
        n.len() > 0,
        forall|j: int| 0 <= j < s.len() ==> s[j] != n[0],
    ensures
        !seq_contains(s, n),
{
    if seq_contains(s, n) {
        let i = choose|i: int| occurs_at(s, n, i);
        assert(s.subrange(i, i + n.len())[0] == s[i]);
    }
}

/// The answer that means nobody speaks next, as the chain's instruction offers it.
pub open spec fn no_speaker_marker() -> Seq<char> {
    "「発話なし」"@
}

proof fn lemma_marker_chars()
    ensures
        no_speaker_marker().len() == 6,
        no_speaker_marker()[0] == '「',
        ends_clear('\n', no_speaker_marker()),
        ends_clear(' ', no_speaker_marker()),
        starts_clear('\n', no_speaker_marker()),
        starts_clear(':', no_speaker_marker()),
        starts_clear('-', no_speaker_marker()),
        starts_clear(' ', no_speaker_marker()),
        starts_clear('名', no_speaker_marker()),
{
    reveal_strlit("「発話なし」");
}

#[verifier::rlimit(40)]
#[verifier::spinoff_prover]
proof fn lemma_fixed_texts_free()
    ensures
        !seq_contains(SELECTION_HEAD@, no_speaker_marker()),
        SELECTION_HEAD@.len() > 0 && SELECTION_HEAD@.last() == '\n',
        !seq_contains("\n## 直近の会話\n"@, no_speaker_marker()),
        "\n## 直近の会話\n"@[0] == '\n' && "\n## 直近の会話\n"@.last() == '\n',
        !seq_contains("\n## 指示\n"@, no_speaker_marker()),
        "\n## 指示\n"@[0] == '\n' && "\n## 指示\n"@.last() == '\n',
        !seq_contains(SELECTION_FIRST@, no_speaker_marker()),
        SELECTION_FIRST@.len() > 0 && SELECTION_FIRST@.last() == '\n',
        !seq_contains(SELECTION_TAIL@, no_speaker_marker()),
        SELECTION_TAIL@.len() > 0 && SELECTION_TAIL@[0] == '名',
        !seq_contains(SELECTION_NOT_YET@, no_speaker_marker()),
        SELECTION_NOT_YET@.len() > 0 && SELECTION_NOT_YET@[0] == ' ',
        !seq_contains("- "@, no_speaker_marker()),
        "- "@.len() == 2 && "- "@[0] == '-' && "- "@[1] == ' ',
        !seq_contains(": "@, no_speaker_marker()),
        ": "@.len() == 2 && ": "@[0] == ':' && ": "@[1] == ' ',
        !seq_contains("\n"@, no_speaker_marker()),
        "\n"@.len() == 1 && "\n"@[0] == '\n',
{
    lemma_marker_chars();
    reveal_strlit("あなたは会話の司会です。次の会話で、次に発言するのが自然な人物を1人だけ選んでください。\n\n## 参加者\n");
    reveal_strlit("\n## 直近の会話\n");
    reveal_strlit("\n## 指示\n");
    reveal_strlit("最も自然に応答できる人物の名前だけを出力してください。\n");
    reveal_strlit("名前のみを出力し、説明や記号は付けないこと。");
    reveal_strlit(" (まだ発言していません。優先的に検討)");
    reveal_strlit("- ");
    reveal_strlit(": ");
    reveal_strlit("\n");
    lemma_no_start_char(SELECTION_HEAD@, no_speaker_marker());
    lemma_no_start_char("\n## 直近の会話\n"@, no_speaker_marker());
    lemma_no_start_char("\n## 指示\n"@, no_speaker_marker());
    lemma_no_start_char(SELECTION_FIRST@, no_speaker_marker());
    lemma_no_start_char(SELECTION_TAIL@, no_speaker_marker());
    lemma_no_start_char(SELECTION_NOT_YET@, no_speaker_marker());
    lemma_no_start_char("- "@, no_speaker_marker());
    lemma_no_start_char(": "@, no_speaker_marker());
    lemma_no_start_char("\n"@, no_speaker_marker());
}

proof fn lemma_chain_offers_no_speaker()
    ensures
        seq_contains(SELECTION_CHAIN@, no_speaker_marker()),
{
    reveal_strlit("「発話なし」");
    reveal_strlit("直前の発言を受けて、誰かがさらに続けて話すのが自然なら、その人物の名前だけを出力してください。会話が一区切りついていて誰も続けないのが自然なら「発話なし」と出力してください。\n");
    assert(SELECTION_CHAIN@.subrange(71, 77) =~= no_speaker_marker());
    assert(occurs_at(SELECTION_CHAIN@, no_speaker_marker(), 71));
}

/// Utterance lines hold `n` only where a speaker name or a text holds it, for
/// an `n` that cannot run across the separators the lines put between them.
#[verifier::rlimit(40)]
#[verifier::spinoff_prover]
proof fn lemma_utterance_lines_free(us: Seq<Utterance>, n: Seq<char>)
    requires
        n.len() > 0,
        n[0] != ':' && n[0] != ' ' && n[0] != '\n',
        ends_clear('\n', n),
        ends_clear(' ', n),
        starts_clear(':', n),
        starts_clear('\n', n),
        forall|i: int|
            0 <= i < us.len() ==> !seq_contains((#[trigger] us[i]).speaker_name@, n)
                && !seq_contains(us[i].content@, n),
    ensures
        !seq_contains(utterance_lines(us), n),
        utterance_lines(us).len() == 0 || utterance_lines(us).last() == '\n',
    decreases us.len(),
{
    lemma_fixed_texts_free();
    lemma_no_start_char(": "@, n);
    lemma_no_start_char("\n"@, n);
    if us.len() > 0 {
        let front = us.drop_last();
        assert forall|i: int| 0 <= i < front.len() implies !seq_contains(
            (#[trigger] front[i]).speaker_name@,
            n,
        ) && !seq_contains(front[i].content@, n) by {
            assert(front[i] == us[i]);
        }
        lemma_utterance_lines_free(front, n);
        let l = utterance_lines(front);
        let u = us[us.len() - 1];
        lemma_join_free(l, u.speaker_name@, n);
        let x1 = l + u.speaker_name@;
        lemma_join_free(x1, ": "@, n);
        let x2 = x1 + ": "@;
        assert(x2[x2.len() - 1] == ": "@[1]);
        lemma_join_free(x2, u.content@, n);
        let x3 = x2 + u.content@;
        lemma_join_free(x3, "\n"@, n);
        assert((x3 + "\n"@).last() == '\n');
    }
}

#[verifier::rlimit(40)]
#[verifier::spinoff_prover]
proof fn lemma_participant_lines_free(ps: Seq<(String, String)>, responded: Seq<String>)
    requires
        forall|i: int| 0 <= i < ps.len() ==> !seq_contains((#[trigger] ps[i]).1@, no_speaker_marker()),
    ensures
        !seq_contains(participant_lines(ps, responded), no_speaker_marker()),
        participant_lines(ps, responded).len() == 0 || participant_lines(ps, responded).last()
            == '\n',
    decreases ps.len(),
{
    let n = no_speaker_marker();
    lemma_marker_chars();
    lemma_fixed_texts_free();
    if ps.len() > 0 {
        let front = ps.drop_last();
        assert forall|i: int| 0 <= i < front.len() implies !seq_contains((#[trigger] front[i]).1@, n) by {
            assert(front[i] == ps[i]);
        }
        lemma_participant_lines_free(front, responded);
        let l = participant_lines(front, responded);
        let (id, name) = ps.last();
        let mark = if in_ids(responded, id@) {
            Seq::<char>::empty()
        } else {
            SELECTION_NOT_YET@
        };
        if in_ids(responded, id@) {
            lemma_no_start_char(mark, n);
        }
        lemma_join_free(l, "- "@, n);
        let x1 = l + "- "@;
        assert(x1[x1.len() - 1] == "- "@[1]);
        assert(!seq_contains(name@, n)) by {
            assert(ps[ps.len() - 1].1 == name);
        }
        lemma_join_free(x1, name@, n);
        let x2 = x1 + name@;
        lemma_join_free(x2, mark, n);
        let x3 = x2 + mark;
        lemma_join_free(x3, "\n"@, n);
        assert((x3 + "\n"@).last() == '\n');
        assert(participant_lines(ps, responded) == x3 + "\n"@);
    }
}

/// The speaker-selection prompt offers the answer 「発話なし」 exactly when the
/// chain asks whether anyone goes on (`allow_none`), provided no participant
/// name and no speaker name or text of the history contains it.
#[verifier::rlimit(40)]
#[verifier::spinoff_prover]
pub proof fn law_selection_offers_no_speaker(
    history: Seq<Utterance>,
    participants: Seq<(String, String)>,
    responded: Seq<String>,
    allow_none: bool,
)
    requires
        forall|i: int|
            0 <= i < participants.len() ==> !seq_contains(
                (#[trigger] participants[i]).1@,
                no_speaker_marker(),
            ),
        forall|i: int|
            0 <= i < history.len() ==> !seq_contains(
                (#[trigger] history[i]).speaker_name@,
                no_speaker_marker(),
            ) && !seq_contains(history[i].content@, no_speaker_marker()),
    ensures
        seq_contains(
            speaker_selection_text(history, participants, responded, allow_none),
            no_speaker_marker(),
        ) == allow_none,
{
    let n = no_speaker_marker();
    lemma_marker_chars();
    lemma_fixed_texts_free();
    let recent = last_n(history, 8);
    assert forall|i: int| 0 <= i < recent.len() implies !seq_contains(
        (#[trigger] recent[i]).speaker_name@,
        n,
    ) && !seq_contains(recent[i].content@, n) by {
        if history.len() > 8 {
            assert(recent[i] == history[history.len() - 8 + i]);
        }
    }
    lemma_utterance_lines_free(recent, n);
    lemma_participant_lines_free(participants, responded);
    let hd = SELECTION_HEAD@;
    let pl = participant_lines(participants, responded);
    let r = "\n## 直近の会話\n"@;
    let ul = utterance_lines(recent);
    let ins = "\n## 指示\n"@;
    let instr = if allow_none {
        SELECTION_CHAIN@
    } else {
        SELECTION_FIRST@
    };
    let tl = SELECTION_TAIL@;
    let t = speaker_selection_text(history, participants, responded, allow_none);
    let y1 = hd + pl;
    let y2 = y1 + r;
    let y3 = y2 + ul;
    let y4 = y3 + ins;
    let y5 = y4 + instr;
    assert(t == y5 + tl);
    if allow_none {
        lemma_chain_offers_no_speaker();
        lemma_contains_prepend(y4, instr, n);
        lemma_contains_append(y5, tl, n);
    } else {
        lemma_join_free(hd, pl, n);
        lemma_join_free(y1, r, n);
        assert(y2.last() == '\n');
        lemma_join_free(y2, ul, n);
        lemma_join_free(y3, ins, n);
        assert(y4.last() == '\n');
        lemma_join_free(y4, instr, n);
        lemma_join_free(y5, tl, n);
    }
}

proof fn lemma_contains_prefix(s: Seq<char>, a: Seq<char>, b: Seq<char>)
    requires
        seq_contains(s, a + b),
    ensures
        seq_contains(s, a),
{
    let i = choose|i: int| occurs_at(s, a + b, i);
    let whole = s.subrange(i, i + (a + b).len());
    assert(whole == a + b);
    assert(s.subrange(i, i + a.len()) =~= whole.subrange(0, a.len() as int));
    assert(whole.subrange(0, a.len() as int) =~= a);
    assert(occurs_at(s, a, i));
}

/// The words that introduce the original theme in a topic-change request.
pub open spec fn theme_marker() -> Seq<char> {
    "元のテーマ"@
}

proof fn lemma_topic_texts_free()
    ensures
        theme_marker().len() == 5,
        "元のテーマ: "@ == theme_marker() + ": "@,
        !seq_contains(TOPIC_SHIFT_HEAD@, theme_marker()),
        TOPIC_SHIFT_HEAD@.len() > 0 && TOPIC_SHIFT_HEAD@.last() == '\n',
        !seq_contains("## 直近の会話\n"@, theme_marker()),
        "## 直近の会話\n"@.len() > 0 && "## 直近の会話\n"@.last() == '\n',
        !seq_contains(TOPIC_SHIFT_TAIL@, theme_marker()),
        TOPIC_SHIFT_TAIL@.len() > 0 && TOPIC_SHIFT_TAIL@[0] == '\n',
{
    reveal_strlit("元のテーマ");
    reveal_strlit("元のテーマ: ");
    reveal_strlit(": ");
    reveal_strlit("会話が同じ話題で停滞しています。会話を続けるために、これまでの流れから自然に派生する新しい話題を1つ、短い一文で提案してください。\n");
    reveal_strlit("## 直近の会話\n");
    reveal_strlit("\n新しい話題を促す一文のみを出力してください(例:「ところで、〜についてはどう思う?」)。");
    assert("元のテーマ: "@ =~= theme_marker() + ": "@);
    lemma_no_start_char(TOPIC_SHIFT_HEAD@, theme_marker());
    lemma_no_start_char("## 直近の会話\n"@, theme_marker());
    lemma_no_start_char(TOPIC_SHIFT_TAIL@, theme_marker());
}

/// The line a topic-change request would give an empty theme.
pub open spec fn empty_theme_line() -> Seq<char> {
    "元のテーマ: \n"@
}

/// `s` ends with `w`.
pub open spec fn ends_with(s: Seq<char>, w: Seq<char>) -> bool {
    w.len() <= s.len() && s.subrange(s.len() - w.len(), s.len() as int) == w
}

/// A history line that cannot make up an empty theme line: neither its
/// speaker's name nor its text holds `元のテーマ: `, and a name ending in
/// 元のテーマ is not followed by an empty text or one starting with a line feed.
pub open spec fn theme_line_clear(u: Utterance) -> bool {
    &&& !seq_contains(u.speaker_name@, "元のテーマ: "@)
    &&& !seq_contains(u.content@, "元のテーマ: "@)
    &&& !(ends_with(u.speaker_name@, theme_marker()) && (u.content@.len() == 0 || u.content@[0]
        == '\n'))
}

proof fn lemma_theme_line_chars()
    ensures
        empty_theme_line().len() == 8,
        empty_theme_line() == "元のテーマ: "@ + "\n"@,
        "元のテーマ: "@ == theme_marker() + ": "@,
        "元のテーマ: "@.len() == 7,
        theme_marker().len() == 5,
        forall|k: int|
            0 <= k < 7 ==> #[trigger] "元のテーマ: "@[k] != '\n' && (k < 6 ==> "元のテーマ: "@[k]
                != ' '),
        empty_theme_line()[0] == '元',
        empty_theme_line()[5] == ':' && empty_theme_line()[6] == ' ' && empty_theme_line()[7] == '\n',
        ends_clear('\n', empty_theme_line()),
        ": "@.len() == 2 && ": "@[0] == ':' && ": "@[1] == ' ',
        "\n"@.len() == 1 && "\n"@[0] == '\n',
{
    reveal_strlit("元のテーマ: \n");
    reveal_strlit("元のテーマ: ");
    reveal_strlit("元のテーマ");
    reveal_strlit(": ");
    reveal_strlit("\n");
    assert(empty_theme_line() =~= "元のテーマ: "@ + "\n"@);
    assert("元のテーマ: "@ =~= theme_marker() + ": "@);
}

/// `x` ending in `: ` after `l + name` ends with `元のテーマ: ` only when the
/// name ends with 元のテーマ.
proof fn lemma_theme_colon(l: Seq<char>, name: Seq<char>)
    requires
        l.len() == 0 || l.last() == '\n',
        ends_with(l + name + ": "@, "元のテーマ: "@),
    ensures
        ends_with(name, theme_marker()),
{
    lemma_theme_line_chars();
    let x = l + name + ": "@;
    let z = "元のテーマ: "@;
    assert(x.subrange(x.len() - 7, x.len() as int) == z);
    if name.len() >= 5 {
        assert forall|m: int| 0 <= m < 5 implies name.subrange(name.len() - 5, name.len() as int)[m]
            == theme_marker()[m] by {
            assert(x.subrange(x.len() - 7, x.len() as int)[m] == x[x.len() - 7 + m]);
            assert(x[x.len() - 7 + m] == name[name.len() - 5 + m]);
            assert(z[m] == (theme_marker() + ": "@)[m]);
        }
        assert(name.subrange(name.len() - 5, name.len() as int) =~= theme_marker());
    } else {
        let p = x.len() - 3 - name.len();
        assert(x.subrange(x.len() - 7, x.len() as int)[p - (x.len() - 7)] == x[p]);
        assert(x[p] == l.last());
        assert(z[4 - name.len()] != '\n');
    }
}

#[verifier::rlimit(60)]
#[verifier::spinoff_prover]
proof fn lemma_theme_line_free(l: Seq<char>, u: Utterance)
    requires
        !seq_contains(l, empty_theme_line()),
        l.len() == 0 || l.last() == '\n',
        theme_line_clear(u),
    ensures
        !seq_contains(l + u.speaker_name@ + ": "@ + u.content@ + "\n"@, empty_theme_line()),
{
    lemma_theme_line_chars();
    let n = empty_theme_line();
    let z = "元のテーマ: "@;
    let nm = u.speaker_name@;
    let c = u.content@;
    if seq_contains(nm, n) {
        lemma_contains_prefix(nm, z, "\n"@);
    }
    if seq_contains(c, n) {
        lemma_contains_prefix(c, z, "\n"@);
    }
    lemma_no_start_char(": "@, n);
    lemma_no_start_char("\n"@, n);
    lemma_join_free(l, nm, n);
    let x1 = l + nm;
    assert forall|k: int|
        1 <= k < n.len() && k <= x1.len() && n.len() - k <= ": "@.len() implies !(
    #[trigger] x1.subrange(x1.len() - k, x1.len() as int) == n.subrange(0, k) && ": "@.subrange(
        0,
        n.len() - k,
    ) == n.subrange(k, n.len() as int)) by {
        if ": "@.subrange(0, n.len() - k) == n.subrange(k, n.len() as int) {
            assert(": "@.subrange(0, n.len() - k)[0] == n[k]);
        }
    }
    lemma_join_exact(x1, ": "@, n);
    let x2 = x1 + ": "@;
    assert(x2 == l + nm + ": "@);
    assert forall|k: int|
        1 <= k < n.len() && k <= x2.len() && n.len() - k <= c.len() implies !(
    #[trigger] x2.subrange(x2.len() - k, x2.len() as int) == n.subrange(0, k) && c.subrange(
        0,
        n.len() - k,
    ) == n.subrange(k, n.len() as int)) by {
        if x2.subrange(x2.len() - k, x2.len() as int) == n.subrange(0, k) && c.subrange(
            0,
            n.len() - k,
        ) == n.subrange(k, n.len() as int) {
            assert(x2.subrange(x2.len() - k, x2.len() as int)[k - 1] == x2[x2.len() - 1]);
            assert(x2[x2.len() - 1] == ' ');
            assert(n[k - 1] == ' ');
            assert(k == 7);
            assert(c.subrange(0, n.len() - k)[0] == c[0]);
            assert(x2.subrange(x2.len() - 7, x2.len() as int) =~= z);
            lemma_theme_colon(l, nm);
        }
    }
    lemma_join_exact(x2, c, n);
    let x3 = x2 + c;
    assert forall|k: int|
        1 <= k < n.len() && k <= x3.len() && n.len() - k <= "\n"@.len() implies !(
    #[trigger] x3.subrange(x3.len() - k, x3.len() as int) == n.subrange(0, k) && "\n"@.subrange(
        0,
        n.len() - k,
    ) == n.subrange(k, n.len() as int)) by {
        if x3.subrange(x3.len() - k, x3.len() as int) == n.subrange(0, k) {
            assert(k == 7);
            assert(x3.subrange(x3.len() - 7, x3.len() as int) =~= z);
            if c.len() == 0 {
                assert(x3 =~= x2);
                lemma_theme_colon(l, nm);
            } else if c.len() >= 7 {
                assert(c.subrange(c.len() - 7, c.len() as int) =~= x3.subrange(
                    x3.len() - 7,
                    x3.len() as int,
                ));
                assert(occurs_at(c, z, c.len() - 7));
            } else {
                let q = x3.len() - c.len() - 1;
                assert(x3[q] == x2[x2.len() - 1]);
                assert(x3.subrange(x3.len() - 7, x3.len() as int)[q - (x3.len() - 7)] == x3[q]);
                assert(z[6 - c.len()] != ' ');
            }
        }
    }
    lemma_join_exact(x3, "\n"@, n);
}

proof fn lemma_theme_lines_free(us: Seq<Utterance>)
    requires
        forall|i: int| 0 <= i < us.len() ==> theme_line_clear(#[trigger] us[i]),
    ensures
        !seq_contains(utterance_lines(us), empty_theme_line()),
        utterance_lines(us).len() == 0 || utterance_lines(us).last() == '\n',
    decreases us.len(),
{
    lemma_theme_line_chars();
    if us.len() == 0 {
        lemma_no_start_char(Seq::<char>::empty(), empty_theme_line());
    } else {
        let front = us.drop_last();
        assert forall|i: int| 0 <= i < front.len() implies theme_line_clear(#[trigger] front[i]) by {
            assert(front[i] == us[i]);
        }
        lemma_theme_lines_free(front);
        let u = us[us.len() - 1];
        assert(us.last() == u);
        lemma_theme_line_free(utterance_lines(front), u);
        lemma_last_of_join(utterance_lines(front) + u.speaker_name@ + ": "@ + u.content@, "\n"@);
    }
}

/// The topic-change request names the original theme (a line "元のテーマ: "
/// and the theme) exactly when there is one, provided none of the last four
/// utterances makes up such a line for an empty theme (see
/// `theme_line_clear`).
#[verifier::rlimit(40)]
#[verifier::spinoff_prover]
pub proof fn law_topic_shift_names_theme(theme: Seq<char>, history: Seq<Utterance>)
    requires
        forall|i: int|
            0 <= i < last_n(history, 4).len() ==> theme_line_clear(#[trigger] last_n(history, 4)[i]),
    ensures
        seq_contains(topic_shift_text(theme, history), "元のテーマ: "@ + theme + "\n"@) == (theme.len()
            > 0),
{
    law_topic_shift_shape(theme, history);
    if theme.len() == 0 {
        let n = empty_theme_line();
        lemma_topic_texts_free();
        lemma_theme_line_chars();
        let recent = last_n(history, 4);
        lemma_theme_lines_free(recent);
        let hd = TOPIC_SHIFT_HEAD@;
        let r = "## 直近の会話\n"@;
        let ul = utterance_lines(recent);
        let tl = TOPIC_SHIFT_TAIL@;
        assert(n =~= theme_marker() + (": "@ + "\n"@));
        if seq_contains(hd, n) {
            lemma_contains_prefix(hd, theme_marker(), ": "@ + "\n"@);
        }
        if seq_contains(r, n) {
            lemma_contains_prefix(r, theme_marker(), ": "@ + "\n"@);
        }
        if seq_contains(tl, n) {
            lemma_contains_prefix(tl, theme_marker(), ": "@ + "\n"@);
        }
        let t = topic_shift_text(theme, history);
        assert(t =~= hd + r + ul + tl);
        lemma_join_free(hd, r, n);
        lemma_join_free(hd + r, ul, n);
        assert((hd + r).last() == '\n');
        if ul.len() > 0 {
            lemma_last_of_join(hd + r, ul);
        }
        lemma_join_free(hd + r + ul, tl, n);
        assert("元のテーマ: "@ + theme + "\n"@ =~= n);
    }
}

proof fn lemma_last_of_join(x: Seq<char>, l: Seq<char>)
    requires
        l.len() > 0,
    ensures
        (x + l).len() > 0 && (x + l).last() == l.last(),
{
}

proof fn lemma_last2_of_join(x: Seq<char>, l: Seq<char>)
    requires
        l.len() >= 2,
    ensures
        (x + l).len() >= 2 && (x + l)[(x + l).len() - 2] == l[l.len() - 2],
{
}

proof fn lemma_first_of_join(l: Seq<char>, y: Seq<char>)
    requires
        l.len() > 0,
    ensures
        (l + y).len() > 0 && (l + y)[0] == l[0],
{
}

/// The headings of the optional sections of the system prompt, without their
/// line feeds.
pub open spec fn traits_heading() -> Seq<char> {
    "## 現在の性格傾向"@
}

pub open spec fn mood_heading() -> Seq<char> {
    "## 今の気分"@
}

pub open spec fn theme_heading() -> Seq<char> {
    "## 会話のテーマ"@
}

pub open spec fn elapsed_heading() -> Seq<char> {
    "## 前回からの経過"@
}

pub open spec fn memories_heading() -> Seq<char> {
    "## あなたの記憶"@
}

pub open spec fn is_section_heading(n: Seq<char>) -> bool {
    n == traits_heading() || n == mood_heading() || n == theme_heading() || n == elapsed_heading()
        || n == memories_heading()
}

/// `s` starts with `w`.
pub open spec fn starts_with(s: Seq<char>, w: Seq<char>) -> bool {
    w.len() <= s.len() && s.subrange(0, w.len() as int) == w
}

/// A word of the system prompt that cannot run across the joins between its
/// texts and does not occur in its fixed texts other than the headings.
pub open spec fn system_word(n: Seq<char>) -> bool {
    &&& n.len() > 3 && n[0] != ' '
    &&& ends_clear('「', n) && ends_clear('\n', n) && ends_clear('、', n) && ends_clear('[', n)
    &&& space_after_clear(':', n) && space_after_clear('-', n) && space_after_clear(']', n)
    &&& starts_clear('」', n) && starts_clear('\n', n) && starts_clear('、', n)
    &&& starts_clear(']', n) && starts_clear('。', n) && starts_clear('-', n)
    &&& system_fixed_free(n)
}

proof fn lemma_heading_chars(n: Seq<char>)
    requires
        is_section_heading(n),
    ensures
        n.len() >= 7,
        n[0] == '#' && n[1] == '#' && n[2] == ' ',
        n[3] != '#' && n[3] != ' ',
        n == "## "@ + n.subrange(3, n.len() as int),
        (n[0] as int) < 45,
        ends_clear('「', n) && ends_clear('\n', n) && ends_clear('、', n) && ends_clear('[', n),
        ends_clear('(', n),
        space_after_clear(':', n) && space_after_clear('-', n) && space_after_clear(']', n),
        starts_clear('」', n) && starts_clear('\n', n) && starts_clear('、', n),
        starts_clear(']', n) && starts_clear('。', n) && starts_clear('-', n),
        starts_clear(':', n) && starts_clear('(', n) && starts_clear('/', n),
{
    reveal_strlit("## 現在の性格傾向");
    reveal_strlit("## 今の気分");
    reveal_strlit("## 会話のテーマ");
    reveal_strlit("## 前回からの経過");
    reveal_strlit("## あなたの記憶");
    reveal_strlit("## ");
    assert(n =~= "## "@ + n.subrange(3, n.len() as int));
}

/// The fixed texts of the system prompt other than its section headings do
/// not hold `n`.
pub open spec fn system_fixed_free(n: Seq<char>) -> bool {
    &&& !seq_contains("あなたは「"@, n)
    &&& !seq_contains("」という人物として会話する。\n## あなたの人物像\n性格: "@, n)
    &&& !seq_contains("\n口調: "@, n)
    &&& !seq_contains("\n価値観: "@, n)
    &&& !seq_contains("\n自己紹介: "@, n)
    &&& !seq_contains("\n"@, n)
    &&& !seq_contains("\n## 会話相手: "@, n)
    &&& !seq_contains("\n## 会話相手 (複数): "@, n)
    &&& !seq_contains("、"@, n)
    &&& !seq_contains("- 距離感: "@, n)
    &&& (forall|v: int| !seq_contains(#[trigger] intimacy_phrase_spec(v), n))
    &&& !seq_contains("- あなたが抱いている印象: "@, n)
    &&& !seq_contains("- 初対面の相手である\n"@, n)
    &&& !seq_contains("。自然な範囲でこのことに触れてよい\n"@, n)
    &&& !seq_contains("- ["@, n)
    &&& !seq_contains("] "@, n)
    &&& !seq_contains(RULES_TEXT@, n)
}

/// First and last characters of the fixed texts, where inputs join them.
pub open spec fn system_fixed_edges() -> bool {
    &&& "あなたは「"@.len() > 0 && "あなたは「"@.last() == '「'
    &&& "」という人物として会話する。\n## あなたの人物像\n性格: "@.len() > 2
    &&& "」という人物として会話する。\n## あなたの人物像\n性格: "@[0] == '」'
    &&& "」という人物として会話する。\n## あなたの人物像\n性格: "@.last() == ' '
    &&& "」という人物として会話する。\n## あなたの人物像\n性格: "@[
        "」という人物として会話する。\n## あなたの人物像\n性格: "@.len() - 2] == ':'
    &&& "\n口調: "@.len() > 2 && "\n口調: "@[0] == '\n' && "\n口調: "@.last() == ' '
    &&& "\n口調: "@["\n口調: "@.len() - 2] == ':'
    &&& "\n価値観: "@.len() > 2 && "\n価値観: "@[0] == '\n' && "\n価値観: "@.last() == ' '
    &&& "\n価値観: "@["\n価値観: "@.len() - 2] == ':'
    &&& "\n自己紹介: "@.len() > 2 && "\n自己紹介: "@[0] == '\n' && "\n自己紹介: "@.last() == ' '
    &&& "\n自己紹介: "@["\n自己紹介: "@.len() - 2] == ':'
    &&& "\n"@.len() == 1 && "\n"@[0] == '\n'
    &&& "\n## 今の気分\n"@.len() > 2 && "\n## 今の気分\n"@[0] == '\n' && "\n## 今の気分\n"@.last() == '\n'
    &&& "\n## 会話相手: "@.len() > 2 && "\n## 会話相手: "@[0] == '\n' && "\n## 会話相手: "@.last() == ' '
    &&& "\n## 会話相手: "@["\n## 会話相手: "@.len() - 2] == ':'
    &&& "\n## 会話相手 (複数): "@.len() > 2 && "\n## 会話相手 (複数): "@[0] == '\n'
    &&& "\n## 会話相手 (複数): "@.last() == ' '
    &&& "\n## 会話相手 (複数): "@["\n## 会話相手 (複数): "@.len() - 2] == ':'
    &&& "、"@.len() == 1 && "、"@[0] == '、'
    &&& "### "@.len() == 4 && "### "@[0] == '#' && "### "@[1] == '#' && "### "@[2] == '#'
    &&& "### "@[3] == ' '
    &&& "- 距離感: "@.len() > 2 && "- 距離感: "@[0] == '-' && "- 距離感: "@.last() == ' '
    &&& "- 距離感: "@["- 距離感: "@.len() - 2] == ':'
    &&& "- あなたが抱いている印象: "@.len() > 2 && "- あなたが抱いている印象: "@[0] == '-'
    &&& "- あなたが抱いている印象: "@.last() == ' '
    &&& "- あなたが抱いている印象: "@["- あなたが抱いている印象: "@.len() - 2] == ':'
    &&& "- 初対面の相手である\n"@.len() > 0 && "- 初対面の相手である\n"@[0] == '-'
    &&& "- 初対面の相手である\n"@.last() == '\n'
    &&& "\n## 会話のテーマ\n"@.len() > 2 && "\n## 会話のテーマ\n"@[0] == '\n'
    &&& "\n## 会話のテーマ\n"@.last() == '\n'
    &&& "\n## 前回からの経過\n"@.len() > 2 && "\n## 前回からの経過\n"@[0] == '\n'
    &&& "\n## 前回からの経過\n"@.last() == '\n'
    &&& "。自然な範囲でこのことに触れてよい\n"@.len() > 0 && "。自然な範囲でこのことに触れてよい\n"@[0] == '。'
    &&& "\n## あなたの記憶 (関連する過去の出来事)\n"@.len() > 0
    &&& "\n## あなたの記憶 (関連する過去の出来事)\n"@[0] == '\n'
    &&& "\n## あなたの記憶 (関連する過去の出来事)\n"@.last() == '\n'
    &&& "\n## 現在の性格傾向\n"@.len() > 2 && "\n## 現在の性格傾向\n"@[0] == '\n'
    &&& "\n## 現在の性格傾向\n"@.last() == '\n'
    &&& "- ["@.len() > 0 && "- ["@[0] == '-' && "- ["@.last() == '['
    &&& "] "@.len() == 2 && "] "@[0] == ']' && "] "@[1] == ' '
    &&& RULES_TEXT@.len() > 0 && RULES_TEXT@[0] == '\n'
}

#[verifier::rlimit(40)]
proof fn lemma_system_fixed_edges()
    ensures
        system_fixed_edges(),
{
    reveal_strlit("あなたは「");
    reveal_strlit("」という人物として会話する。\n## あなたの人物像\n性格: ");
    reveal_strlit("\n口調: ");
    reveal_strlit("\n価値観: ");
    reveal_strlit("\n自己紹介: ");
    reveal_strlit("\n");
    reveal_strlit("\n## 今の気分\n");
    reveal_strlit("\n## 会話相手: ");
    reveal_strlit("\n## 会話相手 (複数): ");
    reveal_strlit("、");
    reveal_strlit("### ");
    reveal_strlit("- 距離感: ");
    reveal_strlit("- あなたが抱いている印象: ");
    reveal_strlit("- 初対面の相手である\n");
    reveal_strlit("\n## 会話のテーマ\n");
    reveal_strlit("\n## 前回からの経過\n");
    reveal_strlit("。自然な範囲でこのことに触れてよい\n");
    reveal_strlit("\n## あなたの記憶 (関連する過去の出来事)\n");
    reveal_strlit("\n## 現在の性格傾向\n");
    reveal_strlit("- [");
    reveal_strlit("] ");
    reveal_strlit("\n## 会話のルール\n\
     - 上記の記憶とこの会話に出てきていないことを、知っている・覚えているかのように話さない。知らないことは正直に「知らない」「覚えていない」と言う\n\
     - 設定された口調を一貫して保つ\n\
     - 1回の発言は短く自然に(2〜4文程度)。地の文や説明は書かず、発言のみを出力する\n");
}

/// `s` agrees with the first `d` characters of `n` from index `j`.
pub open spec fn agrees(s: Seq<char>, n: Seq<char>, j: int, d: int) -> bool
    decreases d,
{
    if d <= 0 {
        true
    } else {
        s[j + d - 1] == n[d - 1] && agrees(s, n, j, d - 1)
    }
}

proof fn lemma_occurrence_agrees(s: Seq<char>, n: Seq<char>, j: int, d: int)
    requires
        occurs_at(s, n, j),
        0 <= d <= n.len(),
    ensures
        agrees(s, n, j, d),
    decreases d,
{
    if d > 0 {
        assert(s.subrange(j, j + n.len())[d - 1] == s[j + d - 1]);
        lemma_occurrence_agrees(s, n, j, d - 1);
    }
}

/// A text that nowhere agrees with the first `d` characters of `n` does not
/// hold `n`.
proof fn lemma_no_occurrence(s: Seq<char>, n: Seq<char>, d: int)
    requires
        0 <= d <= n.len(),
        forall|j: int| 0 <= j && j + n.len() <= s.len() ==> !#[trigger] agrees(s, n, j, d),
    ensures
        !seq_contains(s, n),
{
    if seq_contains(s, n) {
        let i = choose|i: int| occurs_at(s, n, i);
        lemma_occurrence_agrees(s, n, i, d);
    }
}

/// No fixed text of the system prompt holds a section heading other than its
/// own.
#[verifier::rlimit(100)]
#[verifier::spinoff_prover]
proof fn lemma_heading_fixed_free(n: Seq<char>)
    requires
        is_section_heading(n),
    ensures
        system_fixed_free(n),
        n != traits_heading() ==> !seq_contains("\n## 現在の性格傾向\n"@, n),
        n != mood_heading() ==> !seq_contains("\n## 今の気分\n"@, n),
        n != theme_heading() ==> !seq_contains("\n## 会話のテーマ\n"@, n),
        n != elapsed_heading() ==> !seq_contains("\n## 前回からの経過\n"@, n),
        n != memories_heading() ==> !seq_contains("\n## あなたの記憶 (関連する過去の出来事)\n"@, n),
{
    lemma_heading_chars(n);
    reveal_strlit("## 現在の性格傾向");
    reveal_strlit("## 今の気分");
    reveal_strlit("## 会話のテーマ");
    reveal_strlit("## 前回からの経過");
    reveal_strlit("## あなたの記憶");
    reveal_strlit("あなたは「");
    reveal_strlit("」という人物として会話する。\n## あなたの人物像\n性格: ");
    reveal_strlit("\n口調: ");
    reveal_strlit("\n価値観: ");
    reveal_strlit("\n自己紹介: ");
    reveal_strlit("\n");
    reveal_strlit("\n## 今の気分\n");
    reveal_strlit("\n## 会話相手: ");
    reveal_strlit("\n## 会話相手 (複数): ");
    reveal_strlit("、");
    reveal_strlit("- 距離感: ");
    reveal_strlit("初対面に近い距離感。丁寧に、少し遠慮がちに接する");
    reveal_strlit("知り合い程度。礼儀正しく接する");
    reveal_strlit("打ち解けてきた相手。肩の力を抜いて話す");
    reveal_strlit("親しい相手。気軽に、率直に話す");
    reveal_strlit("とても親しい相手。心を開いて話す");
    reveal_strlit("- あなたが抱いている印象: ");
    reveal_strlit("- 初対面の相手である\n");
    reveal_strlit("\n## 会話のテーマ\n");
    reveal_strlit("\n## 前回からの経過\n");
    reveal_strlit("。自然な範囲でこのことに触れてよい\n");
    reveal_strlit("\n## あなたの記憶 (関連する過去の出来事)\n");
    reveal_strlit("\n## 現在の性格傾向\n");
    reveal_strlit("- [");
    reveal_strlit("] ");
    reveal_strlit("\n## 会話のルール\n\
     - 上記の記憶とこの会話に出てきていないことを、知っている・覚えているかのように話さない。知らないことは正直に「知らない」「覚えていない」と言う\n\
     - 設定された口調を一貫して保つ\n\
     - 1回の発言は短く自然に(2〜4文程度)。地の文や説明は書かず、発言のみを出力する\n");
    lemma_no_start_char("あなたは「"@, n);
    lemma_no_start_char("\n口調: "@, n);
    lemma_no_start_char("\n価値観: "@, n);
    lemma_no_start_char("\n自己紹介: "@, n);
    lemma_no_start_char("\n"@, n);
    lemma_no_start_char("、"@, n);
    lemma_no_start_char("- 距離感: "@, n);
    lemma_no_start_char("初対面に近い距離感。丁寧に、少し遠慮がちに接する"@, n);
    lemma_no_start_char("知り合い程度。礼儀正しく接する"@, n);
    lemma_no_start_char("打ち解けてきた相手。肩の力を抜いて話す"@, n);
    lemma_no_start_char("親しい相手。気軽に、率直に話す"@, n);
    lemma_no_start_char("とても親しい相手。心を開いて話す"@, n);
    lemma_no_start_char("- あなたが抱いている印象: "@, n);
    lemma_no_start_char("- 初対面の相手である\n"@, n);
    lemma_no_start_char("。自然な範囲でこのことに触れてよい\n"@, n);
    lemma_no_start_char("- ["@, n);
    lemma_no_start_char("] "@, n);
    assert forall|v: int| !seq_contains(#[trigger] intimacy_phrase_spec(v), n) by {
    }
    reveal_with_fuel(agrees, 8);
    let d: int = if n == mood_heading() {
        7
    } else {
        8
    };
    lemma_no_occurrence("」という人物として会話する。\n## あなたの人物像\n性格: "@, n, d);
    lemma_no_occurrence("\n## 会話相手: "@, n, d);
    lemma_no_occurrence("\n## 会話相手 (複数): "@, n, d);
    lemma_no_occurrence(RULES_TEXT@, n, d);
    if n != traits_heading() {
        lemma_no_occurrence("\n## 現在の性格傾向\n"@, n, d);
    }
    if n != mood_heading() {
        lemma_no_occurrence("\n## 今の気分\n"@, n, d);
    }
    if n != theme_heading() {
        lemma_no_occurrence("\n## 会話のテーマ\n"@, n, d);
    }
    if n != elapsed_heading() {
        lemma_no_occurrence("\n## 前回からの経過\n"@, n, d);
    }
    if n != memories_heading() {
        lemma_no_occurrence("\n## あなたの記憶 (関連する過去の出来事)\n"@, n, d);
    }
}

/// No occurrence of `n` in `a + b` runs across the join.
pub open spec fn straddle_free(a: Seq<char>, b: Seq<char>, n: Seq<char>) -> bool {
    forall|k: int|
        1 <= k < n.len() && k <= a.len() && n.len() - k <= b.len() ==> !(#[trigger] a.subrange(
            a.len() - k,
            a.len() as int,
        ) == n.subrange(0, k) && b.subrange(0, n.len() - k) == n.subrange(k, n.len() as int))
}

proof fn lemma_join_exact(a: Seq<char>, b: Seq<char>, n: Seq<char>)
    requires
        !seq_contains(a, n),
        !seq_contains(b, n),
        straddle_free(a, b, n),
    ensures
        !seq_contains(a + b, n),
{
    if seq_contains(a + b, n) {
        let i = choose|i: int| occurs_at(a + b, n, i);
        let ab = a + b;
        assert(ab.subrange(i, i + n.len()) == n);
        if i + n.len() <= a.len() {
            assert(a.subrange(i, i + n.len()) =~= ab.subrange(i, i + n.len()));
            assert(occurs_at(a, n, i));
        } else if i >= a.len() {
            assert(b.subrange(i - a.len(), i - a.len() + n.len()) =~= ab.subrange(i, i + n.len()));
            assert(occurs_at(b, n, i - a.len()));
        } else {
            let k = a.len() - i;
            assert(a.subrange(a.len() - k, a.len() as int) =~= n.subrange(0, k));
            assert(b.subrange(0, n.len() - k) =~= n.subrange(k, n.len() as int));
        }
    }
}

/// A partner title `### name` holds the heading `n` only when the name starts
/// with the heading's words.
proof fn lemma_title_free(name: Seq<char>, n: Seq<char>)
    requires
        is_section_heading(n),
        !seq_contains(name, n),
        !starts_with(name, n.subrange(3, n.len() as int)),
    ensures
        !seq_contains("### "@ + name, n),
{
    lemma_heading_chars(n);
    lemma_system_fixed_edges();
    let t = "### "@;
    assert(!seq_contains(t, n)) by {
        if seq_contains(t, n) {
            let i = choose|i: int| occurs_at(t, n, i);
            assert(i + n.len() <= t.len());
        }
    }
    assert forall|k: int|
        1 <= k < n.len() && k <= t.len() && n.len() - k <= name.len() implies !(#[trigger] t.subrange(
        t.len() - k,
        t.len() as int,
    ) == n.subrange(0, k) && name.subrange(0, n.len() - k) == n.subrange(k, n.len() as int)) by {
        if t.subrange(t.len() - k, t.len() as int) == n.subrange(0, k) && name.subrange(
            0,
            n.len() - k,
        ) == n.subrange(k, n.len() as int) {
            assert(t.subrange(t.len() - k, t.len() as int)[0] == n[0]);
            if k == 1 {
                assert(t[3] == n[0]);
            } else if k == 2 {
                assert(t.subrange(t.len() - k, t.len() as int)[1] == n[1]);
                assert(t[3] == n[1]);
            } else if k == 3 {
                assert(name.subrange(0, n.len() - 3) =~= n.subrange(3, n.len() as int));
                assert(starts_with(name, n.subrange(3, n.len() as int)));
            } else {
                assert(t.subrange(t.len() - k, t.len() as int)[2] == n[2]);
                assert(t[2] == n[2]);
            }
        }
    }
    lemma_join_exact(t, name, n);
}

#[verifier::rlimit(40)]
#[verifier::spinoff_prover]
proof fn lemma_head_free(p: Persona, n: Seq<char>)
    requires
        system_word(n),
        !seq_contains(p.name@, n),
        !seq_contains(p.description@, n),
        !seq_contains(p.speech_style@, n),
        !seq_contains(p.values_text@, n),
        !seq_contains(p.self_intro@, n),
    ensures
        !seq_contains(head_section(p), n),
        head_section(p).len() > 0 && head_section(p).last() == '\n',
{
    lemma_system_fixed_edges();
    let a1 = "あなたは「"@;
    let a2 = "」という人物として会話する。\n## あなたの人物像\n性格: "@;
    let a3 = "\n口調: "@;
    let a4 = "\n価値観: "@;
    let a5 = "\n自己紹介: "@;
    let a6 = "\n"@;
    lemma_join_free(a1, p.name@, n);
    let j1 = a1 + p.name@;
    lemma_join_free(j1, a2, n);
    let j2 = j1 + a2;
    lemma_last_of_join(j1, a2);
    lemma_last2_of_join(j1, a2);
    lemma_join_free(j2, p.description@, n);
    let j3 = j2 + p.description@;
    lemma_join_free(j3, a3, n);
    let j4 = j3 + a3;
    lemma_last_of_join(j3, a3);
    lemma_last2_of_join(j3, a3);
    lemma_join_free(j4, p.speech_style@, n);
    let j5 = j4 + p.speech_style@;
    lemma_join_free(j5, a4, n);
    let j6 = j5 + a4;
    lemma_last_of_join(j5, a4);
    lemma_last2_of_join(j5, a4);
    lemma_join_free(j6, p.values_text@, n);
    let j7 = j6 + p.values_text@;
    lemma_join_free(j7, a5, n);
    let j8 = j7 + a5;
    lemma_last_of_join(j7, a5);
    lemma_last2_of_join(j7, a5);
    lemma_join_free(j8, p.self_intro@, n);
    let j9 = j8 + p.self_intro@;
    lemma_join_free(j9, a6, n);
    lemma_last_of_join(j9, a6);
    assert(head_section(p) == j9 + a6);
}

proof fn lemma_wrapped_free(open: Seq<char>, x: Seq<char>, close: Seq<char>, n: Seq<char>)
    requires
        system_word(n),
        !seq_contains(open, n),
        !seq_contains(x, n),
        !seq_contains(close, n),
        open.len() > 2,
        open.last() == '\n' || (open.last() == ' ' && open[open.len() - 2] == ':'),
        close.len() > 0,
        close[0] == '\n' || close[0] == '。',
    ensures
        !seq_contains(open + x + close, n),
        (open + x + close)[0] == open[0],
        (open + x + close).last() == close.last(),
{
    lemma_join_free(open, x, n);
    lemma_join_free(open + x, close, n);
    lemma_first_of_join(open, x);
    lemma_first_of_join(open + x, close);
    lemma_last_of_join(open + x, close);
}

proof fn lemma_joined_names_free(ps: Seq<PartnerInfo>, n: Seq<char>)
    requires
        system_word(n),
        forall|i: int| 0 <= i < ps.len() ==> !seq_contains((#[trigger] ps[i]).name@, n),
    ensures
        !seq_contains(joined_names(ps), n),
    decreases ps.len(),
{
    lemma_system_fixed_edges();
    if ps.len() == 0 {
        lemma_no_start_char(Seq::<char>::empty(), n);
    } else if ps.len() == 1 {
    } else {
        let front = ps.drop_last();
        assert forall|i: int| 0 <= i < front.len() implies !seq_contains(
            (#[trigger] front[i]).name@,
            n,
        ) by {
            assert(front[i] == ps[i]);
        }
        lemma_joined_names_free(front, n);
        let j = joined_names(front);
        lemma_join_free(j, "、"@, n);
        lemma_last_of_join(j, "、"@);
        assert(!seq_contains(ps.last().name@, n)) by {
            assert(ps.last() == ps[ps.len() - 1]);
        }
        lemma_join_free(j + "、"@, ps.last().name@, n);
    }
}

proof fn lemma_header_free(ps: Seq<PartnerInfo>, n: Seq<char>)
    requires
        system_word(n),
        forall|i: int| 0 <= i < ps.len() ==> !seq_contains((#[trigger] ps[i]).name@, n),
    ensures
        !seq_contains(partner_header(ps), n),
        partner_header(ps).len() > 0,
        partner_header(ps)[0] == '\n',
        partner_header(ps).last() == '\n',
{
    lemma_system_fixed_edges();
    if ps.len() == 1 {
        assert(!seq_contains(ps[0].name@, n));
        lemma_wrapped_free("\n## 会話相手: "@, ps[0].name@, "\n"@, n);
    } else {
        lemma_joined_names_free(ps, n);
        lemma_wrapped_free("\n## 会話相手 (複数): "@, joined_names(ps), "\n"@, n);
    }
}

/// A partner of a group must not start its name with the words of the heading
/// `n`: its title `### name` would then hold the heading.
pub open spec fn title_ok(name: Seq<char>, n: Seq<char>) -> bool {
    !starts_with(name, n.subrange(3, n.len() as int))
}

#[verifier::rlimit(60)]
#[verifier::spinoff_prover]
proof fn lemma_block_free(pi: PartnerInfo, many: bool, n: Seq<char>)
    requires
        system_word(n),
        is_section_heading(n),
        !seq_contains(pi.name@, n),
        many ==> title_ok(pi.name@, n),
        pi.relationship matches Some(r) ==> !seq_contains(r.impression_text@, n),
    ensures
        !seq_contains(partner_block(pi, many), n),
        partner_block(pi, many).len() > 0,
        partner_block(pi, many).last() == '\n',
{
    lemma_system_fixed_edges();
    let title = if many {
        "### "@ + pi.name@ + "\n"@
    } else {
        Seq::empty()
    };
    if many {
        lemma_title_free(pi.name@, n);
        lemma_join_free("### "@ + pi.name@, "\n"@, n);
        lemma_last_of_join("### "@ + pi.name@, "\n"@);
    } else {
        lemma_no_start_char(title, n);
    }
    let body = match pi.relationship {
        Some(rel) => "- 距離感: "@ + intimacy_phrase_spec(rel.intimacy as int) + "\n"@ + if rel.impression_text@.len()
            > 0 {
            "- あなたが抱いている印象: "@ + rel.impression_text@ + "\n"@
        } else {
            Seq::empty()
        },
        None => "- 初対面の相手である\n"@,
    };
    match pi.relationship {
        Some(rel) => {
            let ph = intimacy_phrase_spec(rel.intimacy as int);
            assert(!seq_contains(ph, n));
            lemma_join_free("- 距離感: "@, ph, n);
            lemma_join_free("- 距離感: "@ + ph, "\n"@, n);
            let k = "- 距離感: "@ + ph + "\n"@;
            lemma_last_of_join("- 距離感: "@ + ph, "\n"@);
            let imp = if rel.impression_text@.len() > 0 {
                "- あなたが抱いている印象: "@ + rel.impression_text@ + "\n"@
            } else {
                Seq::empty()
            };
            if rel.impression_text@.len() > 0 {
                lemma_join_free("- あなたが抱いている印象: "@, rel.impression_text@, n);
                lemma_join_free("- あなたが抱いている印象: "@ + rel.impression_text@, "\n"@, n);
                lemma_first_of_join("- あなたが抱いている印象: "@, rel.impression_text@);
                lemma_first_of_join("- あなたが抱いている印象: "@ + rel.impression_text@, "\n"@);
                lemma_last_of_join("- あなたが抱いている印象: "@ + rel.impression_text@, "\n"@);
            } else {
                lemma_no_start_char(imp, n);
            }
            lemma_join_free(k, imp, n);
            if imp.len() > 0 {
                lemma_last_of_join(k, imp);
            } else {
                assert(k + imp =~= k);
            }
            assert(body == k + imp);
        },
        None => {},
    }
    lemma_join_free(title, body, n);
    lemma_last_of_join(title, body);
    assert(partner_block(pi, many) == title + body);
}

proof fn lemma_blocks_free(ps: Seq<PartnerInfo>, many: bool, n: Seq<char>)
    requires
        system_word(n),
        is_section_heading(n),
        forall|i: int|
            0 <= i < ps.len() ==> !seq_contains((#[trigger] ps[i]).name@, n) && (many ==> title_ok(
                ps[i].name@,
                n,
            )) && (ps[i].relationship matches Some(r) ==> !seq_contains(r.impression_text@, n)),
    ensures
        !seq_contains(partner_blocks(ps, many), n),
        partner_blocks(ps, many).len() == 0 || partner_blocks(ps, many).last() == '\n',
    decreases ps.len(),
{
    if ps.len() == 0 {
        lemma_no_start_char(Seq::<char>::empty(), n);
    } else {
        let front = ps.drop_last();
        assert forall|i: int| 0 <= i < front.len() implies !seq_contains(
            (#[trigger] front[i]).name@,
            n,
        ) && (many ==> title_ok(front[i].name@, n)) && (front[i].relationship matches Some(r)
            ==> !seq_contains(r.impression_text@, n)) by {
            assert(front[i] == ps[i]);
        }
        lemma_blocks_free(front, many, n);
        assert(ps.last() == ps[ps.len() - 1]);
        lemma_block_free(ps.last(), many, n);
        lemma_join_free(partner_blocks(front, many), partner_block(ps.last(), many), n);
        lemma_last_of_join(partner_blocks(front, many), partner_block(ps.last(), many));
    }
}

#[verifier::rlimit(40)]
#[verifier::spinoff_prover]
proof fn lemma_memory_lines_free(ms: Seq<Memory>, dates: Seq<String>, n: Seq<char>)
    requires
        system_word(n),
        forall|i: int|
            0 <= i < ms.len() ==> !seq_contains((#[trigger] ms[i]).content@, n)
                && !seq_contains(dates[i]@, n),
    ensures
        !seq_contains(memory_lines(ms, dates), n),
        memory_lines(ms, dates).len() == 0 || memory_lines(ms, dates).last() == '\n',
    decreases ms.len(),
{
    lemma_system_fixed_edges();
    if ms.len() == 0 {
        lemma_no_start_char(Seq::<char>::empty(), n);
    } else {
        let k = ms.len() - 1;
        let front = ms.drop_last();
        assert forall|i: int| 0 <= i < front.len() implies !seq_contains(
            (#[trigger] front[i]).content@,
            n,
        ) && !seq_contains(dates[i]@, n) by {
            assert(front[i] == ms[i]);
        }
        lemma_memory_lines_free(front, dates, n);
        assert(!seq_contains(ms[k].content@, n) && !seq_contains(dates[k]@, n));
        let l = memory_lines(front, dates);
        lemma_join_free(l, "- ["@, n);
        let x1 = l + "- ["@;
        lemma_last_of_join(l, "- ["@);
        lemma_join_free(x1, dates[k]@, n);
        let x2 = x1 + dates[k]@;
        lemma_join_free(x2, "] "@, n);
        let x3 = x2 + "] "@;
        lemma_last_of_join(x2, "] "@);
        lemma_last2_of_join(x2, "] "@);
        lemma_join_free(x3, ms[k].content@, n);
        let x4 = x3 + ms[k].content@;
        lemma_join_free(x4, "\n"@, n);
        lemma_last_of_join(x4, "\n"@);
        assert(memory_lines(ms, dates) == x4 + "\n"@);
    }
}

#[verifier::rlimit(40)]
proof fn lemma_nat_digits_chars(m: nat)
    ensures
        forall|j: int|
            0 <= j < nat_digits(m).len() ==> 48 <= (#[trigger] nat_digits(m)[j] as int) <= 57,
    decreases m,
{
    if m < 10 {
        assert((48 + m) as u8 == 48 + m);
        assert(digit_char(m as int) as int == 48 + m);
        assert(nat_digits(m) == seq![digit_char(m as int)]);
    } else {
        lemma_nat_digits_chars(m / 10);
        let d = (m % 10) as int;
        assert((48 + d) as u8 == 48 + d);
        assert(digit_char(d) as int == 48 + d);
        let front = nat_digits(m / 10);
        assert(nat_digits(m) == front.push(digit_char(d)));
        assert forall|j: int| 0 <= j < nat_digits(m).len() implies 48 <= (
        #[trigger] nat_digits(m)[j] as int) <= 57 by {
            if j < front.len() {
                assert(nat_digits(m)[j] == front[j]);
            } else {
                assert(nat_digits(m)[j] == digit_char(d));
            }
        }
    }
}

/// A number's text holds no `n` that starts with something other than a
/// digit or `-`.
proof fn lemma_int_text_free(v: int, n: Seq<char>)
    requires
        n.len() > 0,
        (n[0] as int) < 45 || (n[0] as int) > 57,
        n[0] != '-',
    ensures
        !seq_contains(int_text(v), n),
{
    let t = int_text(v);
    if v < 0 {
        lemma_nat_digits_chars((-v) as nat);
        assert forall|j: int| 0 <= j < t.len() implies t[j] != n[0] by {
            if j > 0 {
                assert(t[j] == nat_digits((-v) as nat)[j - 1]);
            }
        }
    } else {
        lemma_nat_digits_chars(v as nat);
    }
    lemma_no_start_char(t, n);
}

/// The fixed texts of a trait line do not hold `n`, nor can it run across
/// their joins.
pub open spec fn trait_word(n: Seq<char>) -> bool {
    &&& starts_clear(':', n) && starts_clear('(', n) && starts_clear('/', n) && ends_clear('(', n)
    &&& ((n[0] as int) < 45 || (n[0] as int) > 57) && n[0] != '-'
    &&& (forall|i: int| !seq_contains(#[trigger] trait_label_of(i), n))
    &&& (forall|v: int| !seq_contains(#[trigger] trait_degree(v), n))
    &&& !seq_contains("- "@, n) && !seq_contains(": "@, n) && !seq_contains("("@, n)
    &&& !seq_contains("/100)"@, n)
    &&& "- "@.len() == 2 && "- "@[0] == '-' && "- "@[1] == ' '
    &&& ": "@.len() == 2 && ": "@[0] == ':' && ": "@[1] == ' '
    &&& "("@.len() == 1 && "("@[0] == '('
    &&& "/100)"@.len() > 0 && "/100)"@[0] == '/'
}

proof fn lemma_heading_trait_word(n: Seq<char>)
    requires
        is_section_heading(n),
    ensures
        trait_word(n),
{
    lemma_heading_chars(n);
    reveal_strlit("社交性");
    reveal_strlit("共感性");
    reveal_strlit("慎重さ");
    reveal_strlit("自己主張");
    reveal_strlit("明朗さ");
    reveal_strlit("とても低い");
    reveal_strlit("低め");
    reveal_strlit("ふつう");
    reveal_strlit("高め");
    reveal_strlit("とても高い");
    reveal_strlit("- ");
    reveal_strlit(": ");
    reveal_strlit("(");
    reveal_strlit("/100)");
    assert forall|i: int| !seq_contains(#[trigger] trait_label_of(i), n) by {
        lemma_no_start_char(trait_label_of(i), n);
    }
    assert forall|v: int| !seq_contains(#[trigger] trait_degree(v), n) by {
        lemma_no_start_char(trait_degree(v), n);
    }
    lemma_no_start_char("- "@, n);
    lemma_no_start_char(": "@, n);
    lemma_no_start_char("("@, n);
    lemma_no_start_char("/100)"@, n);
}

#[verifier::rlimit(40)]
#[verifier::spinoff_prover]
proof fn lemma_trait_lines_free(ts: Seq<TraitValue>, n: Seq<char>)
    requires
        system_word(n),
        trait_word(n),
        forall|i: int| 0 <= i < ts.len() ==> !seq_contains((#[trigger] ts[i]).key@, n),
    ensures
        !seq_contains(trait_lines(ts), n),
        trait_lines(ts).len() == 0 || trait_lines(ts).last() == '\n',
    decreases ts.len(),
{
    lemma_system_fixed_edges();
    if ts.len() == 0 {
        lemma_no_start_char(Seq::<char>::empty(), n);
    } else {
        let front = ts.drop_last();
        assert forall|i: int| 0 <= i < front.len() implies !seq_contains((#[trigger] front[i]).key@, n) by {
            assert(front[i] == ts[i]);
        }
        lemma_trait_lines_free(front, n);
        let t = ts[ts.len() - 1];
        assert(ts.last() == t);
        let label = trait_label_spec(t.key@);
        if trait_index(t.key@) < 5 {
            assert(!seq_contains(trait_label_of(trait_index(t.key@)), n));
        }
        let deg = trait_degree(t.value as int);
        assert(!seq_contains(deg, n));
        lemma_int_text_free(t.value as int, n);
        let l = trait_lines(front);
        lemma_join_free(l, "- "@, n);
        let x1 = l + "- "@;
        lemma_last_of_join(l, "- "@);
        lemma_last2_of_join(l, "- "@);
        lemma_join_free(x1, label, n);
        let x2 = x1 + label;
        lemma_join_free(x2, ": "@, n);
        let x3 = x2 + ": "@;
        lemma_last_of_join(x2, ": "@);
        lemma_last2_of_join(x2, ": "@);
        lemma_join_free(x3, deg, n);
        let x4 = x3 + deg;
        lemma_join_free(x4, "("@, n);
        let x5 = x4 + "("@;
        lemma_last_of_join(x4, "("@);
        lemma_join_free(x5, int_text(t.value as int), n);
        let x6 = x5 + int_text(t.value as int);
        lemma_join_free(x6, "/100)"@, n);
        let x7 = x6 + "/100)"@;
        lemma_join_free(x7, "\n"@, n);
        lemma_last_of_join(x7, "\n"@);
        assert(trait_phrase_spec(t.key@, t.value as int) =~= label + ": "@ + deg + "("@ + int_text(
            t.value as int,
        ) + "/100)"@);
        assert(trait_lines(ts) =~= x7 + "\n"@);
    }
}

/// The texts a system prompt is built from are free of `n` (and a group's
/// partner names do not start with its words).
pub open spec fn system_inputs_free(
    p: Persona,
    traits: Seq<TraitValue>,
    partners: Seq<PartnerInfo>,
    memories: Seq<Memory>,
    dates: Seq<String>,
    theme: Option<Seq<char>>,
    mood: Option<Seq<char>>,
    elapsed: Option<Seq<char>>,
    n: Seq<char>,
) -> bool {
    &&& !seq_contains(p.name@, n)
    &&& !seq_contains(p.description@, n)
    &&& !seq_contains(p.speech_style@, n)
    &&& !seq_contains(p.values_text@, n)
    &&& !seq_contains(p.self_intro@, n)
    &&& forall|i: int| 0 <= i < traits.len() ==> !seq_contains((#[trigger] traits[i]).key@, n)
    &&& forall|i: int|
        0 <= i < partners.len() ==> !seq_contains((#[trigger] partners[i]).name@, n) && (
        partners.len() > 1 ==> title_ok(partners[i].name@, n)) && (partners[i].relationship matches Some(
            r,
        ) ==> !seq_contains(r.impression_text@, n))
    &&& forall|i: int|
        0 <= i < memories.len() ==> !seq_contains((#[trigger] memories[i]).content@, n)
            && !seq_contains(dates[i]@, n)
    &&& theme matches Some(t) ==> !seq_contains(t, n)
    &&& mood matches Some(m) ==> !seq_contains(m, n)
    &&& elapsed matches Some(e) ==> !seq_contains(e, n)
}

/// A system prompt does not hold the heading `n` when its own section is
/// missing and its texts do not hold it.
#[verifier::rlimit(60)]
#[verifier::spinoff_prover]
proof fn lemma_system_text_free(
    p: Persona,
    traits: Seq<TraitValue>,
    partners: Seq<PartnerInfo>,
    memories: Seq<Memory>,
    dates: Seq<String>,
    theme: Option<Seq<char>>,
    mood: Option<Seq<char>>,
    elapsed: Option<Seq<char>>,
    n: Seq<char>,
)
    requires
        is_section_heading(n),
        system_inputs_free(p, traits, partners, memories, dates, theme, mood, elapsed, n),
        n == traits_heading() ==> traits.len() == 0,
        n == mood_heading() ==> mood is None,
        n == theme_heading() ==> !(theme matches Some(x) && x.len() > 0),
        n == elapsed_heading() ==> elapsed is None,
        n == memories_heading() ==> memories.len() == 0,
    ensures
        !seq_contains(system_text(p, traits, partners, memories, dates, theme, mood, elapsed), n),
{
    let t = system_text(p, traits, partners, memories, dates, theme, mood, elapsed);
    lemma_heading_chars(n);
    lemma_heading_fixed_free(n);
    lemma_heading_trait_word(n);
    lemma_system_fixed_edges();
    assert(system_word(n));
    lemma_head_free(p, n);
    let h = head_section(p);
    let ts = traits_section(traits);
    lemma_trait_lines_free(traits, n);
    if traits.len() > 0 {
        let r0 = "\n## 現在の性格傾向\n"@;
        lemma_join_free(r0, trait_lines(traits), n);
        lemma_first_of_join(r0, trait_lines(traits));
    } else {
        lemma_no_start_char(ts, n);
    }
    let md = mood_section(mood);
    match mood {
        Some(m) => {
            lemma_wrapped_free("\n## 今の気分\n"@, m, "\n"@, n);
        },
        None => {
            lemma_no_start_char(md, n);
        },
    }
    assert forall|i: int| 0 <= i < partners.len() implies !seq_contains(
        (#[trigger] partners[i]).name@,
        n,
    ) by {}
    let ph = partner_header(partners);
    lemma_header_free(partners, n);
    let pb = partner_blocks(partners, partners.len() > 1);
    lemma_blocks_free(partners, partners.len() > 1, n);
    let th = theme_section(theme);
    match theme {
        Some(x) => {
            if x.len() > 0 {
                lemma_wrapped_free("\n## 会話のテーマ\n"@, x, "\n"@, n);
            } else {
                lemma_no_start_char(th, n);
            }
        },
        None => {
            lemma_no_start_char(th, n);
        },
    }
    let el = elapsed_section(elapsed);
    match elapsed {
        Some(x) => {
            lemma_wrapped_free("\n## 前回からの経過\n"@, x, "。自然な範囲でこのことに触れてよい\n"@, n);
        },
        None => {
            lemma_no_start_char(el, n);
        },
    }
    let me = memory_section(memories, dates);
    lemma_memory_lines_free(memories, dates, n);
    if memories.len() > 0 {
        let ml = memory_lines(memories, dates);
        let r1 = "\n## あなたの記憶 (関連する過去の出来事)\n"@;
        lemma_join_free(r1, ml, n);
        lemma_first_of_join(r1, ml);
    } else {
        lemma_no_start_char(me, n);
    }
    let ru = RULES_TEXT@;
    let s1 = h + ts;
    lemma_join_free(h, ts, n);
    let s2 = s1 + md;
    lemma_join_free(s1, md, n);
    let s3 = s2 + ph;
    lemma_join_free(s2, ph, n);
    lemma_last_of_join(s2, ph);
    let s4 = s3 + pb;
    lemma_join_free(s3, pb, n);
    let s5 = s4 + th;
    lemma_join_free(s4, th, n);
    let s6 = s5 + el;
    lemma_join_free(s5, el, n);
    let s7 = s6 + me;
    lemma_join_free(s6, me, n);
    lemma_join_free(s7, ru, n);
    assert(t == s7 + ru);
}

proof fn lemma_contains_suffix(s: Seq<char>, a: Seq<char>, b: Seq<char>)
    requires
        seq_contains(s, a + b),
    ensures
        seq_contains(s, b),
{
    let i = choose|i: int| occurs_at(s, a + b, i);
    let whole = s.subrange(i, i + (a + b).len());
    assert(whole == a + b);
    assert(s.subrange(i + a.len(), i + a.len() + b.len()) =~= whole.subrange(
        a.len() as int,
        (a + b).len() as int,
    ));
    assert(whole.subrange(a.len() as int, (a + b).len() as int) =~= b);
    assert(occurs_at(s, b, i + a.len()));
}


/// None of the texts a system prompt is built from holds `## `.
pub open spec fn system_inputs_plain(
    p: Persona,
    traits: Seq<TraitValue>,
    partners: Seq<PartnerInfo>,
    memories: Seq<Memory>,
    dates: Seq<String>,
    theme: Option<Seq<char>>,
    mood: Option<Seq<char>>,
    elapsed: Option<Seq<char>>,
) -> bool {
    let hh = "## "@;
    &&& !seq_contains(p.name@, hh)
    &&& !seq_contains(p.description@, hh)
    &&& !seq_contains(p.speech_style@, hh)
    &&& !seq_contains(p.values_text@, hh)
    &&& !seq_contains(p.self_intro@, hh)
    &&& forall|i: int| 0 <= i < traits.len() ==> !seq_contains((#[trigger] traits[i]).key@, hh)
    &&& forall|i: int|
        0 <= i < partners.len() ==> !seq_contains((#[trigger] partners[i]).name@, hh) && (
        partners[i].relationship matches Some(r) ==> !seq_contains(r.impression_text@, hh))
    &&& forall|i: int|
        0 <= i < memories.len() ==> !seq_contains((#[trigger] memories[i]).content@, hh)
            && !seq_contains(dates[i]@, hh)
    &&& theme matches Some(t) ==> !seq_contains(t, hh)
    &&& mood matches Some(m) ==> !seq_contains(m, hh)
    &&& elapsed matches Some(e) ==> !seq_contains(e, hh)
}

/// In a group, no partner's name starts with the words of the heading `n`.
pub open spec fn titles_ok(partners: Seq<PartnerInfo>, n: Seq<char>) -> bool {
    partners.len() > 1 ==> forall|i: int|
        0 <= i < partners.len() ==> title_ok((#[trigger] partners[i]).name@, n)
}

proof fn lemma_plain_text(x: Seq<char>, n: Seq<char>)
    requires
        is_section_heading(n),
        !seq_contains(x, "## "@),
    ensures
        !seq_contains(x, n),
{
    lemma_heading_chars(n);
    if seq_contains(x, n) {
        lemma_contains_prefix(x, "## "@, n.subrange(3, n.len() as int));
    }
}

proof fn lemma_plain_inputs_free(
    p: Persona,
    traits: Seq<TraitValue>,
    partners: Seq<PartnerInfo>,
    memories: Seq<Memory>,
    dates: Seq<String>,
    theme: Option<Seq<char>>,
    mood: Option<Seq<char>>,
    elapsed: Option<Seq<char>>,
    n: Seq<char>,
)
    requires
        is_section_heading(n),
        system_inputs_plain(p, traits, partners, memories, dates, theme, mood, elapsed),
        titles_ok(partners, n),
    ensures
        system_inputs_free(p, traits, partners, memories, dates, theme, mood, elapsed, n),
{
    lemma_plain_text(p.name@, n);
    lemma_plain_text(p.description@, n);
    lemma_plain_text(p.speech_style@, n);
    lemma_plain_text(p.values_text@, n);
    lemma_plain_text(p.self_intro@, n);
    assert forall|i: int| 0 <= i < traits.len() implies !seq_contains((#[trigger] traits[i]).key@, n) by {
        lemma_plain_text(traits[i].key@, n);
    }
    assert forall|i: int| 0 <= i < partners.len() implies !seq_contains(
        (#[trigger] partners[i]).name@,
        n,
    ) && (partners.len() > 1 ==> title_ok(partners[i].name@, n)) && (
    partners[i].relationship matches Some(r) ==> !seq_contains(r.impression_text@, n)) by {
        lemma_plain_text(partners[i].name@, n);
        if let Some(r) = partners[i].relationship {
            lemma_plain_text(r.impression_text@, n);
        }
    }
    assert forall|i: int| 0 <= i < memories.len() implies !seq_contains(
        (#[trigger] memories[i]).content@,
        n,
    ) && !seq_contains(dates[i]@, n) by {
        lemma_plain_text(memories[i].content@, n);
        lemma_plain_text(dates[i]@, n);
    }
    if let Some(x) = theme {
        lemma_plain_text(x, n);
    }
    if let Some(x) = mood {
        lemma_plain_text(x, n);
    }
    if let Some(x) = elapsed {
        lemma_plain_text(x, n);
    }
}

proof fn lemma_headings_distinct()
    ensures
        traits_heading() != mood_heading(),
        traits_heading() != theme_heading(),
        traits_heading() != elapsed_heading(),
        traits_heading() != memories_heading(),
        mood_heading() != theme_heading(),
        mood_heading() != elapsed_heading(),
        mood_heading() != memories_heading(),
        theme_heading() != elapsed_heading(),
        theme_heading() != memories_heading(),
        elapsed_heading() != memories_heading(),
{
    reveal_strlit("## 現在の性格傾向");
    reveal_strlit("## 今の気分");
    reveal_strlit("## 会話のテーマ");
    reveal_strlit("## 前回からの経過");
    reveal_strlit("## あなたの記憶");
    assert(traits_heading()[3] != mood_heading()[3]);
    assert(traits_heading()[3] != theme_heading()[3]);
    assert(traits_heading()[3] != elapsed_heading()[3]);
    assert(traits_heading()[3] != memories_heading()[3]);
    assert(mood_heading()[3] != theme_heading()[3]);
    assert(mood_heading()[3] != elapsed_heading()[3]);
    assert(mood_heading()[3] != memories_heading()[3]);
    assert(theme_heading()[3] != elapsed_heading()[3]);
    assert(theme_heading()[3] != memories_heading()[3]);
    assert(elapsed_heading()[3] != memories_heading()[3]);
}

/// A section heading occurs in a text that holds it between line feeds.
proof fn lemma_heading_within(t: Seq<char>, line: Seq<char>, n: Seq<char>, tail: Seq<char>)
    requires
        line == "\n"@ + n + tail,
        seq_contains(t, line),
    ensures
        seq_contains(t, n),
{
    lemma_contains_prefix(t, "\n"@ + n, tail);
    lemma_contains_suffix(t, "\n"@, n);
}

/// The system prompt holds the traits heading `## 現在の性格傾向` exactly when
/// traits are given, provided none of its texts holds `## ` and, in a group,
/// no partner's name starts with the heading's words (its title `### name`
/// would hold the heading).
pub proof fn law_system_traits_heading(
    p: Persona,
    traits: Seq<TraitValue>,
    partners: Seq<PartnerInfo>,
    memories: Seq<Memory>,
    dates: Seq<String>,
    theme: Option<Seq<char>>,
    mood: Option<Seq<char>>,
    elapsed: Option<Seq<char>>,
)
    requires
        system_inputs_plain(p, traits, partners, memories, dates, theme, mood, elapsed),
        titles_ok(partners, traits_heading()),
    ensures
        seq_contains(
            system_text(p, traits, partners, memories, dates, theme, mood, elapsed),
            traits_heading(),
        ) == (traits.len() > 0),
{
    let n = traits_heading();
    let t = system_text(p, traits, partners, memories, dates, theme, mood, elapsed);
    if traits.len() > 0 {
        law_system_sections(p, traits, partners, memories, dates, theme, mood, elapsed);
        reveal_strlit("\n## 現在の性格傾向\n");
        reveal_strlit("## 現在の性格傾向");
        reveal_strlit("\n");
        assert("\n## 現在の性格傾向\n"@ =~= "\n"@ + n + "\n"@);
        lemma_heading_within(t, "\n## 現在の性格傾向\n"@, n, "\n"@);
    } else {
        lemma_headings_distinct();
        lemma_plain_inputs_free(p, traits, partners, memories, dates, theme, mood, elapsed, n);
        lemma_system_text_free(p, traits, partners, memories, dates, theme, mood, elapsed, n);
    }
}

/// The system prompt holds the mood heading `## 今の気分` exactly when a mood
/// is given, on the same inputs as `law_system_traits_heading`.
pub proof fn law_system_mood_heading(
    p: Persona,
    traits: Seq<TraitValue>,
    partners: Seq<PartnerInfo>,
    memories: Seq<Memory>,
    dates: Seq<String>,
    theme: Option<Seq<char>>,
    mood: Option<Seq<char>>,
    elapsed: Option<Seq<char>>,
)
    requires
        system_inputs_plain(p, traits, partners, memories, dates, theme, mood, elapsed),
        titles_ok(partners, mood_heading()),
    ensures
        seq_contains(
            system_text(p, traits, partners, memories, dates, theme, mood, elapsed),
            mood_heading(),
        ) == (mood is Some),
{
    let n = mood_heading();
    let t = system_text(p, traits, partners, memories, dates, theme, mood, elapsed);
    if mood is Some {
        law_system_sections(p, traits, partners, memories, dates, theme, mood, elapsed);
        reveal_strlit("\n## 今の気分\n");
        reveal_strlit("## 今の気分");
        reveal_strlit("\n");
        assert("\n## 今の気分\n"@ =~= "\n"@ + n + "\n"@);
        lemma_heading_within(t, "\n## 今の気分\n"@, n, "\n"@);
    } else {
        lemma_headings_distinct();
        lemma_plain_inputs_free(p, traits, partners, memories, dates, theme, mood, elapsed, n);
        lemma_system_text_free(p, traits, partners, memories, dates, theme, mood, elapsed, n);
    }
}

/// The system prompt holds the theme heading `## 会話のテーマ` exactly when a
/// non-empty theme is given, on the same inputs as `law_system_traits_heading`.
pub proof fn law_system_theme_heading(
    p: Persona,
    traits: Seq<TraitValue>,
    partners: Seq<PartnerInfo>,
    memories: Seq<Memory>,
    dates: Seq<String>,
    theme: Option<Seq<char>>,
    mood: Option<Seq<char>>,
    elapsed: Option<Seq<char>>,
)
    requires
        system_inputs_plain(p, traits, partners, memories, dates, theme, mood, elapsed),
        titles_ok(partners, theme_heading()),
    ensures
        seq_contains(
            system_text(p, traits, partners, memories, dates, theme, mood, elapsed),
            theme_heading(),
        ) == (theme matches Some(x) && x.len() > 0),
{
    let n = theme_heading();
    let t = system_text(p, traits, partners, memories, dates, theme, mood, elapsed);
    if theme matches Some(x) && x.len() > 0 {
        law_system_sections(p, traits, partners, memories, dates, theme, mood, elapsed);
        reveal_strlit("\n## 会話のテーマ\n");
        reveal_strlit("## 会話のテーマ");
        reveal_strlit("\n");
        assert("\n## 会話のテーマ\n"@ =~= "\n"@ + n + "\n"@);
        lemma_heading_within(t, "\n## 会話のテーマ\n"@, n, "\n"@);
    } else {
        lemma_headings_distinct();
        lemma_plain_inputs_free(p, traits, partners, memories, dates, theme, mood, elapsed, n);
        lemma_system_text_free(p, traits, partners, memories, dates, theme, mood, elapsed, n);
    }
}

/// The system prompt holds the heading `## 前回からの経過` exactly when an
/// elapsed-time text is given, on the same inputs as
/// `law_system_traits_heading`.
pub proof fn law_system_elapsed_heading(
    p: Persona,
    traits: Seq<TraitValue>,
    partners: Seq<PartnerInfo>,
    memories: Seq<Memory>,
    dates: Seq<String>,
    theme: Option<Seq<char>>,
    mood: Option<Seq<char>>,
    elapsed: Option<Seq<char>>,
)
    requires
        system_inputs_plain(p, traits, partners, memories, dates, theme, mood, elapsed),
        titles_ok(partners, elapsed_heading()),
    ensures
        seq_contains(
            system_text(p, traits, partners, memories, dates, theme, mood, elapsed),
            elapsed_heading(),
        ) == (elapsed is Some),
{
    let n = elapsed_heading();
    let t = system_text(p, traits, partners, memories, dates, theme, mood, elapsed);
    if elapsed is Some {
        law_system_sections(p, traits, partners, memories, dates, theme, mood, elapsed);
        reveal_strlit("\n## 前回からの経過\n");
        reveal_strlit("## 前回からの経過");
        reveal_strlit("\n");
        assert("\n## 前回からの経過\n"@ =~= "\n"@ + n + "\n"@);
        lemma_heading_within(t, "\n## 前回からの経過\n"@, n, "\n"@);
    } else {
        lemma_headings_distinct();
        lemma_plain_inputs_free(p, traits, partners, memories, dates, theme, mood, elapsed, n);
        lemma_system_text_free(p, traits, partners, memories, dates, theme, mood, elapsed, n);
    }
}

/// The system prompt holds the memories heading `## あなたの記憶` exactly when
/// memories are given, on the same inputs as `law_system_traits_heading`.
pub proof fn law_system_memories_heading(
    p: Persona,
    traits: Seq<TraitValue>,
    partners: Seq<PartnerInfo>,
    memories: Seq<Memory>,
    dates: Seq<String>,
    theme: Option<Seq<char>>,
    mood: Option<Seq<char>>,
    elapsed: Option<Seq<char>>,
)
    requires
        system_inputs_plain(p, traits, partners, memories, dates, theme, mood, elapsed),
        titles_ok(partners, memories_heading()),
    ensures
        seq_contains(
            system_text(p, traits, partners, memories, dates, theme, mood, elapsed),
            memories_heading(),
        ) == (memories.len() > 0),
{
    let n = memories_heading();
    let t = system_text(p, traits, partners, memories, dates, theme, mood, elapsed);
    if memories.len() > 0 {
        law_system_sections(p, traits, partners, memories, dates, theme, mood, elapsed);
        reveal_strlit("\n## あなたの記憶 (関連する過去の出来事)\n");
        reveal_strlit("## あなたの記憶");
        reveal_strlit("\n");
        reveal_strlit(" (関連する過去の出来事)\n");
        assert("\n## あなたの記憶 (関連する過去の出来事)\n"@ =~= "\n"@ + n + " (関連する過去の出来事)\n"@);
        lemma_heading_within(
            t,
            "\n## あなたの記憶 (関連する過去の出来事)\n"@,
            n,
            " (関連する過去の出来事)\n"@,
        );
    } else {
        lemma_headings_distinct();
        lemma_plain_inputs_free(p, traits, partners, memories, dates, theme, mood, elapsed, n);
        lemma_system_text_free(p, traits, partners, memories, dates, theme, mood, elapsed, n);
    }
}

fn contains_id(ids: &[String], id: &str) -> (r: bool)
    ensures
        r == in_ids(ids@, id@),
{
    let mut i: usize = 0;
    while i < ids.len()
        invariant
            i <= ids.len(),
            forall|j: int| 0 <= j < i ==> (#[trigger] ids@[j])@ != id@,
        decreases ids.len() - i,
    {
        if str_eq(ids[i].as_str(), id) {
            return true;
        }
        i = i + 1;
    }
    false
}

/// Builds the speaker-selection prompt from the last eight utterances and the
/// participants `(id, name)`; `responded` holds the ids that have spoken.
pub fn build_speaker_selection(
    history: &[Utterance],
    participants: &[(String, String)],
    responded: &[String],
    allow_none: bool,
) -> (r: String)
    ensures
        r@ == speaker_selection_text(history@, participants@, responded@, allow_none),
{
    let mut s = owned(SELECTION_HEAD);
    let ghost base = s@;
    let mut i: usize = 0;
    while i < participants.len()
        invariant
            i <= participants.len(),
            s@ == base + participant_lines(participants@.take(i as int), responded@),
        decreases participants.len() - i,
    {
        assert(participants@.take(i + 1).drop_last() == participants@.take(i as int));
        s.append("- ");
        s.append(participants[i].1.as_str());
        if !contains_id(responded, participants[i].0.as_str()) {
            s.append(SELECTION_NOT_YET);
        }
        s.append("\n");
        i = i + 1;
    }
    assert(participants@.take(participants.len() as int) == participants@);
    s.append("\n## 直近の会話\n");
    let lo = if history.len() <= 8 {
        0
    } else {
        history.len() - 8
    };
    push_utterance_lines(&mut s, history, lo);
    assert(history@.subrange(lo as int, history@.len() as int) == last_n(history@, 8));
    s.append("\n## 指示\n");
    if allow_none {
        s.append(SELECTION_CHAIN);
    } else {
        s.append(SELECTION_FIRST);
    }
    s.append(SELECTION_TAIL);
    s
}

// ---------- fitting the history into the budget ----------

/// Budget cost of one utterance.
pub open spec fn utterance_cost(u: Utterance) -> int {
    (u.content@.len() + u.speaker_name@.len() + 4) as int
}

/// How many of the most recent utterances are kept, scanning from the newest
/// with `used` characters spent on `k` of them: an utterance that would exceed
/// the budget stops the scan unless nothing is kept yet; the newest is always
/// kept, and the scan also stops once the budget is exceeded.
pub open spec fn kept_count(h: Seq<Utterance>, budget: int, k: int, used: int) -> int
    decreases h.len() - k,
{
    if k >= h.len() {
        k
    } else {
        let cost = utterance_cost(h[h.len() - 1 - k]);
        if used + cost > budget && k > 0 {
            k
        } else if used + cost > budget {
            k + 1
        } else {
            kept_count(h, budget, k + 1, used + cost)
        }
    }
}

pub proof fn lemma_kept_count(h: Seq<Utterance>, budget: int, k: int, used: int)
    requires
        0 <= k <= h.len(),
    ensures
        k <= kept_count(h, budget, k, used) <= h.len(),
        k < h.len() ==> kept_count(h, budget, k, used) > k || k > 0,
    decreases h.len() - k,
{
    if k < h.len() {
        let cost = utterance_cost(h[h.len() - 1 - k]);
        if !(used + cost > budget) {
            lemma_kept_count(h, budget, k + 1, used + cost);
        }
    }
}

/// Budget cost of the utterances `k .. m` counted from the newest.
pub open spec fn newest_cost(h: Seq<Utterance>, k: int, m: int) -> int
    decreases m - k,
{
    if k >= m {
        0
    } else {
        utterance_cost(h[h.len() - 1 - k]) + newest_cost(h, k + 1, m)
    }
}

proof fn lemma_kept_within_budget(h: Seq<Utterance>, budget: int, k: int, used: int)
    requires
        0 <= k <= h.len(),
        0 <= used <= budget,
    ensures
        ({
            let kk = kept_count(h, budget, k, used);
            (k == 0 && kk == 1) || used + newest_cost(h, k, kk) <= budget
        }),
    decreases h.len() - k,
{
    if k < h.len() {
        let cost = utterance_cost(h[h.len() - 1 - k]);
        if !(used + cost > budget) {
            lemma_kept_within_budget(h, budget, k + 1, used + cost);
            lemma_kept_count(h, budget, k + 1, used + cost);
        }
    }
}

proof fn lemma_newest_cost_snoc(h: Seq<Utterance>, k: int, m: int)
    requires
        0 <= k <= m,
    ensures
        newest_cost(h, k, m + 1) == newest_cost(h, k, m) + utterance_cost(h[h.len() - 1 - m]),
    decreases m - k,
{
    if k < m {
        lemma_newest_cost_snoc(h, k + 1, m);
    } else {
        assert(newest_cost(h, k + 1, m + 1) == 0);
    }
}

proof fn lemma_kept_then_exceeds(h: Seq<Utterance>, budget: int, k: int, used: int)
    requires
        0 <= k <= h.len(),
        used == newest_cost(h, 0, k),
    ensures
        ({
            let kk = kept_count(h, budget, k, used);
            kk < h.len() ==> newest_cost(h, 0, kk + 1) > budget
        }),
    decreases h.len() - k,
{
    if k < h.len() {
        let cost = utterance_cost(h[h.len() - 1 - k]);
        lemma_newest_cost_snoc(h, 0, k);
        if used + cost > budget {
            if k == 0 && 1 < h.len() {
                lemma_newest_cost_snoc(h, 0, 1);
            }
        } else {
            lemma_kept_then_exceeds(h, budget, k + 1, used + cost);
        }
    }
}

/// The history fitted into a budget keeps at least the newest utterance; the
/// kept utterances fit the budget unless the newest alone exceeds it; and when
/// an older utterance is left out, keeping one more would exceed the budget.
pub proof fn law_history_fits_budget(h: Seq<Utterance>, budget: int)
    requires
        budget >= 0,
    ensures
        h.len() > 0 ==> kept_count(h, budget, 0, 0) >= 1,
        kept_count(h, budget, 0, 0) <= h.len(),
        kept_count(h, budget, 0, 0) <= 1 || newest_cost(h, 0, kept_count(h, budget, 0, 0))
            <= budget,
        kept_count(h, budget, 0, 0) < h.len() ==> newest_cost(
            h,
            0,
            kept_count(h, budget, 0, 0) + 1,
        ) > budget,
{
    lemma_kept_count(h, budget, 0, 0);
    lemma_kept_within_budget(h, budget, 0, 0);
    lemma_kept_then_exceeds(h, budget, 0, 0);
}

/// The chat message of one kept utterance: the persona's own lines as
/// "assistant", everyone else's as "user" prefixed with the speaker's name.
pub open spec fn message_for(u: Utterance, self_id: Seq<char>, m: ChatMessage) -> bool {
    if u.speaker_kind@ == "persona"@ && u.speaker_id@ == self_id {
        m.role@ == "assistant"@ && m.content@ == u.content@
    } else {
        m.role@ == "user"@ && m.content@ == u.speaker_name@ + ": "@ + u.content@
    }
}

/// Turns the history into chat messages within a character budget: the system
/// message first, then the most recent utterances that fit (at least the
/// newest one), oldest first.
pub fn assemble_messages(
    system: String,
    history: &[Utterance],
    self_persona_id: &str,
    budget_chars: usize,
) -> (r: Vec<ChatMessage>)
    ensures
        ({
            let k = kept_count(history@, budget_chars as int, 0, 0);
            let n = history@.len();
            &&& r@.len() == k + 1
            &&& r@[0].role@ == "system"@
            &&& r@[0].content@ == system@
            &&& forall|i: int|
                0 <= i < k ==> message_for(
                    history@[n - k + i],
                    self_persona_id@,
                    #[trigger] r@[i + 1],
                )
        }),
{
    let n = history.len();
    proof {
        lemma_kept_count(history@, budget_chars as int, 0, 0);
    }
    let mut k: usize = 0;
    let mut used: u128 = 0;
    while k < n
        invariant_except_break
            kept_count(history@, budget_chars as int, k as int, used as int) == kept_count(
                history@,
                budget_chars as int,
                0,
                0,
            ),
        invariant
            n == history.len(),
            k <= n,
            used <= budget_chars,
        ensures
            k as int == kept_count(history@, budget_chars as int, 0, 0),
            k <= n,
        decreases n - k,
    {
        let u = &history[n - 1 - k];
        let cost: u128 = u.content.unicode_len() as u128 + u.speaker_name.unicode_len() as u128 + 4;
        if used + cost > budget_chars as u128 {
            if k > 0 {
                break;
            }
            k = k + 1;
            break;
        }
        used = used + cost;
        k = k + 1;
    }
    let ghost kk = kept_count(history@, budget_chars as int, 0, 0);
    assert(k as int == kk);
    let mut messages: Vec<ChatMessage> = Vec::new();
    messages.push(ChatMessage::new("system", system));
    let mut i: usize = n - k;
    while i < n
        invariant
            n == history.len(),
            k as int == kk,
            kk <= n,
            n - k <= i <= n,
            messages@.len() == i - (n - k) + 1,
            messages@[0].role@ == "system"@,
            messages@[0].content@ == system@,
            forall|j: int|
                0 <= j < i - (n - k) ==> message_for(
                    history@[n - k + j],
                    self_persona_id@,
                    #[trigger] messages@[j + 1],
                ),
        decreases n - i,
    {
        let u = &history[i];
        if str_eq(u.speaker_kind.as_str(), "persona") && str_eq(
            u.speaker_id.as_str(),
            self_persona_id,
        ) {
            messages.push(ChatMessage::new("assistant", u.content.clone()));
        } else {
            let mut c = u.speaker_name.clone();
            c.append(": ");
            c.append(u.content.as_str());
            messages.push(ChatMessage::new("user", c));
        }
        i = i + 1;
    }
    messages
}

// ---------- the request of one reply ----------

/// The history budget of a reply: the configured context size, at least 1000
/// characters (and at most what `usize` holds).
pub open spec fn reply_budget(context_chars: int) -> int {
    let b = if context_chars < 1000 { 1000 } else { context_chars };
    if b > usize::MAX { usize::MAX as int } else { b }
}

/// The theme a reply's system prompt carries: the session's, in autonomous
/// sessions only.
pub open spec fn reply_theme(session: Session) -> Option<Seq<char>> {
    if session.kind@ == "autonomous"@ {
        Some(session.theme@)
    } else {
        None
    }
}

/// The elapsed-time line a reply's system prompt carries: none in autonomous
/// sessions, otherwise the time since the speaker last talked.
pub open spec fn reply_elapsed(session: Session, speaker: Persona, now: int, s: Settings) -> Option<
    Seq<char>,
> {
    if session.kind@ == "autonomous"@ {
        None
    } else {
        elapsed_label_spec(speaker.last_talked_at, now, s)
    }
}

/// The messages of one reply of `speaker` in `session`: the system prompt
/// (with the theme only in autonomous sessions, the time since the last talk
/// only in the others, and the mood phrase of the current mood), then the
/// newest history within the budget, then the opening hint, if any, as a user
/// message.
pub fn reply_messages(
    session: &Session,
    speaker: &Persona,
    traits: &[TraitValue],
    partners: &[PartnerInfo],
    memories: &[Memory],
    mood_value: i64,
    mood_label: &str,
    history: &[Utterance],
    settings: &Settings,
    now_ms: i64,
    opening_hint: Option<&str>,
) -> (r: Vec<ChatMessage>)
    requires
        mood_value != i64::MIN,
        session.kind@ != "autonomous"@ ==> (speaker.last_talked_at matches Some(l) ==> i64::MIN
            <= now_ms - l <= i64::MAX),
    ensures
        ({
            let k = kept_count(history@, reply_budget(settings.context_chars as int), 0, 0);
            let n = history@.len();
            &&& r@.len() == k + 1 + (if opening_hint is Some { 1int } else { 0int })
            &&& r@[0].role@ == "system"@
            &&& exists|dates: Seq<String>|
                dates.len() == memories@.len() && (forall|i: int|
                    0 <= i < dates.len() ==> local_date_shape(
                        #[trigger] dates[i]@,
                        memories@[i].created_at as int,
                    ))
                    && r@[0].content@ == system_text(
                    *speaker,
                    traits@,
                    partners@,
                    memories@,
                    dates,
                    reply_theme(*session),
                    mood_phrase_spec(mood_value as int, mood_label@),
                    reply_elapsed(*session, *speaker, now_ms as int, *settings),
                )
            &&& forall|i: int|
                0 <= i < k ==> message_for(history@[n - k + i], speaker.id@, #[trigger] r@[i + 1])
            &&& opening_hint matches Some(h) ==> r@[k + 1].role@ == "user"@ && r@[k + 1].content@
                == h@
        }),
{
    proof {
        reveal_strlit("autonomous");
    }
    let autonomous = str_eq(session.kind.as_str(), "autonomous");
    let theme: Option<&str> = if autonomous {
        Some(session.theme.as_str())
    } else {
        None
    };
    let elapsed = if autonomous {
        None
    } else {
        elapsed_label(speaker.last_talked_at, now_ms, settings)
    };
    let mood = mood_phrase(mood_value, mood_label);
    let elapsed_ref: Option<&str> = match &elapsed {
        Some(t) => Some(t.as_str()),
        None => None,
    };
    let mood_ref: Option<&str> = match &mood {
        Some(t) => Some(t.as_str()),
        None => None,
    };
    assert(opt_view(theme) == reply_theme(*session));
    assert(opt_view(elapsed_ref) == reply_elapsed(*session, *speaker, now_ms as int, *settings));
    assert(opt_view(mood_ref) == mood_phrase_spec(mood_value as int, mood_label@));
    let system = build_system(speaker, traits, partners, memories, theme, mood_ref, elapsed_ref);
    let wide: i64 = if settings.context_chars < 1000 {
        1000
    } else {
        settings.context_chars
    };
    let budget: usize = if (wide as u64) > (usize::MAX as u64) {
        usize::MAX
    } else {
        wide as usize
    };
    assert(budget as int == reply_budget(settings.context_chars as int));
    let mut messages = assemble_messages(system, history, speaker.id.as_str(), budget);
    let ghost before = messages@;
    proof {
        lemma_kept_count(history@, budget as int, 0, 0);
    }
    match opening_hint {
        Some(h) => {
            messages.push(ChatMessage::new("user", owned(h)));
            assert(messages@ == before.push(messages@.last()));
            assert(messages@[0] == before[0]);
        },
        None => {},
    }
    messages
}


/// The place of a degree word on the scale from very low (0) to very high (4).
pub open spec fn degree_rank(w: Seq<char>) -> int {
    if w == "とても低い"@ {
        0
    } else if w == "低め"@ {
        1
    } else if w == "ふつう"@ {
        2
    } else if w == "高め"@ {
        3
    } else {
        4
    }
}

proof fn lemma_degree_words()
    ensures
        degree_rank("とても低い"@) == 0,
        degree_rank("低め"@) == 1,
        degree_rank("ふつう"@) == 2,
        degree_rank("高め"@) == 3,
        degree_rank("とても高い"@) == 4,
{
    reveal_strlit("とても低い");
    reveal_strlit("低め");
    reveal_strlit("ふつう");
    reveal_strlit("高め");
    reveal_strlit("とても高い");
    assert("低め"@.len() != "とても低い"@.len());
    assert("ふつう"@.len() != "とても低い"@.len() && "ふつう"@.len() != "低め"@.len());
    assert("高め"@.len() != "とても低い"@.len() && "高め"@[0] != "低め"@[0]);
    assert("高め"@.len() != "ふつう"@.len());
    assert("とても高い"@[3] != "とても低い"@[3]);
    assert("とても高い"@.len() != "低め"@.len() && "とても高い"@.len() != "ふつう"@.len());
    assert("とても高い"@.len() != "高め"@.len());
}

/// A trait's degree word follows its value: a value up to 19 reads as very
/// low and one from 80 as very high, and of two values from 0 up the smaller
/// never reads higher than the larger.
pub proof fn law_trait_degree_monotone(v1: int, v2: int)
    ensures
        0 <= v1 <= 19 ==> trait_degree(v1) == "とても低い"@,
        v1 >= 80 ==> trait_degree(v1) == "とても高い"@,
        0 <= v1 <= v2 ==> degree_rank(trait_degree(v1)) <= degree_rank(trait_degree(v2)),
{
    lemma_degree_words();
}

/// A trait line names the axis, then its degree word, then the value out of
/// 100: `label: degree(value/100)`.
pub proof fn law_trait_phrase_degree(key: Seq<char>, v: int)
    ensures
        0 <= v <= 19 ==> seq_contains(trait_phrase_spec(key, v), ": とても低い("@),
        v >= 80 ==> seq_contains(trait_phrase_spec(key, v), ": とても高い("@),
{
    reveal_strlit(": とても低い(");
    reveal_strlit(": とても高い(");
    reveal_strlit(": ");
    reveal_strlit("とても低い");
    reveal_strlit("とても高い");
    reveal_strlit("(");
    let l = trait_label_spec(key);
    let rest = int_text(v) + "/100)"@;
    let d = trait_degree(v);
    let mid = ": "@ + d + "("@;
    assert(trait_phrase_spec(key, v) =~= l + mid + rest);
    lemma_contains_start(mid, rest);
    lemma_contains_prepend(l, mid + rest, mid);
    assert(l + (mid + rest) =~= l + mid + rest);
    if 0 <= v <= 19 {
        assert(mid =~= ": とても低い("@);
    }
    if v >= 80 {
        assert(mid =~= ": とても高い("@);
    }
}

/// A mood outside the neutral band reads as bright when it is positive and as
/// low when it is negative: the phrase ends with `(前向きな気分)` or
/// `(沈んだ気分)`. A mood inside the band gives no phrase.
pub proof fn law_mood_direction(value: int, label: Seq<char>)
    ensures
        value >= MOOD_NEUTRAL_BAND ==> (mood_phrase_spec(value, label) matches Some(t) && ends_with(
            t,
            "(前向きな気分)"@,
        )),
        value <= -MOOD_NEUTRAL_BAND ==> (mood_phrase_spec(value, label) matches Some(t) && ends_with(
            t,
            "(沈んだ気分)"@,
        )),
        -MOOD_NEUTRAL_BAND < value < MOOD_NEUTRAL_BAND ==> mood_phrase_spec(value, label) is None,
        (value >= 70 || value <= -70) ==> (mood_phrase_spec(value, label) matches Some(t)
            && starts_with(t, "今はとても"@)),
        (MOOD_NEUTRAL_BAND <= value <= 39 || -39 <= value <= -MOOD_NEUTRAL_BAND) ==> (
        mood_phrase_spec(value, label) matches Some(t) && starts_with(t, "今は少し"@)),
{
    reveal_strlit("今はとても");
    reveal_strlit("今は少し");
    reveal_strlit("今は");
    reveal_strlit("とても");
    reveal_strlit("少し");
    reveal_strlit("(前向きな気分)");
    reveal_strlit("(沈んだ気分)");
    reveal_strlit("前向きな気分");
    reveal_strlit("沈んだ気分");
    reveal_strlit("(");
    reveal_strlit(")");
    if value >= MOOD_NEUTRAL_BAND || value <= -MOOD_NEUTRAL_BAND {
        let t = mood_phrase_spec(value, label)->0;
        let dir = if value < 0 {
            "沈んだ気分"@
        } else {
            "前向きな気分"@
        };
        let a = if value < 0 {
            -value
        } else {
            value
        };
        let degree = if a <= 39 {
            "少し"@
        } else if a <= 69 {
            ""@
        } else {
            "とても"@
        };
        let l = if label.len() == 0 {
            dir
        } else {
            label
        };
        let tail = "("@ + dir + ")"@;
        assert(t =~= ("今は"@ + degree + l) + tail);
        assert(t =~= ("今は"@ + degree) + (l + tail));
        assert(t.subrange(0, ("今は"@ + degree).len() as int) =~= "今は"@ + degree);
        if a >= 70 {
            assert("今は"@ + degree =~= "今はとても"@);
        }
        if a <= 39 {
            assert("今は"@ + degree =~= "今は少し"@);
        }
        assert(t.subrange(t.len() - tail.len(), t.len() as int) =~= tail);
        if value > 0 {
            assert(tail =~= "(前向きな気分)"@);
        } else {
            assert(tail =~= "(沈んだ気分)"@);
        }
    }
}

} // verus!
