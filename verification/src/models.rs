//! Records of the domain: personas, sessions, utterances, memories and the
//! personality history, plus the application settings.

use chrono::TimeZone;
use vstd::prelude::*;

verus! {

#[derive(Debug, Clone)]
pub struct Persona {
    pub id: String,
    pub name: String,
    pub description: String,
    pub speech_style: String,
    pub values_text: String,
    pub self_intro: String,
    pub created_at: i64,
    pub last_talked_at: Option<i64>,
}

#[derive(Debug, Clone)]
pub struct TraitValue {
    pub key: String,
    pub value: i64,
}

#[derive(Debug, Clone)]
pub struct Relationship {
    pub persona_id: String,
    /// "user" | "persona"
    pub target_kind: String,
    pub target_id: String,
    pub target_name: String,
    pub intimacy: i64,
    pub impression_text: String,
    pub updated_at: i64,
}

#[derive(Debug, Clone)]
pub struct PersonaDetail {
    pub persona: Persona,
    pub traits: Vec<TraitValue>,
    pub relationships: Vec<Relationship>,
}

#[derive(Debug, Clone)]
pub struct Session {
    pub id: String,
    /// "user_dialogue" | "autonomous" | "group"
    pub kind: String,
    pub theme: String,
    /// "active" | "ended" | "processed"
    pub status: String,
    pub started_at: i64,
    pub ended_at: Option<i64>,
    pub participant_ids: Vec<String>,
    pub participant_names: Vec<String>,
}

#[derive(Debug, Clone)]
pub struct Utterance {
    pub id: String,
    pub session_id: String,
    /// "user" | "persona" | "system"
    pub speaker_kind: String,
    pub speaker_id: String,
    pub speaker_name: String,
    pub content: String,
    /// "complete" | "canceled"
    pub state: String,
    pub created_at: i64,
}

#[derive(Debug, Clone)]
pub struct Memory {
    pub id: String,
    pub persona_id: String,
    pub content: String,
    /// fact | event | promise | impression
    pub kind: String,
    pub importance: i64,
    pub has_embedding: bool,
    pub source_session_id: Option<String>,
    pub created_at: i64,
    pub archived: bool,
    pub user_edited: bool,
}

#[derive(Debug, Clone)]
pub struct PersonalityEvent {
    pub id: String,
    pub persona_id: String,
    pub session_id: Option<String>,
    pub item: String,
    pub old_value: String,
    pub new_value: String,
    pub created_at: i64,
}

/// One change of mood, appended to the mood history.
#[derive(Debug, Clone)]
pub struct MoodEvent {
    pub id: String,
    pub persona_id: String,
    pub session_id: Option<String>,
    pub old_value: i64,
    pub new_value: i64,
    pub label: String,
    pub created_at: i64,
}

/// The current (decayed) mood and its most recent cause.
#[derive(Debug, Clone)]
pub struct MoodState {
    pub value: i64,
    pub label: String,
    pub rated_at: Option<i64>,
    pub recent_event: Option<MoodEvent>,
}

/// A diary entry; unique per (persona, date).
#[derive(Debug, Clone)]
pub struct Diary {
    pub id: String,
    pub persona_id: String,
    /// "YYYY-MM-DD", the local start date of the sessions it covers.
    pub date: String,
    pub content: String,
    pub updated_at: i64,
}

#[derive(Debug, Clone)]
pub struct SeriesPoint {
    pub t: i64,
    pub value: i64,
}

#[derive(Debug, Clone)]
pub struct Series {
    pub key: String,
    pub points: Vec<SeriesPoint>,
}

#[derive(Debug, Clone)]
pub struct GraphNode {
    pub id: String,
    pub name: String,
    /// "user" | "persona"
    pub kind: String,
}

/// `from` holds an intimacy towards `to`.
#[derive(Debug, Clone)]
pub struct GraphEdge {
    pub from: String,
    pub to: String,
    pub intimacy: i64,
}

#[derive(Debug, Clone)]
pub struct RelationshipGraph {
    pub nodes: Vec<GraphNode>,
    pub edges: Vec<GraphEdge>,
}

/// Integer, flag and text settings of the application. The real-valued
/// recall weights and similarity thresholds are kept by the application shell,
/// which alone computes with them.
#[derive(Debug, Clone)]
pub struct Settings {
    pub endpoint: String,
    pub chat_model: String,
    pub embed_model: String,
    pub auto_turn_limit: i64,
    pub input_max_chars: i64,
    pub recall_k: i64,
    pub trait_delta_cap: i64,
    pub intimacy_delta_cap: i64,
    pub memory_cap: i64,
    pub context_chars: i64,
    /// Greetings enabled.
    pub greeting_enabled: bool,
    /// Minimum minutes between two greetings of one persona.
    pub greeting_interval_min: i64,
    pub elapsed_short_hours: i64,
    pub elapsed_mid_hours: i64,
    pub elapsed_long_days: i64,
    pub consolidate_min_cluster: i64,
    pub mood_halflife_hours: i64,
    /// Largest mood change of one session.
    pub mood_delta_cap: i64,
    /// Largest number of chained replies in a group chat.
    pub chain_limit: i64,
    pub group_max: i64,
    pub stagnation_streak: i64,
    /// Largest number of topic shifts in one autonomous session.
    pub topic_shift_limit: i64,
}

/// Upper bound of the configurable turn limit of autonomous talks.
pub const AUTO_TURN_HARD_MAX: i64 = 50;

/// Most personas in one autonomous talk.
pub const MAX_AUTONOMOUS_PARTICIPANTS: usize = 6;

/// Most personas in one group chat.
pub const MAX_GROUP_PARTICIPANTS: usize = 6;

/// Range of the mood value and the band around zero that counts as neutral.
pub const MOOD_MIN: i64 = -100;

pub const MOOD_MAX: i64 = 100;

pub const MOOD_NEUTRAL_BAND: i64 = 10;

impl Default for Settings {
    fn default() -> (r: Settings)
        ensures
            r.endpoint@ == "http://127.0.0.1:11434"@,
            r.chat_model@.len() == 0,
            r.embed_model@.len() == 0,
            r.auto_turn_limit == 12,
            r.input_max_chars == 4000,
            r.recall_k == 8,
            r.trait_delta_cap == 2,
            r.intimacy_delta_cap == 5,
            r.memory_cap == 10000,
            r.context_chars == 8000,
            r.greeting_enabled,
            r.greeting_interval_min == 60,
            r.elapsed_short_hours == 6,
            r.elapsed_mid_hours == 48,
            r.elapsed_long_days == 14,
            r.consolidate_min_cluster == 5,
            r.mood_halflife_hours == 24,
            r.mood_delta_cap == 50,
            r.chain_limit == 2,
            r.group_max == 6,
            r.stagnation_streak == 2,
            r.topic_shift_limit == 2,
    {
        Settings {
            endpoint: String::from_str("http://127.0.0.1:11434"),
            chat_model: String::new(),
            embed_model: String::new(),
            auto_turn_limit: 12,
            input_max_chars: 4000,
            recall_k: 8,
            trait_delta_cap: 2,
            intimacy_delta_cap: 5,
            memory_cap: 10000,
            context_chars: 8000,
            greeting_enabled: true,
            greeting_interval_min: 60,
            elapsed_short_hours: 6,
            elapsed_mid_hours: 48,
            elapsed_long_days: 14,
            consolidate_min_cluster: 5,
            mood_halflife_hours: 24,
            mood_delta_cap: 50,
            chain_limit: 2,
            group_max: 6,
            stagnation_streak: 2,
            topic_shift_limit: 2,
        }
    }
}

/// An ASCII decimal digit.
pub open spec fn is_digit(c: char) -> bool {
    48 <= (c as int) && (c as int) <= 57
}

/// A calendar date as chrono writes it with `%Y-%m-%d`: the year in at least
/// four digits (with a leading `+` or `-` outside the years 0 to 9999), `-`,
/// the month in two digits, `-`, the day in two digits.
pub open spec fn date_text(s: Seq<char>) -> bool {
    let n = s.len() as int;
    &&& n >= 10
    &&& s[n - 3] == '-' && s[n - 6] == '-'
    &&& is_digit(s[n - 1]) && is_digit(s[n - 2]) && is_digit(s[n - 4]) && is_digit(s[n - 5])
    &&& (is_digit(s[0]) || s[0] == '+' || s[0] == '-')
    &&& forall|i: int| 1 <= i < n - 6 ==> is_digit(#[trigger] s[i])
}

/// A date as `local_date_of` gives it: a date text, or the empty string.
pub open spec fn date_or_empty(s: Seq<char>) -> bool {
    s.len() == 0 || date_text(s)
}

/// Timestamps from 1970-01-01 up to the end of 9999-12-31 UTC, for all of
/// which chrono gives a local date.
pub open spec fn in_date_range(ts_ms: int) -> bool {
    0 <= ts_ms <= 253_402_300_799_999
}

/// What `local_date_of` gives for `ts_ms`: a date text or the empty string,
/// and a date text for every timestamp in the date range.
pub open spec fn local_date_shape(s: Seq<char>, ts_ms: int) -> bool {
    &&& date_or_empty(s)
    &&& in_date_range(ts_ms) ==> date_text(s)
}

/// Local calendar date of a millisecond timestamp: chrono's
/// `Local.timestamp_millis_opt(..).single()` formatted with `%Y-%m-%d`, or the
/// empty string where chrono gives no single local time. chrono gives a single
/// local time for every timestamp it can represent, which includes the date
/// range. Trusted to be of the shape chrono's formatting writes; which date it
/// is depends on the machine's time zone and is not stated.
#[verifier::external_body]
pub fn local_date_of(ts_ms: i64) -> (r: String)
    ensures
        local_date_shape(r@, ts_ms as int),
{
    match chrono::Local.timestamp_millis_opt(ts_ms).single() {
        Some(dt) => dt.format("%Y-%m-%d").to_string(),
        None => String::new(),
    }
}

/// Current wall-clock time in milliseconds since the epoch (chrono's
/// `Utc::now().timestamp_millis()`); nothing is stated of its value.
#[verifier::external_body]
pub fn now_ms() -> i64 {
    chrono::Utc::now().timestamp_millis()
}

/// A fresh random identifier: uuid's `Uuid::new_v4()` in its hyphenated text
/// form, which is 36 characters long; its value is random.
#[verifier::external_body]
pub fn new_id() -> (r: String)
    ensures
        r@.len() == 36,
{
    uuid::Uuid::new_v4().to_string()
}

} // verus!
