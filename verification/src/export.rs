//! Export and import of a persona: the file's records, what an export
//! holds, the checks on a file to import and what importing it creates.

use vstd::prelude::*;

use crate::commands::{
    clamp_field, clamp_field_spec, duplicate_error, duplicate_message, initial_traits,
    initial_traits_ok, sanitize,
};
use crate::error::{fails_with, message_spec, AppError, AppResult};
use crate::json::{as_i64_spec, as_str_spec, decode_json, get_spec, json_decode, JsonValue};
use crate::models::{
    new_id, now_ms, Memory, Persona, PersonalityEvent, Relationship, Session, TraitValue, Utterance,
};
use crate::text::{
    chars_of, clamp_i64, clamp_spec, int_text, keeps_char, lemma_sanitize_clean, push_int,
    sanitize_seq, str_eq, trim_seq, trim_vec,
};
use crate::personality::{trait_key_spec, trait_old, trait_value_in};
use crate::worker::{kind_or_fact, normalize_kind};

verus! {

/// The format tag of an export file.
pub const EXPORT_FORMAT: &'static str = "personacle-persona";

/// The newest format version this library reads and the one it writes.
pub const EXPORT_FORMAT_VERSION: i64 = 1;

#[derive(Debug, Clone)]
pub struct ExportFile {
    pub format: String,
    pub format_version: i64,
    /// The database schema version of the exporting application.
    pub app_schema_version: i64,
    pub exported_at: i64,
    pub persona: ExportPersona,
    pub traits: Vec<TraitValue>,
    pub relationships: Vec<ExportRelationship>,
    pub memories: Vec<ExportMemory>,
    pub personality_events: Vec<ExportEvent>,
    pub sessions: Vec<ExportSession>,
}

#[derive(Debug, Clone)]
pub struct ExportPersona {
    /// The id in the exporting installation; only used to relink references.
    pub id: String,
    pub name: String,
    pub description: String,
    pub speech_style: String,
    pub values_text: String,
    pub self_intro: String,
    pub created_at: i64,
}

#[derive(Debug, Clone)]
pub struct ExportRelationship {
    pub target_kind: String,
    pub target_id: String,
    pub target_name: String,
    pub intimacy: i64,
    pub impression_text: String,
    pub updated_at: i64,
}

#[derive(Debug, Clone)]
pub struct ExportMemory {
    pub content: String,
    pub kind: String,
    pub importance: i64,
    pub created_at: i64,
    pub archived: bool,
    pub user_edited: bool,
    pub source_session_id: Option<String>,
}

#[derive(Debug, Clone)]
pub struct ExportEvent {
    pub session_id: Option<String>,
    pub item: String,
    pub old_value: String,
    pub new_value: String,
    pub created_at: i64,
}

#[derive(Debug, Clone)]
pub struct ExportSession {
    pub id: String,
    pub kind: String,
    pub theme: String,
    pub started_at: i64,
    pub ended_at: Option<i64>,
    pub participants: Vec<ExportParticipant>,
    pub utterances: Vec<ExportUtterance>,
}

#[derive(Debug, Clone)]
pub struct ExportParticipant {
    pub persona_id: String,
    pub persona_name: String,
}

#[derive(Debug, Clone)]
pub struct ExportUtterance {
    pub speaker_kind: String,
    pub speaker_id: String,
    pub speaker_name: String,
    pub content: String,
    pub state: String,
    pub created_at: i64,
}

/// How much an export wrote.
#[derive(Debug, Clone)]
pub struct ExportSummary {
    pub memory_count: usize,
    pub session_count: usize,
}

/// One session of the history as stored: the session, its participants
/// (id, name, processed) and its utterances.
#[derive(Debug, Clone)]
pub struct SessionRecord {
    pub session: Session,
    pub participants: Vec<(String, String, bool)>,
    pub utterances: Vec<Utterance>,
}

// ---------- export ----------

/// The export record of a relationship.
pub open spec fn relationship_record(r: Relationship) -> ExportRelationship {
    ExportRelationship {
        target_kind: r.target_kind,
        target_id: r.target_id,
        target_name: r.target_name,
        intimacy: r.intimacy,
        impression_text: r.impression_text,
        updated_at: r.updated_at,
    }
}

/// The export record of a memory.
pub open spec fn memory_record(m: Memory) -> ExportMemory {
    ExportMemory {
        content: m.content,
        kind: m.kind,
        importance: m.importance,
        created_at: m.created_at,
        archived: m.archived,
        user_edited: m.user_edited,
        source_session_id: m.source_session_id,
    }
}

/// The export record of a personality change.
pub open spec fn event_record(e: PersonalityEvent) -> ExportEvent {
    ExportEvent {
        session_id: e.session_id,
        item: e.item,
        old_value: e.old_value,
        new_value: e.new_value,
        created_at: e.created_at,
    }
}

/// The export record of an utterance.
pub open spec fn utterance_record(u: Utterance) -> ExportUtterance {
    ExportUtterance {
        speaker_kind: u.speaker_kind,
        speaker_id: u.speaker_id,
        speaker_name: u.speaker_name,
        content: u.content,
        state: u.state,
        created_at: u.created_at,
    }
}

/// The export record of a participant.
pub open spec fn participant_record(p: (String, String, bool)) -> ExportParticipant {
    ExportParticipant { persona_id: p.0, persona_name: p.1 }
}

/// The export record of a session of the history.
pub open spec fn session_record_matches(s: SessionRecord, e: ExportSession) -> bool {
    &&& e.id == s.session.id
    &&& e.kind == s.session.kind
    &&& e.theme == s.session.theme
    &&& e.started_at == s.session.started_at
    &&& e.ended_at == s.session.ended_at
    &&& e.participants@ == s.participants@.map_values(|p: (String, String, bool)| participant_record(p))
    &&& e.utterances@ == s.utterances@.map_values(|u: Utterance| utterance_record(u))
}

/// The export record of the persona.
pub open spec fn persona_record(p: Persona) -> ExportPersona {
    ExportPersona {
        id: p.id,
        name: p.name,
        description: p.description,
        speech_style: p.speech_style,
        values_text: p.values_text,
        self_intro: p.self_intro,
        created_at: p.created_at,
    }
}

fn relationship_records(rs: &[Relationship]) -> (r: Vec<ExportRelationship>)
    ensures
        r@ == rs@.map_values(|x: Relationship| relationship_record(x)),
{
    let mut out: Vec<ExportRelationship> = Vec::new();
    let mut i: usize = 0;
    while i < rs.len()
        invariant
            i <= rs.len(),
            out@ == rs@.take(i as int).map_values(|x: Relationship| relationship_record(x)),
        decreases rs.len() - i,
    {
        let r = &rs[i];
        out.push(
            ExportRelationship {
                target_kind: r.target_kind.clone(),
                target_id: r.target_id.clone(),
                target_name: r.target_name.clone(),
                intimacy: r.intimacy,
                impression_text: r.impression_text.clone(),
                updated_at: r.updated_at,
            },
        );
        assert(rs@.take(i + 1).map_values(|x: Relationship| relationship_record(x)) == rs@.take(
            i as int,
        ).map_values(|x: Relationship| relationship_record(x)).push(relationship_record(rs@[i as int])));
        i = i + 1;
    }
    assert(rs@.take(rs.len() as int) == rs@);
    out
}

fn memory_records(ms: &[Memory]) -> (r: Vec<ExportMemory>)
    ensures
        r@ == ms@.map_values(|x: Memory| memory_record(x)),
{
    let mut out: Vec<ExportMemory> = Vec::new();
    let mut i: usize = 0;
    while i < ms.len()
        invariant
            i <= ms.len(),
            out@ == ms@.take(i as int).map_values(|x: Memory| memory_record(x)),
        decreases ms.len() - i,
    {
        let m = &ms[i];
        let src = match &m.source_session_id {
            Some(s) => Some(s.clone()),
            None => None,
        };
        out.push(
            ExportMemory {
                content: m.content.clone(),
                kind: m.kind.clone(),
                importance: m.importance,
                created_at: m.created_at,
                archived: m.archived,
                user_edited: m.user_edited,
                source_session_id: src,
            },
        );
        assert(ms@.take(i + 1).map_values(|x: Memory| memory_record(x)) == ms@.take(
            i as int,
        ).map_values(|x: Memory| memory_record(x)).push(memory_record(ms@[i as int])));
        i = i + 1;
    }
    assert(ms@.take(ms.len() as int) == ms@);
    out
}

fn event_records(es: &[PersonalityEvent]) -> (r: Vec<ExportEvent>)
    ensures
        r@ == es@.map_values(|x: PersonalityEvent| event_record(x)),
{
    let mut out: Vec<ExportEvent> = Vec::new();
    let mut i: usize = 0;
    while i < es.len()
        invariant
            i <= es.len(),
            out@ == es@.take(i as int).map_values(|x: PersonalityEvent| event_record(x)),
        decreases es.len() - i,
    {
        let e = &es[i];
        let sid = match &e.session_id {
            Some(s) => Some(s.clone()),
            None => None,
        };
        out.push(
            ExportEvent {
                session_id: sid,
                item: e.item.clone(),
                old_value: e.old_value.clone(),
                new_value: e.new_value.clone(),
                created_at: e.created_at,
            },
        );
        assert(es@.take(i + 1).map_values(|x: PersonalityEvent| event_record(x)) == es@.take(
            i as int,
        ).map_values(|x: PersonalityEvent| event_record(x)).push(event_record(es@[i as int])));
        i = i + 1;
    }
    assert(es@.take(es.len() as int) == es@);
    out
}

fn session_export(s: &SessionRecord) -> (r: ExportSession)
    ensures
        session_record_matches(*s, r),
{
    let mut participants: Vec<ExportParticipant> = Vec::new();
    let mut i: usize = 0;
    while i < s.participants.len()
        invariant
            i <= s.participants.len(),
            participants@ == s.participants@.take(i as int).map_values(
                |p: (String, String, bool)| participant_record(p),
            ),
        decreases s.participants.len() - i,
    {
        participants.push(
            ExportParticipant {
                persona_id: s.participants[i].0.clone(),
                persona_name: s.participants[i].1.clone(),
            },
        );
        assert(s.participants@.take(i + 1).map_values(
            |p: (String, String, bool)| participant_record(p),
        ) == s.participants@.take(i as int).map_values(
            |p: (String, String, bool)| participant_record(p),
        ).push(participant_record(s.participants@[i as int])));
        i = i + 1;
    }
    assert(s.participants@.take(s.participants.len() as int) == s.participants@);
    let mut utterances: Vec<ExportUtterance> = Vec::new();
    let mut j: usize = 0;
    while j < s.utterances.len()
        invariant
            j <= s.utterances.len(),
            utterances@ == s.utterances@.take(j as int).map_values(
                |u: Utterance| utterance_record(u),
            ),
        decreases s.utterances.len() - j,
    {
        let u = &s.utterances[j];
        utterances.push(
            ExportUtterance {
                speaker_kind: u.speaker_kind.clone(),
                speaker_id: u.speaker_id.clone(),
                speaker_name: u.speaker_name.clone(),
                content: u.content.clone(),
                state: u.state.clone(),
                created_at: u.created_at,
            },
        );
        assert(s.utterances@.take(j + 1).map_values(|u: Utterance| utterance_record(u))
            == s.utterances@.take(j as int).map_values(|u: Utterance| utterance_record(u)).push(
            utterance_record(s.utterances@[j as int]),
        ));
        j = j + 1;
    }
    assert(s.utterances@.take(s.utterances.len() as int) == s.utterances@);
    ExportSession {
        id: s.session.id.clone(),
        kind: s.session.kind.clone(),
        theme: s.session.theme.clone(),
        started_at: s.session.started_at,
        ended_at: s.session.ended_at,
        participants,
        utterances,
    }
}

/// The export of a persona: its record, traits, relationships, memories
/// (archived ones included, as given) and personality changes, and, when
/// `include_history` is set, its sessions with participants and utterances.
/// A missing persona is `NotFound`.
pub fn build_export(
    persona: Option<Persona>,
    traits: Vec<TraitValue>,
    relationships: &[Relationship],
    memories: &[Memory],
    events: &[PersonalityEvent],
    history: &[SessionRecord],
    include_history: bool,
    schema_version: i64,
) -> (r: AppResult<ExportFile>)
    ensures
        persona is None ==> fails_with(r, "not_found"@, "ペルソナが見つかりません"@),
        persona matches Some(p) ==> r matches Ok(f) && {
            &&& f.format@ == EXPORT_FORMAT@
            &&& f.format_version == EXPORT_FORMAT_VERSION
            &&& f.app_schema_version == schema_version
            &&& f.persona == persona_record(p)
            &&& f.traits == traits
            &&& f.relationships@ == relationships@.map_values(
                |x: Relationship| relationship_record(x),
            )
            &&& f.memories@ == memories@.map_values(|x: Memory| memory_record(x))
            &&& f.personality_events@ == events@.map_values(
                |x: PersonalityEvent| event_record(x),
            )
            &&& if include_history {
                &&& f.sessions@.len() == history@.len()
                &&& forall|i: int|
                    0 <= i < history@.len() ==> session_record_matches(
                        #[trigger] history@[i],
                        f.sessions@[i],
                    )
            } else {
                f.sessions@.len() == 0
            }
        },
{
    let p = match persona {
        Some(p) => p,
        None => {
            return Err(AppError::NotFound(String::from_str("ペルソナが見つかりません")));
        },
    };
    let mut sessions: Vec<ExportSession> = Vec::new();
    if include_history {
        let mut i: usize = 0;
        while i < history.len()
            invariant
                i <= history.len(),
                sessions@.len() == i,
                forall|j: int|
                    0 <= j < i ==> session_record_matches(#[trigger] history@[j], sessions@[j]),
            decreases history.len() - i,
        {
            sessions.push(session_export(&history[i]));
            i = i + 1;
        }
    }
    Ok(
        ExportFile {
            format: String::from_str(EXPORT_FORMAT),
            format_version: EXPORT_FORMAT_VERSION,
            app_schema_version: schema_version,
            exported_at: now_ms(),
            persona: ExportPersona {
                id: p.id,
                name: p.name,
                description: p.description,
                speech_style: p.speech_style,
                values_text: p.values_text,
                self_intro: p.self_intro,
                created_at: p.created_at,
            },
            traits,
            relationships: relationship_records(relationships),
            memories: memory_records(memories),
            personality_events: event_records(events),
            sessions,
        },
    )
}

/// What an export file holds, as counted after writing it.
pub fn export_summary(file: &ExportFile) -> (r: ExportSummary)
    ensures
        r.memory_count == file.memories@.len(),
        r.session_count == file.sessions@.len(),
{
    ExportSummary { memory_count: file.memories.len(), session_count: file.sessions.len() }
}

// ---------- checks on a file to import ----------

/// The format version a file declares (0 when missing).
pub open spec fn declared_version(v: JsonValue) -> int {
    match as_i64_spec(get_spec(v, "formatVersion"@)) {
        Some(n) => n as int,
        None => 0,
    }
}

/// Checks the format tag and the version of a file before reading it: the
/// tag must be `EXPORT_FORMAT` and the version between 1 and
/// `EXPORT_FORMAT_VERSION`.
pub fn validate_export_value(v: &JsonValue) -> (r: AppResult<()>)
    ensures
        as_str_spec(get_spec(*v, "format"@)) != Some(EXPORT_FORMAT@) ==> fails_with(
            r,
            "validation"@,
            "Personacle のペルソナファイルではありません"@,
        ),
        as_str_spec(get_spec(*v, "format"@)) == Some(EXPORT_FORMAT@) && !(1 <= declared_version(*v)
            <= EXPORT_FORMAT_VERSION) ==> fails_with(
            r,
            "validation"@,
            "このファイルの形式バージョン ("@ + int_text(declared_version(*v))
                + ") には対応していません。アプリを更新してください"@,
        ),
        as_str_spec(get_spec(*v, "format"@)) == Some(EXPORT_FORMAT@) && 1 <= declared_version(*v)
            <= EXPORT_FORMAT_VERSION ==> r is Ok,
{
    let is_ours = match v.get("format").as_str() {
        Some(f) => str_eq(f, EXPORT_FORMAT),
        None => false,
    };
    if !is_ours {
        return Err(
            AppError::Validation(String::from_str("Personacle のペルソナファイルではありません")),
        );
    }
    let version = match v.get("formatVersion").as_i64() {
        Some(n) => n,
        None => 0,
    };
    if version < 1 || version > EXPORT_FORMAT_VERSION {
        let mut m = String::from_str("このファイルの形式バージョン (");
        push_int(&mut m, version);
        m.append(") には対応していません。アプリを更新してください");
        return Err(AppError::Validation(m));
    }
    Ok(())
}

/// Decodes the text of a file to import; text that is not JSON is refused.
pub fn decode_export_text(text: &str) -> (r: AppResult<JsonValue>)
    ensures
        match json_decode(text@) {
            Some(v) => r == Ok::<JsonValue, AppError>(v),
            None => fails_with(r, "validation"@, "JSONファイルとして読み込めません"@),
        },
{
    match decode_json(text) {
        Some(v) => Ok(v),
        None => Err(AppError::Validation(String::from_str("JSONファイルとして読み込めません"))),
    }
}

/// The refusal of a file whose records could not be read; `detail` says why.
pub fn import_decode_error(detail: &str) -> (r: AppError)
    ensures
        r is Validation,
        message_spec(r) == "インポートファイルの内容が不正です: "@ + detail@,
{
    let mut m = String::from_str("インポートファイルの内容が不正です: ");
    m.append(detail);
    AppError::Validation(m)
}

/// Characters of `s` after removing control characters, cut to `max`.
pub fn clamp_chars(s: &str, max: usize) -> (r: String)
    ensures
        r@ == clamp_field_spec(s@, max as int),
{
    clamp_field(s, max)
}

// ---------- import ----------

/// A session of an imported history: the session (recorded as processed, so
/// that it is not post-processed again), the personas to mark processed in
/// it, and its utterances.
#[derive(Debug, Clone)]
pub struct ImportedSession {
    pub session: Session,
    pub processed: Vec<String>,
    pub utterances: Vec<Utterance>,
}

/// Everything an import creates, with fresh ids, ready to be stored.
#[derive(Debug, Clone)]
pub struct ImportPlan {
    pub persona: Persona,
    pub traits: Vec<TraitValue>,
    pub sessions: Vec<ImportedSession>,
    pub memories: Vec<Memory>,
    pub relationships: Vec<Relationship>,
    pub events: Vec<PersonalityEvent>,
}

/// A persona id of the file, relinked: the exported persona's old id becomes
/// its new one.
pub open spec fn relink(pid: Seq<char>, old_pid: Seq<char>, new_pid: Seq<char>) -> Seq<char> {
    if pid == old_pid {
        new_pid
    } else {
        pid
    }
}

/// The new id of the file's session `old`: that of the last session of the
/// file with this id.
pub open spec fn session_lookup(
    fs: Seq<ExportSession>,
    news: Seq<ImportedSession>,
    old: Seq<char>,
) -> Option<Seq<char>>
    decreases fs.len(),
{
    if fs.len() == 0 {
        None
    } else if fs.last().id@ == old {
        Some(news[fs.len() - 1].session.id@)
    } else {
        session_lookup(fs.drop_last(), news, old)
    }
}

/// The view of an optional string.
pub open spec fn opt_view(o: Option<String>) -> Option<Seq<char>> {
    match o {
        Some(s) => Some(s@),
        None => None,
    }
}

/// The new id of an optional session reference.
pub open spec fn relinked_session(
    fs: Seq<ExportSession>,
    news: Seq<ImportedSession>,
    old: Option<String>,
) -> Option<Seq<char>> {
    match old {
        Some(o) => session_lookup(fs, news, o@),
        None => None,
    }
}

/// An imported utterance of the file's utterance `e` in session `sid`.
pub open spec fn utterance_imported(
    e: ExportUtterance,
    u: Utterance,
    sid: Seq<char>,
    old_pid: Seq<char>,
    new_pid: Seq<char>,
) -> bool {
    &&& u.id@.len() == 36
    &&& u.session_id@ == sid
    &&& u.speaker_kind@ == e.speaker_kind@
    &&& u.speaker_id@ == relink(e.speaker_id@, old_pid, new_pid)
    &&& u.speaker_name@ == clamp_field_spec(e.speaker_name@, 50)
    &&& u.content@ == sanitize_seq(e.content@)
    &&& u.state@ == e.state@
    &&& u.created_at == e.created_at
}

/// An imported session of the file's session `s`.
pub open spec fn session_imported(
    s: ExportSession,
    i: ImportedSession,
    old_pid: Seq<char>,
    new_pid: Seq<char>,
) -> bool {
    &&& i.session.id@.len() == 36
    &&& i.session.kind@ == s.kind@
    &&& i.session.theme@ == clamp_field_spec(s.theme@, 500)
    &&& i.session.status@ == "processed"@
    &&& i.session.started_at == s.started_at
    &&& i.session.ended_at == s.ended_at
    &&& i.session.participant_ids@.len() == s.participants@.len()
    &&& i.session.participant_names@.len() == s.participants@.len()
    &&& i.processed@.len() == s.participants@.len()
    &&& forall|k: int|
        0 <= k < s.participants@.len() ==> {
            &&& (#[trigger] i.session.participant_ids@[k])@ == relink(
                s.participants@[k].persona_id@,
                old_pid,
                new_pid,
            )
            &&& i.session.participant_names@[k]@ == clamp_field_spec(
                s.participants@[k].persona_name@,
                50,
            )
            &&& i.processed@[k]@ == i.session.participant_ids@[k]@
        }
    &&& i.utterances@.len() == s.utterances@.len()
    &&& forall|k: int|
        0 <= k < s.utterances@.len() ==> utterance_imported(
            s.utterances@[k],
            #[trigger] i.utterances@[k],
            i.session.id@,
            old_pid,
            new_pid,
        )
}

/// The file's memories that are kept: those whose content, cleaned and cut
/// to 300 characters, is not blank.
pub open spec fn kept_memories(ms: Seq<ExportMemory>) -> Seq<ExportMemory>
    decreases ms.len(),
{
    if ms.len() == 0 {
        Seq::empty()
    } else {
        let r = kept_memories(ms.drop_last());
        if trim_seq(clamp_field_spec(ms.last().content@, 300)).len() > 0 {
            r.push(ms.last())
        } else {
            r
        }
    }
}

/// An imported memory of the file's memory `e`: without embedding, kind
/// normalised, importance kept between 1 and 10, source session relinked.
pub open spec fn memory_imported(
    e: ExportMemory,
    m: Memory,
    new_pid: Seq<char>,
    fs: Seq<ExportSession>,
    news: Seq<ImportedSession>,
) -> bool {
    &&& m.id@.len() == 36
    &&& m.persona_id@ == new_pid
    &&& m.content@ == clamp_field_spec(e.content@, 300)
    &&& m.kind@ == kind_or_fact(Some(e.kind@))
    &&& m.importance == clamp_spec(e.importance as int, 1, 10)
    &&& !m.has_embedding
    &&& opt_view(m.source_session_id) == relinked_session(fs, news, e.source_session_id)
    &&& m.created_at == e.created_at
    &&& m.archived == e.archived
    &&& m.user_edited == e.user_edited
}

/// An imported relationship of the file's relationship `e`.
pub open spec fn relationship_imported(e: ExportRelationship, r: Relationship, new_pid: Seq<char>) -> bool {
    &&& r.persona_id@ == new_pid
    &&& r.target_kind@ == e.target_kind@
    &&& r.target_id@ == e.target_id@
    &&& r.target_name@ == clamp_field_spec(e.target_name@, 50)
    &&& r.intimacy == clamp_spec(e.intimacy as int, 0, 100)
    &&& r.impression_text@ == clamp_field_spec(e.impression_text@, 200)
    &&& r.updated_at == e.updated_at
}

/// An imported personality change of the file's change `e`.
pub open spec fn event_imported(
    e: ExportEvent,
    v: PersonalityEvent,
    new_pid: Seq<char>,
    fs: Seq<ExportSession>,
    news: Seq<ImportedSession>,
) -> bool {
    &&& v.id@.len() == 36
    &&& v.persona_id@ == new_pid
    &&& opt_view(v.session_id) == relinked_session(fs, news, e.session_id)
    &&& v.item@ == clamp_field_spec(e.item@, 100)
    &&& v.old_value@ == clamp_field_spec(e.old_value@, 300)
    &&& v.new_value@ == clamp_field_spec(e.new_value@, 300)
    &&& v.created_at == e.created_at
}

/// The persona an import creates from the file's record, named `name`.
pub open spec fn persona_imported(e: ExportPersona, p: Persona, name: Seq<char>) -> bool {
    &&& p.id@.len() == 36
    &&& p.name@ == name
    &&& p.description@ == clamp_field_spec(e.description@, 2000)
    &&& p.speech_style@ == clamp_field_spec(e.speech_style@, 1000)
    &&& p.values_text@ == clamp_field_spec(e.values_text@, 1000)
    &&& p.self_intro@ == clamp_field_spec(e.self_intro@, 1000)
    &&& p.created_at == e.created_at
    &&& p.last_talked_at is None
}

fn import_utterance(
    e: &ExportUtterance,
    sid: &str,
    old_pid: &str,
    new_pid: &str,
) -> (r: Utterance)
    ensures
        utterance_imported(*e, r, sid@, old_pid@, new_pid@),
{
    Utterance {
        id: new_id(),
        session_id: String::from_str(sid),
        speaker_kind: e.speaker_kind.clone(),
        speaker_id: relink_id(e.speaker_id.as_str(), old_pid, new_pid),
        speaker_name: clamp_chars(e.speaker_name.as_str(), 50),
        content: sanitize(e.content.as_str()),
        state: e.state.clone(),
        created_at: e.created_at,
    }
}

fn relink_id(pid: &str, old_pid: &str, new_pid: &str) -> (r: String)
    ensures
        r@ == relink(pid@, old_pid@, new_pid@),
{
    if str_eq(pid, old_pid) {
        String::from_str(new_pid)
    } else {
        String::from_str(pid)
    }
}

fn import_session(s: &ExportSession, old_pid: &str, new_pid: &str) -> (r: ImportedSession)
    ensures
        session_imported(*s, r, old_pid@, new_pid@),
{
    let sid = new_id();
    let mut ids: Vec<String> = Vec::new();
    let mut names: Vec<String> = Vec::new();
    let mut processed: Vec<String> = Vec::new();
    let mut k: usize = 0;
    while k < s.participants.len()
        invariant
            k <= s.participants.len(),
            ids@.len() == k,
            names@.len() == k,
            processed@.len() == k,
            forall|j: int|
                0 <= j < k ==> {
                    &&& (#[trigger] ids@[j])@ == relink(
                        s.participants@[j].persona_id@,
                        old_pid@,
                        new_pid@,
                    )
                    &&& names@[j]@ == clamp_field_spec(s.participants@[j].persona_name@, 50)
                    &&& processed@[j]@ == ids@[j]@
                },
        decreases s.participants.len() - k,
    {
        let p = &s.participants[k];
        ids.push(relink_id(p.persona_id.as_str(), old_pid, new_pid));
        names.push(clamp_chars(p.persona_name.as_str(), 50));
        processed.push(relink_id(p.persona_id.as_str(), old_pid, new_pid));
        k = k + 1;
    }
    let mut utterances: Vec<Utterance> = Vec::new();
    let mut k: usize = 0;
    while k < s.utterances.len()
        invariant
            k <= s.utterances.len(),
            utterances@.len() == k,
            forall|j: int|
                0 <= j < k ==> utterance_imported(
                    s.utterances@[j],
                    #[trigger] utterances@[j],
                    sid@,
                    old_pid@,
                    new_pid@,
                ),
        decreases s.utterances.len() - k,
    {
        utterances.push(import_utterance(&s.utterances[k], sid.as_str(), old_pid, new_pid));
        k = k + 1;
    }
    ImportedSession {
        session: Session {
            id: sid,
            kind: s.kind.clone(),
            theme: clamp_chars(s.theme.as_str(), 500),
            status: String::from_str("processed"),
            started_at: s.started_at,
            ended_at: s.ended_at,
            participant_ids: ids,
            participant_names: names,
        },
        processed,
        utterances,
    }
}

fn lookup_session(fs: &[ExportSession], news: &[ImportedSession], old: &str) -> (r: Option<String>)
    requires
        fs@.len() == news@.len(),
    ensures
        opt_view(r) == session_lookup(fs@, news@, old@),
{
    let mut j: usize = fs.len();
    assert(fs@.take(j as int) == fs@);
    while j > 0
        invariant
            j <= fs.len(),
            fs@.len() == news@.len(),
            session_lookup(fs@, news@, old@) == session_lookup(fs@.take(j as int), news@, old@),
        decreases j,
    {
        let ghost t = fs@.take(j as int);
        assert(t.last() == fs@[j - 1]);
        assert(t.drop_last() == fs@.take(j - 1));
        if str_eq(fs[j - 1].id.as_str(), old) {
            return Some(news[j - 1].session.id.clone());
        }
        j = j - 1;
    }
    None
}

fn relink_session(fs: &[ExportSession], news: &[ImportedSession], old: &Option<String>) -> (r:
    Option<String>)
    requires
        fs@.len() == news@.len(),
    ensures
        opt_view(r) == relinked_session(fs@, news@, *old),
{
    match old {
        Some(o) => lookup_session(fs, news, o.as_str()),
        None => None,
    }
}

/// `plan` is what importing `file` creates for a persona named `name`.
pub open spec fn import_plan_of(file: ExportFile, name: Seq<char>, plan: ImportPlan) -> bool {
    let new_pid = plan.persona.id@;
    let old_pid = file.persona.id@;
    let fs = file.sessions@;
    let news = plan.sessions@;
    &&& persona_imported(file.persona, plan.persona, name)
    &&& initial_traits_ok(file.traits@, plan.traits@)
    &&& news.len() == fs.len()
    &&& forall|i: int|
        0 <= i < fs.len() ==> session_imported(fs[i], #[trigger] news[i], old_pid, new_pid)
    &&& plan.memories@.len() == kept_memories(file.memories@).len()
    &&& forall|i: int|
        0 <= i < plan.memories@.len() ==> memory_imported(
            kept_memories(file.memories@)[i],
            #[trigger] plan.memories@[i],
            new_pid,
            fs,
            news,
        )
    &&& plan.relationships@.len() == file.relationships@.len()
    &&& forall|i: int|
        0 <= i < plan.relationships@.len() ==> relationship_imported(
            file.relationships@[i],
            #[trigger] plan.relationships@[i],
            new_pid,
        )
    &&& plan.events@.len() == file.personality_events@.len()
    &&& forall|i: int|
        0 <= i < plan.events@.len() ==> event_imported(
            file.personality_events@[i],
            #[trigger] plan.events@[i],
            new_pid,
            fs,
            news,
        )
}

/// What importing `file` creates for a persona named `name` (the file's
/// name, validated): the persona with a fresh id and its cleaned fields, its
/// five traits (each the file's first value for the axis kept between 0 and
/// 100, or the default), its history with fresh ids and the exported
/// persona's id relinked, its non-blank memories, its relationships and its
/// personality changes, each cleaned and cut to its limits. When a persona
/// of that name exists (`name_taken`) the import is refused with
/// `DuplicateName` unless `force` is set.
pub fn plan_import(file: &ExportFile, name: String, force: bool, name_taken: bool) -> (r: AppResult<
    ImportPlan,
>)
    ensures
        !force && name_taken ==> fails_with(r, "duplicate_name"@, duplicate_message(name@)),
        force || !name_taken ==> (r matches Ok(plan) && import_plan_of(*file, name@, plan)),
{
    if !force && name_taken {
        return Err(duplicate_error(name.as_str()));
    }
    let e = &file.persona;
    let persona = Persona {
        id: new_id(),
        name,
        description: clamp_chars(e.description.as_str(), 2000),
        speech_style: clamp_chars(e.speech_style.as_str(), 1000),
        values_text: clamp_chars(e.values_text.as_str(), 1000),
        self_intro: clamp_chars(e.self_intro.as_str(), 1000),
        created_at: e.created_at,
        last_talked_at: None,
    };
    let traits = initial_traits(&file.traits);
    let old_pid = file.persona.id.as_str();
    let new_pid = persona.id.as_str();
    let mut sessions: Vec<ImportedSession> = Vec::new();
    let mut i: usize = 0;
    while i < file.sessions.len()
        invariant
            i <= file.sessions.len(),
            sessions@.len() == i,
            forall|j: int|
                0 <= j < i ==> session_imported(
                    file.sessions@[j],
                    #[trigger] sessions@[j],
                    old_pid@,
                    new_pid@,
                ),
        decreases file.sessions.len() - i,
    {
        sessions.push(import_session(&file.sessions[i], old_pid, new_pid));
        i = i + 1;
    }
    let mut memories: Vec<Memory> = Vec::new();
    let mut i: usize = 0;
    while i < file.memories.len()
        invariant
            i <= file.memories.len(),
            sessions@.len() == file.sessions@.len(),
            memories@.len() == kept_memories(file.memories@.take(i as int)).len(),
            forall|j: int|
                0 <= j < memories@.len() ==> memory_imported(
                    kept_memories(file.memories@.take(i as int))[j],
                    #[trigger] memories@[j],
                    new_pid@,
                    file.sessions@,
                    sessions@,
                ),
        decreases file.memories.len() - i,
    {
        let m = &file.memories[i];
        assert(file.memories@.take(i + 1).drop_last() == file.memories@.take(i as int));
        assert(file.memories@.take(i + 1).last() == file.memories@[i as int]);
        let content = clamp_chars(m.content.as_str(), 300);
        let blank = trim_vec(&chars_of(content.as_str())).len() == 0;
        if !blank {
            let ghost before = memories@;
            memories.push(
                Memory {
                    id: new_id(),
                    persona_id: String::from_str(new_pid),
                    content,
                    kind: normalize_kind(Some(m.kind.as_str())),
                    importance: clamp_i64(m.importance, 1, 10),
                    has_embedding: false,
                    source_session_id: relink_session(
                        &file.sessions,
                        &sessions,
                        &m.source_session_id,
                    ),
                    created_at: m.created_at,
                    archived: m.archived,
                    user_edited: m.user_edited,
                },
            );
            assert forall|j: int| 0 <= j < memories@.len() implies memory_imported(
                kept_memories(file.memories@.take(i + 1))[j],
                #[trigger] memories@[j],
                new_pid@,
                file.sessions@,
                sessions@,
            ) by {
                if j < before.len() {
                    assert(memories@[j] == before[j]);
                }
            }
        }
        i = i + 1;
    }
    assert(file.memories@.take(file.memories.len() as int) == file.memories@);
    let mut relationships: Vec<Relationship> = Vec::new();
    let mut i: usize = 0;
    while i < file.relationships.len()
        invariant
            i <= file.relationships.len(),
            relationships@.len() == i,
            forall|j: int|
                0 <= j < i ==> relationship_imported(
                    file.relationships@[j],
                    #[trigger] relationships@[j],
                    new_pid@,
                ),
        decreases file.relationships.len() - i,
    {
        let r = &file.relationships[i];
        relationships.push(
            Relationship {
                persona_id: String::from_str(new_pid),
                target_kind: r.target_kind.clone(),
                target_id: r.target_id.clone(),
                target_name: clamp_chars(r.target_name.as_str(), 50),
                intimacy: clamp_i64(r.intimacy, 0, 100),
                impression_text: clamp_chars(r.impression_text.as_str(), 200),
                updated_at: r.updated_at,
            },
        );
        i = i + 1;
    }
    let mut events: Vec<PersonalityEvent> = Vec::new();
    let mut i: usize = 0;
    while i < file.personality_events.len()
        invariant
            i <= file.personality_events.len(),
            sessions@.len() == file.sessions@.len(),
            events@.len() == i,
            forall|j: int|
                0 <= j < i ==> event_imported(
                    file.personality_events@[j],
                    #[trigger] events@[j],
                    new_pid@,
                    file.sessions@,
                    sessions@,
                ),
        decreases file.personality_events.len() - i,
    {
        let ev = &file.personality_events[i];
        events.push(
            PersonalityEvent {
                id: new_id(),
                persona_id: String::from_str(new_pid),
                session_id: relink_session(&file.sessions, &sessions, &ev.session_id),
                item: clamp_chars(ev.item.as_str(), 100),
                old_value: clamp_chars(ev.old_value.as_str(), 300),
                new_value: clamp_chars(ev.new_value.as_str(), 300),
                created_at: ev.created_at,
            },
        );
        i = i + 1;
    }
    Ok(ImportPlan { persona, traits, sessions, memories, relationships, events })
}

// ---------- laws ----------

/// A text that cleaning leaves as it is: no dropped control character and
/// at most `max` characters.
pub open spec fn clean_within(s: Seq<char>, max: int) -> bool {
    s.len() <= max && forall|i: int| 0 <= i < s.len() ==> keeps_char(#[trigger] s[i])
}

proof fn lemma_clean_kept(s: Seq<char>, max: int)
    requires
        clean_within(s, max),
    ensures
        clamp_field_spec(s, max) == s,
{
    lemma_sanitize_clean(s);
}

/// Importing an exported persona gives back its record: the same name (when
/// it was valid), texts and creation time, provided its texts were already
/// clean and within their limits.
pub proof fn law_persona_survives_export_import(p: Persona, q: Persona)
    requires
        clean_within(p.description@, 2000),
        clean_within(p.speech_style@, 1000),
        clean_within(p.values_text@, 1000),
        clean_within(p.self_intro@, 1000),
        persona_imported(persona_record(p), q, p.name@),
    ensures
        q.name@ == p.name@,
        q.description@ == p.description@,
        q.speech_style@ == p.speech_style@,
        q.values_text@ == p.values_text@,
        q.self_intro@ == p.self_intro@,
        q.created_at == p.created_at,
{
    lemma_clean_kept(p.description@, 2000);
    lemma_clean_kept(p.speech_style@, 1000);
    lemma_clean_kept(p.values_text@, 1000);
    lemma_clean_kept(p.self_intro@, 1000);
}

/// Importing an exported memory gives back its content, kind, importance,
/// time and flags, provided its content was clean, not blank and within 300
/// characters, its kind one of the known kinds and its importance in
/// `[1, 10]`.
pub proof fn law_memory_survives_export_import(
    m: Memory,
    q: Memory,
    new_pid: Seq<char>,
    fs: Seq<ExportSession>,
    news: Seq<ImportedSession>,
)
    requires
        clean_within(m.content@, 300),
        m.kind@ == "fact"@ || m.kind@ == "event"@ || m.kind@ == "promise"@ || m.kind@
            == "impression"@,
        1 <= m.importance <= 10,
        memory_imported(memory_record(m), q, new_pid, fs, news),
    ensures
        q.content@ == m.content@,
        q.kind@ == m.kind@,
        q.importance == m.importance,
        q.created_at == m.created_at,
        q.archived == m.archived,
        q.user_edited == m.user_edited,
{
    lemma_clean_kept(m.content@, 300);
}

/// Importing an exported relationship gives it back, attached to the new
/// persona, provided its texts were clean and within their limits and its
/// intimacy in `[0, 100]`.
pub proof fn law_relationship_survives_export_import(r: Relationship, q: Relationship, new_pid: Seq<char>)
    requires
        clean_within(r.target_name@, 50),
        clean_within(r.impression_text@, 200),
        0 <= r.intimacy <= 100,
        relationship_imported(relationship_record(r), q, new_pid),
    ensures
        q.persona_id@ == new_pid,
        q.target_kind@ == r.target_kind@,
        q.target_id@ == r.target_id@,
        q.target_name@ == r.target_name@,
        q.intimacy == r.intimacy,
        q.impression_text@ == r.impression_text@,
        q.updated_at == r.updated_at,
{
    lemma_clean_kept(r.target_name@, 50);
    lemma_clean_kept(r.impression_text@, 200);
}

proof fn lemma_stored_value_in_range(t: Seq<TraitValue>, k: Seq<char>)
    requires
        forall|j: int| 0 <= j < t.len() ==> 0 <= #[trigger] t[j].value <= 100,
    ensures
        trait_value_in(t, k) matches Some(v) ==> 0 <= v <= 100,
    decreases t.len(),
{
    if t.len() > 0 && t[0].key@ != k {
        let rest = t.drop_first();
        assert forall|j: int| 0 <= j < rest.len() implies 0 <= #[trigger] rest[j].value <= 100 by {
            assert(rest[j] == t[j + 1]);
        }
        lemma_stored_value_in_range(rest, k);
    }
}

/// Importing exported traits gives back, for each of the five axes in order,
/// the value stored for it (the first one, where several are stored), or the
/// default for an axis not stored, provided the stored values are within
/// `[0, 100]`.
pub proof fn law_traits_survive_export_import(t: Seq<TraitValue>, q: Seq<TraitValue>)
    requires
        forall|j: int| 0 <= j < t.len() ==> 0 <= #[trigger] t[j].value <= 100,
        initial_traits_ok(t, q),
    ensures
        q.len() == 5,
        forall|i: int|
            0 <= i < 5 ==> (#[trigger] q[i]).key@ == trait_key_spec(i) && q[i].value == trait_old(
                t,
                trait_key_spec(i),
            ),
{
    assert forall|i: int| 0 <= i < 5 implies (#[trigger] q[i]).key@ == trait_key_spec(i)
        && q[i].value == trait_old(t, trait_key_spec(i)) by {
        lemma_stored_value_in_range(t, trait_key_spec(i));
    }
}

/// A memory that an import keeps as it is: clean, not blank and within 300
/// characters, of a known kind, with an importance in `[1, 10]`.
pub open spec fn memory_round_trips(m: Memory) -> bool {
    &&& clean_within(m.content@, 300)
    &&& trim_seq(m.content@).len() > 0
    &&& (m.kind@ == "fact"@ || m.kind@ == "event"@ || m.kind@ == "promise"@ || m.kind@
        == "impression"@)
    &&& 1 <= m.importance <= 10
}

proof fn lemma_all_memories_kept(ms: Seq<Memory>)
    requires
        forall|j: int| 0 <= j < ms.len() ==> memory_round_trips(#[trigger] ms[j]),
    ensures
        kept_memories(ms.map_values(|x: Memory| memory_record(x))) == ms.map_values(
            |x: Memory| memory_record(x),
        ),
    decreases ms.len(),
{
    if ms.len() > 0 {
        let rec = ms.map_values(|x: Memory| memory_record(x));
        let front = ms.drop_last();
        assert forall|j: int| 0 <= j < front.len() implies memory_round_trips(#[trigger] front[j]) by {
            assert(front[j] == ms[j]);
        }
        lemma_all_memories_kept(front);
        assert(rec.drop_last() =~= front.map_values(|x: Memory| memory_record(x)));
        assert(memory_round_trips(ms[ms.len() - 1]));
        lemma_clean_kept(ms.last().content@, 300);
        assert(rec.last() == memory_record(ms.last()));
        assert(rec =~= rec.drop_last().push(rec.last()));
    }
}

/// Exporting a persona and importing the file under the same name gives back
/// its texts and creation time, its five traits (each the stored value, or the
/// default for an axis not stored) and all its memories in order (content,
/// kind, importance, time and flags), provided they were already clean and
/// within the limits that an import applies.
pub proof fn law_export_import_round_trip(
    p: Persona,
    t: Seq<TraitValue>,
    ms: Seq<Memory>,
    file: ExportFile,
    plan: ImportPlan,
)
    requires
        file.persona == persona_record(p),
        file.traits@ == t,
        file.memories@ == ms.map_values(|x: Memory| memory_record(x)),
        import_plan_of(file, p.name@, plan),
        clean_within(p.description@, 2000),
        clean_within(p.speech_style@, 1000),
        clean_within(p.values_text@, 1000),
        clean_within(p.self_intro@, 1000),
        forall|j: int| 0 <= j < t.len() ==> 0 <= #[trigger] t[j].value <= 100,
        forall|j: int| 0 <= j < ms.len() ==> memory_round_trips(#[trigger] ms[j]),
    ensures
        plan.persona.name@ == p.name@,
        plan.persona.description@ == p.description@,
        plan.persona.speech_style@ == p.speech_style@,
        plan.persona.values_text@ == p.values_text@,
        plan.persona.self_intro@ == p.self_intro@,
        plan.persona.created_at == p.created_at,
        plan.traits@.len() == 5,
        forall|i: int|
            0 <= i < 5 ==> (#[trigger] plan.traits@[i]).key@ == trait_key_spec(i)
                && plan.traits@[i].value == trait_old(t, trait_key_spec(i)),
        plan.memories@.len() == ms.len(),
        forall|i: int|
            0 <= i < ms.len() ==> {
                let q = #[trigger] plan.memories@[i];
                &&& q.content@ == ms[i].content@
                &&& q.kind@ == ms[i].kind@
                &&& q.importance == ms[i].importance
                &&& q.created_at == ms[i].created_at
                &&& q.archived == ms[i].archived
                &&& q.user_edited == ms[i].user_edited
            },
{
    law_persona_survives_export_import(p, plan.persona);
    law_traits_survive_export_import(t, plan.traits@);
    lemma_all_memories_kept(ms);
    let new_pid = plan.persona.id@;
    assert forall|i: int| 0 <= i < ms.len() implies {
        let q = #[trigger] plan.memories@[i];
        &&& q.content@ == ms[i].content@
        &&& q.kind@ == ms[i].kind@
        &&& q.importance == ms[i].importance
        &&& q.created_at == ms[i].created_at
        &&& q.archived == ms[i].archived
        &&& q.user_edited == ms[i].user_edited
    } by {
        assert(kept_memories(file.memories@)[i] == memory_record(ms[i]));
        assert(memory_round_trips(ms[i]));
        law_memory_survives_export_import(
            ms[i],
            plan.memories@[i],
            new_pid,
            file.sessions@,
            plan.sessions@,
        );
    }
}

} // verus!
