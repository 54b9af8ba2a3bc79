//! Input checks of the command facade and the persona records they produce.

use vstd::prelude::*;

use crate::error::{fails_with, message_spec, AppError, AppResult};
use crate::inference::{infer_error_text, ChatMessage, InferError};
use crate::json::{as_i64_spec, get_spec, JsonValue};
use crate::models::{
    new_id, now_ms, Persona, Session, Settings, TraitValue, AUTO_TURN_HARD_MAX,
    MAX_GROUP_PARTICIPANTS,
};
use crate::personality::{
    clamp_value, take_seq, trait_key, trait_key_spec, trait_value_in, DEFAULT_TRAIT_VALUE,
};
use crate::text::{
    chars_of, clamp_i64, clamp_spec, digits_value, int_text, is_control_char, lemma_nat_digits_value,
    nat_digits, keeps_char, lemma_trim_empty, owned, push_chars,
    push_int, sanitize_seq, str_eq, trim_seq, trim_vec,
};

verus! {

// ---------- sanitising and validation ----------

/// Removes control characters, keeping line feeds and tabs.
pub fn sanitize(input: &str) -> (r: String)
    ensures
        r@ == sanitize_seq(input@),
{
    let v = chars_of(input);
    let mut out = String::new();
    let mut i: usize = 0;
    while i < v.len()
        invariant
            i <= v.len(),
            v@ == input@,
            out@ == sanitize_seq(v@.take(i as int)),
        decreases v.len() - i,
    {
        let c = v[i];
        assert(v@.take(i + 1).drop_last() == v@.take(i as int));
        assert(v@.take(i + 1).last() == c);
        if !is_control_char(c) || c == '\n' || c == '\t' {
            crate::text::push_char(&mut out, c);
        }
        i = i + 1;
    }
    assert(v@.take(v.len() as int) == v@);
    out
}

/// Why a message is refused, if it is: empty after sanitising and trimming, or
/// longer than `max` characters after sanitising.
pub open spec fn message_error(t: Seq<char>, max: int) -> Option<Seq<char>> {
    let c = sanitize_seq(t);
    if trim_seq(c).len() == 0 {
        Some("メッセージが空です"@)
    } else if c.len() > max {
        Some(
            "メッセージが長すぎます ("@ + int_text(c.len() as int) + "文字)。上限は"@ + int_text(
                max,
            ) + "文字です"@,
        )
    } else {
        None
    }
}

/// Checks a message: the sanitised text when it is non-blank and at most
/// `max_chars` characters long, a validation error otherwise.
pub fn validate_message(text: &str, max_chars: i64) -> (r: AppResult<String>)
    ensures
        r is Ok <==> message_error(text@, max_chars as int) is None,
        r matches Ok(s) ==> s@ == sanitize_seq(text@),
        r matches Err(e) ==> e is Validation && message_spec(e) == message_error(
            text@,
            max_chars as int,
        )->0,
{
    let cleaned = sanitize(text);
    let cv = chars_of(cleaned.as_str());
    let trimmed = trim_vec(&cv);
    if trimmed.len() == 0 {
        return Err(AppError::Validation(String::from_str("メッセージが空です")));
    }
    let count = cv.len();
    let too_long = if max_chars < 0 {
        true
    } else {
        count as u64 > max_chars as u64
    };
    if too_long {
        let mut m = String::from_str("メッセージが長すぎます (");
        push_count(&mut m, count);
        m.append("文字)。上限は");
        push_int(&mut m, max_chars);
        m.append("文字です");
        return Err(AppError::Validation(m));
    }
    Ok(cleaned)
}

/// Appends the decimal text of a character count.
fn push_count(s: &mut String, n: usize)
    ensures
        final(s)@ == old(s)@ + int_text(n as int),
{
    if n as u64 <= i64::MAX as u64 {
        push_int(s, n as i64);
    } else {
        push_large(s, n as u64);
    }
}

/// Appends the decimal text of a count beyond `i64::MAX`.
fn push_large(s: &mut String, n: u64)
    requires
        n > i64::MAX,
    ensures
        final(s)@ == old(s)@ + int_text(n as int),
{
    let hi = n / 10;
    let lo = n % 10;
    push_int(s, hi as i64);
    let c = ((48 + lo) as u8) as char;
    crate::text::push_char(s, c);
}

/// Why a name is refused, if it is: blank, or longer than 50 characters after
/// sanitising and trimming.
pub open spec fn name_error(n: Seq<char>) -> Option<Seq<char>> {
    let c = trim_seq(sanitize_seq(n));
    if c.len() == 0 {
        Some("名前は必須です"@)
    } else if c.len() > 50 {
        Some("名前は50文字以内にしてください"@)
    } else {
        None
    }
}

/// The cleaned form of a name: sanitised, then trimmed.
pub open spec fn clean_name(n: Seq<char>) -> Seq<char> {
    trim_seq(sanitize_seq(n))
}

/// Checks a persona name: the sanitised, trimmed name when it is non-blank and
/// at most 50 characters long, a validation error otherwise.
pub fn validate_name(name: &str) -> (r: AppResult<String>)
    ensures
        r is Ok <==> name_error(name@) is None,
        r matches Ok(s) ==> s@ == clean_name(name@),
        r matches Err(e) ==> e is Validation && message_spec(e) == name_error(name@)->0,
{
    let cleaned = sanitize(name);
    let trimmed = trim_vec(&chars_of(cleaned.as_str()));
    if trimmed.len() == 0 {
        return Err(AppError::Validation(String::from_str("名前は必須です")));
    }
    if trimmed.len() > 50 {
        return Err(AppError::Validation(String::from_str("名前は50文字以内にしてください")));
    }
    let mut out = String::new();
    push_chars(&mut out, &trimmed, 0, trimmed.len());
    assert(trimmed@.subrange(0, trimmed.len() as int) == trimmed@);
    Ok(out)
}

/// The sanitised text cut to `max` characters.
pub open spec fn clamp_field_spec(s: Seq<char>, max: int) -> Seq<char> {
    take_seq(sanitize_seq(s), max)
}

/// Sanitises free text and keeps at most `max` characters.
pub fn clamp_field(s: &str, max: usize) -> (r: String)
    ensures
        r@ == clamp_field_spec(s@, max as int),
{
    let cleaned = sanitize(s);
    crate::personality::take_chars(cleaned.as_str(), max)
}

// ---------- persona records ----------

/// What the user entered to create or edit a persona.
#[derive(Debug, Clone)]
pub struct PersonaInput {
    pub name: String,
    pub description: String,
    pub speech_style: String,
    pub values_text: String,
    pub self_intro: String,
    pub traits: Vec<TraitValue>,
    /// Create or rename even when another persona has the name.
    pub force: bool,
}

/// Initial value of an axis: the entered value limited to `[0, 100]`, or the default.
pub open spec fn initial_trait_value(entered: Seq<TraitValue>, key: Seq<char>) -> int {
    match trait_value_in(entered, key) {
        Some(v) => clamp_spec(v as int, 0, 100),
        None => DEFAULT_TRAIT_VALUE as int,
    }
}

/// All five axes in order, each with its initial value.
pub open spec fn initial_traits_ok(entered: Seq<TraitValue>, traits: Seq<TraitValue>) -> bool {
    &&& traits.len() == 5
    &&& forall|i: int|
        0 <= i < 5 ==> (#[trigger] traits[i]).key@ == trait_key_spec(i) && traits[i].value
            == initial_trait_value(entered, trait_key_spec(i))
}

/// `name` equals one of `names`.
pub open spec fn name_taken(names: Seq<String>, name: Seq<char>) -> bool {
    exists|i: int| 0 <= i < names.len() && (#[trigger] names[i])@ == name
}

/// The duplicate-name warning for `name`.
pub open spec fn duplicate_message(name: Seq<char>) -> Seq<char> {
    "「"@ + name + "」という名前のペルソナは既に存在します"@
}

/// The free-text fields of `p` are those of `input`, sanitised and cut to their limits.
pub open spec fn fields_from_input(p: Persona, input: PersonaInput) -> bool {
    &&& p.description@ == clamp_field_spec(input.description@, 2000)
    &&& p.speech_style@ == clamp_field_spec(input.speech_style@, 1000)
    &&& p.values_text@ == clamp_field_spec(input.values_text@, 1000)
    &&& p.self_intro@ == clamp_field_spec(input.self_intro@, 1000)
}

fn contains_name(names: &[String], name: &str) -> (r: bool)
    ensures
        r == name_taken(names@, name@),
{
    let mut i: usize = 0;
    while i < names.len()
        invariant
            i <= names.len(),
            forall|j: int| 0 <= j < i ==> (#[trigger] names@[j])@ != name@,
        decreases names.len() - i,
    {
        if str_eq(names[i].as_str(), name) {
            return true;
        }
        i = i + 1;
    }
    false
}

fn lookup_entered(entered: &[TraitValue], key: &str) -> (r: Option<i64>)
    ensures
        r == trait_value_in(entered@, key@),
{
    let mut i: usize = 0;
    assert(entered@.skip(0) == entered@);
    while i < entered.len()
        invariant
            i <= entered.len(),
            trait_value_in(entered@, key@) == trait_value_in(entered@.skip(i as int), key@),
        decreases entered.len() - i,
    {
        assert(entered@.skip(i as int).drop_first() == entered@.skip(i + 1));
        if str_eq(entered[i].key.as_str(), key) {
            return Some(entered[i].value);
        }
        i = i + 1;
    }
    None
}

/// The five axes with the entered values (limited to `[0, 100]`) or the default.
pub fn initial_traits(entered: &[TraitValue]) -> (r: Vec<TraitValue>)
    ensures
        initial_traits_ok(entered@, r@),
{
    let mut out: Vec<TraitValue> = Vec::new();
    let mut i: usize = 0;
    while i < 5
        invariant
            i <= 5,
            out@.len() == i,
            forall|j: int|
                0 <= j < i ==> (#[trigger] out@[j]).key@ == trait_key_spec(j) && out@[j].value
                    == initial_trait_value(entered@, trait_key_spec(j)),
        decreases 5 - i,
    {
        let key = trait_key(i);
        let v = match lookup_entered(entered, key) {
            Some(v) => clamp_value(v),
            None => DEFAULT_TRAIT_VALUE,
        };
        out.push(TraitValue { key: owned(key), value: v });
        i = i + 1;
    }
    out
}

pub fn duplicate_error(name: &str) -> (r: AppError)
    ensures
        r is DuplicateName,
        message_spec(r) == duplicate_message(name@),
{
    let mut m = String::from_str("「");
    m.append(name);
    m.append("」という名前のペルソナは既に存在します");
    AppError::DuplicateName(m)
}

/// A new persona with its initial trait axes.
#[derive(Debug)]
pub struct NewPersona {
    pub persona: Persona,
    pub traits: Vec<TraitValue>,
}

/// Builds a new persona from the entered data.
///
/// The name is checked as `validate_name` does. Unless `force` is set, a name
/// already in `existing_names` is refused with a duplicate-name warning. The
/// free-text fields are sanitised and cut (description 2000 characters, the
/// others 1000); all five axes are initialised.
pub fn do_create_persona(input: &PersonaInput, existing_names: &[String]) -> (r: AppResult<
    NewPersona,
>)
    ensures
        name_error(input.name@) is Some ==> fails_with(
            r,
            "validation"@,
            name_error(input.name@)->0,
        ),
        name_error(input.name@) is None && !input.force && name_taken(
            existing_names@,
            clean_name(input.name@),
        ) ==> fails_with(r, "duplicate_name"@, duplicate_message(clean_name(input.name@))),
        r is Ok <==> (name_error(input.name@) is None && (input.force || !name_taken(
            existing_names@,
            clean_name(input.name@),
        ))),
        r matches Ok(np) ==> {
            &&& np.persona.name@ == clean_name(input.name@)
            &&& fields_from_input(np.persona, *input)
            &&& np.persona.id@.len() == 36
            &&& np.persona.last_talked_at is None
            &&& initial_traits_ok(input.traits@, np.traits@)
        },
{
    let name = validate_name(input.name.as_str())?;
    if !input.force && contains_name(existing_names, name.as_str()) {
        return Err(duplicate_error(name.as_str()));
    }
    let p = Persona {
        id: new_id(),
        name,
        description: clamp_field(input.description.as_str(), 2000),
        speech_style: clamp_field(input.speech_style.as_str(), 1000),
        values_text: clamp_field(input.values_text.as_str(), 1000),
        self_intro: clamp_field(input.self_intro.as_str(), 1000),
        created_at: now_ms(),
        last_talked_at: None,
    };
    let traits = initial_traits(input.traits.as_slice());
    Ok(NewPersona { persona: p, traits })
}

/// Edits the initial settings of an existing persona; growth (axes, memories,
/// relationships) lives elsewhere and is untouched.
///
/// A missing persona is not found. The name is checked as `validate_name`
/// does; unless `force` is set, renaming to a name among `other_names` (the
/// names of the other personas) is refused.
pub fn do_update_persona(
    existing: Option<&Persona>,
    id: &str,
    input: &PersonaInput,
    other_names: &[String],
) -> (r: AppResult<Persona>)
    ensures
        existing is None ==> fails_with(r, "not_found"@, "ペルソナが見つかりません"@),
        existing matches Some(ex) ==> {
            let cn = clean_name(input.name@);
            &&& name_error(input.name@) is Some ==> fails_with(
                r,
                "validation"@,
                name_error(input.name@)->0,
            )
            &&& name_error(input.name@) is None && !input.force && cn != ex.name@ && name_taken(
                other_names@,
                cn,
            ) ==> fails_with(r, "duplicate_name"@, duplicate_message(cn))
            &&& r is Ok <==> (name_error(input.name@) is None && (input.force || cn == ex.name@
                || !name_taken(other_names@, cn)))
            &&& r matches Ok(p) ==> {
                &&& p.id@ == id@
                &&& p.name@ == cn
                &&& fields_from_input(p, *input)
                &&& p.created_at == ex.created_at
                &&& p.last_talked_at == ex.last_talked_at
            }
        },
{
    let ex = match existing {
        Some(e) => e,
        None => {
            return Err(AppError::NotFound(String::from_str("ペルソナが見つかりません")));
        },
    };
    let name = validate_name(input.name.as_str())?;
    if !input.force && !str_eq(name.as_str(), ex.name.as_str()) && contains_name(
        other_names,
        name.as_str(),
    ) {
        return Err(duplicate_error(name.as_str()));
    }
    Ok(
        Persona {
            id: owned(id),
            name,
            description: clamp_field(input.description.as_str(), 2000),
            speech_style: clamp_field(input.speech_style.as_str(), 1000),
            values_text: clamp_field(input.values_text.as_str(), 1000),
            self_intro: clamp_field(input.self_intro.as_str(), 1000),
            created_at: ex.created_at,
            last_talked_at: ex.last_talked_at,
        },
    )
}

// ---------- connection test ----------

/// Outcome of the connection test shown in the settings screen.
#[derive(Debug, Clone)]
pub struct ConnectionTestResult {
    pub connected: bool,
    pub models: Vec<String>,
    pub chat_model_found: bool,
    pub embed_ok: bool,
    pub message: String,
}

/// Summarises the connection test. `listed` is the model list the engine
/// returned, or why it could not be fetched; `embed_reachable` tells whether the
/// probe embedding succeeded (it is only tried with a listed engine and a
/// configured embedding model).
pub fn connection_test_result(
    chat_model: &str,
    embed_model: &str,
    listed: Result<Vec<String>, InferError>,
    embed_reachable: bool,
) -> (r: ConnectionTestResult)
    ensures
        match listed {
            Ok(models) => {
                &&& r.connected
                &&& r.models@ == models@
                &&& r.chat_model_found == (chat_model@.len() > 0 && name_taken(
                    models@,
                    chat_model@,
                ))
                &&& r.embed_ok == (embed_model@.len() > 0 && embed_reachable)
                &&& r.message@ == "接続に成功しました"@
            },
            Err(e) => {
                &&& !r.connected
                &&& r.models@.len() == 0
                &&& !r.chat_model_found
                &&& !r.embed_ok
                &&& r.message@ == "接続できません: "@ + infer_error_text(e)
                    + "。推論エンジンの起動と接続先設定を確認してください"@
            },
        },
{
    match listed {
        Ok(models) => {
            let found = chat_model.unicode_len() > 0 && contains_name(models.as_slice(), chat_model);
            let embed_ok = embed_model.unicode_len() > 0 && embed_reachable;
            ConnectionTestResult {
                connected: true,
                models,
                chat_model_found: found,
                embed_ok,
                message: String::from_str("接続に成功しました"),
            }
        },
        Err(e) => {
            let mut m = String::from_str("接続できません: ");
            m.append(e.text().as_str());
            m.append("。推論エンジンの起動と接続先設定を確認してください");
            ConnectionTestResult {
                connected: false,
                models: Vec::new(),
                chat_model_found: false,
                embed_ok: false,
                message: m,
            }
        },
    }
}

// ---------- trait suggestions ----------

/// The instruction for suggesting the traits of a described persona.
pub const SUGGEST_SYSTEM: &'static str = "次の人物設定を読み、性格軸を0〜100で評定してJSONのみを出力する。\n形式: {\"sociability\": 整数, \"empathy\": 整数, \"caution\": 整数, \"assertiveness\": 整数, \"cheerfulness\": 整数}";

/// The prompt asking the model to rate the traits of a description: refused
/// while no chat model is configured; the description is cleaned and cut to
/// 2000 characters.
pub fn suggestion_prompt(chat_model: &str, description: &str) -> (r: AppResult<Vec<ChatMessage>>)
    ensures
        chat_model@.len() == 0 ==> fails_with(r, "validation"@, "チャットモデルが未設定です"@),
        chat_model@.len() > 0 ==> (r matches Ok(m) && {
            &&& m@.len() == 2
            &&& m@[0].role@ == "system"@
            &&& m@[0].content@ == SUGGEST_SYSTEM@
            &&& m@[1].role@ == "user"@
            &&& m@[1].content@ == clamp_field_spec(description@, 2000)
        }),
{
    if chat_model.unicode_len() == 0 {
        return Err(AppError::Validation(String::from_str("チャットモデルが未設定です")));
    }
    let mut v: Vec<ChatMessage> = Vec::new();
    v.push(ChatMessage::new("system", String::from_str(SUGGEST_SYSTEM)));
    v.push(ChatMessage::new("user", clamp_field(description, 2000)));
    Ok(v)
}

/// A suggested trait value: the integer given for the axis (the default when
/// missing), kept between 0 and 100.
pub open spec fn suggested_value(answer: JsonValue, key: Seq<char>) -> int {
    match as_i64_spec(get_spec(answer, key)) {
        Some(v) => clamp_spec(v as int, 0, 100),
        None => DEFAULT_TRAIT_VALUE as int,
    }
}

/// Reads the suggestion: one value per axis, in the fixed order. When no
/// JSON could be found in the answer (`None`) it is a generation error.
pub fn suggested_traits(answer: Option<&JsonValue>) -> (r: AppResult<Vec<TraitValue>>)
    ensures
        answer is None ==> fails_with(r, "generation"@, "性格評定の解析に失敗しました"@),
        answer matches Some(v) ==> (r matches Ok(ts) && {
            &&& ts@.len() == 5
            &&& forall|i: int|
                0 <= i < 5 ==> (#[trigger] ts@[i]).key@ == trait_key_spec(i) && ts@[i].value
                    == suggested_value(*v, trait_key_spec(i))
        }),
{
    let v = match answer {
        Some(v) => v,
        None => {
            return Err(AppError::Generation(String::from_str("性格評定の解析に失敗しました")));
        },
    };
    let mut out: Vec<TraitValue> = Vec::new();
    let mut i: usize = 0;
    while i < 5
        invariant
            i <= 5,
            answer == Some(v),
            out@.len() == i,
            forall|j: int|
                0 <= j < i ==> (#[trigger] out@[j]).key@ == trait_key_spec(j) && out@[j].value
                    == suggested_value(*v, trait_key_spec(j)),
        decreases 5 - i,
    {
        let key = trait_key(i);
        let value = match v.get(key).as_i64() {
            Some(n) => clamp_value(n),
            None => DEFAULT_TRAIT_VALUE,
        };
        out.push(TraitValue { key: String::from_str(key), value });
        i = i + 1;
    }
    Ok(out)
}

/// The error a failed suggestion call becomes.
pub fn suggestion_failure(e: &InferError) -> (r: AppError)
    ensures
        r is Generation,
        message_spec(r) == infer_error_text(*e),
{
    AppError::Generation(e.text())
}

// ---------- other command rules ----------

/// A persona taking part in an active session cannot be deleted.
pub fn check_deletable(sessions: &[Session]) -> (r: AppResult<()>)
    ensures
        (exists|i: int| 0 <= i < sessions@.len() && (#[trigger] sessions@[i]).status@ == "active"@)
            ==> fails_with(r, "busy"@, "会話に参加中のペルソナは削除できません。先に会話を終了してください"@),
        (forall|i: int| 0 <= i < sessions@.len() ==> (#[trigger] sessions@[i]).status@ != "active"@)
            ==> r is Ok,
{
    let mut i: usize = 0;
    while i < sessions.len()
        invariant
            i <= sessions.len(),
            forall|j: int| 0 <= j < i ==> (#[trigger] sessions@[j]).status@ != "active"@,
        decreases sessions.len() - i,
    {
        if str_eq(sessions[i].status.as_str(), "active") {
            return Err(
                AppError::Busy(
                    String::from_str("会話に参加中のペルソナは削除できません。先に会話を終了してください"),
                ),
            );
        }
        i = i + 1;
    }
    Ok(())
}

/// A failure of a reply started in the background is reported as its own
/// event unless it is an inference failure, which the generation already
/// reported.
pub fn reported_separately(e: &AppError) -> (r: bool)
    ensures
        r == !(e is Connection || e is Generation),
{
    match e {
        AppError::Connection(_) => false,
        AppError::Generation(_) => false,
        _ => true,
    }
}

// ---------- stored settings ----------

/// Every character is an ASCII digit.
pub open spec fn all_digits(d: Seq<char>) -> bool {
    forall|i: int| 0 <= i < d.len() ==> '0' <= #[trigger] d[i] <= '9'
}

/// The integer a text denotes as `i64::from_str` reads it: an optional sign
/// and at least one digit, within the range of `i64`.
pub open spec fn parse_i64_spec(t: Seq<char>) -> Option<i64> {
    let neg = t.len() > 0 && t[0] == '-';
    let signed = t.len() > 0 && (t[0] == '-' || t[0] == '+');
    let d = if signed {
        t.drop_first()
    } else {
        t
    };
    let v = if neg {
        -digits_value(d)
    } else {
        digits_value(d)
    };
    if d.len() > 0 && all_digits(d) && i64::MIN <= v <= i64::MAX {
        Some(v as i64)
    } else {
        None
    }
}

proof fn lemma_decimal_grows(d: Seq<char>, k: int)
    requires
        all_digits(d),
        0 <= k <= d.len(),
    ensures
        digits_value(d.take(k)) <= digits_value(d),
        0 <= digits_value(d),
    decreases d.len(),
{
    if d.len() > 0 {
        assert(all_digits(d.drop_last()));
        if k == d.len() {
            assert(d.take(k) == d);
            lemma_decimal_grows(d.drop_last(), 0);
        } else {
            assert(d.take(k) == d.drop_last().take(k));
            lemma_decimal_grows(d.drop_last(), k);
        }
    }
}

/// Reads a decimal integer (see `parse_i64_spec`).
pub fn parse_i64(text: &str) -> (r: Option<i64>)
    ensures
        r == parse_i64_spec(text@),
{
    let t = chars_of(text);
    let n = t.len();
    let neg = n > 0 && t[0] == '-';
    let signed = n > 0 && (t[0] == '-' || t[0] == '+');
    let start: usize = if signed {
        1
    } else {
        0
    };
    let ghost d = t@.subrange(start as int, n as int);
    assert(d == if signed {
        text@.drop_first()
    } else {
        text@
    });
    if start >= n {
        return None;
    }
    let limit: u128 = if neg {
        9_223_372_036_854_775_808
    } else {
        9_223_372_036_854_775_807
    };
    let mut acc: u128 = 0;
    let mut k: usize = start;
    while k < n
        invariant
            t@ == text@,
            n == t@.len(),
            start <= k <= n,
            start < n,
            neg == (text@.len() > 0 && text@[0] == '-'),
            signed == (text@.len() > 0 && (text@[0] == '-' || text@[0] == '+')),
            start == if signed {
                1usize
            } else {
                0usize
            },
            d == t@.subrange(start as int, n as int),
            d == if signed {
                text@.drop_first()
            } else {
                text@
            },
            all_digits(d.take(k - start)),
            acc as int == digits_value(d.take(k - start)),
            acc <= limit,
            limit == if neg {
                9_223_372_036_854_775_808u128
            } else {
                9_223_372_036_854_775_807u128
            },
        decreases n - k,
    {
        let c = t[k];
        assert(d.take(k + 1 - start).drop_last() == d.take(k - start));
        assert(d.take(k + 1 - start).last() == c);
        if c < '0' || c > '9' {
            assert(!all_digits(d)) by {
                assert(d[k - start] == c);
            }
            return None;
        }
        let digit = (c as u32 - '0' as u32) as u128;
        acc = acc * 10 + digit;
        if acc > limit {
            proof {
                assert(all_digits(d.take(k + 1 - start)));
                if all_digits(d) {
                    lemma_decimal_grows(d, k + 1 - start);
                }
            }
            return None;
        }
        k = k + 1;
    }
    assert(d.take(n - start) == d);
    if neg {
        Some((0 - acc as i128) as i64)
    } else {
        Some(acc as i64)
    }
}

/// The boolean a stored flag denotes: anything but "false" is true.
pub open spec fn flag_value(t: Seq<char>) -> bool {
    t != "false"@
}

/// An integer setting read from its stored text, the current value when the
/// text is not an integer.
pub open spec fn int_setting(t: Seq<char>, current: i64) -> i64 {
    match parse_i64_spec(t) {
        Some(v) => v,
        None => current,
    }
}

/// `new` is `old` after reading the stored text `t` of setting `key`: a
/// text setting takes the text, an integer setting the integer it denotes
/// (keeping its value when it denotes none), the flag is set unless the text
/// is "false"; every other setting is kept, and an unknown key changes
/// nothing.
pub open spec fn setting_read(old: Settings, new: Settings, key: Seq<char>, t: Seq<char>) -> bool {
    if key == "endpoint"@ {
        new == (Settings { endpoint: new.endpoint, ..old }) && new.endpoint@ == t
    } else if key == "chat_model"@ {
        new == (Settings { chat_model: new.chat_model, ..old }) && new.chat_model@ == t
    } else if key == "embed_model"@ {
        new == (Settings { embed_model: new.embed_model, ..old }) && new.embed_model@ == t
    } else if key == "auto_turn_limit"@ {
        new == (Settings { auto_turn_limit: int_setting(t, old.auto_turn_limit), ..old })
    } else if key == "input_max_chars"@ {
        new == (Settings { input_max_chars: int_setting(t, old.input_max_chars), ..old })
    } else if key == "recall_k"@ {
        new == (Settings { recall_k: int_setting(t, old.recall_k), ..old })
    } else if key == "trait_delta_cap"@ {
        new == (Settings { trait_delta_cap: int_setting(t, old.trait_delta_cap), ..old })
    } else if key == "intimacy_delta_cap"@ {
        new == (Settings { intimacy_delta_cap: int_setting(t, old.intimacy_delta_cap), ..old })
    } else if key == "memory_cap"@ {
        new == (Settings { memory_cap: int_setting(t, old.memory_cap), ..old })
    } else if key == "context_chars"@ {
        new == (Settings { context_chars: int_setting(t, old.context_chars), ..old })
    } else if key == "greeting_enabled"@ {
        new == (Settings { greeting_enabled: flag_value(t), ..old })
    } else if key == "greeting_interval_min"@ {
        new == (Settings { greeting_interval_min: int_setting(t, old.greeting_interval_min), ..old })
    } else if key == "elapsed_short_hours"@ {
        new == (Settings { elapsed_short_hours: int_setting(t, old.elapsed_short_hours), ..old })
    } else if key == "elapsed_mid_hours"@ {
        new == (Settings { elapsed_mid_hours: int_setting(t, old.elapsed_mid_hours), ..old })
    } else if key == "elapsed_long_days"@ {
        new == (Settings { elapsed_long_days: int_setting(t, old.elapsed_long_days), ..old })
    } else if key == "consolidate_min_cluster"@ {
        new == (Settings { consolidate_min_cluster: int_setting(t, old.consolidate_min_cluster), ..old })
    } else if key == "mood_halflife_hours"@ {
        new == (Settings { mood_halflife_hours: int_setting(t, old.mood_halflife_hours), ..old })
    } else if key == "mood_delta_cap"@ {
        new == (Settings { mood_delta_cap: int_setting(t, old.mood_delta_cap), ..old })
    } else if key == "chain_limit"@ {
        new == (Settings { chain_limit: int_setting(t, old.chain_limit), ..old })
    } else if key == "group_max"@ {
        new == (Settings { group_max: int_setting(t, old.group_max), ..old })
    } else if key == "stagnation_streak"@ {
        new == (Settings { stagnation_streak: int_setting(t, old.stagnation_streak), ..old })
    } else if key == "topic_shift_limit"@ {
        new == (Settings { topic_shift_limit: int_setting(t, old.topic_shift_limit), ..old })
    } else {
        new == old
    }
}

fn int_or(text: &str, current: i64) -> (r: i64)
    ensures
        r == int_setting(text@, current),
{
    match parse_i64(text) {
        Some(v) => v,
        None => current,
    }
}

/// Reads the stored text `value` of setting `key` into `s`.
pub fn apply_stored_setting(s: &mut Settings, key: &str, value: &str)
    ensures
        setting_read(*old(s), *final(s), key@, value@),
{
    if str_eq(key, "endpoint") {
        s.endpoint = String::from_str(value);
    } else if str_eq(key, "chat_model") {
        s.chat_model = String::from_str(value);
    } else if str_eq(key, "embed_model") {
        s.embed_model = String::from_str(value);
    } else if str_eq(key, "auto_turn_limit") {
        s.auto_turn_limit = int_or(value, s.auto_turn_limit);
    } else if str_eq(key, "input_max_chars") {
        s.input_max_chars = int_or(value, s.input_max_chars);
    } else if str_eq(key, "recall_k") {
        s.recall_k = int_or(value, s.recall_k);
    } else if str_eq(key, "trait_delta_cap") {
        s.trait_delta_cap = int_or(value, s.trait_delta_cap);
    } else if str_eq(key, "intimacy_delta_cap") {
        s.intimacy_delta_cap = int_or(value, s.intimacy_delta_cap);
    } else if str_eq(key, "memory_cap") {
        s.memory_cap = int_or(value, s.memory_cap);
    } else if str_eq(key, "context_chars") {
        s.context_chars = int_or(value, s.context_chars);
    } else if str_eq(key, "greeting_enabled") {
        s.greeting_enabled = !str_eq(value, "false");
    } else if str_eq(key, "greeting_interval_min") {
        s.greeting_interval_min = int_or(value, s.greeting_interval_min);
    } else if str_eq(key, "elapsed_short_hours") {
        s.elapsed_short_hours = int_or(value, s.elapsed_short_hours);
    } else if str_eq(key, "elapsed_mid_hours") {
        s.elapsed_mid_hours = int_or(value, s.elapsed_mid_hours);
    } else if str_eq(key, "elapsed_long_days") {
        s.elapsed_long_days = int_or(value, s.elapsed_long_days);
    } else if str_eq(key, "consolidate_min_cluster") {
        s.consolidate_min_cluster = int_or(value, s.consolidate_min_cluster);
    } else if str_eq(key, "mood_halflife_hours") {
        s.mood_halflife_hours = int_or(value, s.mood_halflife_hours);
    } else if str_eq(key, "mood_delta_cap") {
        s.mood_delta_cap = int_or(value, s.mood_delta_cap);
    } else if str_eq(key, "chain_limit") {
        s.chain_limit = int_or(value, s.chain_limit);
    } else if str_eq(key, "group_max") {
        s.group_max = int_or(value, s.group_max);
    } else if str_eq(key, "stagnation_streak") {
        s.stagnation_streak = int_or(value, s.stagnation_streak);
    } else if str_eq(key, "topic_shift_limit") {
        s.topic_shift_limit = int_or(value, s.topic_shift_limit);
    }
}

/// Keeps the loaded turn limit between 2 and `AUTO_TURN_HARD_MAX` and the
/// group size between 2 and `MAX_GROUP_PARTICIPANTS`.
pub fn normalize_settings(s: &mut Settings)
    ensures
        final(s).auto_turn_limit == clamp_spec(old(s).auto_turn_limit as int, 2, AUTO_TURN_HARD_MAX as int),
        final(s).group_max == clamp_spec(old(s).group_max as int, 2, MAX_GROUP_PARTICIPANTS as int),
        *final(s) == (Settings {
            auto_turn_limit: final(s).auto_turn_limit,
            group_max: final(s).group_max,
            ..*old(s)
        }),
{
    s.auto_turn_limit = clamp_i64(s.auto_turn_limit, 2, AUTO_TURN_HARD_MAX);
    s.group_max = clamp_i64(s.group_max, 2, MAX_GROUP_PARTICIPANTS as i64);
}

/// The decimal text of an integer reads back as that integer.
pub proof fn law_int_text_reads_back(n: i64)
    ensures
        parse_i64_spec(int_text(n as int)) == Some(n),
{
    if n >= 0 {
        lemma_nat_digits_value(n as nat);
    } else {
        let m = (-(n as int)) as nat;
        lemma_nat_digits_value(m);
        let t = int_text(n as int);
        assert(t.drop_first() == nat_digits(m));
        assert(t[0] == '-');
    }
}

/// An integer setting saved as its decimal text is read back unchanged.
pub proof fn law_int_setting_roundtrip(v: i64, current: i64)
    ensures
        int_setting(int_text(v as int), current) == v,
{
    law_int_text_reads_back(v);
}


proof fn lemma_setting_keys_distinct()
    ensures
        "endpoint"@ != "chat_model"@,
        "endpoint"@ != "embed_model"@,
        "endpoint"@ != "auto_turn_limit"@,
        "endpoint"@ != "input_max_chars"@,
        "endpoint"@ != "recall_k"@,
        "endpoint"@ != "trait_delta_cap"@,
        "endpoint"@ != "intimacy_delta_cap"@,
        "endpoint"@ != "memory_cap"@,
        "endpoint"@ != "context_chars"@,
        "endpoint"@ != "greeting_enabled"@,
        "endpoint"@ != "greeting_interval_min"@,
        "endpoint"@ != "elapsed_short_hours"@,
        "endpoint"@ != "elapsed_mid_hours"@,
        "endpoint"@ != "elapsed_long_days"@,
        "endpoint"@ != "consolidate_min_cluster"@,
        "endpoint"@ != "mood_halflife_hours"@,
        "endpoint"@ != "mood_delta_cap"@,
        "endpoint"@ != "chain_limit"@,
        "endpoint"@ != "group_max"@,
        "endpoint"@ != "stagnation_streak"@,
        "endpoint"@ != "topic_shift_limit"@,
        "chat_model"@ != "embed_model"@,
        "chat_model"@ != "auto_turn_limit"@,
        "chat_model"@ != "input_max_chars"@,
        "chat_model"@ != "recall_k"@,
        "chat_model"@ != "trait_delta_cap"@,
        "chat_model"@ != "intimacy_delta_cap"@,
        "chat_model"@ != "memory_cap"@,
        "chat_model"@ != "context_chars"@,
        "chat_model"@ != "greeting_enabled"@,
        "chat_model"@ != "greeting_interval_min"@,
        "chat_model"@ != "elapsed_short_hours"@,
        "chat_model"@ != "elapsed_mid_hours"@,
        "chat_model"@ != "elapsed_long_days"@,
        "chat_model"@ != "consolidate_min_cluster"@,
        "chat_model"@ != "mood_halflife_hours"@,
        "chat_model"@ != "mood_delta_cap"@,
        "chat_model"@ != "chain_limit"@,
        "chat_model"@ != "group_max"@,
        "chat_model"@ != "stagnation_streak"@,
        "chat_model"@ != "topic_shift_limit"@,
        "embed_model"@ != "auto_turn_limit"@,
        "embed_model"@ != "input_max_chars"@,
        "embed_model"@ != "recall_k"@,
        "embed_model"@ != "trait_delta_cap"@,
        "embed_model"@ != "intimacy_delta_cap"@,
        "embed_model"@ != "memory_cap"@,
        "embed_model"@ != "context_chars"@,
        "embed_model"@ != "greeting_enabled"@,
        "embed_model"@ != "greeting_interval_min"@,
        "embed_model"@ != "elapsed_short_hours"@,
        "embed_model"@ != "elapsed_mid_hours"@,
        "embed_model"@ != "elapsed_long_days"@,
        "embed_model"@ != "consolidate_min_cluster"@,
        "embed_model"@ != "mood_halflife_hours"@,
        "embed_model"@ != "mood_delta_cap"@,
        "embed_model"@ != "chain_limit"@,
        "embed_model"@ != "group_max"@,
        "embed_model"@ != "stagnation_streak"@,
        "embed_model"@ != "topic_shift_limit"@,
        "auto_turn_limit"@ != "input_max_chars"@,
        "auto_turn_limit"@ != "recall_k"@,
        "auto_turn_limit"@ != "trait_delta_cap"@,
        "auto_turn_limit"@ != "intimacy_delta_cap"@,
        "auto_turn_limit"@ != "memory_cap"@,
        "auto_turn_limit"@ != "context_chars"@,
        "auto_turn_limit"@ != "greeting_enabled"@,
        "auto_turn_limit"@ != "greeting_interval_min"@,
        "auto_turn_limit"@ != "elapsed_short_hours"@,
        "auto_turn_limit"@ != "elapsed_mid_hours"@,
        "auto_turn_limit"@ != "elapsed_long_days"@,
        "auto_turn_limit"@ != "consolidate_min_cluster"@,
        "auto_turn_limit"@ != "mood_halflife_hours"@,
        "auto_turn_limit"@ != "mood_delta_cap"@,
        "auto_turn_limit"@ != "chain_limit"@,
        "auto_turn_limit"@ != "group_max"@,
        "auto_turn_limit"@ != "stagnation_streak"@,
        "auto_turn_limit"@ != "topic_shift_limit"@,
        "input_max_chars"@ != "recall_k"@,
        "input_max_chars"@ != "trait_delta_cap"@,
        "input_max_chars"@ != "intimacy_delta_cap"@,
        "input_max_chars"@ != "memory_cap"@,
        "input_max_chars"@ != "context_chars"@,
        "input_max_chars"@ != "greeting_enabled"@,
        "input_max_chars"@ != "greeting_interval_min"@,
        "input_max_chars"@ != "elapsed_short_hours"@,
        "input_max_chars"@ != "elapsed_mid_hours"@,
        "input_max_chars"@ != "elapsed_long_days"@,
        "input_max_chars"@ != "consolidate_min_cluster"@,
        "input_max_chars"@ != "mood_halflife_hours"@,
        "input_max_chars"@ != "mood_delta_cap"@,
        "input_max_chars"@ != "chain_limit"@,
        "input_max_chars"@ != "group_max"@,
        "input_max_chars"@ != "stagnation_streak"@,
        "input_max_chars"@ != "topic_shift_limit"@,
        "recall_k"@ != "trait_delta_cap"@,
        "recall_k"@ != "intimacy_delta_cap"@,
        "recall_k"@ != "memory_cap"@,
        "recall_k"@ != "context_chars"@,
        "recall_k"@ != "greeting_enabled"@,
        "recall_k"@ != "greeting_interval_min"@,
        "recall_k"@ != "elapsed_short_hours"@,
        "recall_k"@ != "elapsed_mid_hours"@,
        "recall_k"@ != "elapsed_long_days"@,
        "recall_k"@ != "consolidate_min_cluster"@,
        "recall_k"@ != "mood_halflife_hours"@,
        "recall_k"@ != "mood_delta_cap"@,
        "recall_k"@ != "chain_limit"@,
        "recall_k"@ != "group_max"@,
        "recall_k"@ != "stagnation_streak"@,
        "recall_k"@ != "topic_shift_limit"@,
        "trait_delta_cap"@ != "intimacy_delta_cap"@,
        "trait_delta_cap"@ != "memory_cap"@,
        "trait_delta_cap"@ != "context_chars"@,
        "trait_delta_cap"@ != "greeting_enabled"@,
        "trait_delta_cap"@ != "greeting_interval_min"@,
        "trait_delta_cap"@ != "elapsed_short_hours"@,
        "trait_delta_cap"@ != "elapsed_mid_hours"@,
        "trait_delta_cap"@ != "elapsed_long_days"@,
        "trait_delta_cap"@ != "consolidate_min_cluster"@,
        "trait_delta_cap"@ != "mood_halflife_hours"@,
        "trait_delta_cap"@ != "mood_delta_cap"@,
        "trait_delta_cap"@ != "chain_limit"@,
        "trait_delta_cap"@ != "group_max"@,
        "trait_delta_cap"@ != "stagnation_streak"@,
        "trait_delta_cap"@ != "topic_shift_limit"@,
        "intimacy_delta_cap"@ != "memory_cap"@,
        "intimacy_delta_cap"@ != "context_chars"@,
        "intimacy_delta_cap"@ != "greeting_enabled"@,
        "intimacy_delta_cap"@ != "greeting_interval_min"@,
        "intimacy_delta_cap"@ != "elapsed_short_hours"@,
        "intimacy_delta_cap"@ != "elapsed_mid_hours"@,
        "intimacy_delta_cap"@ != "elapsed_long_days"@,
        "intimacy_delta_cap"@ != "consolidate_min_cluster"@,
        "intimacy_delta_cap"@ != "mood_halflife_hours"@,
        "intimacy_delta_cap"@ != "mood_delta_cap"@,
        "intimacy_delta_cap"@ != "chain_limit"@,
        "intimacy_delta_cap"@ != "group_max"@,
        "intimacy_delta_cap"@ != "stagnation_streak"@,
        "intimacy_delta_cap"@ != "topic_shift_limit"@,
        "memory_cap"@ != "context_chars"@,
        "memory_cap"@ != "greeting_enabled"@,
        "memory_cap"@ != "greeting_interval_min"@,
        "memory_cap"@ != "elapsed_short_hours"@,
        "memory_cap"@ != "elapsed_mid_hours"@,
        "memory_cap"@ != "elapsed_long_days"@,
        "memory_cap"@ != "consolidate_min_cluster"@,
        "memory_cap"@ != "mood_halflife_hours"@,
        "memory_cap"@ != "mood_delta_cap"@,
        "memory_cap"@ != "chain_limit"@,
        "memory_cap"@ != "group_max"@,
        "memory_cap"@ != "stagnation_streak"@,
        "memory_cap"@ != "topic_shift_limit"@,
        "context_chars"@ != "greeting_enabled"@,
        "context_chars"@ != "greeting_interval_min"@,
        "context_chars"@ != "elapsed_short_hours"@,
        "context_chars"@ != "elapsed_mid_hours"@,
        "context_chars"@ != "elapsed_long_days"@,
        "context_chars"@ != "consolidate_min_cluster"@,
        "context_chars"@ != "mood_halflife_hours"@,
        "context_chars"@ != "mood_delta_cap"@,
        "context_chars"@ != "chain_limit"@,
        "context_chars"@ != "group_max"@,
        "context_chars"@ != "stagnation_streak"@,
        "context_chars"@ != "topic_shift_limit"@,
        "greeting_enabled"@ != "greeting_interval_min"@,
        "greeting_enabled"@ != "elapsed_short_hours"@,
        "greeting_enabled"@ != "elapsed_mid_hours"@,
        "greeting_enabled"@ != "elapsed_long_days"@,
        "greeting_enabled"@ != "consolidate_min_cluster"@,
        "greeting_enabled"@ != "mood_halflife_hours"@,
        "greeting_enabled"@ != "mood_delta_cap"@,
        "greeting_enabled"@ != "chain_limit"@,
        "greeting_enabled"@ != "group_max"@,
        "greeting_enabled"@ != "stagnation_streak"@,
        "greeting_enabled"@ != "topic_shift_limit"@,
        "greeting_interval_min"@ != "elapsed_short_hours"@,
        "greeting_interval_min"@ != "elapsed_mid_hours"@,
        "greeting_interval_min"@ != "elapsed_long_days"@,
        "greeting_interval_min"@ != "consolidate_min_cluster"@,
        "greeting_interval_min"@ != "mood_halflife_hours"@,
        "greeting_interval_min"@ != "mood_delta_cap"@,
        "greeting_interval_min"@ != "chain_limit"@,
        "greeting_interval_min"@ != "group_max"@,
        "greeting_interval_min"@ != "stagnation_streak"@,
        "greeting_interval_min"@ != "topic_shift_limit"@,
        "elapsed_short_hours"@ != "elapsed_mid_hours"@,
        "elapsed_short_hours"@ != "elapsed_long_days"@,
        "elapsed_short_hours"@ != "consolidate_min_cluster"@,
        "elapsed_short_hours"@ != "mood_halflife_hours"@,
        "elapsed_short_hours"@ != "mood_delta_cap"@,
        "elapsed_short_hours"@ != "chain_limit"@,
        "elapsed_short_hours"@ != "group_max"@,
        "elapsed_short_hours"@ != "stagnation_streak"@,
        "elapsed_short_hours"@ != "topic_shift_limit"@,
        "elapsed_mid_hours"@ != "elapsed_long_days"@,
        "elapsed_mid_hours"@ != "consolidate_min_cluster"@,
        "elapsed_mid_hours"@ != "mood_halflife_hours"@,
        "elapsed_mid_hours"@ != "mood_delta_cap"@,
        "elapsed_mid_hours"@ != "chain_limit"@,
        "elapsed_mid_hours"@ != "group_max"@,
        "elapsed_mid_hours"@ != "stagnation_streak"@,
        "elapsed_mid_hours"@ != "topic_shift_limit"@,
        "elapsed_long_days"@ != "consolidate_min_cluster"@,
        "elapsed_long_days"@ != "mood_halflife_hours"@,
        "elapsed_long_days"@ != "mood_delta_cap"@,
        "elapsed_long_days"@ != "chain_limit"@,
        "elapsed_long_days"@ != "group_max"@,
        "elapsed_long_days"@ != "stagnation_streak"@,
        "elapsed_long_days"@ != "topic_shift_limit"@,
        "consolidate_min_cluster"@ != "mood_halflife_hours"@,
        "consolidate_min_cluster"@ != "mood_delta_cap"@,
        "consolidate_min_cluster"@ != "chain_limit"@,
        "consolidate_min_cluster"@ != "group_max"@,
        "consolidate_min_cluster"@ != "stagnation_streak"@,
        "consolidate_min_cluster"@ != "topic_shift_limit"@,
        "mood_halflife_hours"@ != "mood_delta_cap"@,
        "mood_halflife_hours"@ != "chain_limit"@,
        "mood_halflife_hours"@ != "group_max"@,
        "mood_halflife_hours"@ != "stagnation_streak"@,
        "mood_halflife_hours"@ != "topic_shift_limit"@,
        "mood_delta_cap"@ != "chain_limit"@,
        "mood_delta_cap"@ != "group_max"@,
        "mood_delta_cap"@ != "stagnation_streak"@,
        "mood_delta_cap"@ != "topic_shift_limit"@,
        "chain_limit"@ != "group_max"@,
        "chain_limit"@ != "stagnation_streak"@,
        "chain_limit"@ != "topic_shift_limit"@,
        "group_max"@ != "stagnation_streak"@,
        "group_max"@ != "topic_shift_limit"@,
        "stagnation_streak"@ != "topic_shift_limit"@,
{
    reveal_strlit("endpoint");
    reveal_strlit("chat_model");
    reveal_strlit("embed_model");
    reveal_strlit("auto_turn_limit");
    reveal_strlit("input_max_chars");
    reveal_strlit("recall_k");
    reveal_strlit("trait_delta_cap");
    reveal_strlit("intimacy_delta_cap");
    reveal_strlit("memory_cap");
    reveal_strlit("context_chars");
    reveal_strlit("greeting_enabled");
    reveal_strlit("greeting_interval_min");
    reveal_strlit("elapsed_short_hours");
    reveal_strlit("elapsed_mid_hours");
    reveal_strlit("elapsed_long_days");
    reveal_strlit("consolidate_min_cluster");
    reveal_strlit("mood_halflife_hours");
    reveal_strlit("mood_delta_cap");
    reveal_strlit("chain_limit");
    reveal_strlit("group_max");
    reveal_strlit("stagnation_streak");
    reveal_strlit("topic_shift_limit");
    assert("endpoint"@.len() != "chat_model"@.len());
    assert("endpoint"@.len() != "embed_model"@.len());
    assert("endpoint"@.len() != "auto_turn_limit"@.len());
    assert("endpoint"@.len() != "input_max_chars"@.len());
    assert("endpoint"@[0] != "recall_k"@[0]);
    assert("endpoint"@.len() != "trait_delta_cap"@.len());
    assert("endpoint"@.len() != "intimacy_delta_cap"@.len());
    assert("endpoint"@.len() != "memory_cap"@.len());
    assert("endpoint"@.len() != "context_chars"@.len());
    assert("endpoint"@.len() != "greeting_enabled"@.len());
    assert("endpoint"@.len() != "greeting_interval_min"@.len());
    assert("endpoint"@.len() != "elapsed_short_hours"@.len());
    assert("endpoint"@.len() != "elapsed_mid_hours"@.len());
    assert("endpoint"@.len() != "elapsed_long_days"@.len());
    assert("endpoint"@.len() != "consolidate_min_cluster"@.len());
    assert("endpoint"@.len() != "mood_halflife_hours"@.len());
    assert("endpoint"@.len() != "mood_delta_cap"@.len());
    assert("endpoint"@.len() != "chain_limit"@.len());
    assert("endpoint"@.len() != "group_max"@.len());
    assert("endpoint"@.len() != "stagnation_streak"@.len());
    assert("endpoint"@.len() != "topic_shift_limit"@.len());
    assert("chat_model"@.len() != "embed_model"@.len());
    assert("chat_model"@.len() != "auto_turn_limit"@.len());
    assert("chat_model"@.len() != "input_max_chars"@.len());
    assert("chat_model"@.len() != "recall_k"@.len());
    assert("chat_model"@.len() != "trait_delta_cap"@.len());
    assert("chat_model"@.len() != "intimacy_delta_cap"@.len());
    assert("chat_model"@[0] != "memory_cap"@[0]);
    assert("chat_model"@.len() != "context_chars"@.len());
    assert("chat_model"@.len() != "greeting_enabled"@.len());
    assert("chat_model"@.len() != "greeting_interval_min"@.len());
    assert("chat_model"@.len() != "elapsed_short_hours"@.len());
    assert("chat_model"@.len() != "elapsed_mid_hours"@.len());
    assert("chat_model"@.len() != "elapsed_long_days"@.len());
    assert("chat_model"@.len() != "consolidate_min_cluster"@.len());
    assert("chat_model"@.len() != "mood_halflife_hours"@.len());
    assert("chat_model"@.len() != "mood_delta_cap"@.len());
    assert("chat_model"@.len() != "chain_limit"@.len());
    assert("chat_model"@.len() != "group_max"@.len());
    assert("chat_model"@.len() != "stagnation_streak"@.len());
    assert("chat_model"@.len() != "topic_shift_limit"@.len());
    assert("embed_model"@.len() != "auto_turn_limit"@.len());
    assert("embed_model"@.len() != "input_max_chars"@.len());
    assert("embed_model"@.len() != "recall_k"@.len());
    assert("embed_model"@.len() != "trait_delta_cap"@.len());
    assert("embed_model"@.len() != "intimacy_delta_cap"@.len());
    assert("embed_model"@.len() != "memory_cap"@.len());
    assert("embed_model"@.len() != "context_chars"@.len());
    assert("embed_model"@.len() != "greeting_enabled"@.len());
    assert("embed_model"@.len() != "greeting_interval_min"@.len());
    assert("embed_model"@.len() != "elapsed_short_hours"@.len());
    assert("embed_model"@.len() != "elapsed_mid_hours"@.len());
    assert("embed_model"@.len() != "elapsed_long_days"@.len());
    assert("embed_model"@.len() != "consolidate_min_cluster"@.len());
    assert("embed_model"@.len() != "mood_halflife_hours"@.len());
    assert("embed_model"@.len() != "mood_delta_cap"@.len());
    assert("embed_model"@[0] != "chain_limit"@[0]);
    assert("embed_model"@.len() != "group_max"@.len());
    assert("embed_model"@.len() != "stagnation_streak"@.len());
    assert("embed_model"@.len() != "topic_shift_limit"@.len());
    assert("auto_turn_limit"@[0] != "input_max_chars"@[0]);
    assert("auto_turn_limit"@.len() != "recall_k"@.len());
    assert("auto_turn_limit"@[0] != "trait_delta_cap"@[0]);
    assert("auto_turn_limit"@.len() != "intimacy_delta_cap"@.len());
    assert("auto_turn_limit"@.len() != "memory_cap"@.len());
    assert("auto_turn_limit"@.len() != "context_chars"@.len());
    assert("auto_turn_limit"@.len() != "greeting_enabled"@.len());
    assert("auto_turn_limit"@.len() != "greeting_interval_min"@.len());
    assert("auto_turn_limit"@.len() != "elapsed_short_hours"@.len());
    assert("auto_turn_limit"@.len() != "elapsed_mid_hours"@.len());
    assert("auto_turn_limit"@.len() != "elapsed_long_days"@.len());
    assert("auto_turn_limit"@.len() != "consolidate_min_cluster"@.len());
    assert("auto_turn_limit"@.len() != "mood_halflife_hours"@.len());
    assert("auto_turn_limit"@.len() != "mood_delta_cap"@.len());
    assert("auto_turn_limit"@.len() != "chain_limit"@.len());
    assert("auto_turn_limit"@.len() != "group_max"@.len());
    assert("auto_turn_limit"@.len() != "stagnation_streak"@.len());
    assert("auto_turn_limit"@.len() != "topic_shift_limit"@.len());
    assert("input_max_chars"@.len() != "recall_k"@.len());
    assert("input_max_chars"@[0] != "trait_delta_cap"@[0]);
    assert("input_max_chars"@.len() != "intimacy_delta_cap"@.len());
    assert("input_max_chars"@.len() != "memory_cap"@.len());
    assert("input_max_chars"@.len() != "context_chars"@.len());
    assert("input_max_chars"@.len() != "greeting_enabled"@.len());
    assert("input_max_chars"@.len() != "greeting_interval_min"@.len());
    assert("input_max_chars"@.len() != "elapsed_short_hours"@.len());
    assert("input_max_chars"@.len() != "elapsed_mid_hours"@.len());
    assert("input_max_chars"@.len() != "elapsed_long_days"@.len());
    assert("input_max_chars"@.len() != "consolidate_min_cluster"@.len());
    assert("input_max_chars"@.len() != "mood_halflife_hours"@.len());
    assert("input_max_chars"@.len() != "mood_delta_cap"@.len());
    assert("input_max_chars"@.len() != "chain_limit"@.len());
    assert("input_max_chars"@.len() != "group_max"@.len());
    assert("input_max_chars"@.len() != "stagnation_streak"@.len());
    assert("input_max_chars"@.len() != "topic_shift_limit"@.len());
    assert("recall_k"@.len() != "trait_delta_cap"@.len());
    assert("recall_k"@.len() != "intimacy_delta_cap"@.len());
    assert("recall_k"@.len() != "memory_cap"@.len());
    assert("recall_k"@.len() != "context_chars"@.len());
    assert("recall_k"@.len() != "greeting_enabled"@.len());
    assert("recall_k"@.len() != "greeting_interval_min"@.len());
    assert("recall_k"@.len() != "elapsed_short_hours"@.len());
    assert("recall_k"@.len() != "elapsed_mid_hours"@.len());
    assert("recall_k"@.len() != "elapsed_long_days"@.len());
    assert("recall_k"@.len() != "consolidate_min_cluster"@.len());
    assert("recall_k"@.len() != "mood_halflife_hours"@.len());
    assert("recall_k"@.len() != "mood_delta_cap"@.len());
    assert("recall_k"@.len() != "chain_limit"@.len());
    assert("recall_k"@.len() != "group_max"@.len());
    assert("recall_k"@.len() != "stagnation_streak"@.len());
    assert("recall_k"@.len() != "topic_shift_limit"@.len());
    assert("trait_delta_cap"@.len() != "intimacy_delta_cap"@.len());
    assert("trait_delta_cap"@.len() != "memory_cap"@.len());
    assert("trait_delta_cap"@.len() != "context_chars"@.len());
    assert("trait_delta_cap"@.len() != "greeting_enabled"@.len());
    assert("trait_delta_cap"@.len() != "greeting_interval_min"@.len());
    assert("trait_delta_cap"@.len() != "elapsed_short_hours"@.len());
    assert("trait_delta_cap"@.len() != "elapsed_mid_hours"@.len());
    assert("trait_delta_cap"@.len() != "elapsed_long_days"@.len());
    assert("trait_delta_cap"@.len() != "consolidate_min_cluster"@.len());
    assert("trait_delta_cap"@.len() != "mood_halflife_hours"@.len());
    assert("trait_delta_cap"@.len() != "mood_delta_cap"@.len());
    assert("trait_delta_cap"@.len() != "chain_limit"@.len());
    assert("trait_delta_cap"@.len() != "group_max"@.len());
    assert("trait_delta_cap"@.len() != "stagnation_streak"@.len());
    assert("trait_delta_cap"@.len() != "topic_shift_limit"@.len());
    assert("intimacy_delta_cap"@.len() != "memory_cap"@.len());
    assert("intimacy_delta_cap"@.len() != "context_chars"@.len());
    assert("intimacy_delta_cap"@.len() != "greeting_enabled"@.len());
    assert("intimacy_delta_cap"@.len() != "greeting_interval_min"@.len());
    assert("intimacy_delta_cap"@.len() != "elapsed_short_hours"@.len());
    assert("intimacy_delta_cap"@.len() != "elapsed_mid_hours"@.len());
    assert("intimacy_delta_cap"@.len() != "elapsed_long_days"@.len());
    assert("intimacy_delta_cap"@.len() != "consolidate_min_cluster"@.len());
    assert("intimacy_delta_cap"@.len() != "mood_halflife_hours"@.len());
    assert("intimacy_delta_cap"@.len() != "mood_delta_cap"@.len());
    assert("intimacy_delta_cap"@.len() != "chain_limit"@.len());
    assert("intimacy_delta_cap"@.len() != "group_max"@.len());
    assert("intimacy_delta_cap"@.len() != "stagnation_streak"@.len());
    assert("intimacy_delta_cap"@.len() != "topic_shift_limit"@.len());
    assert("memory_cap"@.len() != "context_chars"@.len());
    assert("memory_cap"@.len() != "greeting_enabled"@.len());
    assert("memory_cap"@.len() != "greeting_interval_min"@.len());
    assert("memory_cap"@.len() != "elapsed_short_hours"@.len());
    assert("memory_cap"@.len() != "elapsed_mid_hours"@.len());
    assert("memory_cap"@.len() != "elapsed_long_days"@.len());
    assert("memory_cap"@.len() != "consolidate_min_cluster"@.len());
    assert("memory_cap"@.len() != "mood_halflife_hours"@.len());
    assert("memory_cap"@.len() != "mood_delta_cap"@.len());
    assert("memory_cap"@.len() != "chain_limit"@.len());
    assert("memory_cap"@.len() != "group_max"@.len());
    assert("memory_cap"@.len() != "stagnation_streak"@.len());
    assert("memory_cap"@.len() != "topic_shift_limit"@.len());
    assert("context_chars"@.len() != "greeting_enabled"@.len());
    assert("context_chars"@.len() != "greeting_interval_min"@.len());
    assert("context_chars"@.len() != "elapsed_short_hours"@.len());
    assert("context_chars"@.len() != "elapsed_mid_hours"@.len());
    assert("context_chars"@.len() != "elapsed_long_days"@.len());
    assert("context_chars"@.len() != "consolidate_min_cluster"@.len());
    assert("context_chars"@.len() != "mood_halflife_hours"@.len());
    assert("context_chars"@.len() != "mood_delta_cap"@.len());
    assert("context_chars"@.len() != "chain_limit"@.len());
    assert("context_chars"@.len() != "group_max"@.len());
    assert("context_chars"@.len() != "stagnation_streak"@.len());
    assert("context_chars"@.len() != "topic_shift_limit"@.len());
    assert("greeting_enabled"@.len() != "greeting_interval_min"@.len());
    assert("greeting_enabled"@.len() != "elapsed_short_hours"@.len());
    assert("greeting_enabled"@.len() != "elapsed_mid_hours"@.len());
    assert("greeting_enabled"@.len() != "elapsed_long_days"@.len());
    assert("greeting_enabled"@.len() != "consolidate_min_cluster"@.len());
    assert("greeting_enabled"@.len() != "mood_halflife_hours"@.len());
    assert("greeting_enabled"@.len() != "mood_delta_cap"@.len());
    assert("greeting_enabled"@.len() != "chain_limit"@.len());
    assert("greeting_enabled"@.len() != "group_max"@.len());
    assert("greeting_enabled"@.len() != "stagnation_streak"@.len());
    assert("greeting_enabled"@.len() != "topic_shift_limit"@.len());
    assert("greeting_interval_min"@.len() != "elapsed_short_hours"@.len());
    assert("greeting_interval_min"@.len() != "elapsed_mid_hours"@.len());
    assert("greeting_interval_min"@.len() != "elapsed_long_days"@.len());
    assert("greeting_interval_min"@.len() != "consolidate_min_cluster"@.len());
    assert("greeting_interval_min"@.len() != "mood_halflife_hours"@.len());
    assert("greeting_interval_min"@.len() != "mood_delta_cap"@.len());
    assert("greeting_interval_min"@.len() != "chain_limit"@.len());
    assert("greeting_interval_min"@.len() != "group_max"@.len());
    assert("greeting_interval_min"@.len() != "stagnation_streak"@.len());
    assert("greeting_interval_min"@.len() != "topic_shift_limit"@.len());
    assert("elapsed_short_hours"@.len() != "elapsed_mid_hours"@.len());
    assert("elapsed_short_hours"@.len() != "elapsed_long_days"@.len());
    assert("elapsed_short_hours"@.len() != "consolidate_min_cluster"@.len());
    assert("elapsed_short_hours"@[0] != "mood_halflife_hours"@[0]);
    assert("elapsed_short_hours"@.len() != "mood_delta_cap"@.len());
    assert("elapsed_short_hours"@.len() != "chain_limit"@.len());
    assert("elapsed_short_hours"@.len() != "group_max"@.len());
    assert("elapsed_short_hours"@.len() != "stagnation_streak"@.len());
    assert("elapsed_short_hours"@.len() != "topic_shift_limit"@.len());
    assert("elapsed_mid_hours"@[8] != "elapsed_long_days"@[8]);
    assert("elapsed_mid_hours"@.len() != "consolidate_min_cluster"@.len());
    assert("elapsed_mid_hours"@.len() != "mood_halflife_hours"@.len());
    assert("elapsed_mid_hours"@.len() != "mood_delta_cap"@.len());
    assert("elapsed_mid_hours"@.len() != "chain_limit"@.len());
    assert("elapsed_mid_hours"@.len() != "group_max"@.len());
    assert("elapsed_mid_hours"@[0] != "stagnation_streak"@[0]);
    assert("elapsed_mid_hours"@[0] != "topic_shift_limit"@[0]);
    assert("elapsed_long_days"@.len() != "consolidate_min_cluster"@.len());
    assert("elapsed_long_days"@.len() != "mood_halflife_hours"@.len());
    assert("elapsed_long_days"@.len() != "mood_delta_cap"@.len());
    assert("elapsed_long_days"@.len() != "chain_limit"@.len());
    assert("elapsed_long_days"@.len() != "group_max"@.len());
    assert("elapsed_long_days"@[0] != "stagnation_streak"@[0]);
    assert("elapsed_long_days"@[0] != "topic_shift_limit"@[0]);
    assert("consolidate_min_cluster"@.len() != "mood_halflife_hours"@.len());
    assert("consolidate_min_cluster"@.len() != "mood_delta_cap"@.len());
    assert("consolidate_min_cluster"@.len() != "chain_limit"@.len());
    assert("consolidate_min_cluster"@.len() != "group_max"@.len());
    assert("consolidate_min_cluster"@.len() != "stagnation_streak"@.len());
    assert("consolidate_min_cluster"@.len() != "topic_shift_limit"@.len());
    assert("mood_halflife_hours"@.len() != "mood_delta_cap"@.len());
    assert("mood_halflife_hours"@.len() != "chain_limit"@.len());
    assert("mood_halflife_hours"@.len() != "group_max"@.len());
    assert("mood_halflife_hours"@.len() != "stagnation_streak"@.len());
    assert("mood_halflife_hours"@.len() != "topic_shift_limit"@.len());
    assert("mood_delta_cap"@.len() != "chain_limit"@.len());
    assert("mood_delta_cap"@.len() != "group_max"@.len());
    assert("mood_delta_cap"@.len() != "stagnation_streak"@.len());
    assert("mood_delta_cap"@.len() != "topic_shift_limit"@.len());
    assert("chain_limit"@.len() != "group_max"@.len());
    assert("chain_limit"@.len() != "stagnation_streak"@.len());
    assert("chain_limit"@.len() != "topic_shift_limit"@.len());
    assert("group_max"@.len() != "stagnation_streak"@.len());
    assert("group_max"@.len() != "topic_shift_limit"@.len());
    assert("stagnation_streak"@[0] != "topic_shift_limit"@[0]);
}

/// Reading a stored setting back: an integer setting read from the decimal
/// text of a value holds that value, a text setting holds the text read, and
/// the flag reads "false" as off and "true" as on.
pub proof fn law_setting_reads_back(old: Settings, new: Settings, v: i64, t: Seq<char>)
    ensures
        setting_read(old, new, "auto_turn_limit"@, int_text(v as int)) ==> new.auto_turn_limit == v,
        setting_read(old, new, "input_max_chars"@, int_text(v as int)) ==> new.input_max_chars == v,
        setting_read(old, new, "recall_k"@, int_text(v as int)) ==> new.recall_k == v,
        setting_read(old, new, "trait_delta_cap"@, int_text(v as int)) ==> new.trait_delta_cap == v,
        setting_read(old, new, "intimacy_delta_cap"@, int_text(v as int)) ==> new.intimacy_delta_cap == v,
        setting_read(old, new, "memory_cap"@, int_text(v as int)) ==> new.memory_cap == v,
        setting_read(old, new, "context_chars"@, int_text(v as int)) ==> new.context_chars == v,
        setting_read(old, new, "greeting_interval_min"@, int_text(v as int)) ==> new.greeting_interval_min == v,
        setting_read(old, new, "elapsed_short_hours"@, int_text(v as int)) ==> new.elapsed_short_hours == v,
        setting_read(old, new, "elapsed_mid_hours"@, int_text(v as int)) ==> new.elapsed_mid_hours == v,
        setting_read(old, new, "elapsed_long_days"@, int_text(v as int)) ==> new.elapsed_long_days == v,
        setting_read(old, new, "consolidate_min_cluster"@, int_text(v as int)) ==> new.consolidate_min_cluster == v,
        setting_read(old, new, "mood_halflife_hours"@, int_text(v as int)) ==> new.mood_halflife_hours == v,
        setting_read(old, new, "mood_delta_cap"@, int_text(v as int)) ==> new.mood_delta_cap == v,
        setting_read(old, new, "chain_limit"@, int_text(v as int)) ==> new.chain_limit == v,
        setting_read(old, new, "group_max"@, int_text(v as int)) ==> new.group_max == v,
        setting_read(old, new, "stagnation_streak"@, int_text(v as int)) ==> new.stagnation_streak == v,
        setting_read(old, new, "topic_shift_limit"@, int_text(v as int)) ==> new.topic_shift_limit == v,
        setting_read(old, new, "endpoint"@, t) ==> new.endpoint@ == t,
        setting_read(old, new, "chat_model"@, t) ==> new.chat_model@ == t,
        setting_read(old, new, "embed_model"@, t) ==> new.embed_model@ == t,
        setting_read(old, new, "greeting_enabled"@, "false"@) ==> !new.greeting_enabled,
        setting_read(old, new, "greeting_enabled"@, "true"@) ==> new.greeting_enabled,
{
    lemma_setting_keys_distinct();
    law_int_text_reads_back(v);
    reveal_strlit("false");
    reveal_strlit("true");
    assert("true"@.len() != "false"@.len());
}

} // verus!
