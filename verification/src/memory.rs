//! The integer rules around memory recall, archiving and consolidation, and
//! around the decay of the mood. The scores themselves are real-valued and
//! computed by the application.

use vstd::prelude::*;

use crate::text::{chars_of, push_char, trim_seq, trim_vec};

verus! {

/// Memories younger than this many days are never archived.
pub const ARCHIVE_PROTECT_DAYS: i64 = 30;

/// Milliseconds in a day.
pub const DAY_MS: i64 = 86_400_000;

/// How many memories exceed the cap and must be archived (none when the
/// count is within the cap).
pub fn archive_quota(active_count: i64, memory_cap: i64) -> (r: i64)
    requires
        i64::MIN <= active_count - memory_cap <= i64::MAX,
    ensures
        r == if active_count - memory_cap <= 0 {
            0
        } else {
            active_count - memory_cap
        },
{
    let overflow = active_count - memory_cap;
    if overflow <= 0 {
        0
    } else {
        overflow
    }
}

/// The creation time before which a memory may be archived: thirty days
/// before `now`.
pub fn archive_cutoff(now: i64) -> (r: i64)
    requires
        now >= i64::MIN + ARCHIVE_PROTECT_DAYS * DAY_MS,
    ensures
        r == now - ARCHIVE_PROTECT_DAYS * DAY_MS,
{
    now - ARCHIVE_PROTECT_DAYS * DAY_MS
}

/// A memory created at `created_at` may be archived.
pub fn archivable(created_at: i64, cutoff: i64) -> (r: bool)
    ensures
        r == (created_at < cutoff),
{
    created_at < cutoff
}

/// How many memories a recall returns: the setting, at least zero.
pub fn recall_count(recall_k: i64) -> (r: i64)
    ensures
        r == if recall_k < 0 {
            0
        } else {
            recall_k
        },
{
    if recall_k < 0 {
        0
    } else {
        recall_k
    }
}

/// A cluster of `size` memories (the new one included) is merged when it
/// has at least the configured minimum, and never fewer than two.
pub fn cluster_ready(size: usize, min_cluster: i64) -> (r: bool)
    ensures
        r == (size as int >= if min_cluster < 2 {
            2
        } else {
            min_cluster as int
        }),
{
    let min: i64 = if min_cluster < 2 {
        2
    } else {
        min_cluster
    };
    size as u64 >= min as u64 || (size as u64 > i64::MAX as u64)
}

// ---------- mood decay ----------

/// How a stored mood is read back: a fixed value, or a value that decays by
/// half every `halflife_hours` over `elapsed_ms`.
#[derive(Debug, Clone, Copy)]
pub enum MoodDecay {
    Fixed(i64),
    Decay { value: i64, elapsed_ms: i64, halflife_hours: i64 },
}

/// The reading of a stored mood `value` rated at `rated_at`: zero when it was
/// never rated; the value itself when it is zero or the half-life is not
/// positive; otherwise a decay over the time since the rating (none when
/// the clock went back).
pub open spec fn mood_decay_spec(value: i64, rated_at: Option<i64>, now: int, halflife: i64) -> MoodDecay {
    match rated_at {
        None => MoodDecay::Fixed(0),
        Some(rated) => if value == 0 || halflife <= 0 {
            MoodDecay::Fixed(value)
        } else {
            MoodDecay::Decay {
                value,
                elapsed_ms: if now - rated < 0 {
                    0
                } else {
                    (now - rated) as i64
                },
                halflife_hours: halflife,
            }
        },
    }
}

/// Decides how a stored mood is read back (see `mood_decay_spec`).
pub fn mood_decay(value: i64, rated_at: Option<i64>, now: i64, halflife_hours: i64) -> (r: MoodDecay)
    requires
        rated_at matches Some(t) ==> i64::MIN <= now - t <= i64::MAX,
    ensures
        r == mood_decay_spec(value, rated_at, now as int, halflife_hours),
{
    match rated_at {
        None => MoodDecay::Fixed(0),
        Some(rated) => {
            if value == 0 || halflife_hours <= 0 {
                MoodDecay::Fixed(value)
            } else {
                let d = now - rated;
                MoodDecay::Decay {
                    value,
                    elapsed_ms: if d < 0 {
                        0
                    } else {
                        d
                    },
                    halflife_hours,
                }
            }
        },
    }
}

// ---------- keyword search ----------

/// A character as written in a LIKE pattern with `\` as the escape
/// character.
pub open spec fn like_escaped_char(c: char) -> Seq<char> {
    if c == '\\' || c == '%' || c == '_' {
        seq!['\\', c]
    } else {
        seq![c]
    }
}

/// A text as written in a LIKE pattern, each character escaped.
pub open spec fn like_escaped(s: Seq<char>) -> Seq<char>
    decreases s.len(),
{
    if s.len() == 0 {
        Seq::empty()
    } else {
        like_escaped(s.drop_last()) + like_escaped_char(s.last())
    }
}

/// The pattern a keyword search matches contents against: the trimmed query
/// with its wildcard and escape characters escaped; `None` for a blank query,
/// which does not restrict the search.
pub fn search_pattern(query: &str) -> (r: Option<String>)
    ensures
        trim_seq(query@).len() == 0 ==> r is None,
        trim_seq(query@).len() > 0 ==> (r matches Some(p) && p@ == like_escaped(trim_seq(query@))),
{
    let q = trim_vec(&chars_of(query));
    if q.len() == 0 {
        return None;
    }
    let mut out = String::new();
    let mut i: usize = 0;
    while i < q.len()
        invariant
            i <= q.len(),
            out@ == like_escaped(q@.take(i as int)),
        decreases q.len() - i,
    {
        assert(q@.take(i + 1).drop_last() == q@.take(i as int));
        assert(q@.take(i + 1).last() == q[i as int]);
        let c = q[i];
        let ghost before = out@;
        if c == '\\' || c == '%' || c == '_' {
            push_char(&mut out, '\\');
        }
        push_char(&mut out, c);
        assert(out@ == before + like_escaped_char(c));
        i = i + 1;
    }
    assert(q@.take(q.len() as int) == q@);
    Some(out)
}

} // verus!
