//! The settings kept in the database: whether the queue is paused, and how
//! the daily limit is first set from the configuration.
use vstd::prelude::*;

use crate::models::same_chars;
use crate::number::dec_int;

verus! {

/// The key of the setting that pauses the queue.
pub const QUEUE_PAUSED_KEY: &'static str = "queue_paused";

/// The key of the daily page limit.
pub const DAILY_LIMIT_KEY: &'static str = "daily_limit";

/// The key that records that the daily limit was taken from the
/// configuration once.
pub const DAILY_LIMIT_MARKER: &'static str = "default_daily_limit_config_v1";

/// A stored setting, or `default` when it is not stored.
pub fn setting_or(value: Option<String>, default: &str) -> (s: String)
    ensures
        s@ == (match value {
            Some(v) => v@,
            None => default@,
        }),
{
    match value {
        Some(v) => v,
        None => crate::text::owned(default),
    }
}

/// Whether a stored pause setting pauses the queue: only the text `true`
/// does, and an absent setting does not.
pub open spec fn paused_spec(value: Option<Seq<char>>) -> bool {
    match value {
        Some(v) => v == "true"@,
        None => false,
    }
}

/// The text stored for a pause setting.
pub open spec fn paused_text(paused: bool) -> Seq<char> {
    if paused {
        "true"@
    } else {
        "false"@
    }
}

/// Storing whether the queue is paused and reading it back gives the same
/// answer.
pub proof fn law_pause_setting_round_trips(paused: bool)
    ensures
        paused_spec(Some(paused_text(paused))) == paused,
{
    reveal_strlit("true");
    reveal_strlit("false");
    assert("false"@.len() != "true"@.len());
}

/// Whether the queue is paused, from the stored setting: only the text
/// `true` pauses it, and an absent setting does not.
pub fn queue_paused_from(value: &Option<String>) -> (b: bool)
    ensures
        b == paused_spec(crate::config::opt_view(*value)),
{
    match value {
        Some(v) => same_chars(v.as_str(), "true"),
        None => false,
    }
}

/// The stored text of the paused setting.
pub fn paused_value(paused: bool) -> (s: &'static str)
    ensures
        s@ == paused_text(paused),
{
    if paused {
        "true"
    } else {
        "false"
    }
}

/// What the first start with a configured daily limit writes.
pub enum DailyLimitInit {
    /// The configured limit was already applied once: nothing is written.
    AlreadyApplied,
    /// The stored limit was chosen by an administrator: only the marker is
    /// written.
    MarkOnly,
    /// The stored limit is absent or the old default of 50: this limit and
    /// the marker are written.
    SetLimit(String),
}

/// Decides how the configured daily limit is applied on start: once, and
/// only over an absent limit or the old default of 50; a negative limit is
/// stored as zero.
pub fn daily_limit_initialization(marker: &Option<String>, current: &Option<String>, default_limit: i64) -> (r: DailyLimitInit)
    ensures
        marker is Some ==> r is AlreadyApplied,
        marker is None && (match *current {
            Some(c) => c@ == "50"@,
            None => true,
        }) ==> (r matches DailyLimitInit::SetLimit(v) && v@ == dec_int(if default_limit < 0 { 0 } else { default_limit as int })),
        marker is None && (match *current {
            Some(c) => c@ != "50"@,
            None => false,
        }) ==> r is MarkOnly,
{
    if marker.is_some() {
        return DailyLimitInit::AlreadyApplied;
    }
    let replace = match current {
        None => true,
        Some(c) => same_chars(c.as_str(), "50"),
    };
    if replace {
        let limit: i64 = if default_limit < 0 { 0 } else { default_limit };
        DailyLimitInit::SetLimit(crate::number::dec_string_i64(limit))
    } else {
        DailyLimitInit::MarkOnly
    }
}

} // verus!
