//! Daily page quotas: the configured limit, what remains of it, and whether a
//! submission goes to the queue or waits for an administrator's review.
use vstd::prelude::*;

use crate::number::{all_digits, digits_value, parse_i64, parse_i64_spec};
use crate::text::chars_of;

verus! {

/// Whether `y` is a year as chrono's `%Y` writes it: four digits, zero-padded,
/// for the years 0 to 9999, and otherwise a sign (`+` or `-`) before at least
/// four digits.
pub open spec fn is_year_text(y: Seq<char>) -> bool {
    ||| y.len() == 4 && all_digits(y)
    ||| y.len() >= 5 && (y[0] == '+' || y[0] == '-') && all_digits(y.drop_first())
}

/// Whether `s` is a date as `%Y-%m-%d` writes it: a year, a `-`, the month as
/// two digits from 01 to 12, a `-`, and the day as two digits from 01 to 31.
pub open spec fn is_date_text(s: Seq<char>) -> bool {
    let n = s.len() as int;
    &&& n >= 10
    &&& is_year_text(s.subrange(0, n - 6))
    &&& s[n - 6] == '-'
    &&& s[n - 3] == '-'
    &&& all_digits(s.subrange(n - 5, n - 3))
    &&& all_digits(s.subrange(n - 2, n))
    &&& 1 <= digits_value(s.subrange(n - 5, n - 3)) <= 12
    &&& 1 <= digits_value(s.subrange(n - 2, n)) <= 31
}

/// Today's date in the local time zone, written by chrono's `Local::now()`
/// and `format("%Y-%m-%d")`. The contract states the form that chrono's
/// documentation gives for `%Y`, `%m` and `%d`; which day it is depends on
/// the clock and is not stated.
#[verifier::external_body]
fn local_date_today() -> (d: String)
    ensures
        is_date_text(d@),
{
    chrono::Local::now().format("%Y-%m-%d").to_string()
}

/// Today's date in the local time zone, as `YYYY-MM-DD`; quotas are counted
/// per such day.
pub fn today() -> (d: String)
    ensures
        is_date_text(d@),
{
    local_date_today()
}

/// One decision of a submission's quota: the projected usage after a task
/// of `pages` pages, and whether that task awaits review.
pub open spec fn quota_step(projected: int, pages: int, limit: int) -> (int, bool) {
    if projected + pages > limit {
        (projected, true)
    } else {
        (projected + pages, false)
    }
}

/// The projected usage after deciding the tasks of a submission in order.
pub open spec fn quota_run(start: int, pages: Seq<i64>, limit: int) -> int
    decreases pages.len(),
{
    if pages.len() == 0 {
        start
    } else {
        quota_step(quota_run(start, pages.drop_last(), limit), pages.last() as int, limit).0
    }
}

/// Deciding the tasks of a submission one by one never takes the projected
/// usage past the limit it started under, and never lowers it: each task
/// either fits and is counted, or awaits review and is not.
pub proof fn law_quota_never_exceeded(start: int, pages: Seq<i64>, limit: int)
    requires
        start <= limit,
        forall|i: int| 0 <= i < pages.len() ==> #[trigger] pages[i] >= 0,
    ensures
        start <= quota_run(start, pages, limit) <= limit,
    decreases pages.len(),
{
    if pages.len() > 0 {
        assert forall|i: int| 0 <= i < pages.drop_last().len() implies #[trigger] pages.drop_last()[i] >= 0 by {
            assert(pages.drop_last()[i] == pages[i]);
        }
        law_quota_never_exceeded(start, pages.drop_last(), limit);
        assert(pages[pages.len() - 1] >= 0);
    }
}

/// Decides the status of one task of a submission: `queued` if its pages still
/// fit under `limit` together with the pages already counted, which are then
/// increased by them; otherwise `pending_review`, with the count unchanged.
pub fn quota_status(projected_used: &mut i64, page_count: i64, limit: i64) -> (r: (&'static str, bool))
    requires
        i64::MIN <= *old(projected_used) + page_count <= i64::MAX,
    ensures
        *final(projected_used) == quota_step(*old(projected_used) as int, page_count as int, limit as int).0,
        r.1 == quota_step(*old(projected_used) as int, page_count as int, limit as int).1,
        *old(projected_used) + page_count > limit ==> {
            &&& r.0@ == "pending_review"@
            &&& r.1
            &&& *final(projected_used) == *old(projected_used)
        },
        *old(projected_used) + page_count <= limit ==> {
            &&& r.0@ == "queued"@
            &&& !r.1
            &&& *final(projected_used) == *old(projected_used) + page_count
        },
{
    if *projected_used + page_count > limit {
        ("pending_review", true)
    } else {
        *projected_used = *projected_used + page_count;
        ("queued", false)
    }
}

/// The review flag of each task of a submission, decided in order: each task
/// is decided against the count that the tasks before it left.
pub open spec fn quota_flags(start: int, pages: Seq<i64>, limit: int) -> Seq<bool>
    decreases pages.len(),
{
    if pages.len() == 0 {
        Seq::empty()
    } else {
        quota_flags(start, pages.drop_last(), limit).push(
            quota_step(quota_run(start, pages.drop_last(), limit), pages.last() as int, limit).1,
        )
    }
}

/// Whether adding each task's pages to the count that the tasks before it
/// left stays within the `i64` range.
pub open spec fn quota_fits(start: int, pages: Seq<i64>, limit: int) -> bool {
    forall|i: int| 0 <= i < pages.len() ==> i64::MIN <= #[trigger] quota_run(start, pages.take(i), limit) + pages[i] <= i64::MAX
}

/// Decides with `quota_status` whether each task of a submission awaits
/// review, in request order, from `projected` pages already used or reserved
/// today: a task that does not fit awaits review, and the tasks after it
/// still use what capacity is left. Gives `None` where adding a task's pages
/// to the running count would leave the `i64` range.
pub fn submission_review_flags(projected: i64, pages: &[i64], limit: i64) -> (r: Option<Vec<bool>>)
    ensures
        r is Some <==> quota_fits(projected as int, pages@, limit as int),
        r matches Some(v) ==> v@ == quota_flags(projected as int, pages@, limit as int),
{
    let mut used: i64 = projected;
    let mut flags: Vec<bool> = Vec::new();
    let mut i: usize = 0;
    while i < pages.len()
        invariant
            i <= pages@.len(),
            used == quota_run(projected as int, pages@.take(i as int), limit as int),
            flags@ == quota_flags(projected as int, pages@.take(i as int), limit as int),
            forall|j: int| 0 <= j < i ==> i64::MIN <= #[trigger] quota_run(projected as int, pages@.take(j), limit as int) + pages@[j] <= i64::MAX,
        decreases pages@.len() - i,
    {
        let sum: i128 = (used as i128) + (pages[i] as i128);
        if sum > (i64::MAX as i128) || sum < (i64::MIN as i128) {
            assert(!quota_fits(projected as int, pages@, limit as int)) by {
                assert(quota_run(projected as int, pages@.take(i as int), limit as int) + pages@[i as int] == sum);
            }
            return None;
        }
        let (_, review) = quota_status(&mut used, pages[i], limit);
        flags.push(review);
        assert(pages@.take(i + 1).drop_last() =~= pages@.take(i as int));
        i += 1;
    }
    assert(pages@.take(pages@.len() as int) =~= pages@);
    Some(flags)
}

/// The pages a user may still print today: the limit less the pages used and
/// reserved, and never below zero.
pub open spec fn remaining_spec(limit: i64, used: i64, reserved: i64) -> int {
    if limit - used - reserved < 0 {
        0
    } else {
        limit - used - reserved
    }
}

/// The pages a user may still print today.
pub fn remaining_quota(limit: i64, used: i64, reserved: i64) -> (r: i64)
    requires
        i64::MIN <= limit - used - reserved <= i64::MAX,
        i64::MIN <= limit - used <= i64::MAX,
    ensures
        r == remaining_spec(limit, used, reserved),
        r >= 0,
        r >= limit - used - reserved,
        r == 0 || r == limit - used - reserved,
{
    let left = limit - used - reserved;
    if left < 0 {
        0
    } else {
        left
    }
}

/// The daily limit that a stored setting gives: its number, or 10 when it is
/// not a number, and never below zero.
pub open spec fn daily_limit_spec(value: Seq<char>) -> i64 {
    let n: i64 = match parse_i64_spec(value) {
        Some(n) => n,
        None => 10,
    };
    if n < 0 {
        0
    } else {
        n
    }
}

/// The daily limit that the stored setting `value` gives.
pub fn daily_limit_from_setting(value: &str) -> (n: i64)
    ensures
        n == daily_limit_spec(value@),
{
    let chars = chars_of(value);
    let n = match parse_i64(chars.as_slice()) {
        Some(n) => n,
        None => 10,
    };
    if n < 0 {
        0
    } else {
        n
    }
}

/// The pages left today: never negative, never less than the limit less the
/// pages used and reserved, and either nothing or exactly that difference;
/// while the pages used and reserved stay within the limit, they and the
/// remainder add up to the limit, and beyond it nothing remains.
pub proof fn law_remaining_quota(limit: i64, used: i64, reserved: i64)
    ensures
        remaining_spec(limit, used, reserved) >= 0,
        remaining_spec(limit, used, reserved) >= limit - used - reserved,
        remaining_spec(limit, used, reserved) == 0 || remaining_spec(limit, used, reserved) == limit - used - reserved,
        used + reserved <= limit ==> remaining_spec(limit, used, reserved) + used + reserved == limit,
        used + reserved >= limit ==> remaining_spec(limit, used, reserved) == 0,
{
}

/// Reserving or using one more page never leaves more pages remaining, and
/// while some remain it leaves exactly one fewer.
pub proof fn law_more_pages_leave_no_more(limit: i64, used: i64, reserved: i64)
    requires
        reserved < i64::MAX,
        used < i64::MAX,
    ensures
        remaining_spec(limit, used, (reserved + 1) as i64) <= remaining_spec(limit, used, reserved),
        remaining_spec(limit, (used + 1) as i64, reserved) <= remaining_spec(limit, used, reserved),
        remaining_spec(limit, used, reserved) > 0
            ==> remaining_spec(limit, used, (reserved + 1) as i64) == remaining_spec(limit, used, reserved) - 1,
{
}

} // verus!
