//! What a user asks about themselves: their quota, the submission page's
//! counters, their contact details and how to reach the administrator.
use vstd::prelude::*;

use crate::error::{is_bad_request, AppError};
use crate::quota::{remaining_quota, remaining_spec};
use crate::text::{chars_of, trim, trim_str};

verus! {

/// A user's quota for today.
#[derive(Debug, Clone)]
pub struct QuotaResponse {
    pub used_today: i64,
    pub reserved: i64,
    pub limit: i64,
    pub remaining: i64,
}

/// The counters shown on the submission page.
#[derive(Debug, Clone)]
pub struct SubmitStatsResponse {
    pub visit_count: i64,
    pub print_total_pages: i64,
}

/// A change of the user's contact details.
#[derive(Debug, Clone)]
pub struct UpdateProfileRequest {
    pub qq: Option<String>,
    pub phone: Option<String>,
}

/// How to reach the administrator.
#[derive(Debug, Clone)]
pub struct AdminContactResponse {
    pub student_id: String,
    pub qq: String,
}

/// A user's quota: the limit, the pages used and reserved, and what remains.
pub fn quota_response(used_today: i64, reserved: i64, limit: i64) -> (r: QuotaResponse)
    requires
        i64::MIN <= limit - used_today - reserved <= i64::MAX,
        i64::MIN <= limit - used_today <= i64::MAX,
    ensures
        r.used_today == used_today,
        r.reserved == reserved,
        r.limit == limit,
        r.remaining == remaining_spec(limit, used_today, reserved),
{
    QuotaResponse { used_today, reserved, limit, remaining: remaining_quota(limit, used_today, reserved) }
}

/// A contact detail as stored: trimmed, and absent when blank.
pub open spec fn profile_value_spec(value: Option<Seq<char>>) -> Option<Seq<char>> {
    match value {
        Some(v) => if trim(v).len() > 0 {
            Some(trim(v))
        } else {
            None
        },
        None => None,
    }
}

/// A contact detail as stored: trimmed, and absent when blank.
pub fn optional_profile_value(value: Option<String>) -> (r: Option<String>)
    ensures
        crate::config::opt_view(r) == profile_value_spec(crate::config::opt_view(value)),
{
    match value {
        Some(v) => {
            let t = trim_str(v.as_str());
            if t.as_str().is_empty() {
                None
            } else {
                Some(t)
            }
        },
        None => None,
    }
}

/// The contact details to store from a change: the QQ number and the phone
/// number, each trimmed and absent when blank; a phone number over 32
/// characters is refused.
pub fn profile_update(request: UpdateProfileRequest) -> (r: Result<(Option<String>, Option<String>), AppError>)
    ensures
        ({
            let qq = profile_value_spec(crate::config::opt_view(request.qq));
            let phone = profile_value_spec(crate::config::opt_view(request.phone));
            if phone matches Some(p) && p.len() > 32 {
                r is Err && is_bad_request(r->Err_0, "手机号不能超过 32 个字符"@)
            } else {
                r matches Ok((q, p)) && crate::config::opt_view(q) == qq && crate::config::opt_view(p) == phone
            }
        }),
{
    let qq = optional_profile_value(request.qq);
    let phone = optional_profile_value(request.phone);
    let too_long = match &phone {
        Some(p) => chars_of(p.as_str()).len() > 32,
        None => false,
    };
    if too_long {
        return Err(crate::error::bad_request("手机号不能超过 32 个字符"));
    }
    Ok((qq, phone))
}

/// How to reach the administrator, from their student id and QQ number;
/// empty texts when there is no administrator or no QQ number.
pub fn admin_contact(row: Option<(String, Option<String>)>) -> (r: AdminContactResponse)
    ensures
        match row {
            Some((id, qq)) => r.student_id == id && r.qq@ == (match qq {
                Some(q) => q@,
                None => Seq::<char>::empty(),
            }),
            None => r.student_id@ == Seq::<char>::empty() && r.qq@ == Seq::<char>::empty(),
        },
{
    match row {
        Some((student_id, qq)) => {
            let qq = match qq {
                Some(q) => q,
                None => String::new(),
            };
            AdminContactResponse { student_id, qq }
        },
        None => AdminContactResponse { student_id: String::new(), qq: String::new() },
    }
}

} // verus!
