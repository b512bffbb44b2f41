//! The records that the platform stores: users, temporary uploads and print
//! tasks, and the view of a user that is sent to clients.
use vstd::prelude::*;

use crate::error::{AppError, is_conflict};

verus! {

/// A user account.
#[derive(Debug, Clone)]
pub struct User {
    pub id: i64,
    pub student_id: String,
    pub password_hash: String,
    pub role: String,
    pub qq: Option<String>,
    pub phone: Option<String>,
    pub status: String,
    pub must_change_password: bool,
    pub created_at: String,
    pub last_login_at: Option<String>,
}

/// Whether the user holds the administrator role.
pub open spec fn user_is_admin(user: User) -> bool {
    user.role@ == "admin"@
}

/// Whether two character slices are equal.
pub fn same_chars(a: &str, b: &str) -> (r: bool)
    ensures
        r == (a@ == b@),
{
    let x = crate::text::chars_of(a);
    let y = crate::text::chars_of(b);
    if x.len() != y.len() {
        return false;
    }
    let mut i: usize = 0;
    while i < x.len()
        invariant
            i <= x@.len(),
            x@.len() == y@.len(),
            x@ == a@,
            y@ == b@,
            forall|k: int| 0 <= k < i ==> x@[k] == y@[k],
        decreases x@.len() - i,
    {
        if x[i] != y[i] {
            return false;
        }
        i = i + 1;
    }
    assert(x@ =~= y@);
    true
}

impl User {
    /// Whether the user holds the administrator role.
    pub fn is_admin(&self) -> (b: bool)
        ensures
            b == user_is_admin(*self),
    {
        same_chars(self.role.as_str(), "admin")
    }
}

/// The view of a user that is sent to clients: the user without the
/// password hash.
#[derive(Debug, Clone)]
pub struct UserView {
    pub id: i64,
    pub student_id: String,
    pub role: String,
    pub qq: Option<String>,
    pub phone: Option<String>,
    pub status: String,
    pub must_change_password: bool,
    pub created_at: String,
    pub last_login_at: Option<String>,
}

/// The view of `user`: every field but the password hash.
pub open spec fn user_view_of(user: User) -> UserView {
    UserView {
        id: user.id,
        student_id: user.student_id,
        role: user.role,
        qq: user.qq,
        phone: user.phone,
        status: user.status,
        must_change_password: user.must_change_password,
        created_at: user.created_at,
        last_login_at: user.last_login_at,
    }
}

impl From<User> for UserView {
    fn from(user: User) -> (v: UserView) {
        UserView {
            id: user.id,
            student_id: user.student_id,
            role: user.role,
            qq: user.qq,
            phone: user.phone,
            status: user.status,
            must_change_password: user.must_change_password,
            created_at: user.created_at,
            last_login_at: user.last_login_at,
        }
    }
}

impl vstd::std_specs::convert::FromSpecImpl<User> for UserView {
    open spec fn obeys_from_spec() -> bool {
        true
    }

    open spec fn from_spec(user: User) -> UserView {
        user_view_of(user)
    }
}

impl UserView {
    /// The view of a borrowed user: every field but the password hash, copied.
    pub fn of_user(user: &User) -> (v: UserView)
        ensures
            v == user_view_of(*user),
    {
        UserView {
            id: user.id,
            student_id: user.student_id.clone(),
            role: user.role.clone(),
            qq: user.qq.clone(),
            phone: user.phone.clone(),
            status: user.status.clone(),
            must_change_password: user.must_change_password,
            created_at: user.created_at.clone(),
            last_login_at: user.last_login_at.clone(),
        }
    }
}

/// An uploaded file waiting to be submitted for printing.
#[derive(Debug, Clone)]
pub struct TempUpload {
    pub id: i64,
    pub temp_id: String,
    pub user_id: i64,
    pub original_name: String,
    pub stored_path: String,
    pub preview_path: String,
    pub page_count: i64,
    pub created_at: String,
}

/// A print task.
#[derive(Debug, Clone)]
pub struct PrintTask {
    pub id: i64,
    pub user_id: i64,
    pub file_name: String,
    pub stored_path: String,
    pub preview_path: Option<String>,
    pub page_count: i64,
    pub odd_even: String,
    pub status: String,
    pub submitted_at: String,
    pub completed_at: Option<String>,
    pub cancelled_by: Option<String>,
    pub review_reason: Option<String>,
    pub approved_over_quota: bool,
    pub windows_job_id: Option<i64>,
    pub windows_job_name: Option<String>,
    pub printer_submitted_at: Option<String>,
    pub job_seen_at: Option<String>,
    pub status_detail: Option<String>,
}

/// Why a request to cancel a task is refused.
pub enum CancelRefusal {
    /// The task belongs to another user and the actor is no administrator.
    NotOwner,
    /// The task is in a status from which it cannot be cancelled safely.
    NotCancellable,
}

/// Who cancels a task that `actor` asks to cancel: `admin` or `user`; or why
/// the request is refused. A user may cancel only their own tasks; a task
/// can be cancelled while it is queued or awaiting review, and an
/// administrator may also cancel one whose outcome is uncertain.
pub open spec fn cancellation_spec(actor: User, task_owner: i64, task_status: Seq<char>) -> Result<Seq<char>, CancelRefusal> {
    if !user_is_admin(actor) && task_owner != actor.id {
        Err(CancelRefusal::NotOwner)
    } else if task_status != "queued"@ && task_status != "pending_review"@
        && !(user_is_admin(actor) && task_status == "uncertain"@) {
        Err(CancelRefusal::NotCancellable)
    } else if user_is_admin(actor) {
        Ok("admin"@)
    } else {
        Ok("user"@)
    }
}

/// Decides whether `actor` may cancel a task owned by `task_owner` in status
/// `task_status`, and under which name (`admin` or `user`) it is cancelled.
pub fn cancellation_actor(actor: &User, task_owner: i64, task_status: &str) -> (r: Result<&'static str, AppError>)
    ensures
        match cancellation_spec(*actor, task_owner, task_status@) {
            Ok(who) => r matches Ok(w) && w@ == who,
            Err(CancelRefusal::NotOwner) => r matches Err(AppError::Forbidden),
            Err(CancelRefusal::NotCancellable) => r is Err && is_conflict(r->Err_0, "该任务当前不能安全取消"@),
        },
{
    let admin = actor.is_admin();
    if !admin && task_owner != actor.id {
        return Err(AppError::Forbidden);
    }
    if !same_chars(task_status, "queued") && !same_chars(task_status, "pending_review")
        && !(admin && same_chars(task_status, "uncertain")) {
        return Err(crate::error::conflict("该任务当前不能安全取消"));
    }
    if admin {
        Ok("admin")
    } else {
        Ok("user")
    }
}

} // verus!
