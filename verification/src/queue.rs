//! The print queue as users see it: whose details each user may see.
use vstd::prelude::*;

use crate::models::{user_is_admin, User};
use crate::printer::PrinterState;

verus! {

/// A task in the queue, with its owner's student id.
#[derive(Debug, Clone)]
pub struct QueueRow {
    pub id: i64,
    pub user_id: i64,
    pub student_id: String,
    pub file_name: String,
    pub page_count: i64,
    pub odd_even: String,
    pub status: String,
    pub submitted_at: String,
    pub review_reason: Option<String>,
    pub status_detail: Option<String>,
    pub windows_job_id: Option<i64>,
}

/// A task in the queue as shown to one user.
#[derive(Debug, Clone)]
pub struct QueueTaskView {
    pub id: i64,
    pub status: String,
    pub page_count: i64,
    pub odd_even: String,
    pub submitted_at: String,
    pub owner_name: Option<String>,
    pub mine: bool,
    pub file_name_visible: bool,
    pub file_name: Option<String>,
    pub review_reason: Option<String>,
    pub status_detail: Option<String>,
    pub windows_job_id: Option<i64>,
}

/// The queue, whether it is paused, and the printer's state.
#[derive(Debug, Clone)]
pub struct QueueResponse {
    pub tasks: Vec<QueueTaskView>,
    pub paused: bool,
    pub printer: PrinterState,
}

/// Whether `user` may see the details of a task owned by `owner`: when
/// forced, when they are an administrator, or when it is theirs.
pub open spec fn details_visible(owner: i64, user: User, force_visible: bool) -> bool {
    force_visible || user_is_admin(user) || owner == user.id
}

/// `value` when `visible`, and nothing otherwise.
pub open spec fn shown<T>(visible: bool, value: Option<T>) -> Option<T> {
    if visible {
        value
    } else {
        None
    }
}

/// How a queue row is shown to `user`: the status, page count, page
/// selection and submission time always; the owner, file name, review
/// reason, status detail and spooler job only when the details are visible.
pub open spec fn view_of(row: QueueRow, user: User, force_visible: bool) -> QueueTaskView {
    let visible = details_visible(row.user_id, user, force_visible);
    QueueTaskView {
        id: row.id,
        status: row.status,
        page_count: row.page_count,
        odd_even: row.odd_even,
        submitted_at: row.submitted_at,
        owner_name: shown(visible, Some(row.student_id)),
        mine: row.user_id == user.id,
        file_name_visible: visible,
        file_name: shown(visible, Some(row.file_name)),
        review_reason: shown(visible, row.review_reason),
        status_detail: shown(visible, row.status_detail),
        windows_job_id: shown(visible, row.windows_job_id),
    }
}

/// Shows a queue row to `user`, hiding another user's details from anyone
/// but an administrator unless `force_visible` is set.
pub fn to_view(row: QueueRow, user: &User, force_visible: bool) -> (v: QueueTaskView)
    ensures
        v == view_of(row, *user, force_visible),
        (force_visible || user.role@ == "admin"@ || row.user_id == user.id) ==> v.file_name == Some(row.file_name)
            && v.file_name_visible && v.owner_name == Some(row.student_id),
        !(force_visible || user.role@ == "admin"@ || row.user_id == user.id) ==> v.file_name is None
            && !v.file_name_visible && v.owner_name is None && v.review_reason is None
            && v.status_detail is None && v.windows_job_id is None,
{
    let mine = row.user_id == user.id;
    let visible = force_visible || user.is_admin() || mine;
    QueueTaskView {
        id: row.id,
        status: row.status,
        page_count: row.page_count,
        odd_even: row.odd_even,
        submitted_at: row.submitted_at,
        owner_name: if visible { Some(row.student_id) } else { None },
        mine,
        file_name_visible: visible,
        file_name: if visible { Some(row.file_name) } else { None },
        review_reason: if visible { row.review_reason } else { None },
        status_detail: if visible { row.status_detail } else { None },
        windows_job_id: if visible { row.windows_job_id } else { None },
    }
}

/// Shows every row of the queue to `user`, in order.
pub fn to_views(rows: Vec<QueueRow>, user: &User, force_visible: bool) -> (views: Vec<QueueTaskView>)
    ensures
        views@.len() == rows@.len(),
        forall|i: int| 0 <= i < rows@.len() ==> views@[i] == view_of(#[trigger] rows@[i], *user, force_visible),
{
    let mut views: Vec<QueueTaskView> = Vec::new();
    let mut rows = rows;
    let ghost all = rows@;
    while rows.len() > 0
        invariant
            rows@ == all.skip(views@.len() as int),
            views@.len() <= all.len(),
            forall|i: int| 0 <= i < views@.len() ==> views@[i] == view_of(#[trigger] all[i], *user, force_visible),
        decreases rows@.len(),
    {
        let row = rows.remove(0);
        assert(row == all[views@.len() as int]);
        assert(rows@ =~= all.skip(views@.len() as int + 1));
        views.push(to_view(row, user, force_visible));
    }
    views
}

/// Who sees a task's details. The owner, the file name, its visibility flag,
/// the review reason, the status detail and the spooler job are shown under
/// one and the same condition: the view is forced, the viewer holds the
/// administrator role, or the task is the viewer's own. Otherwise every one of
/// them is hidden, while the status, page count, page selection and
/// submission time are always shown.
pub proof fn law_queue_details_visibility(row: QueueRow, user: User, force_visible: bool)
    ensures
        ({
            let v = view_of(row, user, force_visible);
            let visible = force_visible || user.role@ == "admin"@ || row.user_id == user.id;
            &&& v.file_name_visible == visible
            &&& v.file_name == (if visible { Some(row.file_name) } else { None })
            &&& v.owner_name == (if visible { Some(row.student_id) } else { None })
            &&& v.review_reason == (if visible { row.review_reason } else { None })
            &&& v.status_detail == (if visible { row.status_detail } else { None })
            &&& v.windows_job_id == (if visible { row.windows_job_id } else { None })
            &&& v.mine == (row.user_id == user.id)
            &&& v.id == row.id && v.status == row.status && v.page_count == row.page_count
            &&& v.odd_even == row.odd_even && v.submitted_at == row.submitted_at
        }),
        user.role@ == "admin"@ ==> view_of(row, user, force_visible).file_name == Some(row.file_name)
            && view_of(row, user, force_visible).file_name_visible,
{
}

} // verus!
