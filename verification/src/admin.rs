//! The administrator's requests: managing users, reviewing and cancelling
//! tasks, the statistics export, the settings that may be changed and the
//! transfer of the administrator role.
use vstd::prelude::*;

use crate::error::{is_bad_request, is_conflict, is_not_found, AppError};
use crate::history::{page_number, page_size};
use crate::models::{same_chars, User};
use crate::number::{dec_int, parse_i64, parse_i64_spec};
use crate::printer::PrinterState;
use crate::text::{chars_of, owned, replace_all, replace_chars, string_of, trim, trim_str};

verus! {

/// A request to create a user.
#[derive(Debug, Clone)]
pub struct CreateUserRequest {
    pub student_id: String,
}

/// One page of the user list.
#[derive(Debug, Clone)]
pub struct UsersResponse {
    pub items: Vec<AdminUserView>,
    pub page: i64,
    pub per_page: i64,
    pub total: i64,
}

/// A user as the administrator sees them, with their printing totals.
#[derive(Debug, Clone)]
pub struct AdminUserView {
    pub id: i64,
    pub student_id: String,
    pub role: String,
    pub qq: Option<String>,
    pub phone: Option<String>,
    pub status: String,
    pub must_change_password: bool,
    pub created_at: String,
    pub last_login_at: Option<String>,
    pub total_pages: i64,
    pub total_tasks: i64,
}

/// The parameters of the user list.
#[derive(Debug, Clone)]
pub struct UsersQuery {
    pub page: Option<i64>,
    pub per_page: Option<i64>,
    pub q: Option<String>,
    pub role: Option<String>,
    pub status: Option<String>,
}

/// The outcome of importing users: the student ids created and those that
/// already existed.
#[derive(Debug, Clone)]
pub struct ImportResponse {
    pub created: Vec<String>,
    pub skipped: Vec<String>,
}

/// A request to reset a user's password to their student id.
#[derive(Debug, Clone)]
pub struct ResetPasswordRequest {}

/// A request to ban or unban a user.
#[derive(Debug, Clone)]
pub struct UpdateUserStatusRequest {
    pub status: String,
}

/// A request to cancel a task, with an optional reason.
#[derive(Debug, Clone)]
pub struct CancelRequest {
    pub reason: Option<String>,
}

/// A request to reject a task under review, with an optional reason.
#[derive(Debug, Clone)]
pub struct RejectRequest {
    pub reason: Option<String>,
}

/// A user's printing totals.
#[derive(Debug, Clone)]
pub struct StatRow {
    pub student_id: String,
    pub total_pages: i64,
    pub total_tasks: i64,
}

/// The settings and printer state shown to the administrator.
#[derive(Debug, Clone)]
pub struct ConfigResponse {
    pub daily_limit: String,
    pub queue_paused: bool,
    pub printer: PrinterState,
}

/// A request to change a setting.
#[derive(Debug, Clone)]
pub struct UpdateConfigRequest {
    pub key: String,
    pub value: String,
}

/// A request to hand the administrator role to another user.
#[derive(Debug, Clone)]
pub struct TransferRequest {
    pub new_admin_student_id: String,
}

/// The message for a required field that is empty.
pub open spec fn msg_empty_field(field: Seq<char>) -> Seq<char> {
    field + " cannot be empty"@
}

/// A required text field, trimmed; empty is refused with `<field> cannot be
/// empty`.
pub fn required_field(value: &str, field: &str) -> (r: Result<String, AppError>)
    ensures
        match r {
            Ok(v) => v@ == trim(value@) && v@.len() > 0,
            Err(e) => trim(value@).len() == 0 && is_bad_request(e, msg_empty_field(field@)),
        },
{
    let v = trim_str(value);
    if v.as_str().is_empty() {
        let mut m = owned(field);
        m.append(" cannot be empty");
        Err(AppError::BadRequest(m))
    } else {
        Ok(v)
    }
}

/// Refuses to create a user whose student id is already taken.
pub fn check_new_user(existing: i64) -> (r: Result<(), AppError>)
    ensures
        r is Ok <==> existing <= 0,
        r matches Err(e) ==> is_conflict(e, "user already exists"@),
{
    if existing > 0 {
        Err(crate::error::conflict("user already exists"))
    } else {
        Ok(())
    }
}

/// The text that a search for `q` matches: `%q%` for the trimmed `q`, or
/// nothing when it is absent or blank.
pub open spec fn search_pattern_spec(q: Option<Seq<char>>) -> Option<Seq<char>> {
    match q {
        Some(v) => if trim(v).len() > 0 {
            Some("%"@ + trim(v) + "%"@)
        } else {
            None
        },
        None => None,
    }
}

/// The `LIKE` pattern that searches the student ids.
pub fn search_pattern(q: &Option<String>) -> (r: Option<String>)
    ensures
        crate::config::opt_view(r) == search_pattern_spec(crate::config::opt_view(*q)),
{
    match q {
        Some(v) => {
            let t = trim_str(v.as_str());
            if t.as_str().is_empty() {
                None
            } else {
                Some(crate::text::concat3("%", t.as_str(), "%"))
            }
        },
        None => None,
    }
}

/// Whether `v` is one of the texts of `allowed`.
pub open spec fn one_of(v: Seq<char>, allowed: Seq<&str>) -> bool {
    exists|k: int| 0 <= k < allowed.len() && v == #[trigger] allowed[k]@
}

/// The message for a filter value that is not allowed.
pub open spec fn msg_bad_filter(label: Seq<char>) -> Seq<char> {
    "无效的"@ + label + "筛选条件"@
}

/// A list filter: the trimmed value, or none when it is absent or blank; a
/// value outside `allowed` is refused.
pub fn validated_filter(value: &Option<String>, allowed: &[&str], label: &str) -> (r: Result<Option<String>, AppError>)
    ensures
        match *value {
            Some(v) => if trim(v@).len() == 0 {
                r matches Ok(None)
            } else if one_of(trim(v@), allowed@) {
                r matches Ok(Some(s)) && s@ == trim(v@)
            } else {
                r is Err && is_bad_request(r->Err_0, msg_bad_filter(label@))
            },
            None => r matches Ok(None),
        },
{
    match value {
        None => Ok(None),
        Some(v) => {
            let t = trim_str(v.as_str());
            if t.as_str().is_empty() {
                return Ok(None);
            }
            let chars = chars_of(t.as_str());
            if crate::converter::is_one_of(chars.as_slice(), allowed) {
                Ok(Some(t))
            } else {
                let m = crate::text::concat3("无效的", label, "筛选条件");
                Err(AppError::BadRequest(m))
            }
        },
    }
}

/// Whether a CSV cell must be quoted: it holds a comma, a quote or a line
/// break.
pub open spec fn needs_quoting(s: Seq<char>) -> bool {
    exists|i: int| 0 <= i < s.len() && (s[i] == ',' || s[i] == '"' || s[i] == '\n' || s[i] == '\r')
}

/// A value written as one CSV cell: quoted, with quotes doubled, when it
/// must be.
pub open spec fn csv_cell_spec(s: Seq<char>) -> Seq<char> {
    if needs_quoting(s) {
        "\""@ + replace_all(s, "\""@, "\"\""@) + "\""@
    } else {
        s
    }
}

/// Writes a value as one CSV cell.
pub fn csv_cell(value: &str) -> (r: String)
    ensures
        r@ == csv_cell_spec(value@),
{
    let chars = chars_of(value);
    let mut quote = false;
    let mut i: usize = 0;
    while i < chars.len()
        invariant
            i <= chars@.len(),
            chars@ == value@,
            quote == exists|j: int| 0 <= j < i && (chars@[j] == ',' || chars@[j] == '"' || chars@[j] == '\n' || chars@[j] == '\r'),
        decreases chars@.len() - i,
    {
        let c = chars[i];
        if c == ',' || c == '"' || c == '\n' || c == '\r' {
            quote = true;
        }
        i = i + 1;
    }
    if quote {
        proof {
            reveal_strlit("\"");
        }
        let pat = chars_of("\"");
        let rep = chars_of("\"\"");
        let escaped = replace_chars(chars.as_slice(), pat.as_slice(), rep.as_slice());
        let inner = string_of(escaped.as_slice());
        crate::text::concat3("\"", inner.as_str(), "\"")
    } else {
        owned(value)
    }
}

/// One line of the statistics export.
pub open spec fn stat_line(row: StatRow) -> Seq<char> {
    csv_cell_spec(row.student_id@) + ","@ + dec_int(row.total_pages as int) + ","@ + dec_int(row.total_tasks as int) + "\n"@
}

/// The lines of the statistics export for the given rows, in order.
pub open spec fn stat_lines(rows: Seq<StatRow>) -> Seq<char>
    decreases rows.len(),
{
    if rows.len() == 0 {
        Seq::empty()
    } else {
        stat_lines(rows.drop_last()) + stat_line(rows.last())
    }
}

/// The header of the statistics export.
pub open spec fn stats_header() -> Seq<char> {
    "student_id,total_pages,total_tasks\n"@
}

/// The statistics export as CSV: a header and one line per row.
pub fn stats_csv(rows: &[StatRow]) -> (csv: String)
    ensures
        csv@ == stats_header() + stat_lines(rows@),
{
    let mut csv = owned("student_id,total_pages,total_tasks\n");
    let mut i: usize = 0;
    while i < rows.len()
        invariant
            i <= rows@.len(),
            csv@ == stats_header() + stat_lines(rows@.take(i as int)),
        decreases rows@.len() - i,
    {
        let row = &rows[i];
        let cell = csv_cell(row.student_id.as_str());
        let pages = crate::number::dec_string_i64(row.total_pages);
        let tasks = crate::number::dec_string_i64(row.total_tasks);
        csv.append(cell.as_str());
        csv.append(",");
        csv.append(pages.as_str());
        csv.append(",");
        csv.append(tasks.as_str());
        csv.append("\n");
        assert(rows@.take(i + 1).drop_last() =~= rows@.take(i as int));
        assert(csv@ =~= stats_header() + stat_lines(rows@.take(i + 1)));
        i = i + 1;
    }
    assert(rows@.take(rows@.len() as int) =~= rows@);
    csv
}

/// What a change of a setting writes: the key and the value.
pub open spec fn config_update_spec(key: Seq<char>, value: Seq<char>) -> Result<(Seq<char>, Seq<char>), Seq<char>> {
    if key == "daily_limit"@ {
        match parse_i64_spec(value) {
            Some(n) => Ok(("daily_limit"@, dec_int(if n < 0 { 0 } else { n as int }))),
            None => Err("daily_limit must be a number"@),
        }
    } else {
        Err("unsupported config key"@)
    }
}

/// A daily limit that the administrator sets is the one the quota then
/// uses: the value stored for a number reads back as that number, or as zero
/// when it was negative.
pub proof fn law_daily_limit_round_trips(value: Seq<char>)
    requires
        config_update_spec("daily_limit"@, value) is Ok,
    ensures
        ({
            let n = parse_i64_spec(value)->Some_0;
            let stored = config_update_spec("daily_limit"@, value)->Ok_0.1;
            crate::quota::daily_limit_spec(stored) == if n < 0 { 0 } else { n }
        }),
{
    let n = parse_i64_spec(value)->Some_0;
    let m: int = if n < 0 { 0 } else { n as int };
    crate::number::lemma_parse_i64_dec(m);
    assert(dec_int(m) == crate::number::dec(m as nat));
}

/// Checks a change of a setting and gives the key and value to store. Only
/// the daily limit may be changed; it must be a number, and a negative one
/// is stored as zero.
pub fn config_update(request: &UpdateConfigRequest) -> (r: Result<(String, String), AppError>)
    ensures
        match config_update_spec(request.key@, request.value@) {
            Ok((k, v)) => r matches Ok((rk, rv)) && rk@ == k && rv@ == v,
            Err(m) => r is Err && is_bad_request(r->Err_0, m),
        },
{
    if !same_chars(request.key.as_str(), "daily_limit") {
        return Err(crate::error::bad_request("unsupported config key"));
    }
    let chars = chars_of(request.value.as_str());
    match parse_i64(chars.as_slice()) {
        Some(n) => {
            let stored: i64 = if n < 0 { 0 } else { n };
            Ok((owned("daily_limit"), crate::number::dec_string_i64(stored)))
        },
        None => Err(crate::error::bad_request("daily_limit must be a number")),
    }
}

/// Refuses an administrator's action on their own account.
pub fn check_not_self(actor: &User, target_id: i64, message: &str) -> (r: Result<(), AppError>)
    ensures
        r is Ok <==> actor.id != target_id,
        r matches Err(e) ==> is_conflict(e, message@),
{
    if actor.id == target_id {
        Err(crate::error::conflict(message))
    } else {
        Ok(())
    }
}

/// The message for a printing task whose spooler job is unknown when its
/// owner is deleted.
pub open spec fn msg_unknown_job_of(task_id: i64) -> Seq<char> {
    "任务 "@ + dec_int(task_id as int) + " 尚未记录 Windows 作业 ID，无法安全删除用户"@
}

/// The spooler job to cancel for a printing task of a user being deleted; a
/// task without one stops the deletion.
pub fn job_to_cancel_for_deletion(task_id: i64, job_id: Option<i64>) -> (r: Result<i64, AppError>)
    ensures
        match job_id {
            Some(j) => r == Ok::<i64, AppError>(j),
            None => r is Err && is_conflict(r->Err_0, msg_unknown_job_of(task_id)),
        },
{
    match job_id {
        Some(j) => Ok(j),
        None => {
            let id = crate::number::dec_string_i64(task_id);
            let m = crate::text::concat3("任务 ", id.as_str(), " 尚未记录 Windows 作业 ID，无法安全删除用户");
            Err(AppError::Conflict(m))
        },
    }
}

/// The spooler job to cancel for a printing task that the administrator
/// cancels; a task without one cannot be cancelled safely.
pub fn job_to_cancel(job_id: Option<i64>) -> (r: Result<i64, AppError>)
    ensures
        match job_id {
            Some(j) => r == Ok::<i64, AppError>(j),
            None => r is Err && is_conflict(r->Err_0, "该任务尚未记录系统作业 ID，无法安全取消；请先检查系统打印队列"@),
        },
{
    match job_id {
        Some(j) => Ok(j),
        None => Err(crate::error::conflict("该任务尚未记录系统作业 ID，无法安全取消；请先检查系统打印队列")),
    }
}

/// Whether a requested account status is one that may be set.
pub open spec fn settable_status(s: Seq<char>) -> bool {
    s == "banned"@ || s == "normal"@
}

/// Checks a request to change a user's status: not on one's own account,
/// and only to `banned` or `normal`.
pub fn check_status_change(actor: &User, target_id: i64, requested: &str) -> (r: Result<(), AppError>)
    ensures
        actor.id == target_id ==> r is Err && is_conflict(r->Err_0, "不能封禁或解封当前管理员账号"@),
        actor.id != target_id && !settable_status(requested@) ==> r is Err
            && is_bad_request(r->Err_0, "status must be banned or normal"@),
        actor.id != target_id && settable_status(requested@) ==> r is Ok,
{
    if actor.id == target_id {
        return Err(crate::error::conflict("不能封禁或解封当前管理员账号"));
    }
    if !same_chars(requested, "banned") && !same_chars(requested, "normal") {
        return Err(crate::error::bad_request("status must be banned or normal"));
    }
    Ok(())
}

/// The status a user gets: banned when asked; when unbanned, normal if they
/// have ever logged in and unused otherwise.
pub fn next_user_status(requested: &str, last_login_at: &Option<String>) -> (s: &'static str)
    ensures
        s@ == (if requested@ == "banned"@ {
            "banned"@
        } else if last_login_at is None {
            "unused"@
        } else {
            "normal"@
        }),
{
    if same_chars(requested, "banned") {
        "banned"
    } else if last_login_at.is_none() {
        "unused"
    } else {
        "normal"
    }
}

/// Whether a change to `status` ends the user's sessions: a ban does.
pub fn revokes_sessions(status: &str) -> (b: bool)
    ensures
        b == (status@ == "banned"@),
{
    same_chars(status, "banned")
}

/// A review decision that found no task awaiting review is answered as not
/// found.
pub fn check_review_applied(rows_affected: u64) -> (r: Result<(), AppError>)
    ensures
        r is Ok <==> rows_affected > 0,
        r matches Err(e) ==> is_not_found(e, "pending review task not found"@),
{
    if rows_affected == 0 {
        Err(crate::error::not_found("pending review task not found"))
    } else {
        Ok(())
    }
}

/// The user to whom the administrator role goes: they must exist, be
/// someone else and not be banned. Gives their id.
pub fn check_transfer(actor: &User, found: &Option<User>) -> (r: Result<i64, AppError>)
    ensures
        match *found {
            None => r is Err && is_not_found(r->Err_0, "接任管理员账号不存在，请先添加用户"@),
            Some(u) => if u.id == actor.id {
                r is Err && is_conflict(r->Err_0, "请选择其他账号接任管理员"@)
            } else if u.status@ == "banned"@ {
                r is Err && is_conflict(r->Err_0, "不能将管理员转让给已封禁账号"@)
            } else {
                r == Ok::<i64, AppError>(u.id)
            },
        },
{
    match found {
        None => Err(crate::error::not_found("接任管理员账号不存在，请先添加用户")),
        Some(u) => {
            if u.id == actor.id {
                Err(crate::error::conflict("请选择其他账号接任管理员"))
            } else if same_chars(u.status.as_str(), "banned") {
                Err(crate::error::conflict("不能将管理员转让给已封禁账号"))
            } else {
                Ok(u.id)
            }
        },
    }
}

/// Refuses an import file larger than the configured limit.
pub fn check_import_size(len: u64, max_import_bytes: u64) -> (r: Result<(), AppError>)
    ensures
        r is Ok <==> len <= max_import_bytes,
        r matches Err(e) ==> is_bad_request(e, "用户导入文件过大"@),
{
    if len > max_import_bytes {
        Err(crate::error::bad_request("用户导入文件过大"))
    } else {
        Ok(())
    }
}

/// The name under which an import file is kept while it is read: a random
/// identifier, `_` and the safe form of the uploaded name.
pub fn import_file_name(file_name: &str) -> (r: String)
    ensures
        exists|id: Seq<char>| crate::paths::is_uuid_text(id) && r@ == id + "_"@ + crate::paths::sanitize_spec(file_name@),
{
    let id = crate::paths::new_uuid();
    let safe = crate::paths::sanitize_filename(file_name);
    crate::text::concat3(id.as_str(), "_", safe.as_str())
}

/// The student ids at the positions where `inserted` is (or is not) set, in
/// order.
pub open spec fn picked(ids: Seq<Seq<char>>, inserted: Seq<bool>, want: bool) -> Seq<Seq<char>>
    decreases ids.len(),
{
    if ids.len() == 0 {
        Seq::empty()
    } else {
        let rest = picked(ids.drop_last(), inserted.drop_last(), want);
        if inserted.last() == want {
            rest.push(ids.last())
        } else {
            rest
        }
    }
}

/// Sorts imported student ids into those created and those skipped, by
/// whether inserting each one added a row.
pub fn import_outcome(ids: Vec<String>, inserted: &[bool]) -> (r: ImportResponse)
    requires
        ids@.len() == inserted@.len(),
    ensures
        crate::import::views(r.created@) == picked(crate::import::views(ids@), inserted@, true),
        crate::import::views(r.skipped@) == picked(crate::import::views(ids@), inserted@, false),
{
    let mut created: Vec<String> = Vec::new();
    let mut skipped: Vec<String> = Vec::new();
    let mut i: usize = 0;
    while i < ids.len()
        invariant
            i <= ids@.len(),
            ids@.len() == inserted@.len(),
            crate::import::views(created@) == picked(crate::import::views(ids@.take(i as int)), inserted@.take(i as int), true),
            crate::import::views(skipped@) == picked(crate::import::views(ids@.take(i as int)), inserted@.take(i as int), false),
        decreases ids@.len() - i,
    {
        let ghost before_c = created@;
        let ghost before_s = skipped@;
        assert(crate::import::views(ids@.take(i + 1)).drop_last() =~= crate::import::views(ids@.take(i as int)));
        assert(inserted@.take(i + 1).drop_last() =~= inserted@.take(i as int));
        assert(crate::import::views(ids@.take(i + 1)).last() == ids@[i as int]@);
        assert(inserted@.take(i + 1).last() == inserted@[i as int]);
        if inserted[i] {
            created.push(ids[i].clone());
            assert(crate::import::views(created@) =~= crate::import::views(before_c).push(ids@[i as int]@));
        } else {
            skipped.push(ids[i].clone());
            assert(crate::import::views(skipped@) =~= crate::import::views(before_s).push(ids@[i as int]@));
        }
        i = i + 1;
    }
    assert(ids@.take(ids@.len() as int) =~= ids@);
    assert(inserted@.take(inserted@.len() as int) =~= inserted@);
    ImportResponse { created, skipped }
}

/// Marks the printer's toner warning as seen by the administrator.
pub fn acknowledge_toner(printer: &mut PrinterState)
    ensures
        final(printer).toner_alert_acknowledged,
        final(printer).mode == old(printer).mode,
        final(printer).queue_name == old(printer).queue_name,
        final(printer).available == old(printer).available,
        final(printer).status == old(printer).status,
        final(printer).blocked == old(printer).blocked,
        final(printer).blocking_reasons == old(printer).blocking_reasons,
        final(printer).warnings == old(printer).warnings,
        final(printer).jobs == old(printer).jobs,
        final(printer).checked_at == old(printer).checked_at,
        final(printer).error == old(printer).error,
{
    printer.toner_alert_acknowledged = true;
}

/// The window of the user list: 50 users a page unless asked otherwise, at
/// most 200.
pub fn users_window(query: &UsersQuery) -> (r: (i64, i64, i64))
    requires
        (page_number(query.page) - 1) * page_size(query.per_page, 50, 200) <= i64::MAX,
    ensures
        r.0 == page_number(query.page),
        r.1 == page_size(query.per_page, 50, 200),
        r.2 == (page_number(query.page) - 1) * page_size(query.per_page, 50, 200),
{
    crate::history::page_window(query.page, query.per_page, 50, 200)
}

} // verus!
