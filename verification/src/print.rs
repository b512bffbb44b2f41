//! Uploading files and submitting them for printing: the limits an upload
//! must respect, who may see a file, and how a submission is checked and
//! turned into tasks.
use vstd::prelude::*;

use crate::config::LimitsConfig;
use crate::error::{is_bad_request, AppError};
use crate::models::{same_chars, user_is_admin, TempUpload, User};
use crate::number::dec_int;
use crate::pages::{normalize_spec, selected_count_spec};
use crate::text::{owned, trim};

verus! {

/// An uploaded file as listed to its owner.
#[derive(Debug, Clone)]
pub struct UploadItem {
    pub temp_id: String,
    pub original_name: String,
    pub page_count: i64,
    pub preview_url: String,
}

/// A list of uploaded files.
#[derive(Debug, Clone)]
pub struct UploadResponse {
    pub files: Vec<UploadItem>,
}

/// A submission: the uploaded files to print.
#[derive(Debug, Clone)]
pub struct SubmitRequest {
    pub files: Vec<SubmitFile>,
}

/// One file of a submission and the pages of it to print: `all`, `odd`,
/// `even`, or `custom` with a page list.
#[derive(Debug, Clone)]
pub struct SubmitFile {
    pub temp_id: String,
    pub odd_even: String,
    pub page_range: Option<String>,
}

/// A task created by a submission.
#[derive(Debug, Clone)]
pub struct SubmittedTask {
    pub id: i64,
    pub file_name: String,
    pub page_count: i64,
    pub odd_even: String,
    pub status: String,
    pub over_limit: bool,
}

/// The answer to a submission: the tasks created and the user's quota.
#[derive(Debug, Clone)]
pub struct SubmitResponse {
    pub tasks: Vec<SubmittedTask>,
    pub used_today: i64,
    pub limit: i64,
}

/// The page selection of a submitted file that names none: all pages.
pub fn default_odd_even() -> (s: String)
    ensures
        s@ == "all"@,
{
    owned("all")
}

/// Where the preview of an upload is fetched.
pub open spec fn preview_url_spec(temp_id: Seq<char>) -> Seq<char> {
    "/api/print/preview/"@ + temp_id
}

/// Where the preview of an upload is fetched.
pub fn preview_url(temp_id: &str) -> (u: String)
    ensures
        u@ == preview_url_spec(temp_id@),
{
    let mut u = owned("/api/print/preview/");
    u.append(temp_id);
    u
}

/// An upload as listed to its owner.
pub fn upload_item(upload: TempUpload) -> (item: UploadItem)
    ensures
        item.temp_id == upload.temp_id,
        item.original_name == upload.original_name,
        item.page_count == upload.page_count,
        item.preview_url@ == preview_url_spec(upload.temp_id@),
{
    let url = preview_url(upload.temp_id.as_str());
    UploadItem { temp_id: upload.temp_id, original_name: upload.original_name, page_count: upload.page_count, preview_url: url }
}

/// Refuses a file beyond the number allowed in one upload request.
pub fn check_upload_count(received: usize, max_files: usize) -> (r: Result<(), AppError>)
    ensures
        r is Ok <==> received < max_files,
        r matches Err(e) ==> is_bad_request(e, "单次上传文件数量超出限制"@),
{
    if received >= max_files {
        Err(crate::error::bad_request("单次上传文件数量超出限制"))
    } else {
        Ok(())
    }
}

/// `a + b`, or the largest `u64` when that does not fit.
pub open spec fn sat_add_u64(a: u64, b: u64) -> int {
    if a + b > u64::MAX {
        u64::MAX as int
    } else {
        a + b
    }
}

/// Refuses an upload that has grown past the size allowed for one file, or
/// past the temporary space left to its owner, who already holds
/// `user_bytes`.
pub fn check_upload_size(byte_size: u64, user_bytes: u64, limits: &LimitsConfig) -> (r: Result<(), AppError>)
    ensures
        r is Ok <==> (byte_size <= limits.max_upload_bytes && sat_add_u64(user_bytes, byte_size) <= limits.max_temp_bytes_per_user),
        r matches Err(e) ==> is_bad_request(e, "文件过大或当前用户的临时文件空间已满"@),
{
    let total: u64 = if user_bytes > u64::MAX - byte_size { u64::MAX } else { user_bytes + byte_size };
    if byte_size > limits.max_upload_bytes || total > limits.max_temp_bytes_per_user {
        Err(crate::error::bad_request("文件过大或当前用户的临时文件空间已满"))
    } else {
        Ok(())
    }
}

/// The message for an upload that could not be converted to PDF.
pub open spec fn msg_conversion_failed(name: Seq<char>) -> Seq<char> {
    "无法转换文件“"@ + name + "”，请确认文件未损坏且 LibreOffice 支持该格式"@
}

/// The error given for an upload that could not be converted to PDF.
pub fn conversion_failed(original_name: &str) -> (e: AppError)
    ensures
        is_bad_request(e, msg_conversion_failed(original_name@)),
{
    let m = crate::text::concat3("无法转换文件“", original_name, "”，请确认文件未损坏且 LibreOffice 支持该格式");
    AppError::BadRequest(m)
}

/// The message for a file with more pages than allowed.
pub open spec fn msg_too_many_pages(max: i64) -> Seq<char> {
    "文件页数超过 "@ + dec_int(max as int) + " 页限制"@
}

/// Refuses a file with more pages than allowed.
pub fn check_page_limit(page_count: i64, max_pages: i64) -> (r: Result<(), AppError>)
    ensures
        r is Ok <==> page_count <= max_pages,
        r matches Err(e) ==> is_bad_request(e, msg_too_many_pages(max_pages)),
{
    if page_count > max_pages {
        let n = crate::number::dec_string_i64(max_pages);
        let m = crate::text::concat3("文件页数超过 ", n.as_str(), " 页限制");
        Err(AppError::BadRequest(m))
    } else {
        Ok(())
    }
}

/// Lets a user see a file or task owned by `owner`: their own, or any when
/// they are an administrator.
pub fn check_may_view(user: &User, owner: i64) -> (r: Result<(), AppError>)
    ensures
        r is Ok <==> (user_is_admin(*user) || owner == user.id),
        r matches Err(e) ==> e is Forbidden,
{
    if !user.is_admin() && owner != user.id {
        Err(AppError::Forbidden)
    } else {
        Ok(())
    }
}

/// Lets a user remove or submit only their own uploads.
pub fn check_owner(user: &User, owner: i64) -> (r: Result<(), AppError>)
    ensures
        r is Ok <==> owner == user.id,
        r matches Err(e) ==> e is Forbidden,
{
    if owner != user.id {
        Err(AppError::Forbidden)
    } else {
        Ok(())
    }
}

/// The `Content-Disposition` of a task's original file: a download under the
/// safe form of its name.
pub fn source_disposition(file_name: &str) -> (d: String)
    ensures
        d@ == "attachment; filename=\""@ + crate::paths::sanitize_spec(file_name@) + "\""@,
{
    let name = crate::paths::sanitize_filename(file_name);
    crate::text::concat3("attachment; filename=\"", name.as_str(), "\"")
}

/// The file name of the copy of a preview that a task prints: `task-`, a
/// random identifier and `.pdf`.
pub fn task_preview_file_name() -> (n: String)
    ensures
        exists|id: Seq<char>| crate::paths::is_uuid_text(id) && n@ == "task-"@ + id + ".pdf"@,
{
    let id = crate::paths::new_uuid();
    crate::text::concat3("task-", id.as_str(), ".pdf")
}

/// Whether a page selection names one of the four kinds.
pub open spec fn known_selection(s: Seq<char>) -> bool {
    s == "all"@ || s == "odd"@ || s == "even"@ || s == "custom"@
}

/// What is wrong with the file at position `i` of a submission, if anything:
/// an unknown page selection, a custom selection without pages, or a file
/// that an earlier entry already names.
pub open spec fn file_problem(files: Seq<SubmitFile>, i: int) -> Option<Seq<char>> {
    let f = files[i];
    if !known_selection(f.odd_even@) {
        Some("页码范围必须是全部页、奇数页、偶数页或自定义页码"@)
    } else if f.odd_even@ == "custom"@ && (match f.page_range {
        Some(r) => trim(r@).len() == 0,
        None => true,
    }) {
        Some("请输入要打印的自定义页码"@)
    } else if exists|j: int| 0 <= j < i && files[j].temp_id@ == f.temp_id@ {
        Some("提交内容中包含重复文件"@)
    } else {
        None
    }
}

/// The first problem among the first `n` files of a submission.
pub open spec fn first_problem(files: Seq<SubmitFile>, n: int) -> Option<Seq<char>>
    decreases n,
{
    if n <= 0 {
        None
    } else {
        match first_problem(files, n - 1) {
            Some(m) => Some(m),
            None => file_problem(files, n - 1),
        }
    }
}

/// Once a problem is found among the first `i` files, it stays the first
/// problem of any longer prefix.
proof fn lemma_first_problem_stays(files: Seq<SubmitFile>, i: int, n: int)
    requires
        0 <= i <= n,
        first_problem(files, i) is Some,
    ensures
        first_problem(files, n) == first_problem(files, i),
    decreases n - i,
{
    if i < n {
        lemma_first_problem_stays(files, i, n - 1);
    }
}

/// Whether a submission may go ahead: it names some file, and the first
/// problem found, if any, refuses it.
pub open spec fn submission_check(files: Seq<SubmitFile>) -> Result<(), Seq<char>> {
    if files.len() == 0 {
        Err("files cannot be empty"@)
    } else {
        match first_problem(files, files.len() as int) {
            Some(m) => Err(m),
            None => Ok(()),
        }
    }
}

/// Checks a submission before anything is read: it names at least one file,
/// each with a known page selection, a custom one with pages, and no file
/// twice.
pub fn check_submission(request: &SubmitRequest) -> (r: Result<(), AppError>)
    ensures
        match submission_check(request.files@) {
            Ok(()) => r is Ok,
            Err(m) => r is Err && is_bad_request(r->Err_0, m),
        },
{
    let files = &request.files;
    if files.len() == 0 {
        return Err(crate::error::bad_request("files cannot be empty"));
    }
    let mut i: usize = 0;
    while i < files.len()
        invariant
            i <= files@.len(),
            files@ == request.files@,
            files@.len() > 0,
            first_problem(files@, i as int) is None,
        decreases files@.len() - i,
    {
        let f = &files[i];
        let s = f.odd_even.as_str();
        if !same_chars(s, "all") && !same_chars(s, "odd") && !same_chars(s, "even") && !same_chars(s, "custom") {
            proof {
                assert(file_problem(files@, i as int) == Some("页码范围必须是全部页、奇数页、偶数页或自定义页码"@));
                lemma_first_problem_stays(files@, i + 1, files@.len() as int);
            }
            return Err(crate::error::bad_request("页码范围必须是全部页、奇数页、偶数页或自定义页码"));
        }
        if same_chars(s, "custom") {
            let blank = match &f.page_range {
                Some(range) => crate::text::trim_str(range.as_str()).as_str().is_empty(),
                None => true,
            };
            if blank {
                proof {
                    assert(file_problem(files@, i as int) == Some("请输入要打印的自定义页码"@));
                    lemma_first_problem_stays(files@, i + 1, files@.len() as int);
                }
                return Err(crate::error::bad_request("请输入要打印的自定义页码"));
            }
        }
        let mut j: usize = 0;
        while j < i
            invariant
                j <= i < files@.len(),
                files@ == request.files@,
                *f == files@[i as int],
                first_problem(files@, i as int) is None,
                known_selection(f.odd_even@),
                f.odd_even@ == "custom"@ ==> (match f.page_range {
                    Some(r) => trim(r@).len() > 0,
                    None => false,
                }),
                forall|k: int| 0 <= k < j ==> files@[k].temp_id@ != files@[i as int].temp_id@,
            decreases i - j,
        {
            if same_chars(files[j].temp_id.as_str(), f.temp_id.as_str()) {
                proof {
                    assert(file_problem(files@, i as int) == Some("提交内容中包含重复文件"@));
                    lemma_first_problem_stays(files@, i + 1, files@.len() as int);
                }
                return Err(crate::error::bad_request("提交内容中包含重复文件"));
            }
            j = j + 1;
        }
        i = i + 1;
    }
    Ok(())
}

/// The stored page selection of a submitted file and the number of pages it
/// prints, for an upload of `total` pages: a custom list in its normal form,
/// any other selection as given.
pub open spec fn prepared_spec(file: SubmitFile, total: i64) -> Result<(Seq<char>, i64), Seq<char>> {
    let sel = if file.odd_even@ == "custom"@ {
        normalize_spec(total, match file.page_range {
            Some(r) => r@,
            None => Seq::empty(),
        })
    } else {
        Ok(file.odd_even@)
    };
    match sel {
        Err(m) => Err(m),
        Ok(s) => match selected_count_spec(total, s) {
            Err(m) => Err(m),
            Ok(n) => Ok((s, n)),
        },
    }
}

/// Works out the page selection to store for a submitted file and the pages
/// it prints.
pub fn prepare_file(file: &SubmitFile, total: i64) -> (r: Result<(String, i64), AppError>)
    requires
        file.odd_even@ == "odd"@ ==> total < i64::MAX,
    ensures
        match prepared_spec(*file, total) {
            Ok((s, n)) => r matches Ok((rs, rn)) && rs@ == s && rn == n,
            Err(m) => r is Err && is_bad_request(r->Err_0, m),
        },
{
    let selection = if same_chars(file.odd_even.as_str(), "custom") {
        let range = match &file.page_range {
            Some(r) => r.as_str(),
            None => "",
        };
        proof {
            reveal_strlit("");
        }
        match crate::pages::normalize_custom_page_range(total, range) {
            Ok(s) => s,
            Err(e) => return Err(e),
        }
    } else {
        file.odd_even.clone()
    };
    match crate::pages::selected_page_count(total, selection.as_str()) {
        Ok(n) => Ok((selection, n)),
        Err(e) => Err(e),
    }
}

/// The pages of a submission: the sum of its files' pages, capped at the
/// largest `i64` at every step.
pub open spec fn submitted_pages_spec(counts: Seq<i64>) -> int
    decreases counts.len(),
{
    if counts.len() == 0 {
        0
    } else {
        let s = submitted_pages_spec(counts.drop_last()) + counts.last();
        if s > i64::MAX {
            i64::MAX as int
        } else if s < i64::MIN {
            i64::MIN as int
        } else {
            s
        }
    }
}

/// Adds up the pages of a submission's files, saturating.
pub fn submitted_pages(counts: &[i64]) -> (total: i64)
    ensures
        total == submitted_pages_spec(counts@),
{
    let mut total: i64 = 0;
    let mut i: usize = 0;
    while i < counts.len()
        invariant
            i <= counts@.len(),
            total == submitted_pages_spec(counts@.take(i as int)),
        decreases counts@.len() - i,
    {
        let c = counts[i];
        assert(counts@.take(i + 1).drop_last() =~= counts@.take(i as int));
        total = if c > 0 && total > i64::MAX - c {
            i64::MAX
        } else if c < 0 && total < i64::MIN - c {
            i64::MIN
        } else {
            total + c
        };
        i = i + 1;
    }
    assert(counts@.take(counts@.len() as int) =~= counts@);
    total
}

/// The status of the tasks of a submission: all await review when it needs
/// one, and all are queued otherwise.
pub fn submission_status(requires_review: bool) -> (s: &'static str)
    ensures
        s@ == (if requires_review { "pending_review"@ } else { "queued"@ }),
{
    if requires_review {
        "pending_review"
    } else {
        "queued"
    }
}

/// A task created by a submission, as reported back.
pub fn submitted_task(id: i64, file_name: String, page_count: i64, odd_even: String, requires_review: bool) -> (t: SubmittedTask)
    ensures
        t.id == id,
        t.file_name == file_name,
        t.page_count == page_count,
        t.odd_even == odd_even,
        t.status@ == (if requires_review { "pending_review"@ } else { "queued"@ }),
        t.over_limit == requires_review,
{
    SubmittedTask { id, file_name, page_count, odd_even, status: owned(submission_status(requires_review)), over_limit: requires_review }
}

/// The headers that let a preview be framed by the platform's own pages
/// only: `x-frame-options: SAMEORIGIN` and
/// `content-security-policy: frame-ancestors 'self'`.
pub fn preview_frame_headers() -> (h: Vec<(&'static str, &'static str)>)
    ensures
        h@.len() == 2,
        h@[0].0@ == "x-frame-options"@ && h@[0].1@ == "SAMEORIGIN"@,
        h@[1].0@ == "content-security-policy"@ && h@[1].1@ == "frame-ancestors 'self'"@,
{
    let mut h: Vec<(&'static str, &'static str)> = Vec::new();
    h.push(("x-frame-options", "SAMEORIGIN"));
    h.push(("content-security-policy", "frame-ancestors 'self'"));
    h
}

} // verus!
