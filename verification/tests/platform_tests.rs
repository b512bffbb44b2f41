use lopdf::{Dictionary, Document, Object, Stream};
use printing_platform::config::Config;
use printing_platform::error::{api_not_found, AppError};
use printing_platform::events::{pause_events, printer_error_events, task_status_events, QueueEvent};
use printing_platform::health::health_response;
use printing_platform::history::{history_window, PageQuery};
use printing_platform::models::{cancellation_actor, PrintTask, TempUpload, User, UserView};
use printing_platform::paths::{
    files_of_rows, parent_of, preview_dir, sanitize_filename, spool_copy_path, temporary_pdf_path, tmp_dir, upload_dir,
    upload_path, FileRow,
};
use printing_platform::pdf::{count_loaded_pages, count_pdf_pages, select_from_loaded, select_pdf_pages};
use printing_platform::print::{
    check_may_view, check_owner, check_page_limit, check_submission, check_upload_count, check_upload_size,
    conversion_failed, default_odd_even, prepare_file, preview_frame_headers, preview_url, source_disposition,
    submitted_pages, submitted_task, task_preview_file_name, upload_item, SubmitFile, SubmitRequest,
};
use printing_platform::queue::{to_view, to_views, QueueRow};
use printing_platform::queue_manager::{marked_printing, next_step, poll_interval_seconds, submit_outcome, QueueStep, SubmitOutcome};
use printing_platform::printer::SubmittedJob;
use printing_platform::settings::{daily_limit_initialization, paused_value, queue_paused_from, setting_or, DailyLimitInit};
use printing_platform::user::{admin_contact, optional_profile_value, profile_update, quota_response, UpdateProfileRequest};
use std::collections::HashMap;

fn user(id: i64, role: &str) -> User {
    User {
        id,
        student_id: format!("s{id}"),
        password_hash: String::new(),
        role: role.to_string(),
        qq: None,
        phone: None,
        status: "normal".to_string(),
        must_change_password: false,
        created_at: String::new(),
        last_login_at: None,
    }
}

fn row(owner: i64) -> QueueRow {
    QueueRow {
        id: 5,
        user_id: owner,
        student_id: "2021001".to_string(),
        file_name: "thesis.pdf".to_string(),
        page_count: 12,
        odd_even: "all".to_string(),
        status: "queued".to_string(),
        submitted_at: "2024-05-01 10:00:00".to_string(),
        review_reason: Some("r".to_string()),
        status_detail: Some("d".to_string()),
        windows_job_id: Some(9),
    }
}

fn pdf_with_pages(n: usize) -> Vec<u8> {
    let mut doc = Document::with_version("1.5");
    let pages_id = doc.new_object_id();
    let mut kids = Vec::new();
    for _ in 0..n {
        let content_id = doc.add_object(Stream::new(Dictionary::new(), b"BT ET".to_vec()));
        let mut page = Dictionary::new();
        page.set("Type", Object::Name(b"Page".to_vec()));
        page.set("Parent", Object::Reference(pages_id));
        page.set("Contents", Object::Reference(content_id));
        page.set("MediaBox", Object::Array(vec![Object::Integer(0), Object::Integer(0), Object::Integer(595), Object::Integer(842)]));
        kids.push(Object::Reference(doc.add_object(page)));
    }
    let mut pages = Dictionary::new();
    pages.set("Type", Object::Name(b"Pages".to_vec()));
    pages.set("Kids", Object::Array(kids));
    pages.set("Count", Object::Integer(n as i64));
    doc.objects.insert(pages_id, Object::Dictionary(pages));
    let mut catalog = Dictionary::new();
    catalog.set("Type", Object::Name(b"Catalog".to_vec()));
    catalog.set("Pages", Object::Reference(pages_id));
    let catalog_id = doc.add_object(catalog);
    doc.trailer.set("Root", Object::Reference(catalog_id));
    let mut out = Vec::new();
    doc.save_to(&mut out).unwrap();
    out
}

#[test]
fn preview_headers_allow_only_same_origin_framing() {
    let headers = preview_frame_headers();
    assert_eq!(headers[0], ("x-frame-options", "SAMEORIGIN"));
    assert_eq!(headers[1], ("content-security-policy", "frame-ancestors 'self'"));
}

#[test]
fn configured_daily_limit_initializes_new_and_legacy_databases_once() {
    fn initialize(store: &mut HashMap<String, String>, default_limit: i64) {
        let marker = store.get("default_daily_limit_config_v1").cloned();
        let current = store.get("daily_limit").cloned();
        match daily_limit_initialization(&marker, &current, default_limit) {
            DailyLimitInit::AlreadyApplied => return,
            DailyLimitInit::MarkOnly => {}
            DailyLimitInit::SetLimit(v) => {
                store.insert("daily_limit".to_string(), v);
            }
        }
        store.insert("default_daily_limit_config_v1".to_string(), "true".to_string());
    }
    let mut store = HashMap::new();
    initialize(&mut store, 10);
    assert_eq!(store.get("daily_limit").map(String::as_str), Some("10"));
    initialize(&mut store, 20);
    assert_eq!(store.get("daily_limit").map(String::as_str), Some("10"));

    store.clear();
    store.insert("daily_limit".to_string(), "50".to_string());
    initialize(&mut store, 10);
    assert_eq!(store.get("daily_limit").map(String::as_str), Some("10"));

    store.clear();
    store.insert("daily_limit".to_string(), "25".to_string());
    initialize(&mut store, 10);
    assert_eq!(store.get("daily_limit").map(String::as_str), Some("25"));
}

#[test]
fn queue_pause_setting_round_trips() {
    assert!(queue_paused_from(&Some(paused_value(true).to_string())));
    assert!(!queue_paused_from(&Some(paused_value(false).to_string())));
    assert!(!queue_paused_from(&None));
    assert!(!queue_paused_from(&Some("TRUE".to_string())));
    assert_eq!(setting_or(None, "10"), "10");
    assert_eq!(setting_or(Some("7".into()), "10"), "7");
    assert!(matches!(daily_limit_initialization(&None, &None, -3), DailyLimitInit::SetLimit(ref v) if v == "0"));
}

#[test]
fn other_users_tasks_are_shown_without_details() {
    let v = to_view(row(2), &user(1, "user"), false);
    assert!(!v.mine && !v.file_name_visible);
    assert_eq!(v.owner_name, None);
    assert_eq!(v.file_name, None);
    assert_eq!(v.review_reason, None);
    assert_eq!(v.windows_job_id, None);
    assert_eq!(v.page_count, 12);
    let v = to_view(row(1), &user(1, "user"), false);
    assert!(v.mine && v.file_name_visible);
    assert_eq!(v.file_name.as_deref(), Some("thesis.pdf"));
    let v = to_view(row(2), &user(1, "admin"), false);
    assert_eq!(v.owner_name.as_deref(), Some("2021001"));
    assert!(!v.mine);
    let v = to_view(row(2), &user(1, "user"), true);
    assert_eq!(v.status_detail.as_deref(), Some("d"));
    let vs = to_views(vec![row(1), row(2)], &user(1, "user"), false);
    assert_eq!(vs.len(), 2);
    assert!(vs[0].mine && !vs[1].mine);
}

#[test]
fn user_requests() {
    let q = quota_response(3, 2, 10);
    assert_eq!((q.used_today, q.reserved, q.limit, q.remaining), (3, 2, 10, 5));
    assert_eq!(quota_response(9, 5, 10).remaining, 0);
    assert_eq!(optional_profile_value(Some("  123 ".into())).as_deref(), Some("123"));
    assert_eq!(optional_profile_value(Some("   ".into())), None);
    let long = "1".repeat(33);
    let e = profile_update(UpdateProfileRequest { qq: None, phone: Some(long) }).unwrap_err();
    assert_eq!(e.message(), "手机号不能超过 32 个字符");
    let (qq, phone) = profile_update(UpdateProfileRequest { qq: Some(" 42 ".into()), phone: Some("1".repeat(32)) }).unwrap();
    assert_eq!(qq.as_deref(), Some("42"));
    assert_eq!(phone.map(|p| p.len()), Some(32));
    let c = admin_contact(Some(("admin".into(), None)));
    assert_eq!((c.student_id.as_str(), c.qq.as_str()), ("admin", ""));
    let c = admin_contact(None);
    assert_eq!((c.student_id.as_str(), c.qq.as_str()), ("", ""));
    assert_eq!(history_window(&PageQuery { page: Some(2), per_page: None }), (2, 20, 20));
    assert_eq!(history_window(&PageQuery { page: None, per_page: Some(1000) }), (1, 100, 0));
    let h = health_response("1.0.0", true, "Normal".to_string());
    assert!(h.ok && h.queue_paused);
    assert_eq!(h.database, "ok");
}

fn file(temp_id: &str, odd_even: &str, range: Option<&str>) -> SubmitFile {
    SubmitFile { temp_id: temp_id.to_string(), odd_even: odd_even.to_string(), page_range: range.map(|r| r.to_string()) }
}

#[test]
fn submissions_are_checked_before_anything_is_read() {
    let m = |files: Vec<SubmitFile>| check_submission(&SubmitRequest { files }).unwrap_err().message();
    assert_eq!(m(vec![]), "files cannot be empty");
    assert_eq!(m(vec![file("a", "some", None)]), "页码范围必须是全部页、奇数页、偶数页或自定义页码");
    assert_eq!(m(vec![file("a", "custom", Some("  "))]), "请输入要打印的自定义页码");
    assert_eq!(m(vec![file("a", "custom", None)]), "请输入要打印的自定义页码");
    assert_eq!(m(vec![file("a", "all", None), file("a", "odd", None)]), "提交内容中包含重复文件");
    assert_eq!(m(vec![file("a", "all", None), file("b", "x", None), file("a", "odd", None)]), "页码范围必须是全部页、奇数页、偶数页或自定义页码");
    assert!(check_submission(&SubmitRequest { files: vec![file("a", "custom", Some("1-2")), file("b", "even", None)] }).is_ok());
    assert_eq!(default_odd_even(), "all");
}

#[test]
fn submitted_files_get_their_selection_and_page_count() {
    assert_eq!(prepare_file(&file("a", "odd", None), 5).unwrap(), ("odd".to_string(), 3));
    assert_eq!(prepare_file(&file("a", "custom", Some("3,1-2")), 5).unwrap(), ("custom:1-3".to_string(), 3));
    assert_eq!(prepare_file(&file("a", "custom", Some("9")), 5).unwrap_err().message(), "页码 9 超出有效范围 1-5");
    assert!(prepare_file(&file("a", "even", None), 1).is_err());
    assert_eq!(submitted_pages(&[3, 4, 5]), 12);
    assert_eq!(submitted_pages(&[i64::MAX, 4]), i64::MAX);
    let t = submitted_task(7, "a.pdf".into(), 3, "odd".into(), true);
    assert_eq!(t.status, "pending_review");
    assert!(t.over_limit);
    assert_eq!(submitted_task(7, "a.pdf".into(), 3, "odd".into(), false).status, "queued");
}

#[test]
fn uploads_respect_the_limits() {
    let c = Config::with_data_dir("/d".to_string());
    assert!(check_upload_count(9, 10).is_ok());
    assert_eq!(check_upload_count(10, 10).unwrap_err().message(), "单次上传文件数量超出限制");
    assert!(check_upload_size(1024, 0, &c.limits).is_ok());
    assert!(check_upload_size(c.limits.max_upload_bytes + 1, 0, &c.limits).is_err());
    assert!(check_upload_size(10, c.limits.max_temp_bytes_per_user - 5, &c.limits).is_err());
    assert!(check_upload_size(10, u64::MAX, &c.limits).is_err());
    assert_eq!(check_page_limit(501, 500).unwrap_err().message(), "文件页数超过 500 页限制");
    assert!(check_page_limit(500, 500).is_ok());
    assert_eq!(conversion_failed("a.docx").message(), "无法转换文件“a.docx”，请确认文件未损坏且 LibreOffice 支持该格式");
    assert!(check_may_view(&user(1, "user"), 1).is_ok());
    assert!(check_may_view(&user(1, "admin"), 2).is_ok());
    assert!(matches!(check_may_view(&user(1, "user"), 2), Err(AppError::Forbidden)));
    assert!(matches!(check_owner(&user(1, "admin"), 2), Err(AppError::Forbidden)));
    assert_eq!(source_disposition("报告 v2.pdf"), "attachment; filename=\"__ v2.pdf\"");
    assert_eq!(preview_url("abc"), "/api/print/preview/abc");
    let n = task_preview_file_name();
    assert!(n.starts_with("task-") && n.ends_with(".pdf") && n.len() == 5 + 36 + 4);
}

#[test]
fn upload_items_link_to_their_previews() {
    let upload = TempUpload {
        id: 1,
        temp_id: "t-1".to_string(),
        user_id: 2,
        original_name: "a.pdf".to_string(),
        stored_path: "/u/x.pdf".to_string(),
        preview_path: "/p/t-1.pdf".to_string(),
        page_count: 4,
        created_at: String::new(),
    };
    let item = upload_item(upload);
    assert_eq!(item.preview_url, "/api/print/preview/t-1");
    assert_eq!(item.page_count, 4);
}

#[test]
fn paths_of_the_data_directory() {
    let c = Config::with_data_dir("/srv/pp".to_string());
    assert_eq!(upload_dir(&c), "/srv/pp/uploads");
    assert_eq!(preview_dir(&c), "/srv/pp/previews");
    assert_eq!(tmp_dir(&c), "/srv/pp/tmp");
    let p = upload_path(&c, "Report.DOCX");
    assert!(p.starts_with("/srv/pp/uploads/") && p.ends_with(".DOCX"));
    assert_eq!(p.len(), "/srv/pp/uploads/".len() + 36 + 5);
    assert_eq!(sanitize_filename("../../etc/passwd"), "_.._etc_passwd");
    assert_eq!(sanitize_filename(" .. "), "upload.bin");
    assert_eq!(sanitize_filename("名单.xlsx"), "__.xlsx");
    assert_eq!(parent_of("/srv/pp/previews/a.pdf").as_deref(), Some("/srv/pp/previews"));
    assert_eq!(parent_of("a.pdf").as_deref(), Some(""));
    assert_eq!(parent_of("/a.pdf").as_deref(), Some("/"));
    assert_eq!(parent_of("/"), None);
    assert_eq!(parent_of(""), None);
    assert_eq!(parent_of("dir//x/").as_deref(), Some("dir"));
    assert_eq!(spool_copy_path("/p/task-1.pdf", 8).as_deref(), Some("/p/print-task-8.pdf"));
    let t = temporary_pdf_path("/p/task-1.pdf");
    assert!(t.starts_with("/p/task-1.pdf.") && t.ends_with(".tmp"));
    let rows = vec![
        FileRow { id: 3, stored_path: Some("/u/a".into()), preview_path: Some("/p/b.pdf".into()) },
        FileRow { id: -1, stored_path: Some("/u/c".into()), preview_path: None },
    ];
    assert_eq!(files_of_rows(&rows), vec!["/u/a", "/p/b.pdf", "/p/print-task-3.pdf", "/u/c"]);
}

#[test]
fn cancelling_a_task() {
    assert_eq!(cancellation_actor(&user(1, "user"), 1, "queued").unwrap(), "user");
    assert_eq!(cancellation_actor(&user(1, "admin"), 2, "uncertain").unwrap(), "admin");
    assert!(matches!(cancellation_actor(&user(1, "user"), 2, "queued"), Err(AppError::Forbidden)));
    assert_eq!(cancellation_actor(&user(1, "user"), 1, "uncertain").unwrap_err().message(), "该任务当前不能安全取消");
    assert!(cancellation_actor(&user(1, "admin"), 1, "printing").is_err());
}

#[test]
fn errors_answer_with_their_status() {
    assert_eq!(api_not_found().status_code(), 404);
    assert_eq!(api_not_found().public_message(), "api endpoint not found");
    assert_eq!(AppError::Unauthorized.message(), "authentication required");
    assert_eq!(AppError::Forbidden.status_code(), 403);
    assert_eq!(AppError::Conflict("c".into()).status_code(), 409);
    assert_eq!(AppError::Multipart("m".into()).status_code(), 400);
    let e = AppError::Sqlx("db down".into());
    assert!(e.is_server_error());
    assert_eq!(e.message(), "db down");
    assert_eq!(e.public_message(), "服务器内部错误，请联系管理员");
    for e in [AppError::Io("x".into()), AppError::Toml("x".into()), AppError::Password("x".into()), AppError::External("x".into())] {
        assert_eq!(e.status_code(), 500);
    }
    assert_eq!(AppError::NotFound("nf".into()).public_message(), "nf");
    let v: UserView = user(3, "user").into();
    assert_eq!(v.id, 3);
    assert_eq!(UserView::of_user(&user(4, "admin")).role, "admin");
}

#[test]
fn queue_manager_ticks() {
    let task = |preview: Option<&str>| PrintTask {
        id: 1,
        user_id: 1,
        file_name: "a".into(),
        stored_path: "s".into(),
        preview_path: preview.map(|p| p.to_string()),
        page_count: 1,
        odd_even: "all".into(),
        status: "queued".into(),
        submitted_at: String::new(),
        completed_at: None,
        cancelled_by: None,
        review_reason: None,
        approved_over_quota: false,
        windows_job_id: None,
        windows_job_name: None,
        printer_submitted_at: None,
        job_seen_at: None,
        status_detail: None,
    };
    assert!(matches!(next_step(true, true, true, &None), QueueStep::TrackPrinting));
    assert!(matches!(next_step(false, true, false, &Some(task(Some("p")))), QueueStep::Hold));
    assert!(matches!(next_step(false, false, true, &Some(task(Some("p")))), QueueStep::Hold));
    assert!(matches!(next_step(false, false, false, &None), QueueStep::Idle));
    assert!(matches!(next_step(false, false, false, &Some(task(None))), QueueStep::Fail(ref m) if m == "任务没有可打印的 PDF 文件"));
    assert!(matches!(next_step(false, false, false, &Some(task(Some("/p/x.pdf")))), QueueStep::Dispatch(ref p) if p == "/p/x.pdf"));
    assert!(marked_printing(1) && !marked_printing(0));
    let job = SubmittedJob { job_id: 4, job_name: "n".into() };
    assert!(matches!(submit_outcome(Ok(Some(job))), SubmitOutcome::RecordJob(ref j) if j.job_id == 4));
    assert!(matches!(submit_outcome(Ok(None)), SubmitOutcome::Finish));
    assert!(matches!(submit_outcome(Err(AppError::External("offline".into()))), SubmitOutcome::Failed(ref m) if m == "offline"));
    assert_eq!(poll_interval_seconds(0), 1);
    assert_eq!(poll_interval_seconds(5), 5);
}

#[test]
fn announcements() {
    let e = pause_events(true);
    assert!(matches!(e.as_slice(), [QueueEvent::QueuePaused { paused: true }]));
    let e = pause_events(false);
    assert!(matches!(e.as_slice(), [QueueEvent::QueuePaused { paused: false }, QueueEvent::QueueChanged]));
    let e = task_status_events(3, "done");
    assert!(matches!(&e[0], QueueEvent::TaskStatus { task_id: 3, status } if status == "done"));
    let e = printer_error_events("jam");
    assert!(matches!(&e[0], QueueEvent::PrinterError { message } if message == "jam"));
    assert!(matches!(e[1], QueueEvent::QueuePaused { paused: true }));
}

#[test]
fn pdf_pages_are_counted_and_selected() {
    let pdf = pdf_with_pages(5);
    assert_eq!(count_pdf_pages(&pdf).unwrap(), 5);
    assert!(count_pdf_pages(b"not a pdf").unwrap_err().message().starts_with("invalid PDF file: "));
    assert!(select_pdf_pages(b"not a pdf", "all").unwrap().is_none());
    assert!(select_pdf_pages(&pdf, "bogus").is_err());
    let odd = select_pdf_pages(&pdf, "odd").unwrap().unwrap();
    assert_eq!(count_pdf_pages(&odd).unwrap(), 3);
    let custom = select_pdf_pages(&pdf, "custom:2-3").unwrap().unwrap();
    assert_eq!(count_pdf_pages(&custom).unwrap(), 2);
    assert!(select_pdf_pages(&pdf, "custom:1-5").unwrap().is_none());
    assert!(select_pdf_pages(&pdf_with_pages(1), "even").is_err());
}

#[test]
fn loaded_documents_are_counted_and_selected() {
    let document = Document::load_mem(&pdf_with_pages(4)).unwrap();
    assert_eq!(count_loaded_pages(&document).unwrap(), 4);
    let empty = Document::load_mem(&pdf_with_pages(0)).unwrap();
    assert_eq!(count_loaded_pages(&empty).unwrap_err().message(), "PDF file has no pages");
    let even = select_from_loaded(document.clone(), "even").unwrap().unwrap();
    assert_eq!(count_pdf_pages(&even).unwrap(), 2);
    assert!(select_from_loaded(document.clone(), "custom:1-4").unwrap().is_none());
    assert!(select_from_loaded(document, "custom:5").is_err());
}

#[test]
fn looping_page_tree_is_refused_before_pages_are_removed() {
    let mut document = Document::load_mem(&pdf_with_pages(3)).unwrap();
    let pages_id = document.catalog().unwrap().get(b"Pages").unwrap().as_reference().unwrap();
    document
        .get_object_mut(pages_id)
        .unwrap()
        .as_dict_mut()
        .unwrap()
        .set("Parent", Object::Reference(pages_id));
    assert_eq!(count_loaded_pages(&document).unwrap(), 3);
    let refused = select_from_loaded(document.clone(), "odd").unwrap_err();
    assert_eq!(refused.message(), "preview PDF has a page tree that cannot be edited");
    assert!(select_from_loaded(document, "all").unwrap().is_none());
}

#[test]
fn sanitizing_twice_changes_nothing() {
    for name in ["../../etc/passwd", " .. ", "名单.xlsx", "a b.pdf", ".hidden.", "report-1_final.docx"] {
        let once = sanitize_filename(name);
        assert_eq!(sanitize_filename(&once), once);
    }
}

#[test]
fn pdf_without_pages_is_refused() {
    let empty = pdf_with_pages(0);
    assert_eq!(count_pdf_pages(&empty).unwrap_err().message(), "PDF file has no pages");
}
