use printing_platform::config::Config;
use printing_platform::printer::{backend_reply, converter_failure};
use printing_platform::models::PrintTask;
use printing_platform::printer::{
    cancel_arguments, classify, counts_toward_quota, find_matching_job, job_progress_detail, merge_refreshed,
    status_arguments, submission_failure_detail, submit_arguments, track_printing_task, BackendStatus, PrinterJob,
    PrinterState, TrackAction,
};

fn empty() -> BackendStatus {
    BackendStatus {
        available: false,
        status: String::new(),
        is_offline: false,
        is_paused: false,
        is_in_error: false,
        is_not_available: false,
        need_user_intervention: false,
        is_out_of_paper: false,
        has_paper_problem: false,
        is_paper_jammed: false,
        is_toner_low: false,
        is_out_of_memory: false,
        is_output_bin_full: false,
        is_door_opened: false,
        is_manual_feed_required: false,
        is_server_unknown: false,
        jobs: vec![],
    }
}

fn config() -> Config {
    Config::with_data_dir("/d".to_string())
}

fn job(id: i64, name: &str, status: &str) -> PrinterJob {
    PrinterJob { id, name: name.to_string(), status: status.to_string(), total_pages: 1, pages_printed: 0 }
}

fn task(id: i64, job_id: Option<i64>, job_name: Option<&str>, seen: bool) -> PrintTask {
    PrintTask {
        id,
        user_id: 1,
        file_name: "a.pdf".to_string(),
        stored_path: "/u/a.pdf".to_string(),
        preview_path: Some("/p/task-a.pdf".to_string()),
        page_count: 2,
        odd_even: "all".to_string(),
        status: "printing".to_string(),
        submitted_at: "2024-01-01 00:00:00".to_string(),
        completed_at: None,
        cancelled_by: None,
        review_reason: None,
        approved_over_quota: false,
        windows_job_id: job_id,
        windows_job_name: job_name.map(|n| n.to_string()),
        printer_submitted_at: None,
        job_seen_at: if seen { Some("2024-01-01 00:00:01".to_string()) } else { None },
        status_detail: None,
    }
}

#[test]
fn paper_out_blocks_but_toner_only_warns() {
    let config = config();
    let paper = classify(&config, BackendStatus { available: true, is_out_of_paper: true, ..empty() });
    assert!(paper.blocked);
    let toner = classify(&config, BackendStatus { available: true, is_toner_low: true, ..empty() });
    assert!(!toner.blocked);
    assert_eq!(toner.warnings.len(), 1);
}

#[test]
fn specific_reasons_hide_the_generic_ones() {
    let config = config();
    let s = classify(&config, BackendStatus { available: true, is_paused: true, is_in_error: true, need_user_intervention: true, ..empty() });
    assert_eq!(s.blocking_reasons, vec!["Windows 打印队列已暂停"]);
    let s = classify(&config, BackendStatus { available: true, is_in_error: true, need_user_intervention: true, ..empty() });
    assert_eq!(s.blocking_reasons, vec!["打印机报告错误"]);
    let s = classify(&config, BackendStatus { available: true, jobs: vec![job(3, "x", "Error - Printing")], ..empty() });
    assert_eq!(s.blocking_reasons, vec!["Windows 打印作业报告错误"]);
    let s = classify(&config, empty());
    assert_eq!(s.blocking_reasons, vec!["打印机不可用"]);
    assert_eq!(s.status, "Unknown");
    assert_eq!(s.mode, "windows");
    assert_eq!(s.queue_name, "HP LaserJet Professional P1106");
}

#[test]
fn toner_is_read_from_the_status_text_too() {
    let config = config();
    let s = classify(&config, BackendStatus { available: true, status: "TonerLow".to_string(), ..empty() });
    assert!(!s.blocked);
    assert_eq!(s.warnings, vec!["打印机可能墨粉不足，请管理员检查硒鼓（驱动估算结果）"]);
    assert_eq!(s.status, "TonerLow");
    let s = classify(&config, BackendStatus { available: true, status: "Normal".to_string(), ..empty() });
    assert!(s.warnings.is_empty());
}

#[test]
fn the_starting_state_blocks_printing() {
    let s = PrinterState::starting();
    assert!(s.blocked);
    assert_eq!(s.blocking_reasons, vec!["打印机状态尚未初始化"]);
    assert!(!PrinterState::simulated(&config()).blocked);
    let u = PrinterState::unreadable(&config(), "boom".to_string());
    assert!(u.blocked && !u.available);
    assert_eq!(u.error.as_deref(), Some("boom"));
    assert!(!s.checked_at.is_empty());
}

#[test]
fn acknowledgement_survives_a_persisting_warning() {
    let config = config();
    let mut current = classify(&config, BackendStatus { available: true, is_toner_low: true, ..empty() });
    current.toner_alert_acknowledged = true;
    let next = classify(&config, BackendStatus { available: true, is_toner_low: true, ..empty() });
    let (merged, changed) = merge_refreshed(&current, next);
    assert!(merged.toner_alert_acknowledged);
    assert!(!changed);
    let cleared = classify(&config, BackendStatus { available: true, ..empty() });
    let (merged, changed) = merge_refreshed(&current, cleared);
    assert!(!merged.toner_alert_acknowledged);
    assert!(changed);
}

#[test]
fn the_job_of_a_task_is_found_by_id_then_name_then_marker() {
    let jobs = vec![job(7, "other", "Printing"), job(9, "doc", "Printing"), job(11, "Print-Task-42.pdf", "Spooling")];
    assert_eq!(find_matching_job(&jobs, 42, Some(9), &None), Some(1));
    assert_eq!(find_matching_job(&jobs, 42, Some(9), &Some("wrong".to_string())), Some(2));
    assert_eq!(find_matching_job(&jobs, 42, None, &Some("other".to_string())), Some(0));
    assert_eq!(find_matching_job(&jobs, 42, None, &None), Some(2));
    assert_eq!(find_matching_job(&jobs, 5, Some(100), &None), None);
}

#[test]
fn tracking_never_prints_an_unconfirmed_job_twice() {
    let mut snapshot = PrinterState::simulated(&config());
    snapshot.jobs = vec![job(3, "print-task-8", "Printing")];
    assert!(matches!(track_printing_task(true, &snapshot, &task(8, None, None, false)), TrackAction::Finish));
    assert!(matches!(track_printing_task(false, &snapshot, &task(8, None, None, false)), TrackAction::Record(0)));
    assert!(matches!(track_printing_task(false, &snapshot, &task(9, None, None, true)), TrackAction::Finish));
    assert!(matches!(track_printing_task(false, &snapshot, &task(9, None, None, false)), TrackAction::PauseUnconfirmed));
    snapshot.available = false;
    assert!(matches!(track_printing_task(false, &snapshot, &task(9, None, None, false)), TrackAction::Wait));
}

#[test]
fn backend_commands_and_details() {
    assert_eq!(status_arguments(), vec!["-Action", "Status"]);
    assert_eq!(cancel_arguments(-5), vec!["-Action", "Cancel", "-JobId", "-5"]);
    let mut c = config();
    c.printer.pdf_printer_path = "C:\\tools\\SumatraPDF.exe".to_string();
    assert_eq!(
        submit_arguments(&c, "/p/x.pdf", 12),
        vec!["-Action", "Submit", "-PdfPath", "/p/x.pdf", "-TaskId", "12", "-DiscoverySeconds", "20", "-PdfPrinterPath", "C:\\tools\\SumatraPDF.exe"]
    );
    assert_eq!(job_progress_detail("Printing"), "Windows 作业处理中：Printing");
    assert_eq!(submission_failure_detail("offline"), "提交失败：offline");
    assert!(counts_toward_quota(1, false));
    assert!(!counts_toward_quota(0, false));
    assert!(!counts_toward_quota(1, true));
}

#[test]
fn backend_replies_are_read_from_the_last_line() {
    assert_eq!(backend_reply(true, b"starting\r\n{\"job_id\":3}\r\n\n", b"").unwrap(), "{\"job_id\":3}");
    assert_eq!(backend_reply(true, b"  \n", b"").unwrap_err().message(), "printer backend returned no output");
    assert_eq!(backend_reply(false, b"out", b" denied \n").unwrap_err().message(), "printer backend failed: denied");
    assert_eq!(backend_reply(false, b"out", b"").unwrap_err().message(), "printer backend failed: out");
    assert!(matches!(backend_reply(false, b"", b""), Err(printing_platform::error::AppError::External(_))));
    assert_eq!(converter_failure("exit status: 1", b"boom\n", b"ok").message(), "document converter failed with status exit status: 1: boom");
    assert_eq!(converter_failure("exit status: 2", b"", b"").message(), "document converter failed with status exit status: 2");
    assert_eq!(converter_failure("exit status: 3", b"", b" late ").message(), "document converter failed with status exit status: 3: late");
}

#[test]
fn check_times_are_written_in_rfc3339_form() {
    let t: Vec<char> = PrinterState::starting().checked_at.chars().collect();
    let n = t.len();
    assert!(n >= 25);
    assert_eq!(t[4], '-');
    assert_eq!(t[7], '-');
    assert_eq!(t[10], 'T');
    assert_eq!(t[13], ':');
    assert_eq!(t[16], ':');
    assert!(t[n - 6] == '+' || t[n - 6] == '-');
    assert_eq!(t[n - 3], ':');
    let fraction = n - 25;
    assert!([0, 4, 7, 10].contains(&fraction));
    if fraction > 0 {
        assert_eq!(t[19], '.');
    }
}
