use printing_platform::quota::{daily_limit_from_setting, quota_status, remaining_quota, submission_review_flags, today};

#[test]
fn quota_status_accumulates_queued_pages_in_one_submission() {
    let mut projected_used = 40;

    assert_eq!(quota_status(&mut projected_used, 5, 50), ("queued", false));
    assert_eq!(projected_used, 45);

    assert_eq!(quota_status(&mut projected_used, 5, 50), ("queued", false));
    assert_eq!(projected_used, 50);

    assert_eq!(quota_status(&mut projected_used, 1, 50), ("pending_review", true));
    assert_eq!(projected_used, 50);
}

#[test]
fn quota_status_keeps_remaining_capacity_after_review_task() {
    let mut projected_used = 45;

    assert_eq!(quota_status(&mut projected_used, 10, 50), ("pending_review", true));
    assert_eq!(projected_used, 45);

    assert_eq!(quota_status(&mut projected_used, 3, 50), ("queued", false));
    assert_eq!(projected_used, 48);
}

#[test]
fn a_submission_never_pushes_usage_past_the_limit() {
    let mut projected = 7;
    for pages in [3, 9, 1, 0, 4, 2] {
        let before = projected;
        let (_, review) = quota_status(&mut projected, pages, 12);
        assert!(projected <= 12 && projected >= before);
        assert_eq!(review, before + pages > 12);
    }
    assert_eq!(projected, 11);
}

#[test]
fn each_file_of_a_submission_is_decided_in_order() {
    assert_eq!(submission_review_flags(45, &[10, 3], 50), Some(vec![true, false]));
    assert_eq!(submission_review_flags(40, &[5, 5, 1], 50), Some(vec![false, false, true]));
    assert_eq!(submission_review_flags(0, &[], 50), Some(vec![]));
    assert_eq!(submission_review_flags(8, &[2], 10), Some(vec![false]));
    assert_eq!(submission_review_flags(8, &[3], 10), Some(vec![true]));
    assert_eq!(submission_review_flags(i64::MAX - 1, &[5], i64::MAX), None);
    assert_eq!(submission_review_flags(0, &[i64::MAX, 1], i64::MAX), None);
}

#[test]
fn remaining_quota_never_goes_negative() {
    assert_eq!(remaining_quota(10, 3, 2), 5);
    assert_eq!(remaining_quota(10, 8, 5), 0);
    assert_eq!(remaining_quota(0, 0, 0), 0);
}

#[test]
fn stored_daily_limit_is_read_with_a_fallback() {
    assert_eq!(daily_limit_from_setting("25"), 25);
    assert_eq!(daily_limit_from_setting("+7"), 7);
    assert_eq!(daily_limit_from_setting("-3"), 0);
    assert_eq!(daily_limit_from_setting("ten"), 10);
    assert_eq!(daily_limit_from_setting(" 5"), 10);
}

#[test]
fn today_is_a_calendar_date() {
    let d = today();
    let b: Vec<char> = d.chars().collect();
    assert_eq!(b.len(), 10);
    assert_eq!(b[4], '-');
    assert_eq!(b[7], '-');
    assert!(b.iter().enumerate().all(|(i, c)| i == 4 || i == 7 || c.is_ascii_digit()));
}
