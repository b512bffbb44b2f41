use printing_platform::admin::{
    acknowledge_toner, check_import_size, check_new_user, check_not_self, check_review_applied, check_status_change,
    check_transfer, config_update, csv_cell, import_file_name, import_outcome, job_to_cancel, job_to_cancel_for_deletion,
    next_user_status, required_field, revokes_sessions, search_pattern, stats_csv, users_window, validated_filter, StatRow,
    UpdateConfigRequest, UsersQuery,
};
use printing_platform::config::Config;
use printing_platform::error::AppError;
use printing_platform::models::User;
use printing_platform::printer::PrinterState;
use printing_platform::quota::daily_limit_from_setting;

fn user(id: i64, status: &str) -> User {
    User {
        id,
        student_id: format!("s{id}"),
        password_hash: String::new(),
        role: "user".to_string(),
        qq: None,
        phone: None,
        status: status.to_string(),
        must_change_password: false,
        created_at: String::new(),
        last_login_at: None,
    }
}

#[test]
fn csv_cells_are_quoted_when_needed() {
    assert_eq!(csv_cell("2021001"), "2021001");
    assert_eq!(csv_cell("a,b"), "\"a,b\"");
    assert_eq!(csv_cell("say \"hi\""), "\"say \"\"hi\"\"\"");
    assert_eq!(csv_cell("line\nbreak"), "\"line\nbreak\"");
    let rows = vec![
        StatRow { student_id: "a".to_string(), total_pages: 10, total_tasks: 2 },
        StatRow { student_id: "b,c".to_string(), total_pages: 0, total_tasks: 0 },
    ];
    assert_eq!(stats_csv(&rows), "student_id,total_pages,total_tasks\na,10,2\n\"b,c\",0,0\n");
    assert_eq!(stats_csv(&[]), "student_id,total_pages,total_tasks\n");
}

#[test]
fn list_filters_are_trimmed_and_checked() {
    let roles = ["admin", "user"];
    assert_eq!(validated_filter(&None, &roles, "角色").unwrap(), None);
    assert_eq!(validated_filter(&Some("  ".into()), &roles, "角色").unwrap(), None);
    assert_eq!(validated_filter(&Some(" admin ".into()), &roles, "角色").unwrap().as_deref(), Some("admin"));
    assert_eq!(validated_filter(&Some("root".into()), &roles, "角色").unwrap_err().message(), "无效的角色筛选条件");
    assert_eq!(search_pattern(&Some(" 2021 ".into())).as_deref(), Some("%2021%"));
    assert_eq!(search_pattern(&Some("".into())), None);
}

#[test]
fn user_list_pages_are_bounded() {
    let q = UsersQuery { page: None, per_page: None, q: None, role: None, status: None };
    assert_eq!(users_window(&q), (1, 50, 0));
    let q = UsersQuery { page: Some(3), per_page: Some(500), q: None, role: None, status: None };
    assert_eq!(users_window(&q), (3, 200, 400));
    let q = UsersQuery { page: Some(-2), per_page: Some(0), q: None, role: None, status: None };
    assert_eq!(users_window(&q), (1, 1, 0));
}

#[test]
fn only_the_daily_limit_may_be_changed() {
    let r = |k: &str, v: &str| config_update(&UpdateConfigRequest { key: k.to_string(), value: v.to_string() });
    assert_eq!(r("daily_limit", "30").unwrap(), ("daily_limit".to_string(), "30".to_string()));
    assert_eq!(r("daily_limit", "-4").unwrap().1, "0");
    assert_eq!(r("daily_limit", "x").unwrap_err().message(), "daily_limit must be a number");
    assert_eq!(r("queue_paused", "true").unwrap_err().message(), "unsupported config key");
    for (typed, used) in [("30", 30), ("+12", 12), ("-4", 0), ("0", 0)] {
        let (_, stored) = r("daily_limit", typed).unwrap();
        assert_eq!(daily_limit_from_setting(&stored), used);
    }
}

#[test]
fn account_changes_are_checked() {
    let admin = user(1, "normal");
    assert_eq!(required_field("  ", "student_id").unwrap_err().message(), "student_id cannot be empty");
    assert_eq!(required_field(" 42 ", "student_id").unwrap(), "42");
    assert_eq!(check_new_user(1).unwrap_err().message(), "user already exists");
    assert!(check_new_user(0).is_ok());
    assert!(check_not_self(&admin, 1, "admin cannot delete the current account").is_err());
    assert!(check_not_self(&admin, 2, "admin cannot delete the current account").is_ok());
    assert_eq!(check_status_change(&admin, 1, "banned").unwrap_err().message(), "不能封禁或解封当前管理员账号");
    assert_eq!(check_status_change(&admin, 2, "deleted").unwrap_err().message(), "status must be banned or normal");
    assert!(check_status_change(&admin, 2, "normal").is_ok());
    assert_eq!(next_user_status("banned", &Some("t".into())), "banned");
    assert_eq!(next_user_status("normal", &None), "unused");
    assert_eq!(next_user_status("normal", &Some("t".into())), "normal");
    assert!(revokes_sessions("banned"));
    assert!(!revokes_sessions("normal"));
}

#[test]
fn the_administrator_role_goes_to_an_active_other_user() {
    let admin = user(1, "normal");
    assert_eq!(check_transfer(&admin, &None).unwrap_err().message(), "接任管理员账号不存在，请先添加用户");
    assert_eq!(check_transfer(&admin, &Some(user(1, "normal"))).unwrap_err().message(), "请选择其他账号接任管理员");
    assert_eq!(check_transfer(&admin, &Some(user(2, "banned"))).unwrap_err().message(), "不能将管理员转让给已封禁账号");
    assert_eq!(check_transfer(&admin, &Some(user(2, "unused"))).unwrap(), 2);
}

#[test]
fn printing_tasks_need_a_known_job_to_be_cancelled() {
    assert_eq!(job_to_cancel(Some(5)).unwrap(), 5);
    assert_eq!(job_to_cancel(None).unwrap_err().message(), "该任务尚未记录系统作业 ID，无法安全取消；请先检查系统打印队列");
    assert_eq!(job_to_cancel_for_deletion(17, None).unwrap_err().message(), "任务 17 尚未记录 Windows 作业 ID，无法安全删除用户");
    assert_eq!(job_to_cancel_for_deletion(17, Some(3)).unwrap(), 3);
    assert!(matches!(check_review_applied(0), Err(AppError::NotFound(_))));
    assert!(check_review_applied(1).is_ok());
}

#[test]
fn imports_are_limited_and_sorted_into_created_and_skipped() {
    let c = Config::with_data_dir("/d".to_string());
    assert!(check_import_size(c.limits.max_import_bytes, c.limits.max_import_bytes).is_ok());
    assert_eq!(check_import_size(c.limits.max_import_bytes + 1, c.limits.max_import_bytes).unwrap_err().message(), "用户导入文件过大");
    let name = import_file_name("名单 2024.xlsx");
    assert!(name.ends_with("___ 2024.xlsx"));
    assert_eq!(name.len(), 36 + 1 + "__ 2024.xlsx".len());
    let r = import_outcome(vec!["a".into(), "b".into(), "c".into()], &[true, false, true]);
    assert_eq!(r.created, vec!["a", "c"]);
    assert_eq!(r.skipped, vec!["b"]);
}

#[test]
fn acknowledging_toner_changes_nothing_else() {
    let mut s = PrinterState::starting();
    acknowledge_toner(&mut s);
    assert!(s.toner_alert_acknowledged);
    assert!(s.blocked);
}
