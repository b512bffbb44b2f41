use printing_platform::auth::{
    authorize_request, check_login, ensure_admin, hash_password, initial_admin_student_id, login_response, new_session_token,
    validate_new_password, verify_password, COOKIE_NAME,
};
use printing_platform::config::Config;
use printing_platform::error::AppError;
use printing_platform::models::User;

fn user(id: i64, role: &str, status: &str, hash: &str) -> User {
    User {
        id,
        student_id: format!("s{id}"),
        password_hash: hash.to_string(),
        role: role.to_string(),
        qq: None,
        phone: None,
        status: status.to_string(),
        must_change_password: false,
        created_at: "2024-01-01".to_string(),
        last_login_at: None,
    }
}

#[test]
fn a_hash_verifies_its_password_only() {
    let hash = hash_password("correct horse").unwrap();
    assert!(hash.starts_with("$argon2"));
    assert!(verify_password(&hash, "correct horse"));
    assert!(!verify_password(&hash, "wrong horse"));
    assert!(!verify_password("not a hash", "correct horse"));
    let again = hash_password("correct horse").unwrap();
    assert_ne!(hash, again);
}

#[test]
fn login_checks_password_then_ban() {
    let hash = hash_password("pw12345678").unwrap();
    assert!(matches!(check_login(&None, "pw12345678"), Err(AppError::Unauthorized)));
    let u = user(1, "user", "normal", &hash);
    assert!(matches!(check_login(&Some(u.clone()), "nope"), Err(AppError::Unauthorized)));
    assert!(check_login(&Some(u), "pw12345678").is_ok());
    let banned = user(2, "user", "banned", &hash);
    let e = check_login(&Some(banned.clone()), "pw12345678").unwrap_err();
    assert_eq!(e.status_code(), 409);
    assert_eq!(e.message(), "账号已被封禁，请联系管理员");
    assert!(matches!(check_login(&Some(banned), "nope"), Err(AppError::Unauthorized)));
}

#[test]
fn only_administrators_pass_the_admin_check() {
    assert!(ensure_admin(&user(1, "admin", "normal", "")).is_ok());
    assert!(matches!(ensure_admin(&user(1, "user", "normal", "")), Err(AppError::Forbidden)));
}

#[test]
fn new_passwords_are_checked() {
    let e = validate_new_password(8, "short", "short").unwrap_err();
    assert_eq!(e.message(), "新密码至少需要 8 个字符");
    let e = validate_new_password(8, "longenough", "different").unwrap_err();
    assert_eq!(e.message(), "两次输入的密码不一致");
    assert!(validate_new_password(8, "密码密码密码密码", "密码密码密码密码").is_ok());
    assert!(validate_new_password(9, "密码密码密码密码", "密码密码密码密码").is_err());
}

#[test]
fn a_user_who_must_change_the_password_is_held_back() {
    let mut u = user(1, "user", "normal", "");
    assert!(authorize_request(&u, "/api/queue").is_ok());
    u.must_change_password = true;
    let e = authorize_request(&u, "/api/queue").unwrap_err();
    assert_eq!(e.message(), "首次登录必须先修改密码");
    assert!(authorize_request(&u, "/api/auth/me").is_ok());
    assert!(authorize_request(&u, "/api/auth/change-password").is_ok());
    assert!(authorize_request(&u, "/api/auth/logout").is_ok());
}

#[test]
fn the_first_administrator_comes_from_the_configuration() {
    let mut c = Config::with_data_dir("/d".to_string());
    assert_eq!(initial_admin_student_id(&c).unwrap(), "admin");
    c.initial_admin_student_id = "  root ".to_string();
    assert_eq!(initial_admin_student_id(&c).unwrap(), "root");
    c.initial_admin_student_id = " ".to_string();
    assert_eq!(initial_admin_student_id(&c).unwrap_err().message(), "initial_admin_student_id cannot be empty");
}

#[test]
fn sessions_and_login_answers() {
    assert_eq!(COOKIE_NAME, "session_token");
    let t = new_session_token();
    assert_eq!(t.len(), 36);
    assert_ne!(t, new_session_token());
    let c = Config::with_data_dir("/d".to_string());
    let r = login_response(&user(4, "user", "normal", "secret"), &c);
    assert_eq!(r.user.id, 4);
    assert_eq!(r.min_password_length, 8);
}

#[test]
fn session_tokens_are_lowercase_version_4_uuids() {
    let t: Vec<char> = new_session_token().chars().collect();
    assert_eq!(t.len(), 36);
    for (i, c) in t.iter().enumerate() {
        if [8, 13, 18, 23].contains(&i) {
            assert_eq!(*c, '-');
        } else {
            assert!(c.is_ascii_digit() || ('a'..='f').contains(c));
        }
    }
    assert_eq!(t[14], '4');
    assert!(['8', '9', 'a', 'b'].contains(&t[19]));
}
