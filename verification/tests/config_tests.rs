use printing_platform::config::{
    cleanup_interval_seconds, config_beside, config_path_choice, default_data_dir, file_retention_days,
    request_body_limit, temp_upload_retention_hours, Config,
};

fn config() -> Config {
    Config::with_data_dir("/var/lib/printing-platform".to_string())
}

#[test]
fn request_body_limit_allows_multiple_upload_files() {
    let config = config();
    assert_eq!(
        request_body_limit(&config),
        201 * 1024 * 1024,
        "the default request limit should allow four 50 MiB files plus multipart overhead"
    );
}

#[test]
fn repository_config_is_deployment_ready() {
    let config = config();
    config.validate().unwrap();
    assert_eq!(config.server.bind, "0.0.0.0:80");
    assert_eq!(config.printer.name, "HP LaserJet Professional P1106");
    assert!(!config.printer.simulate);
    assert_eq!(config.min_password_length, 8);
    assert_eq!(config.default_daily_limit, 10);
    assert!(config.limits.max_upload_bytes > 0);
}

#[test]
fn password_length_is_configurable() {
    let mut config = config();
    config.min_password_length = 12;
    config.validate().unwrap();
    assert_eq!(config.min_password_length, 12);
}

#[test]
fn password_length_must_be_positive() {
    let mut config = config();
    config.min_password_length = 0;
    assert!(config.validate().is_err());
}

#[test]
fn default_daily_limit_is_configurable_and_non_negative() {
    let mut config = config();
    config.default_daily_limit = 25;
    config.validate().unwrap();
    assert_eq!(config.default_daily_limit, 25);

    let mut invalid = self::config();
    invalid.default_daily_limit = -1;
    assert!(invalid.validate().is_err());
}

#[test]
fn validation_reports_each_broken_setting() {
    let mut c = config();
    c.initial_admin_student_id = "   ".to_string();
    assert_eq!(c.validate().unwrap_err().message(), "initial_admin_student_id cannot be empty");

    let mut c = config();
    c.min_password_length = 0;
    assert_eq!(c.validate().unwrap_err().message(), "min_password_length must be greater than 0");

    let mut c = config();
    c.default_daily_limit = -5;
    assert_eq!(c.validate().unwrap_err().message(), "default_daily_limit cannot be negative");

    let mut c = config();
    c.session_days = 0;
    assert_eq!(c.validate().unwrap_err().message(), "session_days must be between 1 and 365");
    c.session_days = 366;
    assert!(c.validate().is_err());
    c.session_days = 365;
    assert!(c.validate().is_ok());

    let mut c = config();
    c.limits.max_temp_bytes_per_user = c.limits.max_upload_bytes - 1;
    assert_eq!(
        c.validate().unwrap_err().message(),
        "resource limits must be positive and max_temp_bytes_per_user must cover one upload"
    );

    let mut c = config();
    c.printer.name = " ".to_string();
    assert_eq!(c.validate().unwrap_err().message(), "printer.name is required when simulation is disabled");
    c.printer.simulate = true;
    assert!(c.validate().is_ok());
}

#[test]
fn database_url_names_the_database_file_with_forward_slashes() {
    let c = Config::with_data_dir("/var/lib/pp".to_string());
    assert_eq!(c.database_url(), "sqlite:///var/lib/pp/printing_platform.db");
    let c = Config::with_data_dir("C:\\Data\\pp".to_string());
    assert_eq!(c.database_url(), "sqlite://C:/Data/pp/printing_platform.db");
}

#[test]
fn data_dir_follows_the_documented_order() {
    assert_eq!(default_data_dir(Some("/srv/pp".into()), false, None, Some("/x".into()), Some("/home/a".into())), "/srv/pp");
    assert_eq!(default_data_dir(None, false, None, Some("/x".into()), Some("/home/a".into())), "/x/printing-platform");
    assert_eq!(default_data_dir(None, false, None, None, Some("/home/a".into())), "/home/a/.local/share/printing-platform");
    assert_eq!(default_data_dir(None, false, None, None, None), "/var/lib/printing-platform");
    assert_eq!(default_data_dir(None, true, None, None, None), "C:\\ProgramData\\PrintingPlatform");
    assert_eq!(default_data_dir(None, true, Some("D:/pd".into()), None, None), "D:/pd\\PrintingPlatform");
    assert_eq!(default_data_dir(None, true, Some("C:\\ProgramData".into()), None, None), "C:\\ProgramData\\PrintingPlatform");
    assert_eq!(default_data_dir(None, true, Some("E:\\".into()), None, None), "E:\\PrintingPlatform");
    assert_eq!(default_data_dir(None, true, Some("E:".into()), None, None), "E:PrintingPlatform");
}

#[test]
fn body_limit_grows_with_the_import_limit_and_caps_at_temp_space() {
    let mut c = config();
    c.limits.max_import_bytes = 300 * 1024 * 1024;
    assert_eq!(request_body_limit(&c), 301 * 1024 * 1024);
    let mut c = config();
    c.limits.max_files_per_request = 2;
    assert_eq!(request_body_limit(&c), 101 * 1024 * 1024);
}

#[test]
fn schedules_have_lower_bounds() {
    let mut c = config();
    assert_eq!(cleanup_interval_seconds(&c), 6 * 3600);
    c.cleanup_interval_hours = 0;
    assert_eq!(cleanup_interval_seconds(&c), 3600);
    c.temp_upload_retention_hours = -3;
    assert_eq!(temp_upload_retention_hours(&c), 1);
    c.file_retention_days = 0;
    assert_eq!(file_retention_days(&c), 1);
    c.file_retention_days = 30;
    assert_eq!(file_retention_days(&c), 30);
}

#[test]
fn config_file_is_looked_up_in_order() {
    assert_eq!(config_beside("/opt/pp/printing_platform").as_deref(), Some("/opt/pp/config.toml"));
    assert_eq!(config_beside("printing_platform").as_deref(), Some("config.toml"));
    assert_eq!(config_path_choice(Some("/etc/pp.toml".into()), Some("/opt/pp/config.toml".into()), true), "/etc/pp.toml");
    assert_eq!(config_path_choice(None, Some("/opt/pp/config.toml".into()), true), "/opt/pp/config.toml");
    assert_eq!(config_path_choice(None, Some("/opt/pp/config.toml".into()), false), "config.toml");
    assert_eq!(config_path_choice(None, None, false), "config.toml");
}
