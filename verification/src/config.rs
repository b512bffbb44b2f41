//! The platform's configuration: its sections, their defaults, the checks that
//! a loaded configuration must pass, and the paths and limits derived from it.
use vstd::prelude::*;

use crate::error::{is_bad_request, AppError};
use crate::text::{chars_of, replace_all, replace_chars, string_of, trim};

verus! {

/// Where the HTTP server listens.
#[derive(Debug, Clone)]
pub struct ServerConfig {
    pub bind: String,
}

/// Resource limits for uploads, imports and conversions.
#[derive(Debug, Clone)]
pub struct LimitsConfig {
    pub max_upload_bytes: u64,
    pub max_import_bytes: u64,
    pub max_files_per_request: usize,
    pub max_pages_per_file: i64,
    pub max_temp_bytes_per_user: u64,
    pub conversion_concurrency: usize,
}

/// The printer and how it is driven.
#[derive(Debug, Clone)]
pub struct PrinterConfig {
    pub name: String,
    pub simulate: bool,
    pub command_timeout_seconds: u64,
    pub job_discovery_seconds: u64,
    pub pdf_printer_path: String,
}

/// The external document converter.
#[derive(Debug, Clone)]
pub struct ConverterConfig {
    pub office_program: String,
    pub office_args: Vec<String>,
    pub command_timeout_seconds: u64,
}

/// The whole configuration. `data_dir` is the directory that holds the
/// database, the uploads, the previews and runtime files.
#[derive(Debug, Clone)]
pub struct Config {
    pub server: ServerConfig,
    pub data_dir: String,
    pub initial_admin_student_id: String,
    pub min_password_length: usize,
    pub default_daily_limit: i64,
    pub session_days: i64,
    pub queue_poll_seconds: u64,
    pub cleanup_interval_hours: u64,
    pub file_retention_days: i64,
    pub temp_upload_retention_hours: i64,
    pub limits: LimitsConfig,
    pub printer: PrinterConfig,
    pub converter: ConverterConfig,
}

impl Default for ServerConfig {
    fn default() -> (c: ServerConfig)
        ensures
            c.bind@ == "0.0.0.0:80"@,
    {
        ServerConfig { bind: crate::text::owned("0.0.0.0:80") }
    }
}

/// The default resource limits: 50 MiB per upload, 2 MiB per import, 10 files
/// per request, 500 pages per file, 200 MiB of temporary files per user and
/// one conversion at a time.
pub open spec fn default_limits(l: LimitsConfig) -> bool {
    &&& l.max_upload_bytes == 50 * 1024 * 1024
    &&& l.max_import_bytes == 2 * 1024 * 1024
    &&& l.max_files_per_request == 10
    &&& l.max_pages_per_file == 500
    &&& l.max_temp_bytes_per_user == 200 * 1024 * 1024
    &&& l.conversion_concurrency == 1
}

impl Default for LimitsConfig {
    fn default() -> (l: LimitsConfig)
        ensures
            default_limits(l),
    {
        LimitsConfig {
            max_upload_bytes: 50 * 1024 * 1024,
            max_import_bytes: 2 * 1024 * 1024,
            max_files_per_request: 10,
            max_pages_per_file: 500,
            max_temp_bytes_per_user: 200 * 1024 * 1024,
            conversion_concurrency: 1,
        }
    }
}

/// The default printer section: the lab's HP LaserJet, printed for real, with
/// a 60 s command timeout and 20 s to discover a submitted job.
pub open spec fn default_printer(p: PrinterConfig) -> bool {
    &&& p.name@ == "HP LaserJet Professional P1106"@
    &&& !p.simulate
    &&& p.command_timeout_seconds == 60
    &&& p.job_discovery_seconds == 20
    &&& p.pdf_printer_path@ == Seq::<char>::empty()
}

impl Default for PrinterConfig {
    fn default() -> (p: PrinterConfig)
        ensures
            default_printer(p),
    {
        PrinterConfig {
            name: crate::text::owned("HP LaserJet Professional P1106"),
            simulate: false,
            command_timeout_seconds: 60,
            job_discovery_seconds: 20,
            pdf_printer_path: String::new(),
        }
    }
}

impl Default for ConverterConfig {
    fn default() -> (c: ConverterConfig)
        ensures
            c.office_program@ == Seq::<char>::empty(),
            c.office_args@.len() == 0,
            c.command_timeout_seconds == 180,
    {
        ConverterConfig { office_program: String::new(), office_args: Vec::new(), command_timeout_seconds: 180 }
    }
}

/// Whether `c` holds the defaults of every setting but the data directory.
pub open spec fn defaults_besides_data_dir(c: Config) -> bool {
    &&& c.server.bind@ == "0.0.0.0:80"@
    &&& c.initial_admin_student_id@ == "admin"@
    &&& c.min_password_length == 8
    &&& c.default_daily_limit == 10
    &&& c.session_days == 30
    &&& c.queue_poll_seconds == 5
    &&& c.cleanup_interval_hours == 6
    &&& c.file_retention_days == 365
    &&& c.temp_upload_retention_hours == 24
    &&& default_limits(c.limits)
    &&& default_printer(c.printer)
    &&& c.converter.office_program@ == Seq::<char>::empty()
    &&& c.converter.office_args@.len() == 0
    &&& c.converter.command_timeout_seconds == 180
}

/// `base` joined with the relative path `name`, with a `/` between them unless
/// `base` is empty or already ends with one, as `Path::join` does on Unix.
pub open spec fn path_join(base: Seq<char>, name: Seq<char>) -> Seq<char> {
    if base.len() == 0 || base.last() == '/' {
        base + name
    } else {
        base + seq!['/'] + name
    }
}

/// `base` joined with the relative path `name` as `Path::join` does on
/// Windows: with a `\` between them unless `base` is empty, already ends with
/// `\` or `/`, or is a bare drive such as `C:`.
pub open spec fn windows_path_join(base: Seq<char>, name: Seq<char>) -> Seq<char> {
    if base.len() == 0 || base.last() == '\\' || base.last() == '/' || is_bare_drive(base) {
        base + name
    } else {
        base + seq!['\\'] + name
    }
}

/// Whether `base` is a drive letter and a colon, and nothing more.
pub open spec fn is_bare_drive(base: Seq<char>) -> bool {
    base.len() == 2 && base[1] == ':' && (('a' <= base[0] && base[0] <= 'z') || ('A' <= base[0] && base[0] <= 'Z'))
}

/// Joins the relative path `name` onto the Windows path `base`.
pub fn join_windows_path(base: &str, name: &str) -> (r: String)
    ensures
        r@ == windows_path_join(base@, name@),
{
    let b = chars_of(base);
    let mut out = crate::text::owned(base);
    let n = b.len();
    let bare_drive = n == 2 && b[1] == ':' && (('a' <= b[0] && b[0] <= 'z') || ('A' <= b[0] && b[0] <= 'Z'));
    if n > 0 && b[n - 1] != '\\' && b[n - 1] != '/' && !bare_drive {
        out.append("\\");
        proof {
            reveal_strlit("\\");
        }
    }
    out.append(name);
    out
}

/// Joins the relative path `name` onto `base`.
pub fn join_path(base: &str, name: &str) -> (r: String)
    ensures
        r@ == path_join(base@, name@),
{
    let b = chars_of(base);
    let mut out = crate::text::owned(base);
    if b.len() > 0 && b[b.len() - 1] != '/' {
        out.append("/");
        proof {
            reveal_strlit("/");
        }
    }
    out.append(name);
    out
}

/// The data directory that is used when the configuration names none: the
/// `PRINTING_PLATFORM_DATA_DIR` override if set; on Windows `PrintingPlatform`
/// under `PROGRAMDATA`, joined with `\` (or under `C:\ProgramData`); elsewhere
/// `printing-platform` under `XDG_DATA_HOME`, else `.local/share/printing-platform`
/// under `HOME`, else `/var/lib/printing-platform`.
pub open spec fn default_data_dir_spec(
    override_dir: Option<Seq<char>>,
    windows: bool,
    program_data: Option<Seq<char>>,
    xdg_data_home: Option<Seq<char>>,
    home: Option<Seq<char>>,
) -> Seq<char> {
    match override_dir {
        Some(d) => d,
        None => if windows {
            match program_data {
                Some(p) => windows_path_join(p, "PrintingPlatform"@),
                None => "C:\\ProgramData\\PrintingPlatform"@,
            }
        } else {
            match xdg_data_home {
                Some(x) => path_join(x, "printing-platform"@),
                None => match home {
                    Some(h) => path_join(h, ".local/share/printing-platform"@),
                    None => "/var/lib/printing-platform"@,
                },
            }
        },
    }
}

/// The view of an optional string.
pub open spec fn opt_view(o: Option<String>) -> Option<Seq<char>> {
    match o {
        Some(s) => Some(s@),
        None => None,
    }
}

/// Chooses the data directory from the environment's values.
pub fn default_data_dir(
    override_dir: Option<String>,
    windows: bool,
    program_data: Option<String>,
    xdg_data_home: Option<String>,
    home: Option<String>,
) -> (d: String)
    ensures
        d@ == default_data_dir_spec(opt_view(override_dir), windows, opt_view(program_data), opt_view(xdg_data_home), opt_view(home)),
{
    if let Some(d) = override_dir {
        return d;
    }
    if windows {
        match program_data {
            Some(p) => join_windows_path(p.as_str(), "PrintingPlatform"),
            None => crate::text::owned("C:\\ProgramData\\PrintingPlatform"),
        }
    } else {
        match xdg_data_home {
            Some(x) => join_path(x.as_str(), "printing-platform"),
            None => match home {
                Some(h) => join_path(h.as_str(), ".local/share/printing-platform"),
                None => crate::text::owned("/var/lib/printing-platform"),
            },
        }
    }
}

/// The outcome of checking a configuration: `Ok` or the message of the first
/// failed check.
pub open spec fn validate_spec(c: Config) -> Result<(), Seq<char>> {
    if trim(c.initial_admin_student_id@).len() == 0 {
        Err("initial_admin_student_id cannot be empty"@)
    } else if c.min_password_length == 0 {
        Err("min_password_length must be greater than 0"@)
    } else if c.default_daily_limit < 0 {
        Err("default_daily_limit cannot be negative"@)
    } else if c.session_days < 1 || c.session_days > 365 {
        Err("session_days must be between 1 and 365"@)
    } else if c.limits.max_upload_bytes == 0 || c.limits.max_import_bytes == 0
        || c.limits.max_files_per_request == 0 || c.limits.max_pages_per_file == 0
        || c.limits.max_temp_bytes_per_user < c.limits.max_upload_bytes
        || c.limits.conversion_concurrency == 0 {
        Err("resource limits must be positive and max_temp_bytes_per_user must cover one upload"@)
    } else if !c.printer.simulate && trim(c.printer.name@).len() == 0 {
        Err("printer.name is required when simulation is disabled"@)
    } else {
        Ok(())
    }
}

/// A configuration passes its checks only if it can serve: an administrator
/// id that is not blank, a positive minimum password length, a daily limit
/// that is not negative, sessions of 1 to 365 days, every resource limit
/// non-zero (the unsigned ones thus positive) with room for one upload in a
/// user's temporary space, and a printer name unless printing is simulated.
pub proof fn law_valid_configuration_can_serve(c: Config)
    requires
        validate_spec(c) is Ok,
    ensures
        trim(c.initial_admin_student_id@).len() > 0,
        c.min_password_length > 0,
        c.default_daily_limit >= 0,
        1 <= c.session_days <= 365,
        c.limits.max_upload_bytes > 0,
        c.limits.max_import_bytes > 0,
        c.limits.max_files_per_request > 0,
        c.limits.max_pages_per_file != 0,
        c.limits.conversion_concurrency > 0,
        c.limits.max_temp_bytes_per_user >= c.limits.max_upload_bytes,
        c.printer.simulate || trim(c.printer.name@).len() > 0,
{
}

/// The defaults pass the configuration's checks, whatever the data
/// directory.
pub proof fn law_defaults_are_valid(c: Config)
    requires
        defaults_besides_data_dir(c),
    ensures
        validate_spec(c) is Ok,
{
    reveal_strlit("admin");
    reveal_strlit("HP LaserJet Professional P1106");
    let a = c.initial_admin_student_id@;
    assert(crate::text::trim_start_by(a, crate::text::CharClass::Whitespace) == a);
    assert(crate::text::trim_end_by(a, crate::text::CharClass::Whitespace) == a);
    let n = c.printer.name@;
    assert(crate::text::trim_start_by(n, crate::text::CharClass::Whitespace) == n);
    assert(crate::text::trim_end_by(n, crate::text::CharClass::Whitespace) == n);
}

/// The database URL for a data directory.
pub open spec fn database_url_spec(data_dir: Seq<char>) -> Seq<char> {
    "sqlite://"@ + replace_all(path_join(data_dir, "printing_platform.db"@), seq!['\\'], seq!['/'])
}

impl Config {
    /// The configuration with every default and the given data directory.
    pub fn with_data_dir(data_dir: String) -> (c: Config)
        ensures
            defaults_besides_data_dir(c),
            c.data_dir == data_dir,
    {
        Config {
            server: ServerConfig::default(),
            data_dir,
            initial_admin_student_id: crate::text::owned("admin"),
            min_password_length: 8,
            default_daily_limit: 10,
            session_days: 30,
            queue_poll_seconds: 5,
            cleanup_interval_hours: 6,
            file_retention_days: 365,
            temp_upload_retention_hours: 24,
            limits: LimitsConfig::default(),
            printer: PrinterConfig::default(),
            converter: ConverterConfig::default(),
        }
    }

    /// The SQLite URL of the platform's database inside the data directory,
    /// with backslashes turned into slashes.
    pub fn database_url(&self) -> (url: String)
        ensures
            url@ == database_url_spec(self.data_dir@),
    {
        let path = join_path(self.data_dir.as_str(), "printing_platform.db");
        let chars = chars_of(path.as_str());
        let backslash: [char; 1] = ['\\'];
        let slash: [char; 1] = ['/'];
        let fixed = replace_chars(chars.as_slice(), backslash.as_slice(), slash.as_slice());
        assert(backslash@ == seq!['\\']);
        assert(slash@ == seq!['/']);
        let tail = string_of(fixed.as_slice());
        let mut url = crate::text::owned("sqlite://");
        url.append(tail.as_str());
        url
    }

    /// Checks the configuration: the initial administrator's student id is not
    /// blank, passwords need at least one character, the default daily limit is
    /// not negative, sessions last 1 to 365 days, the resource limits are
    /// positive with room for one upload in a user's temporary space, and a
    /// printer is named unless printing is simulated.
    pub fn validate(&self) -> (r: Result<(), AppError>)
        ensures
            match validate_spec(*self) {
                Ok(()) => r is Ok,
                Err(m) => r is Err && is_bad_request(r->Err_0, m),
            },
            r is Ok ==> self.limits.max_upload_bytes > 0 && self.limits.max_import_bytes > 0
                && self.limits.max_files_per_request > 0 && self.limits.max_pages_per_file != 0
                && self.limits.conversion_concurrency > 0
                && self.limits.max_temp_bytes_per_user >= self.limits.max_upload_bytes,
    {
        let admin = crate::text::trim_str(self.initial_admin_student_id.as_str());
        if admin.as_str().is_empty() {
            return Err(crate::error::bad_request("initial_admin_student_id cannot be empty"));
        }
        if self.min_password_length == 0 {
            return Err(crate::error::bad_request("min_password_length must be greater than 0"));
        }
        if self.default_daily_limit < 0 {
            return Err(crate::error::bad_request("default_daily_limit cannot be negative"));
        }
        if self.session_days < 1 || self.session_days > 365 {
            return Err(crate::error::bad_request("session_days must be between 1 and 365"));
        }
        let l = &self.limits;
        if l.max_upload_bytes == 0 || l.max_import_bytes == 0 || l.max_files_per_request == 0
            || l.max_pages_per_file == 0 || l.max_temp_bytes_per_user < l.max_upload_bytes
            || l.conversion_concurrency == 0 {
            return Err(crate::error::bad_request(
                "resource limits must be positive and max_temp_bytes_per_user must cover one upload",
            ));
        }
        if !self.printer.simulate {
            let name = crate::text::trim_str(self.printer.name.as_str());
            if name.as_str().is_empty() {
                return Err(crate::error::bad_request("printer.name is required when simulation is disabled"));
            }
        }
        Ok(())
    }
}

/// The largest request body the API accepts: room for a full batch of uploads
/// (capped by a user's temporary space) or one import, whichever is larger,
/// plus 1 MiB for multipart overhead; saturating instead of overflowing.
pub open spec fn request_body_limit_spec(c: Config) -> int {
    let batch: int = c.limits.max_upload_bytes as int * c.limits.max_files_per_request as int;
    let batch_capped: int = if batch > u64::MAX { u64::MAX as int } else { batch };
    let uploads: int = if batch_capped < c.limits.max_temp_bytes_per_user as int {
        batch_capped
    } else {
        c.limits.max_temp_bytes_per_user as int
    };
    let largest: int = if uploads > c.limits.max_import_bytes as int {
        uploads
    } else {
        c.limits.max_import_bytes as int
    };
    let total: int = if largest + 1024 * 1024 > u64::MAX { u64::MAX as int } else { largest + 1024 * 1024 };
    if total > usize::MAX { usize::MAX as int } else { total }
}

/// The largest request body the API accepts.
pub fn request_body_limit(config: &Config) -> (n: usize)
    ensures
        n == request_body_limit_spec(*config),
{
    let l = &config.limits;
    let files: u64 = l.max_files_per_request as u64;
    let batch: u64 = if files != 0 && l.max_upload_bytes > u64::MAX / files {
        u64::MAX
    } else {
        assert(l.max_upload_bytes as int * files as int <= u64::MAX) by (nonlinear_arith)
            requires
                files == 0 || l.max_upload_bytes <= u64::MAX / files,
        {
        }
        l.max_upload_bytes * files
    };
    proof {
        if files != 0 && l.max_upload_bytes > u64::MAX / files {
            assert(l.max_upload_bytes as int * files as int > u64::MAX) by (nonlinear_arith)
                requires
                    files > 0,
                    l.max_upload_bytes > u64::MAX / files,
            {
            }
        }
    }
    let uploads: u64 = if batch < l.max_temp_bytes_per_user { batch } else { l.max_temp_bytes_per_user };
    let largest: u64 = if uploads > l.max_import_bytes { uploads } else { l.max_import_bytes };
    let total: u64 = if largest > u64::MAX - 1024 * 1024 { u64::MAX } else { largest + 1024 * 1024 };
    if total as u128 > usize::MAX as u128 {
        usize::MAX
    } else {
        total as usize
    }
}

/// How often expired files are cleaned up, in seconds: the configured hours,
/// at least one.
pub fn cleanup_interval_seconds(config: &Config) -> (s: u64)
    requires
        config.cleanup_interval_hours * 3600 <= u64::MAX,
    ensures
        s == (if config.cleanup_interval_hours < 1 { 1 } else { config.cleanup_interval_hours }) * 3600,
{
    let hours: u64 = if config.cleanup_interval_hours < 1 { 1 } else { config.cleanup_interval_hours };
    hours * 3600
}

/// How long uploads that were never submitted are kept, in hours: the
/// configured hours, at least one.
pub fn temp_upload_retention_hours(config: &Config) -> (h: i64)
    ensures
        h == (if config.temp_upload_retention_hours < 1 { 1 } else { config.temp_upload_retention_hours }),
{
    if config.temp_upload_retention_hours < 1 {
        1
    } else {
        config.temp_upload_retention_hours
    }
}

/// How long finished tasks and their files are kept, in days: the configured
/// days, at least one.
pub fn file_retention_days(config: &Config) -> (d: i64)
    ensures
        d == (if config.file_retention_days < 1 { 1 } else { config.file_retention_days }),
{
    if config.file_retention_days < 1 {
        1
    } else {
        config.file_retention_days
    }
}

/// The configuration file beside the running program: `config.toml` in the
/// directory that holds it.
pub fn config_beside(executable: &str) -> (r: Option<String>)
    ensures
        match crate::paths::parent_spec(executable@) {
            None => r is None,
            Some(d) => r matches Some(p) && p@ == path_join(d, "config.toml"@),
        },
{
    match crate::paths::parent_of(executable) {
        None => None,
        Some(d) => Some(join_path(d.as_str(), "config.toml")),
    }
}

/// The configuration file to read: the one that
/// `PRINTING_PLATFORM_CONFIG` names; else the one beside the program, if it
/// exists; else `config.toml` in the current directory.
pub fn config_path_choice(named: Option<String>, beside: Option<String>, beside_exists: bool) -> (p: String)
    ensures
        p@ == (match named {
            Some(n) => n@,
            None => match beside {
                Some(b) => if beside_exists { b@ } else { "config.toml"@ },
                None => "config.toml"@,
            },
        }),
{
    match named {
        Some(n) => n,
        None => match beside {
            Some(b) => if beside_exists { b } else { crate::text::owned("config.toml") },
            None => crate::text::owned("config.toml"),
        },
    }
}

} // verus!
