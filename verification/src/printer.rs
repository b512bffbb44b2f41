//! The printer's state as the platform sees it: how a status report of the
//! printer backend is classified into blocking reasons and warnings, how a
//! refreshed state is merged, which spooler job belongs to a task, and the
//! backend's command lines and replies.
use vstd::prelude::*;

use crate::config::Config;
use crate::error::AppError;
use crate::import::views;
use crate::number::{all_digits, dec_int, dec_string_i64, digits_value};
use crate::quota::is_date_text;
use crate::text::{chars_of, contains_chars, contains_seq, lower_ascii, owned, to_ascii_lower};

verus! {

/// A job in the printer's spooler queue.
#[derive(Debug, Clone)]
pub struct PrinterJob {
    pub id: i64,
    pub name: String,
    pub status: String,
    pub total_pages: i64,
    pub pages_printed: i64,
}

/// The printer's state as shown to users and used by the queue.
#[derive(Debug, Clone)]
pub struct PrinterState {
    pub mode: String,
    pub queue_name: String,
    pub available: bool,
    pub status: String,
    pub blocked: bool,
    pub blocking_reasons: Vec<String>,
    pub warnings: Vec<String>,
    pub jobs: Vec<PrinterJob>,
    pub checked_at: String,
    pub error: Option<String>,
    pub toner_alert_acknowledged: bool,
}

/// A status report of the printer backend.
#[derive(Debug, Clone)]
pub struct BackendStatus {
    pub available: bool,
    pub status: String,
    pub is_offline: bool,
    pub is_paused: bool,
    pub is_in_error: bool,
    pub is_not_available: bool,
    pub need_user_intervention: bool,
    pub is_out_of_paper: bool,
    pub has_paper_problem: bool,
    pub is_paper_jammed: bool,
    pub is_toner_low: bool,
    pub is_out_of_memory: bool,
    pub is_output_bin_full: bool,
    pub is_door_opened: bool,
    pub is_manual_feed_required: bool,
    pub is_server_unknown: bool,
    pub jobs: Vec<PrinterJob>,
}

/// The spooler job that the backend created for a submitted PDF.
#[derive(Debug, Clone)]
pub struct SubmittedJob {
    pub job_id: i64,
    pub job_name: String,
}

/// Whether `t` is a time of day as `T` and `hh:mm:ss`: an hour up to 23, a
/// minute up to 59 and a second up to 60 (a leap second), two digits each.
pub open spec fn is_clock_text(t: Seq<char>) -> bool {
    &&& t.len() == 9
    &&& t[0] == 'T'
    &&& t[3] == ':'
    &&& t[6] == ':'
    &&& all_digits(t.subrange(1, 3)) && digits_value(t.subrange(1, 3)) <= 23
    &&& all_digits(t.subrange(4, 6)) && digits_value(t.subrange(4, 6)) <= 59
    &&& all_digits(t.subrange(7, 9)) && digits_value(t.subrange(7, 9)) <= 60
}

/// Whether `f` is the fraction of a second that chrono writes: nothing for a
/// whole second, else a `.` and 3, 6 or 9 digits.
pub open spec fn is_fraction_text(f: Seq<char>) -> bool {
    ||| f.len() == 0
    ||| (f.len() == 4 || f.len() == 7 || f.len() == 10) && f[0] == '.' && all_digits(f.drop_first())
}

/// Whether `o` is an offset from UTC as `+hh:mm` or `-hh:mm`, rounded to the
/// minute.
pub open spec fn is_offset_text(o: Seq<char>) -> bool {
    &&& o.len() == 6
    &&& o[0] == '+' || o[0] == '-'
    &&& o[3] == ':'
    &&& all_digits(o.subrange(1, 3)) && digits_value(o.subrange(1, 3)) <= 24
    &&& all_digits(o.subrange(4, 6)) && digits_value(o.subrange(4, 6)) <= 59
}

/// Whether `s` is a date and time as chrono's `to_rfc3339` writes it: the
/// date as `%Y-%m-%d`, the time of day, the fraction of a second, and the
/// offset.
pub open spec fn is_rfc3339_text(s: Seq<char>) -> bool {
    exists|date: Seq<char>, clock: Seq<char>, fraction: Seq<char>, offset: Seq<char>|
        #![trigger is_date_text(date), is_clock_text(clock), is_fraction_text(fraction), is_offset_text(offset)]
        s == date + clock + fraction + offset && is_date_text(date) && is_clock_text(clock)
            && is_fraction_text(fraction) && is_offset_text(offset)
}

/// The current local time, written by chrono's `Local::now()` and
/// `to_rfc3339` (`write_rfc3339` with `SecondsFormat::AutoSi` and an offset
/// rounded to minutes with a colon). The contract states that form; which
/// time it is depends on the clock and is not stated.
#[verifier::external_body]
fn local_now_rfc3339() -> (t: String)
    ensures
        is_rfc3339_text(t@),
{
    chrono::Local::now().to_rfc3339()
}

/// A list of texts with one more at the end.
pub open spec fn add_if(list: Seq<Seq<char>>, cond: bool, item: Seq<char>) -> Seq<Seq<char>> {
    if cond {
        list.push(item)
    } else {
        list
    }
}

/// Whether a spooler job's status (in any case) mentions an error, a block or
/// being offline.
pub open spec fn job_reports_error(job: PrinterJob) -> bool {
    let s = to_ascii_lower(job.status@);
    contains_seq(s, "error"@) || contains_seq(s, "blocked"@) || contains_seq(s, "offline"@)
}

/// Whether any spooler job reports an error.
pub open spec fn any_job_reports_error(jobs: Seq<PrinterJob>) -> bool {
    exists|i: int| 0 <= i < jobs.len() && job_reports_error(#[trigger] jobs[i])
}

/// The reasons that block printing, in the order they are listed: the
/// specific conditions first; a generic error, a call for intervention or a
/// failing spooler job only when nothing more specific was found.
pub open spec fn blocking_reasons_spec(raw: BackendStatus) -> Seq<Seq<char>> {
    let r = add_if(Seq::empty(), !raw.available || raw.is_not_available || raw.is_server_unknown, "打印机不可用"@);
    let r = add_if(r, raw.is_offline, "打印机脱机"@);
    let r = add_if(r, raw.is_paused, "Windows 打印队列已暂停"@);
    let r = add_if(r, raw.is_out_of_paper || raw.has_paper_problem, "打印机缺纸或纸张异常"@);
    let r = add_if(r, raw.is_paper_jammed, "打印机卡纸"@);
    let r = add_if(r, raw.is_door_opened, "打印机舱门打开"@);
    let r = add_if(r, raw.is_manual_feed_required, "打印机要求手动进纸"@);
    let r = add_if(r, raw.is_out_of_memory, "打印机内存不足"@);
    let r = add_if(r, raw.is_output_bin_full, "打印机出纸槽已满"@);
    let r = add_if(r, raw.is_in_error && r.len() == 0, "打印机报告错误"@);
    let r = add_if(r, raw.need_user_intervention && r.len() == 0, "打印机需要人工处理"@);
    add_if(r, any_job_reports_error(raw.jobs@) && r.len() == 0, "Windows 打印作业报告错误"@)
}

/// Whether the report says the toner is low: the flag, or a status that
/// mentions `tonerlow`, `no toner` or `notoner` in any case.
pub open spec fn toner_low_spec(raw: BackendStatus) -> bool {
    let s = to_ascii_lower(raw.status@);
    raw.is_toner_low || contains_seq(s, "tonerlow"@) || contains_seq(s, "no toner"@) || contains_seq(s, "notoner"@)
}

/// The warning shown when the toner is low.
pub open spec fn toner_warning() -> Seq<char> {
    "打印机可能墨粉不足，请管理员检查硒鼓（驱动估算结果）"@
}

/// What classifying a report gives, apart from the time it was taken.
pub open spec fn classified(config: Config, raw: BackendStatus, s: PrinterState) -> bool {
    &&& s.mode@ == "windows"@
    &&& s.queue_name@ == config.printer.name@
    &&& s.available == raw.available
    &&& s.status@ == (if raw.status@.len() == 0 { "Unknown"@ } else { raw.status@ })
    &&& views(s.blocking_reasons@) == blocking_reasons_spec(raw)
    &&& s.blocked == (blocking_reasons_spec(raw).len() > 0)
    &&& views(s.warnings@) == (if toner_low_spec(raw) { seq![toner_warning()] } else { Seq::empty() })
    &&& s.jobs@ == raw.jobs@
    &&& s.error is None
    &&& !s.toner_alert_acknowledged
}

/// Appending under a condition keeps what was listed and adds only the item.
proof fn lemma_add_if_contains(list: Seq<Seq<char>>, cond: bool, item: Seq<char>, x: Seq<char>)
    ensures
        add_if(list, cond, item).contains(x) <==> (list.contains(x) || (cond && item == x)),
        add_if(list, cond, item).len() >= list.len(),
{
    if cond {
        let l = list.push(item);
        if list.contains(x) {
            let i = choose|i: int| 0 <= i < list.len() && list[i] == x;
            assert(l[i] == x);
        }
        if l.contains(x) && !list.contains(x) {
            let i = choose|i: int| 0 <= i < l.len() && l[i] == x;
            if i < list.len() {
                assert(list[i] == x);
            }
        }
        if item == x {
            assert(l[list.len() as int] == x);
        }
    }
}

/// Each reported specific fault puts its message among the blocking reasons,
/// so that the list is not empty.
proof fn lemma_reported_reasons_listed(raw: BackendStatus)
    ensures
        (!raw.available || raw.is_not_available || raw.is_server_unknown) ==> blocking_reasons_spec(raw).contains("打印机不可用"@),
        raw.is_offline ==> blocking_reasons_spec(raw).contains("打印机脱机"@),
        raw.is_paused ==> blocking_reasons_spec(raw).contains("Windows 打印队列已暂停"@),
        (raw.is_out_of_paper || raw.has_paper_problem) ==> blocking_reasons_spec(raw).contains("打印机缺纸或纸张异常"@),
        raw.is_paper_jammed ==> blocking_reasons_spec(raw).contains("打印机卡纸"@),
        raw.is_door_opened ==> blocking_reasons_spec(raw).contains("打印机舱门打开"@),
        raw.is_manual_feed_required ==> blocking_reasons_spec(raw).contains("打印机要求手动进纸"@),
        raw.is_out_of_memory ==> blocking_reasons_spec(raw).contains("打印机内存不足"@),
        raw.is_output_bin_full ==> blocking_reasons_spec(raw).contains("打印机出纸槽已满"@),
{
    let jam = "打印机卡纸"@;
    reveal_strlit("打印机卡纸");
    reveal_strlit("打印机不可用");
    reveal_strlit("打印机脱机");
    reveal_strlit("Windows 打印队列已暂停");
    reveal_strlit("打印机缺纸或纸张异常");
    reveal_strlit("打印机舱门打开");
    reveal_strlit("打印机要求手动进纸");
    reveal_strlit("打印机内存不足");
    reveal_strlit("打印机出纸槽已满");
    reveal_strlit("打印机报告错误");
    reveal_strlit("打印机需要人工处理");
    reveal_strlit("Windows 打印作业报告错误");
    let r0 = Seq::<Seq<char>>::empty();
    let c1 = !raw.available || raw.is_not_available || raw.is_server_unknown;
    let r1 = add_if(r0, c1, "打印机不可用"@);
    let r2 = add_if(r1, raw.is_offline, "打印机脱机"@);
    let r3 = add_if(r2, raw.is_paused, "Windows 打印队列已暂停"@);
    let r4 = add_if(r3, raw.is_out_of_paper || raw.has_paper_problem, "打印机缺纸或纸张异常"@);
    let r5 = add_if(r4, raw.is_paper_jammed, jam);
    let r6 = add_if(r5, raw.is_door_opened, "打印机舱门打开"@);
    let r7 = add_if(r6, raw.is_manual_feed_required, "打印机要求手动进纸"@);
    let r8 = add_if(r7, raw.is_out_of_memory, "打印机内存不足"@);
    let r9 = add_if(r8, raw.is_output_bin_full, "打印机出纸槽已满"@);
    let r10 = add_if(r9, raw.is_in_error && r9.len() == 0, "打印机报告错误"@);
    let r11 = add_if(r10, raw.need_user_intervention && r10.len() == 0, "打印机需要人工处理"@);
    let r12 = add_if(r11, any_job_reports_error(raw.jobs@) && r11.len() == 0, "Windows 打印作业报告错误"@);
    assert(r12 == blocking_reasons_spec(raw));
    lemma_add_if_extends(r0, c1, "打印机不可用"@);
    lemma_add_if_extends(r1, raw.is_offline, "打印机脱机"@);
    lemma_add_if_extends(r2, raw.is_paused, "Windows 打印队列已暂停"@);
    lemma_add_if_extends(r3, raw.is_out_of_paper || raw.has_paper_problem, "打印机缺纸或纸张异常"@);
    lemma_add_if_extends(r4, raw.is_paper_jammed, jam);
    lemma_add_if_extends(r5, raw.is_door_opened, "打印机舱门打开"@);
    lemma_add_if_extends(r6, raw.is_manual_feed_required, "打印机要求手动进纸"@);
    lemma_add_if_extends(r7, raw.is_out_of_memory, "打印机内存不足"@);
    lemma_add_if_extends(r8, raw.is_output_bin_full, "打印机出纸槽已满"@);
    lemma_add_if_extends(r9, raw.is_in_error && r9.len() == 0, "打印机报告错误"@);
    lemma_add_if_extends(r10, raw.need_user_intervention && r10.len() == 0, "打印机需要人工处理"@);
    lemma_add_if_extends(r11, any_job_reports_error(raw.jobs@) && r11.len() == 0, "Windows 打印作业报告错误"@);
    if c1 {
        assert(r12[0] == "打印机不可用"@);
    }
    if raw.is_offline {
        assert(r12[r2.len() - 1] == "打印机脱机"@);
    }
    if raw.is_paused {
        assert(r12[r3.len() - 1] == "Windows 打印队列已暂停"@);
    }
    if raw.is_out_of_paper || raw.has_paper_problem {
        assert(r12[r4.len() - 1] == "打印机缺纸或纸张异常"@);
    }
    if raw.is_paper_jammed {
        assert(r12[r5.len() - 1] == jam);
    }
    if raw.is_door_opened {
        assert(r12[r6.len() - 1] == "打印机舱门打开"@);
    }
    if raw.is_manual_feed_required {
        assert(r12[r7.len() - 1] == "打印机要求手动进纸"@);
    }
    if raw.is_out_of_memory {
        assert(r12[r8.len() - 1] == "打印机内存不足"@);
    }
    if raw.is_output_bin_full {
        assert(r12[r9.len() - 1] == "打印机出纸槽已满"@);
    }
}

/// A listed blocking reason is one of the messages, and each specific one is
/// listed only when its fault is reported.
proof fn lemma_listed_reasons(raw: BackendStatus, x: Seq<char>)
    ensures
        blocking_reasons_spec(raw).contains(x) ==> {
            ||| (!raw.available || raw.is_not_available || raw.is_server_unknown) && x == "打印机不可用"@
            ||| raw.is_offline && x == "打印机脱机"@
            ||| raw.is_paused && x == "Windows 打印队列已暂停"@
            ||| (raw.is_out_of_paper || raw.has_paper_problem) && x == "打印机缺纸或纸张异常"@
            ||| raw.is_paper_jammed && x == "打印机卡纸"@
            ||| raw.is_door_opened && x == "打印机舱门打开"@
            ||| raw.is_manual_feed_required && x == "打印机要求手动进纸"@
            ||| raw.is_out_of_memory && x == "打印机内存不足"@
            ||| raw.is_output_bin_full && x == "打印机出纸槽已满"@
            ||| x == "打印机报告错误"@
            ||| x == "打印机需要人工处理"@
            ||| x == "Windows 打印作业报告错误"@
        },
{
    let r0 = Seq::<Seq<char>>::empty();
    let c1 = !raw.available || raw.is_not_available || raw.is_server_unknown;
    let r1 = add_if(r0, c1, "打印机不可用"@);
    let r2 = add_if(r1, raw.is_offline, "打印机脱机"@);
    let r3 = add_if(r2, raw.is_paused, "Windows 打印队列已暂停"@);
    let r4 = add_if(r3, raw.is_out_of_paper || raw.has_paper_problem, "打印机缺纸或纸张异常"@);
    let r5 = add_if(r4, raw.is_paper_jammed, "打印机卡纸"@);
    let r6 = add_if(r5, raw.is_door_opened, "打印机舱门打开"@);
    let r7 = add_if(r6, raw.is_manual_feed_required, "打印机要求手动进纸"@);
    let r8 = add_if(r7, raw.is_out_of_memory, "打印机内存不足"@);
    let r9 = add_if(r8, raw.is_output_bin_full, "打印机出纸槽已满"@);
    let r10 = add_if(r9, raw.is_in_error && r9.len() == 0, "打印机报告错误"@);
    let r11 = add_if(r10, raw.need_user_intervention && r10.len() == 0, "打印机需要人工处理"@);
    let r12 = add_if(r11, any_job_reports_error(raw.jobs@) && r11.len() == 0, "Windows 打印作业报告错误"@);
    assert(r12 == blocking_reasons_spec(raw));
    assert(!r0.contains(x));
    lemma_add_if_contains(r0, c1, "打印机不可用"@, x);
    lemma_add_if_contains(r1, raw.is_offline, "打印机脱机"@, x);
    lemma_add_if_contains(r2, raw.is_paused, "Windows 打印队列已暂停"@, x);
    lemma_add_if_contains(r3, raw.is_out_of_paper || raw.has_paper_problem, "打印机缺纸或纸张异常"@, x);
    lemma_add_if_contains(r4, raw.is_paper_jammed, "打印机卡纸"@, x);
    lemma_add_if_contains(r5, raw.is_door_opened, "打印机舱门打开"@, x);
    lemma_add_if_contains(r6, raw.is_manual_feed_required, "打印机要求手动进纸"@, x);
    lemma_add_if_contains(r7, raw.is_out_of_memory, "打印机内存不足"@, x);
    lemma_add_if_contains(r8, raw.is_output_bin_full, "打印机出纸槽已满"@, x);
    lemma_add_if_contains(r9, raw.is_in_error && r9.len() == 0, "打印机报告错误"@, x);
    lemma_add_if_contains(r10, raw.need_user_intervention && r10.len() == 0, "打印机需要人工处理"@, x);
    lemma_add_if_contains(r11, any_job_reports_error(raw.jobs@) && r11.len() == 0, "Windows 打印作业报告错误"@, x);
}

/// Each specific blocking reason is listed exactly when its fault is
/// reported: unavailable, offline, paused, paper out or faulty, jammed, door
/// open, manual feed, out of memory, output bin full.
pub proof fn law_reasons_match_faults(raw: BackendStatus)
    ensures
        blocking_reasons_spec(raw).contains("打印机不可用"@) <==> (!raw.available || raw.is_not_available || raw.is_server_unknown),
        blocking_reasons_spec(raw).contains("打印机脱机"@) <==> raw.is_offline,
        blocking_reasons_spec(raw).contains("Windows 打印队列已暂停"@) <==> raw.is_paused,
        blocking_reasons_spec(raw).contains("打印机缺纸或纸张异常"@) <==> (raw.is_out_of_paper || raw.has_paper_problem),
        blocking_reasons_spec(raw).contains("打印机卡纸"@) <==> raw.is_paper_jammed,
        blocking_reasons_spec(raw).contains("打印机舱门打开"@) <==> raw.is_door_opened,
        blocking_reasons_spec(raw).contains("打印机要求手动进纸"@) <==> raw.is_manual_feed_required,
        blocking_reasons_spec(raw).contains("打印机内存不足"@) <==> raw.is_out_of_memory,
        blocking_reasons_spec(raw).contains("打印机出纸槽已满"@) <==> raw.is_output_bin_full,
{
    reveal_strlit("打印机卡纸");
    reveal_strlit("打印机不可用");
    reveal_strlit("打印机脱机");
    reveal_strlit("Windows 打印队列已暂停");
    reveal_strlit("打印机缺纸或纸张异常");
    reveal_strlit("打印机舱门打开");
    reveal_strlit("打印机要求手动进纸");
    reveal_strlit("打印机内存不足");
    reveal_strlit("打印机出纸槽已满");
    reveal_strlit("打印机报告错误");
    reveal_strlit("打印机需要人工处理");
    reveal_strlit("Windows 打印作业报告错误");
    let ms = seq![
        "打印机不可用"@, "打印机脱机"@, "Windows 打印队列已暂停"@, "打印机缺纸或纸张异常"@,
        "打印机卡纸"@, "打印机舱门打开"@, "打印机要求手动进纸"@, "打印机内存不足"@,
        "打印机出纸槽已满"@, "打印机报告错误"@, "打印机需要人工处理"@, "Windows 打印作业报告错误"@,
    ];
    assert forall|a: int, b: int| 0 <= a < 12 && 0 <= b < 12 && a != b implies ms[a] != ms[b] by {
        if ms[a].len() == ms[b].len() {
            assert(ms[a][3] != ms[b][3] || ms[a][4] != ms[b][4]);
        }
    }
    let flags = seq![
        !raw.available || raw.is_not_available || raw.is_server_unknown, raw.is_offline, raw.is_paused,
        raw.is_out_of_paper || raw.has_paper_problem, raw.is_paper_jammed, raw.is_door_opened,
        raw.is_manual_feed_required, raw.is_out_of_memory, raw.is_output_bin_full,
    ];
    assert forall|k: int| 0 <= k < 9 && blocking_reasons_spec(raw).contains(#[trigger] ms[k]) implies flags[k] by {
        lemma_listed_reasons(raw, ms[k]);
        assert(ms[k] != ms[9] && ms[k] != ms[10] && ms[k] != ms[11]);
        assert(forall|j: int| 0 <= j < 9 && j != k ==> ms[k] != #[trigger] ms[j]);
    }
    lemma_reported_reasons_listed(raw);
    assert(blocking_reasons_spec(raw).contains(ms[0]) ==> (!raw.available || raw.is_not_available || raw.is_server_unknown));
    assert(blocking_reasons_spec(raw).contains(ms[1]) ==> raw.is_offline);
    assert(blocking_reasons_spec(raw).contains(ms[2]) ==> raw.is_paused);
    assert(blocking_reasons_spec(raw).contains(ms[3]) ==> (raw.is_out_of_paper || raw.has_paper_problem));
    assert(blocking_reasons_spec(raw).contains(ms[4]) ==> raw.is_paper_jammed);
    assert(blocking_reasons_spec(raw).contains(ms[5]) ==> raw.is_door_opened);
    assert(blocking_reasons_spec(raw).contains(ms[6]) ==> raw.is_manual_feed_required);
    assert(blocking_reasons_spec(raw).contains(ms[7]) ==> raw.is_out_of_memory);
    assert(blocking_reasons_spec(raw).contains(ms[8]) ==> raw.is_output_bin_full);
}

/// What a classified report blocks on. A jammed printer is blocked for the
/// jam, and the jam is listed exactly when the report says the paper is
/// jammed; each specific fault (unavailable, offline, paused, paper out or
/// faulty, jammed, door open, manual feed, out of memory, output bin full) is
/// listed when reported, and any of them blocks printing. Printing is blocked
/// exactly when some reason is listed.
pub proof fn law_specific_faults_block(config: Config, raw: BackendStatus, s: PrinterState)
    requires
        classified(config, raw, s),
    ensures
        views(s.blocking_reasons@).contains("打印机卡纸"@) <==> raw.is_paper_jammed,
        (!raw.available || raw.is_not_available || raw.is_server_unknown) ==> views(s.blocking_reasons@).contains("打印机不可用"@),
        raw.is_offline ==> views(s.blocking_reasons@).contains("打印机脱机"@),
        raw.is_paused ==> views(s.blocking_reasons@).contains("Windows 打印队列已暂停"@),
        (raw.is_out_of_paper || raw.has_paper_problem) ==> views(s.blocking_reasons@).contains("打印机缺纸或纸张异常"@),
        raw.is_door_opened ==> views(s.blocking_reasons@).contains("打印机舱门打开"@),
        raw.is_manual_feed_required ==> views(s.blocking_reasons@).contains("打印机要求手动进纸"@),
        raw.is_out_of_memory ==> views(s.blocking_reasons@).contains("打印机内存不足"@),
        raw.is_output_bin_full ==> views(s.blocking_reasons@).contains("打印机出纸槽已满"@),
        (!raw.available || raw.is_not_available || raw.is_server_unknown || raw.is_offline || raw.is_paused
            || raw.is_out_of_paper || raw.has_paper_problem || raw.is_paper_jammed || raw.is_door_opened
            || raw.is_manual_feed_required || raw.is_out_of_memory || raw.is_output_bin_full) ==> s.blocked,
        s.blocked <==> s.blocking_reasons@.len() > 0,
{
    lemma_reported_reasons_listed(raw);
    law_reasons_match_faults(raw);
    assert(views(s.blocking_reasons@).len() == s.blocking_reasons@.len());
}

/// Appending under a condition keeps every earlier item where it was.
proof fn lemma_add_if_extends(list: Seq<Seq<char>>, cond: bool, item: Seq<char>)
    ensures
        add_if(list, cond, item).len() >= list.len(),
        cond ==> add_if(list, cond, item).len() == list.len() + 1 && add_if(list, cond, item).last() == item,
        forall|j: int| 0 <= j < list.len() ==> #[trigger] add_if(list, cond, item)[j] == list[j],
{
}

/// Low toner only warns: two reports that differ only in the toner flag and
/// the status text block printing for the same reasons.
pub proof fn law_toner_never_blocks(a: BackendStatus, b: BackendStatus)
    requires
        a.available == b.available,
        a.is_offline == b.is_offline,
        a.is_paused == b.is_paused,
        a.is_in_error == b.is_in_error,
        a.is_not_available == b.is_not_available,
        a.need_user_intervention == b.need_user_intervention,
        a.is_out_of_paper == b.is_out_of_paper,
        a.has_paper_problem == b.has_paper_problem,
        a.is_paper_jammed == b.is_paper_jammed,
        a.is_out_of_memory == b.is_out_of_memory,
        a.is_output_bin_full == b.is_output_bin_full,
        a.is_door_opened == b.is_door_opened,
        a.is_manual_feed_required == b.is_manual_feed_required,
        a.is_server_unknown == b.is_server_unknown,
        a.jobs@ == b.jobs@,
    ensures
        blocking_reasons_spec(a) == blocking_reasons_spec(b),
{
}

/// Appends `item` when `cond` holds.
fn push_if(list: &mut Vec<String>, cond: bool, item: &str)
    ensures
        views(final(list)@) == add_if(views(old(list)@), cond, item@),
{
    if cond {
        list.push(owned(item));
        assert(views(list@) =~= views(old(list)@).push(item@));
    }
}

/// Whether a spooler job reports an error.
fn job_has_error(job: &PrinterJob) -> (b: bool)
    ensures
        b == job_reports_error(*job),
{
    let status = chars_of(job.status.as_str());
    let lower = lower_ascii(status.as_slice());
    let error = chars_of("error");
    let blocked = chars_of("blocked");
    let offline = chars_of("offline");
    contains_chars(lower.as_slice(), error.as_slice()) || contains_chars(lower.as_slice(), blocked.as_slice())
        || contains_chars(lower.as_slice(), offline.as_slice())
}

/// Classifies a report of the printer backend: it blocks printing when any
/// blocking reason applies, while low toner only warns.
pub fn classify(config: &Config, raw: BackendStatus) -> (s: PrinterState)
    ensures
        classified(*config, raw, s),
        is_rfc3339_text(s.checked_at@),
{
    let mut reasons: Vec<String> = Vec::new();
    assert(views(reasons@) =~= Seq::<Seq<char>>::empty());
    push_if(&mut reasons, !raw.available || raw.is_not_available || raw.is_server_unknown, "打印机不可用");
    push_if(&mut reasons, raw.is_offline, "打印机脱机");
    push_if(&mut reasons, raw.is_paused, "Windows 打印队列已暂停");
    push_if(&mut reasons, raw.is_out_of_paper || raw.has_paper_problem, "打印机缺纸或纸张异常");
    push_if(&mut reasons, raw.is_paper_jammed, "打印机卡纸");
    push_if(&mut reasons, raw.is_door_opened, "打印机舱门打开");
    push_if(&mut reasons, raw.is_manual_feed_required, "打印机要求手动进纸");
    push_if(&mut reasons, raw.is_out_of_memory, "打印机内存不足");
    push_if(&mut reasons, raw.is_output_bin_full, "打印机出纸槽已满");
    let empty = reasons.len() == 0;
    push_if(&mut reasons, raw.is_in_error && empty, "打印机报告错误");
    let empty = reasons.len() == 0;
    push_if(&mut reasons, raw.need_user_intervention && empty, "打印机需要人工处理");
    let mut job_error = false;
    let mut i: usize = 0;
    while i < raw.jobs.len()
        invariant
            i <= raw.jobs@.len(),
            job_error == exists|j: int| 0 <= j < i && job_reports_error(#[trigger] raw.jobs@[j]),
        decreases raw.jobs@.len() - i,
    {
        if job_has_error(&raw.jobs[i]) {
            job_error = true;
        }
        i = i + 1;
    }
    let empty = reasons.len() == 0;
    push_if(&mut reasons, job_error && empty, "Windows 打印作业报告错误");
    let status = chars_of(raw.status.as_str());
    let lower = lower_ascii(status.as_slice());
    let p1 = chars_of("tonerlow");
    let p2 = chars_of("no toner");
    let p3 = chars_of("notoner");
    let toner_low = raw.is_toner_low || contains_chars(lower.as_slice(), p1.as_slice())
        || contains_chars(lower.as_slice(), p2.as_slice()) || contains_chars(lower.as_slice(), p3.as_slice());
    let mut warnings: Vec<String> = Vec::new();
    if toner_low {
        warnings.push(owned("打印机可能墨粉不足，请管理员检查硒鼓（驱动估算结果）"));
    }
    assert(views(warnings@) =~= (if toner_low_spec(raw) { seq![toner_warning()] } else { Seq::<Seq<char>>::empty() }));
    let shown_status = if raw.status.as_str().is_empty() {
        owned("Unknown")
    } else {
        raw.status
    };
    let blocked = reasons.len() > 0;
    PrinterState {
        mode: owned("windows"),
        queue_name: config.printer.name.clone(),
        available: raw.available,
        status: shown_status,
        blocked,
        blocking_reasons: reasons,
        warnings,
        jobs: raw.jobs,
        checked_at: local_now_rfc3339(),
        error: None,
        toner_alert_acknowledged: false,
    }
}

impl PrinterState {
    /// The state before the printer was first queried: blocked until its
    /// status is known.
    pub fn starting() -> (s: PrinterState)
        ensures
            s.mode@ == "starting"@,
            s.queue_name@ == Seq::<char>::empty(),
            !s.available,
            s.status@ == "starting"@,
            s.blocked,
            views(s.blocking_reasons@) == seq!["打印机状态尚未初始化"@],
            s.warnings@.len() == 0,
            s.jobs@.len() == 0,
            s.error is None,
            !s.toner_alert_acknowledged,
            is_rfc3339_text(s.checked_at@),
    {
        let mut reasons: Vec<String> = Vec::new();
        reasons.push(owned("打印机状态尚未初始化"));
        assert(views(reasons@) =~= seq!["打印机状态尚未初始化"@]);
        PrinterState {
            mode: owned("starting"),
            queue_name: String::new(),
            available: false,
            status: owned("starting"),
            blocked: true,
            blocking_reasons: reasons,
            warnings: Vec::new(),
            jobs: Vec::new(),
            checked_at: local_now_rfc3339(),
            error: None,
            toner_alert_acknowledged: false,
        }
    }

    /// The state reported when printing is simulated: always ready.
    pub fn simulated(config: &Config) -> (s: PrinterState)
        ensures
            s.mode@ == "simulated"@,
            s.queue_name@ == config.printer.name@,
            s.available,
            s.status@ == "Normal"@,
            !s.blocked,
            s.blocking_reasons@.len() == 0,
            s.warnings@.len() == 0,
            s.jobs@.len() == 0,
            s.error is None,
            !s.toner_alert_acknowledged,
            is_rfc3339_text(s.checked_at@),
    {
        PrinterState {
            mode: owned("simulated"),
            queue_name: config.printer.name.clone(),
            available: true,
            status: owned("Normal"),
            blocked: false,
            blocking_reasons: Vec::new(),
            warnings: Vec::new(),
            jobs: Vec::new(),
            checked_at: local_now_rfc3339(),
            error: None,
            toner_alert_acknowledged: false,
        }
    }

    /// The state reported when the backend's status could not be read: the
    /// printer is unavailable and blocked, and the failure is kept.
    pub fn unreadable(config: &Config, error: String) -> (s: PrinterState)
        ensures
            s.mode@ == "windows"@,
            s.queue_name@ == config.printer.name@,
            !s.available,
            s.status@ == "Unavailable"@,
            s.blocked,
            views(s.blocking_reasons@) == seq!["无法读取打印机状态"@],
            s.warnings@.len() == 0,
            s.jobs@.len() == 0,
            s.error == Some(error),
            !s.toner_alert_acknowledged,
            is_rfc3339_text(s.checked_at@),
    {
        let mut reasons: Vec<String> = Vec::new();
        reasons.push(owned("无法读取打印机状态"));
        assert(views(reasons@) =~= seq!["无法读取打印机状态"@]);
        PrinterState {
            mode: owned("windows"),
            queue_name: config.printer.name.clone(),
            available: false,
            status: owned("Unavailable"),
            blocked: true,
            blocking_reasons: reasons,
            warnings: Vec::new(),
            jobs: Vec::new(),
            checked_at: local_now_rfc3339(),
            error: Some(error),
            toner_alert_acknowledged: false,
        }
    }
}

/// Whether two lists of strings hold the same texts.
pub fn same_strings(a: &Vec<String>, b: &Vec<String>) -> (r: bool)
    ensures
        r == (views(a@) == views(b@)),
{
    if a.len() != b.len() {
        return false;
    }
    let mut i: usize = 0;
    while i < a.len()
        invariant
            i <= a@.len(),
            a@.len() == b@.len(),
            forall|k: int| 0 <= k < i ==> a@[k]@ == b@[k]@,
        decreases a@.len() - i,
    {
        if !crate::models::same_chars(a[i].as_str(), b[i].as_str()) {
            assert(views(a@)[i as int] != views(b@)[i as int]);
            return false;
        }
        i = i + 1;
    }
    assert(views(a@) =~= views(b@));
    true
}

/// Whether two optional strings are equal.
pub fn same_optional(a: &Option<String>, b: &Option<String>) -> (r: bool)
    ensures
        r == (crate::config::opt_view(*a) == crate::config::opt_view(*b)),
{
    match (a, b) {
        (None, None) => true,
        (Some(x), Some(y)) => crate::models::same_chars(x.as_str(), y.as_str()),
        _ => false,
    }
}

/// Whether a refreshed state differs from the current one in a way users
/// should be told about: status, blocking, reasons, warnings or error.
pub open spec fn materially_changed(current: PrinterState, next: PrinterState) -> bool {
    ||| current.status@ != next.status@
    ||| current.blocked != next.blocked
    ||| views(current.blocking_reasons@) != views(next.blocking_reasons@)
    ||| views(current.warnings@) != views(next.warnings@)
    ||| crate::config::opt_view(current.error) != crate::config::opt_view(next.error)
}

/// Merges a refreshed state into the current one: a toner warning that
/// persists keeps its acknowledgement. Also says whether the change is
/// material.
pub fn merge_refreshed(current: &PrinterState, next: PrinterState) -> (r: (PrinterState, bool))
    ensures
        r.0.toner_alert_acknowledged == (if next.warnings@.len() > 0 && current.warnings@.len() > 0 {
            current.toner_alert_acknowledged
        } else {
            next.toner_alert_acknowledged
        }),
        r.0.mode == next.mode,
        r.0.queue_name == next.queue_name,
        r.0.available == next.available,
        r.0.status == next.status,
        r.0.blocked == next.blocked,
        r.0.blocking_reasons == next.blocking_reasons,
        r.0.warnings == next.warnings,
        r.0.jobs == next.jobs,
        r.0.checked_at == next.checked_at,
        r.0.error == next.error,
        r.1 == materially_changed(*current, next),
{
    let mut next = next;
    if next.warnings.len() > 0 && current.warnings.len() > 0 {
        next.toner_alert_acknowledged = current.toner_alert_acknowledged;
    }
    let changed = !crate::models::same_chars(current.status.as_str(), next.status.as_str())
        || current.blocked != next.blocked || !same_strings(&current.blocking_reasons, &next.blocking_reasons)
        || !same_strings(&current.warnings, &next.warnings) || !same_optional(&current.error, &next.error);
    (next, changed)
}

/// The first position below `n` where `p` holds.
pub open spec fn first_index(n: int, p: spec_fn(int) -> bool) -> Option<int> {
    if exists|i: int| 0 <= i < n && #[trigger] p(i) {
        Some(choose|i: int| 0 <= i < n && #[trigger] p(i) && forall|j: int| 0 <= j < i ==> !#[trigger] p(j))
    } else {
        None
    }
}

/// The job with the recorded id, and with the recorded name too if one is
/// recorded.
pub open spec fn matches_recorded_id(jobs: Seq<PrinterJob>, id: i64, name: Option<Seq<char>>) -> spec_fn(int) -> bool {
    |i: int| jobs[i].id == id && match name {
        Some(n) => jobs[i].name@ == n,
        None => true,
    }
}

/// The job with the recorded name.
pub open spec fn matches_recorded_name(jobs: Seq<PrinterJob>, name: Seq<char>) -> spec_fn(int) -> bool {
    |i: int| jobs[i].name@ == name
}

/// The job whose name (in any case) mentions `print-task-<id>`.
pub open spec fn matches_marker(jobs: Seq<PrinterJob>, task_id: i64) -> spec_fn(int) -> bool {
    |i: int| contains_seq(to_ascii_lower(jobs[i].name@), to_ascii_lower("print-task-"@ + dec_int(task_id as int)))
}

/// The spooler job that belongs to a task: the first job with the recorded
/// id (and name, if recorded); else the first with the recorded name; else
/// the first whose name mentions the task's marker.
pub open spec fn matching_job_spec(jobs: Seq<PrinterJob>, task_id: i64, job_id: Option<i64>, job_name: Option<Seq<char>>) -> Option<int> {
    let by_id = match job_id {
        Some(id) => first_index(jobs.len() as int, matches_recorded_id(jobs, id, job_name)),
        None => None,
    };
    if by_id is Some {
        by_id
    } else {
        let by_name = match job_name {
            Some(n) => first_index(jobs.len() as int, matches_recorded_name(jobs, n)),
            None => None,
        };
        if by_name is Some {
            by_name
        } else {
            first_index(jobs.len() as int, matches_marker(jobs, task_id))
        }
    }
}

/// Finds the first position below `jobs.len()` where the predicate of the
/// given kind holds.
fn find_job(jobs: &[PrinterJob], kind: u8, id: i64, name: &Option<String>, marker: &[char]) -> (r: Option<usize>)
    requires
        kind < 3,
        kind == 1 ==> name is Some,
    ensures
        ({
            let p = if kind == 0 {
                matches_recorded_id(jobs@, id, crate::config::opt_view(*name))
            } else if kind == 1 {
                matches_recorded_name(jobs@, name->Some_0@)
            } else {
                |i: int| contains_seq(to_ascii_lower(jobs@[i].name@), marker@)
            };
            match first_index(jobs@.len() as int, p) {
                Some(i) => r == Some(i as usize),
                None => r is None,
            }
        }),
{
    let ghost p = if kind == 0 {
        matches_recorded_id(jobs@, id, crate::config::opt_view(*name))
    } else if kind == 1 {
        matches_recorded_name(jobs@, name->Some_0@)
    } else {
        |i: int| contains_seq(to_ascii_lower(jobs@[i].name@), marker@)
    };
    let mut i: usize = 0;
    while i < jobs.len()
        invariant
            i <= jobs@.len(),
            kind == 1 ==> name is Some,
            forall|j: int| 0 <= j < i ==> !#[trigger] p(j),
            p == (if kind == 0 {
                matches_recorded_id(jobs@, id, crate::config::opt_view(*name))
            } else if kind == 1 {
                matches_recorded_name(jobs@, name->Some_0@)
            } else {
                |i: int| contains_seq(to_ascii_lower(jobs@[i].name@), marker@)
            }),
        decreases jobs@.len() - i,
    {
        let job = &jobs[i];
        let hit: bool;
        if kind == 0 {
            let same_name = match name {
                Some(n) => crate::models::same_chars(n.as_str(), job.name.as_str()),
                None => true,
            };
            hit = job.id == id && same_name;
            assert(hit == p(i as int));
        } else if kind == 1 {
            hit = match name {
                Some(n) => crate::models::same_chars(job.name.as_str(), n.as_str()),
                None => false,
            };
            assert(hit == p(i as int));
        } else {
            let jn = chars_of(job.name.as_str());
            let lower = lower_ascii(jn.as_slice());
            hit = contains_chars(lower.as_slice(), marker);
            assert(hit == p(i as int));
        }
        assert(hit == p(i as int));
        if hit {
            proof {
                let c = choose|c: int| 0 <= c < jobs@.len() && #[trigger] p(c) && forall|j: int| 0 <= j < c ==> !#[trigger] p(j);
                assert(p(i as int));
                if c < i {
                } else if c > i {
                    assert(!p(i as int));
                }
            }
            return Some(i);
        }
        i = i + 1;
    }
    None
}

/// Finds the spooler job that belongs to a task.
pub fn find_matching_job(jobs: &[PrinterJob], task_id: i64, job_id: Option<i64>, job_name: &Option<String>) -> (r: Option<usize>)
    ensures
        match matching_job_spec(jobs@, task_id, job_id, crate::config::opt_view(*job_name)) {
            Some(i) => r == Some(i as usize),
            None => r is None,
        },
{
    let mut marker_text = owned("print-task-");
    let id_text = dec_string_i64(task_id);
    marker_text.append(id_text.as_str());
    let marker_chars = chars_of(marker_text.as_str());
    let marker = lower_ascii(marker_chars.as_slice());
    assert(matches_marker(jobs@, task_id) =~= (|i: int| contains_seq(to_ascii_lower(jobs@[i].name@), marker@)));
    if let Some(id) = job_id {
        if let Some(i) = find_job(jobs, 0, id, job_name, marker.as_slice()) {
            return Some(i);
        }
    }
    if job_name.is_some() {
        if let Some(i) = find_job(jobs, 1, 0, job_name, marker.as_slice()) {
            return Some(i);
        }
    }
    find_job(jobs, 2, 0, job_name, marker.as_slice())
}

/// What the queue does with the task that is printing.
pub enum TrackAction {
    /// The job has left the spooler (or printing is simulated): the task is done.
    Finish,
    /// The printer cannot be observed now: try again later.
    Wait,
    /// The job at this position of the spooler list belongs to the task.
    Record(usize),
    /// No job was ever confirmed: requeue the task and pause the queue, so
    /// that it is not printed twice.
    PauseUnconfirmed,
}

/// Decides what to do with the printing task `task` given the printer state.
pub open spec fn track_spec(simulate: bool, snapshot: PrinterState, task: crate::models::PrintTask) -> TrackAction {
    if simulate {
        TrackAction::Finish
    } else if !snapshot.available || snapshot.error is Some {
        TrackAction::Wait
    } else {
        match matching_job_spec(snapshot.jobs@, task.id, task.windows_job_id, crate::config::opt_view(task.windows_job_name)) {
            Some(i) => TrackAction::Record(i as usize),
            None => if task.job_seen_at is Some {
                TrackAction::Finish
            } else {
                TrackAction::PauseUnconfirmed
            },
        }
    }
}

/// Decides what to do with a task that is printing.
pub fn track_printing_task(simulate: bool, snapshot: &PrinterState, task: &crate::models::PrintTask) -> (a: TrackAction)
    ensures
        a == track_spec(simulate, *snapshot, *task),
{
    if simulate {
        return TrackAction::Finish;
    }
    if !snapshot.available || snapshot.error.is_some() {
        return TrackAction::Wait;
    }
    match find_matching_job(snapshot.jobs.as_slice(), task.id, task.windows_job_id, &task.windows_job_name) {
        Some(i) => TrackAction::Record(i),
        None => if task.job_seen_at.is_some() {
            TrackAction::Finish
        } else {
            TrackAction::PauseUnconfirmed
        },
    }
}

/// The status detail recorded while a spooler job is processing.
pub fn job_progress_detail(job_status: &str) -> (d: String)
    ensures
        d@ == "Windows 作业处理中："@ + job_status@,
{
    let mut d = owned("Windows 作业处理中：");
    d.append(job_status);
    d
}

/// The status detail recorded when submitting to the printer failed.
pub fn submission_failure_detail(reason: &str) -> (d: String)
    ensures
        d@ == "提交失败："@ + reason@,
{
    let mut d = owned("提交失败：");
    d.append(reason);
    d
}

/// Whether a finished task counts towards its owner's daily quota: it was
/// actually moved to done by this call and was not approved over the quota.
pub fn counts_toward_quota(rows_affected: u64, approved_over_quota: bool) -> (b: bool)
    ensures
        b == (rows_affected > 0 && !approved_over_quota),
{
    rows_affected > 0 && !approved_over_quota
}

/// The backend arguments that query the printer's status.
pub fn status_arguments() -> (args: Vec<String>)
    ensures
        views(args@) == seq!["-Action"@, "Status"@],
{
    let mut args: Vec<String> = Vec::new();
    args.push(owned("-Action"));
    args.push(owned("Status"));
    assert(views(args@) =~= seq!["-Action"@, "Status"@]);
    args
}

/// The backend arguments that submit a PDF for a task.
pub fn submit_arguments(config: &Config, pdf_path: &str, task_id: i64) -> (args: Vec<String>)
    ensures
        views(args@) == seq![
            "-Action"@, "Submit"@, "-PdfPath"@, pdf_path@, "-TaskId"@, dec_int(task_id as int),
            "-DiscoverySeconds"@, crate::number::dec(config.printer.job_discovery_seconds as nat),
            "-PdfPrinterPath"@, config.printer.pdf_printer_path@,
        ],
{
    let mut args: Vec<String> = Vec::new();
    args.push(owned("-Action"));
    args.push(owned("Submit"));
    args.push(owned("-PdfPath"));
    args.push(owned(pdf_path));
    args.push(owned("-TaskId"));
    args.push(dec_string_i64(task_id));
    args.push(owned("-DiscoverySeconds"));
    args.push(crate::number::dec_string(config.printer.job_discovery_seconds));
    args.push(owned("-PdfPrinterPath"));
    args.push(config.printer.pdf_printer_path.clone());
    assert(views(args@) =~= seq![
        "-Action"@, "Submit"@, "-PdfPath"@, pdf_path@, "-TaskId"@, dec_int(task_id as int),
        "-DiscoverySeconds"@, crate::number::dec(config.printer.job_discovery_seconds as nat),
        "-PdfPrinterPath"@, config.printer.pdf_printer_path@,
    ]);
    args
}

/// The backend arguments that cancel a spooler job.
pub fn cancel_arguments(job_id: i64) -> (args: Vec<String>)
    ensures
        views(args@) == seq!["-Action"@, "Cancel"@, "-JobId"@, dec_int(job_id as int)],
{
    let mut args: Vec<String> = Vec::new();
    args.push(owned("-Action"));
    args.push(owned("Cancel"));
    args.push(owned("-JobId"));
    args.push(dec_string_i64(job_id));
    assert(views(args@) =~= seq!["-Action"@, "Cancel"@, "-JobId"@, dec_int(job_id as int)]);
    args
}

/// The text of a command's output: its bytes read as UTF-8 (invalid
/// sequences replaced) and trimmed.
pub open spec fn output_text(bytes: Seq<u8>) -> Seq<char> {
    crate::text::trim(crate::import::utf8_lossy(bytes))
}

/// Reads a command's output as trimmed text.
pub fn read_output(bytes: &[u8]) -> (s: String)
    ensures
        s@ == output_text(bytes@),
{
    let text = crate::import::decode_lossy(bytes);
    crate::text::trim_str(text.as_str())
}

/// What a run of the printer backend answers: on success its last line of
/// output (the output is trimmed, so that line is the text after the last
/// line feed), or an error when it wrote nothing; on failure an error with
/// its error output, or its output when the error output is empty.
pub open spec fn backend_reply_spec(success: bool, stdout: Seq<u8>, stderr: Seq<u8>) -> Result<Seq<char>, Seq<char>> {
    let out = output_text(stdout);
    if success {
        if out.len() == 0 {
            Err("printer backend returned no output"@)
        } else {
            Ok(crate::text::split_by(out, crate::text::CharClass::LineFeed).last())
        }
    } else {
        let err = output_text(stderr);
        Err("printer backend failed: "@ + (if err.len() == 0 { out } else { err }))
    }
}

/// Reads the answer of a run of the printer backend.
pub fn backend_reply(success: bool, stdout: &[u8], stderr: &[u8]) -> (r: Result<String, AppError>)
    ensures
        match backend_reply_spec(success, stdout@, stderr@) {
            Ok(line) => r matches Ok(s) && s@ == line,
            Err(m) => r matches Err(AppError::External(s)) && s@ == m,
        },
{
    let out = read_output(stdout);
    if success {
        if out.as_str().is_empty() {
            return Err(AppError::External(owned("printer backend returned no output")));
        }
        let chars = chars_of(out.as_str());
        let lines = crate::text::split_chars(chars.as_slice(), crate::text::CharClass::LineFeed);
        proof {
            crate::text::lemma_split_nonempty(out@, crate::text::CharClass::LineFeed);
        }
        let last = &lines[lines.len() - 1];
        Ok(crate::text::string_of(last.as_slice()))
    } else {
        let err = read_output(stderr);
        let details = if err.as_str().is_empty() { out } else { err };
        let mut m = owned("printer backend failed: ");
        m.append(details.as_str());
        Err(AppError::External(m))
    }
}

/// The error given when the document converter failed: its exit status, and
/// its error output (or its output when that is empty) when there is any.
pub open spec fn converter_failure_spec(status: Seq<char>, stderr: Seq<u8>, stdout: Seq<u8>) -> Seq<char> {
    let e = output_text(stderr);
    let o = output_text(stdout);
    let details = if e.len() > 0 { e } else { o };
    "document converter failed with status "@ + status + (if details.len() == 0 { Seq::empty() } else { ": "@ + details })
}

/// The error for a failed run of the document converter.
pub fn converter_failure(status: &str, stderr: &[u8], stdout: &[u8]) -> (e: AppError)
    ensures
        e matches AppError::External(m) && m@ == converter_failure_spec(status@, stderr@, stdout@),
{
    let e = read_output(stderr);
    let o = read_output(stdout);
    let details = if !e.as_str().is_empty() { e } else { o };
    let mut m = owned("document converter failed with status ");
    m.append(status);
    if !details.as_str().is_empty() {
        m.append(": ");
        m.append(details.as_str());
    }
    AppError::External(m)
}

} // verus!
