//! The queue manager's decisions on each tick: which task to look after,
//! whether a new one may be printed, and what follows a submission.
use vstd::prelude::*;

use crate::error::AppError;
use crate::models::PrintTask;
use crate::printer::SubmittedJob;

verus! {

/// The status detail of a task that has no PDF to print.
pub open spec fn msg_no_pdf() -> Seq<char> {
    "任务没有可打印的 PDF 文件"@
}

/// What a tick of the queue manager does.
pub enum QueueStep {
    /// A task is printing: follow it and start nothing else.
    TrackPrinting,
    /// The queue is paused or the printer is blocked: wait.
    Hold,
    /// No task is waiting.
    Idle,
    /// The next task has no PDF: cancel it with this reason.
    Fail(String),
    /// Print the next task from this PDF.
    Dispatch(String),
}

/// Decides a tick: a printing task comes first; then nothing is started
/// while the queue is paused or the printer blocked; then the oldest queued
/// task is printed, or cancelled when it has no PDF.
pub fn next_step(printing: bool, paused: bool, blocked: bool, next: &Option<PrintTask>) -> (s: QueueStep)
    ensures
        printing ==> s is TrackPrinting,
        !printing && (paused || blocked) ==> s is Hold,
        !printing && !paused && !blocked ==> match *next {
            None => s is Idle,
            Some(t) => match t.preview_path {
                None => s matches QueueStep::Fail(m) && m@ == msg_no_pdf(),
                Some(p) => s matches QueueStep::Dispatch(d) && d@ == p@,
            },
        },
{
    if printing {
        return QueueStep::TrackPrinting;
    }
    if paused || blocked {
        return QueueStep::Hold;
    }
    match next {
        None => QueueStep::Idle,
        Some(task) => match &task.preview_path {
            None => QueueStep::Fail(crate::text::owned("任务没有可打印的 PDF 文件")),
            Some(p) => QueueStep::Dispatch(p.clone()),
        },
    }
}

/// Whether marking a task as printing took: exactly one queued task changed.
pub fn marked_printing(rows_affected: u64) -> (b: bool)
    ensures
        b == (rows_affected == 1),
{
    rows_affected == 1
}

/// What follows a submission to the printer.
pub enum SubmitOutcome {
    /// The spooler job was found: record it.
    RecordJob(SubmittedJob),
    /// Printing is simulated: the task is done.
    Finish,
    /// The submission failed: requeue the task, pause the queue, and report
    /// this reason.
    Failed(String),
}

/// Sorts the result of a submission to the printer.
pub fn submit_outcome(result: Result<Option<SubmittedJob>, AppError>) -> (o: SubmitOutcome)
    ensures
        match result {
            Ok(Some(job)) => o == SubmitOutcome::RecordJob(job),
            Ok(None) => o is Finish,
            Err(e) => o matches SubmitOutcome::Failed(m) && m@ == crate::error::message_of(e),
        },
{
    match result {
        Ok(Some(job)) => SubmitOutcome::RecordJob(job),
        Ok(None) => SubmitOutcome::Finish,
        Err(e) => SubmitOutcome::Failed(e.message()),
    }
}

/// The poll interval of the queue manager in seconds: at least one.
pub fn poll_interval_seconds(configured: u64) -> (s: u64)
    ensures
        s == (if configured < 1 { 1 } else { configured }),
{
    if configured < 1 {
        1
    } else {
        configured
    }
}

} // verus!
