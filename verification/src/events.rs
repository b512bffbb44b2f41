//! The events that the platform announces to connected clients when the
//! queue or the printer changes.
use vstd::prelude::*;

use crate::printer::PrinterState;

verus! {

/// An announcement to connected clients.
#[derive(Debug, Clone)]
pub enum QueueEvent {
    /// The queue changed; clients reload it.
    QueueChanged,
    /// A task moved to a new status.
    TaskStatus { task_id: i64, status: String },
    /// The queue was paused or resumed.
    QueuePaused { paused: bool },
    /// Printing stopped on an error that an administrator must look at.
    PrinterError { message: String },
    /// The printer's state changed materially.
    PrinterStatus { printer: PrinterState },
}

/// What pausing or resuming the queue announces: the new state, and on
/// resuming also that the queue changed.
pub fn pause_events(paused: bool) -> (events: Vec<QueueEvent>)
    ensures
        paused ==> events@.len() == 1 && events@[0] == (QueueEvent::QueuePaused { paused: true }),
        !paused ==> events@.len() == 2 && events@[0] == (QueueEvent::QueuePaused { paused: false })
            && events@[1] is QueueChanged,
{
    let mut events: Vec<QueueEvent> = Vec::new();
    events.push(QueueEvent::QueuePaused { paused });
    if !paused {
        events.push(QueueEvent::QueueChanged);
    }
    events
}

/// What moving a task to `status` announces: the task's new status, then
/// that the queue changed.
pub fn task_status_events(task_id: i64, status: &str) -> (events: Vec<QueueEvent>)
    ensures
        events@.len() == 2,
        events@[0] matches QueueEvent::TaskStatus { task_id: id, status: s } && id == task_id && s@ == status@,
        events@[1] is QueueChanged,
{
    let mut events: Vec<QueueEvent> = Vec::new();
    events.push(QueueEvent::TaskStatus { task_id, status: crate::text::owned(status) });
    events.push(QueueEvent::QueueChanged);
    events
}

/// What stopping the queue on a printer problem announces: the problem,
/// then that the queue is paused.
pub fn printer_error_events(message: &str) -> (events: Vec<QueueEvent>)
    ensures
        events@.len() == 2,
        events@[0] matches QueueEvent::PrinterError { message: m } && m@ == message@,
        events@[1] == (QueueEvent::QueuePaused { paused: true }),
{
    let mut events: Vec<QueueEvent> = Vec::new();
    events.push(QueueEvent::PrinterError { message: crate::text::owned(message) });
    events.push(QueueEvent::QueuePaused { paused: true });
    events
}

} // verus!
