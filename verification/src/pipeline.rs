//! Decisions of the traffic pipeline: the capture worker forwards decoded
//! flows, the aggregation worker records them and publishes snapshots, and
//! the display takes the newest snapshot or the reason the workers stopped.
//!
//! The workers' threads, channels and clocks are driven by the program; what
//! they decide at each step is decided here.

use vstd::prelude::*;

use crate::capture::Flow;
use crate::proc_table::{spec_lookup, LookupView, ProcTable};
use crate::stats::ObservedProcess;
use crate::text::{chars_of, string_from_chars};

verus! {

/// Microseconds the aggregation worker waits for a flow before it looks at
/// the stop flag again.
pub const STOP_CHECK_INTERVAL_MICROS: u64 = 100_000;

/// Microseconds between two published snapshots.
pub const SNAPSHOT_INTERVAL_MICROS: u64 = 5_000_000;

/// Decoded flows that may wait between the capture and aggregation workers.
pub const FLOW_CHANNEL_CAPACITY: usize = 8192;

/// Snapshots that may wait for the display.
pub const SNAPSHOT_CHANNEL_CAPACITY: usize = 2;

/// Why the pipeline stopped delivering snapshots.
#[derive(Clone, Debug)]
pub enum PipelineError {
    /// The capture source failed, with its message.
    Capture(String),
    /// A worker, or the consumer of its output, went away.
    WorkerStopped(&'static str),
}

pub open spec fn spec_pipeline_message(e: PipelineError) -> Seq<char> {
    match e {
        PipelineError::Capture(message) => "capture failed: "@ + message@,
        PipelineError::WorkerStopped(worker) => "traffic pipeline worker stopped unexpectedly: "@
            + worker@,
    }
}

impl PipelineError {
    /// The message shown for this error.
    pub fn message(&self) -> (r: String)
        ensures
            r@ == spec_pipeline_message(*self),
    {
        let (head, tail) = match self {
            PipelineError::Capture(message) => (chars_of("capture failed: "), chars_of(message.as_str())),
            PipelineError::WorkerStopped(worker) => (
                chars_of("traffic pipeline worker stopped unexpectedly: "),
                chars_of(worker),
            ),
        };
        let mut out = head;
        let mut rest = tail;
        out.append(&mut rest);
        string_from_chars(out.as_slice())
    }
}

/// How a drain of the snapshot queue ended.
#[derive(Clone, Copy, Debug, PartialEq, Eq, Structural)]
pub enum QueueEnd {
    /// No more snapshots are waiting; the aggregation worker still runs.
    Empty,
    /// The aggregation worker is gone.
    Disconnected,
}

/// What the display gets from a drain that received `received`, in order:
/// a gone worker is an error, the recorded failure or else a stopped
/// aggregation worker; a recorded failure is an error even when snapshots
/// were waiting; otherwise the newest snapshot, if any came.
pub open spec fn spec_latest_outcome<T>(
    received: Seq<T>,
    end: QueueEnd,
    failure: Option<PipelineError>,
) -> Result<Option<T>, PipelineError> {
    match (end, failure) {
        (_, Some(f)) => Err(f),
        (QueueEnd::Disconnected, None) => Err(PipelineError::WorkerStopped("aggregate")),
        (QueueEnd::Empty, None) => Ok(
            if received.len() == 0 {
                None
            } else {
                Some(received.last())
            },
        ),
    }
}

/// Picks what the display gets from a drain of the snapshot queue; see
/// [`spec_latest_outcome`].
pub fn latest_outcome<T>(received: Vec<T>, end: QueueEnd, failure: Option<PipelineError>) -> (r:
    Result<Option<T>, PipelineError>)
    ensures
        r == spec_latest_outcome(received@, end, failure),
{
    if let Some(f) = failure {
        return Err(f);
    }
    match end {
        QueueEnd::Disconnected => Err(PipelineError::WorkerStopped("aggregate")),
        QueueEnd::Empty => {
            let mut received = received;
            Ok(received.pop())
        },
    }
}

/// What the capture worker does with one result of its source.
#[derive(Debug)]
pub enum CaptureAction {
    /// Hand the flow to the aggregation worker.
    Forward(Flow),
    /// Nothing decoded: ask the source again.
    Continue,
    /// The source failed: record the failure and stop.
    Fail(PipelineError),
}

/// The capture worker's step for one result of its source: `Ok(Some(flow))`,
/// `Ok(None)` for a frame that gave no flow, or the source's error message.
pub fn capture_step(next: Result<Option<Flow>, String>) -> (r: CaptureAction)
    ensures
        r == match next {
            Ok(Some(flow)) => CaptureAction::Forward(flow),
            Ok(None) => CaptureAction::Continue,
            Err(message) => CaptureAction::Fail(PipelineError::Capture(message)),
        },
{
    match next {
        Ok(Some(flow)) => CaptureAction::Forward(flow),
        Ok(None) => CaptureAction::Continue,
        Err(message) => CaptureAction::Fail(PipelineError::Capture(message)),
    }
}

/// What the aggregation worker does next.
#[derive(Clone, Copy, Debug, PartialEq, Eq, Structural)]
pub enum AggregateAction {
    /// The pipeline is stopping.
    Stop,
    /// A snapshot is due.
    Publish,
    /// Wait this many microseconds for a flow.
    Wait(u64),
}

/// The aggregation worker's next action at time `now` (microseconds) with
/// the next snapshot due at `next_snapshot`: stop when asked to, publish
/// when due, else wait for a flow until the snapshot is due, but no longer
/// than the stop-check interval.
pub open spec fn spec_aggregate_action(stopping: bool, now: u64, next_snapshot: u64) -> AggregateAction {
    if stopping {
        AggregateAction::Stop
    } else if now >= next_snapshot {
        AggregateAction::Publish
    } else if next_snapshot - now <= STOP_CHECK_INTERVAL_MICROS {
        AggregateAction::Wait((next_snapshot - now) as u64)
    } else {
        AggregateAction::Wait(STOP_CHECK_INTERVAL_MICROS)
    }
}

/// The aggregation worker's next action; see [`spec_aggregate_action`].
pub fn aggregate_action(stopping: bool, now: u64, next_snapshot: u64) -> (r: AggregateAction)
    ensures
        r == spec_aggregate_action(stopping, now, next_snapshot),
{
    if stopping {
        AggregateAction::Stop
    } else if now >= next_snapshot {
        AggregateAction::Publish
    } else {
        let until = next_snapshot - now;
        AggregateAction::Wait(if until <= STOP_CHECK_INTERVAL_MICROS { until } else { STOP_CHECK_INTERVAL_MICROS })
    }
}

/// The failure to record when the display no longer takes snapshots: none
/// while the pipeline is stopping anyway.
pub fn consumer_gone_failure(stopping: bool) -> (r: Option<PipelineError>)
    ensures
        r == (if stopping { None } else { Some(PipelineError::WorkerStopped("snapshot consumer")) }),
{
    if stopping {
        None
    } else {
        Some(PipelineError::WorkerStopped("snapshot consumer"))
    }
}

/// The failure to record when the capture worker's channel closes: none
/// while stopping, none when a failure is recorded already.
pub fn capture_gone_failure(stopping: bool, failure_recorded: bool) -> (r: Option<PipelineError>)
    ensures
        r == (if stopping || failure_recorded {
            None
        } else {
            Some(PipelineError::WorkerStopped("capture"))
        }),
{
    if stopping || failure_recorded {
        None
    } else {
        Some(PipelineError::WorkerStopped("capture"))
    }
}

/// The process a flow is attributed to: the single owner of its local
/// socket in `table`, none for a flow without a local socket or a socket
/// without a single owner.
pub fn resolve_process(flow: &Flow, table: &ProcTable) -> (r: Option<ObservedProcess>)
    ensures
        match flow.local_socket {
            Some(socket) => match spec_lookup(table@, socket) {
                LookupView::Hit(p, _) => r matches Some(q) && q@ == p,
                LookupView::Miss(_) => r is None,
            },
            None => r is None,
        },
{
    match flow.local_socket {
        Some(socket) => table.lookup(socket.ip, socket.port, socket.protocol),
        None => None,
    }
}

} // verus!
