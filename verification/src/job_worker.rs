//! Processing a queued job: the worker's decisions, one step at a time. Updating
//! the job registry, running the pipeline and writing the outputs are the caller's
//! part; after each it hands the outcome back as an event.

use vstd::prelude::*;
use crate::jobs::{
    check_assets_limit, check_page_limit, finished_failed, finished_job, processing_job, Job, JobRunOutcome,
};
use crate::model::ProcessingStatus;

verus! {

/// What the worker waits for next.
#[derive(Clone, Copy, Debug, PartialEq, Eq, Structural)]
pub enum WorkerPhase {
    /// The job has not been taken up.
    Start,
    /// The registry's answer to the job marked as processing.
    AwaitMarked,
    /// The pipeline's run (or the time running out).
    AwaitRun,
    /// The writing of the outputs and the size of the assets (or the time running out).
    AwaitWrite,
    /// The registry's answer to the settled job.
    AwaitFinalUpdate,
    /// The worker is done with the job.
    Done,
}

/// A job in a worker's hands, with the limits it runs under and the processing
/// status of its document once the pipeline has run.
pub struct WorkerState {
    pub phase: WorkerPhase,
    pub job: Job,
    pub max_pages: usize,
    pub max_assets_mb: u64,
    pub status: Option<ProcessingStatus>,
}

/// What the caller saw.
pub enum WorkerEvent {
    /// The worker takes the job up.
    Begin,
    /// Whether the registry took the job marked as processing.
    Marked(bool),
    /// The pipeline made a model with this many pages and this status, or failed
    /// with this error text.
    Ran(Result<(usize, ProcessingStatus), String>),
    /// The outputs were written and the assets take this many bytes, or writing
    /// failed with this error text.
    Written(Result<u64, String>),
    /// The time allowed for processing ran out.
    TimedOut,
    /// Whether the registry took the settled job.
    FinalUpdated(bool),
}

/// What the caller is to do next.
pub enum WorkerAction {
    /// Store the job as it now stands in the registry.
    UpdateJob,
    /// Run the pipeline on the job's input.
    RunPipeline,
    /// Write the document's outputs, with the job's identifiers in the model.
    WriteOutputs,
    /// Leave the job.
    Stop,
}

/// The event is one the phase waits for (and a document status is at hand once
/// the outputs are being written).
pub open spec fn worker_event_expected(s: WorkerState, e: WorkerEvent) -> bool {
    match s.phase {
        WorkerPhase::Start => e is Begin,
        WorkerPhase::AwaitMarked => e is Marked,
        WorkerPhase::AwaitRun => e is Ran || e is TimedOut,
        WorkerPhase::AwaitWrite => (e is Written || e is TimedOut) && s.status.is_some(),
        WorkerPhase::AwaitFinalUpdate => e is FinalUpdated,
        WorkerPhase::Done => false,
    }
}

/// `n` is `s` with its job settled as `settled` says, waiting to store it.
pub open spec fn settles(s: WorkerState, n: WorkerState, settled: bool, a: WorkerAction) -> bool {
    &&& n == WorkerState { phase: WorkerPhase::AwaitFinalUpdate, job: n.job, ..s }
    &&& settled
    &&& a is UpdateJob
}

/// `n` is `s` in another phase, all else kept.
pub open spec fn worker_phase(s: WorkerState, n: WorkerState, phase: WorkerPhase) -> bool {
    n == WorkerState { phase, ..s }
}

/// One step of a worker: the job is marked as processing and stored; a worker
/// whose job the registry refused leaves it. The pipeline runs; a model with more
/// pages than allowed fails the job (`MAX_PAGES_LIMIT_EXCEEDED`), else the outputs
/// are written and assets over their limit fail it (`OUTPUT_ASSETS_LIMIT_EXCEEDED`);
/// a failed run or write fails it with its error, running out of time with
/// `PROCESSING_TIMEOUT`; otherwise the job ends as its document's status says. The
/// settled job is stored, and the worker leaves it whatever the registry answers.
pub open spec fn worker_next(s: WorkerState, e: WorkerEvent, n: WorkerState, a: WorkerAction) -> bool {
    match e {
        WorkerEvent::Begin => {
            &&& n == WorkerState { phase: WorkerPhase::AwaitMarked, job: n.job, ..s }
            &&& processing_job(s.job, n.job)
            &&& a is UpdateJob
        },
        WorkerEvent::Marked(ok) => if ok {
            worker_phase(s, n, WorkerPhase::AwaitRun) && a is RunPipeline
        } else {
            worker_phase(s, n, WorkerPhase::Done) && a is Stop
        },
        WorkerEvent::Ran(r) => match r {
            Err(text) => settles(s, n, finished_failed(s.job, n.job, text@), a),
            Ok(ps) => if ps.0 > s.max_pages {
                settles(s, n, finished_failed(s.job, n.job, "MAX_PAGES_LIMIT_EXCEEDED"@), a)
            } else {
                n == WorkerState { phase: WorkerPhase::AwaitWrite, status: Some(ps.1), ..s } && a is WriteOutputs
            },
        },
        WorkerEvent::Written(r) => match r {
            Err(text) => settles(s, n, finished_failed(s.job, n.job, text@), a),
            Ok(bytes) => if bytes > (if s.max_assets_mb * 1048576 > u64::MAX {
                u64::MAX as int
            } else {
                s.max_assets_mb * 1048576
            }) {
                settles(s, n, finished_failed(s.job, n.job, "OUTPUT_ASSETS_LIMIT_EXCEEDED"@), a)
            } else {
                settles(s, n, finished_job(s.job, n.job, JobRunOutcome::Finished(s.status.unwrap())), a)
            },
        },
        WorkerEvent::TimedOut => settles(s, n, finished_job(s.job, n.job, JobRunOutcome::TimedOut), a),
        WorkerEvent::FinalUpdated(_) => worker_phase(s, n, WorkerPhase::Done) && a is Stop,
    }
}


/// One step of a worker (see [`worker_next`]).
pub fn worker_step(state: WorkerState, event: WorkerEvent) -> (r: (WorkerState, WorkerAction))
    requires
        worker_event_expected(state, event),
    ensures
        worker_next(state, event, r.0, r.1),
{
    let mut s = state;
    match event {
        WorkerEvent::Begin => {
            s.job.mark_processing();
            s.phase = WorkerPhase::AwaitMarked;
            (s, WorkerAction::UpdateJob)
        },
        WorkerEvent::Marked(ok) => {
            if ok {
                s.phase = WorkerPhase::AwaitRun;
                (s, WorkerAction::RunPipeline)
            } else {
                s.phase = WorkerPhase::Done;
                (s, WorkerAction::Stop)
            }
        },
        WorkerEvent::Ran(r) => match r {
            Err(text) => {
                s.job.mark_finished(&JobRunOutcome::Failed(text));
                s.phase = WorkerPhase::AwaitFinalUpdate;
                (s, WorkerAction::UpdateJob)
            },
            Ok(ps) => {
                let (pages, status) = ps;
                match check_page_limit(pages, s.max_pages) {
                    Err(t) => {
                        s.job.mark_finished(&JobRunOutcome::Failed(t));
                        s.phase = WorkerPhase::AwaitFinalUpdate;
                        (s, WorkerAction::UpdateJob)
                    },
                    Ok(()) => {
                        s.status = Some(status);
                        s.phase = WorkerPhase::AwaitWrite;
                        (s, WorkerAction::WriteOutputs)
                    },
                }
            },
        },
        WorkerEvent::Written(r) => match r {
            Err(text) => {
                s.job.mark_finished(&JobRunOutcome::Failed(text));
                s.phase = WorkerPhase::AwaitFinalUpdate;
                (s, WorkerAction::UpdateJob)
            },
            Ok(bytes) => match check_assets_limit(bytes, s.max_assets_mb) {
                Err(t) => {
                    s.job.mark_finished(&JobRunOutcome::Failed(t));
                    s.phase = WorkerPhase::AwaitFinalUpdate;
                    (s, WorkerAction::UpdateJob)
                },
                Ok(()) => {
                    let st = match s.status {
                        Some(x) => x,
                        None => ProcessingStatus::Complete,
                    };
                    s.job.mark_finished(&JobRunOutcome::Finished(st));
                    s.phase = WorkerPhase::AwaitFinalUpdate;
                    (s, WorkerAction::UpdateJob)
                },
            },
        },
        WorkerEvent::TimedOut => {
            s.job.mark_finished(&JobRunOutcome::TimedOut);
            s.phase = WorkerPhase::AwaitFinalUpdate;
            (s, WorkerAction::UpdateJob)
        },
        WorkerEvent::FinalUpdated(_) => {
            s.phase = WorkerPhase::Done;
            (s, WorkerAction::Stop)
        },
    }
}

} // verus!
