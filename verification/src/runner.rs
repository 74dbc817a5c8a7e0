//! The batch runner's protocol: the jobs of a batch, each job's outcome, and
//! the events that tell a consumer how far a job has come.

use crate::encode::JobConfig;
use crate::paths::{batch_dir, batch_dir_of, output_path, output_path_of};
use crate::progress::{Signal, FRACTION_WHOLE};
use crate::text::{append_bytes, decimal_digits, push_decimal, to_owned_bytes};
use vstd::prelude::*;
use vstd::string::StringSliceAdditionalSpecFns;

verus! {

/// The level reported at the start of a job, in millionths.
pub const STARTING_LEVEL: u32 = 10_000;

/// One input with the output it is encoded to.
#[derive(Clone, Debug, PartialEq, Eq)]
pub struct EncodeJob {
    /// Position of the input in the batch's list of files.
    pub index: usize,
    /// Path of the input.
    pub input: Vec<u8>,
    /// Path of the output.
    pub output: Vec<u8>,
}

/// The chosen output directory of a configuration as a plain value.
pub open spec fn chosen_dir(cfg: JobConfig) -> Option<Seq<u8>> {
    match cfg.output_dir {
        Some(d) => Some(d@),
        None => None,
    }
}

/// The output path of the input at position `i` of a batch.
pub open spec fn job_output(cfg: JobConfig, i: int) -> Seq<u8>
    recommends
        0 <= i < cfg.files@.len(),
{
    output_path_of(batch_dir_of(chosen_dir(cfg), cfg.files@[0]@), cfg.files@[i]@, cfg.container@)
}

/// Gives the directory that receives the outputs of a batch, or nothing
/// where the batch has no input.
pub fn output_dir(cfg: &JobConfig) -> (r: Option<Vec<u8>>)
    ensures
        match r {
            Some(d) => cfg.files@.len() > 0 && d@ == batch_dir_of(
                chosen_dir(*cfg),
                cfg.files@[0]@,
            ),
            None => cfg.files@.len() == 0,
        },
{
    if cfg.files.len() == 0 {
        return None;
    }
    let d = match &cfg.output_dir {
        Some(d) => batch_dir(Some(d.as_slice()), cfg.files[0].as_slice()),
        None => batch_dir(None, cfg.files[0].as_slice()),
    };
    Some(d)
}

/// Derives the jobs of a batch: one for each input, in order, each with its
/// output path. A batch without inputs has no jobs.
pub fn plan_jobs(cfg: &JobConfig) -> (r: Vec<EncodeJob>)
    ensures
        r@.len() == cfg.files@.len(),
        forall|i: int|
            0 <= i < r@.len() ==> {
                &&& (#[trigger] r@[i]).index == i
                &&& r@[i].input@ == cfg.files@[i]@
                &&& r@[i].output@ == job_output(*cfg, i)
            },
{
    let mut jobs: Vec<EncodeJob> = Vec::new();
    let dir = match output_dir(cfg) {
        Some(d) => d,
        None => {
            return jobs;
        },
    };
    let mut i: usize = 0;
    while i < cfg.files.len()
        invariant
            i <= cfg.files@.len(),
            cfg.files@.len() > 0,
            dir@ == batch_dir_of(chosen_dir(*cfg), cfg.files@[0]@),
            jobs@.len() == i,
            forall|k: int|
                0 <= k < i ==> {
                    &&& (#[trigger] jobs@[k]).index == k
                    &&& jobs@[k].input@ == cfg.files@[k]@
                    &&& jobs@[k].output@ == job_output(*cfg, k)
                },
        decreases cfg.files@.len() - i,
    {
        let input = to_owned_bytes(cfg.files[i].as_slice());
        let output = output_path(dir.as_slice(), cfg.files[i].as_slice(), cfg.container.as_slice());
        jobs.push(EncodeJob { index: i, input, output });
        i += 1;
    }
    jobs
}

/// How a job ended.
#[derive(Clone, Debug, PartialEq, Eq)]
pub enum JobOutcome {
    /// The encode pass ran and ended well.
    Completed,
    /// The encode pass could not be started or ended badly; the reason.
    Failed(Vec<u8>),
}

/// A job's outcome as a plain value.
pub enum OutcomeView {
    Completed,
    Failed(Seq<u8>),
}

impl View for JobOutcome {
    type V = OutcomeView;

    open spec fn view(&self) -> OutcomeView {
        match self {
            JobOutcome::Completed => OutcomeView::Completed,
            JobOutcome::Failed(reason) => OutcomeView::Failed(reason@),
        }
    }
}

/// A signed number in decimal.
pub open spec fn signed_digits(n: int) -> Seq<u8> {
    if n < 0 {
        seq![45u8] + decimal_digits((-n) as nat)
    } else {
        decimal_digits(n as nat)
    }
}

/// The outcome that the encode pass's exit status stands for: completed on
/// zero, failed with the status on every other, failed where the process
/// ended without one.
pub open spec fn exit_outcome(code: Option<i32>) -> OutcomeView {
    match code {
        Some(c) => if c == 0 {
            OutcomeView::Completed
        } else {
            OutcomeView::Failed("encoder exited with status ".spec_bytes() + signed_digits(c as int))
        },
        None => OutcomeView::Failed("encoder ended without an exit status".spec_bytes()),
    }
}

/// Tells a job's outcome from the exit status of its encode pass.
pub fn outcome_of_exit(code: Option<i32>) -> (r: JobOutcome)
    ensures
        r@ == exit_outcome(code),
{
    match code {
        Some(c) => {
            if c == 0 {
                JobOutcome::Completed
            } else {
                let mut reason = to_owned_bytes("encoder exited with status ".as_bytes());
                if c < 0 {
                    reason.push(45);
                    push_decimal(&mut reason, (-(c as i64)) as u64);
                } else {
                    push_decimal(&mut reason, c as u64);
                }
                proof {
                    assert(reason@ =~= "encoder exited with status ".spec_bytes() + signed_digits(
                        c as int,
                    ));
                }
                JobOutcome::Failed(reason)
            }
        },
        None => JobOutcome::Failed(
            to_owned_bytes("encoder ended without an exit status".as_bytes()),
        ),
    }
}

/// The outcome of a job whose encode pass could not be started.
pub open spec fn start_failure(reason: Seq<u8>) -> OutcomeView {
    OutcomeView::Failed("could not start the encoder: ".spec_bytes() + reason)
}

/// Tells the outcome of a job whose encode pass could not be started.
pub fn outcome_of_start_failure(reason: &[u8]) -> (r: JobOutcome)
    ensures
        r@ == start_failure(reason@),
{
    let mut text = to_owned_bytes("could not start the encoder: ".as_bytes());
    append_bytes(&mut text, reason);
    JobOutcome::Failed(text)
}

/// The phase of a job that an event reports.
#[derive(Clone, Copy, Debug, PartialEq, Eq, Structural)]
pub enum Phase {
    Starting,
    InProgress,
    Done,
    Failed,
}

/// How far a job has come.
#[derive(Clone, Copy, Debug, PartialEq, Eq, Structural)]
pub enum Level {
    /// The duration is unknown: there is no ratio to show.
    Indeterminate,
    /// A completion ratio in millionths, at most a whole.
    Known(u32),
}

/// What the runner tells a consumer about one job.
#[derive(Clone, Debug, PartialEq, Eq)]
pub struct ProgressEvent {
    /// Position of the job's input in the batch's list of files.
    pub job_index: usize,
    /// Phase of the job.
    pub phase: Phase,
    /// Why the job failed; empty in every other phase.
    pub message: Vec<u8>,
    /// How far the job has come.
    pub level: Level,
}

/// An event as a plain value.
pub struct EventView {
    pub job_index: usize,
    pub phase: Phase,
    pub message: Seq<u8>,
    pub level: Level,
}

impl View for ProgressEvent {
    type V = EventView;

    open spec fn view(&self) -> EventView {
        EventView {
            job_index: self.job_index,
            phase: self.phase,
            message: self.message@,
            level: self.level,
        }
    }
}

/// The event that opens a job.
pub open spec fn starting_view(index: usize) -> EventView {
    EventView {
        job_index: index,
        phase: Phase::Starting,
        message: Seq::empty(),
        level: Level::Known(STARTING_LEVEL),
    }
}

/// The level that a signal stands for: a ratio held at a whole, no ratio
/// for the indeterminate signal, a whole for the end signal.
pub open spec fn signal_level(signal: Signal) -> Level {
    match signal {
        Signal::Fraction(f) => Level::Known(
            if f > FRACTION_WHOLE {
                FRACTION_WHOLE
            } else {
                f
            },
        ),
        Signal::Indeterminate => Level::Indeterminate,
        Signal::Finished => Level::Known(FRACTION_WHOLE),
    }
}

/// The event that hands a signal on.
pub open spec fn progress_view(index: usize, signal: Signal) -> EventView {
    EventView {
        job_index: index,
        phase: Phase::InProgress,
        message: Seq::empty(),
        level: signal_level(signal),
    }
}

/// The event that closes a job: a whole on success, nothing on failure.
pub open spec fn terminal_view(index: usize, outcome: OutcomeView) -> EventView {
    match outcome {
        OutcomeView::Completed => EventView {
            job_index: index,
            phase: Phase::Done,
            message: Seq::empty(),
            level: Level::Known(FRACTION_WHOLE),
        },
        OutcomeView::Failed(reason) => EventView {
            job_index: index,
            phase: Phase::Failed,
            message: reason,
            level: Level::Known(0),
        },
    }
}

/// Makes the event that opens a job.
pub fn starting_event(index: usize) -> (r: ProgressEvent)
    ensures
        r@ == starting_view(index),
{
    ProgressEvent {
        job_index: index,
        phase: Phase::Starting,
        message: Vec::new(),
        level: Level::Known(STARTING_LEVEL),
    }
}

/// Makes the event that hands a signal on.
pub fn progress_event(index: usize, signal: Signal) -> (r: ProgressEvent)
    ensures
        r@ == progress_view(index, signal),
{
    let level = match signal {
        Signal::Fraction(f) => Level::Known(
            if f > FRACTION_WHOLE {
                FRACTION_WHOLE
            } else {
                f
            },
        ),
        Signal::Indeterminate => Level::Indeterminate,
        Signal::Finished => Level::Known(FRACTION_WHOLE),
    };
    ProgressEvent { job_index: index, phase: Phase::InProgress, message: Vec::new(), level }
}

/// Makes the event that closes a job.
pub fn terminal_event(index: usize, outcome: &JobOutcome) -> (r: ProgressEvent)
    ensures
        r@ == terminal_view(index, outcome@),
        r.level == (if outcome is Completed {
            Level::Known(FRACTION_WHOLE)
        } else {
            Level::Known(0)
        }),
{
    match outcome {
        JobOutcome::Completed => ProgressEvent {
            job_index: index,
            phase: Phase::Done,
            message: Vec::new(),
            level: Level::Known(FRACTION_WHOLE),
        },
        JobOutcome::Failed(reason) => ProgressEvent {
            job_index: index,
            phase: Phase::Failed,
            message: to_owned_bytes(reason.as_slice()),
            level: Level::Known(0),
        },
    }
}

/// The status label of an event.
pub open spec fn status_of(event: EventView) -> Seq<u8> {
    match event.phase {
        Phase::Starting => "starting".spec_bytes(),
        Phase::InProgress => "in progress".spec_bytes(),
        Phase::Done => "done".spec_bytes(),
        Phase::Failed => "error: ".spec_bytes() + event.message,
    }
}

impl ProgressEvent {
    /// Gives the status label of the event.
    pub fn status_text(&self) -> (r: Vec<u8>)
        ensures
            r@ == status_of(self@),
    {
        match self.phase {
            Phase::Starting => to_owned_bytes("starting".as_bytes()),
            Phase::InProgress => to_owned_bytes("in progress".as_bytes()),
            Phase::Done => to_owned_bytes("done".as_bytes()),
            Phase::Failed => {
                let mut out = to_owned_bytes("error: ".as_bytes());
                append_bytes(&mut out, self.message.as_slice());
                out
            },
        }
    }
}

/// The output paths of a batch depend on nothing but its inputs, its chosen
/// directory and its container: two batches that agree in these give each
/// input the same output path, so that a second run writes over the files of
/// the first.
pub proof fn lemma_same_batch_same_outputs(a: JobConfig, b: JobConfig, i: int)
    requires
        a.files.deep_view() == b.files.deep_view(),
        chosen_dir(a) == chosen_dir(b),
        a.container@ == b.container@,
        0 <= i < a.files@.len(),
    ensures
        job_output(a, i) == job_output(b, i),
{
    assert(a.files.deep_view().len() == a.files@.len());
    assert(b.files.deep_view().len() == b.files@.len());
    assert(a.files.deep_view()[0] == b.files.deep_view()[0]);
    assert(a.files.deep_view()[i] == b.files.deep_view()[i]);
    assert(a.files@[0]@ =~= a.files.deep_view()[0]);
    assert(b.files@[0]@ =~= b.files.deep_view()[0]);
    assert(a.files@[i]@ =~= a.files.deep_view()[i]);
    assert(b.files@[i]@ =~= b.files.deep_view()[i]);
}

} // verus!
