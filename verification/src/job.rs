//! One job from start to end, as a state machine. The caller runs the
//! processes; the driver says which to run next and which events to hand to
//! the consumer.

use crate::decimal::{parse_duration_micros, parsed_duration};
use crate::encode::{
    encode_args, encode_args_of, measure_args, measure_args_of, probe_args, probe_args_of,
    JobConfig,
};
use crate::loudness::{measurement, parse_loudness, summary_block};
use crate::progress::{classify_line, step, ProgressParser, FRACTION_WHOLE};
use crate::runner::{
    exit_outcome, outcome_of_exit, outcome_of_start_failure, progress_event, progress_view,
    start_failure, starting_event, starting_view, terminal_event, terminal_view, EncodeJob,
    EventView, Level, Phase, ProgressEvent,
};
use vstd::prelude::*;

verus! {

/// The duration that a query yields: what its output spells where it ended
/// well, else none.
pub open spec fn probed_duration(exit_ok: bool, stdout: Seq<u8>) -> Option<u64> {
    if exit_ok {
        parsed_duration(stdout)
    } else {
        None
    }
}

/// Reads the duration in microseconds from what a duration query left behind.
pub fn probe_duration(exit_ok: bool, stdout: &[u8]) -> (r: Option<u64>)
    ensures
        r == probed_duration(exit_ok, stdout@),
        r matches Some(d) ==> d > 0,
{
    if exit_ok {
        parse_duration_micros(stdout)
    } else {
        None
    }
}

/// Where a job stands.
#[derive(Clone, Copy, Debug, PartialEq, Eq, Structural)]
pub enum Stage {
    /// Not begun.
    Idle,
    /// The duration query runs.
    Probing,
    /// The measurement pass runs.
    Measuring,
    /// The encode pass runs, or is about to be started.
    Encoding,
    /// The job has ended.
    Finished,
}

/// What the caller reports to the driver.
#[derive(Clone, Copy, Debug, PartialEq, Eq)]
pub enum JobInput<'a> {
    /// The job is to begin.
    Begin,
    /// The duration query has ended.
    Probed { exit_ok: bool, stdout: &'a [u8] },
    /// The measurement pass has ended. One that could not be started counts
    /// as one that ended badly.
    Measured { exit_ok: bool, stdout: &'a [u8], stderr: &'a [u8] },
    /// The encode pass could not be started; the reason.
    StartFailed(&'a [u8]),
    /// The encode pass has written a line to its progress stream.
    Line(&'a [u8]),
    /// The encode pass has ended, with this exit status.
    Exited(Option<i32>),
}

/// What the driver asks of the caller.
#[derive(Clone, Debug, PartialEq, Eq)]
pub enum JobAction {
    /// Hand this event to the consumer.
    Emit(ProgressEvent),
    /// Run the prober with these arguments and report `Probed`.
    RunProber(Vec<Vec<u8>>),
    /// Run the encoder with these arguments, capture both of its output
    /// streams, and report `Measured`.
    RunMeasurement(Vec<Vec<u8>>),
    /// Run the encoder with these arguments and report each line of its
    /// standard output as `Line`, then `Exited`; or report `StartFailed`.
    RunEncoder(Vec<Vec<u8>>),
}

/// An action as a plain value.
pub enum ActionView {
    Emit(EventView),
    RunProber(Seq<Seq<u8>>),
    RunMeasurement(Seq<Seq<u8>>),
    RunEncoder(Seq<Seq<u8>>),
}

impl View for JobAction {
    type V = ActionView;

    open spec fn view(&self) -> ActionView {
        match self {
            JobAction::Emit(e) => ActionView::Emit(e@),
            JobAction::RunProber(a) => ActionView::RunProber(a.deep_view()),
            JobAction::RunMeasurement(a) => ActionView::RunMeasurement(a.deep_view()),
            JobAction::RunEncoder(a) => ActionView::RunEncoder(a.deep_view()),
        }
    }
}

/// The views of a list of actions, in order.
pub open spec fn actions_view(actions: Seq<JobAction>) -> Seq<ActionView> {
    Seq::new(actions.len(), |i: int| actions[i]@)
}

/// The state of one job.
#[derive(Clone, Copy, Debug, PartialEq, Eq, Structural)]
pub struct JobDriver {
    /// Where the job stands.
    pub stage: Stage,
    /// Decoder of the encode pass's progress stream.
    pub parser: ProgressParser,
}

/// The driver's answer to one input: its next state and what it asks for.
///
/// A job begins with its opening event and the duration query. After the
/// query comes the measurement pass where normalization is asked for, else
/// the encode pass. After the measurement pass comes the encode pass, with
/// the normalization filter where the pass gave measurements and without it
/// where it gave none. While the encode pass runs each line of its stream is
/// decoded. The job ends with one closing event, when the encode pass ends
/// or cannot be started. An input that does not fit the stage changes nothing.
pub open spec fn next(d: JobDriver, cfg: JobConfig, job: EncodeJob, input: JobInput) -> (
    JobDriver,
    Seq<ActionView>,
) {
    match (d.stage, input) {
        (Stage::Idle, JobInput::Begin) => (
            JobDriver { stage: Stage::Probing, parser: d.parser },
            seq![
                ActionView::Emit(starting_view(job.index)),
                ActionView::RunProber(probe_args_of(job.input@)),
            ],
        ),
        (Stage::Probing, JobInput::Probed { exit_ok, stdout }) => {
            let parser = ProgressParser {
                duration: match probed_duration(exit_ok, stdout@) {
                    Some(micros) => micros,
                    None => 0,
                },
                announced: false,
            };
            if cfg.normalize {
                (
                    JobDriver { stage: Stage::Measuring, parser },
                    seq![ActionView::RunMeasurement(measure_args_of(job.input@))],
                )
            } else {
                (
                    JobDriver { stage: Stage::Encoding, parser },
                    seq![
                        ActionView::RunEncoder(
                            encode_args_of(cfg, job.input@, job.output@, None),
                        ),
                    ],
                )
            }
        },
        (Stage::Measuring, JobInput::Measured { exit_ok, stdout, stderr }) => (
            JobDriver { stage: Stage::Encoding, parser: d.parser },
            seq![
                ActionView::RunEncoder(
                    encode_args_of(
                        cfg,
                        job.input@,
                        job.output@,
                        measurement(exit_ok, stdout@, stderr@),
                    ),
                ),
            ],
        ),
        (Stage::Encoding, JobInput::StartFailed(reason)) => (
            JobDriver { stage: Stage::Finished, parser: d.parser },
            seq![ActionView::Emit(terminal_view(job.index, start_failure(reason@)))],
        ),
        (Stage::Encoding, JobInput::Line(line)) => {
            let decoded = step(d.parser, classify_line(line@));
            (
                JobDriver { stage: Stage::Encoding, parser: decoded.0 },
                match decoded.1 {
                    Some(signal) => seq![ActionView::Emit(progress_view(job.index, signal))],
                    None => seq![],
                },
            )
        },
        (Stage::Encoding, JobInput::Exited(code)) => (
            JobDriver { stage: Stage::Finished, parser: d.parser },
            seq![ActionView::Emit(terminal_view(job.index, exit_outcome(code)))],
        ),
        _ => (d, seq![]),
    }
}

/// The state of a job that has not begun.
pub open spec fn fresh_driver() -> JobDriver {
    JobDriver { stage: Stage::Idle, parser: ProgressParser { duration: 0, announced: false } }
}

impl JobDriver {
    /// A driver for a job that has not begun.
    pub fn new() -> (r: Self)
        ensures
            r == fresh_driver(),
    {
        JobDriver { stage: Stage::Idle, parser: ProgressParser::new(None) }
    }

    /// Whether the job has ended.
    pub fn is_finished(&self) -> (r: bool)
        ensures
            r == (self.stage == Stage::Finished),
    {
        self.stage == Stage::Finished
    }

    /// Takes one input and gives what is to be done next, in order.
    pub fn advance(&mut self, cfg: &JobConfig, job: &EncodeJob, input: JobInput) -> (r: Vec<
        JobAction,
    >)
        ensures
            (*final(self), actions_view(r@)) == next(*old(self), *cfg, *job, input),
    {
        let mut out: Vec<JobAction> = Vec::new();
        match (self.stage, input) {
            (Stage::Idle, JobInput::Begin) => {
                self.stage = Stage::Probing;
                out.push(JobAction::Emit(starting_event(job.index)));
                out.push(JobAction::RunProber(probe_args(job.input.as_slice())));
            },
            (Stage::Probing, JobInput::Probed { exit_ok, stdout }) => {
                self.parser = ProgressParser::new(probe_duration(exit_ok, stdout));
                if cfg.normalize {
                    self.stage = Stage::Measuring;
                    out.push(JobAction::RunMeasurement(measure_args(job.input.as_slice())));
                } else {
                    self.stage = Stage::Encoding;
                    out.push(
                        JobAction::RunEncoder(
                            encode_args(cfg, job.input.as_slice(), job.output.as_slice(), None),
                        ),
                    );
                }
            },
            (Stage::Measuring, JobInput::Measured { exit_ok, stdout, stderr }) => {
                self.stage = Stage::Encoding;
                let measured = parse_loudness(exit_ok, stdout, stderr);
                let args = match &measured {
                    Some(m) => encode_args(
                        cfg,
                        job.input.as_slice(),
                        job.output.as_slice(),
                        Some(m),
                    ),
                    None => encode_args(cfg, job.input.as_slice(), job.output.as_slice(), None),
                };
                out.push(JobAction::RunEncoder(args));
            },
            (Stage::Encoding, JobInput::StartFailed(reason)) => {
                self.stage = Stage::Finished;
                let outcome = outcome_of_start_failure(reason);
                out.push(JobAction::Emit(terminal_event(job.index, &outcome)));
            },
            (Stage::Encoding, JobInput::Line(line)) => {
                match self.parser.feed(line) {
                    Some(signal) => {
                        out.push(JobAction::Emit(progress_event(job.index, signal)));
                    },
                    None => {},
                }
            },
            (Stage::Encoding, JobInput::Exited(code)) => {
                self.stage = Stage::Finished;
                let outcome = outcome_of_exit(code);
                out.push(JobAction::Emit(terminal_event(job.index, &outcome)));
            },
            _ => {},
        }
        proof {
            assert(actions_view(out@) =~= next(*old(self), *cfg, *job, input).1);
        }
        out
    }
}

/// However the job went and whatever is known of its duration, its closing
/// event reports a whole where the encode pass ended with status zero, and
/// nothing where it ended otherwise or could not be started.
pub proof fn lemma_closing_level(d: JobDriver, cfg: JobConfig, job: EncodeJob, input: JobInput)
    requires
        d.stage == Stage::Encoding,
        input is Exited || input is StartFailed,
    ensures
        next(d, cfg, job, input).0.stage == Stage::Finished,
        next(d, cfg, job, input).1.len() == 1,
        next(d, cfg, job, input).1[0] is Emit,
        next(d, cfg, job, input).1[0]->Emit_0.job_index == job.index,
        next(d, cfg, job, input).1[0]->Emit_0.level == (if input == JobInput::Exited(Some(0i32)) {
            Level::Known(FRACTION_WHOLE)
        } else {
            Level::Known(0)
        }),
{
}

/// Once a job has ended, no input brings another event or process.
pub proof fn lemma_finished_is_final(d: JobDriver, cfg: JobConfig, job: EncodeJob, input: JobInput)
    requires
        d.stage == Stage::Finished,
    ensures
        next(d, cfg, job, input) == (d, Seq::<ActionView>::empty()),
{
}

/// A measurement pass that ended badly, or left no summary, does not fail
/// the job: the encode pass follows, without the normalization filter.
pub proof fn lemma_failed_measurement_is_absorbed(
    d: JobDriver,
    cfg: JobConfig,
    job: EncodeJob,
    exit_ok: bool,
    stdout: &[u8],
    stderr: &[u8],
)
    requires
        d.stage == Stage::Measuring,
        !exit_ok || summary_block(stdout@ + stderr@) is None,
    ensures
        next(d, cfg, job, JobInput::Measured { exit_ok, stdout, stderr }) == (
            JobDriver { stage: Stage::Encoding, parser: d.parser },
            seq![ActionView::RunEncoder(encode_args_of(cfg, job.input@, job.output@, None))],
        ),
{
}

/// The driver's state after a run of inputs, and all it asked for, in order.
pub open spec fn drive(d: JobDriver, cfg: JobConfig, job: EncodeJob, inputs: Seq<JobInput>) -> (
    JobDriver,
    Seq<ActionView>,
)
    decreases inputs.len(),
{
    if inputs.len() == 0 {
        (d, seq![])
    } else {
        let before = drive(d, cfg, job, inputs.drop_last());
        let last = next(before.0, cfg, job, inputs.last());
        (last.0, before.1 + last.1)
    }
}

/// An action that hands on a closing event: done or failed.
pub open spec fn is_closing(a: ActionView) -> bool {
    a matches ActionView::Emit(e) && (e.phase == Phase::Done || e.phase == Phase::Failed)
}

/// An action that hands on an event without a ratio.
pub open spec fn is_indeterminate(a: ActionView) -> bool {
    a matches ActionView::Emit(e) && e.level == Level::Indeterminate
}

/// An action that asks for a process to be run.
pub open spec fn is_run(a: ActionView) -> bool {
    !(a is Emit)
}

/// How many of `actions` meet `f`.
pub open spec fn count_where(actions: Seq<ActionView>, f: spec_fn(ActionView) -> bool) -> nat
    decreases actions.len(),
{
    if actions.len() == 0 {
        0
    } else {
        count_where(actions.drop_last(), f) + (if f(actions.last()) {
            1nat
        } else {
            0nat
        })
    }
}

/// Counting goes through concatenation.
pub proof fn lemma_count_concat(a: Seq<ActionView>, b: Seq<ActionView>, f: spec_fn(ActionView) -> bool)
    ensures
        count_where(a + b, f) == count_where(a, f) + count_where(b, f),
    decreases b.len(),
{
    if b.len() == 0 {
        assert(a + b =~= a);
    } else {
        lemma_count_concat(a, b.drop_last(), f);
        assert((a + b).drop_last() =~= a + b.drop_last());
        assert((a + b).last() == b.last());
    }
}

/// Counting in a list of one action.
pub proof fn lemma_count_one(x: ActionView, f: spec_fn(ActionView) -> bool)
    ensures
        count_where(seq![x], f) == (if f(x) {
            1nat
        } else {
            0nat
        }),
{
    assert(seq![x].drop_last() =~= Seq::<ActionView>::empty());
    assert(count_where(Seq::<ActionView>::empty(), f) == 0);
    assert(seq![x].last() == x);
}

/// Counting in a list of two actions.
pub proof fn lemma_count_two(x: ActionView, y: ActionView, f: spec_fn(ActionView) -> bool)
    ensures
        count_where(seq![x, y], f) == (if f(x) {
            1nat
        } else {
            0nat
        }) + (if f(y) {
            1nat
        } else {
            0nat
        }),
{
    lemma_count_one(x, f);
    assert(seq![x, y].drop_last() =~= seq![x]);
    assert(seq![x, y].last() == y);
}

/// What holds of a job after any run of inputs, from its beginning.
spec fn job_invariant(r: (JobDriver, Seq<ActionView>)) -> bool {
    let closings = count_where(r.1, |a: ActionView| is_closing(a));
    let pulses = count_where(r.1, |a: ActionView| is_indeterminate(a));
    match r.0.stage {
        Stage::Idle => closings == 0 && pulses == 0 && !r.0.parser.announced,
        Stage::Probing => closings == 0 && pulses == 0,
        Stage::Measuring => closings == 0 && pulses == 0 && !r.0.parser.announced,
        Stage::Encoding => closings == 0 && pulses == (if r.0.parser.announced {
            1nat
        } else {
            0nat
        }),
        Stage::Finished => closings == 1 && pulses <= 1 && r.1.len() > 0 && is_closing(r.1.last()),
    }
}

proof fn lemma_job_invariant(cfg: JobConfig, job: EncodeJob, inputs: Seq<JobInput>)
    ensures
        job_invariant(drive(fresh_driver(), cfg, job, inputs)),
    decreases inputs.len(),
{
    let closing = |a: ActionView| is_closing(a);
    let pulse = |a: ActionView| is_indeterminate(a);
    if inputs.len() == 0 {
        assert(count_where(Seq::<ActionView>::empty(), closing) == 0);
        assert(count_where(Seq::<ActionView>::empty(), pulse) == 0);
    } else {
        lemma_job_invariant(cfg, job, inputs.drop_last());
        let before = drive(fresh_driver(), cfg, job, inputs.drop_last());
        let last = next(before.0, cfg, job, inputs.last());
        lemma_count_concat(before.1, last.1, closing);
        lemma_count_concat(before.1, last.1, pulse);
        if last.1.len() == 0 {
            assert(before.1 + last.1 =~= before.1);
        } else if last.1.len() == 1 {
            assert(last.1 =~= seq![last.1[0]]);
            lemma_count_one(last.1[0], closing);
            lemma_count_one(last.1[0], pulse);
            assert((before.1 + last.1).last() == last.1[0]);
        } else {
            assert(last.1 =~= seq![last.1[0], last.1[1]]);
            lemma_count_two(last.1[0], last.1[1], closing);
            lemma_count_two(last.1[0], last.1[1], pulse);
        }
    }
}

/// From its beginning and whatever it is told, a job hands on at most one
/// event without a ratio and at most one closing event. It has handed on
/// its closing event exactly when it has ended, and nothing comes after it.
pub proof fn lemma_one_closing_event(cfg: JobConfig, job: EncodeJob, inputs: Seq<JobInput>)
    ensures
        count_where(
            drive(fresh_driver(), cfg, job, inputs).1,
            |a: ActionView| is_indeterminate(a),
        ) <= 1,
        count_where(drive(fresh_driver(), cfg, job, inputs).1, |a: ActionView| is_closing(a)) == (
        if drive(fresh_driver(), cfg, job, inputs).0.stage == Stage::Finished {
            1nat
        } else {
            0nat
        }),
        drive(fresh_driver(), cfg, job, inputs).0.stage == Stage::Finished ==> is_closing(
            drive(fresh_driver(), cfg, job, inputs).1.last(),
        ),
{
    lemma_job_invariant(cfg, job, inputs);
}

/// One answer of the driver asks for at most one process, and for none
/// together with a closing event.
pub proof fn lemma_one_process_per_answer(
    d: JobDriver,
    cfg: JobConfig,
    job: EncodeJob,
    input: JobInput,
)
    ensures
        count_where(next(d, cfg, job, input).1, |a: ActionView| is_run(a)) <= 1,
        next(d, cfg, job, input).0.stage == Stage::Finished ==> count_where(
            next(d, cfg, job, input).1,
            |a: ActionView| is_run(a),
        ) == 0,
{
    let runs = |a: ActionView| is_run(a);
    let answer = next(d, cfg, job, input).1;
    if answer.len() == 0 {
    } else if answer.len() == 1 {
        assert(answer =~= seq![answer[0]]);
        lemma_count_one(answer[0], runs);
    } else {
        assert(answer =~= seq![answer[0], answer[1]]);
        lemma_count_two(answer[0], answer[1], runs);
    }
}

} // verus!
