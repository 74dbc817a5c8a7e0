//! A whole batch: its jobs one after the other, never two at a time. A job
//! that fails does not keep the next one from running.

use crate::encode::JobConfig;
use crate::job::{
    actions_view, count_where, fresh_driver, is_run, lemma_count_concat,
    lemma_one_process_per_answer, next, ActionView, JobAction, JobDriver, JobInput, Stage,
};
use crate::runner::{job_output, plan_jobs, EncodeJob};
use vstd::prelude::*;

verus! {

/// The state of a batch.
#[derive(Clone, Debug, PartialEq, Eq)]
pub struct BatchRunner {
    /// The jobs, in the order in which they run.
    pub jobs: Vec<EncodeJob>,
    /// Position of the job that runs; the number of jobs once all have ended.
    pub current: usize,
    /// State of the job that runs.
    pub driver: JobDriver,
}

/// The batch's answer to one input: the position and state it moves to, and
/// what it asks for.
///
/// The input goes to the job that runs. When that job ends, however it ends,
/// the next job begins at once; after the last job nothing is asked for any
/// more.
pub open spec fn batch_next(b: BatchRunner, cfg: JobConfig, input: JobInput) -> (
    int,
    JobDriver,
    Seq<ActionView>,
) {
    if b.current >= b.jobs@.len() {
        (b.current as int, b.driver, seq![])
    } else {
        let answer = next(b.driver, cfg, b.jobs@[b.current as int], input);
        if answer.0.stage != Stage::Finished {
            (b.current as int, answer.0, answer.1)
        } else if b.current + 1 < b.jobs@.len() {
            let opening = next(fresh_driver(), cfg, b.jobs@[b.current + 1], JobInput::Begin);
            (b.current + 1, opening.0, answer.1 + opening.1)
        } else {
            (b.current + 1, fresh_driver(), answer.1)
        }
    }
}

impl BatchRunner {
    /// A runner for the jobs of `cfg`, none of them begun.
    pub fn new(cfg: &JobConfig) -> (r: Self)
        ensures
            r.current == 0,
            r.driver == fresh_driver(),
            r.jobs@.len() == cfg.files@.len(),
            forall|i: int|
                0 <= i < r.jobs@.len() ==> {
                    &&& (#[trigger] r.jobs@[i]).index == i
                    &&& r.jobs@[i].input@ == cfg.files@[i]@
                    &&& r.jobs@[i].output@ == job_output(*cfg, i)
                },
    {
        BatchRunner { jobs: plan_jobs(cfg), current: 0, driver: JobDriver::new() }
    }

    /// Whether every job has ended. A batch without jobs is done from the
    /// start.
    pub fn is_done(&self) -> (r: bool)
        ensures
            r == (self.current >= self.jobs@.len()),
    {
        self.current >= self.jobs.len()
    }

    /// Takes one input and gives what is to be done next, in order. The
    /// first input of a batch is `Begin`.
    pub fn advance(&mut self, cfg: &JobConfig, input: JobInput) -> (r: Vec<JobAction>)
        ensures
            final(self).jobs == old(self).jobs,
            (final(self).current as int, final(self).driver, actions_view(r@)) == batch_next(
                *old(self),
                *cfg,
                input,
            ),
    {
        if self.current >= self.jobs.len() {
            let none: Vec<JobAction> = Vec::new();
            proof {
                assert(actions_view(none@) =~= Seq::<ActionView>::empty());
            }
            return none;
        }
        let mut driver = self.driver;
        let mut out = driver.advance(cfg, &self.jobs[self.current], input);
        if !driver.is_finished() {
            self.driver = driver;
            return out;
        }
        self.current = self.current + 1;
        self.driver = JobDriver::new();
        if self.current < self.jobs.len() {
            let mut fresh = JobDriver::new();
            let ghost first = actions_view(out@);
            let mut opening = fresh.advance(cfg, &self.jobs[self.current], JobInput::Begin);
            let ghost second = actions_view(opening@);
            out.append(&mut opening);
            self.driver = fresh;
            proof {
                assert(actions_view(out@) =~= first + second);
            }
        }
        out
    }
}

/// After the last job has ended no input brings another event or process.
pub proof fn lemma_done_is_final(b: BatchRunner, cfg: JobConfig, input: JobInput)
    requires
        b.current >= b.jobs@.len(),
    ensures
        batch_next(b, cfg, input) == (b.current as int, b.driver, Seq::<ActionView>::empty()),
{
}

/// A batch without jobs asks for nothing, whatever it is told.
pub proof fn lemma_empty_batch_is_silent(b: BatchRunner, cfg: JobConfig, input: JobInput)
    requires
        b.jobs@.len() == 0,
    ensures
        batch_next(b, cfg, input).2 == Seq::<ActionView>::empty(),
{
}

/// When a job's encode pass ends or cannot be started, the batch moves on to
/// the next job, whether the job succeeded or failed.
pub proof fn lemma_failure_does_not_stop_the_batch(b: BatchRunner, cfg: JobConfig, input: JobInput)
    requires
        b.current < b.jobs@.len(),
        b.driver.stage == Stage::Encoding,
        input is Exited || input is StartFailed,
    ensures
        batch_next(b, cfg, input).0 == b.current + 1,
        b.current + 1 < b.jobs@.len() ==> batch_next(b, cfg, input).1.stage == Stage::Probing,
{
}

/// One answer of the batch asks for at most one process: no two passes run at
/// the same time, within a job or across jobs.
pub proof fn lemma_one_process_at_a_time(b: BatchRunner, cfg: JobConfig, input: JobInput)
    ensures
        count_where(batch_next(b, cfg, input).2, |a: ActionView| is_run(a)) <= 1,
{
    let runs = |a: ActionView| is_run(a);
    if b.current < b.jobs@.len() {
        let job = b.jobs@[b.current as int];
        let answer = next(b.driver, cfg, job, input);
        lemma_one_process_per_answer(b.driver, cfg, job, input);
        if answer.0.stage == Stage::Finished && b.current + 1 < b.jobs@.len() {
            let following = b.jobs@[b.current + 1];
            let opening = next(fresh_driver(), cfg, following, JobInput::Begin);
            lemma_one_process_per_answer(fresh_driver(), cfg, following, JobInput::Begin);
            lemma_count_concat(answer.1, opening.1, runs);
        }
    }
}

} // verus!
