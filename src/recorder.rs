//! The recorder: creates jobs, finds them again, and prunes the directories
//! of finished jobs that left no output.

use crate::job::{invocation_json, is_spawn_plan, Job, SpawnPlan};
use crate::job_dir::{dir_names, path_joined, texts, DirEntry, WorkDir};
use crate::job_id::{ulid_text, JobId};
use vstd::prelude::*;

verus! {

/// What was seen of one job at the time of a sweep.
pub struct JobObservation {
    /// Whether the job's process was found alive.
    pub running: bool,
    /// The job's output files.
    pub output_file_names: Vec<String>,
}

/// A job is garbage when its process is not running and it has no output.
pub open spec fn is_prunable(o: JobObservation) -> bool {
    !o.running && o.output_file_names@.len() == 0
}

/// The positions of the prunable jobs among `obs`, in ascending order.
pub open spec fn prune_selection(obs: Seq<JobObservation>) -> Seq<int>
    decreases obs.len(),
{
    if obs.len() == 0 {
        Seq::empty()
    } else {
        let rest = prune_selection(obs.drop_last());
        if is_prunable(obs.last()) {
            rest.push(obs.len() - 1)
        } else {
            rest
        }
    }
}

/// The jobs among `obs` that a sweep leaves in place, in their order.
pub open spec fn survivors(obs: Seq<JobObservation>) -> Seq<JobObservation>
    decreases obs.len(),
{
    if obs.len() == 0 {
        Seq::empty()
    } else {
        let rest = survivors(obs.drop_last());
        if is_prunable(obs.last()) {
            rest
        } else {
            rest.push(obs.last())
        }
    }
}

/// A sweep removes a job if and only if its process is not running and it
/// has no output file: a running job and a job with output both stay.
pub proof fn lemma_prune_removes_exactly_garbage(obs: Seq<JobObservation>)
    ensures
        forall|i: int|
            #[trigger] prune_selection(obs).contains(i) <==> (0 <= i < obs.len() && !obs[i].running
                && obs[i].output_file_names@.len() == 0),
    decreases obs.len(),
{
    if obs.len() > 0 {
        let rest = obs.drop_last();
        lemma_prune_removes_exactly_garbage(rest);
        let sel = prune_selection(obs);
        assert forall|i: int| #[trigger] sel.contains(i) <==> (0 <= i < obs.len()
            && !obs[i].running && obs[i].output_file_names@.len() == 0) by {
            if 0 <= i < obs.len() - 1 {
                assert(obs[i] == rest[i]);
            }
            if sel.contains(i) && !prune_selection(rest).contains(i) {
                let j = choose|j: int| 0 <= j < sel.len() && sel[j] == i;
                assert(j == sel.len() - 1);
            }
            if prune_selection(rest).contains(i) {
                let j = choose|j: int| 0 <= j < prune_selection(rest).len() && prune_selection(
                    rest,
                )[j] == i;
                assert(sel[j] == i);
            }
            if i == obs.len() - 1 && is_prunable(obs.last()) {
                assert(sel[sel.len() - 1] == i);
            }
        }
    }
}

/// Pruning is idempotent: on the jobs that a sweep left, with nothing
/// changed in between, a second sweep removes nothing.
pub proof fn lemma_prune_idempotent(obs: Seq<JobObservation>)
    ensures
        prune_selection(survivors(obs)) =~= Seq::<int>::empty(),
    decreases obs.len(),
{
    if obs.len() > 0 {
        let rest = obs.drop_last();
        lemma_prune_idempotent(rest);
        if !is_prunable(obs.last()) {
            assert(survivors(obs).drop_last() =~= survivors(rest));
        }
    }
}

/// A job looked up by its identifier right after it was spawned is the
/// spawned job: it has the same directory, and so the invocation record there
/// is the one written at spawn time, naming `command` and every argument of
/// `args` verbatim.
pub proof fn lemma_spawned_job_is_found(
    recorder: Recorder,
    spawned: Job,
    plan: SpawnPlan,
    found: Job,
    command: Seq<char>,
    args: Seq<Seq<char>>,
)
    requires
        spawned@.1 == path_joined(recorder@, spawned@.0),
        is_spawn_plan(plan, spawned@.1, command, args),
        found@ == (spawned@.0, path_joined(recorder@, spawned@.0)),
    ensures
        found@ == spawned@,
        plan.invocation_path@ == path_joined(found@.1, "info/invocation.json"@),
        plan.invocation@ == invocation_json(command, args).push('\n'),
        plan.program@ == command,
        texts(plan.args@) == args,
{
}

/// Whether a child reaper goes on collecting after `waitpid` returned
/// `wait_result`: only a reaped child (a positive process id) means another
/// may be waiting; zero (none has exited) or an error ends the round, and the
/// reaper waits for the next notice.
pub fn continue_reaping(wait_result: i32) -> (r: bool)
    ensures
        r == (wait_result > 0),
{
    wait_result > 0
}

/// The facade over a work directory.
pub struct Recorder {
    work_dir: WorkDir,
}

impl View for Recorder {
    /// The path of the work directory.
    type V = Seq<char>;

    closed spec fn view(&self) -> Seq<char> {
        self.work_dir@
    }
}

impl Recorder {
    /// A recorder keeping its jobs under `path`.
    pub fn new(path: String) -> (r: Recorder)
        ensures
            r@ == path@,
    {
        Recorder { work_dir: WorkDir::new(path) }
    }

    /// The path of the work directory.
    pub fn path(&self) -> (r: &str)
        ensures
            r@ == self@,
    {
        self.work_dir.path()
    }

    /// The path of the directory of the job `job_id`, whether it exists or not.
    pub fn job_path(&self, job_id: &JobId) -> (r: String)
        ensures
            r@ == path_joined(self@, job_id@),
    {
        let dir = self.work_dir.job_dir(job_id);
        dir.path().to_owned()
    }

    /// A new job with a fresh identifier, and how to launch `command` with
    /// `args` as that job.
    pub fn spawn_job(&self, command: &str, args: &Vec<String>) -> (r: (Job, SpawnPlan))
        ensures
            exists|v: u128| r.0@.0 == ulid_text(v),
            r.0@.1 == path_joined(self@, r.0@.0),
            is_spawn_plan(r.1, r.0@.1, command@, texts(args@)),
    {
        let job_id = JobId::new();
        let job_dir = self.work_dir.job_dir(&job_id);
        let job = Job::new(job_id, job_dir);
        let plan = job.spawn(command, args);
        (job, plan)
    }

    /// The job `job_id`, where its directory exists (`dir_exists`, a probe of
    /// [`Recorder::job_path`]); absent otherwise, never an error.
    pub fn job(&self, job_id: &JobId, dir_exists: bool) -> (r: Option<Job>)
        ensures
            r is Some <==> dir_exists,
            r matches Some(j) ==> j@ == (job_id@, path_joined(self@, job_id@)),
    {
        let job_dir = self.work_dir.job_dir(job_id);
        if dir_exists {
            Some(Job::new(job_id.clone(), job_dir))
        } else {
            None
        }
    }

    /// One job for each directory of the work directory's listing whose name
    /// is UTF-8, in the listing's order.
    pub fn jobs(&self, entries: &Vec<DirEntry>) -> (r: Vec<Job>)
        ensures
            r@.len() == dir_names(entries@).len(),
            forall|k: int|
                #![trigger r@[k]]
                0 <= k < r@.len() ==> r@[k]@ == (
                    dir_names(entries@)[k],
                    path_joined(self@, dir_names(entries@)[k]),
                ),
    {
        let dirs = self.work_dir.job_dirs(entries);
        let mut jobs: Vec<Job> = Vec::new();
        let mut i: usize = 0;
        while i < dirs.len()
            invariant
                i <= dirs@.len(),
                jobs@.len() == i,
                forall|k: int|
                    #![trigger jobs@[k]]
                    0 <= k < i ==> jobs@[k]@ == (dirs@[k].0@, dirs@[k].1@),
            decreases dirs.len() - i,
        {
            let (job_id, job_dir) = &dirs[i];
            jobs.push(Job::new(job_id.clone(), job_dir.clone()));
            i += 1;
        }
        jobs
    }

    /// The positions, among the jobs that `observations` describe, of those
    /// whose directories a sweep deletes: each job that is not running and
    /// has no output file, in ascending order.
    pub fn prune_job_dirs(&self, observations: &Vec<JobObservation>) -> (r: Vec<usize>)
        ensures
            r@.map_values(|i: usize| i as int) == prune_selection(observations@),
    {
        let mut selected: Vec<usize> = Vec::new();
        let mut i: usize = 0;
        while i < observations.len()
            invariant
                i <= observations.len(),
                selected@.map_values(|j: usize| j as int) == prune_selection(
                    observations@.take(i as int),
                ),
            decreases observations.len() - i,
        {
            let o = &observations[i];
            assert(observations@.take(i + 1).drop_last() =~= observations@.take(i as int));
            if !o.running && o.output_file_names.len() == 0 {
                selected.push(i);
                assert(selected@.map_values(|j: usize| j as int) =~= prune_selection(
                    observations@.take(i + 1),
                ));
            }
            i += 1;
        }
        assert(observations@.take(observations.len() as int) =~= observations@);
        selected
    }
}

} // verus!
