use job_recorder::job_dir::{DirEntry, WorkDir};
use job_recorder::job_id::JobId;
use job_recorder::recorder::{continue_reaping, JobObservation, Recorder};

fn dir(name: &str) -> DirEntry {
    DirEntry { name: Some(name.to_string()), is_dir: true, is_file: false }
}

fn seen(running: bool, outputs: &[&str]) -> JobObservation {
    JobObservation { running, output_file_names: outputs.iter().map(|s| s.to_string()).collect() }
}

#[test]
fn missing_job_is_absent() {
    let recorder = Recorder::new("/srv/jobs".to_string());
    let id = JobId::parse("01ARZ3NDEKTSV4RRFFQ69G5FAV".to_string());
    assert_eq!(recorder.job_path(&id), "/srv/jobs/01ARZ3NDEKTSV4RRFFQ69G5FAV");
    assert!(recorder.job(&id, false).is_none());
    let job = recorder.job(&id, true).unwrap();
    assert_eq!(job.id().to_string(), "01ARZ3NDEKTSV4RRFFQ69G5FAV");
    assert_eq!(job.path(), "/srv/jobs/01ARZ3NDEKTSV4RRFFQ69G5FAV");
}

#[test]
fn jobs_come_from_directories_only() {
    let recorder = Recorder::new("var/jobs".to_string());
    let entries = vec![
        dir("B"),
        DirEntry { name: Some("notes.txt".to_string()), is_dir: false, is_file: true },
        DirEntry { name: None, is_dir: true, is_file: false },
        dir("A"),
    ];
    let jobs = recorder.jobs(&entries);
    let ids: Vec<String> = jobs.iter().map(|j| j.id().to_string()).collect();
    assert_eq!(ids, vec!["B", "A"]);
    assert_eq!(jobs[1].path(), "var/jobs/A");
    assert!(recorder.jobs(&Vec::new()).is_empty());
}

#[test]
fn work_dir_resolves_and_lists() {
    let work = WorkDir::new("/w".to_string());
    assert_eq!(work.job_dir(&JobId::parse("X".to_string())).path(), "/w/X");
    let listed = work.job_dirs(&vec![dir("X"), dir("Y")]);
    assert_eq!(listed.len(), 2);
    assert_eq!(listed[1].0.to_string(), "Y");
    assert_eq!(listed[1].1.path(), "/w/Y");
}

#[test]
fn spawned_job_lives_under_the_root() {
    let recorder = Recorder::new("/srv/jobs".to_string());
    let args = vec!["hello world".to_string()];
    let (job, plan) = recorder.spawn_job("echo", &args);
    assert_eq!(job.id().as_str().len(), 26);
    assert_eq!(job.path(), format!("/srv/jobs/{}", job.id().to_string()));
    assert_eq!(plan.working_dir, job.path());
    assert_eq!(plan.program, "echo");
    assert_eq!(plan.args, args);
    let found = recorder.job(job.id(), true).unwrap();
    assert_eq!(found.path(), job.path());
}

#[test]
fn prune_removes_only_finished_jobs_without_output() {
    let recorder = Recorder::new("/srv/jobs".to_string());
    let observations = vec![
        seen(false, &[]),
        seen(true, &[]),
        seen(false, &["result.txt"]),
        seen(true, &["partial.csv"]),
        seen(false, &[]),
    ];
    assert_eq!(recorder.prune_job_dirs(&observations), vec![0, 4]);
    assert!(recorder.prune_job_dirs(&Vec::new()).is_empty());
}

#[test]
fn prune_twice_removes_nothing_more() {
    let recorder = Recorder::new("/srv/jobs".to_string());
    let first = vec![seen(false, &[]), seen(true, &[]), seen(false, &["out.txt"]), seen(false, &[])];
    let removed = recorder.prune_job_dirs(&first);
    assert_eq!(removed, vec![0, 3]);
    let left: Vec<JobObservation> = first
        .into_iter()
        .enumerate()
        .filter(|(i, _)| !removed.contains(i))
        .map(|(_, o)| o)
        .collect();
    assert_eq!(left.len(), 2);
    assert!(recorder.prune_job_dirs(&left).is_empty());
}

#[test]
fn job_writing_a_result_survives_pruning() {
    let recorder = Recorder::new("/srv/jobs".to_string());
    // before exit: running, no output yet
    assert!(recorder.prune_job_dirs(&vec![seen(true, &[])]).is_empty());
    // after exit: result.txt present
    assert!(recorder.prune_job_dirs(&vec![seen(false, &["result.txt"])]).is_empty());
}

#[test]
fn job_writing_nothing_is_pruned_and_then_absent() {
    let recorder = Recorder::new("/srv/jobs".to_string());
    let id = JobId::parse("01ARZ3NDEKTSV4RRFFQ69G5FAV".to_string());
    let listing = vec![dir("01ARZ3NDEKTSV4RRFFQ69G5FAV")];
    let jobs = recorder.jobs(&listing);
    assert_eq!(jobs.len(), 1);
    assert_eq!(recorder.prune_job_dirs(&vec![seen(false, &[])]), vec![0]);
    // once the directory is gone, the lookup finds nothing
    assert!(recorder.job(&id, false).is_none());
}

#[test]
fn reaper_continues_only_after_reaping_a_child() {
    assert!(continue_reaping(4321));
    assert!(continue_reaping(1));
    assert!(!continue_reaping(0));
    assert!(!continue_reaping(-1));
}
