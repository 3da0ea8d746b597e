//! A job: one command run in the background, recorded in its own directory.

use crate::job_dir::{is_absolute, output_names, path_joined, texts, DirEntry, JobDir};
use crate::job_id::JobId;
use vstd::prelude::*;
use vstd::string::StringExecFns;

verus! {

/// Whether `c` has Unicode's White_Space property.
pub open spec fn is_white_space(c: char) -> bool {
    let u = c as u32;
    (0x09 <= u <= 0x0D) || u == 0x20 || u == 0x85 || u == 0xA0 || u == 0x1680 || (0x2000 <= u
        <= 0x200A) || u == 0x2028 || u == 0x2029 || u == 0x202F || u == 0x205F || u == 0x3000
}

/// `s` without its trailing white space.
pub open spec fn trimmed_end(s: Seq<char>) -> Seq<char>
    decreases s.len(),
{
    if s.len() > 0 && is_white_space(s.last()) {
        trimmed_end(s.drop_last())
    } else {
        s
    }
}

/// Whether `c` is an ASCII decimal digit.
pub open spec fn is_digit(c: char) -> bool {
    '0' <= c <= '9'
}

/// The number written by the decimal digits `s`.
pub open spec fn digits_value(s: Seq<char>) -> int
    decreases s.len(),
{
    if s.len() == 0 {
        0
    } else {
        digits_value(s.drop_last()) * 10 + (s.last() as u32 - 48)
    }
}

/// The `i32` that `s` writes: an optional sign and one or more decimal
/// digits, nothing else, with a value in range; `None` otherwise.
pub open spec fn decimal_i32(s: Seq<char>) -> Option<i32> {
    let signed = s.len() > 0 && (s[0] == '-' || s[0] == '+');
    let body = if signed {
        s.drop_first()
    } else {
        s
    };
    let v = if s.len() > 0 && s[0] == '-' {
        -digits_value(body)
    } else {
        digits_value(body)
    };
    if body.len() > 0 && (forall|i: int| 0 <= i < body.len() ==> is_digit(#[trigger] body[i]))
        && i32::MIN <= v <= i32::MAX {
        Some(v as i32)
    } else {
        None
    }
}

/// The decimal digits of `n`, without leading zeros.
pub open spec fn decimal_text(n: nat) -> Seq<char>
    decreases n,
{
    if n < 10 {
        seq![(48 + n) as char]
    } else {
        decimal_text(n / 10).push((48 + n % 10) as char)
    }
}

/// What `serde_json` writes for the object `{"command": command, "args": args}`.
pub uninterp spec fn invocation_json(command: Seq<char>, args: Seq<Seq<char>>) -> Seq<char>;

/// Relies on str::trim_end: `s` without trailing White_Space characters.
#[verifier::external_body]
fn trim_end(s: &str) -> (r: &str)
    ensures
        r@ == trimmed_end(s@),
{
    s.trim_end()
}

/// Relies on i32's FromStr: an optional `+` or `-` and decimal digits, in
/// range; an error on anything else.
#[verifier::external_body]
fn parse_i32(s: &str) -> (r: Option<i32>)
    ensures
        r == decimal_i32(s@),
{
    s.parse::<i32>().ok()
}

/// Relies on u32's ToString: the decimal digits of `n`.
#[verifier::external_body]
fn u32_text(n: u32) -> (r: String)
    ensures
        r@ == decimal_text(n as nat),
{
    n.to_string()
}

/// Relies on serde_json's Value::to_string: the compact JSON text of an
/// object whose `command` is the string `command` and whose `args` is the
/// array of the strings `args`.
#[verifier::external_body]
fn invocation_json_text(command: &str, args: &Vec<String>) -> (r: String)
    ensures
        r@ == invocation_json(command@, texts(args@)),
{
    let args: Vec<serde_json::Value> = args.iter().map(|a| serde_json::Value::String(a.clone())).collect();
    let mut object = serde_json::Map::new();
    object.insert("command".to_string(), serde_json::Value::String(command.to_string()));
    object.insert("args".to_string(), serde_json::Value::Array(args));
    serde_json::Value::Object(object).to_string()
}

proof fn lemma_decimal_text(n: nat)
    ensures
        decimal_text(n).len() > 0,
        forall|i: int| 0 <= i < decimal_text(n).len() ==> is_digit(#[trigger] decimal_text(n)[i]),
        digits_value(decimal_text(n)) == n,
    decreases n,
{
    let d = decimal_text(n);
    if n < 10 {
        assert(((48 + n) as char) as u32 == 48 + n);
        assert(d.drop_last() =~= Seq::<char>::empty());
        assert(d.last() == (48 + n) as char);
        assert(digits_value(d) == digits_value(d.drop_last()) * 10 + (d.last() as u32 - 48));
    } else {
        lemma_decimal_text(n / 10);
        assert(((48 + n % 10) as char) as u32 == 48 + n % 10);
        assert(d.drop_last() =~= decimal_text(n / 10));
        assert(d.last() == (48 + n % 10) as char);
        assert(digits_value(d) == digits_value(d.drop_last()) * 10 + (d.last() as u32 - 48));
        assert(n == (n / 10) * 10 + n % 10);
        assert forall|i: int| 0 <= i < d.len() implies is_digit(#[trigger] d[i]) by {
            if i < d.len() - 1 {
                assert(d[i] == decimal_text(n / 10)[i]);
            }
        }
    }
}

/// The process id that a job records is read back unchanged: the record
/// written for `pid`, stripped of trailing white space, parses as `pid`.
pub proof fn lemma_pid_record_round_trip(pid: u32)
    requires
        pid <= i32::MAX,
    ensures
        decimal_i32(trimmed_end(decimal_text(pid as nat).push('\n'))) == Some(pid as i32),
{
    let d = decimal_text(pid as nat);
    lemma_decimal_text(pid as nat);
    assert(d.push('\n').drop_last() =~= d);
    assert(is_digit(d.last()));
    assert(trimmed_end(d) == d);
    assert(is_digit(d[0]));
}

/// One job: its identifier and its directory. All else about it is read
/// from the directory.
pub struct Job {
    job_id: JobId,
    job_dir: JobDir,
}

impl View for Job {
    /// The identifier's text and the directory's path.
    type V = (Seq<char>, Seq<char>);

    closed spec fn view(&self) -> (Seq<char>, Seq<char>) {
        (self.job_id@, self.job_dir@)
    }
}

/// What launching a job takes, in the order it is done: create the info
/// directory, write the invocation record, create the two output streams,
/// launch `program` with `args` in `working_dir` with its output streams
/// sent to them, then write the process id to `pid_path` (see
/// [`Job::pid_record`]).
pub struct SpawnPlan {
    pub info_dir: String,
    pub invocation_path: String,
    pub invocation: String,
    pub stdout_path: String,
    pub stderr_path: String,
    pub pid_path: String,
    pub program: String,
    pub args: Vec<String>,
    pub working_dir: String,
}

/// `p` is the plan for launching `command` with `args` as the job whose
/// directory is `dir`.
pub open spec fn is_spawn_plan(
    p: SpawnPlan,
    dir: Seq<char>,
    command: Seq<char>,
    args: Seq<Seq<char>>,
) -> bool {
    &&& p.info_dir@ == path_joined(dir, "info"@)
    &&& p.invocation_path@ == path_joined(dir, "info/invocation.json"@)
    &&& p.invocation@ == invocation_json(command, args).push('\n')
    &&& p.stdout_path@ == path_joined(dir, "info/stdout.txt"@)
    &&& p.stderr_path@ == path_joined(dir, "info/stderr.txt"@)
    &&& p.pid_path@ == path_joined(dir, "info/pid.txt"@)
    &&& p.program@ == command
    &&& texts(p.args@) == args
    &&& p.working_dir@ == dir
}

impl Job {
    /// The job with identifier `job_id` recorded in `job_dir`.
    pub fn new(job_id: JobId, job_dir: JobDir) -> (r: Job)
        ensures
            r@ == (job_id@, job_dir@),
    {
        Job { job_id, job_dir }
    }

    /// The job's identifier.
    pub fn id(&self) -> (r: &JobId)
        ensures
            r@ == self@.0,
    {
        &self.job_id
    }

    /// The path of the job's directory.
    pub fn path(&self) -> (r: &str)
        ensures
            r@ == self@.1,
    {
        self.job_dir.path()
    }

    /// The path of `relative` beneath the job's directory; `None` where
    /// `relative` is absolute.
    pub fn subpath(&self, relative: &str) -> (r: Option<String>)
        ensures
            r is None <==> is_absolute(relative@),
            r matches Some(p) ==> p@ == path_joined(self@.1, relative@),
    {
        self.job_dir.subpath(relative)
    }

    /// The job's output files, given the listing of its directory.
    pub fn file_names(&self, entries: &Vec<DirEntry>) -> (r: Vec<String>)
        ensures
            texts(r@) == output_names(entries@),
    {
        self.job_dir.file_names(entries)
    }

    /// The process id written in a pid record: its text without trailing
    /// white space, read as an `i32`. `None` where it is not one, so that the
    /// job counts as not running.
    pub fn pid(record: &str) -> (r: Option<i32>)
        ensures
            r == decimal_i32(trimmed_end(record@)),
    {
        parse_i32(trim_end(record))
    }

    /// The pid record of process `pid`: its decimal digits and a newline.
    pub fn pid_record(pid: u32) -> (r: String)
        ensures
            r@ == decimal_text(pid as nat).push('\n'),
    {
        let mut text = u32_text(pid);
        proof {
            reveal_strlit("\n");
        }
        text.append("\n");
        assert(text@ =~= decimal_text(pid as nat).push('\n'));
        text
    }

    /// The invocation record of `command` run with `args`: the JSON object
    /// holding both verbatim, and a newline.
    pub fn invocation_record(command: &str, args: &Vec<String>) -> (r: String)
        ensures
            r@ == invocation_json(command@, texts(args@)).push('\n'),
    {
        let mut text = invocation_json_text(command, args);
        proof {
            reveal_strlit("\n");
        }
        text.append("\n");
        assert(text@ =~= invocation_json(command@, texts(args@)).push('\n'));
        text
    }

    /// How to launch `command` with `args` as this job. The program and its
    /// arguments are handed on verbatim, as an argument vector, never through
    /// a shell; the records lie under `info/` in the job's directory, which is
    /// also the process's working directory.
    pub fn spawn(&self, command: &str, args: &Vec<String>) -> (r: SpawnPlan)
        ensures
            is_spawn_plan(r, self@.1, command@, texts(args@)),
    {
        let dir = self.job_dir.path();
        let mut args_out: Vec<String> = Vec::new();
        let mut i: usize = 0;
        while i < args.len()
            invariant
                i <= args.len(),
                args_out@.len() == i,
                forall|k: int| 0 <= k < i ==> #[trigger] args_out@[k]@ == args@[k]@,
            decreases args.len() - i,
        {
            let a = args[i].clone();
            assert(a@ == args@[i as int]@);
            args_out.push(a);
            i += 1;
        }
        assert(texts(args_out@) =~= texts(args@));
        SpawnPlan {
            info_dir: crate::job_dir::join_path(dir, "info"),
            invocation_path: crate::job_dir::join_path(dir, "info/invocation.json"),
            invocation: Job::invocation_record(command, args),
            stdout_path: crate::job_dir::join_path(dir, "info/stdout.txt"),
            stderr_path: crate::job_dir::join_path(dir, "info/stderr.txt"),
            pid_path: crate::job_dir::join_path(dir, "info/pid.txt"),
            program: command.to_owned(),
            args: args_out,
            working_dir: dir.to_owned(),
        }
    }
}

} // verus!
