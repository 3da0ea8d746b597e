//! Job directories and the work directory that holds them. The file system
//! is read by the caller; these functions decide on what a listing holds.

use crate::job_id::JobId;
use vstd::prelude::*;
use vstd::string::StrSliceExecFns;

verus! {

/// What `std::path::Path::join` gives for `base` and `part`.
pub uninterp spec fn path_joined(base: Seq<char>, part: Seq<char>) -> Seq<char>;

/// Relies on std::path::Path::join: the path `part` taken relative to `base`.
/// Both are UTF-8, so the joined path is too and converts without loss.
#[verifier::external_body]
pub(crate) fn join_path(base: &str, part: &str) -> (r: String)
    ensures
        r@ == path_joined(base@, part@),
{
    std::path::Path::new(base).join(part).to_string_lossy().into_owned()
}

/// One entry of a directory listing.
pub struct DirEntry {
    /// The entry's file name, `None` where it is not valid UTF-8.
    pub name: Option<String>,
    /// Whether the entry is (or links to) a directory.
    pub is_dir: bool,
    /// Whether the entry is (or links to) a regular file.
    pub is_file: bool,
}

/// A hidden file's name starts with a dot.
pub open spec fn is_hidden(name: Seq<char>) -> bool {
    name.len() > 0 && name[0] == '.'
}

/// A path is absolute when it starts with a slash.
pub open spec fn is_absolute(path: Seq<char>) -> bool {
    path.len() > 0 && path[0] == '/'
}

/// The names of the regular, non-hidden files of a listing, in its order.
pub open spec fn output_names(entries: Seq<DirEntry>) -> Seq<Seq<char>>
    decreases entries.len(),
{
    if entries.len() == 0 {
        Seq::empty()
    } else {
        let rest = output_names(entries.drop_last());
        let e = entries.last();
        if e.is_file && e.name is Some && !is_hidden(e.name->0@) {
            rest.push(e.name->0@)
        } else {
            rest
        }
    }
}

/// The names of the directories of a listing, in its order.
pub open spec fn dir_names(entries: Seq<DirEntry>) -> Seq<Seq<char>>
    decreases entries.len(),
{
    if entries.len() == 0 {
        Seq::empty()
    } else {
        let rest = dir_names(entries.drop_last());
        let e = entries.last();
        if e.is_dir && e.name is Some {
            rest.push(e.name->0@)
        } else {
            rest
        }
    }
}

/// The views of a vector of strings.
pub open spec fn texts(v: Seq<String>) -> Seq<Seq<char>> {
    v.map_values(|s: String| s@)
}

fn starts_with_dot(s: &str) -> (r: bool)
    ensures
        r == is_hidden(s@),
{
    s.unicode_len() > 0 && s.get_char(0) == '.'
}

/// The directory of one job; everything a job records lies beneath it.
pub struct JobDir {
    path: String,
}

impl View for JobDir {
    type V = Seq<char>;

    closed spec fn view(&self) -> Seq<char> {
        self.path@
    }
}

impl Clone for JobDir {
    fn clone(&self) -> (r: JobDir)
        ensures
            r@ == self@,
    {
        JobDir { path: self.path.clone() }
    }
}

impl JobDir {
    /// The job directory at `path`.
    pub fn new(path: String) -> (r: JobDir)
        ensures
            r@ == path@,
    {
        JobDir { path }
    }

    /// The directory's path.
    pub fn path(&self) -> (r: &str)
        ensures
            r@ == self@,
    {
        self.path.as_str()
    }

    /// The path of `relative` beneath the directory, or `None` where
    /// `relative` is absolute and so would leave it.
    pub fn subpath(&self, relative: &str) -> (r: Option<String>)
        ensures
            r is None <==> is_absolute(relative@),
            r matches Some(p) ==> p@ == path_joined(self@, relative@),
    {
        if relative.unicode_len() > 0 && relative.get_char(0) == '/' {
            None
        } else {
            Some(join_path(self.path.as_str(), relative))
        }
    }

    /// The names of the non-hidden regular files directly inside the
    /// directory, given its listing, in the listing's order. An unreadable
    /// directory has an empty listing, and so no output files.
    pub fn file_names(&self, entries: &Vec<DirEntry>) -> (r: Vec<String>)
        ensures
            texts(r@) == output_names(entries@),
    {
        let mut names: Vec<String> = Vec::new();
        let mut i: usize = 0;
        while i < entries.len()
            invariant
                i <= entries.len(),
                texts(names@) == output_names(entries@.take(i as int)),
            decreases entries.len() - i,
        {
            let e = &entries[i];
            assert(entries@.take(i + 1).drop_last() =~= entries@.take(i as int));
            if e.is_file {
                if let Some(name) = &e.name {
                    if !starts_with_dot(name.as_str()) {
                        names.push(name.clone());
                        assert(texts(names@) =~= output_names(entries@.take(i + 1)));
                    }
                }
            }
            i += 1;
        }
        assert(entries@.take(entries.len() as int) =~= entries@);
        names
    }
}

/// The root directory that holds one directory per job.
pub struct WorkDir {
    path: String,
}

impl View for WorkDir {
    type V = Seq<char>;

    closed spec fn view(&self) -> Seq<char> {
        self.path@
    }
}

impl WorkDir {
    /// The work directory at `path`.
    pub fn new(path: String) -> (r: WorkDir)
        ensures
            r@ == path@,
    {
        WorkDir { path }
    }

    /// The root's path.
    pub fn path(&self) -> (r: &str)
        ensures
            r@ == self@,
    {
        self.path.as_str()
    }

    /// The directory of the job `job_id`: the root joined with the
    /// identifier's text. Touches no file.
    pub fn job_dir(&self, job_id: &JobId) -> (r: JobDir)
        ensures
            r@ == path_joined(self@, job_id@),
    {
        JobDir::new(join_path(self.path.as_str(), job_id.as_str()))
    }

    /// One identifier and job directory for each directory of the root's
    /// listing whose name is UTF-8, in the listing's order; the name is
    /// taken as the identifier verbatim.
    pub fn job_dirs(&self, entries: &Vec<DirEntry>) -> (r: Vec<(JobId, JobDir)>)
        ensures
            r@.len() == dir_names(entries@).len(),
            forall|k: int|
                #![trigger r@[k]]
                0 <= k < r@.len() ==> r@[k].0@ == dir_names(entries@)[k] && r@[k].1@ == path_joined(
                    self@,
                    dir_names(entries@)[k],
                ),
    {
        let mut dirs: Vec<(JobId, JobDir)> = Vec::new();
        let mut i: usize = 0;
        while i < entries.len()
            invariant
                i <= entries.len(),
                dirs@.len() == dir_names(entries@.take(i as int)).len(),
                forall|k: int|
                    #![trigger dirs@[k]]
                    0 <= k < dirs@.len() ==> dirs@[k].0@ == dir_names(
                        entries@.take(i as int),
                    )[k] && dirs@[k].1@ == path_joined(
                        self@,
                        dir_names(entries@.take(i as int))[k],
                    ),
            decreases entries.len() - i,
        {
            let e = &entries[i];
            assert(entries@.take(i + 1).drop_last() =~= entries@.take(i as int));
            if e.is_dir {
                if let Some(name) = &e.name {
                    let job_id = JobId::parse(name.clone());
                    let job_dir = self.job_dir(&job_id);
                    dirs.push((job_id, job_dir));
                }
            }
            i += 1;
        }
        assert(entries@.take(entries.len() as int) =~= entries@);
        dirs
    }
}

} // verus!
