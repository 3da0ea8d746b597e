//! A job recorder: launches commands as background jobs whose whole state
//! lives in a directory tree, and decides which job directories are garbage.

pub mod disk_stat;
pub mod job_id;
pub mod job_dir;
pub mod job;
pub mod recorder;
