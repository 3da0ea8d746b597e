//! Space on the file system that holds the jobs.

use vstd::prelude::*;

verus! {

/// Byte counts of a file system.
pub struct DiskStat {
    pub available: u64,
    pub total: u64,
    pub used: u64,
}

impl DiskStat {
    /// The byte counts of a file system with `fragment_size`-byte blocks, of
    /// which `blocks` in all and `blocks_available` free to unprivileged
    /// users. `None` where a count does not fit in 64 bits or more blocks are
    /// available than exist.
    pub fn new(blocks_available: u64, blocks: u64, fragment_size: u64) -> (r: Option<DiskStat>)
        ensures
            r is Some <==> (blocks_available * fragment_size <= u64::MAX && blocks * fragment_size
                <= u64::MAX && blocks_available * fragment_size <= blocks * fragment_size),
            r matches Some(s) ==> s.available == blocks_available * fragment_size && s.total
                == blocks * fragment_size && s.used == s.total - s.available,
    {
        let available = match blocks_available.checked_mul(fragment_size) {
            Some(a) => a,
            None => return None,
        };
        let total = match blocks.checked_mul(fragment_size) {
            Some(t) => t,
            None => return None,
        };
        let used = match total.checked_sub(available) {
            Some(u) => u,
            None => return None,
        };
        Some(DiskStat { available, total, used })
    }
}

} // verus!
