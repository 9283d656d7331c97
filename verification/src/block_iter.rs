//! Cluster chain iteration: from a start cluster, yield successive clusters by
//! reading FAT slots, stopping at the end of the chain or on corruption.

use vstd::prelude::*;
use crate::block::BlockDevice;
use crate::cluster::Cluster;
use crate::filesystem::FatFileSystem;
use crate::table::FatValue;

verus! {

/// One step of the cluster chain cursor: `r` is the cluster yielded (the
/// cursor's position before the step), and the new position follows its `Data`
/// link. A terminal or free slot, an out-of-range position, and a failed FAT
/// read all end the iteration; on a healthy device the new position is exactly
/// what the FAT says.
pub open spec fn cluster_iter_step<T: BlockDevice>(
    fs: FatFileSystem<T>,
    pre: Option<Cluster>,
    post: Option<Cluster>,
    r: Option<Cluster>,
) -> bool {
    &&& r == pre
    &&& (match pre {
        Some(c) => {
            &&& (match post {
                Some(n) => c.0 < fs.cluster_count() && fs.fat_entry(c.0 as int)
                    == FatValue::Data(n.0),
                None => true,
            })
            &&& (fs.device_ok() && c.0 < fs.cluster_count() ==> post == (
            match fs.fat_entry(c.0 as int) {
                FatValue::Data(n) => Some(Cluster(n)),
                _ => None::<Cluster>,
            }))
            &&& (c.0 >= fs.cluster_count() ==> post is None)
        },
        None => post is None,
    })
}

/// Iterator over the clusters of a FAT chain. Yields the start cluster first,
/// then each successor named by a `Data` slot; ends on any terminal slot, on a
/// free slot (corruption), or on a device error.
pub struct ClusterIter<'a, T> {
    /// The filesystem whose FAT is walked.
    pub fs: &'a FatFileSystem<T>,

    /// The cluster the next call yields, or `None` when the chain has ended.
    pub current: Option<Cluster>,
}

impl<'a, T: BlockDevice> ClusterIter<'a, T> {
    /// A cursor positioned on `start_cluster`.
    pub fn new(fs: &'a FatFileSystem<T>, start_cluster: Cluster) -> (r: ClusterIter<'a, T>)
        ensures
            r.fs == fs,
            r.current == Some(start_cluster),
    {
        ClusterIter { fs, current: Some(start_cluster) }
    }

    /// Yield the current cluster and move to its successor in the FAT.
    pub fn next(&mut self) -> (r: Option<Cluster>)
        requires
            old(self).fs.wf(),
        ensures
            final(self).fs == old(self).fs,
            cluster_iter_step(*old(self).fs, old(self).current, final(self).current, r),
    {
        match self.current {
            None => None,
            Some(res) => {
                if res.0 < self.fs.boot_record.cluster_count {
                    match FatValue::get(self.fs, res) {
                        Ok(FatValue::Data(next)) => {
                            self.current = Some(Cluster(next));
                        },
                        Ok(_) => {
                            self.current = None;
                        },
                        Err(_) => {
                            self.current = None;
                        },
                    }
                } else {
                    self.current = None;
                }
                Some(res)
            },
        }
    }
}

} // verus!
