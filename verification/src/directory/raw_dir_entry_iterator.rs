//! Low level directory entry iterator.

use vstd::prelude::*;
use crate::block::{BlockDevice, BlockIndex};
use crate::block_iter::{cluster_iter_step, ClusterIter};
use crate::cluster::Cluster;
use crate::error::FileSystemError;
use crate::filesystem::FatFileSystem;
use crate::spec_blocks_per_cluster;
use super::FatDirEntry;

verus! {

/// Represent a raw FAT directory entries iterator: a cursor over 32-byte
/// records that advances entry-within-block, then block-within-cluster, then
/// cluster-within-chain, sixteen records per block.
pub struct FatDirEntryIterator<'a, T> {
    /// The cluster iterator.
    pub cluster_iter: ClusterIter<'a, T>,

    /// The last cluster used.
    pub last_cluster: Option<Cluster>,

    /// The block to read in the current cluster.
    pub block_index: u32,

    /// The current iteration point in the block.
    pub counter: u8,

    /// Used at the first iteration to init the counter.
    pub is_first: bool,
}

/// One step of the directory cursor, per the advancement rule: on the first
/// call, or when a block's sixteen records are exhausted, move to the next
/// block (wrapping within the cluster) and acquire the next chain cluster on
/// the first call or on a wrap to block zero; then read the target data block
/// and yield the 32-byte record stamped with its origin coordinates. An ended
/// chain, or a cursor standing on a cluster outside the data area, ends the
/// iteration; a failed read yields an error item and the cursor goes on.
pub open spec fn dir_iter_step<'a, T: BlockDevice>(
    pre: FatDirEntryIterator<'a, T>,
    post: FatDirEntryIterator<'a, T>,
    r: Option<Result<FatDirEntry, FileSystemError>>,
) -> bool {
    let fs = *pre.cluster_iter.fs;
    let bpc = spec_blocks_per_cluster(fs.bytes());
    let advance = pre.is_first || pre.counter == 16;
    let bi1 = if !advance {
        pre.block_index as int
    } else if pre.is_first {
        pre.block_index as int % bpc
    } else {
        (pre.block_index + 1) % bpc
    };
    let counter1 = if pre.is_first || !advance {
        pre.counter as int
    } else {
        0int
    };
    let acquires = advance && (pre.is_first || bi1 == 0);
    let cluster1 = if acquires {
        pre.cluster_iter.current
    } else {
        pre.last_cluster
    };
    &&& post.cluster_iter.fs == pre.cluster_iter.fs
    &&& post.is_first == false
    &&& post.block_index as int == bi1
    &&& post.last_cluster == cluster1
    &&& (acquires ==> cluster_iter_step(
        fs,
        pre.cluster_iter.current,
        post.cluster_iter.current,
        cluster1,
    ))
    &&& (!acquires ==> post.cluster_iter == pre.cluster_iter)
    &&& (match cluster1 {
        None => r is None && post.counter as int == counter1,
        Some(cl) => {
            if !(2 <= cl.0 < fs.cluster_count()) {
                r is None && post.counter as int == counter1
            } else {
                let abs = fs.partition_start.0 + fs.first_data_offset.0 + (cl.0 - 2) * bpc + bi1;
                &&& r is Some
                &&& (r matches Some(rr) ==> (match rr {
                    Ok(e) => {
                        &&& e.wf()
                        &&& e.data@ == fs.disk_block(abs).subrange(
                            counter1 * 32,
                            counter1 * 32 + 32,
                        )
                        &&& e.cluster == cl
                        &&& e.block_index as int == bi1
                        &&& e.entry_offset as int == counter1 * 32
                        &&& post.counter as int == counter1 + 1
                    },
                    Err(err) => err == FileSystemError::ReadFailed && post.counter as int
                        == counter1,
                }))
                &&& (fs.device_ok() ==> (r matches Some(rr) && rr is Ok))
            }
        },
    })
}

impl<'a, T: BlockDevice> FatDirEntryIterator<'a, T> {
    /// The filesystem the cursor reads from.
    pub open spec fn fs(self) -> FatFileSystem<T> {
        *self.cluster_iter.fs
    }

    /// Cursor well-formedness: sixteen records per block at most, and once the
    /// first step has run, the block index stays inside the cluster.
    pub open spec fn wf(self) -> bool {
        &&& self.fs().wf()
        &&& self.counter <= 16
        &&& (self.is_first ==> self.counter <= 15)
        &&& (!self.is_first ==> (self.block_index as int) < spec_blocks_per_cluster(
            self.fs().bytes(),
        ))
    }

    /// Create a new iterator from a cluster, a block index and an offset
    /// (representing the starting point of the iterator). The block index is
    /// taken within the start cluster; the offset seeks into the first block.
    pub fn new(
        fs: &'a FatFileSystem<T>,
        start_cluster: Cluster,
        block_index: BlockIndex,
        offset: u32,
    ) -> (r: FatDirEntryIterator<'a, T>)
        requires
            fs.wf(),
            offset < 512,
        ensures
            r.wf(),
            r.cluster_iter.fs == fs,
            r.cluster_iter.current == Some(start_cluster),
            r.last_cluster is None,
            r.block_index == block_index.0,
            r.counter as int == offset as int / 32,
            r.is_first,
    {
        FatDirEntryIterator {
            counter: (offset / 32) as u8,
            block_index: block_index.0,
            is_first: true,
            cluster_iter: ClusterIter::new(fs, start_cluster),
            last_cluster: None,
        }
    }

    /// Yield the next raw record of the directory, advancing the cursor.
    pub fn next(&mut self) -> (r: Option<Result<FatDirEntry, FileSystemError>>)
        requires
            old(self).wf(),
        ensures
            final(self).wf(),
            dir_iter_step(*old(self), *final(self), r),
    {
        let fs = self.cluster_iter.fs;
        let blocks_per_cluster = fs.boot_record.blocks_per_cluster() as u32;

        let cluster_opt = if self.counter == 16 || self.is_first {
            if self.is_first {
                self.block_index = self.block_index % blocks_per_cluster;
                self.is_first = false;
                self.last_cluster = self.cluster_iter.next();
            } else {
                self.counter = 0;
                self.block_index = (self.block_index + 1) % blocks_per_cluster;
                if self.block_index == 0 {
                    self.last_cluster = self.cluster_iter.next();
                }
            }
            self.last_cluster
        } else {
            self.last_cluster
        };

        let cluster = match cluster_opt {
            Some(cluster) => cluster,
            None => {
                return None;
            },
        };
        if cluster.0 < 2 || cluster.0 >= fs.boot_record.cluster_count {
            return None;
        }

        let data_block = cluster.to_data_block_index(fs);
        let block = match fs.block_device.read(
            fs.partition_start.0,
            data_block.0 + self.block_index,
        ) {
            Ok(block) => block,
            Err(_) => {
                return Some(Err(FileSystemError::ReadFailed));
            },
        };

        let entry_start = ((self.counter % 16) as usize) * 32;
        let mut data: Vec<u8> = Vec::new();
        let mut k: usize = 0;
        while k < 32
            invariant
                block.wf(),
                entry_start + 32 <= 512,
                k <= 32,
                data@.len() == k,
                forall|j: int| 0 <= j < k ==> data@[j] == block@[entry_start + j],
            decreases 32 - k,
        {
            data.push(block.read_u8(entry_start + k));
            k = k + 1;
        }

        let dir_entry = FatDirEntry {
            data,
            cluster,
            block_index: self.block_index,
            entry_offset: entry_start as u32,
        };
        proof {
            assert(dir_entry.data@ =~= self.fs().disk_block(
                self.fs().partition_start.0 + data_block.0 + self.block_index,
            ).subrange(entry_start as int, entry_start + 32));
        }

        // The entry isn't a valid one but this doesn't mark the end of the directory
        self.counter = self.counter + 1;

        Some(Ok(dir_entry))
    }
}

} // verus!
