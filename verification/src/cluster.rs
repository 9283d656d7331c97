//! Cluster numbers and their mapping to FAT-table and data-region addresses.

use vstd::prelude::*;
use crate::block::{BlockDevice, BlockIndex};
use crate::filesystem::FatFileSystem;
use crate::spec_blocks_per_cluster;

verus! {

/// A cluster number. Values 0 and 1 are reserved; valid data clusters satisfy
/// `2 <= c < cluster_count`.
#[derive(Debug, Clone, Copy, PartialEq, Eq, Structural)]
pub struct Cluster(pub u32);

impl Cluster {
    /// Byte offset of this cluster's slot inside the FAT (four bytes per slot).
    pub fn to_fat_offset(self) -> (r: u32)
        requires
            self.0 * 4 <= 0xFFFF_FFFF,
        ensures
            r == self.0 * 4,
    {
        self.0 * 4
    }

    /// Index of the first data-region block of this cluster, relative to the
    /// partition origin. Within the volume: the block lies at or after the
    /// first data offset, and the whole cluster fits inside the partition when
    /// the partition's length is known.
    pub fn to_data_block_index<T: BlockDevice>(self, fs: &FatFileSystem<T>) -> (r: BlockIndex)
        requires
            fs.wf(),
            2 <= self.0 < fs.cluster_count(),
        ensures
            r.0 as int == fs.first_data_offset.0
                + (self.0 - 2) * spec_blocks_per_cluster(fs.bytes()),
            r.0 >= fs.first_data_offset.0,
            r.0 + spec_blocks_per_cluster(fs.bytes()) <= crate::spec_total_blocks(fs.bytes()),
            fs.partition_block_count.0 != 0
                ==> r.0 + spec_blocks_per_cluster(fs.bytes()) <= fs.partition_block_count.0,
    {
        proof {
            fs.lemma_data_block_bounds(self.0 as int);
            fs.lemma_volume_layout();
        }
        let first_block_of_cluster = (self.0 - 2) * (fs.boot_record.blocks_per_cluster() as u32);
        BlockIndex(fs.first_data_offset.0 + first_block_of_cluster)
    }

    /// Index of the block of the FAT that holds this cluster's slot, relative
    /// to the partition origin.
    pub fn to_fat_block_index<T: BlockDevice>(self, fs: &FatFileSystem<T>) -> (r: BlockIndex)
        requires
            fs.wf(),
            self.0 < fs.cluster_count(),
        ensures
            r.0 as int == fs.fat_block_of(self.0 as int),
    {
        proof {
            fs.lemma_fat_addressing(self.0 as int);
        }
        let fat_offset = self.to_fat_offset();

        let fat_block_index = (fs.boot_record.reserved_block_count() as u32) + fat_offset / 512;
        BlockIndex(fat_block_index)
    }
}

} // verus!
