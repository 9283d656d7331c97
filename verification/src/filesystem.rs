//! FAT Filesystem.

use vstd::prelude::*;
use vstd::arithmetic::div_mod::{
    lemma_fundamental_div_mod, lemma_fundamental_div_mod_converse, lemma_mod_bound,
};
use vstd::arithmetic::mul::lemma_mul_inequality;
use crate::block::{spec_le16, spec_le32, Block, BlockCount, BlockDevice, BlockIndex};
use crate::chain::{
    lemma_chain_end, lemma_chain_extend, lemma_chain_extend_distinct, spec_chain_distinct,
    spec_chain_from, spec_free_chain, spec_free_chain_count, spec_reaches_end,
};
use crate::cluster::Cluster;
use crate::directory::{Attributes, Directory, DirectoryEntry};
use crate::error::FileSystemError;
use crate::table::{spec_classify, FatValue};
use crate::{
    spec_boot_record_valid, spec_blocks_per_cluster, spec_bytes_per_block, spec_fat_size,
    spec_fats_count, spec_fs_info_block, spec_reserved_block_count, spec_root_dir_blocks,
    spec_root_dir_childs_count, spec_total_blocks, FatFsType, FatVolumeBootRecord,
};

verus! {

/// Represent the FS Info structure of FAT32: the last allocated cluster and the
/// free cluster count, each 0xFFFF_FFFF when unknown.
pub struct FatFileSystemInfo {
    /// The last allocated cluster on the filesystem.
    pub last_cluster: u32,

    /// The free cluster count on the filesystem.
    pub free_cluster: u32,
}

/// Represent a FAT filesystem.
pub struct FatFileSystem<T> {
    /// The block device of the filesystem.
    pub block_device: T,

    /// The block index of the start of the partition of this filesystem.
    pub partition_start: BlockIndex,

    /// Block index of the first block available for data.
    pub first_data_offset: BlockIndex,

    /// The count of blocks that this partition contains.
    pub partition_block_count: BlockCount,

    /// The volume information of the filesystem.
    pub boot_record: FatVolumeBootRecord,

    /// The extra infos of the filesystem.
    pub fat_info: FatFileSystemInfo,
}

/// In-block byte offset of cluster `c`'s FAT slot.
pub open spec fn spec_fat_byte_of(c: int) -> int {
    (c * 4) % 512
}

/// The little-endian 32-bit value at byte `off` of sector `abs` of a device's
/// contents; reads beyond the device fall back to an empty sector. Opaque, so
/// that FAT-level reasoning stays at the level of whole slots; proofs about
/// raw bytes reveal it.
#[verifier::opaque]
pub open spec fn spec_fat_raw_at(disk: Seq<Seq<u8>>, abs: int, off: int) -> int {
    spec_le32(
        if 0 <= abs < disk.len() {
            disk[abs]
        } else {
            Seq::empty()
        },
        off,
    )
}

/// The FS Info block carries its three signatures: lead "RRaA", struct "rrAa"
/// and the trailing 0xAA55.
pub open spec fn spec_fs_info_sig_ok(s: Seq<u8>) -> bool {
    &&& spec_le32(s, 0) == 0x4161_5252
    &&& spec_le32(s, 0x1e4) == 0x6141_7272
    &&& spec_le16(s, 0x1fe) == 0xAA55
}

/// The last-allocated-cluster hint loaded from an FS Info block: the stored
/// field when the signatures hold and it names a valid data cluster, else the
/// unknown sentinel.
pub open spec fn spec_loaded_last_cluster(s: Seq<u8>, cluster_count: int) -> int {
    if spec_fs_info_sig_ok(s) && 2 <= spec_le32(s, 0x1ec) < cluster_count {
        spec_le32(s, 0x1ec)
    } else {
        0xFFFF_FFFF
    }
}

/// The free-cluster count loaded from an FS Info block: the stored field when
/// the signatures hold and it is at most the cluster count, else the unknown
/// sentinel.
pub open spec fn spec_loaded_free_cluster(s: Seq<u8>, cluster_count: int) -> int {
    if spec_fs_info_sig_ok(s) && spec_le32(s, 0x1e8) <= cluster_count {
        spec_le32(s, 0x1e8)
    } else {
        0xFFFF_FFFF
    }
}

/// An FS Info block as `flush` writes it: valid signatures and the two counters.
pub open spec fn spec_fs_info_bytes_ok(s: Seq<u8>, last: int, free: int) -> bool {
    &&& spec_fs_info_sig_ok(s)
    &&& spec_le32(s, 0x1ec) == last
    &&& spec_le32(s, 0x1e8) == free
}

/// A flushed FS Info block loads back the very counters that were stored,
/// whenever they satisfy their bounds.
pub proof fn lemma_fs_info_round_trip(s: Seq<u8>, last: int, free: int, cluster_count: int)
    requires
        spec_fs_info_bytes_ok(s, last, free),
        2 <= last < cluster_count,
        free <= cluster_count,
    ensures
        spec_loaded_last_cluster(s, cluster_count) == last,
        spec_loaded_free_cluster(s, cluster_count) == free,
{
}

impl<T: BlockDevice> FatFileSystem<T> {
    /// The boot sector's bytes.
    pub open spec fn bytes(self) -> Seq<u8> {
        self.boot_record.bytes()
    }

    /// The volume's cluster count, reserved clusters 0 and 1 included.
    pub open spec fn cluster_count(self) -> int {
        self.boot_record.cluster_count as int
    }

    /// A mounted FAT32 filesystem is well formed: the boot record validated as
    /// FAT32, the derived geometry agrees with its bytes, the FS Info block
    /// lies in the reserved region, the FAT region covers every slot and lies
    /// before the data region, and the volume fits its partition when the
    /// partition's length is known.
    pub open spec fn wf(self) -> bool {
        &&& self.boot_record.wf()
        &&& spec_boot_record_valid(self.bytes())
        &&& self.boot_record.fat_type == FatFsType::Fat32
        &&& self.block_device.wf()
        &&& self.first_data_offset.0 as int == spec_reserved_block_count(self.bytes())
            + spec_fats_count(self.bytes()) * spec_fat_size(self.bytes())
        &&& spec_fats_count(self.bytes()) >= 1
        &&& spec_reserved_block_count(self.bytes()) >= 1
        &&& 1 <= spec_fs_info_block(self.bytes()) < spec_reserved_block_count(self.bytes())
        &&& 3 <= self.cluster_count() <= 0x0FFF_FFF6
        &&& self.cluster_count() * 4 <= spec_fat_size(self.bytes()) * 512
        &&& (self.partition_block_count.0 != 0
            ==> spec_total_blocks(self.bytes()) <= self.partition_block_count.0 as int)
    }

    /// The device can serve every access the mounted volume makes: it never
    /// fails in range and the whole volume lies within it.
    pub open spec fn device_ok(self) -> bool {
        &&& self.block_device.infallible()
        &&& self.partition_start.0 + spec_total_blocks(self.bytes())
            <= self.block_device.blocks().len()
    }

    /// Partition-relative block index of cluster `c`'s FAT slot.
    pub open spec fn fat_block_of(self, c: int) -> int {
        spec_reserved_block_count(self.bytes()) + (c * 4) / 512
    }

    /// Absolute block index of cluster `c`'s FAT slot.
    pub open spec fn fat_block_abs(self, c: int) -> int {
        self.partition_start.0 + self.fat_block_of(c)
    }

    /// The device sector at absolute index `b`, or an empty sequence when the
    /// index lies beyond the device. Total, so that sectors beyond a short
    /// device compare equal across states.
    pub open spec fn disk_block(self, b: int) -> Seq<u8> {
        if 0 <= b < self.block_device.blocks().len() {
            self.block_device.blocks()[b]
        } else {
            Seq::empty()
        }
    }

    /// The raw 32-bit value of cluster `c`'s FAT slot on disk.
    pub open spec fn fat_raw(self, c: int) -> int {
        spec_fat_raw_at(self.block_device.blocks(), self.fat_block_abs(c), spec_fat_byte_of(c))
    }

    /// The typed meaning of cluster `c`'s FAT slot: the low 28 bits classified
    /// against the cluster count.
    pub open spec fn fat_entry(self, c: int) -> FatValue {
        spec_classify(self.fat_raw(c) % 0x1000_0000, self.cluster_count())
    }

    /// The whole FAT as a sequence of typed slots, indexed by cluster number.
    pub open spec fn fat(self) -> Seq<FatValue> {
        Seq::new(self.cluster_count() as nat, |c: int| self.fat_entry(c))
    }

    /// Two filesystem states with the same geometry: only device contents and
    /// the FS Info counters may differ.
    pub open spec fn same_geometry(self, other: Self) -> bool {
        &&& other.boot_record == self.boot_record
        &&& other.partition_start == self.partition_start
        &&& other.first_data_offset == self.first_data_offset
        &&& other.partition_block_count == self.partition_block_count
        &&& other.block_device.blocks().len() == self.block_device.blocks().len()
        &&& other.block_device.infallible() == self.block_device.infallible()
        &&& other.block_device.wf()
    }

    /// Number of free slots among clusters `[2, n)`.
    pub open spec fn count_free_upto(self, n: int) -> int
        decreases n,
    {
        if n <= 2 {
            0
        } else {
            self.count_free_upto(n - 1) + (if self.fat_entry(n - 1) == FatValue::Free {
                1int
            } else {
                0int
            })
        }
    }

    /// Number of free clusters of the volume, per the FAT itself.
    pub open spec fn free_count(self) -> int {
        self.count_free_upto(self.cluster_count())
    }

    /// The FS Info free-cluster counter agrees with the FAT.
    pub open spec fn counts_accurate(self) -> bool {
        self.fat_info.free_cluster as int == self.free_count()
    }

    /// Absolute block index of the FS Info block.
    pub open spec fn fs_info_abs(self) -> int {
        self.partition_start.0 + spec_fs_info_block(self.bytes())
    }

    /// Two states whose FAT slots agree on `[2, n)` count the same free slots
    /// there.
    pub proof fn lemma_count_free_congruent(self, other: Self, n: int)
        requires
            forall|c: int| 2 <= c < n ==> other.fat_entry(c) == self.fat_entry(c),
            other.cluster_count() == self.cluster_count(),
        ensures
            other.count_free_upto(n) == self.count_free_upto(n),
        decreases n,
    {
        if n > 2 {
            self.lemma_count_free_congruent(other, n - 1);
        }
    }

    /// Changing the slot of one cluster changes the count of free slots by the
    /// difference at that cluster alone.
    pub proof fn lemma_count_free_update(self, other: Self, c: int, n: int)
        requires
            2 <= c,
            forall|c2: int| 2 <= c2 < n && c2 != c ==> other.fat_entry(c2) == self.fat_entry(c2),
        ensures
            other.count_free_upto(n) == self.count_free_upto(n) + (if c < n {
                (if other.fat_entry(c) == FatValue::Free {
                    1int
                } else {
                    0int
                }) - (if self.fat_entry(c) == FatValue::Free {
                    1int
                } else {
                    0int
                })
            } else {
                0int
            }),
        decreases n,
    {
        if n > 2 {
            self.lemma_count_free_update(other, c, n - 1);
        }
    }

    /// A range with no free slot counts zero free slots.
    pub proof fn lemma_count_free_zero(self, n: int)
        requires
            forall|c: int| 2 <= c < n ==> self.fat_entry(c) != FatValue::Free,
        ensures
            self.count_free_upto(n) == 0,
        decreases n,
    {
        if n > 2 {
            self.lemma_count_free_zero(n - 1);
        }
    }

    /// The count of free slots over `[2, n)` is nonnegative and at most the
    /// size of the range.
    pub proof fn lemma_count_free_bounds(self, n: int)
        ensures
            0 <= self.count_free_upto(n),
            self.count_free_upto(n) <= (if n >= 2 {
                n - 2
            } else {
                0int
            }),
        decreases n,
    {
        if n > 2 {
            self.lemma_count_free_bounds(n - 1);
        }
    }

    /// FAT slot addressing, restated over the slot-per-block ratio: cluster
    /// `c`'s slot lives in FAT block `c / 128`, at byte `4 * (c % 128)`.
    pub proof fn lemma_fat_addressing(self, c: int)
        requires
            self.wf(),
            0 <= c < self.cluster_count(),
        ensures
            self.fat_block_of(c) == spec_reserved_block_count(self.bytes()) + c / 128,
            spec_fat_byte_of(c) == 4 * (c % 128),
            0 <= spec_fat_byte_of(c) <= 508,
            spec_reserved_block_count(self.bytes()) <= self.fat_block_of(c)
                < self.first_data_offset.0,
    {
        lemma_fundamental_div_mod(c, 128);
        lemma_mod_bound(c, 128);
        let q = c / 128;
        let r = c % 128;
        assert(c * 4 == 512 * q + 4 * r) by (nonlinear_arith)
            requires c == 128 * q + r,
        ;
        lemma_fundamental_div_mod_converse(c * 4, 512, q, 4 * r);
        let fat_size = spec_fat_size(self.bytes());
        assert(c < 128 * fat_size) by (nonlinear_arith)
            requires
                4 * c < 512 * fat_size,
        ;
        assert(4 * self.cluster_count() == self.cluster_count() * 4);
        assert(4 * c < 4 * self.cluster_count()) by (nonlinear_arith)
            requires c < self.cluster_count(),
        ;
        assert(q < fat_size) by (nonlinear_arith)
            requires
                c == 128 * q + r,
                0 <= r,
                c < 128 * fat_size,
        ;
        lemma_mul_inequality(1, spec_fats_count(self.bytes()), fat_size);
    }

    /// Distinct clusters occupy disjoint byte ranges of the FAT: either their
    /// slots live in different blocks, or at in-block offsets at least four
    /// bytes apart.
    pub proof fn lemma_fat_slots_distinct(self, c1: int, c2: int)
        requires
            self.wf(),
            0 <= c1 < self.cluster_count(),
            0 <= c2 < self.cluster_count(),
            c1 != c2,
        ensures
            self.fat_block_of(c1) != self.fat_block_of(c2)
                || spec_fat_byte_of(c1) + 4 <= spec_fat_byte_of(c2)
                || spec_fat_byte_of(c2) + 4 <= spec_fat_byte_of(c1),
    {
        self.lemma_fat_addressing(c1);
        self.lemma_fat_addressing(c2);
        if self.fat_block_of(c1) == self.fat_block_of(c2) {
            lemma_fundamental_div_mod(c1, 128);
            lemma_fundamental_div_mod(c2, 128);
        }
    }

    /// Every data cluster's blocks lie at or after the first data offset, and
    /// within the volume (hence within the partition when its length is known).
    pub proof fn lemma_data_block_bounds(self, c: int)
        requires
            self.wf(),
            2 <= c < self.cluster_count(),
        ensures
            self.first_data_offset.0
                + (c - 2) * spec_blocks_per_cluster(self.bytes())
                + spec_blocks_per_cluster(self.bytes())
                <= spec_total_blocks(self.bytes()),
    {
        let s = self.bytes();
        let bpc = spec_blocks_per_cluster(s);
        let data_blocks = spec_total_blocks(s) - (spec_reserved_block_count(s)
            + spec_fats_count(s) * spec_fat_size(s) + spec_root_dir_blocks(s));
        let raw = data_blocks / bpc;
        lemma_fundamental_div_mod(data_blocks, bpc);
        lemma_mod_bound(data_blocks, bpc);
        assert(raw * bpc <= data_blocks) by (nonlinear_arith)
            requires
                data_blocks == bpc * raw + data_blocks % bpc,
                data_blocks % bpc >= 0,
        ;
        assert((c - 2) * bpc + bpc <= raw * bpc) by (nonlinear_arith)
            requires
                c - 2 + 1 <= raw,
                bpc >= 1,
        ;
        assert(spec_root_dir_blocks(s) >= 0) by {
            lemma_div_nonneg(spec_root_dir_childs_count(s) * 32 + spec_bytes_per_block(s) - 1,
                spec_bytes_per_block(s));
        };
    }

    /// Create a new instance of FatFileSystem. `init` needs to be called after
    /// this; the FS Info counters start out unknown.
    pub fn new(
        block_device: T,
        partition_start: BlockIndex,
        first_data_offset: BlockIndex,
        partition_block_count: BlockCount,
        boot_record: FatVolumeBootRecord,
    ) -> (r: FatFileSystem<T>)
        ensures
            r.block_device == block_device,
            r.partition_start == partition_start,
            r.first_data_offset == first_data_offset,
            r.partition_block_count == partition_block_count,
            r.boot_record == boot_record,
            r.fat_info.last_cluster == 0xFFFF_FFFFu32,
            r.fat_info.free_cluster == 0xFFFF_FFFFu32,
    {
        FatFileSystem {
            block_device,
            partition_start,
            first_data_offset,
            partition_block_count,
            boot_record,
            fat_info: FatFileSystemInfo {
                last_cluster: 0xFFFF_FFFF,
                free_cluster: 0xFFFF_FFFF,
            },
        }
    }

    /// Initialize the filesystem: load the FS Info block, and recompute the
    /// free-cluster count by a full FAT scan when the loaded count is unknown.
    pub fn init(&mut self) -> (r: Result<(), FileSystemError>)
        requires
            old(self).wf(),
        ensures
            final(self).wf(),
            old(self).same_geometry(*final(self)),
            final(self).boot_record == old(self).boot_record,
            final(self).block_device.blocks() == old(self).block_device.blocks(),
            final(self).device_ok() == old(self).device_ok(),
            (r matches Err(e) ==> e == FileSystemError::ReadFailed),
            r is Ok ==> {
                let s = old(self).disk_block(old(self).fs_info_abs());
                let loaded_free = spec_loaded_free_cluster(s, old(self).cluster_count());
                &&& final(self).fat_info.last_cluster as int == spec_loaded_last_cluster(
                    s,
                    old(self).cluster_count(),
                )
                &&& (loaded_free != 0xFFFF_FFFF ==> final(self).fat_info.free_cluster as int
                    == loaded_free)
                &&& (loaded_free == 0xFFFF_FFFF ==> final(self).counts_accurate())
            },
            old(self).device_ok() ==> r is Ok,
    {
        // read FAT infos
        if matches!(self.boot_record.fat_type, FatFsType::Fat32) {
            let info = match FatFileSystemInfo::from_fs(self) {
                Ok(info) => info,
                Err(e) => {
                    return Err(e);
                },
            };
            self.fat_info = info;
        }

        if self.fat_info.free_cluster == 0xFFFF_FFFF {
            let count = match crate::table::get_free_cluster_count(self) {
                Ok(count) => count,
                Err(e) => {
                    return Err(e);
                },
            };
            let ghost mid = *self;
            self.fat_info.free_cluster = count;
            proof {
                mid.lemma_count_free_congruent(*self, mid.cluster_count());
            }
        }

        Ok(())
    }

    /// No sector outside the FAT region and the FS Info block differs between
    /// `self` and `post`.
    pub open spec fn untouched_outside_metadata(self, post: Self) -> bool {
        forall|b: int|
            0 <= b < self.block_device.blocks().len() && !(self.partition_start.0
                + spec_reserved_block_count(self.bytes()) <= b < self.partition_start.0
                + self.first_data_offset.0) && b != self.fs_info_abs()
                ==> post.block_device.blocks()[b] == self.block_device.blocks()[b]
    }

    /// State relation established by a successful `free_cluster(head, prev)`:
    /// after the optional detach of the tail, the FAT is the chain from `head`
    /// freed slot by slot, the free counter grew by the number of freed slots,
    /// the last-allocated hint was set to `head` only if it was unknown and a
    /// slot was freed, and the FS Info block holds the new counters.
    pub open spec fn free_cluster_post(
        self,
        post: Self,
        to_remove: Cluster,
        previous_cluster: Option<Cluster>,
    ) -> bool {
        let cc = self.cluster_count();
        let fat1 = (match previous_cluster {
            Some(p) => self.fat().update(p.0 as int, FatValue::EndOfChain),
            None => self.fat(),
        });
        let freed = spec_free_chain_count(fat1, to_remove.0 as int, cc as nat);
        &&& post.fat() == spec_free_chain(fat1, to_remove.0 as int, cc as nat)
        &&& post.fat_info.free_cluster as int == (self.fat_info.free_cluster + freed)
            % 0x1_0000_0000
        &&& post.fat_info.last_cluster == (if self.fat_info.last_cluster != 0xFFFF_FFFFu32 {
            self.fat_info.last_cluster
        } else if freed > 0 {
            to_remove.0
        } else {
            0xFFFF_FFFFu32
        })
        &&& spec_fs_info_bytes_ok(
            post.disk_block(self.fs_info_abs()),
            post.fat_info.last_cluster as int,
            post.fat_info.free_cluster as int,
        )
        &&& self.untouched_outside_metadata(post)
        &&& ((self.counts_accurate() && (match previous_cluster {
            Some(p) => self.fat_entry(p.0 as int) != FatValue::Free,
            None => true,
        })) ==> post.counts_accurate())
    }

    /// Absolute block index of block `j` of data cluster `c`.
    pub open spec fn spec_data_block_abs(self, c: int, j: int) -> int {
        self.partition_start.0 + self.first_data_offset.0 + (c - 2) * spec_blocks_per_cluster(
            self.bytes(),
        ) + j
    }

    /// `b` is a data-region block of one of the clusters in `cs`.
    pub open spec fn spec_in_clusters_data(self, cs: Seq<int>, b: int) -> bool {
        exists|i: int, j: int|
            0 <= i < cs.len() && 0 <= j < spec_blocks_per_cluster(self.bytes()) && b
                == self.spec_data_block_abs(cs[i], j)
    }

    /// Get the root directory of the filesystem.
    pub fn get_root_directory(&self) -> (r: Directory<'_, T>)
        requires
            self.wf(),
        ensures
            r.fs == self,
            r.dir_info.start_cluster.0 as int == crate::spec_root_dir_childs_cluster(
                self.bytes(),
            ),
            r.dir_info.attribute.0 == 0x10,
            r.dir_info.raw_info is None,
            r.dir_info.file_size == 0,
    {
        let dir_info = DirectoryEntry {
            start_cluster: self.boot_record.root_dir_childs_cluster(),
            raw_info: None,
            file_size: 0,
            creation_timestamp: 0,
            last_access_timestamp: 0,
            last_modification_timestamp: 0,
            file_name: String::new(),
            attribute: Attributes::new(0x10),
        };

        Directory::from_entry(self, dir_info)
    }

    /// Clean cluster chain data: write all-zero sectors over every block of
    /// every cluster of the chain that starts at `cluster`. Used when creating
    /// a new directory, so iteration sees only free records. The FAT itself and
    /// the FS Info counters are untouched.
    #[verifier::rlimit(100)]
    pub fn clean_cluster_data(&mut self, cluster: Cluster) -> (r: Result<(), FileSystemError>)
        requires
            old(self).wf(),
            2 <= cluster.0 < old(self).cluster_count(),
            spec_reaches_end(old(self).fat(), cluster.0 as int, old(self).cluster_count() as nat),
        ensures
            final(self).wf(),
            old(self).same_geometry(*final(self)),
            final(self).boot_record == old(self).boot_record,
            final(self).fat_info == old(self).fat_info,
            final(self).device_ok() == old(self).device_ok(),
            forall|c2: int| 0 <= c2 < old(self).cluster_count() ==> final(self).fat_entry(c2)
                == old(self).fat_entry(c2),
            (r matches Err(e) ==> e == FileSystemError::ReadFailed
                || e == FileSystemError::WriteFailed),
            old(self).device_ok() ==> r is Ok,
            r is Ok ==> {
                let chain = spec_chain_from(
                    old(self).fat(),
                    cluster.0 as int,
                    old(self).cluster_count() as nat,
                );
                &&& (forall|i: int, j: int|
                    0 <= i < chain.len() && 0 <= j < spec_blocks_per_cluster(old(self).bytes())
                        ==> final(self).disk_block(
                        #[trigger] old(self).spec_data_block_abs(chain[i], j),
                    ) =~= Seq::new(512, |k: int| 0u8))
                &&& (forall|b: int|
                    0 <= b < old(self).block_device.blocks().len() && !old(
                        self,
                    ).spec_in_clusters_data(chain, b) ==> final(self).block_device.blocks()[b]
                        == old(self).block_device.blocks()[b])
            },
    {
        let ghost pre = *old(self);
        let ghost cc = pre.cluster_count();
        let ghost chain = spec_chain_from(pre.fat(), cluster.0 as int, cc as nat);
        let zero_block = Block::new();
        let blocks_per_cluster = self.boot_record.blocks_per_cluster() as u32;
        let mut current = cluster;
        let ghost mut visited: Seq<int> = Seq::empty();
        let ghost mut fuel: nat = cc as nat;

        proof {
            crate::chain::lemma_chain_members(pre.fat(), cluster.0 as int, cc as nat);
        }

        loop
            invariant_except_break
                2 <= current.0 < cc,
                spec_reaches_end(pre.fat(), current.0 as int, fuel),
                chain == visited + spec_chain_from(pre.fat(), current.0 as int, fuel),
            invariant
                pre == *old(self),
                self.wf(),
                pre.wf(),
                pre.same_geometry(*self),
                self.boot_record == pre.boot_record,
                self.fat_info == pre.fat_info,
                self.device_ok() == pre.device_ok(),
                cc == pre.cluster_count(),
                blocks_per_cluster as int == spec_blocks_per_cluster(pre.bytes()),
                zero_block.wf(),
                forall|k: int| 0 <= k < 512 ==> zero_block@[k] == 0u8,
                2 <= cluster.0 < cc,
                forall|c2: int| 0 <= c2 < cc ==> self.fat_entry(c2) == pre.fat_entry(c2),
                self.fat() == pre.fat(),
                fuel <= cc,
                chain == spec_chain_from(pre.fat(), cluster.0 as int, cc as nat),
                forall|i: int, j: int|
                    0 <= i < visited.len() && 0 <= j < blocks_per_cluster ==> self.disk_block(
                        #[trigger] pre.spec_data_block_abs(visited[i], j),
                    ) =~= Seq::new(512, |k: int| 0u8),
                forall|b: int|
                    0 <= b < pre.block_device.blocks().len() && !pre.spec_in_clusters_data(
                        visited,
                        b,
                    ) ==> self.block_device.blocks()[b] == pre.block_device.blocks()[b],
            ensures
                self.wf(),
                pre == *old(self),
                pre.same_geometry(*self),
                self.boot_record == pre.boot_record,
                self.fat_info == pre.fat_info,
                self.device_ok() == pre.device_ok(),
                forall|c2: int| 0 <= c2 < cc ==> self.fat_entry(c2) == pre.fat_entry(c2),
                visited == chain,
                forall|i: int, j: int|
                    0 <= i < visited.len() && 0 <= j < blocks_per_cluster ==> self.disk_block(
                        #[trigger] pre.spec_data_block_abs(visited[i], j),
                    ) =~= Seq::new(512, |k: int| 0u8),
                forall|b: int|
                    0 <= b < pre.block_device.blocks().len() && !pre.spec_in_clusters_data(
                        visited,
                        b,
                    ) ==> self.block_device.blocks()[b] == pre.block_device.blocks()[b],
            decreases fuel,
        {
            let data_block = current.to_data_block_index(self);
            let ghost visited1 = visited.push(current.0 as int);
            proof {
                assert forall|b: int|
                    0 <= b < pre.block_device.blocks().len() && !pre.spec_in_clusters_data(
                        visited1,
                        b,
                    ) implies self.block_device.blocks()[b] == pre.block_device.blocks()[b] by {
                    if pre.spec_in_clusters_data(visited, b) {
                        let (i, j) = choose|i: int, j: int|
                            0 <= i < visited.len() && 0 <= j < spec_blocks_per_cluster(pre.bytes())
                                && b == pre.spec_data_block_abs(visited[i], j);
                        assert(visited1[i] == visited[i]);
                        assert(pre.spec_in_clusters_data(visited1, b));
                    }
                }
            }
            let mut j: u32 = 0;
            while j < blocks_per_cluster
                invariant
                    pre == *old(self),
                    self.wf(),
                    pre.wf(),
                    pre.same_geometry(*self),
                    self.boot_record == pre.boot_record,
                    self.fat_info == pre.fat_info,
                    self.device_ok() == pre.device_ok(),
                    cc == pre.cluster_count(),
                    blocks_per_cluster as int == spec_blocks_per_cluster(pre.bytes()),
                    zero_block.wf(),
                    forall|k: int| 0 <= k < 512 ==> zero_block@[k] == 0u8,
                    2 <= current.0 < cc,
                    0 <= j <= blocks_per_cluster,
                    visited1 == visited.push(current.0 as int),
                    data_block.0 as int == pre.first_data_offset.0 + (current.0 - 2)
                        * blocks_per_cluster,
                    data_block.0 + blocks_per_cluster <= spec_total_blocks(pre.bytes()),
                    forall|c2: int| 0 <= c2 < cc ==> self.fat_entry(c2) == pre.fat_entry(c2),
                    self.fat() == pre.fat(),
                    forall|i: int, jj: int|
                        0 <= i < visited.len() && 0 <= jj < blocks_per_cluster
                            ==> self.disk_block(
                            #[trigger] pre.spec_data_block_abs(visited[i], jj),
                        ) =~= Seq::new(512, |k: int| 0u8),
                    forall|jj: int|
                        0 <= jj < j ==> self.disk_block(
                            #[trigger] pre.spec_data_block_abs(current.0 as int, jj),
                        ) =~= Seq::new(512, |k: int| 0u8),
                    forall|b: int|
                        0 <= b < pre.block_device.blocks().len() && !pre.spec_in_clusters_data(
                            visited1,
                            b,
                        ) ==> self.block_device.blocks()[b] == pre.block_device.blocks()[b],
                decreases blocks_per_cluster - j,
            {
                let ghost wpre = *self;
                match self.block_device.write(
                    &zero_block,
                    self.partition_start.0,
                    data_block.0 + j,
                ) {
                    Ok(_) => {},
                    Err(_) => {
                        return Err(FileSystemError::WriteFailed);
                    },
                }
                proof {
                    let abs = pre.spec_data_block_abs(current.0 as int, j as int);
                    assert forall|c2: int| 0 <= c2 < cc implies self.fat_entry(c2)
                        == wpre.fat_entry(c2) by {
                        reveal(spec_fat_raw_at);
                        pre.lemma_fat_addressing(c2);
                        pre.lemma_volume_layout();
                    }
                    assert(self.fat() =~= wpre.fat());
                    assert(self.disk_block(abs) =~= Seq::new(512, |k: int| 0u8));
                    assert(visited1[visited.len() as int] == current.0 as int);
                    assert(pre.spec_in_clusters_data(visited1, abs));
                }
                j = j + 1;
            }
            proof {
                visited = visited1;
                assert forall|i: int, jj: int|
                    0 <= i < visited.len() && 0 <= jj < blocks_per_cluster
                    implies self.disk_block(
                        #[trigger] pre.spec_data_block_abs(visited[i], jj),
                    ) =~= Seq::new(512, |k: int| 0u8) by {
                    if i == visited.len() - 1 {
                        assert(visited[i] == current.0 as int);
                    }
                }
            }

            let value = match FatValue::get(self, current) {
                Ok(value) => value,
                Err(e) => {
                    return Err(e);
                },
            };
            match value {
                FatValue::Data(next) => {
                    proof {
                        assert(chain =~= visited + spec_chain_from(
                            pre.fat(),
                            next as int,
                            (fuel - 1) as nat,
                        ));
                        fuel = (fuel - 1) as nat;
                    }
                    current = Cluster(next);
                },
                FatValue::EndOfChain => {
                    proof {
                        assert(chain =~= visited);
                    }
                    break;
                },
                _ => {
                    proof {
                        assert(chain =~= visited);
                    }
                    break;
                },
            }
        }
        Ok(())
    }

    /// Linear-probe the FAT for a free slot, starting just after `origin`,
    /// wrapping from the last cluster back to cluster 2, and ending after
    /// probing `origin` itself. When it reports no space, no cluster of the
    /// volume is free.
    fn search_free_cluster(&self, origin: u32) -> (r: Result<u32, FileSystemError>)
        requires
            self.wf(),
            1 <= origin < self.cluster_count(),
        ensures
            (r matches Ok(c) ==> 2 <= c < self.cluster_count()
                && self.fat_entry(c as int) == FatValue::Free),
            (r matches Err(e) ==> e == FileSystemError::NoSpaceLeft
                || e == FileSystemError::ReadFailed),
            r == Err::<u32, FileSystemError>(FileSystemError::NoSpaceLeft) ==> forall|c: int|
                2 <= c < self.cluster_count() ==> self.fat_entry(c) != FatValue::Free,
            self.device_ok() ==> (r is Ok || r == Err::<u32, FileSystemError>(
                FileSystemError::NoSpaceLeft,
            )),
    {
        let cluster_count = self.boot_record.cluster_count;
        let mut number_cluster: u32 = origin + 1;
        while number_cluster < cluster_count
            invariant
                self.wf(),
                cluster_count as int == self.cluster_count(),
                origin + 1 <= number_cluster <= cluster_count,
                1 <= origin < cluster_count,
                forall|k: int| origin < k < number_cluster ==> self.fat_entry(k)
                    != FatValue::Free,
            decreases cluster_count - number_cluster,
        {
            let value = match FatValue::get(self, Cluster(number_cluster)) {
                Ok(value) => value,
                Err(e) => {
                    return Err(e);
                },
            };
            if value == FatValue::Free {
                return Ok(number_cluster);
            }
            number_cluster = number_cluster + 1;
        }

        if origin < 2 {
            return Err(FileSystemError::NoSpaceLeft);
        }

        let mut number_cluster: u32 = 2;
        while number_cluster <= origin
            invariant
                self.wf(),
                cluster_count as int == self.cluster_count(),
                2 <= number_cluster <= origin + 1,
                2 <= origin < cluster_count,
                forall|k: int| origin < k < cluster_count ==> self.fat_entry(k) != FatValue::Free,
                forall|k: int| 2 <= k < number_cluster ==> self.fat_entry(k) != FatValue::Free,
            decreases origin + 1 - number_cluster,
        {
            let value = match FatValue::get(self, Cluster(number_cluster)) {
                Ok(value) => value,
                Err(e) => {
                    return Err(e);
                },
            };
            if value == FatValue::Free {
                return Ok(number_cluster);
            }
            number_cluster = number_cluster + 1;
        }

        Err(FileSystemError::NoSpaceLeft)
    }

    /// State relation established by a fresh allocation: `c` was free and now
    /// ends a chain, the chain at `prev_opt` (when given) links to it, no other
    /// slot changed, the FS Info counters record the allocation, and an
    /// accurate free counter stays accurate provided the extended tail was not
    /// itself free.
    pub open spec fn alloc_fresh_post(
        self,
        post: Self,
        prev_opt: Option<Cluster>,
        c: u32,
    ) -> bool {
        let cc = self.cluster_count();
        &&& 2 <= c < cc
        &&& self.fat_entry(c as int) == FatValue::Free
        &&& (match prev_opt {
            Some(p) => if p.0 == c {
                post.fat_entry(c as int) == FatValue::Data(c)
            } else {
                post.fat_entry(c as int) == FatValue::EndOfChain && post.fat_entry(p.0 as int)
                    == FatValue::Data(c)
            },
            None => post.fat_entry(c as int) == FatValue::EndOfChain,
        })
        &&& forall|c2: int|
            0 <= c2 < cc && c2 != c && (match prev_opt {
                Some(p) => c2 != p.0 as int,
                None => true,
            }) ==> post.fat_entry(c2) == self.fat_entry(c2)
        &&& post.fat_info.last_cluster == c
        &&& post.fat_info.free_cluster as int == self.fat_info.free_cluster - 1
        &&& spec_fs_info_bytes_ok(
            post.disk_block(self.fs_info_abs()),
            c as int,
            self.fat_info.free_cluster - 1,
        )
        &&& self.untouched_outside_metadata(post)
        &&& ((self.counts_accurate() && (match prev_opt {
            Some(p) => self.fat_entry(p.0 as int) != FatValue::Free,
            None => true,
        })) ==> post.counts_accurate())
    }

    /// Allocate a cluster and if specified add it to a cluster chain.
    ///
    /// When the supplied chain tail already links onward, the linked cluster is
    /// returned and nothing changes. Otherwise a free cluster is found — the
    /// slot just after the tail first, then by linear probe from the
    /// last-allocation hint — marked end-of-chain, linked from the tail, and
    /// recorded in the FS Info. With an accurate, positive free counter and a
    /// healthy device, a fresh allocation cannot fail.
    #[verifier::rlimit(100)]
    pub fn alloc_cluster(&mut self, last_cluster_allocated_opt: Option<Cluster>) -> (r: Result<
        Cluster,
        FileSystemError,
    >)
        requires
            old(self).wf(),
            (last_cluster_allocated_opt matches Some(p) ==> 2 <= p.0 < old(
                self,
            ).cluster_count()),
        ensures
            final(self).wf(),
            old(self).same_geometry(*final(self)),
            final(self).boot_record == old(self).boot_record,
            final(self).device_ok() == old(self).device_ok(),
            (r matches Err(e) ==> e == FileSystemError::ReadFailed
                || e == FileSystemError::WriteFailed || e == FileSystemError::NoSpaceLeft),
            r == Err::<Cluster, FileSystemError>(FileSystemError::NoSpaceLeft) ==> *final(self)
                == *old(self),
            (match last_cluster_allocated_opt {
                Some(p) => (match old(self).fat_entry(p.0 as int) {
                    FatValue::Data(next) => (r is Ok ==> r == Ok::<Cluster, FileSystemError>(
                        Cluster(next),
                    ) && *final(self) == *old(self)) && (r matches Err(e) ==> e
                        == FileSystemError::ReadFailed),
                    _ => true,
                }),
                None => true,
            }),
            (match last_cluster_allocated_opt {
                Some(p) => !(old(self).fat_entry(p.0 as int) is Data),
                None => true,
            }) ==> (r matches Ok(c) ==> old(self).alloc_fresh_post(
                *final(self),
                last_cluster_allocated_opt,
                c.0,
            )),
            (old(self).device_ok() && old(self).counts_accurate()
                && old(self).fat_info.free_cluster > 0 && last_cluster_allocated_opt is None)
                ==> r is Ok,
    {
        let ghost pre = *old(self);
        let ghost cc = pre.cluster_count();
        let cluster_count = self.boot_record.cluster_count;
        let mut start_cluster: u32;
        let mut resize_existing_cluster = false;

        match last_cluster_allocated_opt {
            None => {
                start_cluster = self.fat_info.last_cluster;
                if start_cluster == 0 || start_cluster >= cluster_count {
                    start_cluster = 1;
                }
            },
            Some(last_cluster_allocated) => {
                start_cluster = last_cluster_allocated.0;

                let cluster_val = match FatValue::get(self, last_cluster_allocated) {
                    Ok(value) => value,
                    Err(e) => {
                        return Err(e);
                    },
                };
                if let FatValue::Data(valid_cluster) = cluster_val {
                    if valid_cluster < cluster_count {
                        return Ok(Cluster(valid_cluster));
                    }
                }

                resize_existing_cluster = true;
            },
        }

        if self.fat_info.free_cluster == 0 {
            proof {
                if pre.counts_accurate() && pre.fat_info.free_cluster > 0 {
                    assert(false);
                }
            }
            return Err(FileSystemError::NoSpaceLeft);
        }

        let mut number_cluster: u32 = 0;

        // Resize of existing cluster?
        if resize_existing_cluster {
            // test next chunk
            number_cluster = start_cluster + 1;
            if number_cluster >= cluster_count {
                number_cluster = 2;
            }

            let value = match FatValue::get(self, Cluster(number_cluster)) {
                Ok(value) => value,
                Err(e) => {
                    return Err(e);
                },
            };

            if value != FatValue::Free {
                let new_start = self.fat_info.last_cluster;
                if new_start >= 2 && new_start < cluster_count {
                    start_cluster = new_start;
                }

                number_cluster = 0;
            }
        }

        if number_cluster == 0 {
            number_cluster = match self.search_free_cluster(start_cluster) {
                Ok(c) => c,
                Err(e) => {
                    proof {
                        if e == FileSystemError::NoSpaceLeft {
                            pre.lemma_count_free_zero(cc);
                        }
                    }
                    return Err(e);
                },
            };
        }

        let allocated_cluster = Cluster(number_cluster);
        match FatValue::put(self, allocated_cluster, FatValue::EndOfChain) {
            Ok(_) => {},
            Err(e) => {
                return Err(e);
            },
        }
        let ghost st1 = *self;

        // Link existing cluster with the new one available
        if let Some(last_cluster_allocated) = last_cluster_allocated_opt {
            match FatValue::put(
                self,
                last_cluster_allocated,
                FatValue::Data(allocated_cluster.0),
            ) {
                Ok(_) => {},
                Err(e) => {
                    return Err(e);
                },
            }
        }
        let ghost st2 = *self;

        self.fat_info.last_cluster = allocated_cluster.0;
        self.fat_info.free_cluster = self.fat_info.free_cluster - 1;
        let ghost st3 = *self;

        match FatFileSystemInfo::flush(self) {
            Ok(_) => {},
            Err(e) => {
                return Err(e);
            },
        }

        proof {
            let post = *self;
            let c = allocated_cluster.0 as int;
            pre.lemma_fat_addressing(c);
            assert(st3.fat() =~= st2.fat());
            st3.lemma_count_free_congruent(post, cc);
            pre.lemma_count_free_update(st1, c, cc);
            if last_cluster_allocated_opt is Some {
                let p = last_cluster_allocated_opt->Some_0.0 as int;
                pre.lemma_fat_addressing(p);
                st1.lemma_count_free_update(st2, p, cc);
            }
            st2.lemma_count_free_congruent(st3, cc);
            if pre.counts_accurate() && (match last_cluster_allocated_opt {
                Some(p) => pre.fat_entry(p.0 as int) != FatValue::Free,
                None => true,
            }) {
                pre.lemma_count_free_bounds(cc);
            }
        }
        Ok(allocated_cluster)
    }

    /// Law: a fresh allocation without a tail starts a well-formed chain. The
    /// chain from the allocated cluster is that single cluster, it ends there,
    /// and it visits no cluster twice.
    pub proof fn lemma_alloc_starts_chain(self, post: Self, c: u32, fuel: nat)
        requires
            self.wf(),
            post.cluster_count() == self.cluster_count(),
            self.alloc_fresh_post(post, None, c),
        ensures
            spec_reaches_end(post.fat(), c as int, fuel),
            spec_chain_from(post.fat(), c as int, fuel) == seq![c as int],
            spec_chain_distinct(spec_chain_from(post.fat(), c as int, fuel)),
    {
        assert(post.fat()[c as int] == FatValue::EndOfChain);
        assert(spec_chain_from(post.fat(), c as int, fuel) =~= seq![c as int]);
    }

    /// Law: an allocation that extends the chain ending at `p` keeps the chain
    /// well formed. Walking from the head now visits the old clusters and then
    /// the new one, which ends the chain, and still visits no cluster twice.
    #[verifier::rlimit(100)]
    #[verifier::spinoff_prover]
    pub proof fn lemma_alloc_extends_chain(
        self,
        post: Self,
        head: int,
        p: Cluster,
        c: u32,
        fuel: nat,
    )
        requires
            self.wf(),
            post.cluster_count() == self.cluster_count(),
            self.alloc_fresh_post(post, Some(p), c),
            spec_reaches_end(self.fat(), head, fuel),
            spec_chain_from(self.fat(), head, fuel).last() == p.0 as int,
            spec_chain_distinct(spec_chain_from(self.fat(), head, fuel)),
        ensures
            spec_reaches_end(post.fat(), head, (fuel + 1) as nat),
            spec_chain_from(post.fat(), head, (fuel + 1) as nat) == spec_chain_from(
                self.fat(),
                head,
                fuel,
            ).push(c as int),
            spec_chain_distinct(spec_chain_from(post.fat(), head, (fuel + 1) as nat)),
    {
        lemma_chain_end(self.fat(), head, fuel);
        crate::chain::lemma_chain_members(self.fat(), head, fuel);
        assert(2 <= p.0 as int && (p.0 as int) < self.fat().len()) by {
            let ch = spec_chain_from(self.fat(), head, fuel);
            assert(ch[ch.len() - 1] == p.0 as int);
        };
        assert(self.fat()[p.0 as int] == self.fat_entry(p.0 as int));
        assert(p.0 != c);
        let fat2 = self.fat().update(c as int, FatValue::EndOfChain).update(
            p.0 as int,
            FatValue::Data(c),
        );
        assert forall|i: int| 0 <= i < fat2.len() implies post.fat()[i] == fat2[i] by {
            assert(post.fat()[i] == post.fat_entry(i));
            if i != c && i != p.0 as int {
                assert(self.fat()[i] == self.fat_entry(i));
            }
        }
        assert(post.fat() =~= fat2);
        lemma_chain_extend(self.fat(), post.fat(), head, p.0 as int, c as int, fuel);
        lemma_chain_extend_distinct(self.fat(), head, c as int, fuel);
    }

    /// Law: allocating a fresh cluster and then freeing it as a singleton chain
    /// restores the free counter to its value before the allocation, leaves the
    /// allocated slot free again, and leaves every other slot as it was.
    #[verifier::rlimit(100)]
    #[verifier::spinoff_prover]
    pub proof fn lemma_alloc_then_free_singleton(s0: Self, s1: Self, s2: Self, c: u32)
        requires
            s0.wf(),
            s1.wf(),
            s1.cluster_count() == s0.cluster_count(),
            s2.cluster_count() == s0.cluster_count(),
            s0.alloc_fresh_post(s1, None, c),
            s1.free_cluster_post(s2, Cluster(c), None),
        ensures
            s2.fat_info.free_cluster == s0.fat_info.free_cluster,
            s2.fat_entry(c as int) == FatValue::Free,
            forall|c2: int| 0 <= c2 < s0.cluster_count() && c2 != c ==> s2.fat_entry(c2)
                == s0.fat_entry(c2),
    {
        let cc = s0.cluster_count();
        assert(s1.fat()[c as int] == FatValue::EndOfChain);
        assert(spec_free_chain(s1.fat(), c as int, cc as nat) =~= s1.fat().update(
            c as int,
            FatValue::Free,
        ));
        assert(spec_free_chain_count(s1.fat(), c as int, cc as nat) == 1);
        assert(s2.fat() == s1.fat().update(c as int, FatValue::Free));
        assert(s2.fat_entry(c as int) == s2.fat()[c as int]);
        assert forall|c2: int| 0 <= c2 < cc && c2 != c implies s2.fat_entry(c2) == s0.fat_entry(
            c2,
        ) by {
            assert(s2.fat_entry(c2) == s2.fat()[c2]);
            assert(s1.fat()[c2] == s1.fat_entry(c2));
        }
    }

    /// Free a cluster and if specified remove of a cluster chain: detach the
    /// tail from `previous_cluster`, then walk from `to_remove`, freeing each
    /// slot until a free or terminal slot ends the chain, and flush the FS
    /// Info counters.
    #[verifier::rlimit(100)]
    pub fn free_cluster(
        &mut self,
        to_remove: Cluster,
        previous_cluster: Option<Cluster>,
    ) -> (r: Result<(), FileSystemError>)
        requires
            old(self).wf(),
            2 <= to_remove.0 < old(self).cluster_count(),
            (previous_cluster matches Some(p) ==> p.0 < old(self).cluster_count()),
        ensures
            final(self).wf(),
            old(self).same_geometry(*final(self)),
            final(self).boot_record == old(self).boot_record,
            final(self).device_ok() == old(self).device_ok(),
            (r matches Err(e) ==> e == FileSystemError::ReadFailed
                || e == FileSystemError::WriteFailed),
            old(self).device_ok() ==> r is Ok,
            r is Ok ==> old(self).free_cluster_post(*final(self), to_remove, previous_cluster),
    {
        let ghost pre = *old(self);
        let ghost cc = pre.cluster_count();
        let ghost fat1 = (match previous_cluster {
            Some(p) => pre.fat().update(p.0 as int, FatValue::EndOfChain),
            None => pre.fat(),
        });

        if let Some(previous_cluster) = previous_cluster {
            match FatValue::put(self, previous_cluster, FatValue::EndOfChain) {
                Ok(_) => {},
                Err(e) => {
                    return Err(e);
                },
            }
        }

        let ghost base = *self;
        proof {
            assert(base.fat() =~= fat1);
            if previous_cluster is Some {
                let p = previous_cluster->Some_0.0 as int;
                if p >= 2 {
                    pre.lemma_count_free_update(base, p, cc);
                } else {
                    pre.lemma_count_free_congruent(base, cc);
                }
            }
        }

        let mut current_cluster = to_remove;
        let ghost mut freed: int = 0;

        loop
            invariant
                pre == *old(self),
                self.wf(),
                base.wf(),
                pre.wf(),
                pre.same_geometry(*self),
                base.same_geometry(*self),
                self.device_ok() == pre.device_ok(),
                self.boot_record == base.boot_record,
                cc == self.cluster_count(),
                cc == base.cluster_count(),
                2 <= current_cluster.0 < cc,
                0 <= freed,
                freed == 0 ==> current_cluster == to_remove,
                2 <= to_remove.0 < cc,
                self.free_count() == base.free_count() + freed,
                spec_free_chain(fat1, to_remove.0 as int, cc as nat) == spec_free_chain(
                    self.fat(),
                    current_cluster.0 as int,
                    (cc - freed) as nat,
                ),
                spec_free_chain_count(fat1, to_remove.0 as int, cc as nat) == freed
                    + spec_free_chain_count(
                    self.fat(),
                    current_cluster.0 as int,
                    (cc - freed) as nat,
                ),
                self.fat_info.free_cluster as int == (base.fat_info.free_cluster + freed)
                    % 0x1_0000_0000,
                self.fat_info.last_cluster == (if base.fat_info.last_cluster != 0xFFFF_FFFFu32 {
                    base.fat_info.last_cluster
                } else if freed > 0 {
                    to_remove.0
                } else {
                    0xFFFF_FFFFu32
                }),
                base.untouched_outside_metadata(*self),
                self.device_ok() == base.device_ok(),
            ensures
                self.wf(),
                pre.same_geometry(*self),
                base.same_geometry(*self),
                self.device_ok() == pre.device_ok(),
                self.boot_record == base.boot_record,
                self.free_count() == base.free_count() + freed,
                spec_free_chain(fat1, to_remove.0 as int, cc as nat) == self.fat(),
                spec_free_chain_count(fat1, to_remove.0 as int, cc as nat) == freed,
                self.fat_info.free_cluster as int == (base.fat_info.free_cluster + freed)
                    % 0x1_0000_0000,
                self.fat_info.last_cluster == (if base.fat_info.last_cluster != 0xFFFF_FFFFu32 {
                    base.fat_info.last_cluster
                } else if freed > 0 {
                    to_remove.0
                } else {
                    0xFFFF_FFFFu32
                }),
                base.untouched_outside_metadata(*self),
                self.device_ok() == base.device_ok(),
            decreases (cc - 2) - self.free_count(),
        {
            let ghost cur = current_cluster.0 as int;
            let ghost fuel = (cc - freed) as nat;
            proof {
                base.lemma_count_free_bounds(cc);
                self.lemma_count_free_bounds(cc);
                assert(freed <= cc - 2);
            }
            let value = match FatValue::get(self, current_cluster) {
                Ok(value) => value,
                Err(e) => {
                    return Err(e);
                },
            };

            if value == FatValue::Free {
                proof {
                    assert(spec_free_chain(self.fat(), cur, fuel) == self.fat());
                    assert(spec_free_chain_count(self.fat(), cur, fuel) == 0);
                }
                break;
            }

            let ghost it_pre = *self;
            match FatValue::put(self, current_cluster, FatValue::Free) {
                Ok(_) => {},
                Err(e) => {
                    return Err(e);
                },
            }

            // Invalidate last cluster if equals to the current cluster
            if self.fat_info.last_cluster == 0xFFFF_FFFF {
                self.fat_info.last_cluster = current_cluster.0;
            }
            if self.fat_info.free_cluster == 0xFFFF_FFFF {
                self.fat_info.free_cluster = 0;
            } else {
                self.fat_info.free_cluster = self.fat_info.free_cluster + 1;
            }
            proof {
                assert(self.fat() =~= it_pre.fat().update(cur, FatValue::Free));
                it_pre.lemma_count_free_update(*self, cur, cc);
                it_pre.lemma_fat_addressing(cur);
                self.lemma_count_free_bounds(cc);
                freed = freed + 1;
                assert(spec_free_chain(it_pre.fat(), cur, fuel) == spec_free_chain(
                    self.fat(),
                    match it_pre.fat()[cur] {
                        FatValue::Data(next) => next as int,
                        _ => cur,
                    },
                    (fuel - 1) as nat,
                ));
                assert(spec_free_chain_count(it_pre.fat(), cur, fuel) == 1
                    + spec_free_chain_count(
                    self.fat(),
                    match it_pre.fat()[cur] {
                        FatValue::Data(next) => next as int,
                        _ => cur,
                    },
                    (fuel - 1) as nat,
                ));
            }

            match value {
                FatValue::Data(data) => {
                    current_cluster = Cluster(data);
                },
                _ => {
                    break;
                },
            }
        }

        let ghost done = *self;
        match FatFileSystemInfo::flush(self) {
            Ok(_) => {},
            Err(e) => {
                return Err(e);
            },
        }
        proof {
            let post = *self;
            assert(done.fat() =~= post.fat());
            done.lemma_count_free_congruent(post, cc);
            let ghost freed_spec = spec_free_chain_count(fat1, to_remove.0 as int, cc as nat);
            assert(freed_spec == freed);
            assert(post.fat() == spec_free_chain(fat1, to_remove.0 as int, cc as nat));

            // no sector outside the FAT region and the FS Info block changed
            assert forall|b: int|
                0 <= b < pre.block_device.blocks().len() && !(pre.partition_start.0
                    + spec_reserved_block_count(pre.bytes()) <= b < pre.partition_start.0
                    + pre.first_data_offset.0) && b != pre.fs_info_abs()
                implies post.block_device.blocks()[b] == pre.block_device.blocks()[b] by {
                if previous_cluster is Some {
                    pre.lemma_fat_addressing(previous_cluster->Some_0.0 as int);
                }
            }

            // an accurate free counter stays accurate
            if pre.counts_accurate() && (match previous_cluster {
                Some(p) => pre.fat_entry(p.0 as int) != FatValue::Free,
                None => true,
            }) {
                pre.lemma_count_free_bounds(cc);
                done.lemma_count_free_bounds(cc);
                assert(base.free_count() == pre.free_count());
                assert(post.fat_info.free_cluster as int == (pre.fat_info.free_cluster + freed)
                    % 0x1_0000_0000);
                assert((pre.free_count() + freed) % 0x1_0000_0000 == pre.free_count() + freed);
            }
        }
        Ok(())
    }

    /// The metadata regions lie in order before the data region: reserved
    /// blocks first, then at least one full FAT copy, all within the volume.
    pub proof fn lemma_volume_layout(self)
        requires
            self.wf(),
        ensures
            spec_reserved_block_count(self.bytes()) + spec_fat_size(self.bytes())
                <= self.first_data_offset.0 as int,
            self.first_data_offset.0 as int <= spec_total_blocks(self.bytes()),
            spec_total_blocks(self.bytes()) < 0x1_0000_0000,
    {
        let s = self.bytes();
        lemma_div_nonneg(spec_root_dir_childs_count(s) * 32 + spec_bytes_per_block(s) - 1,
            spec_bytes_per_block(s));
        lemma_mul_inequality(1, spec_fats_count(s), spec_fat_size(s));
    }
}

impl FatFileSystemInfo {
    /// Import FS Info from a FAT32 filesystem: each counter keeps its stored
    /// value only when the block's signatures and the counter's bounds check
    /// out, and is the unknown sentinel otherwise.
    pub fn from_fs<T: BlockDevice>(fs: &FatFileSystem<T>) -> (r: Result<
        FatFileSystemInfo,
        FileSystemError,
    >)
        requires
            fs.wf(),
        ensures
            (r matches Ok(info) ==> {
                let s = fs.disk_block(fs.fs_info_abs());
                &&& info.last_cluster as int == spec_loaded_last_cluster(s, fs.cluster_count())
                &&& info.free_cluster as int == spec_loaded_free_cluster(s, fs.cluster_count())
            }),
            (r matches Err(e) ==> e == FileSystemError::ReadFailed),
            fs.device_ok() ==> r is Ok,
    {
        proof {
            fs.lemma_volume_layout();
        }
        let mut last_cluster: u32 = 0xFFFF_FFFF;
        let mut free_cluster: u32 = 0xFFFF_FFFF;

        let fs_info_index = fs.boot_record.fs_info_block() as u32;
        let block = match fs.block_device.read(fs.partition_start.0, fs_info_index) {
            Ok(b) => b,
            Err(_) => {
                return Err(FileSystemError::ReadFailed);
            },
        };

        // valid signature?
        if block.read_u32_le(0) == 0x4161_5252 && block.read_u32_le(0x1e4) == 0x6141_7272
            && block.read_u16_le(0x1fe) == 0xAA55 {
            // check cluster sanity
            let fs_last_cluster = block.read_u32_le(0x1ec);
            if fs_last_cluster >= 2 && fs_last_cluster < fs.boot_record.cluster_count {
                last_cluster = fs_last_cluster;
            }

            // check sanity
            let fs_free_cluster = block.read_u32_le(0x1e8);
            if fs_free_cluster <= fs.boot_record.cluster_count {
                free_cluster = fs_free_cluster;
            }
        }

        Ok(FatFileSystemInfo { last_cluster, free_cluster })
    }

    /// Flush the FS Info counters to their on-disk block. Touches no sector
    /// but the FS Info block, so the FAT and the free count are unchanged.
    pub fn flush<T: BlockDevice>(fs: &mut FatFileSystem<T>) -> (r: Result<(), FileSystemError>)
        requires
            old(fs).wf(),
        ensures
            final(fs).wf(),
            old(fs).same_geometry(*final(fs)),
            final(fs).boot_record == old(fs).boot_record,
            final(fs).fat_info == old(fs).fat_info,
            final(fs).device_ok() == old(fs).device_ok(),
            (r matches Err(e) ==> e == FileSystemError::WriteFailed),
            r is Err ==> final(fs).block_device.blocks() == old(fs).block_device.blocks(),
            r is Ok ==> spec_fs_info_bytes_ok(
                final(fs).disk_block(old(fs).fs_info_abs()),
                old(fs).fat_info.last_cluster as int,
                old(fs).fat_info.free_cluster as int,
            ),
            r is Ok ==> forall|b: int|
                0 <= b < old(fs).block_device.blocks().len() && b != old(fs).fs_info_abs()
                    ==> final(fs).block_device.blocks()[b] == old(fs).block_device.blocks()[b],
            r is Ok ==> forall|c: int| 0 <= c < old(fs).cluster_count()
                ==> final(fs).fat_entry(c) == old(fs).fat_entry(c),
            r is Ok ==> final(fs).free_count() == old(fs).free_count(),
            old(fs).device_ok() ==> r is Ok,
    {
        proof {
            old(fs).lemma_volume_layout();
        }
        if !matches!(fs.boot_record.fat_type, FatFsType::Fat32) {
            return Ok(());
        }

        let mut block = Block::new();

        block.write_u32_le(0, 0x4161_5252);
        block.write_u32_le(0x1e4, 0x6141_7272);
        block.write_u32_le(0x1ec, fs.fat_info.last_cluster);
        block.write_u32_le(0x1e8, fs.fat_info.free_cluster);
        block.write_u16_le(0x1fe, 0xAA55);

        let fs_info_index = fs.boot_record.fs_info_block() as u32;
        match fs.block_device.write(&block, fs.partition_start.0, fs_info_index) {
            Ok(_) => {
                proof {
                    let pre = *old(fs);
                    let post = *fs;
                    assert forall|c: int| 0 <= c < pre.cluster_count()
                        implies post.fat_entry(c) == pre.fat_entry(c) by {
                        reveal(spec_fat_raw_at);
                        pre.lemma_fat_addressing(c);
                        assert(post.disk_block(pre.fat_block_abs(c))
                            == pre.disk_block(pre.fat_block_abs(c)));
                    }
                    pre.lemma_count_free_congruent(post, pre.cluster_count());
                }
                Ok(())
            },
            Err(_) => Err(FileSystemError::WriteFailed),
        }
    }
}

/// A nonnegative integer divided by a positive one yields a nonnegative result.
pub proof fn lemma_div_nonneg(x: int, d: int)
    requires
        x >= 0,
        d >= 1,
    ensures
        x / d >= 0,
{
    lemma_fundamental_div_mod(x, d);
    lemma_mod_bound(x, d);
    assert(x / d >= 0) by (nonlinear_arith)
        requires
            x == d * (x / d) + x % d,
            0 <= x % d < d,
            x >= 0,
            d >= 1,
    ;
}

} // verus!
