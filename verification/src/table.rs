//! Typed access to a single FAT slot.

use vstd::prelude::*;
use vstd::arithmetic::div_mod::{lemma_fundamental_div_mod_converse, lemma_mod_bound};
use crate::block::BlockDevice;
use crate::cluster::Cluster;
use crate::error::FileSystemError;
use crate::filesystem::{spec_fat_byte_of, spec_fat_raw_at, FatFileSystem};

verus! {

/// The typed meaning of one FAT slot.
#[derive(Debug, Clone, Copy, PartialEq, Eq, Structural)]
pub enum FatValue {
    /// The cluster is unallocated.
    Free,
    /// The cluster is allocated and chains to the given next cluster.
    Data(u32),
    /// The cluster is marked bad.
    Bad,
    /// The slot holds a reserved or out-of-range value.
    Reserved,
    /// The cluster is the last one of its chain.
    EndOfChain,
}

/// Classify the low 28 bits of a FAT slot, given the volume's cluster count.
pub open spec fn spec_classify(v: int, cluster_count: int) -> FatValue {
    if v == 0 {
        FatValue::Free
    } else if v == 0x0FFF_FFF7 {
        FatValue::Bad
    } else if 0x0FFF_FFF8 <= v <= 0x0FFF_FFFF {
        FatValue::EndOfChain
    } else if 2 <= v < cluster_count {
        FatValue::Data(v as u32)
    } else {
        FatValue::Reserved
    }
}

/// The 28-bit value written to a FAT slot for each variant.
pub open spec fn spec_encode(v: FatValue) -> int {
    match v {
        FatValue::Free => 0,
        FatValue::Data(next) => next as int,
        FatValue::Bad => 0x0FFF_FFF7,
        FatValue::Reserved => 1,
        FatValue::EndOfChain => 0x0FFF_FFFF,
    }
}

/// A value that survives a put/get round trip on a volume with the given
/// cluster count: a `Data` link must name a valid data cluster.
pub open spec fn spec_storable(v: FatValue, cluster_count: int) -> bool {
    match v {
        FatValue::Data(next) => 2 <= next < cluster_count,
        _ => true,
    }
}

/// Writing a storable value and reading it back yields the value itself.
pub proof fn lemma_encode_classify(v: FatValue, cluster_count: int)
    requires
        spec_storable(v, cluster_count),
        3 <= cluster_count <= 0x0FFF_FFF6,
    ensures
        spec_classify(spec_encode(v) % 0x1000_0000, cluster_count) == v,
{
}

/// State relation established by a successful `FatValue::put` of `v` into
/// cluster `c`'s slot: the slot now classifies as `v` (exactly `v` for a
/// storable value), its reserved high nibble is preserved, every other slot is
/// unchanged, and no sector outside the one holding the slot is touched.
pub open spec fn fat_put_post<T: BlockDevice>(
    pre: FatFileSystem<T>,
    post: FatFileSystem<T>,
    c: int,
    v: FatValue,
) -> bool {
    &&& post.fat_entry(c) == spec_classify(spec_encode(v) % 0x1000_0000, pre.cluster_count())
    &&& (spec_storable(v, pre.cluster_count()) ==> post.fat_entry(c) == v)
    &&& post.fat_raw(c) / 0x1000_0000 == pre.fat_raw(c) / 0x1000_0000
    &&& forall|c2: int| 0 <= c2 < pre.cluster_count() && c2 != c
        ==> post.fat_entry(c2) == pre.fat_entry(c2)
    &&& forall|b: int| 0 <= b < pre.block_device.blocks().len() && b != pre.fat_block_abs(c)
        ==> post.block_device.blocks()[b] == pre.block_device.blocks()[b]
}

/// Round trip: a value just written into a FAT slot is exactly what reading
/// that slot yields, for every storable value.
pub proof fn lemma_put_get_round_trip<T: BlockDevice>(
    pre: FatFileSystem<T>,
    post: FatFileSystem<T>,
    cluster: Cluster,
    value: FatValue,
)
    requires
        pre.wf(),
        cluster.0 < pre.cluster_count(),
        spec_storable(value, pre.cluster_count()),
        fat_put_post(pre, post, cluster.0 as int, value),
    ensures
        post.fat_entry(cluster.0 as int) == value,
{
}

/// Count the free slots of the whole FAT by scanning clusters `[2, cluster_count)`.
pub fn get_free_cluster_count<T: BlockDevice>(fs: &FatFileSystem<T>) -> (r: Result<
    u32,
    FileSystemError,
>)
    requires
        fs.wf(),
    ensures
        (r matches Ok(n) ==> n as int == fs.free_count()),
        (r matches Err(e) ==> e == FileSystemError::ReadFailed),
        fs.device_ok() ==> r is Ok,
{
    let mut count: u32 = 0;
    let mut c: u32 = 2;
    let cluster_count = fs.boot_record.cluster_count;
    while c < cluster_count
        invariant
            fs.wf(),
            2 <= c <= cluster_count,
            cluster_count as int == fs.cluster_count(),
            count as int == fs.count_free_upto(c as int),
        decreases cluster_count - c,
    {
        proof {
            fs.lemma_count_free_bounds(c as int);
        }
        let value = match FatValue::get(fs, Cluster(c)) {
            Ok(value) => value,
            Err(e) => {
                return Err(e);
            },
        };
        if value == FatValue::Free {
            count = count + 1;
        }
        c = c + 1;
    }
    Ok(count)
}

impl FatValue {
    /// Read and classify cluster `cluster`'s FAT slot.
    pub fn get<T: BlockDevice>(fs: &FatFileSystem<T>, cluster: Cluster) -> (r: Result<
        FatValue,
        FileSystemError,
    >)
        requires
            fs.wf(),
            cluster.0 < fs.cluster_count(),
        ensures
            (r matches Ok(v) ==> v == fs.fat_entry(cluster.0 as int)),
            (r matches Err(e) ==> e == FileSystemError::ReadFailed),
            fs.device_ok() ==> r is Ok,
    {
        let ghost c = cluster.0 as int;
        proof {
            reveal(spec_fat_raw_at);
            fs.lemma_fat_addressing(c);
            fs.lemma_volume_layout();
        }
        let fat_block_index = cluster.to_fat_block_index(fs);
        let block = match fs.block_device.read(fs.partition_start.0, fat_block_index.0) {
            Ok(b) => b,
            Err(_) => {
                return Err(FileSystemError::ReadFailed);
            },
        };
        let offset = (cluster.to_fat_offset() % 512) as usize;
        let raw = block.read_u32_le(offset);
        let masked = raw % 0x1000_0000;
        let cluster_count = fs.boot_record.cluster_count;
        let value = if masked == 0 {
            FatValue::Free
        } else if masked == 0x0FFF_FFF7 {
            FatValue::Bad
        } else if masked >= 0x0FFF_FFF8 {
            FatValue::EndOfChain
        } else if 2 <= masked && masked < cluster_count {
            FatValue::Data(masked)
        } else {
            FatValue::Reserved
        };
        proof {
            lemma_mod_bound(raw as int, 0x1000_0000);
        }
        Ok(value)
    }

    /// Write `value` into cluster `cluster`'s FAT slot, preserving the slot's
    /// reserved high nibble and every other byte of the FAT.
    pub fn put<T: BlockDevice>(
        fs: &mut FatFileSystem<T>,
        cluster: Cluster,
        value: FatValue,
    ) -> (r: Result<(), FileSystemError>)
        requires
            old(fs).wf(),
            cluster.0 < old(fs).cluster_count(),
        ensures
            final(fs).wf(),
            old(fs).same_geometry(*final(fs)),
            final(fs).fat_info == old(fs).fat_info,
            final(fs).boot_record == old(fs).boot_record,
            (r matches Err(e) ==> (e == FileSystemError::ReadFailed
                || e == FileSystemError::WriteFailed)),
            r is Err ==> final(fs).block_device.blocks() == old(fs).block_device.blocks(),
            r is Ok ==> fat_put_post(*old(fs), *final(fs), cluster.0 as int, value),
            old(fs).device_ok() ==> r is Ok,
            final(fs).device_ok() == old(fs).device_ok(),
    {
        let ghost c = cluster.0 as int;
        let ghost pre = *old(fs);
        proof {
            reveal(spec_fat_raw_at);
            pre.lemma_fat_addressing(c);
            pre.lemma_volume_layout();
        }
        let fat_block_index = cluster.to_fat_block_index(fs);
        let offset = (cluster.to_fat_offset() % 512) as usize;

        let mut block = match fs.block_device.read(fs.partition_start.0, fat_block_index.0) {
            Ok(b) => b,
            Err(_) => {
                return Err(FileSystemError::ReadFailed);
            },
        };
        let raw_old = block.read_u32_le(offset);
        let enc: u32 = match value {
            FatValue::Free => 0,
            FatValue::Data(next) => next,
            FatValue::Bad => 0x0FFF_FFF7,
            FatValue::Reserved => 1,
            FatValue::EndOfChain => 0x0FFF_FFFF,
        };
        let new_raw = (raw_old / 0x1000_0000) * 0x1000_0000 + enc % 0x1000_0000;
        block.write_u32_le(offset, new_raw);
        match fs.block_device.write(&block, fs.partition_start.0, fat_block_index.0) {
            Ok(_) => {
                proof {
                    let post = *fs;
                    let abs = pre.fat_block_abs(c);
                    lemma_mod_bound(enc as int, 0x1000_0000);
                    lemma_fundamental_div_mod_converse(
                        new_raw as int,
                        0x1000_0000,
                        raw_old as int / 0x1000_0000,
                        enc as int % 0x1000_0000,
                    );
                    assert(post.disk_block(abs) == block@);
                    assert(pre.disk_block(abs) == pre.block_device.blocks()[abs]);
                    assert(post.fat_raw(c) == new_raw as int);
                    assert(post.fat_entry(c) == spec_classify(
                        spec_encode(value) % 0x1000_0000,
                        pre.cluster_count(),
                    ));
                    if spec_storable(value, pre.cluster_count()) {
                        lemma_encode_classify(value, pre.cluster_count());
                    }
                    assert forall|c2: int|
                        0 <= c2 < pre.cluster_count() && c2 != c
                        implies post.fat_entry(c2) == pre.fat_entry(c2) by {
                        pre.lemma_fat_addressing(c2);
                        pre.lemma_fat_slots_distinct(c, c2);
                        let abs2 = pre.fat_block_abs(c2);
                        let off2 = spec_fat_byte_of(c2);
                        if abs2 == abs {
                            assert(forall|j: int| 0 <= j < 512 && !(offset <= j < offset + 4)
                                ==> block@[j] == pre.disk_block(abs)[j]);
                            assert(post.disk_block(abs2)[off2] == pre.disk_block(abs2)[off2]);
                            assert(post.disk_block(abs2)[off2 + 1] == pre.disk_block(abs2)[off2
                                + 1]);
                            assert(post.disk_block(abs2)[off2 + 2] == pre.disk_block(abs2)[off2
                                + 2]);
                            assert(post.disk_block(abs2)[off2 + 3] == pre.disk_block(abs2)[off2
                                + 3]);
                        } else {
                            assert(post.disk_block(abs2) == pre.disk_block(abs2));
                        }
                        assert(post.fat_raw(c2) == pre.fat_raw(c2));
                    }
                }
                Ok(())
            },
            Err(_) => Err(FileSystemError::WriteFailed),
        }
    }
}

} // verus!
