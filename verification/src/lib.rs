//! A read/write driver for the FAT32 on-disk filesystem over a sector-addressed
//! block device: boot record interpretation, the File Allocation Table as a
//! cluster chain store, the FS Info hint block, directory entry iteration, and
//! the MBR partition entry point.

use vstd::prelude::*;

pub mod block;
pub mod block_iter;
pub mod chain;
pub mod cluster;
pub mod datetime;
pub mod directory;
pub mod error;
pub mod filesystem;
pub mod table;

use crate::block::{spec_le16, spec_le32, Block, BlockCount, BlockDevice, BlockIndex};
use crate::error::FileSystemError;
use crate::filesystem::{
    spec_loaded_free_cluster, spec_loaded_last_cluster, FatFileSystem,
};

verus! {

/// Represent FAT filesystem types.
#[derive(Debug, Clone, Copy, PartialEq, Eq, Structural)]
pub enum FatFsType {
    /// FAT12 volume.
    Fat12,
    /// FAT16 volume.
    Fat16,
    /// FAT32 volume.
    Fat32,
    /// EXFAT volume.
    ExFat,
}

/// Bytes per block, from offset 11 of the boot sector.
pub open spec fn spec_bytes_per_block(s: Seq<u8>) -> int {
    spec_le16(s, 11)
}

/// Blocks per cluster, from offset 13.
pub open spec fn spec_blocks_per_cluster(s: Seq<u8>) -> int {
    s[13] as int
}

/// Reserved block count, from offset 14.
pub open spec fn spec_reserved_block_count(s: Seq<u8>) -> int {
    spec_le16(s, 14)
}

/// Number of FAT copies, from offset 16.
pub open spec fn spec_fats_count(s: Seq<u8>) -> int {
    s[16] as int
}

/// Root-directory entry count, from offset 17 (FAT12/16 only).
pub open spec fn spec_root_dir_childs_count(s: Seq<u8>) -> int {
    spec_le16(s, 17)
}

/// 16-bit total block count, from offset 19; zero means use the 32-bit field.
pub open spec fn spec_total_blocks16(s: Seq<u8>) -> int {
    spec_le16(s, 19)
}

/// Media type byte, at offset 21.
pub open spec fn spec_media_type(s: Seq<u8>) -> int {
    s[21] as int
}

/// 16-bit FAT size in blocks, from offset 22; zero means use the 32-bit field.
pub open spec fn spec_fat_size16(s: Seq<u8>) -> int {
    spec_le16(s, 22)
}

/// Physical blocks per track, from offset 24.
pub open spec fn spec_blocks_per_track(s: Seq<u8>) -> int {
    spec_le16(s, 24)
}

/// Number of heads, from offset 26.
pub open spec fn spec_num_heads(s: Seq<u8>) -> int {
    spec_le16(s, 26)
}

/// Hidden block count, from offset 28.
pub open spec fn spec_hidden_blocks(s: Seq<u8>) -> int {
    spec_le32(s, 28)
}

/// 32-bit total block count, from offset 32.
pub open spec fn spec_total_blocks32(s: Seq<u8>) -> int {
    spec_le32(s, 32)
}

/// 32-bit FAT size in blocks, from offset 36 (FAT32 only).
pub open spec fn spec_fat_size32(s: Seq<u8>) -> int {
    spec_le32(s, 36)
}

/// Root directory start cluster, from offset 44 (FAT32 only).
pub open spec fn spec_root_dir_childs_cluster(s: Seq<u8>) -> int {
    spec_le32(s, 44)
}

/// FS Info block index, from offset 48 (FAT32 only).
pub open spec fn spec_fs_info_block(s: Seq<u8>) -> int {
    spec_le16(s, 48)
}

/// FAT size in blocks: the 16-bit field when nonzero, else the 32-bit field.
pub open spec fn spec_fat_size(s: Seq<u8>) -> int {
    if spec_fat_size16(s) != 0 {
        spec_fat_size16(s)
    } else {
        spec_fat_size32(s)
    }
}

/// Total block count: the 16-bit field when nonzero, else the 32-bit field.
pub open spec fn spec_total_blocks(s: Seq<u8>) -> int {
    if spec_total_blocks16(s) != 0 {
        spec_total_blocks16(s)
    } else {
        spec_total_blocks32(s)
    }
}

/// Blocks occupied by the FAT12/16 root directory region, rounded up.
pub open spec fn spec_root_dir_blocks(s: Seq<u8>) -> int {
    (spec_root_dir_childs_count(s) * 32 + spec_bytes_per_block(s) - 1) / spec_bytes_per_block(s)
}

/// Blocks of the data region: everything after the reserved blocks, the FAT
/// copies and the root directory region.
pub open spec fn spec_data_blocks(s: Seq<u8>) -> int {
    spec_total_blocks(s) - (spec_reserved_block_count(s) + spec_fats_count(s) * spec_fat_size(s)
        + spec_root_dir_blocks(s))
}

/// Data clusters of the volume, before the two reserved slots are counted.
pub open spec fn spec_raw_cluster_count(s: Seq<u8>) -> int {
    spec_data_blocks(s) / spec_blocks_per_cluster(s)
}

/// Cluster count as the driver holds it: data clusters plus the reserved
/// clusters 0 and 1.
pub open spec fn spec_cluster_count(s: Seq<u8>) -> int {
    spec_raw_cluster_count(s) + 2
}

/// Volume variant, classified from the data cluster count.
pub open spec fn spec_fat_type(s: Seq<u8>) -> FatFsType {
    if spec_raw_cluster_count(s) < 4085 {
        FatFsType::Fat12
    } else if spec_raw_cluster_count(s) < 65525 {
        FatFsType::Fat16
    } else {
        FatFsType::Fat32
    }
}

/// The geometry arithmetic of the boot sector is well defined: divisors are
/// nonzero, the metadata region fits inside the volume, and the cluster count
/// fits a 32-bit integer.
pub open spec fn spec_boot_arith_ok(s: Seq<u8>) -> bool {
    &&& s.len() == 512
    &&& spec_bytes_per_block(s) >= 1
    &&& spec_blocks_per_cluster(s) >= 1
    &&& spec_reserved_block_count(s) + spec_fats_count(s) * spec_fat_size(s)
        + spec_root_dir_blocks(s) <= spec_total_blocks(s)
    &&& spec_cluster_count(s) <= 0xFFFF_FFFF
}

/// Boot record validation: boot signature, jump byte, system identifier and
/// sector size.
pub open spec fn spec_boot_record_valid(s: Seq<u8>) -> bool {
    &&& spec_le16(s, 510) == 0xAA55
    &&& (s[0] == 0xE9 || s[0] == 0xEB || s[0] == 0xE8)
    &&& ((s[36] == 0x46 && s[37] == 0x41 && s[38] == 0x54)
        || (s[82] == 0x46 && s[83] == 0x41 && s[84] == 0x54 && s[85] == 0x33 && s[86] == 0x32))
    &&& spec_bytes_per_block(s) == 512
}

/// Represent the FAT Volume BootRecord.
pub struct FatVolumeBootRecord {
    /// The actual data of the boot record.
    pub data: Block,

    /// The type of FAT filesystem.
    pub fat_type: FatFsType,

    /// The count of cluster available in the filesystem.
    pub cluster_count: u32,
}

impl FatVolumeBootRecord {
    /// The raw bytes of the boot sector.
    pub open spec fn bytes(self) -> Seq<u8> {
        self.data@
    }

    /// A boot record is well formed when its sector is full-sized, its
    /// arithmetic is well defined, and its derived fields agree with its bytes.
    pub open spec fn wf(self) -> bool {
        &&& self.data.wf()
        &&& spec_boot_arith_ok(self.bytes())
        &&& self.fat_type == spec_fat_type(self.bytes())
        &&& self.cluster_count as int == spec_cluster_count(self.bytes())
    }

    /// Create a new FAT volume boot record from raw data.
    pub fn new(data: Block) -> (r: FatVolumeBootRecord)
        requires
            data.wf(),
            spec_boot_arith_ok(data@),
        ensures
            r.wf(),
            r.bytes() == data@,
    {
        let mut res = FatVolumeBootRecord {
            data,
            fat_type: FatFsType::Fat12,
            cluster_count: 0,
        };

        let bytes_per_block = res.bytes_per_block() as u32;
        let root_dir_blocks =
            ((res.root_dir_childs_count() as u32) * 32 + (bytes_per_block - 1)) / bytes_per_block;
        let meta_blocks: u64 = res.reserved_block_count() as u64
            + (res.fats_count() as u64) * (res.fat_size() as u64)
            + root_dir_blocks as u64;
        let data_blocks: u32 = (res.total_blocks() as u64 - meta_blocks) as u32;
        let cluster_count = data_blocks / (res.blocks_per_cluster() as u32);
        if cluster_count < 4085 {
            res.fat_type = FatFsType::Fat12;
        } else if cluster_count < 65525 {
            res.fat_type = FatFsType::Fat16;
        } else {
            res.fat_type = FatFsType::Fat32;
        }
        res.cluster_count = cluster_count + 2;

        res
    }

    /// Checks the validity of the boot record.
    pub fn is_valid(&self) -> (r: bool)
        requires
            self.data.wf(),
        ensures
            r == spec_boot_record_valid(self.bytes()),
    {
        // check boot signature
        if self.data.read_u16_le(510) != 0xAA55 {
            return false;
        }

        // check jump code
        let jump = self.data.read_u8(0);
        if jump != 0xE9 && jump != 0xEB && jump != 0xE8 {
            return false;
        }

        // check system identifier: "FAT" at offset 36 or "FAT32" at offset 82
        let fat_id = self.data.read_u8(36) == 0x46 && self.data.read_u8(37) == 0x41
            && self.data.read_u8(38) == 0x54;
        let fat32_id = self.data.read_u8(82) == 0x46 && self.data.read_u8(83) == 0x41
            && self.data.read_u8(84) == 0x54 && self.data.read_u8(85) == 0x33
            && self.data.read_u8(86) == 0x32;
        if !fat_id && !fat32_id {
            return false;
        }

        if self.bytes_per_block() != 512 {
            return false;
        }

        true
    }

    /// The amount of bytes per block.
    pub fn bytes_per_block(&self) -> (r: u16)
        requires
            self.data.wf(),
        ensures
            r as int == spec_bytes_per_block(self.bytes()),
    {
        self.data.read_u16_le(11)
    }

    /// The amount of blocks per cluster.
    pub fn blocks_per_cluster(&self) -> (r: u8)
        requires
            self.data.wf(),
        ensures
            r as int == spec_blocks_per_cluster(self.bytes()),
    {
        self.data.read_u8(13)
    }

    /// The count of reserved block.
    pub fn reserved_block_count(&self) -> (r: u16)
        requires
            self.data.wf(),
        ensures
            r as int == spec_reserved_block_count(self.bytes()),
    {
        self.data.read_u16_le(14)
    }

    /// The number of FAT present in the filesystem.
    pub fn fats_count(&self) -> (r: u8)
        requires
            self.data.wf(),
        ensures
            r as int == spec_fats_count(self.bytes()),
    {
        self.data.read_u8(16)
    }

    /// The number of childs in the root directory for FAT12/FAT16 filesystem.
    pub fn root_dir_childs_count(&self) -> (r: u16)
        requires
            self.data.wf(),
        ensures
            r as int == spec_root_dir_childs_count(self.bytes()),
    {
        self.data.read_u16_le(17)
    }

    /// The total of blocks of the filesystem. If zero, uses ``total_blocks32``.
    pub fn total_blocks16(&self) -> (r: u16)
        requires
            self.data.wf(),
        ensures
            r as int == spec_total_blocks16(self.bytes()),
    {
        self.data.read_u16_le(19)
    }

    /// Return the media type of the FAT filesystem.
    pub fn media_type(&self) -> (r: u8)
        requires
            self.data.wf(),
        ensures
            r as int == spec_media_type(self.bytes()),
    {
        self.data.read_u8(21)
    }

    /// Return the size in cluster of the FAT for FAT12/FAT16 filesystems.
    pub fn fat_size16(&self) -> (r: u16)
        requires
            self.data.wf(),
        ensures
            r as int == spec_fat_size16(self.bytes()),
    {
        self.data.read_u16_le(22)
    }

    /// Physical blocks per track (INT 13h CHS geometry). Zero if unused.
    pub fn blocks_per_track(&self) -> (r: u16)
        requires
            self.data.wf(),
        ensures
            r as int == spec_blocks_per_track(self.bytes()),
    {
        self.data.read_u16_le(24)
    }

    /// Number of heads (INT 13h CHS geometry). Zero if unused.
    pub fn num_heads(&self) -> (r: u16)
        requires
            self.data.wf(),
        ensures
            r as int == spec_num_heads(self.bytes()),
    {
        self.data.read_u16_le(26)
    }

    /// The number of hidden blocks on the FAT filesystem.
    pub fn hidden_blocks(&self) -> (r: u32)
        requires
            self.data.wf(),
        ensures
            r as int == spec_hidden_blocks(self.bytes()),
    {
        self.data.read_u32_le(28)
    }

    /// The total block count on a FAT32 filesystem.
    pub fn total_blocks32(&self) -> (r: u32)
        requires
            self.data.wf(),
        ensures
            r as int == spec_total_blocks32(self.bytes()),
    {
        self.data.read_u32_le(32)
    }

    /// Return the size in cluster of the FAT for FAT32 filesystems.
    pub fn fat_size32(&self) -> (r: u32)
        requires
            self.data.wf(),
        ensures
            r as int == spec_fat_size32(self.bytes()),
    {
        self.data.read_u32_le(36)
    }

    /// The block index of the FAT32's filesystem informations.
    pub fn fs_info_block(&self) -> (r: u16)
        requires
            self.data.wf(),
        ensures
            r as int == spec_fs_info_block(self.bytes()),
    {
        self.data.read_u16_le(48)
    }

    /// The root directory cluster for FAT32 filesystems.
    pub fn root_dir_childs_cluster(&self) -> (r: crate::cluster::Cluster)
        requires
            self.data.wf(),
        ensures
            r.0 as int == spec_root_dir_childs_cluster(self.bytes()),
    {
        crate::cluster::Cluster(self.data.read_u32_le(44))
    }

    /// Return the size in cluster of the FAT.
    pub fn fat_size(&self) -> (r: u32)
        requires
            self.data.wf(),
        ensures
            r as int == spec_fat_size(self.bytes()),
    {
        let result = self.fat_size16() as u32;
        if result != 0 {
            result
        } else {
            self.fat_size32()
        }
    }

    /// The total block count on a FAT filesystem.
    pub fn total_blocks(&self) -> (r: u32)
        requires
            self.data.wf(),
        ensures
            r as int == spec_total_blocks(self.bytes()),
    {
        let result = self.total_blocks16() as u32;
        if result != 0 {
            result
        } else {
            self.total_blocks32()
        }
    }
}

/// A boot sector that can be mounted as FAT32: arithmetic and validation pass,
/// the variant is FAT32, the FS Info block sits inside the reserved region, the
/// FAT covers every slot and ends before the data region, and the volume fits
/// its partition when the partition's length is known.
pub open spec fn spec_mountable(s: Seq<u8>, partition_block_count: u32) -> bool {
    &&& spec_boot_arith_ok(s)
    &&& spec_boot_record_valid(s)
    &&& spec_fat_type(s) == FatFsType::Fat32
    &&& spec_fats_count(s) >= 1
    &&& spec_reserved_block_count(s) >= 1
    &&& 1 <= spec_fs_info_block(s) < spec_reserved_block_count(s)
    &&& spec_cluster_count(s) <= 0x0FFF_FFF6
    &&& spec_cluster_count(s) * 4 <= spec_fat_size(s) * 512
    &&& (partition_block_count != 0 ==> spec_total_blocks(s) <= partition_block_count as int)
}

/// What parsing a boot record at `partition_start` establishes of its result.
pub open spec fn spec_parse_post<T: BlockDevice>(
    r: Result<FatFileSystem<T>, FileSystemError>,
    block_device: T,
    partition_start: u32,
    partition_block_count: u32,
) -> bool {
    &&& (r matches Ok(fs) ==> {
        let s = fs.boot_record.bytes();
        &&& fs.wf()
        &&& fs.block_device.blocks() == block_device.blocks()
        &&& fs.block_device.infallible() == block_device.infallible()
        &&& fs.partition_start.0 == partition_start
        &&& fs.partition_block_count.0 == partition_block_count
        &&& partition_start < block_device.blocks().len()
        &&& s == block_device.blocks()[partition_start as int]
        &&& spec_mountable(s, partition_block_count)
        &&& fs.first_data_offset.0 as int == spec_reserved_block_count(s) + spec_fats_count(s)
            * spec_fat_size(s)
        &&& fs.fat_info.last_cluster as int == spec_loaded_last_cluster(
            fs.disk_block(fs.fs_info_abs()),
            fs.cluster_count(),
        )
        &&& (spec_loaded_free_cluster(fs.disk_block(fs.fs_info_abs()), fs.cluster_count())
            != 0xFFFF_FFFF ==> fs.fat_info.free_cluster as int == spec_loaded_free_cluster(
            fs.disk_block(fs.fs_info_abs()),
            fs.cluster_count(),
        ))
        &&& (spec_loaded_free_cluster(fs.disk_block(fs.fs_info_abs()), fs.cluster_count())
            == 0xFFFF_FFFF ==> fs.counts_accurate())
    })
    &&& (r matches Err(e) ==> e == FileSystemError::ReadFailed || e
        == FileSystemError::InvalidPartition || e is Custom)
    &&& (partition_start < block_device.blocks().len() && block_device.infallible() ==> {
        let s = block_device.blocks()[partition_start as int];
        &&& (!(spec_boot_arith_ok(s) && spec_boot_record_valid(s)) ==> r
            == Err::<FatFileSystem<T>, FileSystemError>(FileSystemError::InvalidPartition))
        &&& (spec_boot_arith_ok(s) && spec_boot_record_valid(s) && spec_fat_type(s)
            != FatFsType::Fat32 ==> (r matches Err(e) && e is Custom))
        &&& (spec_boot_arith_ok(s) && spec_boot_record_valid(s) && spec_fat_type(s)
            == FatFsType::Fat32 && !spec_mountable(s, partition_block_count) ==> r
            == Err::<FatFileSystem<T>, FileSystemError>(FileSystemError::InvalidPartition))
        &&& (spec_mountable(s, partition_block_count) && partition_start + spec_total_blocks(s)
            <= block_device.blocks().len() ==> r is Ok)
    })
}

/// The boot sector's geometry arithmetic is well defined (divisors nonzero, no
/// underflow of the data region, cluster count within 32 bits).
fn boot_record_arith_ok(data: &Block) -> (r: bool)
    requires
        data.wf(),
    ensures
        r == spec_boot_arith_ok(data@),
{
    let bytes_per_block = data.read_u16_le(11);
    if bytes_per_block < 1 {
        return false;
    }
    let blocks_per_cluster = data.read_u8(13);
    if blocks_per_cluster < 1 {
        return false;
    }
    let root_count = data.read_u16_le(17) as u32;
    let root_blocks = (root_count * 32 + (bytes_per_block as u32 - 1)) / bytes_per_block as u32;
    let fat_size16 = data.read_u16_le(22);
    let fat_size: u32 = if fat_size16 != 0 {
        fat_size16 as u32
    } else {
        data.read_u32_le(36)
    };
    let total16 = data.read_u16_le(19);
    let total: u32 = if total16 != 0 {
        total16 as u32
    } else {
        data.read_u32_le(32)
    };
    let fats: u64 = data.read_u8(16) as u64;
    let fat_size64: u64 = fat_size as u64;
    proof {
        assert(fats * fat_size64 <= 255 * 0xFFFF_FFFFu64) by (nonlinear_arith)
            requires
                fats <= 255,
                fat_size64 <= 0xFFFF_FFFF,
        ;
    }
    let meta: u64 = data.read_u16_le(14) as u64 + fats * fat_size64 + root_blocks as u64;
    if meta > total as u64 {
        return false;
    }
    let raw: u64 = (total as u64 - meta) / (blocks_per_cluster as u64);
    if raw + 2 > 0xFFFF_FFFF {
        return false;
    }
    true
}

/// Parse a FAT boot record and return a FatFileSystem instance.
pub fn parse_fat_boot_record<T: BlockDevice>(
    block_device: T,
    partition_start: BlockIndex,
    partition_block_count: BlockCount,
) -> (r: Result<FatFileSystem<T>, FileSystemError>)
    requires
        block_device.wf(),
    ensures
        spec_parse_post(r, block_device, partition_start.0, partition_block_count.0),
{
    let block = match block_device.read(partition_start.0, 0) {
        Ok(b) => b,
        Err(_) => {
            return Err(FileSystemError::ReadFailed);
        },
    };

    if !boot_record_arith_ok(&block) {
        return Err(FileSystemError::InvalidPartition);
    }

    let boot_record = FatVolumeBootRecord::new(block);

    if !boot_record.is_valid() {
        return Err(FileSystemError::InvalidPartition);
    }

    match boot_record.fat_type {
        FatFsType::Fat12 | FatFsType::Fat16 | FatFsType::ExFat => Err(
            FileSystemError::Custom { name: "unsupported filesystem variant" },
        ),
        FatFsType::Fat32 => {
            let reserved = boot_record.reserved_block_count();
            let fats = boot_record.fats_count();
            let fat_size = boot_record.fat_size();
            let cluster_count = boot_record.cluster_count;
            let fs_info = boot_record.fs_info_block();

            if fats < 1 || reserved < 1 {
                return Err(FileSystemError::InvalidPartition);
            }
            if fs_info < 1 || fs_info as u32 >= reserved as u32 {
                return Err(FileSystemError::InvalidPartition);
            }
            if cluster_count > 0x0FFF_FFF6 {
                return Err(FileSystemError::InvalidPartition);
            }
            if (cluster_count as u64) * 4 > (fat_size as u64) * 512 {
                return Err(FileSystemError::InvalidPartition);
            }
            if partition_block_count.0 != 0 && boot_record.total_blocks()
                > partition_block_count.0 {
                return Err(FileSystemError::InvalidPartition);
            }

            let first_data_offset: u64 = reserved as u64 + (fats as u64) * (fat_size as u64);
            let mut file_system = FatFileSystem::new(
                block_device,
                partition_start,
                BlockIndex(first_data_offset as u32),
                partition_block_count,
                boot_record,
            );
            assert(file_system.wf());
            match file_system.init() {
                Ok(_) => Ok(file_system),
                Err(e) => Err(e),
            }
        },
    }
}

/// Treat the block device directly as a filesystem.
pub fn get_raw_partition<T: BlockDevice>(block_device: T) -> (r: Result<
    FatFileSystem<T>,
    FileSystemError,
>)
    requires
        block_device.wf(),
    ensures
        spec_parse_post(r, block_device, 0, 0),
{
    parse_fat_boot_record(block_device, BlockIndex(0), BlockCount(0))
}

/// Start block of MBR partition entry `index`, from the partition table.
pub open spec fn spec_partition_start(mbr: Seq<u8>, index: int) -> int {
    spec_le32(mbr, 446 + 16 * index + 8)
}

/// Block count of MBR partition entry `index`.
pub open spec fn spec_partition_count(mbr: Seq<u8>, index: int) -> int {
    spec_le32(mbr, 446 + 16 * index + 12)
}

/// Type byte of MBR partition entry `index`.
pub open spec fn spec_partition_type(mbr: Seq<u8>, index: int) -> int {
    mbr[446 + 16 * index + 4] as int
}

/// The status byte of MBR partition entry `index` is 0x00 or 0x80: its low
/// seven bits are clear.
pub open spec fn spec_partition_status_ok(mbr: Seq<u8>, index: int) -> bool {
    mbr[446 + 16 * index] & 0x7F == 0
}

/// Parse the MBR and return an instance to a filesystem at the given partition index.
pub fn get_partition<T: BlockDevice>(block_device: T, index: BlockIndex) -> (r: Result<
    FatFileSystem<T>,
    FileSystemError,
>)
    requires
        block_device.wf(),
    ensures
        (r matches Err(e) ==> e == FileSystemError::ReadFailed || e
            == FileSystemError::InvalidPartition || e == FileSystemError::PartitionNotFound || e
            is Custom),
        (0 < block_device.blocks().len() ==> {
            let mbr = block_device.blocks()[0];
            &&& (block_device.infallible() && spec_le16(mbr, 510) != 0xAA55 ==> r
                == Err::<FatFileSystem<T>, FileSystemError>(FileSystemError::InvalidPartition))
            &&& (block_device.infallible() && spec_le16(mbr, 510) == 0xAA55 && index.0 >= 4 ==> r
                == Err::<FatFileSystem<T>, FileSystemError>(FileSystemError::PartitionNotFound))
            &&& (block_device.infallible() && spec_le16(mbr, 510) == 0xAA55 && index.0 < 4
                && !spec_partition_status_ok(mbr, index.0 as int) ==> r
                == Err::<FatFileSystem<T>, FileSystemError>(FileSystemError::InvalidPartition))
            &&& (block_device.infallible() && spec_le16(mbr, 510) == 0xAA55 && index.0 < 4
                && spec_partition_status_ok(mbr, index.0 as int) && spec_partition_type(
                mbr,
                index.0 as int,
            ) != 0x0C ==> (r matches Err(e) && e is Custom))
            &&& (spec_le16(mbr, 510) == 0xAA55 && index.0 < 4 && spec_partition_status_ok(
                mbr,
                index.0 as int,
            ) && spec_partition_type(mbr, index.0 as int) == 0x0C ==> spec_parse_post(
                r,
                block_device,
                spec_partition_start(mbr, index.0 as int) as u32,
                spec_partition_count(mbr, index.0 as int) as u32,
            ))
        }),
{
    let block = match block_device.raw_read(0) {
        Ok(b) => b,
        Err(_) => {
            return Err(FileSystemError::ReadFailed);
        },
    };

    if block.read_u16_le(510) != 0xAA55 {
        return Err(FileSystemError::InvalidPartition);
    }

    if index.0 >= 4 {
        return Err(FileSystemError::PartitionNotFound);
    }

    let offset: usize = 446 + 16 * (index.0 as usize);

    if (block.read_u8(offset) & 0x7F) != 0 {
        return Err(FileSystemError::InvalidPartition);
    }

    let partition_start = block.read_u32_le(offset + 8);
    let partition_block_count = block.read_u32_le(offset + 12);
    let partition_type = block.read_u8(offset + 4);

    match partition_type {
        0x0C => parse_fat_boot_record(
            block_device,
            BlockIndex(partition_start),
            BlockCount(partition_block_count),
        ),
        _ => Err(FileSystemError::Custom { name: "unknown partition type" }),
    }
}

} // verus!
