//! End-to-end tests against an in-memory block device.

use libfat::block::{Block, BlockIndex, RamDisk};
use libfat::block_iter::ClusterIter;
use libfat::cluster::Cluster;
use libfat::directory::raw_dir_entry_iterator::FatDirEntryIterator;
use libfat::error::FileSystemError;
use libfat::filesystem::{FatFileSystem, FatFileSystemInfo};
use libfat::table::{get_free_cluster_count, FatValue};
use libfat::{get_partition, get_raw_partition};

// A small FAT32 volume: one block per cluster, 32 reserved blocks, two FAT
// copies of 512 blocks each, and just enough data blocks to classify as FAT32.
const SMALL_RESERVED: u32 = 32;
const SMALL_FAT_SIZE: u32 = 512;
const SMALL_TOTAL: u32 = 32 + 2 * 512 + 65525;
const SMALL_CC: u32 = 65525 + 2;
const SMALL_FDO: u32 = 32 + 2 * 512;

fn boot_sector(
    blocks_per_cluster: u8,
    reserved: u16,
    num_fats: u8,
    fat_size32: u32,
    total32: u32,
    root_cluster: u32,
    fs_info_block: u16,
) -> Block {
    let mut b = Block::new();
    b.write_u8(0, 0xEB);
    b.write_u16_le(11, 512);
    b.write_u8(13, blocks_per_cluster);
    b.write_u16_le(14, reserved);
    b.write_u8(16, num_fats);
    b.write_u16_le(17, 0);
    b.write_u16_le(19, 0);
    b.write_u16_le(22, 0);
    b.write_u32_le(32, total32);
    b.write_u32_le(36, fat_size32);
    b.write_u32_le(44, root_cluster);
    b.write_u16_le(48, fs_info_block);
    b.write_u8(82, 0x46);
    b.write_u8(83, 0x41);
    b.write_u8(84, 0x54);
    b.write_u8(85, 0x33);
    b.write_u8(86, 0x32);
    b.write_u16_le(510, 0xAA55);
    b
}

fn fs_info_sector(free: u32, last: u32) -> Block {
    let mut b = Block::new();
    b.write_u32_le(0, 0x4161_5252);
    b.write_u32_le(0x1e4, 0x6141_7272);
    b.write_u32_le(0x1e8, free);
    b.write_u32_le(0x1ec, last);
    b.write_u16_le(0x1fe, 0xAA55);
    b
}

/// A freshly formatted small volume with a valid FS Info block.
fn small_image() -> RamDisk {
    let mut disk = RamDisk::new(SMALL_TOTAL);
    disk.sectors[0] = boot_sector(1, SMALL_RESERVED as u16, 2, SMALL_FAT_SIZE, SMALL_TOTAL, 2, 1);
    disk.sectors[1] = fs_info_sector(SMALL_CC - 2, 0xFFFF_FFFF);
    disk
}

fn mount_small() -> FatFileSystem<RamDisk> {
    get_raw_partition(small_image()).unwrap()
}

#[test]
fn mount_fresh_fat32_image() {
    // A 64 MiB image: 131072 sectors of 512 bytes, 32 reserved blocks, two FAT
    // copies of 1024 blocks, root directory at cluster 2, FS Info at block 1.
    let mut disk = RamDisk::new(131072);
    disk.sectors[0] = boot_sector(1, 32, 2, 1024, 131072, 2, 1);
    let cc = (131072 - 32 - 2048) + 2;
    disk.sectors[1] = fs_info_sector(cc - 2, 0xFFFF_FFFF);

    let fs = get_raw_partition(disk).unwrap();
    assert_eq!(fs.first_data_offset, BlockIndex(32 + 2 * 1024));
    assert_eq!(fs.boot_record.cluster_count, cc);
    let root = fs.get_root_directory();
    assert_eq!(root.dir_info.start_cluster, Cluster(2));
    assert!(root.dir_info.raw_info.is_none());
    assert_eq!(fs.fat_info.free_cluster, cc - 2);
}

#[test]
fn small_data_cluster_count_is_not_fat32() {
    // 131072 sectors with eight blocks per cluster and 128-block FATs yield
    // 16348 data clusters, which classifies as FAT16 and is not mountable.
    let mut disk = RamDisk::new(4);
    disk.sectors[0] = boot_sector(8, 32, 2, 128, 131072, 2, 1);
    match get_raw_partition(disk) {
        Err(FileSystemError::Custom { .. }) => {},
        Err(e) => panic!("expected the unsupported-variant error, got {:?}", e),
        Ok(_) => panic!("expected the unsupported-variant error, got a filesystem"),
    }
}

#[test]
fn boot_record_rejection_on_invalid_jump() {
    // Byte 0 = 0x00 fails validation even though the 0xAA55 signature holds.
    let mut disk = RamDisk::new(4);
    let mut boot = boot_sector(1, SMALL_RESERVED as u16, 2, SMALL_FAT_SIZE, SMALL_TOTAL, 2, 1);
    boot.write_u8(0, 0x00);
    disk.sectors[0] = boot;
    match get_raw_partition(disk) {
        Err(e) => assert_eq!(e, FileSystemError::InvalidPartition),
        Ok(_) => panic!("expected InvalidPartition, got a filesystem"),
    }
}

#[test]
fn mbr_partition_entry() {
    // One FAT32 LBA partition at entry 0: type 0x0C, start LBA 2048.
    let mut disk = RamDisk::new(2048 + SMALL_TOTAL);
    let mut mbr = Block::new();
    let entry = 446;
    mbr.write_u8(entry, 0x00); // status
    mbr.write_u8(entry + 4, 0x0C); // type: FAT32 LBA
    mbr.write_u32_le(entry + 8, 2048); // start LBA
    mbr.write_u32_le(entry + 12, 131072); // block count
    mbr.write_u16_le(510, 0xAA55);
    disk.sectors[0] = mbr;
    disk.sectors[2048] =
        boot_sector(1, SMALL_RESERVED as u16, 2, SMALL_FAT_SIZE, SMALL_TOTAL, 2, 1);
    disk.sectors[2049] = fs_info_sector(SMALL_CC - 2, 0xFFFF_FFFF);

    let fs = get_partition(disk, BlockIndex(0)).unwrap();
    assert_eq!(fs.partition_start, BlockIndex(2048));

    // Requesting an entry past the four-slot table reports PartitionNotFound.
    let mut disk2 = RamDisk::new(1);
    let mut mbr2 = Block::new();
    mbr2.write_u16_le(510, 0xAA55);
    disk2.sectors[0] = mbr2;
    match get_partition(disk2, BlockIndex(4)) {
        Err(e) => assert_eq!(e, FileSystemError::PartitionNotFound),
        Ok(_) => panic!("expected PartitionNotFound"),
    }
}

#[test]
fn mbr_rejects_bad_status_type_and_signature() {
    // Missing 0xAA55 signature.
    let mut disk = RamDisk::new(1);
    disk.sectors[0] = Block::new();
    match get_partition(disk, BlockIndex(0)) {
        Err(e) => assert_eq!(e, FileSystemError::InvalidPartition),
        Ok(_) => panic!("expected InvalidPartition"),
    }

    // Status byte with a low bit set.
    let mut disk = RamDisk::new(1);
    let mut mbr = Block::new();
    mbr.write_u8(446, 0x01);
    mbr.write_u16_le(510, 0xAA55);
    disk.sectors[0] = mbr;
    match get_partition(disk, BlockIndex(0)) {
        Err(e) => assert_eq!(e, FileSystemError::InvalidPartition),
        Ok(_) => panic!("expected InvalidPartition"),
    }

    // A non-FAT32-LBA partition type.
    let mut disk = RamDisk::new(1);
    let mut mbr = Block::new();
    mbr.write_u8(446 + 4, 0x0B);
    mbr.write_u32_le(446 + 8, 2048);
    mbr.write_u16_le(510, 0xAA55);
    disk.sectors[0] = mbr;
    match get_partition(disk, BlockIndex(0)) {
        Err(FileSystemError::Custom { .. }) => {},
        other => panic!("expected the unknown-partition-type error, got {:?}", other.err()),
    }
}

#[test]
fn fat_value_round_trip() {
    // put followed by get returns the value, for every storable variant.
    let mut fs = mount_small();
    for (c, v) in [
        (2u32, FatValue::Free),
        (3, FatValue::Data(7)),
        (4, FatValue::Bad),
        (5, FatValue::Reserved),
        (6, FatValue::EndOfChain),
    ] {
        FatValue::put(&mut fs, Cluster(c), v).unwrap();
        assert_eq!(FatValue::get(&fs, Cluster(c)).unwrap(), v);
    }
    // A Data link outside the volume does not survive the round trip: it reads
    // back as Reserved.
    FatValue::put(&mut fs, Cluster(7), FatValue::Data(SMALL_CC + 5)).unwrap();
    assert_eq!(FatValue::get(&fs, Cluster(7)).unwrap(), FatValue::Reserved);
}

#[test]
fn fat_put_preserves_high_nibble() {
    let mut fs = mount_small();
    // Plant a raw slot whose reserved high nibble is set: 0xF0000000 reads as
    // Free (the low 28 bits are zero).
    let fat_block = (SMALL_RESERVED + (9 * 4) / 512) as usize;
    let off = ((9 * 4) % 512) as usize;
    fs.block_device.sectors[fat_block].write_u32_le(off, 0xF000_0000);
    assert_eq!(FatValue::get(&fs, Cluster(9)).unwrap(), FatValue::Free);
    // Writing EndOfChain must keep the high nibble: the raw slot becomes
    // 0xFFFFFFFF.
    FatValue::put(&mut fs, Cluster(9), FatValue::EndOfChain).unwrap();
    assert_eq!(fs.block_device.sectors[fat_block].read_u32_le(off), 0xFFFF_FFFF);
    assert_eq!(FatValue::get(&fs, Cluster(9)).unwrap(), FatValue::EndOfChain);
}

#[test]
fn classify_raw_slot_values() {
    let mut fs = mount_small();
    let raw = [
        (10u32, 0x0FFF_FFF7u32, FatValue::Bad),
        (11, 1, FatValue::Reserved),
        (12, SMALL_CC + 10, FatValue::Reserved), // in range of no data cluster
        (13, 0xFFFF_FFF8, FatValue::EndOfChain), // high nibble ignored on read
        (14, 0x0FFF_FFFA, FatValue::EndOfChain),
        (15, 42, FatValue::Data(42)),
    ];
    for (c, v, expect) in raw {
        let fat_block = (SMALL_RESERVED + (c * 4) / 512) as usize;
        let off = ((c * 4) % 512) as usize;
        fs.block_device.sectors[fat_block].write_u32_le(off, v);
        assert_eq!(FatValue::get(&fs, Cluster(c)).unwrap(), expect);
    }
}

#[test]
fn alloc_two_clusters_from_empty_fs_info() {
    let mut fs = mount_small();
    assert_eq!(fs.fat_info.free_cluster, SMALL_CC - 2);

    // The last-allocated hint is unknown, so the search starts at cluster 1
    // and the first probe finds cluster 2.
    let first = fs.alloc_cluster(None).unwrap();
    assert_eq!(first, Cluster(2));
    assert_eq!(FatValue::get(&fs, Cluster(2)).unwrap(), FatValue::EndOfChain);

    // Extending the chain probes the adjacent cluster 3 and links it.
    let second = fs.alloc_cluster(Some(Cluster(2))).unwrap();
    assert_eq!(second, Cluster(3));
    assert_eq!(FatValue::get(&fs, Cluster(2)).unwrap(), FatValue::Data(3));
    assert_eq!(FatValue::get(&fs, Cluster(3)).unwrap(), FatValue::EndOfChain);

    assert_eq!(fs.fat_info.free_cluster, SMALL_CC - 2 - 2);
    assert_eq!(fs.fat_info.last_cluster, 3);

    // Asking to extend a tail that already links onward returns the linked
    // cluster and changes nothing.
    let again = fs.alloc_cluster(Some(Cluster(2))).unwrap();
    assert_eq!(again, Cluster(3));
    assert_eq!(fs.fat_info.free_cluster, SMALL_CC - 2 - 2);
}

#[test]
fn free_two_cluster_chain() {
    let mut fs = mount_small();
    fs.alloc_cluster(None).unwrap();
    fs.alloc_cluster(Some(Cluster(2))).unwrap();
    assert_eq!(fs.fat_info.free_cluster, SMALL_CC - 4);

    fs.free_cluster(Cluster(2), None).unwrap();
    assert_eq!(FatValue::get(&fs, Cluster(2)).unwrap(), FatValue::Free);
    assert_eq!(FatValue::get(&fs, Cluster(3)).unwrap(), FatValue::Free);
    assert_eq!(fs.fat_info.free_cluster, SMALL_CC - 2);

    // A subsequent mount loads the incremented counter back from the FS Info.
    let disk = fs.block_device;
    let fs2 = get_raw_partition(disk).unwrap();
    assert_eq!(fs2.fat_info.free_cluster, SMALL_CC - 2);
}

#[test]
fn free_is_idempotent() {
    let mut fs = mount_small();
    let c = fs.alloc_cluster(None).unwrap();
    fs.free_cluster(c, None).unwrap();
    let counter = fs.fat_info.free_cluster;
    // Freeing an already-free head stops at once and counts nothing.
    fs.free_cluster(c, None).unwrap();
    assert_eq!(fs.fat_info.free_cluster, counter);
    assert_eq!(FatValue::get(&fs, c).unwrap(), FatValue::Free);
}

#[test]
fn alloc_succeeds_while_free_clusters_remain() {
    // Allocation liveness: with a positive, accurate free counter, allocation
    // returns Ok.
    let mut fs = mount_small();
    for _ in 0..8 {
        assert!(fs.fat_info.free_cluster > 0);
        assert!(fs.alloc_cluster(None).is_ok());
    }
    assert_eq!(fs.fat_info.free_cluster, SMALL_CC - 2 - 8);
}

#[test]
fn alloc_reports_no_space_on_a_full_volume() {
    // Fill every FAT slot: 0xFF bytes classify as EndOfChain everywhere.
    let mut disk = small_image();
    let mut full = Block::new();
    for k in 0..512 {
        full.write_u8(k, 0xFF);
    }
    for b in SMALL_RESERVED..(SMALL_RESERVED + SMALL_FAT_SIZE) {
        disk.sectors[b as usize] = full.duplicate();
    }
    // The FS Info still claims five free clusters; the exhaustive search
    // corrects it to no space.
    disk.sectors[1] = fs_info_sector(5, 0xFFFF_FFFF);
    let mut fs = get_raw_partition(disk).unwrap();
    match fs.alloc_cluster(None) {
        Err(e) => assert_eq!(e, FileSystemError::NoSpaceLeft),
        Ok(_) => panic!("expected NoSpaceLeft"),
    }

    // With a zero counter the allocator refuses immediately.
    fs.fat_info.free_cluster = 0;
    match fs.alloc_cluster(None) {
        Err(e) => assert_eq!(e, FileSystemError::NoSpaceLeft),
        Ok(_) => panic!("expected NoSpaceLeft"),
    }
}

#[test]
fn init_recomputes_unknown_free_count() {
    // A corrupt FS Info signature makes both counters unknown; init then
    // recounts the free clusters by scanning the FAT.
    let mut disk = small_image();
    disk.sectors[1] = Block::new(); // no signatures at all
    let fs = get_raw_partition(disk).unwrap();
    assert_eq!(fs.fat_info.free_cluster, SMALL_CC - 2);
    assert_eq!(fs.fat_info.last_cluster, 0xFFFF_FFFF);
    assert_eq!(get_free_cluster_count(&fs).unwrap(), SMALL_CC - 2);

    // Out-of-bounds stored counters are likewise replaced by the sentinel,
    // and the free count is recomputed.
    let mut disk = small_image();
    disk.sectors[1] = fs_info_sector(SMALL_CC + 1, 1);
    let fs2 = get_raw_partition(disk).unwrap();
    assert_eq!(fs2.fat_info.last_cluster, 0xFFFF_FFFF);
    assert_eq!(fs2.fat_info.free_cluster, SMALL_CC - 2);
}

#[test]
fn fs_info_flush_load_round_trip() {
    // An allocation flushes the FS Info; loading it back yields the very
    // counters that were stored.
    let mut fs = mount_small();
    let c = fs.alloc_cluster(None).unwrap();
    let info = FatFileSystemInfo::from_fs(&fs).unwrap();
    assert_eq!(info.last_cluster, c.0);
    assert_eq!(info.free_cluster, SMALL_CC - 3);
}

#[test]
fn directory_iteration_across_cluster_boundary() {
    // One block per cluster, a two-cluster directory chain 2 -> 3: iteration
    // yields exactly 32 records, sixteen per block, and the seventeenth is
    // stamped with cluster 3.
    let mut fs = mount_small();
    FatValue::put(&mut fs, Cluster(2), FatValue::Data(3)).unwrap();
    FatValue::put(&mut fs, Cluster(3), FatValue::EndOfChain).unwrap();

    // Stamp each record's first byte with its position in the stream.
    for (block, base) in [(SMALL_FDO as usize, 0u8), (SMALL_FDO as usize + 1, 16u8)] {
        for e in 0..16u8 {
            fs.block_device.sectors[block].write_u8((e as usize) * 32, base + e);
        }
    }

    let mut iter = FatDirEntryIterator::new(&fs, Cluster(2), BlockIndex(0), 0);
    let mut records = Vec::new();
    while let Some(item) = iter.next() {
        records.push(item.unwrap());
    }
    assert_eq!(records.len(), 32);
    assert_eq!(records[16].cluster, Cluster(3));
    assert_eq!(records[15].cluster, Cluster(2));
    for (i, r) in records.iter().enumerate() {
        assert_eq!(r.first_byte(), i as u8);
        assert_eq!(r.entry_offset, ((i % 16) * 32) as u32);
        assert_eq!(r.block_index, 0);
    }
}

#[test]
fn directory_iteration_seeks_into_a_block() {
    // An offset into the first block makes the cursor start mid-block.
    let mut fs = mount_small();
    FatValue::put(&mut fs, Cluster(2), FatValue::EndOfChain).unwrap();
    for e in 0..16u8 {
        fs.block_device.sectors[SMALL_FDO as usize].write_u8((e as usize) * 32, e);
    }
    let mut iter = FatDirEntryIterator::new(&fs, Cluster(2), BlockIndex(0), 14 * 32);
    let mut records = Vec::new();
    while let Some(item) = iter.next() {
        records.push(item.unwrap());
    }
    assert_eq!(records.len(), 2);
    assert_eq!(records[0].first_byte(), 14);
    assert_eq!(records[1].first_byte(), 15);
}

#[test]
fn clean_cluster_data_zeroes_the_chain() {
    let mut fs = mount_small();
    FatValue::put(&mut fs, Cluster(2), FatValue::Data(3)).unwrap();
    FatValue::put(&mut fs, Cluster(3), FatValue::EndOfChain).unwrap();
    // Litter both data blocks.
    for block in [SMALL_FDO as usize, SMALL_FDO as usize + 1] {
        for k in 0..512 {
            fs.block_device.sectors[block].write_u8(k, 0xAB);
        }
    }
    fs.clean_cluster_data(Cluster(2)).unwrap();
    for block in [SMALL_FDO as usize, SMALL_FDO as usize + 1] {
        for k in 0..512 {
            assert_eq!(fs.block_device.sectors[block].read_u8(k), 0);
        }
    }
    // The chain itself is untouched.
    assert_eq!(FatValue::get(&fs, Cluster(2)).unwrap(), FatValue::Data(3));
    assert_eq!(FatValue::get(&fs, Cluster(3)).unwrap(), FatValue::EndOfChain);
}

#[test]
fn cluster_addressing() {
    let fs = mount_small();
    assert_eq!(Cluster(2).to_fat_offset(), 8);
    assert_eq!(Cluster(2).to_fat_block_index(&fs), BlockIndex(SMALL_RESERVED));
    assert_eq!(Cluster(200).to_fat_block_index(&fs), BlockIndex(SMALL_RESERVED + 1));
    // Data blocks start right after the reserved blocks and the FAT copies.
    assert_eq!(Cluster(2).to_data_block_index(&fs), BlockIndex(SMALL_FDO));
    assert_eq!(Cluster(7).to_data_block_index(&fs), BlockIndex(SMALL_FDO + 5));
}

#[test]
fn boot_record_getters() {
    let fs = mount_small();
    let b = &fs.boot_record;
    assert_eq!(b.bytes_per_block(), 512);
    assert_eq!(b.blocks_per_cluster(), 1);
    assert_eq!(b.reserved_block_count(), SMALL_RESERVED as u16);
    assert_eq!(b.fats_count(), 2);
    assert_eq!(b.root_dir_childs_count(), 0);
    assert_eq!(b.total_blocks16(), 0);
    assert_eq!(b.total_blocks32(), SMALL_TOTAL);
    assert_eq!(b.total_blocks(), SMALL_TOTAL);
    assert_eq!(b.fat_size16(), 0);
    assert_eq!(b.fat_size32(), SMALL_FAT_SIZE);
    assert_eq!(b.fat_size(), SMALL_FAT_SIZE);
    assert_eq!(b.media_type(), 0);
    assert_eq!(b.blocks_per_track(), 0);
    assert_eq!(b.num_heads(), 0);
    assert_eq!(b.hidden_blocks(), 0);
    assert_eq!(b.fs_info_block(), 1);
    assert_eq!(b.root_dir_childs_cluster(), Cluster(2));
    assert_eq!(b.cluster_count, SMALL_CC);
    assert!(b.is_valid());
}

#[test]
fn read_failure_surfaces_as_read_failed() {
    // A device with no sectors at all cannot even serve the boot record.
    let disk = RamDisk::new(0);
    match get_raw_partition(disk) {
        Err(e) => assert_eq!(e, FileSystemError::ReadFailed),
        Ok(_) => panic!("expected ReadFailed"),
    }

    // A truncated device mounts (the boot record and FS Info are present) but
    // fails as soon as the FAT itself is touched.
    let mut disk = RamDisk::new(2);
    disk.sectors[0] = boot_sector(1, SMALL_RESERVED as u16, 2, SMALL_FAT_SIZE, SMALL_TOTAL, 2, 1);
    disk.sectors[1] = fs_info_sector(SMALL_CC - 2, 0xFFFF_FFFF);
    let fs = get_raw_partition(disk).unwrap();
    match FatValue::get(&fs, Cluster(2)) {
        Err(e) => assert_eq!(e, FileSystemError::ReadFailed),
        Ok(_) => panic!("expected ReadFailed"),
    }
}

#[test]
fn free_with_predecessor_detaches_the_tail() {
    // A three-cluster chain 2 -> 3 -> 4; freeing from 3 with predecessor 2
    // leaves 2 as the new end of chain and frees 3 and 4.
    let mut fs = mount_small();
    fs.alloc_cluster(None).unwrap();
    fs.alloc_cluster(Some(Cluster(2))).unwrap();
    fs.alloc_cluster(Some(Cluster(3))).unwrap();
    assert_eq!(FatValue::get(&fs, Cluster(4)).unwrap(), FatValue::EndOfChain);
    assert_eq!(fs.fat_info.free_cluster, SMALL_CC - 5);

    fs.free_cluster(Cluster(3), Some(Cluster(2))).unwrap();
    assert_eq!(FatValue::get(&fs, Cluster(2)).unwrap(), FatValue::EndOfChain);
    assert_eq!(FatValue::get(&fs, Cluster(3)).unwrap(), FatValue::Free);
    assert_eq!(FatValue::get(&fs, Cluster(4)).unwrap(), FatValue::Free);
    assert_eq!(fs.fat_info.free_cluster, SMALL_CC - 3);
}

#[test]
fn allocation_wraps_around_the_volume_end() {
    // With the last-allocation hint at the final cluster, the probe starts
    // past the end of the volume and wraps back to cluster 2.
    let mut disk = small_image();
    disk.sectors[1] = fs_info_sector(SMALL_CC - 2, SMALL_CC - 1);
    let mut fs = get_raw_partition(disk).unwrap();
    assert_eq!(fs.fat_info.last_cluster, SMALL_CC - 1);
    let c = fs.alloc_cluster(None).unwrap();
    assert_eq!(c, Cluster(2));
    let c2 = fs.alloc_cluster(None).unwrap();
    assert_eq!(c2, Cluster(3));
}

#[test]
fn cluster_chain_iteration_terminates() {
    // Walking a three-cluster chain yields its clusters in order and stops at
    // the end-of-chain marker.
    let mut fs = mount_small();
    fs.alloc_cluster(None).unwrap();
    fs.alloc_cluster(Some(Cluster(2))).unwrap();
    fs.alloc_cluster(Some(Cluster(3))).unwrap();

    let mut iter = ClusterIter::new(&fs, Cluster(2));
    let mut seen = Vec::new();
    while let Some(c) = iter.next() {
        seen.push(c);
    }
    assert_eq!(seen, vec![Cluster(2), Cluster(3), Cluster(4)]);
}

#[test]
fn cluster_chain_iteration_stops_on_corruption() {
    // A free slot in the middle of a chain ends the walk after yielding the
    // cluster whose slot it is.
    let mut fs = mount_small();
    FatValue::put(&mut fs, Cluster(2), FatValue::Data(3)).unwrap();
    FatValue::put(&mut fs, Cluster(3), FatValue::Free).unwrap();

    let mut iter = ClusterIter::new(&fs, Cluster(2));
    let mut seen = Vec::new();
    while let Some(c) = iter.next() {
        seen.push(c);
    }
    assert_eq!(seen, vec![Cluster(2), Cluster(3)]);

    // A bad-cluster marker likewise ends the walk.
    FatValue::put(&mut fs, Cluster(3), FatValue::Bad).unwrap();
    let mut iter = ClusterIter::new(&fs, Cluster(2));
    let mut seen = Vec::new();
    while let Some(c) = iter.next() {
        seen.push(c);
    }
    assert_eq!(seen, vec![Cluster(2), Cluster(3)]);
}

#[test]
fn dir_entry_carries_attribute_byte() {
    let mut fs = mount_small();
    FatValue::put(&mut fs, Cluster(2), FatValue::EndOfChain).unwrap();
    // A record whose attributes byte has the directory bit set.
    fs.block_device.sectors[SMALL_FDO as usize].write_u8(11, 0x10);
    let mut iter = FatDirEntryIterator::new(&fs, Cluster(2), BlockIndex(0), 0);
    let first = iter.next().unwrap().unwrap();
    assert!(first.attribute().is_directory());
    let second = iter.next().unwrap().unwrap();
    assert!(!second.attribute().is_directory());
}

#[test]
fn alloc_falls_back_when_the_adjacent_cluster_is_taken() {
    // Extending a chain first probes the slot right after the tail; when that
    // slot is not free, the search restarts from the last-allocation hint.
    let mut fs = mount_small();
    fs.alloc_cluster(None).unwrap();
    FatValue::put(&mut fs, Cluster(3), FatValue::Bad).unwrap();

    let c = fs.alloc_cluster(Some(Cluster(2))).unwrap();
    assert_eq!(c, Cluster(4));
    assert_eq!(FatValue::get(&fs, Cluster(2)).unwrap(), FatValue::Data(4));
    assert_eq!(FatValue::get(&fs, Cluster(3)).unwrap(), FatValue::Bad);
    assert_eq!(FatValue::get(&fs, Cluster(4)).unwrap(), FatValue::EndOfChain);
}
