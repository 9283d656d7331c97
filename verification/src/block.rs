//! Sector-granular block device surface: 512-byte blocks, block addressing,
//! the device trait every storage backend implements, and an in-memory device.

use vstd::prelude::*;
use vstd::pervasive::VecAdditionalExecFns;

verus! {

/// Little-endian 16-bit integer held at byte offset `off` of a sector.
pub open spec fn spec_le16(s: Seq<u8>, off: int) -> int {
    s[off] + 0x100 * s[off + 1]
}

/// Little-endian 32-bit integer held at byte offset `off` of a sector.
pub open spec fn spec_le32(s: Seq<u8>, off: int) -> int {
    s[off] + 0x100 * s[off + 1] + 0x10000 * s[off + 2] + 0x1000000 * s[off + 3]
}

/// A fixed-size 512-byte sector buffer. All device I/O is sector-aligned.
pub struct Block {
    /// The sector's bytes; always exactly 512 of them.
    pub data: Vec<u8>,
}

impl View for Block {
    type V = Seq<u8>;

    open spec fn view(&self) -> Seq<u8> {
        self.data@
    }
}

impl Block {
    /// The size in bytes of a block.
    pub const LEN: usize = 512;

    /// A block is well formed when it holds exactly 512 bytes.
    pub open spec fn wf(self) -> bool {
        self.data@.len() == 512
    }

    /// A fresh all-zero sector.
    pub fn new() -> (r: Block)
        ensures
            r.wf(),
            forall|i: int| 0 <= i < 512 ==> r@[i] == 0u8,
    {
        let mut data: Vec<u8> = Vec::new();
        while data.len() < 512
            invariant
                data@.len() <= 512,
                forall|i: int| 0 <= i < data@.len() ==> data@[i] == 0u8,
            decreases 512 - data@.len(),
        {
            data.push(0u8);
        }
        Block { data }
    }

    /// An exact copy of this sector.
    pub fn duplicate(&self) -> (r: Block)
        requires
            self.wf(),
        ensures
            r.wf(),
            r@ == self@,
    {
        let mut data: Vec<u8> = Vec::new();
        let mut i: usize = 0;
        while i < 512
            invariant
                self.wf(),
                i <= 512,
                data@.len() == i,
                forall|k: int| 0 <= k < i ==> data@[k] == self@[k],
            decreases 512 - i,
        {
            data.push(self.data[i]);
            i = i + 1;
        }
        let r = Block { data };
        assert(r@ =~= self@);
        r
    }

    /// The byte at `offset`.
    pub fn read_u8(&self, offset: usize) -> (r: u8)
        requires
            self.wf(),
            offset < 512,
        ensures
            r == self@[offset as int],
    {
        self.data[offset]
    }

    /// Overwrite the byte at `offset`.
    pub fn write_u8(&mut self, offset: usize, value: u8)
        requires
            old(self).wf(),
            offset < 512,
        ensures
            final(self).wf(),
            final(self)@ == old(self)@.update(offset as int, value),
    {
        self.data.set(offset, value);
    }

    /// The little-endian 16-bit integer at `offset`.
    pub fn read_u16_le(&self, offset: usize) -> (r: u16)
        requires
            self.wf(),
            offset + 2 <= 512,
        ensures
            r as int == spec_le16(self@, offset as int),
    {
        let lo = self.data[offset] as u16;
        let hi = self.data[offset + 1] as u16;
        lo + hi * 0x100
    }

    /// The little-endian 32-bit integer at `offset`.
    pub fn read_u32_le(&self, offset: usize) -> (r: u32)
        requires
            self.wf(),
            offset + 4 <= 512,
        ensures
            r as int == spec_le32(self@, offset as int),
    {
        let b0 = self.data[offset] as u32;
        let b1 = self.data[offset + 1] as u32;
        let b2 = self.data[offset + 2] as u32;
        let b3 = self.data[offset + 3] as u32;
        b0 + b1 * 0x100 + b2 * 0x10000 + b3 * 0x1000000
    }

    /// Store `value` little-endian in the two bytes at `offset`.
    pub fn write_u16_le(&mut self, offset: usize, value: u16)
        requires
            old(self).wf(),
            offset + 2 <= 512,
        ensures
            final(self).wf(),
            final(self)@ == old(self)@
                .update(offset as int, (value as int % 0x100) as u8)
                .update(offset as int + 1, (value as int / 0x100) as u8),
            spec_le16(final(self)@, offset as int) == value as int,
            forall|j: int| 0 <= j < 512 && !(offset <= j < offset + 2)
                ==> final(self)@[j] == old(self)@[j],
    {
        let lo = (value % 0x100) as u8;
        let hi = (value / 0x100) as u8;
        self.data.set(offset, lo);
        self.data.set(offset + 1, hi);
    }

    /// Store `value` little-endian in the four bytes at `offset`.
    pub fn write_u32_le(&mut self, offset: usize, value: u32)
        requires
            old(self).wf(),
            offset + 4 <= 512,
        ensures
            final(self).wf(),
            spec_le32(final(self)@, offset as int) == value as int,
            forall|j: int| 0 <= j < 512 && !(offset <= j < offset + 4)
                ==> final(self)@[j] == old(self)@[j],
    {
        let b0 = (value % 0x100) as u8;
        let b1 = ((value / 0x100) % 0x100) as u8;
        let b2 = ((value / 0x10000) % 0x100) as u8;
        let b3 = (value / 0x1000000) as u8;
        self.data.set(offset, b0);
        self.data.set(offset + 1, b1);
        self.data.set(offset + 2, b2);
        self.data.set(offset + 3, b3);
        assert(spec_le32(self@, offset as int) == value as int) by {
            assert(value as int
                == value as int % 0x100
                   + 0x100 * (value as int / 0x100 % 0x100)
                   + 0x10000 * (value as int / 0x10000 % 0x100)
                   + 0x1000000 * (value as int / 0x1000000)) by (bit_vector);
        };
    }
}

/// A sector offset, relative to the device origin or to a partition origin.
#[derive(Debug, Clone, Copy, PartialEq, Eq, Structural)]
pub struct BlockIndex(pub u32);

/// A count of sectors, e.g. a partition length.
#[derive(Debug, Clone, Copy, PartialEq, Eq, Structural)]
pub struct BlockCount(pub u32);

/// Sector-addressed storage consumed by the filesystem.
///
/// An implementation models its contents as a sequence of 512-byte sectors.
/// Reads and writes may fail; a device for which `infallible()` holds promises
/// that in-range accesses always succeed.
pub trait BlockDevice: Sized {
    /// The sectors the device holds, as byte sequences.
    spec fn blocks(&self) -> Seq<Seq<u8>>;

    /// Well-formed device state: every sector is 512 bytes.
    spec fn wf(&self) -> bool;

    /// True of a device whose in-range accesses always succeed.
    spec fn infallible(&self) -> bool;

    /// Every sector of a well-formed device holds 512 bytes.
    proof fn blocks_are_sectors(&self)
        requires
            self.wf(),
        ensures
            forall|i: int| 0 <= i < self.blocks().len()
                ==> (#[trigger] self.blocks()[i]).len() == 512,
    ;

    /// Read one sector at `partition_start + index`.
    fn read(&self, partition_start: u32, index: u32) -> (r: Result<Block, ()>)
        requires
            self.wf(),
        ensures
            (r matches Ok(b) ==> partition_start + index < self.blocks().len()
                && b.wf()
                && b@ == self.blocks()[partition_start + index]),
            self.infallible() && partition_start + index < self.blocks().len() ==> r is Ok,
    ;

    /// Read one sector at the absolute index `index`, bypassing any partition offset.
    fn raw_read(&self, index: u32) -> (r: Result<Block, ()>)
        requires
            self.wf(),
        ensures
            (r matches Ok(b) ==> index < self.blocks().len()
                && b.wf()
                && b@ == self.blocks()[index as int]),
            self.infallible() && index < self.blocks().len() ==> r is Ok,
    ;

    /// Write one sector at `partition_start + index`.
    fn write(&mut self, block: &Block, partition_start: u32, index: u32) -> (r: Result<(), ()>)
        requires
            old(self).wf(),
            block.wf(),
        ensures
            final(self).wf(),
            final(self).infallible() == old(self).infallible(),
            final(self).blocks().len() == old(self).blocks().len(),
            r is Ok ==> partition_start + index < old(self).blocks().len()
                && final(self).blocks()
                    == old(self).blocks().update(partition_start + index, block@),
            r is Err ==> final(self).blocks() == old(self).blocks(),
            old(self).infallible() && partition_start + index < old(self).blocks().len()
                ==> r is Ok,
    ;
}

/// An in-memory block device: a plain vector of sectors. Never fails in range.
pub struct RamDisk {
    /// The device contents.
    pub sectors: Vec<Block>,
}

impl RamDisk {
    /// A zero-filled device of `count` sectors.
    pub fn new(count: u32) -> (r: RamDisk)
        ensures
            r.wf(),
            r.infallible(),
            r.blocks().len() == count,
            forall|i: int, j: int| 0 <= i < count && 0 <= j < 512
                ==> #[trigger] r.blocks()[i][j] == 0u8,
    {
        let mut sectors: Vec<Block> = Vec::new();
        let mut i: u32 = 0;
        while i < count
            invariant
                i <= count,
                sectors@.len() == i,
                forall|k: int| 0 <= k < i ==> (#[trigger] sectors@[k]).wf(),
                forall|k: int, j: int| 0 <= k < i && 0 <= j < 512
                    ==> #[trigger] sectors@[k]@[j] == 0u8,
            decreases count - i,
        {
            sectors.push(Block::new());
            i = i + 1;
        }
        RamDisk { sectors }
    }
}

impl BlockDevice for RamDisk {
    open spec fn blocks(&self) -> Seq<Seq<u8>> {
        self.sectors@.map(|i: int, b: Block| b@)
    }

    open spec fn wf(&self) -> bool {
        forall|i: int| 0 <= i < self.sectors@.len() ==> (#[trigger] self.sectors@[i]).wf()
    }

    open spec fn infallible(&self) -> bool {
        true
    }

    proof fn blocks_are_sectors(&self) {
    }

    fn read(&self, partition_start: u32, index: u32) -> (r: Result<Block, ()>) {
        let abs: u64 = partition_start as u64 + index as u64;
        if abs < self.sectors.len() as u64 {
            Ok(self.sectors[abs as usize].duplicate())
        } else {
            Err(())
        }
    }

    fn raw_read(&self, index: u32) -> (r: Result<Block, ()>) {
        let abs: u64 = index as u64;
        if abs < self.sectors.len() as u64 {
            Ok(self.sectors[abs as usize].duplicate())
        } else {
            Err(())
        }
    }

    fn write(&mut self, block: &Block, partition_start: u32, index: u32) -> (r: Result<(), ()>) {
        let abs: u64 = partition_start as u64 + index as u64;
        if abs < self.sectors.len() as u64 {
            self.sectors.set(abs as usize, block.duplicate());
            assert(self.blocks() =~= old(self).blocks().update(
                partition_start + index,
                block@,
            ));
            Ok(())
        } else {
            Err(())
        }
    }
}

} // verus!
