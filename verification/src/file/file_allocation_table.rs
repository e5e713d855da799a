//! The file allocation table: for each file, the range of bytes of the
//! image that holds it.
//!
//! The table is a run of entries of eight bytes each. An entry has no
//! identifier of its own: the entry at index `i` belongs to the file with
//! the identifier `i`.

use crate::byte_types::integer::LittleEndian;
use crate::byte_types::integer::U32;
use crate::byte_types::overlay::are_records_of;
use crate::byte_types::overlay::array_at;
use crate::byte_types::overlay::as_records;
use crate::cartridge_header::CartridgeHeader;
use core::marker::PhantomData;
use vstd::prelude::*;
use vstd::slice::slice_subrange;

verus! {

/// Where one file lies: from `start` up to, but without, `end`.
#[derive(Copy, Clone, Debug)]
pub struct FileAllocationTableEntry {
    /// Where the file starts in the image.
    pub start: U32<LittleEndian>,
    /// Where the file ends in the image: the offset after its last byte.
    pub end: U32<LittleEndian>,
}

/// The file allocation table as it lies in the image, one record of eight
/// bytes for each file.
#[derive(Copy, Clone, Debug)]
pub struct FileAllocationTable<'lt> {
    /// The entries as they lie in the image.
    pub records: &'lt [[u8; 8]],
}

impl FileAllocationTableEntry {
    /// The fields hold the eight bytes of `record`.
    pub open spec fn holds(self, record: Seq<u8>) -> bool {
        &&& self.start.0@ == record.subrange(0, 4)
        &&& self.end.0@ == record.subrange(4, 8)
    }

    /// The entry in the eight bytes of `record`.
    pub fn from_record(record: &[u8; 8]) -> (entry: Self)
        ensures
            entry.holds(record@),
    {
        FileAllocationTableEntry {
            start: U32(array_at(record, 0), PhantomData),
            end: U32(array_at(record, 4), PhantomData),
        }
    }

    /// The table that the header declares, as a view of `rom`.
    ///
    /// There is a table exactly when the declared range lies within `rom`
    /// and its size is a multiple of the size of an entry. It then has
    /// `size / 8` entries.
    pub fn read_fat<'lt>(header: &CartridgeHeader, rom: &'lt [u8]) -> (table: Option<
        FileAllocationTable<'lt>,
    >)
        ensures
            table is Some <==> header.fat.offset.value() + header.fat.size.value() <= rom@.len()
                && header.fat.size.value() % 8 == 0,
            table matches Some(t) ==> t.lies_at(
                rom@,
                header.fat.offset.value() as int,
                header.fat.size.value() as int,
            ),
    {
        let base: u32 = header.fat.offset.get();
        let size: u32 = header.fat.size.get();
        let end: u64 = base as u64 + size as u64;
        if end > rom.len() as u64 {
            return None;
        }
        let raw = slice_subrange(rom, base as usize, end as usize);
        match as_records::<8>(raw) {
            Some(records) => Some(FileAllocationTable { records }),
            None => None,
        }
    }

    /// The bytes of the file in `rom`, or nothing if the entry's range does
    /// not lie within `rom`.
    pub fn get_file<'lt>(self, rom: &'lt [u8]) -> (file: Option<&'lt [u8]>)
        ensures
            file is Some <==> self.start.value() <= self.end.value() <= rom@.len(),
            file matches Some(bytes) ==> bytes@ == rom@.subrange(
                self.start.value() as int,
                self.end.value() as int,
            ),
            file matches Some(bytes) ==> bytes@.len() == self.end.value() - self.start.value(),
    {
        let start: u32 = self.start.get();
        let end: u32 = self.end.get();
        if start <= end && end as u64 <= rom.len() as u64 {
            Some(slice_subrange(rom, start as usize, end as usize))
        } else {
            None
        }
    }
}

impl<'lt> FileAllocationTable<'lt> {
    /// The table is the `size` bytes of `rom` that start at `offset`: it
    /// has `size / 8` entries, and the entry at index `i` is the `i`-th run
    /// of eight of those bytes.
    pub open spec fn lies_at(self, rom: Seq<u8>, offset: int, size: int) -> bool {
        &&& self.records@.len() == size / 8
        &&& are_records_of(self.records@, rom.subrange(offset, offset + size))
    }

    /// The number of entries, which is the number of file identifiers.
    pub fn len(&self) -> (n: usize)
        ensures
            n == self.records@.len(),
    {
        self.records.len()
    }

    /// The entry of the file with the identifier `id`, or nothing if the
    /// table has no such entry.
    pub fn get(&self, id: usize) -> (entry: Option<FileAllocationTableEntry>)
        ensures
            entry is Some <==> id < self.records@.len(),
            entry matches Some(e) ==> e.holds(self.records@[id as int]@),
    {
        if id < self.records.len() {
            Some(FileAllocationTableEntry::from_record(&self.records[id]))
        } else {
            None
        }
    }
}

} // verus!
