//! The files of a cartridge image: their names and where they lie.

use crate::cartridge_header::CartridgeHeader;
use crate::file::file_allocation_table::FileAllocationTable;
use crate::file::file_name_table::FileNameTable;
use vstd::prelude::*;

pub mod file_allocation_table;
pub mod file_name_table;

verus! {

/// All that is needed to find the files of one image: the names, the
/// ranges, and the image itself.
pub struct Files<'lt> {
    /// The names of the files and directories.
    pub fnt: FileNameTable,
    /// Where each file lies.
    pub fat: FileAllocationTable<'lt>,
    /// The image.
    pub rom: &'lt [u8],
}

impl<'lt> Files<'lt> {
    /// The parts are the two tables that `header` declares in `rom`, and
    /// `rom` itself.
    pub open spec fn read_from(self, header: CartridgeHeader, rom: Seq<u8>) -> bool {
        &&& header.spec_read_fnt(rom) == Some(self.fnt@)
        &&& self.fnt.wf()
        &&& self.fat.lies_at(rom, header.fat.offset.value() as int, header.fat.size.value() as int)
        &&& self.rom@ == rom
    }

    /// Both tables that `header` declares, with `rom` itself, or nothing if
    /// `rom` lacks one of them.
    pub fn read(header: &CartridgeHeader, rom: &'lt [u8]) -> (files: Option<Self>)
        ensures
            files is Some <==> header.spec_read_fnt(rom@) is Some && header.fat.offset.value()
                + header.fat.size.value() <= rom@.len() && header.fat.size.value() % 8 == 0,
            files matches Some(f) ==> f.read_from(*header, rom@),
    {
        let fnt = match header.read_fnt(rom) {
            Some(fnt) => fnt,
            None => {
                return None;
            },
        };
        let fat = match header.read_fat(rom) {
            Some(fat) => fat,
            None => {
                return None;
            },
        };
        Some(Files { fnt, fat, rom })
    }
}

} // verus!
