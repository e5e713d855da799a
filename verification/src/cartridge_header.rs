//! The header at the start of a cartridge image.
//!
//! The header is 0x200 bytes long. Every field lies at a fixed offset and
//! keeps its bytes as they are in the image: integers are decoded when they
//! are read, in little-endian order.

use crate::byte_types::embedded_string::EmbeddedString;
use crate::byte_types::integer::LittleEndian;
use crate::byte_types::integer::U16;
use crate::byte_types::integer::U32;
use crate::byte_types::overlay::array_at;
use crate::byte_types::overlay::split_array;
use crate::file::file_allocation_table::FileAllocationTable;
use crate::file::file_allocation_table::FileAllocationTableEntry;
use crate::file::file_name_table::FileNameTable;
use crate::file::file_name_table::FileNameTableView;
use crate::file::Files;
use core::marker::PhantomData;
use vstd::arithmetic::power2::lemma2_to64;
use vstd::arithmetic::power2::lemma2_to64_rest;
use vstd::arithmetic::power2::lemma_pow2_adds;
use vstd::arithmetic::power2::lemma_pow2_strictly_increases;
use vstd::arithmetic::power2::lemma_pow2_unfold;
use vstd::arithmetic::power2::pow2;
use vstd::prelude::*;

verus! {

/// The number of bytes of the header.
pub const HEADER_SIZE: usize = 0x200;

/// The largest capacity exponent whose capacity in bytes fits 128 bits.
pub const MAX_DEVICE_CAPACITY_RAW: u8 = 110;

/// The header of a cartridge image, field by field.
#[derive(Copy, Clone, Debug)]
pub struct CartridgeHeader {
    /// The game's title.
    pub title: EmbeddedString<12>,
    /// The four-character game code.
    pub game_code: EmbeddedString<4>,
    /// The two-character maker code.
    pub maker_code: EmbeddedString<2>,
    /// The kind of device the image is for.
    pub unit_code: u8,
    /// Which encryption seed the image selects.
    pub encryption_seed_select: u8,
    /// The capacity of the device: 128 KiB shifted left by this.
    pub device_capacity_raw: u8,
    pub _reserved_0: [u8; 7],
    pub _reserved_1: u8,
    /// The region the image is for.
    pub region: u8,
    /// The version of the image.
    pub rom_version: u8,
    /// The autostart flags.
    pub autostart: u8,
    /// The code segment of the main processor.
    pub arm9: CartridgeHeaderCodeInfo,
    /// The code segment of the second processor.
    pub arm7: CartridgeHeaderCodeInfo,
    /// Where the file name table lies.
    pub fnt: OffsetAndSize,
    /// Where the file allocation table lies.
    pub fat: OffsetAndSize,
    /// Where the overlay table of the main processor lies.
    pub arm9_overlay: OffsetAndSize,
    /// Where the overlay table of the second processor lies.
    pub arm7_overlay: OffsetAndSize,
    /// The port setting for normal commands.
    pub port_40001a4_normal: U32<LittleEndian>,
    /// The port setting for KEY1 commands.
    pub port_40001a4_key1: U32<LittleEndian>,
    /// Where the icon and title lie.
    pub icon_title_offset: U32<LittleEndian>,
    /// The checksum of the secure area, as stored.
    pub secure_area_checksum: U16<LittleEndian>,
    /// The delay of the secure area.
    pub secure_area_delay: U16<LittleEndian>,
    /// The auto-load address of the main processor.
    pub arm9_auto_load: U32<LittleEndian>,
    /// The auto-load address of the second processor.
    pub arm7_auto_load: U32<LittleEndian>,
    /// The secure-area disable marker.
    pub secure_area_disable: EmbeddedString<8>,
    /// The number of bytes of the image that are in use.
    pub total_used_rom_size: U32<LittleEndian>,
    /// The size of the header, as stored.
    pub rom_header_size: U32<LittleEndian>,
    pub _unknown_1: [u8; 4],
    pub _reserved_3: [u8; 8],
    /// Where the read-only part of a NAND image ends.
    pub nand_end_of_rom: U16<LittleEndian>,
    /// Where the writable part of a NAND image starts.
    pub nand_start_of_rw: U16<LittleEndian>,
    pub _reserved_4: [u8; 0x18],
    /// The fast-boot marker.
    pub fast_boot: EmbeddedString<16>,
    /// The logo bitmap.
    pub nintendo_logo: [u8; 0x9c],
    /// The checksum of the logo, as stored.
    pub nintendo_logo_checksum: U16<LittleEndian>,
    /// The checksum of the header, as stored.
    pub header_checksum: U16<LittleEndian>,
    /// Where the debug image lies.
    pub debug: OffsetAndSize,
    /// Where the debug image is loaded.
    pub debug_ram_address: U32<LittleEndian>,
    pub _reserved_5: [u8; 0x94],
}

/// Where the code of one processor lies and where it is loaded.
#[derive(Copy, Clone, Debug)]
pub struct CartridgeHeaderCodeInfo {
    /// Where the code lies in the image.
    pub rom_offset: U32<LittleEndian>,
    /// The address at which the code is entered.
    pub entry_address: U32<LittleEndian>,
    /// The address at which the code is loaded.
    pub ram_address: U32<LittleEndian>,
    /// The number of bytes of code.
    pub size: U32<LittleEndian>,
}

/// A range of bytes of the image: where it starts and how long it is.
#[derive(Copy, Clone, Debug)]
pub struct OffsetAndSize {
    /// Where the range starts in the image.
    pub offset: U32<LittleEndian>,
    /// The number of bytes of the range.
    pub size: U32<LittleEndian>,
}

impl CartridgeHeaderCodeInfo {
    /// The fields hold the sixteen bytes of `bytes` that start at `at`.
    pub open spec fn lies_at(self, bytes: Seq<u8>, at: int) -> bool {
        &&& self.rom_offset.0@ == bytes.subrange(at, at + 4)
        &&& self.entry_address.0@ == bytes.subrange(at + 4, at + 8)
        &&& self.ram_address.0@ == bytes.subrange(at + 8, at + 12)
        &&& self.size.0@ == bytes.subrange(at + 12, at + 16)
    }

    /// The descriptor in the sixteen bytes of `bytes` that start at `at`.
    pub fn read_at(bytes: &[u8], at: usize) -> (info: Self)
        requires
            at + 16 <= bytes@.len(),
        ensures
            info.lies_at(bytes@, at as int),
    {
        assert(bytes.len() == bytes@.len());
        CartridgeHeaderCodeInfo {
            rom_offset: U32(array_at(bytes, at), PhantomData),
            entry_address: U32(array_at(bytes, at + 4), PhantomData),
            ram_address: U32(array_at(bytes, at + 8), PhantomData),
            size: U32(array_at(bytes, at + 12), PhantomData),
        }
    }
}

impl OffsetAndSize {
    /// The fields hold the eight bytes of `bytes` that start at `at`.
    pub open spec fn lies_at(self, bytes: Seq<u8>, at: int) -> bool {
        &&& self.offset.0@ == bytes.subrange(at, at + 4)
        &&& self.size.0@ == bytes.subrange(at + 4, at + 8)
    }

    /// The pair in the eight bytes of `bytes` that start at `at`.
    pub fn read_at(bytes: &[u8], at: usize) -> (pair: Self)
        requires
            at + 8 <= bytes@.len(),
        ensures
            pair.lies_at(bytes@, at as int),
    {
        assert(bytes.len() == bytes@.len());
        OffsetAndSize {
            offset: U32(array_at(bytes, at), PhantomData),
            size: U32(array_at(bytes, at + 4), PhantomData),
        }
    }
}

/// The capacity in bytes that the exponent `raw` stands for: 128 KiB,
/// doubled `raw` times.
pub open spec fn device_capacity_of(raw: nat) -> nat {
    0x2_0000 * pow2(raw)
}

/// Shifting 128 left is doubling it, as long as nothing is shifted out.
proof fn lemma_shift_128(shift: u8)
    requires
        shift <= MAX_DEVICE_CAPACITY_RAW,
    ensures
        (128u128 << shift) == 128 * pow2(shift as nat),
        128 * pow2(shift as nat) <= 0x20_0000_0000_0000_0000_0000_0000_0000,
    decreases shift,
{
    if shift == 0 {
        assert(128u128 << 0u8 == 128) by (bit_vector);
        lemma2_to64();
    } else {
        let less: u8 = (shift - 1) as u8;
        lemma_shift_128(less);
        lemma_pow2_unfold(shift as nat);
        let before: u128 = 128u128 << less;
        assert(128u128 << shift == 2 * before) by (bit_vector)
            requires
                0 < shift <= 110,
                less == shift - 1,
                before == 128u128 << less,
                before <= 0x20_0000_0000_0000_0000_0000_0000_0000u128,
        ;
        lemma_pow2_adds(64, 46);
        lemma2_to64();
        lemma2_to64_rest();
        if shift < 110 {
            lemma_pow2_strictly_increases(shift as nat, 110);
        }
    }
}

impl CartridgeHeader {
    /// Every field holds the bytes of `bytes` at its offset in the format.
    pub open spec fn lies_in(self, bytes: Seq<u8>) -> bool {
        &&& self.title.0@ == bytes.subrange(0x000, 0x00C)
        &&& self.game_code.0@ == bytes.subrange(0x00C, 0x010)
        &&& self.maker_code.0@ == bytes.subrange(0x010, 0x012)
        &&& self.unit_code == bytes[0x012]
        &&& self.encryption_seed_select == bytes[0x013]
        &&& self.device_capacity_raw == bytes[0x014]
        &&& self._reserved_0@ == bytes.subrange(0x015, 0x01C)
        &&& self._reserved_1 == bytes[0x01C]
        &&& self.region == bytes[0x01D]
        &&& self.rom_version == bytes[0x01E]
        &&& self.autostart == bytes[0x01F]
        &&& self.arm9.lies_at(bytes, 0x020)
        &&& self.arm7.lies_at(bytes, 0x030)
        &&& self.fnt.lies_at(bytes, 0x040)
        &&& self.fat.lies_at(bytes, 0x048)
        &&& self.arm9_overlay.lies_at(bytes, 0x050)
        &&& self.arm7_overlay.lies_at(bytes, 0x058)
        &&& self.port_40001a4_normal.0@ == bytes.subrange(0x060, 0x064)
        &&& self.port_40001a4_key1.0@ == bytes.subrange(0x064, 0x068)
        &&& self.icon_title_offset.0@ == bytes.subrange(0x068, 0x06C)
        &&& self.secure_area_checksum.0@ == bytes.subrange(0x06C, 0x06E)
        &&& self.secure_area_delay.0@ == bytes.subrange(0x06E, 0x070)
        &&& self.arm9_auto_load.0@ == bytes.subrange(0x070, 0x074)
        &&& self.arm7_auto_load.0@ == bytes.subrange(0x074, 0x078)
        &&& self.secure_area_disable.0@ == bytes.subrange(0x078, 0x080)
        &&& self.total_used_rom_size.0@ == bytes.subrange(0x080, 0x084)
        &&& self.rom_header_size.0@ == bytes.subrange(0x084, 0x088)
        &&& self._unknown_1@ == bytes.subrange(0x088, 0x08C)
        &&& self._reserved_3@ == bytes.subrange(0x08C, 0x094)
        &&& self.nand_end_of_rom.0@ == bytes.subrange(0x094, 0x096)
        &&& self.nand_start_of_rw.0@ == bytes.subrange(0x096, 0x098)
        &&& self._reserved_4@ == bytes.subrange(0x098, 0x0B0)
        &&& self.fast_boot.0@ == bytes.subrange(0x0B0, 0x0C0)
        &&& self.nintendo_logo@ == bytes.subrange(0x0C0, 0x15C)
        &&& self.nintendo_logo_checksum.0@ == bytes.subrange(0x15C, 0x15E)
        &&& self.header_checksum.0@ == bytes.subrange(0x15E, 0x160)
        &&& self.debug.lies_at(bytes, 0x160)
        &&& self.debug_ram_address.0@ == bytes.subrange(0x168, 0x16C)
        &&& self._reserved_5@ == bytes.subrange(0x16C, 0x200)
    }

    /// The header at the start of `bytes`, or nothing if there are fewer
    /// than `HEADER_SIZE` of them.
    pub fn parse(bytes: &[u8]) -> (header: Option<Self>)
        ensures
            header is Some <==> bytes@.len() >= HEADER_SIZE,
            header matches Some(h) ==> h.lies_in(bytes@),
    {
        match split_array::<0x200>(bytes) {
            Some((head, _)) => {
                let header = Self::read(head);
                proof {
                    Self::lemma_lies_in_prefix(header, head@, bytes@);
                }
                Some(header)
            },
            None => None,
        }
    }

    /// A header that lies in the first `HEADER_SIZE` bytes of a buffer lies
    /// in the buffer.
    proof fn lemma_lies_in_prefix(header: Self, head: Seq<u8>, bytes: Seq<u8>)
        requires
            bytes.len() >= HEADER_SIZE,
            head == bytes.take(HEADER_SIZE as int),
            header.lies_in(head),
        ensures
            header.lies_in(bytes),
    {
        assert forall|from: int, to: int| 0 <= from <= to <= HEADER_SIZE implies #[trigger] head.subrange(from, to)
            == bytes.subrange(from, to) by {
            assert(head.subrange(from, to) =~= bytes.subrange(from, to));
        }
    }

    /// The header whose fields hold the bytes of `bytes` at their offsets.
    fn read(bytes: &[u8]) -> (header: Self)
        requires
            bytes@.len() >= HEADER_SIZE,
        ensures
            header.lies_in(bytes@),
    {
        CartridgeHeader {
            title: EmbeddedString(array_at(bytes, 0x000)),
            game_code: EmbeddedString(array_at(bytes, 0x00C)),
            maker_code: EmbeddedString(array_at(bytes, 0x010)),
            unit_code: bytes[0x012],
            encryption_seed_select: bytes[0x013],
            device_capacity_raw: bytes[0x014],
            _reserved_0: array_at(bytes, 0x015),
            _reserved_1: bytes[0x01C],
            region: bytes[0x01D],
            rom_version: bytes[0x01E],
            autostart: bytes[0x01F],
            arm9: CartridgeHeaderCodeInfo::read_at(bytes, 0x020),
            arm7: CartridgeHeaderCodeInfo::read_at(bytes, 0x030),
            fnt: OffsetAndSize::read_at(bytes, 0x040),
            fat: OffsetAndSize::read_at(bytes, 0x048),
            arm9_overlay: OffsetAndSize::read_at(bytes, 0x050),
            arm7_overlay: OffsetAndSize::read_at(bytes, 0x058),
            port_40001a4_normal: U32(array_at(bytes, 0x060), PhantomData),
            port_40001a4_key1: U32(array_at(bytes, 0x064), PhantomData),
            icon_title_offset: U32(array_at(bytes, 0x068), PhantomData),
            secure_area_checksum: U16(array_at(bytes, 0x06C), PhantomData),
            secure_area_delay: U16(array_at(bytes, 0x06E), PhantomData),
            arm9_auto_load: U32(array_at(bytes, 0x070), PhantomData),
            arm7_auto_load: U32(array_at(bytes, 0x074), PhantomData),
            secure_area_disable: EmbeddedString(array_at(bytes, 0x078)),
            total_used_rom_size: U32(array_at(bytes, 0x080), PhantomData),
            rom_header_size: U32(array_at(bytes, 0x084), PhantomData),
            _unknown_1: array_at(bytes, 0x088),
            _reserved_3: array_at(bytes, 0x08C),
            nand_end_of_rom: U16(array_at(bytes, 0x094), PhantomData),
            nand_start_of_rw: U16(array_at(bytes, 0x096), PhantomData),
            _reserved_4: array_at(bytes, 0x098),
            fast_boot: EmbeddedString(array_at(bytes, 0x0B0)),
            nintendo_logo: array_at(bytes, 0x0C0),
            nintendo_logo_checksum: U16(array_at(bytes, 0x15C), PhantomData),
            header_checksum: U16(array_at(bytes, 0x15E), PhantomData),
            debug: OffsetAndSize::read_at(bytes, 0x160),
            debug_ram_address: U32(array_at(bytes, 0x168), PhantomData),
            _reserved_5: array_at(bytes, 0x16C),
        }
    }

    /// What the file name table that the header declares says, or nothing
    /// if `rom` holds none.
    ///
    /// A declared size of zero stands for an image without files: the table
    /// is then empty, whatever `rom` holds. The declared size plays no other
    /// part: the table's own first record says how long it is.
    pub open spec fn spec_read_fnt(self, rom: Seq<u8>) -> Option<FileNameTableView> {
        if self.fnt.size.value() == 0 {
            Some(FileNameTableView { main_table: Seq::empty(), sub_tables: Seq::empty() })
        } else {
            FileNameTable::spec_read(rom, self.fnt.offset.value() as int)
        }
    }

    /// The file name table that the header declares, read from `rom`.
    pub fn read_fnt(&self, rom: &[u8]) -> (table: Option<FileNameTable>)
        ensures
            match self.spec_read_fnt(rom@) {
                Some(said) => table matches Some(t) && t@ == said && t.wf(),
                None => table is None,
            },
    {
        let base: usize = self.fnt.offset.get() as usize;
        let size: u32 = self.fnt.size.get();
        if size == 0 {
            let table = FileNameTable { main_table: Vec::new(), sub_tables: Vec::new() };
            assert(table@.main_table =~= Seq::empty());
            assert(table@.sub_tables =~= Seq::empty());
            return Some(table);
        }
        FileNameTable::read(rom, base)
    }

    /// The file allocation table that the header declares, as a view of
    /// `rom`.
    pub fn read_fat<'lt>(&self, rom: &'lt [u8]) -> (table: Option<FileAllocationTable<'lt>>)
        ensures
            table is Some <==> self.fat.offset.value() + self.fat.size.value() <= rom@.len()
                && self.fat.size.value() % 8 == 0,
            table matches Some(t) ==> t.lies_at(
                rom@,
                self.fat.offset.value() as int,
                self.fat.size.value() as int,
            ),
    {
        FileAllocationTableEntry::read_fat(self, rom)
    }

    /// Both tables that the header declares, with `rom` itself.
    pub fn read_files<'lt>(&self, rom: &'lt [u8]) -> (files: Option<Files<'lt>>)
        ensures
            files is Some <==> self.spec_read_fnt(rom@) is Some && self.fat.offset.value()
                + self.fat.size.value() <= rom@.len() && self.fat.size.value() % 8 == 0,
            files matches Some(f) ==> f.read_from(*self, rom@),
    {
        Files::read(self, rom)
    }

    /// The capacity of the device in bytes: 128 KiB shifted left by the
    /// stored exponent.
    pub fn device_capacity(&self) -> (bytes: u128)
        requires
            self.device_capacity_raw <= MAX_DEVICE_CAPACITY_RAW,
        ensures
            bytes == device_capacity_of(self.device_capacity_raw as nat),
    {
        proof {
            lemma_shift_128(self.device_capacity_raw);
        }
        (128u128 << self.device_capacity_raw) * 1024
    }
}

/// An array whose elements are all the default value of their type.
pub fn default_array<T, const SIZE: usize>() -> (array: [T; SIZE]) where T: Default + Copy
    ensures
        forall|i: int, j: int| 0 <= i < SIZE && 0 <= j < SIZE ==> array@[i] == array@[j],
{
    [T::default();SIZE]
}

} // verus!
