use pony_reader::byte_types::embedded_string::EmbeddedStringCommon;
use pony_reader::cartridge_header::{
    default_array, CartridgeHeader, HEADER_SIZE, MAX_DEVICE_CAPACITY_RAW,
};
use pony_reader::file::file_allocation_table::FileAllocationTableEntry;
use pony_reader::file::Files;

fn header_bytes() -> Vec<u8> {
    let mut bytes: Vec<u8> = (0..HEADER_SIZE).map(|i| (i % 251) as u8).collect();
    bytes[0x000..0x00C].copy_from_slice(b"PONY FRIENDS");
    bytes[0x00C..0x010].copy_from_slice(b"APOP");
    bytes[0x010..0x012].copy_from_slice(b"7\0");
    bytes[0x014] = 7;
    bytes
}

fn put_u32(bytes: &mut [u8], at: usize, value: u32) {
    bytes[at..at + 4].copy_from_slice(&value.to_le_bytes());
}

fn image_with_tables(fnt: (u32, u32), fat: (u32, u32), length: usize) -> Vec<u8> {
    let mut image = header_bytes();
    image.resize(length, 0);
    put_u32(&mut image, 0x040, fnt.0);
    put_u32(&mut image, 0x044, fnt.1);
    put_u32(&mut image, 0x048, fat.0);
    put_u32(&mut image, 0x04C, fat.1);
    image
}

#[test]
fn header_needs_all_of_its_bytes() {
    let bytes = header_bytes();
    assert!(CartridgeHeader::parse(&bytes).is_some());
    assert!(CartridgeHeader::parse(&bytes[..HEADER_SIZE - 1]).is_none());
    assert!(CartridgeHeader::parse(&bytes[..0x16C]).is_none());
    assert!(CartridgeHeader::parse(&[]).is_none());
    let mut longer = bytes.clone();
    longer.extend_from_slice(&[0xEE; 100]);
    assert!(CartridgeHeader::parse(&longer).is_some());
}

#[test]
fn header_size_is_fixed() {
    assert_eq!(HEADER_SIZE, 0x200);
}

#[test]
fn header_fields_lie_at_their_offsets() {
    let mut bytes = header_bytes();
    bytes[0x012] = 0x11;
    bytes[0x013] = 0x22;
    bytes[0x01D] = 0x33;
    bytes[0x01E] = 0x44;
    bytes[0x01F] = 0x55;
    put_u32(&mut bytes, 0x020, 0x0000_4000);
    put_u32(&mut bytes, 0x024, 0x0200_0800);
    put_u32(&mut bytes, 0x028, 0x0200_0000);
    put_u32(&mut bytes, 0x02C, 0x0001_2345);
    put_u32(&mut bytes, 0x030, 0x0002_0000);
    put_u32(&mut bytes, 0x03C, 0x0000_6789);
    put_u32(&mut bytes, 0x040, 0x0003_0000);
    put_u32(&mut bytes, 0x044, 0x0000_0123);
    put_u32(&mut bytes, 0x048, 0x0003_1000);
    put_u32(&mut bytes, 0x04C, 0x0000_0040);
    put_u32(&mut bytes, 0x050, 0x0A0B_0C0D);
    put_u32(&mut bytes, 0x058, 0x0102_0304);
    put_u32(&mut bytes, 0x068, 0x0004_0000);
    bytes[0x06C] = 0xCD;
    bytes[0x06D] = 0xAB;
    put_u32(&mut bytes, 0x080, 0x0123_4567);
    put_u32(&mut bytes, 0x084, 0x0000_4000);
    bytes[0x15E] = 0x34;
    bytes[0x15F] = 0x12;
    put_u32(&mut bytes, 0x160, 0x1111_2222);
    put_u32(&mut bytes, 0x164, 0x3333_4444);
    put_u32(&mut bytes, 0x168, 0x5555_6666);

    let header = CartridgeHeader::parse(&bytes).unwrap();
    assert_eq!(header.title.data(), b"PONY FRIENDS");
    assert_eq!(header.game_code.as_str(), Some("APOP"));
    assert_eq!(header.maker_code.data(), b"7");
    assert_eq!(header.unit_code, 0x11);
    assert_eq!(header.encryption_seed_select, 0x22);
    assert_eq!(header.device_capacity_raw, 7);
    assert_eq!(header._reserved_0, bytes[0x015..0x01C]);
    assert_eq!(header._reserved_1, bytes[0x01C]);
    assert_eq!(header.region, 0x33);
    assert_eq!(header.rom_version, 0x44);
    assert_eq!(header.autostart, 0x55);
    assert_eq!(header.arm9.rom_offset.get(), 0x0000_4000);
    assert_eq!(header.arm9.entry_address.get(), 0x0200_0800);
    assert_eq!(header.arm9.ram_address.get(), 0x0200_0000);
    assert_eq!(header.arm9.size.get(), 0x0001_2345);
    assert_eq!(header.arm7.rom_offset.get(), 0x0002_0000);
    assert_eq!(header.arm7.size.get(), 0x0000_6789);
    assert_eq!(header.fnt.offset.get(), 0x0003_0000);
    assert_eq!(header.fnt.size.get(), 0x0000_0123);
    assert_eq!(header.fat.offset.get(), 0x0003_1000);
    assert_eq!(header.fat.size.get(), 0x0000_0040);
    assert_eq!(header.arm9_overlay.offset.get(), 0x0A0B_0C0D);
    assert_eq!(header.arm7_overlay.offset.get(), 0x0102_0304);
    assert_eq!(header.port_40001a4_normal.0, bytes[0x060..0x064]);
    assert_eq!(header.port_40001a4_key1.0, bytes[0x064..0x068]);
    assert_eq!(header.icon_title_offset.get(), 0x0004_0000);
    assert_eq!(header.secure_area_checksum.get(), 0xABCD);
    assert_eq!(header.secure_area_delay.0, bytes[0x06E..0x070]);
    assert_eq!(header.arm9_auto_load.0, bytes[0x070..0x074]);
    assert_eq!(header.arm7_auto_load.0, bytes[0x074..0x078]);
    assert_eq!(header.secure_area_disable.0, bytes[0x078..0x080]);
    assert_eq!(header.total_used_rom_size.get(), 0x0123_4567);
    assert_eq!(header.rom_header_size.get(), 0x0000_4000);
    assert_eq!(header._unknown_1, bytes[0x088..0x08C]);
    assert_eq!(header._reserved_3, bytes[0x08C..0x094]);
    assert_eq!(header.nand_end_of_rom.0, bytes[0x094..0x096]);
    assert_eq!(header.nand_start_of_rw.0, bytes[0x096..0x098]);
    assert_eq!(header._reserved_4, bytes[0x098..0x0B0]);
    assert_eq!(header.fast_boot.0, bytes[0x0B0..0x0C0]);
    assert_eq!(header.nintendo_logo, bytes[0x0C0..0x15C]);
    assert_eq!(header.nintendo_logo_checksum.0, bytes[0x15C..0x15E]);
    assert_eq!(header.header_checksum.get(), 0x1234);
    assert_eq!(header.debug.offset.get(), 0x1111_2222);
    assert_eq!(header.debug.size.get(), 0x3333_4444);
    assert_eq!(header.debug_ram_address.get(), 0x5555_6666);
    assert_eq!(header._reserved_5, bytes[0x16C..0x200]);
}

#[test]
fn header_ignores_what_follows_it() {
    let bytes = header_bytes();
    let mut longer = bytes.clone();
    longer.extend_from_slice(&[0xEE; 64]);
    let short = CartridgeHeader::parse(&bytes).unwrap();
    let long = CartridgeHeader::parse(&longer).unwrap();
    assert_eq!(short.title.0, long.title.0);
    assert_eq!(short._reserved_5, long._reserved_5);
    assert_eq!(short.debug_ram_address.0, long.debug_ram_address.0);
}

#[test]
fn device_capacity_doubles_with_each_step() {
    let mut bytes = header_bytes();
    bytes[0x014] = 0;
    assert_eq!(CartridgeHeader::parse(&bytes).unwrap().device_capacity(), 128 * 1024);
    bytes[0x014] = 1;
    assert_eq!(CartridgeHeader::parse(&bytes).unwrap().device_capacity(), 256 * 1024);
    bytes[0x014] = 7;
    assert_eq!(CartridgeHeader::parse(&bytes).unwrap().device_capacity(), 16 * 1024 * 1024);
    bytes[0x014] = MAX_DEVICE_CAPACITY_RAW;
    assert_eq!(CartridgeHeader::parse(&bytes).unwrap().device_capacity(), 1u128 << 127);
}

#[test]
fn default_array_is_filled_with_the_default() {
    let bytes: [u8; 7] = default_array();
    assert_eq!(bytes, [0; 7]);
    let flags: [bool; 3] = default_array();
    assert_eq!(flags, [false; 3]);
    let none: [u32; 0] = default_array();
    assert_eq!(none.len(), 0);
}

#[test]
fn allocation_table_has_an_entry_for_every_eight_bytes() {
    let mut image = image_with_tables((0, 0), (0x200, 24), 0x300);
    put_u32(&mut image, 0x200, 0x220);
    put_u32(&mut image, 0x204, 0x225);
    put_u32(&mut image, 0x208, 0x230);
    put_u32(&mut image, 0x20C, 0x230);
    put_u32(&mut image, 0x210, 0x2F0);
    put_u32(&mut image, 0x214, 0x300);
    image[0x220..0x225].copy_from_slice(b"HELLO");
    let header = CartridgeHeader::parse(&image).unwrap();
    let table = header.read_fat(&image).unwrap();
    assert_eq!(table.len(), 3);
    assert_eq!(table.records.len(), 3);

    let first = table.get(0).unwrap();
    assert_eq!(first.start.get(), 0x220);
    assert_eq!(first.end.get(), 0x225);
    assert_eq!(first.get_file(&image), Some(&b"HELLO"[..]));

    let empty = table.get(1).unwrap();
    assert_eq!(empty.get_file(&image), Some(&b""[..]));

    let last = table.get(2).unwrap();
    assert_eq!(last.get_file(&image).unwrap().len(), 0x10);
    assert!(table.get(3).is_none());
}

#[test]
fn allocation_table_is_read_by_the_entry_type_too() {
    let image = image_with_tables((0, 0), (0x200, 16), 0x210);
    let header = CartridgeHeader::parse(&image).unwrap();
    let table = FileAllocationTableEntry::read_fat(&header, &image).unwrap();
    assert_eq!(table.len(), 2);
}

#[test]
fn allocation_table_must_lie_within_the_image() {
    let image = image_with_tables((0, 0), (0x200, 16), 0x20F);
    let header = CartridgeHeader::parse(&image).unwrap();
    assert!(header.read_fat(&image).is_none());
    let image = image_with_tables((0, 0), (0xFFFF_FFF8, 16), 0x300);
    let header = CartridgeHeader::parse(&image).unwrap();
    assert!(header.read_fat(&image).is_none());
    let image = image_with_tables((0, 0), (0x300, 0), 0x300);
    let header = CartridgeHeader::parse(&image).unwrap();
    assert_eq!(header.read_fat(&image).unwrap().len(), 0);
}

#[test]
fn allocation_table_size_must_be_whole_entries() {
    for size in [1, 7, 9, 12, 15] {
        let image = image_with_tables((0, 0), (0x200, size), 0x300);
        let header = CartridgeHeader::parse(&image).unwrap();
        assert!(header.read_fat(&image).is_none());
    }
}

#[test]
fn file_range_must_lie_within_the_image() {
    let mut image = image_with_tables((0, 0), (0x200, 24), 0x300);
    put_u32(&mut image, 0x200, 0x2F0);
    put_u32(&mut image, 0x204, 0x301);
    put_u32(&mut image, 0x208, 0x250);
    put_u32(&mut image, 0x20C, 0x240);
    put_u32(&mut image, 0x210, 0x300);
    put_u32(&mut image, 0x214, 0x300);
    let header = CartridgeHeader::parse(&image).unwrap();
    let table = header.read_fat(&image).unwrap();
    assert!(table.get(0).unwrap().get_file(&image).is_none());
    assert!(table.get(1).unwrap().get_file(&image).is_none());
    assert_eq!(table.get(2).unwrap().get_file(&image), Some(&b""[..]));
}

#[test]
fn entry_is_made_of_the_two_halves_of_its_record() {
    let entry = FileAllocationTableEntry::from_record(&[1, 0, 0, 0, 2, 1, 0, 0]);
    assert_eq!(entry.start.get(), 1);
    assert_eq!(entry.end.get(), 0x102);
}

#[test]
fn name_table_of_size_zero_is_empty() {
    let image = image_with_tables((0xFFFF_0000, 0), (0x200, 0), 0x200);
    let header = CartridgeHeader::parse(&image).unwrap();
    let table = header.read_fnt(&image).unwrap();
    assert_eq!(table.main_table.len(), 0);
    assert_eq!(table.sub_tables.len(), 0);
}

#[test]
fn files_need_both_tables() {
    let mut image = image_with_tables((0x200, 9), (0x210, 8), 0x300);
    image[0x200..0x208].copy_from_slice(&[8, 0, 0, 0, 0, 0, 1, 0]);
    image[0x208] = 0;
    let header = CartridgeHeader::parse(&image).unwrap();
    let files = header.read_files(&image).unwrap();
    assert_eq!(files.fnt.main_table.len(), 1);
    assert_eq!(files.fnt.sub_tables.len(), 1);
    assert_eq!(files.fnt.sub_tables[0].len(), 0);
    assert_eq!(files.fat.len(), 1);
    assert_eq!(files.rom, &image[..]);
    assert!(Files::read(&header, &image).is_some());

    let without_fat = image_with_tables((0x200, 0), (0x2FF, 8), 0x300);
    let header = CartridgeHeader::parse(&without_fat).unwrap();
    assert!(header.read_fnt(&without_fat).is_some());
    assert!(header.read_files(&without_fat).is_none());

    let without_fnt = image_with_tables((0x2FC, 8), (0x210, 8), 0x300);
    let header = CartridgeHeader::parse(&without_fnt).unwrap();
    assert!(header.read_fat(&without_fnt).is_some());
    assert!(header.read_fnt(&without_fnt).is_none());
    assert!(header.read_files(&without_fnt).is_none());
}
