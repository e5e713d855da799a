use pony_reader::byte_types::embedded_string::{DynamicEmbeddedString, EmbeddedStringCommon};
use pony_reader::cartridge_header::CartridgeHeader;
use pony_reader::file::file_name_table::{
    DirectoryMainTable, DirectoryMainTableEntry, FileNameTable, SubTableEntry, WalkEntry,
    DIRECTORY_BIT, FIRST_DIRECTORY_ID,
};

fn main_entry(offset: u32, first_file: u16, total_or_parent: u16) -> Vec<u8> {
    let mut bytes = offset.to_le_bytes().to_vec();
    bytes.extend_from_slice(&first_file.to_le_bytes());
    bytes.extend_from_slice(&total_or_parent.to_le_bytes());
    bytes
}

fn file_record(name: &[u8]) -> Vec<u8> {
    let mut bytes = vec![name.len() as u8];
    bytes.extend_from_slice(name);
    bytes
}

fn directory_record(name: &[u8], id: u16) -> Vec<u8> {
    let mut bytes = vec![name.len() as u8 | 0x80];
    bytes.extend_from_slice(name);
    bytes.extend_from_slice(&id.to_le_bytes());
    bytes
}

/// A name table made of the sub-table of each directory, with the first
/// file identifier and the parent of each.
fn name_table(directories: &[(u16, u16, Vec<u8>)]) -> Vec<u8> {
    let mut main = Vec::new();
    let mut subs = Vec::new();
    let mut offset = 8 * directories.len();
    for (index, (first_file, parent, sub_table)) in directories.iter().enumerate() {
        let last = if index == 0 { directories.len() as u16 } else { *parent };
        main.extend_from_slice(&main_entry(offset as u32, *first_file, last));
        subs.extend_from_slice(sub_table);
        offset += sub_table.len();
    }
    main.extend_from_slice(&subs);
    main
}

fn walked(table: &FileNameTable) -> Vec<(Vec<String>, u16)> {
    table
        .walk()
        .unwrap()
        .iter()
        .map(|entry: &WalkEntry| {
            let path = entry.path.iter().map(|name| name.to_text()).collect();
            (path, entry.id)
        })
        .collect()
}

fn path(names: &[&str]) -> Vec<String> {
    names.iter().map(|name| name.to_string()).collect()
}

#[test]
fn walk_of_a_root_with_one_file() {
    let mut root = file_record(b"A.TXT");
    root.push(0);
    let bytes = name_table(&[(0, 0, root)]);
    let table = FileNameTable::read(&bytes, 0).unwrap();
    assert_eq!(table.main_table.len(), 1);
    assert_eq!(table.sub_tables.len(), 1);
    assert_eq!(walked(&table), vec![(path(&["A.TXT"]), 0)]);
}

#[test]
fn walk_of_a_root_with_one_directory_that_holds_one_file() {
    let mut root = directory_record(b"SUB", 0xF001);
    root.push(0);
    let mut sub = file_record(b"B.TXT");
    sub.push(0);
    let bytes = name_table(&[(0, 0, root), (5, 0xF000, sub)]);
    let table = FileNameTable::read(&bytes, 0).unwrap();
    assert_eq!(table.main_table[1].id_of_first_file.get(), 5);
    assert_eq!(
        walked(&table),
        vec![(path(&["SUB"]), 0xF001), (path(&["SUB", "B.TXT"]), 5)]
    );
}

#[test]
fn walk_of_two_levels_with_three_files() {
    let mut root = file_record(b"A.TXT");
    root.extend_from_slice(&directory_record(b"SUB", 0xF001));
    root.extend_from_slice(&file_record(b"C.BIN"));
    root.push(0);
    let mut sub = file_record(b"B.TXT");
    sub.push(0);
    let bytes = name_table(&[(0, 0, root), (2, 0xF000, sub)]);
    let table = FileNameTable::read(&bytes, 0).unwrap();
    let all = walked(&table);
    assert_eq!(
        all,
        vec![
            (path(&["A.TXT"]), 0),
            (path(&["SUB"]), 0xF001),
            (path(&["SUB", "B.TXT"]), 2),
            (path(&["C.BIN"]), 1),
        ]
    );
    let files: Vec<_> = all.into_iter().filter(|(_, id)| *id < FIRST_DIRECTORY_ID).collect();
    assert_eq!(
        files,
        vec![
            (path(&["A.TXT"]), 0),
            (path(&["SUB", "B.TXT"]), 2),
            (path(&["C.BIN"]), 1),
        ]
    );
}

#[test]
fn walk_gives_the_same_result_every_time() {
    let mut root = file_record(b"ONE");
    root.extend_from_slice(&file_record(b"TWO"));
    root.push(0);
    let bytes = name_table(&[(7, 0, root)]);
    let table = FileNameTable::read(&bytes, 0).unwrap();
    let first = walked(&table);
    assert_eq!(first, vec![(path(&["ONE"]), 7), (path(&["TWO"]), 8)]);
    assert_eq!(walked(&table), first);
}

#[test]
fn walk_goes_three_levels_deep() {
    let mut root = directory_record(b"A", 0xF001);
    root.extend_from_slice(&file_record(b"R"));
    root.push(0);
    let mut a = directory_record(b"B", 0xF002);
    a.push(0);
    let mut b = file_record(b"F");
    b.push(0);
    let bytes = name_table(&[(0, 0, root), (1, 0xF000, a), (1, 0xF001, b)]);
    let table = FileNameTable::read(&bytes, 0).unwrap();
    assert_eq!(
        walked(&table),
        vec![
            (path(&["A"]), 0xF001),
            (path(&["A", "B"]), 0xF002),
            (path(&["A", "B", "F"]), 1),
            (path(&["R"]), 0),
        ]
    );
}

#[test]
fn table_without_directories_allows_no_walk() {
    let table = FileNameTable { main_table: vec![], sub_tables: vec![] };
    assert!(table.walk().is_none());
}

#[test]
fn directory_that_the_table_lacks_allows_no_walk() {
    let mut root = directory_record(b"GONE", 0xF001);
    root.push(0);
    let bytes = name_table(&[(0, 0, root)]);
    let table = FileNameTable::read(&bytes, 0).unwrap();
    assert!(table.walk().is_none());
}

#[test]
fn directory_with_the_identifier_of_a_file_allows_no_walk() {
    let mut root = directory_record(b"ODD", 0x0001);
    root.push(0);
    let bytes = name_table(&[(0, 0, root)]);
    let table = FileNameTable::read(&bytes, 0).unwrap();
    assert!(table.walk().is_none());
}

#[test]
fn directory_within_itself_allows_no_walk() {
    let mut root = directory_record(b"LOOP", 0xF000);
    root.push(0);
    let bytes = name_table(&[(0, 0, root)]);
    let table = FileNameTable::read(&bytes, 0).unwrap();
    assert!(table.walk().is_none());

    let mut root = directory_record(b"DOWN", 0xF001);
    root.push(0);
    let mut sub = directory_record(b"UP", 0xF000);
    sub.push(0);
    let bytes = name_table(&[(0, 0, root), (0, 0xF000, sub)]);
    let table = FileNameTable::read(&bytes, 0).unwrap();
    assert!(table.walk().is_none());
}

#[test]
fn directory_that_is_met_twice_is_walked_twice() {
    let mut root = directory_record(b"X", 0xF001);
    root.extend_from_slice(&directory_record(b"Y", 0xF001));
    root.push(0);
    let mut sub = file_record(b"F");
    sub.push(0);
    let bytes = name_table(&[(0, 0, root), (3, 0xF000, sub)]);
    let table = FileNameTable::read(&bytes, 0).unwrap();
    assert_eq!(
        walked(&table),
        vec![
            (path(&["X"]), 0xF001),
            (path(&["X", "F"]), 3),
            (path(&["Y"]), 0xF001),
            (path(&["Y", "F"]), 3),
        ]
    );
}

#[test]
fn file_identifier_must_fit_sixteen_bits() {
    let mut root = file_record(b"LAST");
    root.push(0);
    let bytes = name_table(&[(0xFFFF, 0, root.clone())]);
    let table = FileNameTable::read(&bytes, 0).unwrap();
    assert_eq!(walked(&table), vec![(path(&["LAST"]), 0xFFFF)]);

    let mut two = file_record(b"LAST");
    two.extend_from_slice(&file_record(b"NEXT"));
    two.push(0);
    let bytes = name_table(&[(0xFFFF, 0, two)]);
    let table = FileNameTable::read(&bytes, 0).unwrap();
    assert!(table.walk().is_none());
}

#[test]
fn lists_of_different_lengths_allow_no_walk() {
    let root = DirectoryMainTableEntry::from_record(&[8, 0, 0, 0, 0, 0, 1, 0]);
    let table = FileNameTable { main_table: vec![root], sub_tables: vec![] };
    assert!(table.walk().is_none());
}

#[test]
fn sub_table_that_starts_with_its_end_is_empty() {
    let bytes = name_table(&[(0, 0, vec![0, 5, b'A', b'.', b'T', b'X', b'T', 0])]);
    let table = FileNameTable::read(&bytes, 0).unwrap();
    assert_eq!(table.sub_tables[0].len(), 0);
    assert_eq!(table.walk().unwrap().len(), 0);
}

#[test]
fn sub_table_ends_where_a_record_is_cut_short() {
    let mut root = file_record(b"GOOD");
    root.extend_from_slice(&[9, b'C', b'U', b'T']);
    let bytes = name_table(&[(0, 0, root)]);
    let table = FileNameTable::read(&bytes, 0).unwrap();
    assert_eq!(table.sub_tables[0].len(), 1);
    assert_eq!(walked(&table), vec![(path(&["GOOD"]), 0)]);

    let mut root = file_record(b"GOOD");
    root.extend_from_slice(&[0x83, b'D', b'I', b'R', 0x01]);
    let bytes = name_table(&[(0, 0, root)]);
    let table = FileNameTable::read(&bytes, 0).unwrap();
    assert_eq!(table.sub_tables[0].len(), 1);
}

#[test]
fn sub_table_ends_at_the_end_of_the_buffer() {
    let root = file_record(b"ONLY");
    let bytes = name_table(&[(0, 0, root)]);
    let table = FileNameTable::read(&bytes, 0).unwrap();
    assert_eq!(walked(&table), vec![(path(&["ONLY"]), 0)]);
}

#[test]
fn name_table_is_read_from_where_it_starts() {
    let mut root = file_record(b"A.TXT");
    root.push(0);
    let mut bytes = vec![0xEE; 37];
    bytes.extend_from_slice(&name_table(&[(4, 0, root)]));
    bytes.extend_from_slice(&[0xEE; 5]);
    let table = FileNameTable::read(&bytes, 37).unwrap();
    assert_eq!(table.main_table.len(), 1);
    assert_eq!(table.main_table[0].offset_to_sub_table.get(), 8);
    assert_eq!(table.main_table[0].id_of_first_file.get(), 4);
    assert_eq!(table.main_table[0].total_or_parent.get(), 1);
    assert_eq!(walked(&table), vec![(path(&["A.TXT"]), 4)]);
}

#[test]
fn name_table_must_hold_its_main_table() {
    let bytes = name_table(&[(0, 0, vec![0])]);
    assert!(FileNameTable::read(&bytes, bytes.len() + 1).is_none());
    assert!(FileNameTable::read(&bytes, bytes.len()).is_none());
    assert!(FileNameTable::read(&bytes[..7], 0).is_none());
    let two = main_entry(16, 0, 2);
    assert!(FileNameTable::read(&two, 0).is_none());
    let mut enough = two.clone();
    enough.extend_from_slice(&main_entry(16, 0, 0xF000));
    assert!(FileNameTable::read(&enough, 0).is_some());
}

#[test]
fn name_table_with_no_directories_is_empty() {
    let bytes = main_entry(8, 0, 0);
    let table = FileNameTable::read(&bytes, 0).unwrap();
    assert_eq!(table.main_table.len(), 0);
    assert_eq!(table.sub_tables.len(), 0);
}

#[test]
fn sub_table_must_start_within_the_buffer() {
    let bytes = main_entry(9, 0, 1);
    assert!(FileNameTable::read(&bytes, 0).is_none());
    let at_the_end = main_entry(8, 0, 1);
    let table = FileNameTable::read(&at_the_end, 0).unwrap();
    assert_eq!(table.sub_tables[0].len(), 0);
    let far = main_entry(0xFFFF_FFFF, 0, 1);
    assert!(FileNameTable::read(&far, 0).is_none());
}

#[test]
fn main_table_is_wrapped_as_its_root_says() {
    let mut bytes = main_entry(24, 3, 3);
    bytes.extend_from_slice(&main_entry(30, 4, 0xF000));
    bytes.extend_from_slice(&main_entry(40, 9, 0xF001));
    bytes.extend_from_slice(&[1, 2, 3]);
    let table = DirectoryMainTable::wrap(&bytes).unwrap();
    assert_eq!(table.len(), 3);
    let entries = table.to_vec();
    assert_eq!(entries.len(), 3);
    assert_eq!(entries[1].offset_to_sub_table.get(), 30);
    assert_eq!(entries[1].id_of_first_file.get(), 4);
    assert_eq!(entries[1].total_or_parent.get(), 0xF000);
    assert_eq!(entries[2].offset_to_sub_table.get(), 40);
    assert_eq!(entries[2].id_of_first_file.get(), 9);
    assert!(DirectoryMainTable::wrap(&bytes[..23]).is_none());
    assert!(DirectoryMainTable::wrap(&bytes[..24]).is_some());
    assert!(DirectoryMainTable::wrap(&bytes[..7]).is_none());
}

#[test]
fn record_of_a_file() {
    let bytes = [3, b'A', b'B', b'C', 9, 9];
    let (entry, rest) = SubTableEntry::parse(&bytes).unwrap();
    match entry {
        SubTableEntry::FileEntry { name } => assert_eq!(name.data(), b"ABC"),
        SubTableEntry::DirectoryEntry { .. } => panic!("a file was parsed as a directory"),
    }
    assert_eq!(rest, &[9, 9]);
}

#[test]
fn record_of_a_directory() {
    let bytes = [0x82, b'D', b'R', 0x34, 0xF0, 7];
    let (entry, rest) = SubTableEntry::parse(&bytes).unwrap();
    match entry {
        SubTableEntry::DirectoryEntry { name, directory_id } => {
            assert_eq!(name.data(), b"DR");
            assert_eq!(directory_id.get(), 0xF034);
        },
        SubTableEntry::FileEntry { .. } => panic!("a directory was parsed as a file"),
    }
    assert_eq!(rest, &[7]);
}

#[test]
fn record_with_the_longest_name() {
    let mut bytes = vec![0x7F];
    bytes.extend_from_slice(&[b'n'; 127]);
    let (entry, rest) = SubTableEntry::parse(&bytes).unwrap();
    match entry {
        SubTableEntry::FileEntry { name } => {
            assert_eq!(name.len(), 127);
            assert_eq!(name.data(), &[b'n'; 127]);
        },
        SubTableEntry::DirectoryEntry { .. } => panic!("a file was parsed as a directory"),
    }
    assert_eq!(rest.len(), 0);
    let mut directory = vec![0xFF];
    directory.extend_from_slice(&[b'n'; 127]);
    directory.extend_from_slice(&[0x00, 0xF0]);
    assert!(SubTableEntry::parse(&directory).is_some());
}

#[test]
fn name_may_hold_zero_bytes() {
    let bytes = [3, b'A', 0, b'C'];
    let (entry, _) = SubTableEntry::parse(&bytes).unwrap();
    match entry {
        SubTableEntry::FileEntry { name } => assert_eq!(name.data(), &[b'A', 0, b'C']),
        SubTableEntry::DirectoryEntry { .. } => panic!("a file was parsed as a directory"),
    }
}

#[test]
fn no_record_where_the_sub_table_ends() {
    assert!(SubTableEntry::parse(&[]).is_none());
    assert!(SubTableEntry::parse(&[0]).is_none());
    assert!(SubTableEntry::parse(&[0, 1, 2, 3]).is_none());
    assert!(SubTableEntry::parse(&[DIRECTORY_BIT, 1, 2, 3]).is_none());
}

#[test]
fn no_record_where_the_buffer_cuts_it_short() {
    assert!(SubTableEntry::parse(&[3, b'A', b'B']).is_none());
    assert!(SubTableEntry::parse(&[1]).is_none());
    assert!(SubTableEntry::parse(&[0x81, b'A']).is_none());
    assert!(SubTableEntry::parse(&[0x81, b'A', 0x00]).is_none());
    assert!(SubTableEntry::parse(&[0x81, b'A', 0x00, 0xF0]).is_some());
}

#[test]
fn names_of_a_walk_are_those_of_the_table() {
    let mut root = file_record(&[0xFF, 0x00, 0x41]);
    root.push(0);
    let bytes = name_table(&[(0, 0, root)]);
    let table = FileNameTable::read(&bytes, 0).unwrap();
    let all = table.walk().unwrap();
    assert_eq!(all.len(), 1);
    let name: &DynamicEmbeddedString<127> = &all[0].path[0];
    assert_eq!(name.data(), &[0xFF, 0x00, 0x41]);
    assert_eq!(name.as_str_lossy(), "\u{FFFD}\u{0}A");
    assert_eq!(name.to_text(), "ff0041");
}

#[test]
fn header_leads_to_the_name_table() {
    let mut root = file_record(b"A.TXT");
    root.push(0);
    let fnt = name_table(&[(0, 0, root)]);
    let mut image = vec![0u8; 0x200];
    image[0x040..0x044].copy_from_slice(&0x200u32.to_le_bytes());
    image[0x044..0x048].copy_from_slice(&(fnt.len() as u32).to_le_bytes());
    image[0x048..0x04C].copy_from_slice(&0x200u32.to_le_bytes());
    image.extend_from_slice(&fnt);
    let header = CartridgeHeader::parse(&image).unwrap();
    let table = header.read_fnt(&image).unwrap();
    assert_eq!(walked(&table), vec![(path(&["A.TXT"]), 0)]);
    let files = header.read_files(&image).unwrap();
    assert_eq!(files.fat.len(), 0);
    assert_eq!(walked(&files.fnt), vec![(path(&["A.TXT"]), 0)]);
}
