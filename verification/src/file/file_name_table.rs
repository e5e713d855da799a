//! The file name table: the directories of a cartridge image, the names in
//! each of them, and the identifiers that the names stand for.
//!
//! The table starts with the main table, one entry of eight bytes for each
//! directory. The entry of a directory points to its sub-table, the list of
//! the names in it. A sub-table is a run of records of varying length that
//! ends at a zero byte.

use crate::byte_types::embedded_string::DynamicEmbeddedString;
use crate::byte_types::embedded_string::EmbeddedStringCommon;
use crate::byte_types::embedded_string::EmbeddedStringMake;
use crate::byte_types::integer::le_value;
use crate::byte_types::integer::lemma_le_value_bound;
use crate::byte_types::integer::lemma_radix_values;
use crate::byte_types::integer::LittleEndian;
use crate::byte_types::integer::U16;
use crate::byte_types::integer::U32;
use crate::byte_types::overlay::are_records_of;
use crate::byte_types::overlay::array_at;
use crate::byte_types::overlay::record_at;
use crate::byte_types::overlay::split_array;
use crate::byte_types::overlay::split_records;
use core::marker::PhantomData;
use vstd::prelude::*;
use vstd::slice::slice_subrange;

verus! {

/// The identifier of the root directory. Identifiers from here on stand for
/// directories, those below for files.
pub const FIRST_DIRECTORY_ID: u16 = 0xF000;

/// The bit of a record's first byte that marks a directory.
pub const DIRECTORY_BIT: u8 = 0x80;

/// One directory in the main table.
#[derive(Copy, Clone, Debug)]
pub struct DirectoryMainTableEntry {
    /// Where the directory's sub-table starts, counted from the start of the
    /// name table.
    pub offset_to_sub_table: U32<LittleEndian>,
    /// The identifier of the first file in the directory.
    pub id_of_first_file: U16<LittleEndian>,
    /// For the root directory the number of directories, for any other the
    /// identifier of its parent.
    pub total_or_parent: U16<LittleEndian>,
}

/// What a main table entry says, as numbers.
pub struct DirectoryMainTableEntryView {
    pub offset_to_sub_table: u32,
    pub id_of_first_file: u16,
    pub total_or_parent: u16,
}

/// The main table as it lies in the image, one record of eight bytes for
/// each directory.
#[derive(Copy, Clone, Debug)]
pub struct DirectoryMainTable<'lt>(pub &'lt [[u8; 8]]);

/// One name in a directory.
#[derive(Copy, Clone, Debug)]
pub enum SubTableEntry {
    /// The name of a file.
    FileEntry { name: DynamicEmbeddedString<127> },
    /// The name of a directory and its identifier.
    DirectoryEntry { name: DynamicEmbeddedString<127>, directory_id: U16<LittleEndian> },
}

/// What a sub-table entry says: the bytes of a name and, for a directory,
/// its identifier.
pub enum SubTableEntryView {
    File { name: Seq<u8> },
    Directory { name: Seq<u8>, directory_id: u16 },
}

/// What the eight bytes of a main table record say.
pub open spec fn main_entry_of(record: Seq<u8>) -> DirectoryMainTableEntryView {
    DirectoryMainTableEntryView {
        offset_to_sub_table: le_value(record.subrange(0, 4)) as u32,
        id_of_first_file: le_value(record.subrange(4, 6)) as u16,
        total_or_parent: le_value(record.subrange(6, 8)) as u16,
    }
}

/// The number of directories that a name table declares: the last field of
/// its first record, that of the root directory.
pub open spec fn directory_count(table: Seq<u8>) -> nat {
    le_value(table.subrange(6, 8))
}

impl View for DirectoryMainTableEntry {
    type V = DirectoryMainTableEntryView;

    open spec fn view(&self) -> DirectoryMainTableEntryView {
        DirectoryMainTableEntryView {
            offset_to_sub_table: self.offset_to_sub_table.value(),
            id_of_first_file: self.id_of_first_file.value(),
            total_or_parent: self.total_or_parent.value(),
        }
    }
}

impl DirectoryMainTableEntry {
    /// The entry in the eight bytes of `record`.
    pub fn from_record(record: &[u8; 8]) -> (entry: Self)
        ensures
            entry@ == main_entry_of(record@),
    {
        DirectoryMainTableEntry {
            offset_to_sub_table: U32(array_at(record, 0), PhantomData),
            id_of_first_file: U16(array_at(record, 4), PhantomData),
            total_or_parent: U16(array_at(record, 6), PhantomData),
        }
    }
}

impl<'lt> DirectoryMainTable<'lt> {
    /// The main table at the start of `slice`.
    ///
    /// The first record is that of the root directory and says how many
    /// records there are. There is a table exactly when `slice` holds a
    /// first record and as many records as that one says.
    pub fn wrap(slice: &'lt [u8]) -> (table: Option<Self>)
        ensures
            table is Some <==> slice@.len() >= 8 && 8 * directory_count(slice@) <= slice@.len(),
            table matches Some(t) ==> t.0@.len() == directory_count(slice@) && are_records_of(
                t.0@,
                slice@.take(8 * directory_count(slice@) as int),
            ),
    {
        let head = match split_array::<8>(slice) {
            Some((head, _)) => DirectoryMainTableEntry::from_record(head),
            None => {
                return None;
            },
        };
        proof {
            assert(slice@.take(8).subrange(6, 8) =~= slice@.subrange(6, 8));
            lemma_le_value_bound(slice@.subrange(6, 8));
            lemma_radix_values();
        }
        let total: usize = head.total_or_parent.get() as usize;
        match split_records::<8>(slice, total) {
            Some((records, _)) => Some(DirectoryMainTable(records)),
            None => None,
        }
    }

    /// The number of directories.
    pub fn len(&self) -> (n: usize)
        ensures
            n == self.0@.len(),
    {
        self.0.len()
    }

    /// The entries of all directories, decoded in order.
    pub fn to_vec(&self) -> (entries: Vec<DirectoryMainTableEntry>)
        ensures
            entries@.len() == self.0@.len(),
            forall|i: int| 0 <= i < entries@.len() ==> (#[trigger] entries@[i])@ == main_entry_of(self.0@[i]@),
    {
        let mut entries: Vec<DirectoryMainTableEntry> = Vec::with_capacity(self.0.len());
        let mut i: usize = 0;
        while i < self.0.len()
            invariant
                i <= self.0@.len(),
                entries@.len() == i,
                forall|k: int| 0 <= k < i ==> (#[trigger] entries@[k])@ == main_entry_of(self.0@[k]@),
            decreases self.0@.len() - i,
        {
            entries.push(DirectoryMainTableEntry::from_record(&self.0[i]));
            i += 1;
        }
        entries
    }
}

impl View for SubTableEntry {
    type V = SubTableEntryView;

    open spec fn view(&self) -> SubTableEntryView {
        match self {
            SubTableEntry::FileEntry { name } => SubTableEntryView::File { name: name@ },
            SubTableEntry::DirectoryEntry { name, directory_id } => SubTableEntryView::Directory {
                name: name@,
                directory_id: directory_id.value(),
            },
        }
    }
}

impl SubTableEntry {
    /// The name is no longer than its buffer.
    pub open spec fn wf(&self) -> bool {
        match self {
            SubTableEntry::FileEntry { name } => name.wf(),
            SubTableEntry::DirectoryEntry { name, .. } => name.wf(),
        }
    }

    /// What the record at the start of `bytes` says and how many bytes it
    /// takes, or nothing if no record starts there.
    ///
    /// The first byte holds the length of the name in its low seven bits
    /// and marks a directory with its high bit. The name follows, and after
    /// the name of a directory the two bytes of its identifier. A length of
    /// zero ends the sub-table, and so does a record that `bytes` cuts
    /// short.
    pub open spec fn spec_parse(bytes: Seq<u8>) -> Option<(SubTableEntryView, int)> {
        if bytes.len() == 0 {
            None
        } else {
            let length = (bytes[0] % 128) as int;
            let directory = bytes[0] >= 128;
            if length == 0 || bytes.len() < 1 + length {
                None
            } else if !directory {
                Some((SubTableEntryView::File { name: bytes.subrange(1, 1 + length) }, 1 + length))
            } else if bytes.len() < 3 + length {
                None
            } else {
                Some(
                    (
                        SubTableEntryView::Directory {
                            name: bytes.subrange(1, 1 + length),
                            directory_id: le_value(bytes.subrange(1 + length, 3 + length)) as u16,
                        },
                        3 + length,
                    ),
                )
            }
        }
    }

    /// The record at the start of `slice` and the bytes after it, or
    /// nothing if no record starts there.
    pub fn parse(slice: &[u8]) -> (parsed: Option<(Self, &[u8])>)
        ensures
            match Self::spec_parse(slice@) {
                Some((said, taken)) => parsed matches Some((entry, rest)) && entry.wf() && entry@
                    == said && rest@ == slice@.skip(taken),
                None => parsed is None,
            },
    {
        if slice.len() == 0 {
            return None;
        }
        let marker: u8 = slice[0];
        let directory: bool = marker & DIRECTORY_BIT != 0;
        let length: usize = (marker & !DIRECTORY_BIT) as usize;
        assert(marker & !0x80u8 == marker % 128 && (marker & 0x80u8 != 0) == (marker >= 128))
            by (bit_vector);
        if length == 0 {
            return None;
        }
        if slice.len() - 1 < length {
            return None;
        }
        let after_marker = slice_subrange(slice, 1, slice.len());
        let name_bytes = slice_subrange(after_marker, 0, length);
        assert(name_bytes@ =~= slice@.subrange(1, 1 + length));
        let name = match DynamicEmbeddedString::<127>::from_slice(name_bytes) {
            Some(name) => name,
            None => {
                return None;
            },
        };
        let after_name = slice_subrange(after_marker, length, after_marker.len());
        assert(after_name@ =~= slice@.skip(1 + length));
        if directory {
            match split_array::<2>(after_name) {
                Some((id_bytes, rest)) => {
                    assert(id_bytes@ =~= slice@.subrange(1 + length, 3 + length));
                    assert(rest@ =~= slice@.skip(3 + length));
                    Some(
                        (
                            SubTableEntry::DirectoryEntry {
                                name,
                                directory_id: U16(*id_bytes, PhantomData),
                            },
                            rest,
                        ),
                    )
                },
                None => None,
            }
        } else {
            Some((SubTableEntry::FileEntry { name }, after_name))
        }
    }
}

/// The directories of an image and the names in each of them.
///
/// The directory at index `i` of both lists has the identifier
/// `FIRST_DIRECTORY_ID + i`. The directory at index zero is the root.
#[derive(Clone, Debug)]
pub struct FileNameTable {
    /// The entry of each directory in the main table.
    pub main_table: Vec<DirectoryMainTableEntry>,
    /// The names in each directory, in the order in which they are stored.
    pub sub_tables: Vec<Vec<SubTableEntry>>,
}

/// What a file name table says: for each directory its entry in the main
/// table and the names in it.
pub struct FileNameTableView {
    pub main_table: Seq<DirectoryMainTableEntryView>,
    pub sub_tables: Seq<Seq<SubTableEntryView>>,
}

/// What a list of names says.
pub open spec fn sub_table_view(entries: Seq<SubTableEntry>) -> Seq<SubTableEntryView> {
    entries.map_values(|entry: SubTableEntry| entry@)
}

/// The names of the sub-table that starts at the start of `bytes`: the
/// records from there on, up to the first place where no record starts.
pub open spec fn spec_sub_table(bytes: Seq<u8>) -> Seq<SubTableEntryView>
    decreases bytes.len(),
{
    match SubTableEntry::spec_parse(bytes) {
        Some((said, taken)) => seq![said] + spec_sub_table(bytes.skip(taken)),
        None => Seq::empty(),
    }
}

/// One name met on a walk through the directories: the names of the
/// directories that lead to it, its own name last, and its identifier.
///
/// An identifier below `FIRST_DIRECTORY_ID` stands for a file, any other for
/// a directory.
#[derive(Clone, Debug)]
pub struct WalkEntry {
    pub path: Vec<DynamicEmbeddedString<127>>,
    pub id: u16,
}

/// What a walk entry says: the bytes of each name of the path, and the
/// identifier.
pub struct WalkEntryView {
    pub path: Seq<Seq<u8>>,
    pub id: u16,
}

/// What a list of names says.
pub open spec fn path_view(path: Seq<DynamicEmbeddedString<127>>) -> Seq<Seq<u8>> {
    path.map_values(|name: DynamicEmbeddedString<127>| name@)
}

/// What a list of walk entries says.
pub open spec fn walk_view(walked: Seq<WalkEntry>) -> Seq<WalkEntryView> {
    walked.map_values(|entry: WalkEntry| entry@)
}

impl View for WalkEntry {
    type V = WalkEntryView;

    open spec fn view(&self) -> WalkEntryView {
        WalkEntryView { path: path_view(self.path@), id: self.id }
    }
}

/// What a walk meets in `entries`, the rest of the names of a directory
/// that lies at `path`, when the next file gets the identifier
/// `next_file_id` and directories may nest `depth` deep below this one.
///
/// A file is met under the next file identifier, which then goes up by one.
/// A directory is met under its own identifier, and all that is in it comes
/// next, before the names after it. There is no walk if a file identifier
/// no longer fits sixteen bits or if there is no walk of a directory.
pub open spec fn spec_walk_entries(
    table: FileNameTableView,
    entries: Seq<SubTableEntryView>,
    next_file_id: int,
    path: Seq<Seq<u8>>,
    depth: nat,
) -> Option<Seq<WalkEntryView>>
    decreases depth, 1nat, entries.len(),
{
    if entries.len() == 0 {
        Some(Seq::empty())
    } else {
        match entries[0] {
            SubTableEntryView::File { name } => {
                if next_file_id > u16::MAX {
                    None
                } else {
                    match spec_walk_entries(
                        table,
                        entries.drop_first(),
                        next_file_id + 1,
                        path,
                        depth,
                    ) {
                        Some(after) => Some(
                            seq![WalkEntryView { path: path.push(name), id: next_file_id as u16 }]
                                + after,
                        ),
                        None => None,
                    }
                }
            },
            SubTableEntryView::Directory { name, directory_id } => {
                match spec_walk_directory(
                    table,
                    directory_id - FIRST_DIRECTORY_ID,
                    path.push(name),
                    depth,
                ) {
                    Some(inside) => match spec_walk_entries(
                        table,
                        entries.drop_first(),
                        next_file_id,
                        path,
                        depth,
                    ) {
                        Some(after) => Some(
                            seq![WalkEntryView { path: path.push(name), id: directory_id }] + inside
                                + after,
                        ),
                        None => None,
                    },
                    None => None,
                }
            },
        }
    }
}

/// What a walk meets in the directory at index `directory`, which lies at
/// `path`, when directories may nest `depth` deep from this one on.
///
/// There is no walk if the table has no such directory or if `depth` is
/// used up.
pub open spec fn spec_walk_directory(
    table: FileNameTableView,
    directory: int,
    path: Seq<Seq<u8>>,
    depth: nat,
) -> Option<Seq<WalkEntryView>>
    decreases depth, 0nat, 0nat,
{
    if depth == 0 || directory < 0 || directory >= table.main_table.len() || directory
        >= table.sub_tables.len() {
        None
    } else {
        spec_walk_entries(
            table,
            table.sub_tables[directory],
            table.main_table[directory].id_of_first_file as int,
            path,
            (depth - 1) as nat,
        )
    }
}

/// What a walk through all directories meets, from the root on, or nothing
/// if the table allows no walk.
///
/// A path cannot lead through more directories than the table has unless
/// it leads through one of them twice, so that is as deep as a walk goes.
pub open spec fn spec_walk(table: FileNameTableView) -> Option<Seq<WalkEntryView>> {
    spec_walk_directory(table, 0, Seq::empty(), table.main_table.len())
}

impl View for FileNameTable {
    type V = FileNameTableView;

    open spec fn view(&self) -> FileNameTableView {
        FileNameTableView {
            main_table: self.main_table@.map_values(|entry: DirectoryMainTableEntry| entry@),
            sub_tables: self.sub_tables@.map_values(
                |entries: Vec<SubTableEntry>| sub_table_view(entries@),
            ),
        }
    }
}

impl FileNameTable {
    /// There is a list of names for each directory, and no name is longer
    /// than its buffer.
    pub open spec fn wf(&self) -> bool {
        &&& self.sub_tables@.len() == self.main_table@.len()
        &&& forall|i: int, j: int|
            0 <= i < self.sub_tables@.len() && 0 <= j < self.sub_tables@[i]@.len()
                ==> #[trigger] self.sub_tables@[i]@[j].wf()
    }

    /// What the name table that starts at `start` in `file` says, or
    /// nothing if there is none.
    ///
    /// There is none if the main table does not lie within `file`, or if
    /// the sub-table of a directory starts after the end of `file`.
    pub open spec fn spec_read(file: Seq<u8>, start: int) -> Option<FileNameTableView> {
        let table = file.skip(start);
        let total = directory_count(table);
        let main_table = Seq::new(total, |i: int| main_entry_of(record_at(table, 8, i)));
        if start > file.len() || table.len() < 8 || 8 * total > table.len() {
            None
        } else if exists|i: int|
            0 <= i < total && start + (#[trigger] main_table[i]).offset_to_sub_table > file.len() {
            None
        } else {
            Some(
                FileNameTableView {
                    main_table,
                    sub_tables: Seq::new(
                        total,
                        |i: int| spec_sub_table(file.skip(start + main_table[i].offset_to_sub_table)),
                    ),
                },
            )
        }
    }

    /// The names of the sub-table at the start of `bytes`.
    fn read_sub_table(bytes: &[u8]) -> (entries: Vec<SubTableEntry>)
        ensures
            sub_table_view(entries@) == spec_sub_table(bytes@),
            forall|j: int| 0 <= j < entries@.len() ==> #[trigger] entries@[j].wf(),
    {
        let mut entries: Vec<SubTableEntry> = Vec::new();
        let mut rest = bytes;
        loop
            invariant
                spec_sub_table(bytes@) == sub_table_view(entries@) + spec_sub_table(rest@),
                forall|j: int| 0 <= j < entries@.len() ==> #[trigger] entries@[j].wf(),
            ensures
                sub_table_view(entries@) == spec_sub_table(bytes@),
            decreases rest@.len(),
        {
            match SubTableEntry::parse(rest) {
                Some((entry, tail)) => {
                    proof {
                        assert(sub_table_view(entries@.push(entry)) =~= sub_table_view(entries@)
                            + seq![entry@]);
                        assert(sub_table_view(entries@) + (seq![entry@] + spec_sub_table(tail@))
                            =~= sub_table_view(entries@) + seq![entry@] + spec_sub_table(tail@));
                    }
                    entries.push(entry);
                    rest = tail;
                },
                None => {
                    assert(sub_table_view(entries@) + Seq::empty() =~= sub_table_view(entries@));
                    break ;
                },
            }
        }
        entries
    }

    /// The name table that starts at `start` in `file`, or nothing if there
    /// is none.
    pub fn read(file: &[u8], start: usize) -> (table: Option<Self>)
        ensures
            match Self::spec_read(file@, start as int) {
                Some(said) => table matches Some(t) && t@ == said && t.wf(),
                None => table is None,
            },
    {
        if start > file.len() {
            return None;
        }
        let table_bytes = slice_subrange(file, start, file.len());
        let main_table = match DirectoryMainTable::wrap(table_bytes) {
            Some(records) => records.to_vec(),
            None => {
                return None;
            },
        };
        let ghost table = file@.skip(start as int);
        let ghost total = directory_count(table);
        let ghost said_main = Seq::new(total, |i: int| main_entry_of(record_at(table, 8, i)));
        assert(main_table@.map_values(|entry: DirectoryMainTableEntry| entry@) =~= said_main) by {
            assert forall|i: int| 0 <= i < total implies (#[trigger] main_table@[i])@
                == said_main[i] by {
                assert(record_at(table.take(8 * total as int), 8, i) =~= record_at(table, 8, i));
            }
        }
        let mut sub_tables: Vec<Vec<SubTableEntry>> = Vec::with_capacity(main_table.len());
        let mut i: usize = 0;
        while i < main_table.len()
            invariant
                start <= file@.len(),
                table == file@.skip(start as int),
                total == directory_count(table),
                table.len() >= 8 && 8 * total <= table.len(),
                said_main == Seq::new(total, |i: int| main_entry_of(record_at(table, 8, i))),
                i <= main_table@.len() == total,
                sub_tables@.len() == i,
                main_table@.map_values(|entry: DirectoryMainTableEntry| entry@) == said_main,
                forall|k: int|
                    0 <= k < i ==> start + (#[trigger] said_main[k]).offset_to_sub_table
                        <= file@.len(),
                forall|k: int|
                    0 <= k < i ==> sub_table_view((#[trigger] sub_tables@[k])@) == spec_sub_table(
                        file@.skip(start + said_main[k].offset_to_sub_table),
                    ),
                forall|k: int, j: int|
                    0 <= k < i && 0 <= j < sub_tables@[k]@.len()
                        ==> #[trigger] sub_tables@[k]@[j].wf(),
            decreases main_table@.len() - i,
        {
            let offset: usize = main_table[i].offset_to_sub_table.get() as usize;
            assert(offset == said_main[i as int].offset_to_sub_table) by {
                assert(main_table@.map_values(|entry: DirectoryMainTableEntry| entry@)[i as int]
                    == main_table@[i as int]@);
            }
            if offset > file.len() - start {
                assert(start + said_main[i as int].offset_to_sub_table > file@.len());
                return None;
            }
            let sub_table = Self::read_sub_table(slice_subrange(file, start + offset, file.len()));
            sub_tables.push(sub_table);
            i += 1;
        }
        let table = FileNameTable { main_table, sub_tables };
        proof {
            let said = Self::spec_read(file@, start as int)->0;
            assert(table@.sub_tables =~= said.sub_tables);
        }
        Some(table)
    }
}

impl FileNameTable {
    /// A copy of `path`.
    fn copy_path(path: &Vec<DynamicEmbeddedString<127>>) -> (copy: Vec<DynamicEmbeddedString<127>>)
        ensures
            copy@ == path@,
    {
        let mut copy: Vec<DynamicEmbeddedString<127>> = Vec::with_capacity(path.len());
        let mut i: usize = 0;
        while i < path.len()
            invariant
                i <= path@.len(),
                copy@ == path@.take(i as int),
            decreases path@.len() - i,
        {
            copy.push(path[i]);
            assert(path@.take(i as int).push(path@[i as int]) =~= path@.take(i + 1));
            i += 1;
        }
        assert(path@.take(path@.len() as int) =~= path@);
        copy
    }

    /// Appends to `walked` what a walk meets in the directory at index
    /// `directory`, which lies at `path`, and says whether there is such a
    /// walk.
    fn walk_directory(
        &self,
        directory: usize,
        path: &mut Vec<DynamicEmbeddedString<127>>,
        walked: &mut Vec<WalkEntry>,
        depth: usize,
    ) -> (complete: bool)
        ensures
            match spec_walk_directory(
                self@,
                directory as int,
                path_view(old(path)@),
                depth as nat,
            ) {
                Some(said) => complete && final(path)@ == old(path)@ && walk_view(final(walked)@)
                    == walk_view(old(walked)@) + said,
                None => !complete,
            },
        decreases depth,
    {
        if depth == 0 || directory >= self.main_table.len() || directory >= self.sub_tables.len() {
            return false;
        }
        let entries = &self.sub_tables[directory];
        let mut next_file_id: u32 = self.main_table[directory].id_of_first_file.get() as u32;
        let ghost table = self@;
        let ghost names = sub_table_view(entries@);
        let ghost at = path_view(path@);
        let ghost below = (depth - 1) as nat;
        let ghost before = walk_view(walked@);
        let ghost whole = spec_walk_entries(table, names, next_file_id as int, at, below);
        let ghost mut met: Seq<WalkEntryView> = Seq::empty();
        assert(names.skip(0) =~= names);
        assert(before + met =~= before);
        let mut k: usize = 0;
        while k < entries.len()
            invariant
                table == self@,
                names == sub_table_view(entries@),
                at == path_view(path@),
                path@ == old(path)@,
                below == depth - 1,
                depth > 0,
                k <= entries@.len(),
                next_file_id <= u16::MAX + 1,
                walk_view(walked@) == before + met,
                whole == spec_walk_directory(
                    table,
                    directory as int,
                    path_view(old(path)@),
                    depth as nat,
                ),
                match spec_walk_entries(table, names.skip(k as int), next_file_id as int, at, below) {
                    Some(after) => whole == Some(met + after),
                    None => whole is None,
                },
            decreases entries@.len() - k,
        {
            let ghost rest = names.skip(k as int);
            proof {
                assert(rest[0] == entries@[k as int]@);
                assert(rest.drop_first() =~= names.skip(k + 1));
            }
            match &entries[k] {
                SubTableEntry::FileEntry { name } => {
                    if next_file_id > 0xFFFF {
                        return false;
                    }
                    path.push(*name);
                    let entry = WalkEntry { path: Self::copy_path(path), id: next_file_id as u16 };
                    proof {
                        assert(path_view(path@) =~= at.push(name@));
                        assert(walk_view(walked@.push(entry)) =~= walk_view(walked@).push(entry@));
                        let after = spec_walk_entries(
                            table,
                            names.skip(k + 1),
                            next_file_id + 1,
                            at,
                            below,
                        );
                        if let Some(after) = after {
                            assert(met + (seq![entry@] + after) =~= met.push(entry@) + after);
                        }
                        assert(before + met.push(entry@) =~= (before + met).push(entry@));
                        met = met.push(entry@);
                    }
                    walked.push(entry);
                    next_file_id += 1;
                    path.pop();
                    assert(path@ =~= old(path)@);
                },
                SubTableEntry::DirectoryEntry { name, directory_id } => {
                    let id: u16 = directory_id.get();
                    path.push(*name);
                    let entry = WalkEntry { path: Self::copy_path(path), id };
                    proof {
                        assert(path_view(path@) =~= at.push(name@));
                        assert(walk_view(walked@.push(entry)) =~= walk_view(walked@).push(entry@));
                        assert(before + met.push(entry@) =~= (before + met).push(entry@));
                    }
                    walked.push(entry);
                    if id < FIRST_DIRECTORY_ID {
                        return false;
                    }
                    let ghost pushed = path@;
                    if !self.walk_directory(
                        (id - FIRST_DIRECTORY_ID) as usize,
                        path,
                        walked,
                        depth - 1,
                    ) {
                        return false;
                    }
                    proof {
                        let inside = spec_walk_directory(
                            table,
                            id - FIRST_DIRECTORY_ID,
                            at.push(name@),
                            below,
                        )->0;
                        let after = spec_walk_entries(
                            table,
                            names.skip(k + 1),
                            next_file_id as int,
                            at,
                            below,
                        );
                        if let Some(after) = after {
                            assert(met + (seq![entry@] + inside + after) =~= met.push(entry@)
                                + inside + after);
                        }
                        assert(before + met.push(entry@) + inside =~= before + (met.push(entry@)
                            + inside));
                        met = met.push(entry@) + inside;
                    }
                    path.pop();
                    assert(path@ =~= old(path)@);
                },
            }
            k += 1;
        }
        proof {
            assert(names.skip(k as int) =~= Seq::<SubTableEntryView>::empty());
            assert(met + Seq::<WalkEntryView>::empty() =~= met);
        }
        true
    }

    /// Every name in the table with the path that leads to it and its
    /// identifier, directory by directory from the root on, or nothing if
    /// the table allows no walk.
    ///
    /// The names of a directory come in the order in which they are stored.
    /// The files of a directory are numbered in that order from the
    /// directory's first file identifier on. A directory is met under its
    /// own identifier, and what it holds comes right after it. The table
    /// allows no walk if it has no root, if a name stands for a directory
    /// that the table does not have, if a directory lies within itself, or
    /// if a file identifier does not fit sixteen bits.
    pub fn walk(&self) -> (walked: Option<Vec<WalkEntry>>)
        ensures
            match spec_walk(self@) {
                Some(said) => walked matches Some(w) && walk_view(w@) == said,
                None => walked is None,
            },
    {
        let mut path: Vec<DynamicEmbeddedString<127>> = Vec::new();
        let mut walked: Vec<WalkEntry> = Vec::new();
        assert(path_view(path@) =~= Seq::<Seq<u8>>::empty());
        assert(walk_view(walked@) =~= Seq::<WalkEntryView>::empty());
        if self.walk_directory(0, &mut path, &mut walked, self.main_table.len()) {
            assert(Seq::<WalkEntryView>::empty() + spec_walk(self@)->0 =~= spec_walk(self@)->0);
            Some(walked)
        } else {
            None
        }
    }
}

} // verus!
