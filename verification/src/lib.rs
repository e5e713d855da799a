//! Read-only decoding of a Nintendo DS cartridge image: the fixed header,
//! the file name table and the file allocation table.

pub mod byte_types;
pub mod cartridge_header;
pub mod file;
