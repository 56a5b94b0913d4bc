//! Partition-table codec for raw disk images: the legacy Master Boot Record
//! and the GUID Partition Table, written and read block by block over a
//! byte-addressable image.

pub mod actions;
pub mod bytes;
pub mod crc;
pub mod guid;
pub mod image;
pub mod gpt;
pub mod mbr;
pub mod raw;
pub mod table;
