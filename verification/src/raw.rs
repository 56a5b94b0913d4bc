//! Byte-exact on-disk records: the raw MBR, its partition entries, the GPT
//! header and the GPT partition entry, with their little-endian serializers
//! and parsers.

use crate::bytes::{
    array_from,
    le32_at,
    le32_bytes,
    le64_at,
    le64_bytes,
    push_array,
    push_le32,
    push_le64,
    read_le32,
    read_le64,
};
use crate::crc::{crc32, crc32_of};
use vstd::prelude::*;

verus! {

/// Canonical text of the nil partition-type GUID: an unused entry.
pub const GPT_PTYPE_EMPTY: &'static str = "00000000-0000-0000-0000-000000000000";

/// Canonical text of the "MBR partition scheme" partition-type GUID.
pub const GPT_PTYPE_MBR: &'static str = "024DEE41-33E7-11D3-9D69-0008C781F39F";

/// Canonical text of the "EFI system" partition-type GUID.
pub const GPT_PTYPE_EFI_SYSTEM: &'static str = "C12A7328-F81F-11D2-BA4B-00A0C93EC93B";

/// Canonical text of the "BIOS boot" partition-type GUID.
pub const GPT_PTYPE_BIOS_BOOT: &'static str = "21686148-6449-6E6F-744E-656564454649";

/// Canonical text of the "Linux filesystem" partition-type GUID.
pub const GPT_PTYPE_LINUX_FS: &'static str = "0FC63DAF-8483-4772-8E79-3D69D8477DE4";

/// The eight signature bytes of a GPT header: ASCII "EFI PART".
pub open spec fn gpt_signature() -> Seq<u8> {
    seq![0x45u8, 0x46u8, 0x49u8, 0x20u8, 0x50u8, 0x41u8, 0x52u8, 0x54u8]
}

/// One raw MBR partition entry: 16 bytes.
#[derive(Clone, Copy)]
pub struct RawMBRPartitionEntry {
    pub status: u8,
    pub first_sector_chs: [u8; 3],
    pub ptype: u8,
    pub last_sector_chs: [u8; 3],
    pub first_sector_lba: u32,
    pub nr_sectors: u32,
}

/// The 16 bytes of a raw MBR partition entry, in on-disk order.
pub open spec fn raw_mbr_entry_bytes(e: RawMBRPartitionEntry) -> Seq<u8> {
    seq![e.status] + e.first_sector_chs@ + seq![e.ptype] + e.last_sector_chs@ + le32_bytes(
        e.first_sector_lba,
    ) + le32_bytes(e.nr_sectors)
}

/// True when `e` holds exactly the fields encoded at `s[off .. off + 16]`.
pub open spec fn raw_mbr_entry_parsed(e: RawMBRPartitionEntry, s: Seq<u8>, off: int) -> bool {
    &&& e.status == s[off]
    &&& e.first_sector_chs@ == s.subrange(off + 1, off + 4)
    &&& e.ptype == s[off + 4]
    &&& e.last_sector_chs@ == s.subrange(off + 5, off + 8)
    &&& e.first_sector_lba == le32_at(s, off + 8)
    &&& e.nr_sectors == le32_at(s, off + 12)
}

impl RawMBRPartitionEntry {
    /// An all-zero entry.
    pub fn new() -> (r: RawMBRPartitionEntry)
        ensures
            r.status == 0,
            r.first_sector_chs@ == seq![0u8, 0u8, 0u8],
            r.ptype == 0,
            r.last_sector_chs@ == seq![0u8, 0u8, 0u8],
            r.first_sector_lba == 0,
            r.nr_sectors == 0,
            raw_mbr_entry_bytes(r) == Seq::new(16, |i: int| 0u8),
    {
        let r = RawMBRPartitionEntry {
            status: 0,
            first_sector_chs: [0u8, 0u8, 0u8],
            ptype: 0,
            last_sector_chs: [0u8, 0u8, 0u8],
            first_sector_lba: 0,
            nr_sectors: 0,
        };
        proof {
            assert(r.first_sector_chs@ =~= seq![0u8, 0u8, 0u8]);
            assert(r.last_sector_chs@ =~= seq![0u8, 0u8, 0u8]);
            crate::bytes::lemma_le32_bytes_zero();
            assert(raw_mbr_entry_bytes(r) =~= Seq::new(16, |i: int| 0u8));
        }
        r
    }
}

/// Append the 16 bytes of `e` to `out`.
pub fn push_raw_mbr_entry(out: &mut Vec<u8>, e: &RawMBRPartitionEntry)
    ensures
        final(out)@ == old(out)@ + raw_mbr_entry_bytes(*e),
{
    out.push(e.status);
    push_array(out, &e.first_sector_chs);
    out.push(e.ptype);
    push_array(out, &e.last_sector_chs);
    push_le32(out, e.first_sector_lba);
    push_le32(out, e.nr_sectors);
    proof {
        assert(out@ =~= old(out)@ + raw_mbr_entry_bytes(*e));
    }
}

/// Parse the raw MBR partition entry at `b[off .. off + 16]`.
pub fn read_raw_mbr_entry(b: &Vec<u8>, off: usize) -> (e: RawMBRPartitionEntry)
    requires
        off + 16 <= b.len(),
    ensures
        raw_mbr_entry_parsed(e, b@, off as int),
{
    RawMBRPartitionEntry {
        status: b[off],
        first_sector_chs: array_from::<3>(b, off + 1),
        ptype: b[off + 4],
        last_sector_chs: array_from::<3>(b, off + 5),
        first_sector_lba: read_le32(b, off + 8),
        nr_sectors: read_le32(b, off + 12),
    }
}

/// One raw MBR block: 512 bytes of bootstrap area, four partition entries and
/// the 0x55 0xAA signature.
#[derive(Clone, Copy)]
pub struct RawMBR {
    pub bootstrap: [u8; 446],
    pub partition_entries: [RawMBRPartitionEntry; 4],
    pub signature: [u8; 2],
}

/// The 512 bytes of a raw MBR, in on-disk order.
pub open spec fn raw_mbr_bytes(m: RawMBR) -> Seq<u8> {
    m.bootstrap@ + raw_mbr_entry_bytes(m.partition_entries@[0]) + raw_mbr_entry_bytes(
        m.partition_entries@[1],
    ) + raw_mbr_entry_bytes(m.partition_entries@[2]) + raw_mbr_entry_bytes(
        m.partition_entries@[3],
    ) + m.signature@
}

impl RawMBR {
    /// A raw MBR with zero bootstrap area, four zero entries and the
    /// signature set.
    pub fn new() -> (r: RawMBR)
        ensures
            r.bootstrap@ == Seq::new(446, |i: int| 0u8),
            r.signature@ == seq![0x55u8, 0xaau8],
            forall|j: int|
                0 <= j < 4 ==> raw_mbr_entry_bytes(#[trigger] r.partition_entries@[j]) == Seq::new(
                    16,
                    |i: int| 0u8,
                ),
    {
        let e = RawMBRPartitionEntry::new();
        let r = RawMBR {
            bootstrap: [0u8; 446],
            partition_entries: [e, e, e, e],
            signature: [0x55u8, 0xaau8],
        };
        proof {
            assert(r.bootstrap@ =~= Seq::new(446, |i: int| 0u8));
            assert(r.signature@ =~= seq![0x55u8, 0xaau8]);
        }
        r
    }

    /// The 512 bytes of this record.
    pub fn as_bytes(&self) -> (r: Vec<u8>)
        ensures
            r@ == raw_mbr_bytes(*self),
            r@.len() == 512,
    {
        let mut out: Vec<u8> = Vec::new();
        push_array(&mut out, &self.bootstrap);
        push_raw_mbr_entry(&mut out, &self.partition_entries[0]);
        push_raw_mbr_entry(&mut out, &self.partition_entries[1]);
        push_raw_mbr_entry(&mut out, &self.partition_entries[2]);
        push_raw_mbr_entry(&mut out, &self.partition_entries[3]);
        push_array(&mut out, &self.signature);
        proof {
            assert(out@ =~= raw_mbr_bytes(*self));
        }
        out
    }

    /// The record encoded by 512 raw bytes.
    pub fn from_bytes(b: &Vec<u8>) -> (r: RawMBR)
        requires
            b.len() == 512,
        ensures
            r.bootstrap@ == b@.subrange(0, 446),
            r.signature@ == b@.subrange(510, 512),
            forall|j: int|
                0 <= j < 4 ==> raw_mbr_entry_parsed(
                    #[trigger] r.partition_entries@[j],
                    b@,
                    446 + 16 * j,
                ),
    {
        let e0 = read_raw_mbr_entry(b, 446);
        let e1 = read_raw_mbr_entry(b, 462);
        let e2 = read_raw_mbr_entry(b, 478);
        let e3 = read_raw_mbr_entry(b, 494);
        RawMBR {
            bootstrap: array_from::<446>(b, 0),
            partition_entries: [e0, e1, e2, e3],
            signature: array_from::<2>(b, 510),
        }
    }
}

/// One raw GPT header: the 92 bytes at the start of its block.
#[derive(Clone, Copy)]
pub struct RawGPTHeader {
    pub signature: [u8; 8],
    pub revision: u32,
    pub header_size: u32,
    pub header_checksum: u32,
    pub reserved: u32,
    pub this_header_lba: u64,
    pub other_header_lba: u64,
    pub first_usable_lba: u64,
    pub last_usable_lba: u64,
    pub disk_guid: [u8; 16],
    pub partition_entries_lba: u64,
    pub nr_partition_entries: u32,
    pub partition_entry_size: u32,
    pub partition_entries_checksum: u32,
}

/// The 92 bytes of a raw GPT header, in on-disk order.
pub open spec fn raw_gpt_header_bytes(h: RawGPTHeader) -> Seq<u8> {
    h.signature@ + le32_bytes(h.revision) + le32_bytes(h.header_size) + le32_bytes(
        h.header_checksum,
    ) + le32_bytes(h.reserved) + le64_bytes(h.this_header_lba) + le64_bytes(h.other_header_lba)
        + le64_bytes(h.first_usable_lba) + le64_bytes(h.last_usable_lba) + h.disk_guid@
        + le64_bytes(h.partition_entries_lba) + le32_bytes(h.nr_partition_entries) + le32_bytes(
        h.partition_entry_size,
    ) + le32_bytes(h.partition_entries_checksum)
}

impl RawGPTHeader {
    /// A raw GPT header with the signature, revision and sizes set and every
    /// position field zero.
    pub fn new() -> (r: RawGPTHeader)
        ensures
            r.signature@ == gpt_signature(),
            r.revision == 0x00010000u32,
            r.header_size == 92,
            r.header_checksum == 0,
            r.reserved == 0,
            r.this_header_lba == 0,
            r.other_header_lba == 0,
            r.first_usable_lba == 0,
            r.last_usable_lba == 0,
            r.disk_guid@ == Seq::new(16, |i: int| 0u8),
            r.partition_entries_lba == 0,
            r.nr_partition_entries == 0,
            r.partition_entry_size == 128,
            r.partition_entries_checksum == 0,
    {
        let r = RawGPTHeader {
            signature: [0x45u8, 0x46u8, 0x49u8, 0x20u8, 0x50u8, 0x41u8, 0x52u8, 0x54u8],
            revision: 0x00010000,
            header_size: 92,
            header_checksum: 0,
            reserved: 0,
            this_header_lba: 0,
            other_header_lba: 0,
            first_usable_lba: 0,
            last_usable_lba: 0,
            disk_guid: [0u8; 16],
            partition_entries_lba: 0,
            nr_partition_entries: 0,
            partition_entry_size: 128,
            partition_entries_checksum: 0,
        };
        proof {
            assert(r.signature@ =~= gpt_signature());
            assert(r.disk_guid@ =~= Seq::new(16, |i: int| 0u8));
        }
        r
    }

    /// The 92 bytes of this record.
    pub fn as_bytes(&self) -> (r: Vec<u8>)
        ensures
            r@ == raw_gpt_header_bytes(*self),
            r@.len() == 92,
    {
        let mut out: Vec<u8> = Vec::new();
        push_array(&mut out, &self.signature);
        push_le32(&mut out, self.revision);
        push_le32(&mut out, self.header_size);
        push_le32(&mut out, self.header_checksum);
        push_le32(&mut out, self.reserved);
        push_le64(&mut out, self.this_header_lba);
        push_le64(&mut out, self.other_header_lba);
        push_le64(&mut out, self.first_usable_lba);
        push_le64(&mut out, self.last_usable_lba);
        push_array(&mut out, &self.disk_guid);
        push_le64(&mut out, self.partition_entries_lba);
        push_le32(&mut out, self.nr_partition_entries);
        push_le32(&mut out, self.partition_entry_size);
        push_le32(&mut out, self.partition_entries_checksum);
        proof {
            assert(out@ =~= raw_gpt_header_bytes(*self));
        }
        out
    }

    /// The record encoded by the first 92 of the given raw bytes.
    pub fn from_bytes(b: &Vec<u8>) -> (r: RawGPTHeader)
        requires
            b.len() >= 92,
        ensures
            r.signature@ == b@.subrange(0, 8),
            r.revision == le32_at(b@, 8),
            r.header_size == le32_at(b@, 12),
            r.header_checksum == le32_at(b@, 16),
            r.reserved == le32_at(b@, 20),
            r.this_header_lba == le64_at(b@, 24),
            r.other_header_lba == le64_at(b@, 32),
            r.first_usable_lba == le64_at(b@, 40),
            r.last_usable_lba == le64_at(b@, 48),
            r.disk_guid@ == b@.subrange(56, 72),
            r.partition_entries_lba == le64_at(b@, 72),
            r.nr_partition_entries == le32_at(b@, 80),
            r.partition_entry_size == le32_at(b@, 84),
            r.partition_entries_checksum == le32_at(b@, 88),
    {
        RawGPTHeader {
            signature: array_from::<8>(b, 0),
            revision: read_le32(b, 8),
            header_size: read_le32(b, 12),
            header_checksum: read_le32(b, 16),
            reserved: read_le32(b, 20),
            this_header_lba: read_le64(b, 24),
            other_header_lba: read_le64(b, 32),
            first_usable_lba: read_le64(b, 40),
            last_usable_lba: read_le64(b, 48),
            disk_guid: array_from::<16>(b, 56),
            partition_entries_lba: read_le64(b, 72),
            nr_partition_entries: read_le32(b, 80),
            partition_entry_size: read_le32(b, 84),
            partition_entries_checksum: read_le32(b, 88),
        }
    }

    /// CRC-32 of the 92 bytes of this record as they stand; the caller zeroes
    /// the checksum field first and patches the result in afterwards.
    pub fn compute_checksum(&self) -> (r: u32)
        ensures
            r == crc32_of(raw_gpt_header_bytes(*self)),
    {
        let bytes = self.as_bytes();
        crc32(&bytes)
    }
}

/// One raw GPT partition entry: 128 bytes.
#[derive(Clone, Copy)]
pub struct RawGPTPartitionEntry {
    pub ptype: [u8; 16],
    pub ident: [u8; 16],
    pub starting_lba: u64,
    pub ending_lba: u64,
    pub attributes: u64,
    pub name: [u8; 72],
}

/// The 128 bytes of a raw GPT partition entry, in on-disk order.
pub open spec fn raw_gpt_entry_bytes(e: RawGPTPartitionEntry) -> Seq<u8> {
    e.ptype@ + e.ident@ + le64_bytes(e.starting_lba) + le64_bytes(e.ending_lba) + le64_bytes(
        e.attributes,
    ) + e.name@
}

/// True when `e` holds exactly the fields encoded at `s[off .. off + 128]`.
pub open spec fn raw_gpt_entry_parsed(e: RawGPTPartitionEntry, s: Seq<u8>, off: int) -> bool {
    &&& e.ptype@ == s.subrange(off, off + 16)
    &&& e.ident@ == s.subrange(off + 16, off + 32)
    &&& e.starting_lba == le64_at(s, off + 32)
    &&& e.ending_lba == le64_at(s, off + 40)
    &&& e.attributes == le64_at(s, off + 48)
    &&& e.name@ == s.subrange(off + 56, off + 128)
}

/// Append the 128 bytes of `e` to `out`.
pub fn push_raw_gpt_entry(out: &mut Vec<u8>, e: &RawGPTPartitionEntry)
    ensures
        final(out)@ == old(out)@ + raw_gpt_entry_bytes(*e),
{
    push_array(out, &e.ptype);
    push_array(out, &e.ident);
    push_le64(out, e.starting_lba);
    push_le64(out, e.ending_lba);
    push_le64(out, e.attributes);
    push_array(out, &e.name);
    proof {
        assert(out@ =~= old(out)@ + raw_gpt_entry_bytes(*e));
    }
}

/// Parse the raw GPT partition entry at `b[off .. off + 128]`.
pub fn read_raw_gpt_entry(b: &Vec<u8>, off: usize) -> (e: RawGPTPartitionEntry)
    requires
        off + 128 <= b.len(),
    ensures
        raw_gpt_entry_parsed(e, b@, off as int),
{
    RawGPTPartitionEntry {
        ptype: array_from::<16>(b, off),
        ident: array_from::<16>(b, off + 16),
        starting_lba: read_le64(b, off + 32),
        ending_lba: read_le64(b, off + 40),
        attributes: read_le64(b, off + 48),
        name: array_from::<72>(b, off + 56),
    }
}

} // verus!
