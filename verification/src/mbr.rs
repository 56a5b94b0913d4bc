//! The MBR codec: cylinder/head/sector triples, the four-entry partition
//! table, and its serialization to and from block 0 of an image.

use crate::bytes::{le32_at, le32_bytes, lemma_le32_roundtrip, splice};
use crate::image::Image;
use crate::raw::{
    raw_mbr_bytes,
    raw_mbr_entry_bytes,
    raw_mbr_entry_parsed,
    RawMBR,
    RawMBRPartitionEntry,
};
use vstd::prelude::*;

verus! {

/// Size in bytes of one MBR sector.
pub const MBR_SECTOR_SIZE: usize = 512;

/// Error of the MBR codec.
#[derive(Clone, Copy, Debug, PartialEq, Eq, Structural)]
pub enum MBRError {
    /// The bytes at block 0 do not carry a valid MBR signature.
    MBRFormatError,
}

/// Bootable flag of one MBR partition entry.
#[derive(Clone, Copy, Debug, PartialEq, Eq, Structural)]
pub enum EntryStatus {
    Bootable,
    NotBootable,
}

/// Partition type of one MBR partition entry. A type byte other than the two
/// known ones is preserved as the raw byte.
#[derive(Clone, Copy, Debug, PartialEq, Eq, Structural)]
pub enum PartitionType {
    Empty,
    ProtectiveMBR,
    Unknown(u8),
}

/// A cylinder/head/sector triple. On disk it is packed into three bytes.
#[derive(Clone, Copy, Debug, PartialEq, Eq, Structural)]
pub struct CHS {
    pub head: usize,
    pub sector: usize,
    pub cylinder: usize,
}

/// True when every coordinate fits its on-disk field: 8 bits of head, 6 of
/// sector, 10 of cylinder.
pub open spec fn chs_wf(c: CHS) -> bool {
    c.head <= 0xff && c.sector <= 0x3f && c.cylinder <= 0x3ff
}

/// The three on-disk bytes of a CHS triple: head, then the sector bits packed
/// with the cylinder's two high bits, then the cylinder's low byte.
pub open spec fn chs_bytes(c: CHS) -> Seq<u8> {
    seq![
        c.head as u8,
        ((c.sector & 0x3f) | ((c.cylinder & 0x300) >> 2)) as u8,
        c.cylinder as u8,
    ]
}

/// The CHS triple packed into three on-disk bytes.
pub open spec fn parse_chs(b0: u8, b1: u8, b2: u8) -> CHS {
    CHS {
        head: b0 as usize,
        sector: (b1 & 0x3f) as usize,
        cylinder: ((((b1 & 0xc0) as usize) << 2) + (b2 as usize)) as usize,
    }
}

/// Decoding the three bytes of a well-formed CHS triple gives the triple
/// back.
pub proof fn lemma_chs_roundtrip(c: CHS)
    requires
        chs_wf(c),
    ensures
        parse_chs(chs_bytes(c)[0], chs_bytes(c)[1], chs_bytes(c)[2]) == c,
{
    let h = c.head;
    let s = c.sector;
    let cy = c.cylinder;
    assert((h as u8) as usize == h) by (bit_vector)
        requires
            h <= 0xff,
    ;
    assert(((((s & 0x3f) | ((cy & 0x300) >> 2)) as u8) & 0x3f) as usize == s) by (bit_vector)
        requires
            s <= 0x3f,
    ;
    assert(((((((s & 0x3f) | ((cy & 0x300) >> 2)) as u8) & 0xc0) as usize) << 2) + ((cy as u8)
        as usize) == cy) by (bit_vector)
        requires
            s <= 0x3f,
            cy <= 0x3ff,
    ;
}

/// The geometry heuristic: the joint saturation point 16 heads x 63 sectors
/// x 1023 cylinders. From this address on, every coordinate pins to its
/// maximum.
pub open spec fn chs_from_lba_spec(lba: usize) -> CHS {
    if lba >= 1031184 {
        CHS { head: 0xff, sector: 0x3f, cylinder: 0x3ff }
    } else {
        CHS {
            head: ((lba as int / 63) % 16) as usize,
            sector: ((lba as int % 63) + 1) as usize,
            cylinder: (lba as int / 1008) as usize,
        }
    }
}

impl CHS {
    /// The triple with the given coordinates.
    pub fn new(head: usize, sector: usize, cylinder: usize) -> (r: CHS)
        ensures
            r == (CHS { head, sector, cylinder }),
    {
        CHS { head, sector, cylinder }
    }

    /// The all-zero triple, as held by an empty partition entry.
    pub fn new_zero() -> (r: CHS)
        ensures
            r == (CHS { head: 0usize, sector: 0usize, cylinder: 0usize }),
    {
        CHS { head: 0, sector: 0, cylinder: 0 }
    }

    /// The maximal triple, as held by a protective MBR's entry.
    pub fn new_max() -> (r: CHS)
        ensures
            r == (CHS { head: 0xffusize, sector: 0x3fusize, cylinder: 0x3ffusize }),
    {
        CHS { head: 0xff, sector: 0x3f, cylinder: 0x3ff }
    }

    /// Decode three on-disk bytes into a (well-formed) triple.
    pub fn from_raw(bytes: &[u8; 3]) -> (r: CHS)
        ensures
            r == parse_chs(bytes@[0], bytes@[1], bytes@[2]),
            chs_wf(r),
    {
        let b0 = bytes[0];
        let b1 = bytes[1];
        let b2 = bytes[2];
        proof {
            assert(b1 & 0x3f <= 0x3f) by (bit_vector);
            assert((((b1 & 0xc0) as usize) << 2) <= 0x300) by (bit_vector);
        }
        CHS {
            head: b0 as usize,
            sector: (b1 & 0x3f) as usize,
            cylinder: (((b1 & 0xc0) as usize) << 2) + (b2 as usize),
        }
    }

    /// `v`, capped at `max`.
    fn saturate(v: usize, max: usize) -> (r: usize)
        ensures
            r == if v > max {
                max
            } else {
                v
            },
    {
        if v > max {
            max
        } else {
            v
        }
    }

    /// The CHS triple of a logical block address under the heuristic
    /// geometry of 16 heads and 63 sectors per track. Once the address
    /// passes the last representable cylinder the whole triple pins to the
    /// maximum, so the coordinates saturate together.
    pub fn from_lba(lba: usize) -> (r: CHS)
        ensures
            r == chs_from_lba_spec(lba),
            chs_wf(r),
    {
        if lba >= 1031184 {
            CHS::new_max()
        } else {
            let cylinder = Self::saturate(lba / (16 * 63), 0x3ff);
            let head = Self::saturate((lba / 63) % 16, 0xff);
            let sector = Self::saturate((lba % 63) + 1, 0x3f);
            CHS { head, sector, cylinder }
        }
    }

    /// The three on-disk bytes of this triple. Coordinates beyond their
    /// field widths are truncated, as the packing prescribes.
    pub fn to_bytes(&self) -> (r: [u8; 3])
        ensures
            r@ == chs_bytes(*self),
    {
        let b0 = #[verifier::truncate] (self.head as u8);
        let b1 = #[verifier::truncate] (((self.sector & 0x3f) | ((self.cylinder & 0x300) >> 2))
            as u8);
        let b2 = #[verifier::truncate] (self.cylinder as u8);
        let r = [b0, b1, b2];
        proof {
            assert(r@ =~= chs_bytes(*self));
        }
        r
    }
}

/// One in-memory MBR partition entry.
#[derive(Clone, Copy, Debug, PartialEq, Eq, Structural)]
pub struct PartitionEntry {
    pub status: EntryStatus,
    pub ptype: PartitionType,
    pub first_sector: CHS,
    pub last_sector: CHS,
    pub first_sector_lba: usize,
    pub nr_sectors: usize,
}

/// The on-disk status byte of an entry.
pub open spec fn status_byte(s: EntryStatus) -> u8 {
    match s {
        EntryStatus::Bootable => 0x80,
        EntryStatus::NotBootable => 0x00,
    }
}

/// The status encoded by an on-disk byte: bit 7 marks a bootable entry.
pub open spec fn parse_status(b: u8) -> EntryStatus {
    if b & 0x80 == 0x80 {
        EntryStatus::Bootable
    } else {
        EntryStatus::NotBootable
    }
}

/// The on-disk type byte of an entry.
pub open spec fn ptype_byte(t: PartitionType) -> u8 {
    match t {
        PartitionType::Empty => 0x00,
        PartitionType::ProtectiveMBR => 0xee,
        PartitionType::Unknown(b) => b,
    }
}

/// The partition type encoded by an on-disk byte.
pub open spec fn parse_ptype(b: u8) -> PartitionType {
    if b == 0x00 {
        PartitionType::Empty
    } else if b == 0xee {
        PartitionType::ProtectiveMBR
    } else {
        PartitionType::Unknown(b)
    }
}

/// True when an unknown type byte does not shadow one of the known codes.
pub open spec fn ptype_wf(t: PartitionType) -> bool {
    match t {
        PartitionType::Unknown(b) => b != 0x00 && b != 0xee,
        _ => true,
    }
}

/// True when every field of the entry fits its on-disk encoding.
pub open spec fn entry_wf(e: PartitionEntry) -> bool {
    &&& chs_wf(e.first_sector)
    &&& chs_wf(e.last_sector)
    &&& e.first_sector_lba <= 0xffffffff
    &&& e.nr_sectors <= 0xffffffff
    &&& ptype_wf(e.ptype)
}

/// The 16 on-disk bytes of an entry.
pub open spec fn entry_bytes(e: PartitionEntry) -> Seq<u8> {
    seq![status_byte(e.status)] + chs_bytes(e.first_sector) + seq![ptype_byte(e.ptype)]
        + chs_bytes(e.last_sector) + le32_bytes(e.first_sector_lba as u32) + le32_bytes(
        e.nr_sectors as u32,
    )
}

/// The entry encoded at `s[off .. off + 16]`.
pub open spec fn parse_entry(s: Seq<u8>, off: int) -> PartitionEntry {
    PartitionEntry {
        status: parse_status(s[off]),
        ptype: parse_ptype(s[off + 4]),
        first_sector: parse_chs(s[off + 1], s[off + 2], s[off + 3]),
        last_sector: parse_chs(s[off + 5], s[off + 6], s[off + 7]),
        first_sector_lba: le32_at(s, off + 8) as usize,
        nr_sectors: le32_at(s, off + 12) as usize,
    }
}

/// Decoding the 16 bytes of a well-formed entry gives the entry back.
pub proof fn lemma_entry_roundtrip(e: PartitionEntry)
    requires
        entry_wf(e),
    ensures
        parse_entry(entry_bytes(e), 0) == e,
{
    let s = entry_bytes(e);
    assert(0x80u8 & 0x80 == 0x80 && 0x00u8 & 0x80 == 0x00) by (bit_vector);
    if e.status is Bootable {
        assert(parse_status(s[0]) == e.status);
    } else {
        assert(parse_status(s[0]) == e.status);
    }
    lemma_chs_roundtrip(e.first_sector);
    lemma_chs_roundtrip(e.last_sector);
    lemma_le32_roundtrip(e.first_sector_lba as u32);
    lemma_le32_roundtrip(e.nr_sectors as u32);
    assert(le32_at(s, 8) == le32_at(le32_bytes(e.first_sector_lba as u32), 0));
    assert(le32_at(s, 12) == le32_at(le32_bytes(e.nr_sectors as u32), 0));
}

/// Parsing at `off` sees only `s[off .. off + 16]`: equal bytes there give
/// the entry back.
pub proof fn lemma_entry_at(s: Seq<u8>, e: PartitionEntry, off: int)
    requires
        entry_wf(e),
        forall|k: int| 0 <= k < 16 ==> s[off + k] == entry_bytes(e)[k],
    ensures
        parse_entry(s, off) == e,
{
    lemma_entry_roundtrip(e);
    let eb = entry_bytes(e);
    assert(s[off] == eb[0] && s[off + 1] == eb[1] && s[off + 2] == eb[2] && s[off + 3] == eb[3]
        && s[off + 4] == eb[4] && s[off + 5] == eb[5] && s[off + 6] == eb[6] && s[off + 7] == eb[7]
        && s[off + 8] == eb[8] && s[off + 9] == eb[9] && s[off + 10] == eb[10] && s[off + 11]
        == eb[11] && s[off + 12] == eb[12] && s[off + 13] == eb[13] && s[off + 14] == eb[14] && s[
        off + 15] == eb[15]);
    assert(le32_at(s, off + 8) == le32_at(eb, 8));
    assert(le32_at(s, off + 12) == le32_at(eb, 12));
    assert(parse_entry(s, off) == parse_entry(eb, 0));
}

/// The empty entry: not bootable, empty type, zero triples and addresses.
pub open spec fn empty_entry() -> PartitionEntry {
    PartitionEntry {
        status: EntryStatus::NotBootable,
        ptype: PartitionType::Empty,
        first_sector: CHS { head: 0, sector: 0, cylinder: 0 },
        last_sector: CHS { head: 0, sector: 0, cylinder: 0 },
        first_sector_lba: 0,
        nr_sectors: 0,
    }
}

/// Entry 0 of a protective MBR over `nr_blocks` blocks: type 0xEE from block
/// 1 to the end of the disk, sector count saturated to 32 bits, last triple
/// pinned to the maximum.
pub open spec fn protective_entry(nr_blocks: usize) -> PartitionEntry {
    PartitionEntry {
        status: EntryStatus::NotBootable,
        ptype: PartitionType::ProtectiveMBR,
        first_sector: chs_from_lba_spec(1),
        last_sector: CHS { head: 0xff, sector: 0x3f, cylinder: 0x3ff },
        first_sector_lba: 1,
        nr_sectors: if nr_blocks - 1 > 0xffffffff {
            0xffffffff as usize
        } else {
            (nr_blocks - 1) as usize
        },
    }
}

impl PartitionEntry {
    /// The empty entry.
    pub fn new_empty() -> (r: PartitionEntry)
        ensures
            r == empty_entry(),
    {
        PartitionEntry {
            status: EntryStatus::NotBootable,
            ptype: PartitionType::Empty,
            first_sector: CHS::new_zero(),
            last_sector: CHS::new_zero(),
            first_sector_lba: 0,
            nr_sectors: 0,
        }
    }

    /// An entry from block `first` up to (excluding) block `last`, with both
    /// triples derived from the addresses.
    pub fn new(status: EntryStatus, ptype: PartitionType, first: usize, last: usize) -> (r:
        PartitionEntry)
        requires
            first <= last,
        ensures
            r == (PartitionEntry {
                status,
                ptype,
                first_sector: chs_from_lba_spec(first),
                last_sector: chs_from_lba_spec(last),
                first_sector_lba: first,
                nr_sectors: (last - first) as usize,
            }),
    {
        PartitionEntry {
            status,
            ptype,
            first_sector: CHS::from_lba(first),
            last_sector: CHS::from_lba(last),
            first_sector_lba: first,
            nr_sectors: last - first,
        }
    }

    /// The raw on-disk record of this entry. Addresses beyond 32 bits are
    /// truncated, as the record prescribes.
    pub fn to_raw(&self) -> (r: RawMBRPartitionEntry)
        ensures
            r.status == status_byte(self.status),
            r.ptype == ptype_byte(self.ptype),
            r.first_sector_chs@ == chs_bytes(self.first_sector),
            r.last_sector_chs@ == chs_bytes(self.last_sector),
            r.first_sector_lba == self.first_sector_lba as u32,
            r.nr_sectors == self.nr_sectors as u32,
            raw_mbr_entry_bytes(r) == entry_bytes(*self),
    {
        let status: u8 = match self.status {
            EntryStatus::Bootable => 0x80,
            EntryStatus::NotBootable => 0x00,
        };
        let ptype: u8 = match self.ptype {
            PartitionType::Empty => 0x00,
            PartitionType::ProtectiveMBR => 0xee,
            PartitionType::Unknown(b) => b,
        };
        let r = RawMBRPartitionEntry {
            status,
            first_sector_chs: self.first_sector.to_bytes(),
            ptype,
            last_sector_chs: self.last_sector.to_bytes(),
            first_sector_lba: #[verifier::truncate] (self.first_sector_lba as u32),
            nr_sectors: #[verifier::truncate] (self.nr_sectors as u32),
        };
        proof {
            assert(raw_mbr_entry_bytes(r) =~= entry_bytes(*self));
        }
        r
    }

    /// The in-memory entry of a raw on-disk record, with both CHS triples
    /// decoded.
    pub fn from_raw(raw: RawMBRPartitionEntry) -> (r: PartitionEntry)
        ensures
            r.status == parse_status(raw.status),
            r.ptype == parse_ptype(raw.ptype),
            r.first_sector == parse_chs(
                raw.first_sector_chs@[0],
                raw.first_sector_chs@[1],
                raw.first_sector_chs@[2],
            ),
            r.last_sector == parse_chs(
                raw.last_sector_chs@[0],
                raw.last_sector_chs@[1],
                raw.last_sector_chs@[2],
            ),
            r.first_sector_lba == raw.first_sector_lba as usize,
            r.nr_sectors == raw.nr_sectors as usize,
    {
        let status = if raw.status & 0x80 == 0x80 {
            EntryStatus::Bootable
        } else {
            EntryStatus::NotBootable
        };
        let ptype = if raw.ptype == 0x00 {
            PartitionType::Empty
        } else if raw.ptype == 0xee {
            PartitionType::ProtectiveMBR
        } else {
            PartitionType::Unknown(raw.ptype)
        };
        PartitionEntry {
            status,
            ptype,
            first_sector: CHS::from_raw(&raw.first_sector_chs),
            last_sector: CHS::from_raw(&raw.last_sector_chs),
            first_sector_lba: raw.first_sector_lba as usize,
            nr_sectors: raw.nr_sectors as usize,
        }
    }
}

/// The in-memory MBR: exactly four partition entries.
#[derive(Debug)]
pub struct MBR {
    pub partition_table: Vec<PartitionEntry>,
}

impl View for MBR {
    type V = Seq<PartitionEntry>;

    open spec fn view(&self) -> Seq<PartitionEntry> {
        self.partition_table@
    }
}

/// True when the table holds four well-formed entries.
pub open spec fn mbr_wf(es: Seq<PartitionEntry>) -> bool {
    es.len() == 4 && forall|j: int| 0 <= j < 4 ==> entry_wf(#[trigger] es[j])
}

/// The 64 bytes of the four-entry partition table.
pub open spec fn mbr_table_bytes(es: Seq<PartitionEntry>) -> Seq<u8> {
    entry_bytes(es[0]) + entry_bytes(es[1]) + entry_bytes(es[2]) + entry_bytes(es[3])
}

/// The 512 bytes of an MBR block: zero bootstrap area, the table at 446 and
/// the signature 0x55 0xAA at 510.
pub open spec fn mbr_bytes(es: Seq<PartitionEntry>) -> Seq<u8> {
    Seq::new(446, |i: int| 0u8) + mbr_table_bytes(es) + seq![0x55u8, 0xaau8]
}

/// True when a 512-byte block ends in the MBR signature.
pub open spec fn mbr_sig_ok(s: Seq<u8>) -> bool {
    s[510] == 0x55u8 && s[511] == 0xaau8
}

/// The four entries encoded in a 512-byte MBR block.
pub open spec fn parse_mbr(s: Seq<u8>) -> Seq<PartitionEntry> {
    seq![parse_entry(s, 446), parse_entry(s, 462), parse_entry(s, 478), parse_entry(s, 494)]
}

/// Serializing four well-formed entries and parsing the block back gives the
/// entries, and the block carries the signature.
#[verifier::rlimit(60)]
pub proof fn lemma_mbr_roundtrip(es: Seq<PartitionEntry>)
    requires
        mbr_wf(es),
    ensures
        parse_mbr(mbr_bytes(es)) == es,
        mbr_sig_ok(mbr_bytes(es)),
        mbr_bytes(es).len() == 512,
{
    let s = mbr_bytes(es);
    assert forall|k: int| 0 <= k < 16 implies s[446 + k] == entry_bytes(es[0])[k] by {}
    assert forall|k: int| 0 <= k < 16 implies s[462 + k] == entry_bytes(es[1])[k] by {}
    assert forall|k: int| 0 <= k < 16 implies s[478 + k] == entry_bytes(es[2])[k] by {}
    assert forall|k: int| 0 <= k < 16 implies s[494 + k] == entry_bytes(es[3])[k] by {}
    lemma_entry_at(s, es[0], 446);
    lemma_entry_at(s, es[1], 462);
    lemma_entry_at(s, es[2], 478);
    lemma_entry_at(s, es[3], 494);
    assert(parse_mbr(s) =~= es);
}

impl MBR {
    /// An MBR with four empty entries.
    pub fn new() -> (r: MBR)
        ensures
            r@ == seq![empty_entry(), empty_entry(), empty_entry(), empty_entry()],
    {
        let mut t: Vec<PartitionEntry> = Vec::new();
        t.push(PartitionEntry::new_empty());
        t.push(PartitionEntry::new_empty());
        t.push(PartitionEntry::new_empty());
        t.push(PartitionEntry::new_empty());
        let r = MBR { partition_table: t };
        proof {
            assert(r@ =~= seq![empty_entry(), empty_entry(), empty_entry(), empty_entry()]);
        }
        r
    }

    /// The protective MBR of a GPT disk of `nr_blocks` blocks: entry 0
    /// covers the whole disk with type 0xEE, the rest are empty.
    pub fn new_protective(nr_blocks: usize) -> (r: MBR)
        requires
            nr_blocks >= 1,
        ensures
            r@ == seq![protective_entry(nr_blocks), empty_entry(), empty_entry(), empty_entry()],
    {
        let nr: usize = nr_blocks - 1;
        let cap: usize = 0xffffffff;
        let nr_sectors = if nr > cap {
            cap
        } else {
            nr
        };
        let pe = PartitionEntry {
            status: EntryStatus::NotBootable,
            ptype: PartitionType::ProtectiveMBR,
            first_sector: CHS::from_lba(1),
            last_sector: CHS::new_max(),
            first_sector_lba: 1,
            nr_sectors,
        };
        let mut t: Vec<PartitionEntry> = Vec::new();
        t.push(pe);
        t.push(PartitionEntry::new_empty());
        t.push(PartitionEntry::new_empty());
        t.push(PartitionEntry::new_empty());
        let r = MBR { partition_table: t };
        proof {
            assert(r@ =~= seq![
                protective_entry(nr_blocks),
                empty_entry(),
                empty_entry(),
                empty_entry(),
            ]);
        }
        r
    }

    /// Replace entry `index`.
    pub fn set_entry(&mut self, index: usize, e: PartitionEntry)
        requires
            index < old(self)@.len(),
        ensures
            final(self)@ == old(self)@.update(index as int, e),
    {
        self.partition_table.set(index, e);
    }

    /// The raw 512-byte record of this MBR.
    pub fn to_raw(&self) -> (r: RawMBR)
        requires
            self@.len() == 4,
        ensures
            raw_mbr_bytes(r) == mbr_bytes(self@),
    {
        let mut mbr = RawMBR::new();
        mbr.partition_entries[0] = self.partition_table[0].to_raw();
        mbr.partition_entries[1] = self.partition_table[1].to_raw();
        mbr.partition_entries[2] = self.partition_table[2].to_raw();
        mbr.partition_entries[3] = self.partition_table[3].to_raw();
        proof {
            assert(raw_mbr_bytes(mbr) =~= mbr_bytes(self@));
        }
        mbr
    }

    /// Serialize this MBR into block 0. All 512 bytes of the block are
    /// overwritten; any prior bootstrap code is destroyed.
    pub fn write(&self, image: &mut Image)
        requires
            self@.len() == 4,
            old(image)@.len() >= 512,
        ensures
            final(image)@ == splice(old(image)@, 0, mbr_bytes(self@)),
            final(image)@.len() == old(image)@.len(),
    {
        let raw = self.to_raw();
        let bytes = raw.as_bytes();
        image.write_blocks(0, &bytes);
    }

    /// Parse block 0. Returns the four entries exactly when the block ends
    /// in the 0x55 0xAA signature.
    pub fn read(image: &Image) -> (r: Option<MBR>)
        requires
            image@.len() >= 512,
        ensures
            r is Some <==> mbr_sig_ok(image@.subrange(0, 512)),
            r matches Some(m) ==> m@ == parse_mbr(image@.subrange(0, 512)),
    {
        let block0 = image.get_blocks(0, 1);
        let raw = RawMBR::from_bytes(&block0);
        if raw.signature[0] != 0x55 || raw.signature[1] != 0xaa {
            return None;
        }
        let mut t: Vec<PartitionEntry> = Vec::new();
        t.push(PartitionEntry::from_raw(raw.partition_entries[0]));
        t.push(PartitionEntry::from_raw(raw.partition_entries[1]));
        t.push(PartitionEntry::from_raw(raw.partition_entries[2]));
        t.push(PartitionEntry::from_raw(raw.partition_entries[3]));
        let m = MBR { partition_table: t };
        proof {
            assert(m@ =~= parse_mbr(image@.subrange(0, 512)));
        }
        Some(m)
    }

    /// True when block 0 ends in the 0x55 0xAA signature.
    pub fn check(image: &Image) -> (r: bool)
        requires
            image@.len() >= 512,
        ensures
            r == mbr_sig_ok(image@.subrange(0, 512)),
    {
        let block0 = image.get_blocks(0, 1);
        let raw = RawMBR::from_bytes(&block0);
        let r = raw.signature[0] == 0x55 && raw.signature[1] == 0xaa;
        r
    }
}


/// The coordinates an address maps to are always in range.
pub proof fn lemma_chs_from_lba_wf(lba: usize)
    ensures
        chs_wf(chs_from_lba_spec(lba)),
{
    if lba < 1031184 {
        assert(lba as int / 1008 <= 1023);
    }
}

/// Entry 0 of a protective MBR, and the empty entry, are well-formed.
pub proof fn lemma_protective_entry_wf(nr_blocks: usize)
    requires
        nr_blocks >= 1,
    ensures
        entry_wf(protective_entry(nr_blocks)),
        entry_wf(empty_entry()),
{
    lemma_chs_from_lba_wf(1);
}


/// MBR round-trip through an image: after writing four well-formed entries
/// at block 0, the block carries the signature and parses back to exactly
/// those entries.
pub proof fn lemma_mbr_write_read(es: Seq<PartitionEntry>, s0: Seq<u8>)
    requires
        mbr_wf(es),
        s0.len() >= 512,
    ensures
        mbr_sig_ok(splice(s0, 0, mbr_bytes(es)).subrange(0, 512)),
        parse_mbr(splice(s0, 0, mbr_bytes(es)).subrange(0, 512)) == es,
{
    lemma_mbr_roundtrip(es);
    assert(splice(s0, 0, mbr_bytes(es)).subrange(0, 512) =~= mbr_bytes(es));
}

/// CHS saturation: from the last representable address on, every
/// coordinate of the derived triple is pinned to its maximum.
pub proof fn lemma_chs_saturation(lba: usize)
    requires
        lba >= 16 * 63 * 0x3ff,
    ensures
        chs_from_lba_spec(lba).cylinder == 0x3ff,
        chs_from_lba_spec(lba).head == 0xff,
        chs_from_lba_spec(lba).sector == 0x3f,
{
}

} // verus!
