//! The GPT codec: the in-memory table of partition entries, its dual
//! primary/backup headers, the checksummed entry array, and the protective
//! MBR written alongside.

use crate::bytes::{le32_bytes, le64_at, le64_bytes, splice};
use crate::crc::{crc32, crc32_of};
use crate::guid::{guid_chars, lemma_me_involution, me_swapped, nil_guid, Guid};
use crate::image::Image;
use crate::mbr::{
    empty_entry,
    mbr_bytes,
    mbr_sig_ok,
    parse_mbr,
    protective_entry,
    PartitionType,
    MBR,
    MBR_SECTOR_SIZE,
};
use crate::raw::{
    gpt_signature,
    push_raw_gpt_entry,
    raw_gpt_entry_bytes,
    raw_gpt_header_bytes,
    read_raw_gpt_entry,
    RawGPTHeader,
    RawGPTPartitionEntry,
};
use vstd::prelude::*;

verus! {

broadcast use crate::guid::lemma_guid_len;

/// The mathematical value of one GPT partition entry: both GUIDs in
/// canonical byte order, the block range, the attribute bits and the raw
/// 72-byte UTF-16LE name.
pub struct GptPartitionModel {
    pub type_guid: Seq<u8>,
    pub part_guid: Seq<u8>,
    pub starting_lba: u64,
    pub ending_lba: u64,
    pub attributes: u64,
    pub name: Seq<u8>,
}

/// True when both GUIDs hold 16 bytes and the name 72.
pub open spec fn part_model_wf(p: GptPartitionModel) -> bool {
    p.type_guid.len() == 16 && p.part_guid.len() == 16 && p.name.len() == 72
}

/// The unused entry: nil GUIDs, zero range, zero name.
pub open spec fn empty_partition_model() -> GptPartitionModel {
    GptPartitionModel {
        type_guid: nil_guid(),
        part_guid: nil_guid(),
        starting_lba: 0,
        ending_lba: 0,
        attributes: 0,
        name: Seq::new(72, |i: int| 0u8),
    }
}

/// One in-memory GPT partition entry.
#[derive(Clone, Copy, Debug)]
pub struct Partition {
    pub part_guid: Guid,
    pub type_guid: Guid,
    pub starting_lba: u64,
    pub ending_lba: u64,
    pub attributes: u64,
    pub name: [u8; 72],
}

impl View for Partition {
    type V = GptPartitionModel;

    open spec fn view(&self) -> GptPartitionModel {
        GptPartitionModel {
            type_guid: self.type_guid@,
            part_guid: self.part_guid@,
            starting_lba: self.starting_lba,
            ending_lba: self.ending_lba,
            attributes: self.attributes,
            name: self.name@,
        }
    }
}

/// The 128 on-disk bytes of one entry: both GUIDs mixed-endian, then the
/// three 64-bit fields little-endian, then the name.
pub open spec fn gpt_entry_bytes(p: GptPartitionModel) -> Seq<u8> {
    me_swapped(p.type_guid) + me_swapped(p.part_guid) + le64_bytes(p.starting_lba) + le64_bytes(
        p.ending_lba,
    ) + le64_bytes(p.attributes) + p.name
}

/// The entry encoded at `s[off .. off + 128]`, GUIDs decoded from
/// mixed-endian order.
pub open spec fn parse_gpt_partition(s: Seq<u8>, off: int) -> GptPartitionModel {
    GptPartitionModel {
        type_guid: me_swapped(s.subrange(off, off + 16)),
        part_guid: me_swapped(s.subrange(off + 16, off + 32)),
        starting_lba: le64_at(s, off + 32),
        ending_lba: le64_at(s, off + 40),
        attributes: le64_at(s, off + 48),
        name: s.subrange(off + 56, off + 128),
    }
}

/// Decoding the 128 bytes of a well-formed entry gives the entry back.
pub proof fn lemma_gpt_entry_roundtrip(p: GptPartitionModel)
    requires
        part_model_wf(p),
    ensures
        parse_gpt_partition(gpt_entry_bytes(p), 0) == p,
{
    let s = gpt_entry_bytes(p);
    assert(s.subrange(0, 16) =~= me_swapped(p.type_guid));
    assert(s.subrange(16, 32) =~= me_swapped(p.part_guid));
    lemma_me_involution(p.type_guid);
    lemma_me_involution(p.part_guid);
    crate::bytes::lemma_le64_roundtrip(p.starting_lba);
    crate::bytes::lemma_le64_roundtrip(p.ending_lba);
    crate::bytes::lemma_le64_roundtrip(p.attributes);
    assert(le64_at(s, 32) == le64_at(le64_bytes(p.starting_lba), 0));
    assert(le64_at(s, 40) == le64_at(le64_bytes(p.ending_lba), 0));
    assert(le64_at(s, 48) == le64_at(le64_bytes(p.attributes), 0));
    assert(s.subrange(56, 128) =~= p.name);
}

/// Parsing at `off` sees only `s[off .. off + 128]`: equal bytes there give
/// the entry back.
pub proof fn lemma_gpt_entry_at(s: Seq<u8>, p: GptPartitionModel, off: int)
    requires
        part_model_wf(p),
        0 <= off,
        off + 128 <= s.len(),
        forall|k: int| 0 <= k < 128 ==> s[off + k] == gpt_entry_bytes(p)[k],
    ensures
        parse_gpt_partition(s, off) == p,
{
    lemma_gpt_entry_roundtrip(p);
    let eb = gpt_entry_bytes(p);
    assert(s.subrange(off, off + 16) =~= eb.subrange(0, 16));
    assert(s.subrange(off + 16, off + 32) =~= eb.subrange(16, 32));
    assert(s.subrange(off + 56, off + 128) =~= eb.subrange(56, 128));
    assert(le64_at(s, off + 32) == le64_at(eb, 32));
    assert(le64_at(s, off + 40) == le64_at(eb, 40));
    assert(le64_at(s, off + 48) == le64_at(eb, 48));
    assert(parse_gpt_partition(s, off) == parse_gpt_partition(eb, 0));
}

/// The concatenated on-disk bytes of a sequence of entries.
pub open spec fn entries_bytes(ps: Seq<GptPartitionModel>) -> Seq<u8>
    decreases ps.len(),
{
    if ps.len() == 0 {
        Seq::empty()
    } else {
        entries_bytes(ps.drop_last()) + gpt_entry_bytes(ps.last())
    }
}

/// Each well-formed entry contributes exactly 128 bytes.
pub proof fn lemma_entries_bytes_len(ps: Seq<GptPartitionModel>)
    requires
        forall|i: int| 0 <= i < ps.len() ==> part_model_wf(#[trigger] ps[i]),
    ensures
        entries_bytes(ps).len() == 128 * ps.len(),
    decreases ps.len(),
{
    if ps.len() > 0 {
        lemma_entries_bytes_len(ps.drop_last());
    }
}

/// Byte `128 j + k` of the concatenation is byte `k` of entry `j`.
pub proof fn lemma_entries_bytes_index(ps: Seq<GptPartitionModel>, j: int, k: int)
    requires
        forall|i: int| 0 <= i < ps.len() ==> part_model_wf(#[trigger] ps[i]),
        0 <= j < ps.len(),
        0 <= k < 128,
    ensures
        entries_bytes(ps)[128 * j + k] == gpt_entry_bytes(ps[j])[k],
    decreases ps.len(),
{
    lemma_entries_bytes_len(ps.drop_last());
    if j == ps.len() - 1 {
    } else {
        lemma_entries_bytes_index(ps.drop_last(), j, k);
    }
}

/// Number of whole blocks the entry array of `nr` entries occupies.
pub open spec fn entry_array_blocks(nr: int) -> int {
    (nr * 128 + 511) / 512
}

/// First usable block: past block 0, the primary header and its entry
/// array.
pub open spec fn gpt_first_usable(nr: int) -> int {
    2 + entry_array_blocks(nr)
}

/// Last usable block: before the backup entry array and header.
pub open spec fn gpt_last_usable(nr: int, nb: int) -> int {
    nb - 2 - entry_array_blocks(nr)
}

/// Block where the backup entry array starts.
pub open spec fn backup_entries_block(nr: int, nb: int) -> int {
    nb - 1 - entry_array_blocks(nr)
}

/// The entry array padded with zero bytes to `eb` whole blocks.
pub open spec fn entries_region_bytes(ps: Seq<GptPartitionModel>, eb: int) -> Seq<u8> {
    entries_bytes(ps) + Seq::new((eb * 512 - 128 * ps.len()) as nat, |i: int| 0u8)
}

/// The 92 header bytes with every field spelled out.
#[verifier::opaque]
pub open spec fn gpt_header_bytes_v(
    this_lba: u64,
    other_lba: u64,
    first_usable: u64,
    last_usable: u64,
    guid_me: Seq<u8>,
    entries_lba: u64,
    nr: u32,
    ecrc: u32,
    hcrc: u32,
) -> Seq<u8> {
    gpt_signature() + le32_bytes(0x00010000u32) + le32_bytes(92u32) + le32_bytes(hcrc)
        + le32_bytes(0u32) + le64_bytes(this_lba) + le64_bytes(other_lba) + le64_bytes(
        first_usable,
    ) + le64_bytes(last_usable) + guid_me + le64_bytes(entries_lba) + le32_bytes(nr) + le32_bytes(
        128u32,
    ) + le32_bytes(ecrc)
}

/// The 92 header bytes with the header checksum computed over themselves
/// with the checksum field zeroed, then patched in.
#[verifier::opaque]
pub open spec fn gpt_header_checksummed_bytes(
    this_lba: u64,
    other_lba: u64,
    first_usable: u64,
    last_usable: u64,
    guid_me: Seq<u8>,
    entries_lba: u64,
    nr: u32,
    ecrc: u32,
) -> Seq<u8> {
    let zeroed = gpt_header_bytes_v(
        this_lba,
        other_lba,
        first_usable,
        last_usable,
        guid_me,
        entries_lba,
        nr,
        ecrc,
        0,
    );
    gpt_header_bytes_v(
        this_lba,
        other_lba,
        first_usable,
        last_usable,
        guid_me,
        entries_lba,
        nr,
        ecrc,
        crc32_of(zeroed),
    )
}

/// A whole header block: the 92 checksummed header bytes, zero-padded to
/// 512.
#[verifier::opaque]
pub open spec fn gpt_header_block_bytes(
    this_lba: u64,
    other_lba: u64,
    first_usable: u64,
    last_usable: u64,
    guid_me: Seq<u8>,
    entries_lba: u64,
    nr: u32,
    ecrc: u32,
) -> Seq<u8> {
    gpt_header_checksummed_bytes(
        this_lba,
        other_lba,
        first_usable,
        last_usable,
        guid_me,
        entries_lba,
        nr,
        ecrc,
    ) + Seq::new(420, |i: int| 0u8)
}

/// The mathematical value of a GPT: the disk GUID in canonical byte order
/// and the entry models.
pub struct GptModel {
    pub partitions: Seq<GptPartitionModel>,
    pub disk_guid: Seq<u8>,
}

/// True when the disk GUID holds 16 bytes, the entry count fits its 32-bit
/// header field, and every entry is well-formed.
pub open spec fn gpt_wf(g: GptModel) -> bool {
    &&& g.disk_guid.len() == 16
    &&& g.partitions.len() <= 0xffffffff
    &&& forall|i: int| 0 <= i < g.partitions.len() ==> part_model_wf(#[trigger] g.partitions[i])
}

/// The in-memory GPT: a vector of partition entries and the disk GUID.
#[derive(Debug)]
pub struct GPT {
    pub partitions: Vec<Partition>,
    pub disk_guid: Guid,
}

impl View for GPT {
    type V = GptModel;

    open spec fn view(&self) -> GptModel {
        GptModel {
            partitions: self.partitions@.map_values(|p: Partition| p@),
            disk_guid: self.disk_guid@,
        }
    }
}

/// The protective MBR block written in front of a GPT of `nb` blocks.
#[verifier::opaque]
pub open spec fn gpt_protective_block(nb: int) -> Seq<u8> {
    mbr_bytes(
        seq![
            protective_entry((nb as usize)),
            empty_entry(),
            empty_entry(),
            empty_entry(),
        ],
    )
}

/// The entry-array region of a GPT: the entries, zero-padded to whole
/// blocks.
#[verifier::opaque]
pub open spec fn gpt_region(g: GptModel) -> Seq<u8> {
    entries_region_bytes(g.partitions, entry_array_blocks(g.partitions.len() as int))
}

/// The primary header block of a GPT on `nb` blocks.
#[verifier::opaque]
pub open spec fn gpt_primary_header_block(g: GptModel, nb: int) -> Seq<u8> {
    let nr = g.partitions.len() as int;
    gpt_header_block_bytes(
        1u64,
        (nb - 1) as u64,
        gpt_first_usable(nr) as u64,
        gpt_last_usable(nr, nb) as u64,
        me_swapped(g.disk_guid),
        2u64,
        nr as u32,
        crc32_of(entries_bytes(g.partitions)),
    )
}

/// The backup header block of a GPT on `nb` blocks: the mirror of the
/// primary, naming its own block and its own entry array.
#[verifier::opaque]
pub open spec fn gpt_backup_header_block(g: GptModel, nb: int) -> Seq<u8> {
    let nr = g.partitions.len() as int;
    gpt_header_block_bytes(
        (nb - 1) as u64,
        1u64,
        gpt_first_usable(nr) as u64,
        gpt_last_usable(nr, nb) as u64,
        me_swapped(g.disk_guid),
        backup_entries_block(nr, nb) as u64,
        nr as u32,
        crc32_of(entries_bytes(g.partitions)),
    )
}

/// The whole image after a GPT write: the protective MBR at block 0, the
/// entry array at block 2 and again before the backup header, the primary
/// header at block 1 and the backup header at the last block; everything
/// else kept.
#[verifier::opaque]
pub open spec fn gpt_written_bytes(g: GptModel, nb: int, s0: Seq<u8>) -> Seq<u8> {
    let nr = g.partitions.len() as int;
    splice(
        splice(
            splice(
                splice(splice(s0, 0, gpt_protective_block(nb)), 1024, gpt_region(g)),
                512,
                gpt_primary_header_block(g, nb),
            ),
            backup_entries_block(nr, nb) * 512,
            gpt_region(g),
        ),
        (nb - 1) * 512,
        gpt_backup_header_block(g, nb),
    )
}

/// True when a GPT and an image fit together: the model is well-formed and
/// the image has room for both headers and both entry arrays.
pub open spec fn gpt_layout_ok(g: GptModel, nb: int, s0: Seq<u8>) -> bool {
    &&& gpt_wf(g)
    &&& nb == s0.len() / 512
    &&& nb <= usize::MAX
    &&& nb >= 2 * entry_array_blocks(g.partitions.len() as int) + 3
}

/// The entries-lba field of the header at block 1.
pub open spec fn gpt_hdr_entries_lba(s: Seq<u8>) -> u64 {
    le64_at(s, 584)
}

/// The entry-count field of the header at block 1.
pub open spec fn gpt_hdr_nr(s: Seq<u8>) -> u32 {
    crate::bytes::le32_at(s, 592)
}

/// The mixed-endian disk GUID bytes of the header at block 1.
pub open spec fn gpt_hdr_guid_me(s: Seq<u8>) -> Seq<u8> {
    s.subrange(568, 584)
}

/// True when an image carries a readable GPT: a protective MBR at block 0,
/// the signature at block 1, and an entry array that lies within the image.
pub open spec fn gpt_readable(s: Seq<u8>) -> bool {
    &&& s.len() >= 1024
    &&& mbr_sig_ok(s.subrange(0, 512))
    &&& parse_mbr(s.subrange(0, 512))[0].ptype is ProtectiveMBR
    &&& s.subrange(512, 520) == gpt_signature()
    &&& (gpt_hdr_entries_lba(s) + entry_array_blocks(gpt_hdr_nr(s) as int)) * 512 <= s.len()
}

/// The models of all `nr` entries in the array starting at block `elba`.
pub open spec fn all_parsed(s: Seq<u8>, elba: int, nr: int) -> Seq<GptPartitionModel> {
    Seq::new(nr as nat, |j: int| parse_gpt_partition(s, elba * 512 + 128 * j))
}

/// The 128 unused entries of a freshly created GPT.
pub open spec fn fresh_gpt_partitions() -> Seq<GptPartitionModel> {
    Seq::new(128, |i: int| empty_partition_model())
}

/// The used entries a read of the image returns: all entries the header
/// names, filtered of the nil-typed ones.
pub open spec fn gpt_parsed_parts(s: Seq<u8>) -> Seq<GptPartitionModel> {
    nonnil_parts(all_parsed(s, gpt_hdr_entries_lba(s) as int, gpt_hdr_nr(s) as int))
}

/// The entries whose partition type is not nil: the used ones.
pub open spec fn nonnil_parts(ps: Seq<GptPartitionModel>) -> Seq<GptPartitionModel> {
    ps.filter(|p: GptPartitionModel| p.type_guid != nil_guid())
}

/// The display line of one entry: its identifier and its type.
pub open spec fn partition_chars(p: GptPartitionModel) -> Seq<char> {
    seq!['I', 'D', ':'] + guid_chars(p.part_guid) + seq![',', ' ', 'T', 'y', 'p', 'e', ':', ' ']
        + guid_chars(p.type_guid)
}

/// The display lines of a sequence of entries, each ended by a newline.
pub open spec fn partitions_chars(ps: Seq<GptPartitionModel>) -> Seq<char>
    decreases ps.len(),
{
    if ps.len() == 0 {
        Seq::empty()
    } else {
        partitions_chars(ps.drop_last()) + partition_chars(ps.last()) + seq!['\n']
    }
}

/// The display text of a GPT: the disk GUID, then one line per entry.
pub open spec fn gpt_chars(g: GptModel) -> Seq<char> {
    seq!['G', 'U', 'I', 'D', ':', ' '] + guid_chars(g.disk_guid) + seq!['\n'] + partitions_chars(
        g.partitions,
    )
}

impl Partition {
    /// An unused entry: nil GUIDs, zero range and name.
    pub fn new_empty() -> (r: Partition)
        ensures
            r@ == empty_partition_model(),
    {
        let r = Partition {
            part_guid: Guid::nil(),
            type_guid: Guid::nil(),
            starting_lba: 0,
            ending_lba: 0,
            attributes: 0,
            name: [0u8; 72],
        };
        proof {
            assert(r@.name =~= empty_partition_model().name);
        }
        r
    }

    /// An entry of the given type with a fresh random partition GUID.
    pub fn new(type_guid: Guid) -> (r: Partition)
        ensures
            r@.type_guid == type_guid@,
            r@.part_guid.len() == 16,
            r@.starting_lba == 0,
            r@.ending_lba == 0,
            r@.attributes == 0,
            r@.name == Seq::new(72, |i: int| 0u8),
    {
        let r = Partition {
            part_guid: Guid::new_v4(),
            type_guid,
            starting_lba: 0,
            ending_lba: 0,
            attributes: 0,
            name: [0u8; 72],
        };
        proof {
            assert(r@.name =~= Seq::new(72, |i: int| 0u8));
        }
        r
    }

    /// The entry of a raw on-disk record, GUIDs decoded from mixed-endian
    /// order.
    pub fn from_raw(pte: RawGPTPartitionEntry) -> (r: Partition)
        ensures
            r@ == (GptPartitionModel {
                type_guid: me_swapped(pte.ptype@),
                part_guid: me_swapped(pte.ident@),
                starting_lba: pte.starting_lba,
                ending_lba: pte.ending_lba,
                attributes: pte.attributes,
                name: pte.name@,
            }),
    {
        Partition {
            part_guid: Guid::from_bytes_me(&pte.ident),
            type_guid: Guid::from_bytes_me(&pte.ptype),
            starting_lba: pte.starting_lba,
            ending_lba: pte.ending_lba,
            attributes: pte.attributes,
            name: pte.name,
        }
    }

    /// The display line of this entry: its identifier and type GUIDs in
    /// canonical text form.
    #[verifier::rlimit(100)]
    pub fn render(&self) -> (r: String)
        ensures
            r@ == partition_chars(self@),
    {
        let mut out = String::new();
        proof {
            reveal_strlit("ID:");
            reveal_strlit(", Type: ");
        }
        out.append("ID:");
        let s1 = self.part_guid.to_string_canonical();
        out.append(s1.as_str());
        out.append(", Type: ");
        let s2 = self.type_guid.to_string_canonical();
        out.append(s2.as_str());
        proof {
            crate::guid::lemma_guid_chars_len(self@.part_guid);
            crate::guid::lemma_guid_chars_len(self@.type_guid);
            assert(out@ =~= partition_chars(self@));
        }
        out
    }

    /// The raw on-disk record of this entry, GUIDs in mixed-endian order.
    pub fn to_raw(&self) -> (r: RawGPTPartitionEntry)
        ensures
            raw_gpt_entry_bytes(r) == gpt_entry_bytes(self@),
    {
        let r = RawGPTPartitionEntry {
            ptype: self.type_guid.to_bytes_me(),
            ident: self.part_guid.to_bytes_me(),
            starting_lba: self.starting_lba,
            ending_lba: self.ending_lba,
            attributes: self.attributes,
            name: self.name,
        };
        proof {
            assert(raw_gpt_entry_bytes(r) =~= gpt_entry_bytes(self@));
        }
        r
    }
}

impl GPT {
    /// A fresh GPT: 128 unused entries and a random disk GUID.
    pub fn new() -> (r: GPT)
        ensures
            r@.partitions.len() == 128,
            forall|j: int| 0 <= j < 128 ==> r@.partitions[j] == empty_partition_model(),
            r@.disk_guid.len() == 16,
            r@.disk_guid[6] & 0xf0 == 0x40,
            r@.disk_guid[8] & 0xc0 == 0x80,
    {
        let mut partitions: Vec<Partition> = Vec::new();
        let mut i: usize = 0;
        while i < 128
            invariant
                i <= 128,
                partitions@.len() == i,
                forall|j: int| 0 <= j < i ==> partitions@[j]@ == empty_partition_model(),
            decreases 128 - i,
        {
            partitions.push(Partition::new_empty());
            i = i + 1;
        }
        GPT { partitions, disk_guid: Guid::new_v4() }
    }

    /// Append a new entry of the given type with a fresh random partition
    /// GUID.
    pub fn add_partition(&mut self, type_guid: Guid)
        ensures
            final(self)@.partitions.len() == old(self)@.partitions.len() + 1,
            final(self)@.partitions.subrange(0, old(self)@.partitions.len() as int) == old(
                self,
            )@.partitions,
            final(self)@.partitions.last().type_guid == type_guid@,
            final(self)@.partitions.last().part_guid.len() == 16,
            final(self)@.partitions.last().starting_lba == 0,
            final(self)@.partitions.last().ending_lba == 0,
            final(self)@.partitions.last().attributes == 0,
            final(self)@.partitions.last().name == Seq::new(72, |i: int| 0u8),
            final(self)@.disk_guid == old(self)@.disk_guid,
    {
        self.partitions.push(Partition::new(type_guid));
        proof {
            assert(self@.partitions.subrange(0, old(self)@.partitions.len() as int) =~= old(
                self,
            )@.partitions);
        }
    }

    /// The display text of this GPT: the disk GUID, then one line per
    /// entry, used and unused alike.
    #[verifier::rlimit(100)]
    pub fn render(&self) -> (r: String)
        ensures
            r@ == gpt_chars(self@),
    {
        let mut out = String::new();
        proof {
            reveal_strlit("GUID: ");
            reveal_strlit("\n");
        }
        out.append("GUID: ");
        let s1 = self.disk_guid.to_string_canonical();
        out.append(s1.as_str());
        out.append("\n");
        let ghost parts = self@.partitions;
        let ghost head = out@;
        let mut i: usize = 0;
        while i < self.partitions.len()
            invariant
                i <= self.partitions@.len(),
                parts == self@.partitions,
                parts.len() == self.partitions@.len(),
                head == seq!['G', 'U', 'I', 'D', ':', ' '] + guid_chars(self@.disk_guid)
                    + seq!['\n'],
                out@ == head + partitions_chars(parts.take(i as int)),
            decreases self.partitions@.len() - i,
        {
            let line = self.partitions[i].render();
            out.append(line.as_str());
            proof {
                reveal_strlit("\n");
            }
            out.append("\n");
            proof {
                crate::guid::lemma_guid_chars_len(parts[i as int].part_guid);
                crate::guid::lemma_guid_chars_len(parts[i as int].type_guid);
                crate::guid::lemma_guid_chars_len(self@.disk_guid);
                assert(parts.take(i + 1).drop_last() =~= parts.take(i as int));
                assert(parts.take(i + 1).last() == parts[i as int]);
                assert(out@ =~= head + partitions_chars(parts.take(i + 1)));
            }
            i = i + 1;
        }
        proof {
            crate::guid::lemma_guid_chars_len(self@.disk_guid);
            assert(parts.take(self.partitions@.len() as int) =~= parts);
            assert(out@ =~= gpt_chars(self@));
        }
        out
    }

    /// Write the protective MBR for this image to block 0.
    fn write_protective_mbr(&self, image: &mut Image)
        requires
            old(image)@.len() >= 512,
        ensures
            final(image)@ == splice(
                old(image)@,
                0,
                mbr_bytes(
                    seq![
                        protective_entry((old(image)@.len() / 512) as usize),
                        empty_entry(),
                        empty_entry(),
                        empty_entry(),
                    ],
                ),
            ),
            final(image)@.len() == old(image)@.len(),
    {
        let nr_blocks = image.len() / MBR_SECTOR_SIZE;
        let mbr = MBR::new_protective(nr_blocks);
        mbr.write(image);
    }

    /// Serialize the entry array into whole blocks at `entries_start_idx`,
    /// zero-padding the tail, and return the CRC-32 of exactly the entry
    /// bytes (the padding is excluded).
    fn write_entries(&self, image: &mut Image, entries_start_idx: usize) -> (r: u32)
        requires
            self@.partitions.len() * 128 + 511 <= usize::MAX,
            (entries_start_idx + entry_array_blocks(self@.partitions.len() as int)) * 512 <= old(
                image,
            )@.len(),
        ensures
            final(image)@ == splice(
                old(image)@,
                entries_start_idx * 512,
                entries_region_bytes(
                    self@.partitions,
                    entry_array_blocks(self@.partitions.len() as int),
                ),
            ),
            final(image)@.len() == old(image)@.len(),
            r == crc32_of(entries_bytes(self@.partitions)),
    {
        let nr = self.partitions.len();
        let ghost parts = self@.partitions;
        proof {
            assert(parts.len() == nr);
            lemma_entries_bytes_len(parts);
        }
        let mut buf: Vec<u8> = Vec::new();
        let mut i: usize = 0;
        while i < nr
            invariant
                i <= nr,
                nr == self.partitions@.len(),
                parts == self@.partitions,
                parts.len() == nr,
                buf@.len() == 128 * i,
                buf@ == entries_bytes(parts.take(i as int)),
            decreases nr - i,
        {
            let raw = self.partitions[i].to_raw();
            push_raw_gpt_entry(&mut buf, &raw);
            proof {
                assert(parts.take(i + 1).drop_last() =~= parts.take(i as int));
                assert(parts.take(i + 1).last() == parts[i as int]);
                assert(entries_bytes(parts.take(i + 1)) == entries_bytes(parts.take(i as int))
                    + gpt_entry_bytes(parts[i as int]));
            }
            i = i + 1;
        }
        proof {
            assert(parts.take(nr as int) =~= parts);
        }
        let ecrc = crc32(&buf);
        let eb = (nr * 128 + 511) / 512;
        let target = eb * 512;
        proof {
            assert(eb == entry_array_blocks(nr as int));
            assert(128 * nr <= eb * 512);
        }
        while buf.len() < target
            invariant
                128 * nr <= buf@.len() <= target,
                target == entry_array_blocks(nr as int) * 512,
                parts.len() == nr,
                forall|k: int| 0 <= k < 128 * nr ==> buf@[k] == entries_bytes(parts)[k],
                forall|k: int| 128 * nr <= k < buf@.len() ==> buf@[k] == 0u8,
            decreases target - buf@.len(),
        {
            buf.push(0u8);
        }
        proof {
            lemma_entries_bytes_len(parts);
            assert(buf@ =~= entries_region_bytes(parts, entry_array_blocks(nr as int)));
        }
        image.write_blocks(entries_start_idx, &buf);
        ecrc
    }

    /// Serialize the entry array and one header: the header names this
    /// block, the other header's block, the usable range and the entry
    /// array's place and checksum.
    fn write_table(
        &self,
        image: &mut Image,
        this_block_idx: usize,
        alternative_block_idx: usize,
        entries_start_idx: usize,
        valid_range: (usize, usize),
    )
        requires
            self@.partitions.len() <= 0xffffffff,
            self@.partitions.len() * 128 + 511 <= usize::MAX,
            (entries_start_idx + entry_array_blocks(self@.partitions.len() as int)) * 512 <= old(
                image,
            )@.len(),
            this_block_idx * 512 + 512 <= old(image)@.len(),
        ensures
            final(image)@ == splice(
                splice(
                    old(image)@,
                    entries_start_idx * 512,
                    entries_region_bytes(
                        self@.partitions,
                        entry_array_blocks(self@.partitions.len() as int),
                    ),
                ),
                this_block_idx * 512,
                gpt_header_block_bytes(
                    this_block_idx as u64,
                    alternative_block_idx as u64,
                    valid_range.0 as u64,
                    valid_range.1 as u64,
                    me_swapped(self@.disk_guid),
                    entries_start_idx as u64,
                    self@.partitions.len() as u32,
                    crc32_of(entries_bytes(self@.partitions)),
                ),
            ),
            final(image)@.len() == old(image)@.len(),
    {
        let entries_checksum = self.write_entries(image, entries_start_idx);
        let mut hdr = RawGPTHeader::new();
        hdr.this_header_lba = this_block_idx as u64;
        hdr.other_header_lba = alternative_block_idx as u64;
        hdr.first_usable_lba = valid_range.0 as u64;
        hdr.last_usable_lba = valid_range.1 as u64;
        hdr.disk_guid = self.disk_guid.to_bytes_me();
        hdr.partition_entries_lba = entries_start_idx as u64;
        hdr.nr_partition_entries = self.partitions.len() as u32;
        hdr.partition_entries_checksum = entries_checksum;
        proof {
            reveal(gpt_header_bytes_v);
            assert(raw_gpt_header_bytes(hdr) =~= gpt_header_bytes_v(
                this_block_idx as u64,
                alternative_block_idx as u64,
                valid_range.0 as u64,
                valid_range.1 as u64,
                me_swapped(self@.disk_guid),
                entries_start_idx as u64,
                self@.partitions.len() as u32,
                crc32_of(entries_bytes(self@.partitions)),
                0u32,
            ));
        }
        let header_checksum = hdr.compute_checksum();
        hdr.header_checksum = header_checksum;
        proof {
            reveal(gpt_header_bytes_v);
            assert(raw_gpt_header_bytes(hdr) =~= gpt_header_bytes_v(
                this_block_idx as u64,
                alternative_block_idx as u64,
                valid_range.0 as u64,
                valid_range.1 as u64,
                me_swapped(self@.disk_guid),
                entries_start_idx as u64,
                self@.partitions.len() as u32,
                crc32_of(entries_bytes(self@.partitions)),
                header_checksum,
            ));
        }
        let mut block = hdr.as_bytes();
        while block.len() < 512
            invariant
                92 <= block@.len() <= 512,
                block@.subrange(0, 92) == raw_gpt_header_bytes(hdr),
                forall|k: int| 92 <= k < block@.len() ==> block@[k] == 0u8,
            decreases 512 - block@.len(),
        {
            block.push(0u8);
            proof {
                assert(block@.subrange(0, 92) =~= block@.drop_last().subrange(0, 92));
            }
        }
        proof {
            reveal(gpt_header_bytes_v);
            reveal(gpt_header_checksummed_bytes);
            reveal(gpt_header_block_bytes);
            assert(block@ =~= gpt_header_block_bytes(
                this_block_idx as u64,
                alternative_block_idx as u64,
                valid_range.0 as u64,
                valid_range.1 as u64,
                me_swapped(self@.disk_guid),
                entries_start_idx as u64,
                self@.partitions.len() as u32,
                crc32_of(entries_bytes(self@.partitions)),
            ));
        }
        image.write_blocks(this_block_idx, &block);
    }

    /// Write the whole GPT: protective MBR, entry array and primary header,
    /// then the backup entry array and header at the end of the disk.
    pub fn write(&self, image: &mut Image)
        requires
            self@.partitions.len() <= 0xffffffff,
            self@.partitions.len() * 128 + 511 <= usize::MAX,
            old(image)@.len() / 512 >= 2 * entry_array_blocks(self@.partitions.len() as int) + 3,
        ensures
            final(image)@ == gpt_written_bytes(
                self@,
                (old(image)@.len() / 512) as int,
                old(image)@,
            ),
            final(image)@.len() == old(image)@.len(),
    {
        let ghost s0 = image@;
        let nr = self.partitions.len();
        let nr_blocks = image.len() / 512;
        let eb = (nr * 128 + 511) / 512;
        proof {
            assert(eb == entry_array_blocks(nr as int));
            assert(nr_blocks * 512 <= image@.len());
        }
        self.write_protective_mbr(image);
        let primary_header_block: usize = 1;
        let alt_header_block = nr_blocks - 1;
        let first_usable = primary_header_block + eb + 1;
        let last_usable = alt_header_block - eb - 1;
        self.write_table(
            image,
            primary_header_block,
            alt_header_block,
            primary_header_block + 1,
            (first_usable, last_usable),
        );
        self.write_table(
            image,
            alt_header_block,
            primary_header_block,
            alt_header_block - eb,
            (first_usable, last_usable),
        );
        proof {
            assert(first_usable == gpt_first_usable(nr as int));
            assert(last_usable == gpt_last_usable(nr as int, nr_blocks as int));
            assert(alt_header_block - eb == backup_entries_block(nr as int, nr_blocks as int));
            reveal(gpt_written_bytes);
            reveal(gpt_protective_block);
            reveal(gpt_region);
            reveal(gpt_primary_header_block);
            reveal(gpt_backup_header_block);
            assert(image@ =~= gpt_written_bytes(self@, nr_blocks as int, s0));
        }
    }

    /// Parse a GPT from the image: the protective MBR and the primary
    /// header's signature must be present and the entry array must lie
    /// within the image; the stored checksums are not validated here.
    #[verifier::rlimit(100)]
    pub fn read(image: &Image) -> (r: Option<GPT>)
        ensures
            r is Some <==> gpt_readable(image@),
            r matches Some(g) ==> g@.disk_guid == me_swapped(gpt_hdr_guid_me(image@))
                && g@.partitions == gpt_parsed_parts(image@),
    {
        let len = image.len();
        if len < 1024 {
            return None;
        }
        let mbr = match MBR::read(image) {
            Some(m) => m,
            None => {
                return None;
            },
        };
        let is_protective = match mbr.partition_table[0].ptype {
            PartitionType::ProtectiveMBR => true,
            _ => false,
        };
        if !is_protective {
            return None;
        }
        let block1 = image.get_blocks(1, 1);
        let hdr = RawGPTHeader::from_bytes(&block1);
        proof {
            assert(block1@.subrange(0, 8) =~= image@.subrange(512, 520));
            assert(block1@.subrange(56, 72) =~= image@.subrange(568, 584));
            assert(hdr.partition_entries_lba == gpt_hdr_entries_lba(image@));
            assert(hdr.nr_partition_entries == gpt_hdr_nr(image@));
        }
        if !(hdr.signature[0] == 0x45 && hdr.signature[1] == 0x46 && hdr.signature[2] == 0x49
            && hdr.signature[3] == 0x20 && hdr.signature[4] == 0x50 && hdr.signature[5] == 0x41
            && hdr.signature[6] == 0x52 && hdr.signature[7] == 0x54) {
            proof {
                assert(image@.subrange(512, 520) != gpt_signature());
            }
            return None;
        }
        proof {
            assert(image@.subrange(512, 520) =~= gpt_signature());
        }
        let elba = hdr.partition_entries_lba;
        let nr = hdr.nr_partition_entries;
        let len64 = len as u64;
        let eb64 = ((nr as u64) * 128 + 511) / 512;
        proof {
            assert(eb64 == entry_array_blocks(nr as int));
        }
        if elba > len64 / 512 {
            proof {
                assert((elba + eb64) * 512 > image@.len());
            }
            return None;
        }
        if eb64 > len64 / 512 - elba {
            proof {
                assert((elba + eb64) * 512 > image@.len());
            }
            return None;
        }
        proof {
            assert((elba + eb64) * 512 <= image@.len());
        }
        let elba_us = elba as usize;
        let eb_us = eb64 as usize;
        let region = image.get_blocks(elba_us, eb_us);
        let ghost s = image@;
        let ghost all = all_parsed(s, elba as int, nr as int);
        let region_len = region.len();
        let mut parts: Vec<Partition> = Vec::new();
        let mut j: usize = 0;
        while j < nr as usize
            invariant
                j <= nr,
                region@ == s.subrange(elba * 512, elba * 512 + eb64 * 512),
                region@.len() == eb64 * 512,
                region_len == region@.len(),
                (nr as int) * 128 <= eb64 * 512,
                (elba + eb64) * 512 <= s.len(),
                all == all_parsed(s, elba as int, nr as int),
                all.len() == nr,
                parts@.map_values(|p: Partition| p@) == nonnil_parts(all.take(j as int)),
            decreases nr - j,
        {
            let pte = read_raw_gpt_entry(&region, j * 128);
            let p = Partition::from_raw(pte);
            let ghost prev = parts@.map_values(|q: Partition| q@);
            proof {
                let e = (elba as int) * 512;
                let l = (eb64 as int) * 512;
                let a = 128 * (j as int);
                assert((elba + eb64) * 512 == (elba as int) * 512 + (eb64 as int) * 512)
                    by (nonlinear_arith);
                assert(a + 128 <= 128 * (nr as int));
                crate::bytes::lemma_subrange_of_subrange(s, e, l, a, a + 16);
                crate::bytes::lemma_subrange_of_subrange(s, e, l, a + 16, a + 32);
                crate::bytes::lemma_subrange_of_subrange(s, e, l, a + 56, a + 128);
                assert(pte.ptype@ == s.subrange(e + a, e + a + 16));
                assert(pte.ident@ == s.subrange(e + a + 16, e + a + 32));
                assert(pte.name@ == s.subrange(e + a + 56, e + a + 128));
                assert(le64_at(region@, a + 32) == le64_at(s, e + a + 32));
                assert(le64_at(region@, a + 40) == le64_at(s, e + a + 40));
                assert(le64_at(region@, a + 48) == le64_at(s, e + a + 48));
                assert(p@ == all[j as int]);
            }
            if !p.type_guid.is_nil() {
                parts.push(p);
                proof {
                    assert(parts@.map_values(|q: Partition| q@) =~= prev.push(p@));
                }
            }
            proof {
                reveal(Seq::filter);
                assert(all.take(j + 1).drop_last() =~= all.take(j as int));
                assert(all.take(j + 1).last() == all[j as int]);
                assert(parts@.map_values(|q: Partition| q@) =~= nonnil_parts(all.take(j + 1)));
            }
            j = j + 1;
        }
        proof {
            assert(all.take(nr as int) =~= all);
        }
        let disk_guid = Guid::from_bytes_me(&hdr.disk_guid);
        Some(GPT { partitions: parts, disk_guid })
    }
}


/// The pieces of a written image have their exact sizes.
#[verifier::rlimit(100)]
proof fn lemma_piece_lens(g: GptModel, nb: int)
    requires
        gpt_wf(g),
    ensures
        gpt_protective_block(nb).len() == 512,
        gpt_primary_header_block(g, nb).len() == 512,
        gpt_backup_header_block(g, nb).len() == 512,
        gpt_region(g).len() == entry_array_blocks(g.partitions.len() as int) * 512,
        entries_bytes(g.partitions).len() == 128 * g.partitions.len(),
        128 * (g.partitions.len() as int) <= entry_array_blocks(g.partitions.len() as int) * 512,
{
    reveal(gpt_header_bytes_v);
    reveal(gpt_header_checksummed_bytes);
    reveal(gpt_header_block_bytes);
    reveal(gpt_protective_block);
    reveal(gpt_region);
    reveal(gpt_primary_header_block);
    reveal(gpt_backup_header_block);
    lemma_entries_bytes_len(g.partitions);
    let nr = g.partitions.len() as int;
    let a = 128 * nr + 511;
    assert(a == 512 * (a / 512) + a % 512);
    assert(gpt_region(g).len() == entry_array_blocks(nr) * 512);
}

/// Where each piece of a written image lies: the protective MBR at block 0,
/// the primary header at block 1, the entry array at block 2 and again
/// before the backup header, the backup header at the last block.
#[verifier::rlimit(100)]
pub proof fn lemma_gpt_written_layout(g: GptModel, nb: int, s0: Seq<u8>)
    requires
        gpt_layout_ok(g, nb, s0),
    ensures
        gpt_written_bytes(g, nb, s0).len() == s0.len(),
        gpt_written_bytes(g, nb, s0).subrange(0, 512) == gpt_protective_block(nb),
        gpt_written_bytes(g, nb, s0).subrange(512, 1024) == gpt_primary_header_block(g, nb),
        gpt_written_bytes(g, nb, s0).subrange(
            1024,
            1024 + entry_array_blocks(g.partitions.len() as int) * 512,
        ) == gpt_region(g),
        gpt_written_bytes(g, nb, s0).subrange(
            backup_entries_block(g.partitions.len() as int, nb) * 512,
            (nb - 1) * 512,
        ) == gpt_region(g),
        gpt_written_bytes(g, nb, s0).subrange((nb - 1) * 512, nb * 512)
            == gpt_backup_header_block(g, nb),
{
    reveal(gpt_written_bytes);
    lemma_piece_lens(g, nb);
    let nr = g.partitions.len() as int;
    let eb = entry_array_blocks(nr);
    let s = gpt_written_bytes(g, nb, s0);
    assert(s0.len() == 512 * (s0.len() / 512) + s0.len() % 512);
    assert(nb * 512 <= s0.len());
    assert(s.subrange(0, 512) =~= gpt_protective_block(nb));
    assert(s.subrange(512, 1024) =~= gpt_primary_header_block(g, nb));
    assert(s.subrange(1024, 1024 + eb * 512) =~= gpt_region(g));
    assert(s.subrange(backup_entries_block(nr, nb) * 512, (nb - 1) * 512) =~= gpt_region(g));
    assert(s.subrange((nb - 1) * 512, nb * 512) =~= gpt_backup_header_block(g, nb));
}

/// The field values readable from a header block found at `off`.
#[verifier::rlimit(100)]
proof fn lemma_header_block_fields(
    s: Seq<u8>,
    off: int,
    this_lba: u64,
    other_lba: u64,
    first_usable: u64,
    last_usable: u64,
    guid_me: Seq<u8>,
    entries_lba: u64,
    nr: u32,
    ecrc: u32,
)
    requires
        0 <= off,
        off + 512 <= s.len(),
        guid_me.len() == 16,
        s.subrange(off, off + 512) == gpt_header_block_bytes(
            this_lba,
            other_lba,
            first_usable,
            last_usable,
            guid_me,
            entries_lba,
            nr,
            ecrc,
        ),
    ensures
        s.subrange(off, off + 8) == gpt_signature(),
        crate::bytes::le32_at(s, off + 16) == crc32_of(
            gpt_header_bytes_v(
                this_lba,
                other_lba,
                first_usable,
                last_usable,
                guid_me,
                entries_lba,
                nr,
                ecrc,
                0,
            ),
        ),
        le64_at(s, off + 24) == this_lba,
        le64_at(s, off + 32) == other_lba,
        le64_at(s, off + 40) == first_usable,
        le64_at(s, off + 48) == last_usable,
        s.subrange(off + 56, off + 72) == guid_me,
        le64_at(s, off + 72) == entries_lba,
        crate::bytes::le32_at(s, off + 80) == nr,
        crate::bytes::le32_at(s, off + 88) == ecrc,
{
    reveal(gpt_header_bytes_v);
    reveal(gpt_header_checksummed_bytes);
    reveal(gpt_header_block_bytes);
    let hc = crc32_of(
        gpt_header_bytes_v(
            this_lba,
            other_lba,
            first_usable,
            last_usable,
            guid_me,
            entries_lba,
            nr,
            ecrc,
            0,
        ),
    );
    let block = gpt_header_block_bytes(
        this_lba,
        other_lba,
        first_usable,
        last_usable,
        guid_me,
        entries_lba,
        nr,
        ecrc,
    );
    assert(forall|k: int| 0 <= k < 512 ==> s[off + k] == #[trigger] block[k]);
    assert(s[off + 0] == block[0] && block[0] == gpt_signature()[0]);
    assert(s[off + 1] == block[1] && block[1] == gpt_signature()[1]);
    assert(s[off + 2] == block[2] && block[2] == gpt_signature()[2]);
    assert(s[off + 3] == block[3] && block[3] == gpt_signature()[3]);
    assert(s[off + 4] == block[4] && block[4] == gpt_signature()[4]);
    assert(s[off + 5] == block[5] && block[5] == gpt_signature()[5]);
    assert(s[off + 6] == block[6] && block[6] == gpt_signature()[6]);
    assert(s[off + 7] == block[7] && block[7] == gpt_signature()[7]);
    assert(s[off + 16] == block[16] && block[16] == le32_bytes(hc)[0]);
    assert(s[off + 17] == block[17] && block[17] == le32_bytes(hc)[1]);
    assert(s[off + 18] == block[18] && block[18] == le32_bytes(hc)[2]);
    assert(s[off + 19] == block[19] && block[19] == le32_bytes(hc)[3]);
    assert(s[off + 24] == block[24] && block[24] == le64_bytes(this_lba)[0]);
    assert(s[off + 25] == block[25] && block[25] == le64_bytes(this_lba)[1]);
    assert(s[off + 26] == block[26] && block[26] == le64_bytes(this_lba)[2]);
    assert(s[off + 27] == block[27] && block[27] == le64_bytes(this_lba)[3]);
    assert(s[off + 28] == block[28] && block[28] == le64_bytes(this_lba)[4]);
    assert(s[off + 29] == block[29] && block[29] == le64_bytes(this_lba)[5]);
    assert(s[off + 30] == block[30] && block[30] == le64_bytes(this_lba)[6]);
    assert(s[off + 31] == block[31] && block[31] == le64_bytes(this_lba)[7]);
    assert(s[off + 32] == block[32] && block[32] == le64_bytes(other_lba)[0]);
    assert(s[off + 33] == block[33] && block[33] == le64_bytes(other_lba)[1]);
    assert(s[off + 34] == block[34] && block[34] == le64_bytes(other_lba)[2]);
    assert(s[off + 35] == block[35] && block[35] == le64_bytes(other_lba)[3]);
    assert(s[off + 36] == block[36] && block[36] == le64_bytes(other_lba)[4]);
    assert(s[off + 37] == block[37] && block[37] == le64_bytes(other_lba)[5]);
    assert(s[off + 38] == block[38] && block[38] == le64_bytes(other_lba)[6]);
    assert(s[off + 39] == block[39] && block[39] == le64_bytes(other_lba)[7]);
    assert(s[off + 40] == block[40] && block[40] == le64_bytes(first_usable)[0]);
    assert(s[off + 41] == block[41] && block[41] == le64_bytes(first_usable)[1]);
    assert(s[off + 42] == block[42] && block[42] == le64_bytes(first_usable)[2]);
    assert(s[off + 43] == block[43] && block[43] == le64_bytes(first_usable)[3]);
    assert(s[off + 44] == block[44] && block[44] == le64_bytes(first_usable)[4]);
    assert(s[off + 45] == block[45] && block[45] == le64_bytes(first_usable)[5]);
    assert(s[off + 46] == block[46] && block[46] == le64_bytes(first_usable)[6]);
    assert(s[off + 47] == block[47] && block[47] == le64_bytes(first_usable)[7]);
    assert(s[off + 48] == block[48] && block[48] == le64_bytes(last_usable)[0]);
    assert(s[off + 49] == block[49] && block[49] == le64_bytes(last_usable)[1]);
    assert(s[off + 50] == block[50] && block[50] == le64_bytes(last_usable)[2]);
    assert(s[off + 51] == block[51] && block[51] == le64_bytes(last_usable)[3]);
    assert(s[off + 52] == block[52] && block[52] == le64_bytes(last_usable)[4]);
    assert(s[off + 53] == block[53] && block[53] == le64_bytes(last_usable)[5]);
    assert(s[off + 54] == block[54] && block[54] == le64_bytes(last_usable)[6]);
    assert(s[off + 55] == block[55] && block[55] == le64_bytes(last_usable)[7]);
    assert(s[off + 56] == block[56] && block[56] == guid_me[0]);
    assert(s[off + 57] == block[57] && block[57] == guid_me[1]);
    assert(s[off + 58] == block[58] && block[58] == guid_me[2]);
    assert(s[off + 59] == block[59] && block[59] == guid_me[3]);
    assert(s[off + 60] == block[60] && block[60] == guid_me[4]);
    assert(s[off + 61] == block[61] && block[61] == guid_me[5]);
    assert(s[off + 62] == block[62] && block[62] == guid_me[6]);
    assert(s[off + 63] == block[63] && block[63] == guid_me[7]);
    assert(s[off + 64] == block[64] && block[64] == guid_me[8]);
    assert(s[off + 65] == block[65] && block[65] == guid_me[9]);
    assert(s[off + 66] == block[66] && block[66] == guid_me[10]);
    assert(s[off + 67] == block[67] && block[67] == guid_me[11]);
    assert(s[off + 68] == block[68] && block[68] == guid_me[12]);
    assert(s[off + 69] == block[69] && block[69] == guid_me[13]);
    assert(s[off + 70] == block[70] && block[70] == guid_me[14]);
    assert(s[off + 71] == block[71] && block[71] == guid_me[15]);
    assert(s[off + 72] == block[72] && block[72] == le64_bytes(entries_lba)[0]);
    assert(s[off + 73] == block[73] && block[73] == le64_bytes(entries_lba)[1]);
    assert(s[off + 74] == block[74] && block[74] == le64_bytes(entries_lba)[2]);
    assert(s[off + 75] == block[75] && block[75] == le64_bytes(entries_lba)[3]);
    assert(s[off + 76] == block[76] && block[76] == le64_bytes(entries_lba)[4]);
    assert(s[off + 77] == block[77] && block[77] == le64_bytes(entries_lba)[5]);
    assert(s[off + 78] == block[78] && block[78] == le64_bytes(entries_lba)[6]);
    assert(s[off + 79] == block[79] && block[79] == le64_bytes(entries_lba)[7]);
    assert(s[off + 80] == block[80] && block[80] == le32_bytes(nr)[0]);
    assert(s[off + 81] == block[81] && block[81] == le32_bytes(nr)[1]);
    assert(s[off + 82] == block[82] && block[82] == le32_bytes(nr)[2]);
    assert(s[off + 83] == block[83] && block[83] == le32_bytes(nr)[3]);
    assert(s[off + 88] == block[88] && block[88] == le32_bytes(ecrc)[0]);
    assert(s[off + 89] == block[89] && block[89] == le32_bytes(ecrc)[1]);
    assert(s[off + 90] == block[90] && block[90] == le32_bytes(ecrc)[2]);
    assert(s[off + 91] == block[91] && block[91] == le32_bytes(ecrc)[3]);
    assert(s.subrange(off, off + 8) =~= gpt_signature());
    assert(s.subrange(off + 56, off + 72) =~= guid_me);
    crate::bytes::lemma_le32_roundtrip(hc);
    crate::bytes::lemma_le32_roundtrip(nr);
    crate::bytes::lemma_le32_roundtrip(ecrc);
    crate::bytes::lemma_le64_roundtrip(this_lba);
    crate::bytes::lemma_le64_roundtrip(other_lba);
    crate::bytes::lemma_le64_roundtrip(first_usable);
    crate::bytes::lemma_le64_roundtrip(last_usable);
    crate::bytes::lemma_le64_roundtrip(entries_lba);
    assert(crate::bytes::le32_at(s, off + 16) == crate::bytes::le32_at(le32_bytes(hc), 0));
    assert(le64_at(s, off + 24) == le64_at(le64_bytes(this_lba), 0));
    assert(le64_at(s, off + 32) == le64_at(le64_bytes(other_lba), 0));
    assert(le64_at(s, off + 40) == le64_at(le64_bytes(first_usable), 0));
    assert(le64_at(s, off + 48) == le64_at(le64_bytes(last_usable), 0));
    assert(le64_at(s, off + 72) == le64_at(le64_bytes(entries_lba), 0));
    assert(crate::bytes::le32_at(s, off + 80) == crate::bytes::le32_at(le32_bytes(nr), 0));
    assert(crate::bytes::le32_at(s, off + 88) == crate::bytes::le32_at(le32_bytes(ecrc), 0));
}

/// Header-checksum law: a header whose checksum field was computed over the
/// header with that field zeroed validates, in that recomputing under the
/// same zeroing rule reproduces the stored value.
pub proof fn lemma_header_checksum_valid(
    this_lba: u64,
    other_lba: u64,
    first_usable: u64,
    last_usable: u64,
    guid_me: Seq<u8>,
    entries_lba: u64,
    nr: u32,
    ecrc: u32,
)
    requires
        guid_me.len() == 16,
    ensures
        ({
            let h = gpt_header_checksummed_bytes(
                this_lba,
                other_lba,
                first_usable,
                last_usable,
                guid_me,
                entries_lba,
                nr,
                ecrc,
            );
            crate::bytes::le32_at(h, 16) == crc32_of(splice(h, 16, le32_bytes(0)))
        }),
{
    reveal(gpt_header_bytes_v);
    reveal(gpt_header_checksummed_bytes);
    let h0 = gpt_header_bytes_v(
        this_lba,
        other_lba,
        first_usable,
        last_usable,
        guid_me,
        entries_lba,
        nr,
        ecrc,
        0,
    );
    let hc = crc32_of(h0);
    let h = gpt_header_checksummed_bytes(
        this_lba,
        other_lba,
        first_usable,
        last_usable,
        guid_me,
        entries_lba,
        nr,
        ecrc,
    );
    assert(splice(h, 16, le32_bytes(0)) =~= h0);
    crate::bytes::lemma_le32_roundtrip(hc);
    assert(crate::bytes::le32_at(h, 16) == crate::bytes::le32_at(le32_bytes(hc), 0));
}

/// Protective-MBR interlock: after a GPT write the MBR parses, and its
/// first entry carries the protective type.
#[verifier::rlimit(100)]
pub proof fn lemma_gpt_protective_interlock(g: GptModel, nb: int, s0: Seq<u8>)
    requires
        gpt_layout_ok(g, nb, s0),
    ensures
        mbr_sig_ok(gpt_written_bytes(g, nb, s0).subrange(0, 512)),
        parse_mbr(gpt_written_bytes(g, nb, s0).subrange(0, 512)) == seq![
            protective_entry((nb as usize)),
            empty_entry(),
            empty_entry(),
            empty_entry(),
        ],
        parse_mbr(gpt_written_bytes(g, nb, s0).subrange(0, 512))[0].ptype
            is ProtectiveMBR,
{
    let s = gpt_written_bytes(g, nb, s0);
    let es = seq![protective_entry((nb as usize)), empty_entry(), empty_entry(), empty_entry()];
    assert(s.subrange(0, 512) == mbr_bytes(es)) by {
        lemma_gpt_written_layout(g, nb, s0);
        reveal(gpt_protective_block);
    }
    crate::mbr::lemma_protective_entry_wf((nb as usize));
    assert(crate::mbr::mbr_wf(es));
    crate::mbr::lemma_mbr_roundtrip(es);
}

/// Primary/backup duality: the two headers of a written GPT mirror each
/// other's block addresses, agree on the disk GUID and the entry count, and
/// their entry arrays are bytewise identical.
pub proof fn lemma_gpt_primary_backup_duality(g: GptModel, nb: int, s0: Seq<u8>)
    requires
        gpt_layout_ok(g, nb, s0),
    ensures
        ({
            let s = gpt_written_bytes(g, nb, s0);
            let nr = g.partitions.len() as int;
            let eb = entry_array_blocks(nr);
            &&& le64_at(s, 536) == 1
            &&& le64_at(s, 544) == (nb - 1) as u64
            &&& le64_at(s, (nb - 1) * 512 + 24) == (nb - 1) as u64
            &&& le64_at(s, (nb - 1) * 512 + 32) == 1
            &&& le64_at(s, 544) == le64_at(s, (nb - 1) * 512 + 24)
            &&& le64_at(s, (nb - 1) * 512 + 32) == le64_at(s, 536)
            &&& s.subrange(568, 584) == s.subrange((nb - 1) * 512 + 56, (nb - 1) * 512 + 72)
            &&& crate::bytes::le32_at(s, 592) == crate::bytes::le32_at(s, (nb - 1) * 512 + 80)
            &&& s.subrange(1024, 1024 + eb * 512) == s.subrange(
                backup_entries_block(nr, nb) * 512,
                (nb - 1) * 512,
            )
        }),
{
    let s = gpt_written_bytes(g, nb, s0);
    let nr = g.partitions.len() as int;
    let eb = entry_array_blocks(nr);
    let ecrc = crc32_of(entries_bytes(g.partitions));
    let fu = gpt_first_usable(nr) as u64;
    let lu = gpt_last_usable(nr, nb) as u64;
    let guid_me = me_swapped(g.disk_guid);
    let bs = backup_entries_block(nr, nb);
    assert(s.len() == s0.len() && nb * 512 <= s.len() && s.subrange(512, 1024)
        == gpt_header_block_bytes(1u64, (nb - 1) as u64, fu, lu, guid_me, 2u64, nr as u32, ecrc)
        && s.subrange((nb - 1) * 512, nb * 512) == gpt_header_block_bytes(
        (nb - 1) as u64,
        1u64,
        fu,
        lu,
        guid_me,
        bs as u64,
        nr as u32,
        ecrc,
    ) && s.subrange(1024, 1024 + eb * 512) == s.subrange(bs * 512, (nb - 1) * 512)) by {
        lemma_gpt_written_layout(g, nb, s0);
        reveal(gpt_primary_header_block);
        reveal(gpt_backup_header_block);
        assert(s0.len() == 512 * (s0.len() / 512) + s0.len() % 512);
    }
    lemma_header_block_fields(s, 512, 1u64, (nb - 1) as u64, fu, lu, guid_me, 2u64, nr as u32, ecrc);
    lemma_header_block_fields(
        s,
        (nb - 1) * 512,
        (nb - 1) as u64,
        1u64,
        fu,
        lu,
        guid_me,
        bs as u64,
        nr as u32,
        ecrc,
    );
}

/// Entry-array checksum law: the checksum stored in each header of a
/// written GPT is the CRC-32 of exactly the entry bytes, the padding of the
/// final array block excluded.
#[verifier::rlimit(100)]
pub proof fn lemma_gpt_entry_checksum(g: GptModel, nb: int, s0: Seq<u8>)
    requires
        gpt_layout_ok(g, nb, s0),
    ensures
        ({
            let s = gpt_written_bytes(g, nb, s0);
            let nr = g.partitions.len() as int;
            &&& crate::bytes::le32_at(s, 600) == crc32_of(s.subrange(1024, 1024 + 128 * nr))
            &&& crate::bytes::le32_at(s, (nb - 1) * 512 + 88) == crc32_of(
                s.subrange(1024, 1024 + 128 * nr),
            )
        }),
{
    let s = gpt_written_bytes(g, nb, s0);
    let nr = g.partitions.len() as int;
    let eb = entry_array_blocks(nr);
    let ecrc = crc32_of(entries_bytes(g.partitions));
    let fu = gpt_first_usable(nr) as u64;
    let lu = gpt_last_usable(nr, nb) as u64;
    let guid_me = me_swapped(g.disk_guid);
    let bs = backup_entries_block(nr, nb);
    assert(s.len() == s0.len() && nb * 512 <= s.len() && s.subrange(512, 1024)
        == gpt_header_block_bytes(1u64, (nb - 1) as u64, fu, lu, guid_me, 2u64, nr as u32, ecrc)
        && s.subrange((nb - 1) * 512, nb * 512) == gpt_header_block_bytes(
        (nb - 1) as u64,
        1u64,
        fu,
        lu,
        guid_me,
        bs as u64,
        nr as u32,
        ecrc,
    )) by {
        lemma_gpt_written_layout(g, nb, s0);
        reveal(gpt_primary_header_block);
        reveal(gpt_backup_header_block);
        assert(s0.len() == 512 * (s0.len() / 512) + s0.len() % 512);
    }
    lemma_header_block_fields(s, 512, 1u64, (nb - 1) as u64, fu, lu, guid_me, 2u64, nr as u32, ecrc);
    lemma_header_block_fields(
        s,
        (nb - 1) * 512,
        (nb - 1) as u64,
        1u64,
        fu,
        lu,
        guid_me,
        bs as u64,
        nr as u32,
        ecrc,
    );
    assert(s.subrange(1024, 1024 + 128 * nr) == entries_bytes(g.partitions)) by {
        lemma_gpt_written_layout(g, nb, s0);
        lemma_piece_lens(g, nb);
        reveal(gpt_region);
        assert forall|i: int| 0 <= i < 128 * nr implies s.subrange(1024, 1024 + 128 * nr)[i]
            == entries_bytes(g.partitions)[i] by {
            assert(s.subrange(1024, 1024 + eb * 512)[i] == gpt_region(g)[i]);
            assert(s[1024 + i] == gpt_region(g)[i]);
        }
        assert(s.subrange(1024, 1024 + 128 * nr) =~= entries_bytes(g.partitions));
    }
}

/// GPT round-trip: a written GPT is readable, and reading it back yields
/// the same disk GUID and exactly the non-nil entries, in order.
#[verifier::rlimit(100)]
pub proof fn lemma_gpt_write_read(g: GptModel, nb: int, s0: Seq<u8>)
    requires
        gpt_layout_ok(g, nb, s0),
    ensures
        ({
            let s = gpt_written_bytes(g, nb, s0);
            let nr = g.partitions.len() as int;
            &&& gpt_readable(s)
            &&& gpt_hdr_entries_lba(s) == 2
            &&& gpt_hdr_nr(s) == g.partitions.len()
            &&& me_swapped(gpt_hdr_guid_me(s)) == g.disk_guid
            &&& all_parsed(s, 2, nr) == g.partitions
            &&& nonnil_parts(all_parsed(s, gpt_hdr_entries_lba(s) as int, gpt_hdr_nr(s) as int))
                == nonnil_parts(g.partitions)
        }),
{
    lemma_gpt_written_layout(g, nb, s0);
    lemma_piece_lens(g, nb);
    lemma_gpt_protective_interlock(g, nb, s0);
    reveal(gpt_primary_header_block);
    reveal(gpt_region);
    let s = gpt_written_bytes(g, nb, s0);
    let nr = g.partitions.len() as int;
    let eb = entry_array_blocks(nr);
    let ecrc = crc32_of(entries_bytes(g.partitions));
    assert(s0.len() == 512 * (s0.len() / 512) + s0.len() % 512);
    assert(nb * 512 <= s0.len());
    lemma_header_block_fields(
        s,
        512,
        1u64,
        (nb - 1) as u64,
        gpt_first_usable(nr) as u64,
        gpt_last_usable(nr, nb) as u64,
        me_swapped(g.disk_guid),
        2u64,
        nr as u32,
        ecrc,
    );
    assert(s.subrange(512, 520) =~= s.subrange(512, 1024).subrange(0, 8));
    assert(s.subrange(512, 520) == gpt_signature());
    lemma_me_involution(g.disk_guid);
    assert((2 + eb) * 512 <= nb * 512) by (nonlinear_arith)
        requires
            nb >= 2 * eb + 3,
            eb >= 0,
    ;
    assert(gpt_readable(s));
    assert forall|j: int| 0 <= j < nr implies all_parsed(s, 2, nr)[j] == g.partitions[j] by {
        assert forall|k: int| 0 <= k < 128 implies s[1024 + 128 * j + k] == gpt_entry_bytes(
            g.partitions[j],
        )[k] by {
            assert(128 * j + k < 128 * nr) by (nonlinear_arith)
                requires
                    0 <= k < 128,
                    0 <= j < nr,
            ;
            assert(128 * nr <= eb * 512);
            assert(s.subrange(1024, 1024 + eb * 512)[128 * j + k] == gpt_region(g)[128 * j
                + k]);
            assert(s[1024 + 128 * j + k] == gpt_region(g)[128 * j + k]);
            lemma_entries_bytes_index(g.partitions, j, k);
        }
        lemma_gpt_entry_at(s, g.partitions[j], 1024 + 128 * j);
    }
    assert(all_parsed(s, 2, nr) =~= g.partitions);
}

} // verus!
