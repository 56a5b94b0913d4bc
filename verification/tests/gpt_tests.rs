use fisic::gpt::{Partition, GPT};
use fisic::guid::Guid;
use fisic::image::Image;
use fisic::mbr::{PartitionType, MBR};
use fisic::raw::{RawGPTHeader, GPT_PTYPE_EFI_SYSTEM, GPT_PTYPE_LINUX_FS};

fn image_64mib() -> Image {
    Image::new(vec![0u8; 131072 * 512])
}

fn le32(b: &[u8]) -> u32 {
    u32::from_le_bytes([b[0], b[1], b[2], b[3]])
}

fn le64(b: &[u8]) -> u64 {
    u64::from_le_bytes([b[0], b[1], b[2], b[3], b[4], b[5], b[6], b[7]])
}

fn crc32_of(data: &[u8]) -> u32 {
    let mut crc = crc_any::CRC::crc32();
    crc.digest(data);
    crc.get_crc() as u32
}

#[test]
fn fresh_gpt_on_64_mib_image() {
    let mut image = image_64mib();
    let gpt = GPT::new();
    gpt.write(&mut image);

    // block 0 carries a protective MBR
    let mbr = MBR::read(&image).unwrap();
    assert_eq!(mbr.partition_table[0].ptype, PartitionType::ProtectiveMBR);

    let block1 = image.get_blocks(1, 1);
    assert_eq!(&block1[0..8], b"EFI PART");
    assert_eq!(&block1[56..72], &gpt.disk_guid.to_bytes_me());
    assert_eq!(le64(&block1[24..32]), 1, "this header");
    assert_eq!(le64(&block1[32..40]), 131071, "other header");
    assert_eq!(le64(&block1[40..48]), 34, "first usable");
    assert_eq!(le64(&block1[48..56]), 131038, "last usable");
    assert_eq!(le64(&block1[72..80]), 2, "entry array start");
    assert_eq!(le32(&block1[80..84]), 128, "entry count");
    assert_eq!(le32(&block1[84..88]), 128, "entry size");

    // the backup header mirrors the primary
    let backup = image.get_blocks(131071, 1);
    assert_eq!(&backup[0..8], b"EFI PART");
    assert_eq!(le64(&backup[24..32]), 131071, "backup this header");
    assert_eq!(le64(&backup[32..40]), 1, "backup other header");
    assert_eq!(le64(&backup[72..80]), 131039, "backup entry array start");
    assert_eq!(&backup[56..72], &block1[56..72], "same disk guid");
    assert_eq!(le32(&backup[80..84]), 128, "same entry count");
}

#[test]
fn gpt_with_one_efi_system_partition() {
    let mut image = image_64mib();
    let mut gpt = GPT::new();
    gpt.add_partition(Guid::parse(GPT_PTYPE_EFI_SYSTEM).unwrap());
    gpt.write(&mut image);
    let back = GPT::read(&image).unwrap();
    assert_eq!(back.partitions.len(), 1);
    assert_eq!(
        back.partitions[0].type_guid.to_string_canonical(),
        "c12a7328-f81f-11d2-ba4b-00a0c93ec93b".to_string()
    );
}

#[test]
fn gpt_round_trip_preserves_types_in_order() {
    let mut image = image_64mib();
    let mut gpt = GPT::new();
    let efi = Guid::parse(GPT_PTYPE_EFI_SYSTEM).unwrap();
    let linux = Guid::parse(GPT_PTYPE_LINUX_FS).unwrap();
    gpt.add_partition(efi);
    gpt.add_partition(linux);
    gpt.write(&mut image);
    let back = GPT::read(&image).unwrap();
    assert!(back.disk_guid.same_as(&gpt.disk_guid));
    assert_eq!(back.partitions.len(), 2);
    assert!(back.partitions[0].type_guid.same_as(&efi));
    assert!(back.partitions[1].type_guid.same_as(&linux));
    assert!(back.partitions[0].part_guid.same_as(&gpt.partitions[128].part_guid));
    assert!(back.partitions[1].part_guid.same_as(&gpt.partitions[129].part_guid));
}

#[test]
fn gpt_read_rejects_missing_signature() {
    let mut image = image_64mib();
    // protective MBR alone, no GPT header
    MBR::new_protective(131072).write(&mut image);
    assert!(GPT::read(&image).is_none());
}

#[test]
fn gpt_read_rejects_plain_mbr() {
    let mut image = image_64mib();
    MBR::new().write(&mut image);
    assert!(GPT::read(&image).is_none());
}

#[test]
fn header_checksum_validates() {
    let mut image = image_64mib();
    GPT::new().write(&mut image);
    for block_idx in [1usize, 131071] {
        let block = image.get_blocks(block_idx, 1);
        let stored = le32(&block[16..20]);
        let mut zeroed = block[0..92].to_vec();
        zeroed[16] = 0;
        zeroed[17] = 0;
        zeroed[18] = 0;
        zeroed[19] = 0;
        assert_eq!(stored, crc32_of(&zeroed), "header at block {}", block_idx);
    }
}

#[test]
fn entry_array_checksum_covers_exactly_the_entries() {
    let mut image = image_64mib();
    let mut gpt = GPT::new();
    gpt.add_partition(Guid::parse(GPT_PTYPE_LINUX_FS).unwrap());
    gpt.write(&mut image);
    let block1 = image.get_blocks(1, 1);
    let nr = le32(&block1[80..84]) as usize;
    assert_eq!(nr, 129);
    let entry_blocks = (nr * 128).div_ceil(512);
    let region = image.get_blocks(2, entry_blocks);
    let stored = le32(&block1[88..92]);
    assert_eq!(stored, crc32_of(&region[0..nr * 128]));
    assert_ne!(stored, crc32_of(&region), "padding is excluded");
}

#[test]
fn primary_and_backup_entry_arrays_match() {
    let mut image = image_64mib();
    let mut gpt = GPT::new();
    gpt.add_partition(Guid::parse(GPT_PTYPE_EFI_SYSTEM).unwrap());
    gpt.write(&mut image);
    let block1 = image.get_blocks(1, 1);
    let nr = le32(&block1[80..84]) as usize;
    let entry_blocks = (nr * 128).div_ceil(512);
    let primary = image.get_blocks(2, entry_blocks);
    let backup_start = 131071 - entry_blocks;
    let backup = image.get_blocks(backup_start, entry_blocks);
    assert_eq!(primary, backup);
}

#[test]
fn protective_mbr_interlock() {
    let mut image = image_64mib();
    GPT::new().write(&mut image);
    let mbr = MBR::read(&image).expect("the protective MBR must parse");
    assert_eq!(mbr.partition_table[0].ptype, PartitionType::ProtectiveMBR);
    assert_eq!(mbr.partition_table[0].first_sector_lba, 1);
    assert_eq!(mbr.partition_table[0].nr_sectors, 131071);
}

#[test]
fn compute_checksum_matches_reference_crc() {
    let hdr = RawGPTHeader::new();
    assert_eq!(hdr.compute_checksum(), 0x6579d3a2);
}

#[test]
fn raw_header_round_trip() {
    let mut hdr = RawGPTHeader::new();
    hdr.this_header_lba = 1;
    hdr.other_header_lba = 77;
    hdr.nr_partition_entries = 9;
    hdr.partition_entries_checksum = 0xdeadbeef;
    let bytes = hdr.as_bytes();
    assert_eq!(bytes.len(), 92);
    let back = RawGPTHeader::from_bytes(&bytes);
    assert_eq!(back.this_header_lba, 1);
    assert_eq!(back.other_header_lba, 77);
    assert_eq!(back.nr_partition_entries, 9);
    assert_eq!(back.partition_entries_checksum, 0xdeadbeef);
    assert_eq!(back.signature, *b"EFI PART");
}

#[test]
fn partition_render_shows_both_guids() {
    let p = Partition::new(Guid::parse(GPT_PTYPE_EFI_SYSTEM).unwrap());
    let line = p.render();
    assert!(line.starts_with("ID:"));
    assert!(line.ends_with(", Type: c12a7328-f81f-11d2-ba4b-00a0c93ec93b"));
}

#[test]
fn gpt_render_names_the_disk_guid() {
    let gpt = GPT::new();
    let text = gpt.render();
    let expected = format!("GUID: {}\n", gpt.disk_guid.to_string_canonical());
    assert!(text.starts_with(&expected));
    assert_eq!(text.lines().count(), 129);
}

#[test]
fn gpt_with_no_entries_round_trips() {
    // an entry table of length zero occupies zero blocks; ten blocks hold
    // the protective MBR and both headers
    let mut image = Image::new(vec![0u8; 10 * 512]);
    let gpt = GPT { partitions: Vec::new(), disk_guid: Guid::new_v4() };
    gpt.write(&mut image);
    let back = GPT::read(&image).unwrap();
    assert!(back.disk_guid.same_as(&gpt.disk_guid));
    assert_eq!(back.partitions.len(), 0);
    let block1 = image.get_blocks(1, 1);
    assert_eq!(le32(&block1[80..84]), 0, "entry count");
    assert_eq!(le64(&block1[40..48]), 2, "first usable");
    assert_eq!(le64(&block1[48..56]), 8, "last usable");
}
