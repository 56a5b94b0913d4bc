use fisic::image::Image;
use fisic::mbr::{EntryStatus, PartitionEntry, PartitionType, CHS, MBR};

fn image_64mib() -> Image {
    Image::new(vec![0u8; 131072 * 512])
}

#[test]
fn chs_saturation_spot_check() {
    assert_eq!(CHS::from_lba(10_000_000).to_bytes(), [0xff, 0xff, 0xff]);
}

#[test]
fn chs_saturates_from_the_threshold_on() {
    let at = CHS::from_lba(16 * 63 * 0x3ff);
    assert_eq!(at, CHS::new_max());
    let below = CHS::from_lba(16 * 63 * 0x3ff - 1);
    assert_ne!(below, CHS::new_max());
}

#[test]
fn chs_from_lba_small_values() {
    assert_eq!(CHS::from_lba(0), CHS::new(0, 1, 0));
    assert_eq!(CHS::from_lba(1), CHS::new(0, 2, 0));
    // one full track on: head 1, first sector, cylinder 0
    assert_eq!(CHS::from_lba(63), CHS::new(1, 1, 0));
    // one full cylinder on: head 0, first sector, cylinder 1
    assert_eq!(CHS::from_lba(16 * 63), CHS::new(0, 1, 1));
}

#[test]
fn chs_bytes_round_trip() {
    let c = CHS::new(5, 13, 0x2a7);
    let b = c.to_bytes();
    assert_eq!(CHS::from_raw(&b), c);
}

#[test]
fn chs_packing() {
    // sector bits live in the low 6 bits, cylinder high bits in the top 2
    let c = CHS::new(0x12, 0x3f, 0x3ff);
    assert_eq!(c.to_bytes(), [0x12, 0xff, 0xff]);
}

#[test]
fn fresh_mbr_on_64_mib_image() {
    let mut image = image_64mib();
    let mbr = MBR::new();
    mbr.write(&mut image);
    let block0 = image.get_blocks(0, 1);
    assert_eq!(block0[510], 0x55);
    assert_eq!(block0[511], 0xaa);
    for i in 446..510 {
        assert_eq!(block0[i], 0, "byte {} of the partition table", i);
    }
}

#[test]
fn protective_mbr_on_64_mib_image() {
    let mut image = image_64mib();
    let mbr = MBR::new_protective(131072);
    mbr.write(&mut image);
    let back = MBR::read(&image).unwrap();
    let e0 = &back.partition_table[0];
    assert_eq!(e0.status, EntryStatus::NotBootable);
    assert_eq!(e0.first_sector, CHS::from_lba(1));
    assert_eq!(e0.ptype, PartitionType::ProtectiveMBR);
    assert_eq!(e0.last_sector.to_bytes(), [0xff, 0xff, 0xff]);
    assert_eq!(e0.first_sector_lba, 1);
    assert_eq!(e0.nr_sectors, 0x0001ffff);
    // the raw little-endian fields of entry 0
    let block0 = image.get_blocks(0, 1);
    assert_eq!(&block0[454..458], &[0x01, 0x00, 0x00, 0x00]);
    assert_eq!(&block0[458..462], &[0xff, 0xff, 0x01, 0x00]);
}

#[test]
fn protective_mbr_saturates_sector_count() {
    let mbr = MBR::new_protective(usize::MAX);
    assert_eq!(mbr.partition_table[0].nr_sectors, 0xffffffff);
}

#[test]
fn mbr_round_trip_preserves_entries() {
    let mut image = image_64mib();
    let mut mbr = MBR::new();
    mbr.set_entry(
        0,
        PartitionEntry::new(EntryStatus::Bootable, PartitionType::Unknown(0x83), 2048, 409600),
    );
    mbr.set_entry(
        2,
        PartitionEntry::new(EntryStatus::NotBootable, PartitionType::ProtectiveMBR, 1, 131072),
    );
    mbr.write(&mut image);
    let back = MBR::read(&image).unwrap();
    for i in 0..4 {
        assert_eq!(back.partition_table[i], mbr.partition_table[i], "entry {}", i);
    }
}

#[test]
fn mbr_read_rejects_missing_signature() {
    let image = image_64mib();
    assert!(MBR::read(&image).is_none());
    assert!(!MBR::check(&image));
}

#[test]
fn mbr_check_sees_signature() {
    let mut image = image_64mib();
    MBR::new().write(&mut image);
    assert!(MBR::check(&image));
}

#[test]
fn u32_to_le_little_endian_order() {
    assert_eq!(fisic::bytes::u32_to_le(0x0001ffff), [0xff, 0xff, 0x01, 0x00]);
    assert_eq!(fisic::bytes::u32_to_le(0x12345678), [0x78, 0x56, 0x34, 0x12]);
}

#[test]
fn mbr_fits_a_single_block_image() {
    let mut image = Image::new(vec![0u8; 512]);
    MBR::new().write(&mut image);
    let back = MBR::read(&image).unwrap();
    assert_eq!(back.partition_table.len(), 4);
    assert_eq!(back.partition_table[3], PartitionEntry::new_empty());
}
