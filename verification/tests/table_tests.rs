use fisic::actions::{InitAction, InitActionArgs, InitActionError, ListPartitionsAction, ListPartitionsArgs};
use fisic::gpt::GPT;
use fisic::image::Image;
use fisic::mbr::MBR;
use fisic::table::{read_partition_table, PartitionTable, PartitionTableType};

fn image_64mib() -> Image {
    Image::new(vec![0u8; 131072 * 512])
}

#[test]
fn dispatcher_on_zeroed_then_mbr_then_gpt() {
    let mut image = image_64mib();
    assert!(read_partition_table(&image).is_none());

    MBR::new().write(&mut image);
    match read_partition_table(&image) {
        Some(PartitionTable::MBR(_)) => {},
        _ => panic!("a plain MBR image must dispatch as MBR"),
    }

    GPT::new().write(&mut image);
    match read_partition_table(&image) {
        Some(PartitionTable::GPT(_)) => {},
        _ => panic!("a GPT image must dispatch as GPT"),
    }
}

#[test]
fn dispatcher_on_tiny_image() {
    let image = Image::new(vec![0u8; 100]);
    assert!(read_partition_table(&image).is_none());
}

#[test]
fn init_action_writes_mbr() {
    let mut image = image_64mib();
    let r = InitAction::invoke(&mut image, InitActionArgs { pt_type: PartitionTableType::MBR });
    assert!(r.is_ok());
    assert!(MBR::check(&image));
}

#[test]
fn init_action_writes_gpt() {
    let mut image = image_64mib();
    let r = InitAction::invoke(&mut image, InitActionArgs { pt_type: PartitionTableType::GPT });
    assert!(r.is_ok());
    let gpt = GPT::read(&image).unwrap();
    assert_eq!(gpt.partitions.len(), 0, "a fresh GPT has only unused entries");
}

#[test]
fn init_action_rejects_tiny_image_for_mbr() {
    let mut image = Image::new(vec![0u8; 100]);
    let r = InitAction::invoke(&mut image, InitActionArgs { pt_type: PartitionTableType::MBR });
    assert_eq!(r, Err(InitActionError::GenericError));
}

#[test]
fn init_action_rejects_small_image_for_gpt() {
    // 66 blocks: one short of both headers plus both entry arrays
    let mut image = Image::new(vec![0u8; 66 * 512]);
    let r = InitAction::invoke(&mut image, InitActionArgs { pt_type: PartitionTableType::GPT });
    assert_eq!(r, Err(InitActionError::GenericError));
    // 67 blocks suffice
    let mut image = Image::new(vec![0u8; 67 * 512]);
    let r = InitAction::invoke(&mut image, InitActionArgs { pt_type: PartitionTableType::GPT });
    assert!(r.is_ok());
}

#[test]
fn list_partitions_reports_the_table() {
    let mut image = image_64mib();
    let r = ListPartitionsAction::invoke(&image, ListPartitionsArgs {});
    assert!(matches!(r, Ok(None)));
    GPT::new().write(&mut image);
    let r = ListPartitionsAction::invoke(&image, ListPartitionsArgs {});
    assert!(matches!(r, Ok(Some(PartitionTable::GPT(_)))));
}

#[test]
fn image_len_and_block_count() {
    let image = image_64mib();
    assert_eq!(image.len(), 131072 * 512);
    assert_eq!(image.block_count(), 131072);
}
