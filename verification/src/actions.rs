//! The actions a front end drives: creating an image file is host work, but
//! sizing rules and the initialisation of a fresh partition table are the
//! library's.

use crate::bytes::splice;
use crate::gpt::{fresh_gpt_partitions, gpt_parsed_parts, gpt_written_bytes, GptModel, GPT};
use crate::image::Image;
use crate::mbr::{empty_entry, mbr_bytes, mbr_sig_ok, parse_mbr, MBR};
use crate::table::{read_partition_table, PartitionTable, PartitionTableType};
use vstd::prelude::*;

verus! {

/// Arguments of the image-creation action. The file itself is created by
/// the front end; these are the values it validates first.
pub struct CreateActionArgs {
    pub size: i64,
    pub overwrite: bool,
    pub initial_pt_type: Option<PartitionTableType>,
}

/// Error during creation of a disk image.
#[derive(Clone, Copy, Debug, PartialEq, Eq, Structural)]
pub enum CreateError {
    /// Unable to open the output file.
    OpenError,
    /// Unable to map the output file.
    MapError,
    /// Unable to allocate space for the output file.
    AllocationFailedError,
    /// The image file already exists, and overwriting was not asked for.
    FileAlreadyExistsError,
}

/// Arguments of the initialise action.
pub struct InitActionArgs {
    pub pt_type: PartitionTableType,
}

/// Error during initialisation of a partition table.
#[derive(Clone, Copy, Debug, PartialEq, Eq, Structural)]
pub enum InitActionError {
    /// The image cannot hold a table of the requested kind.
    GenericError,
}

/// Writes a fresh partition table of the requested kind onto an image.
pub struct InitAction {}

impl InitAction {
    /// Write a fresh table of the requested kind: an MBR with four empty
    /// entries, or a GPT with 128 unused entries and a fresh disk GUID.
    /// Fails exactly when the image is too small for the requested table.
    pub fn invoke(image: &mut Image, args: InitActionArgs) -> (r: Result<(), InitActionError>)
        ensures
            r is Err <==> (args.pt_type is MBR && old(image)@.len() < 512) || (args.pt_type
                is GPT && old(image)@.len() / 512 < 67),
            r is Err ==> final(image)@ == old(image)@,
            args.pt_type is MBR && r is Ok ==> final(image)@ == splice(
                old(image)@,
                0,
                mbr_bytes(seq![empty_entry(), empty_entry(), empty_entry(), empty_entry()]),
            ),
            args.pt_type is GPT && r is Ok ==> (exists|guid: Seq<u8>|
                guid.len() == 16 && final(image)@ == gpt_written_bytes(
                    GptModel { partitions: fresh_gpt_partitions(), disk_guid: guid },
                    (old(image)@.len() / 512) as int,
                    old(image)@,
                )),
    {
        match args.pt_type {
            PartitionTableType::MBR => {
                if image.len() < 512 {
                    return Err(InitActionError::GenericError);
                }
                let mbr = MBR::new();
                mbr.write(image);
                Ok(())
            },
            PartitionTableType::GPT => {
                // 67 blocks: both headers, both 32-block entry arrays for
                // the 128 fresh entries, and the protective MBR.
                if image.block_count() < 67 {
                    return Err(InitActionError::GenericError);
                }
                let gpt = GPT::new();
                gpt.write(image);
                proof {
                    let ghost gm = GptModel {
                        partitions: fresh_gpt_partitions(),
                        disk_guid: gpt@.disk_guid,
                    };
                    assert(gpt@.partitions =~= fresh_gpt_partitions());
                    assert(gpt@ == gm);
                    assert(gm.disk_guid.len() == 16 && image@ == gpt_written_bytes(
                        gm,
                        (old(image)@.len() / 512) as int,
                        old(image)@,
                    ));
                }
                Ok(())
            },
        }
    }
}

/// Arguments of the list-partitions action.
pub struct ListPartitionsArgs {}

/// Error during listing of partitions.
#[derive(Clone, Copy, Debug, PartialEq, Eq, Structural)]
pub enum ListPartitionsError {
    /// The partition table could not be examined.
    GenericError,
}

/// Determines the partition table of an image; the front end renders it.
pub struct ListPartitionsAction {}

impl ListPartitionsAction {
    /// Parse whichever table the image carries. The front end prints the
    /// result; examining the image itself never fails.
    pub fn invoke(image: &Image, args: ListPartitionsArgs) -> (r: Result<
        Option<PartitionTable>,
        ListPartitionsError,
    >)
        ensures
            r is Ok,
            r matches Ok(t) ==> (t is Some <==> image@.len() >= 512 && mbr_sig_ok(
                image@.subrange(0, 512),
            )),
            r matches Ok(t) ==> (crate::gpt::gpt_readable(image@) ==> t matches Some(
                PartitionTable::GPT(_),
            )),
            r matches Ok(t) ==> (t matches Some(PartitionTable::MBR(m))
                ==> !crate::gpt::gpt_readable(image@) && m@ == parse_mbr(
                image@.subrange(0, 512),
            )),
            r matches Ok(t) ==> (t matches Some(PartitionTable::GPT(g))
                ==> crate::gpt::gpt_readable(image@) && g@.partitions == gpt_parsed_parts(image@)),
    {
        let _ = args;
        Ok(read_partition_table(image))
    }
}

} // verus!
