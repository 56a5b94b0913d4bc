//! The partition-table dispatcher: decide whether an image carries an MBR, a
//! GPT, or nothing, and return the parsed table.

use crate::gpt::{gpt_hdr_guid_me, gpt_parsed_parts, gpt_readable, GPT};
use crate::guid::me_swapped;
use crate::image::Image;
use crate::mbr::{mbr_sig_ok, parse_mbr, MBR};
use vstd::prelude::*;

verus! {

/// Which kind of partition table an image is to carry.
#[derive(Clone, Copy, Debug, PartialEq, Eq, Structural)]
pub enum PartitionTableType {
    MBR,
    GPT,
}

/// A parsed partition table of either kind.
#[derive(Debug)]
pub enum PartitionTable {
    MBR(MBR),
    GPT(GPT),
}

/// Determine which table the image carries and return it parsed: the GPT
/// when one is readable (a valid GPT always presents a protective MBR too),
/// else the MBR when block 0 carries the signature, else nothing.
pub fn read_partition_table(image: &Image) -> (r: Option<PartitionTable>)
    ensures
        r is Some <==> image@.len() >= 512 && mbr_sig_ok(image@.subrange(0, 512)),
        gpt_readable(image@) ==> r matches Some(PartitionTable::GPT(_)),
        r matches Some(PartitionTable::GPT(g)) ==> gpt_readable(image@) && g@.disk_guid
            == me_swapped(gpt_hdr_guid_me(image@)) && g@.partitions == gpt_parsed_parts(image@),
        r matches Some(PartitionTable::MBR(m)) ==> !gpt_readable(image@) && m@ == parse_mbr(
            image@.subrange(0, 512),
        ),
{
    if image.len() < 512 {
        return None;
    }
    let mbr = match MBR::read(image) {
        Some(m) => m,
        None => {
            return None;
        },
    };
    match GPT::read(image) {
        Some(g) => Some(PartitionTable::GPT(g)),
        None => Some(PartitionTable::MBR(mbr)),
    }
}

} // verus!
