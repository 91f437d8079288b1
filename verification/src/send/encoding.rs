//! Forward error correction, sending side: a block becomes source packets, which
//! carry the block itself, followed by repair packets, any of which can stand
//! in for a lost packet.

use crate::protocol::{
    bytes_of, nb_encoding_packets, nb_repair_packets, symbol_of, TransmissionInfo,
};
use vstd::prelude::*;

verus! {

/// The packets that the codec makes of a block: the serialized source packets
/// followed by `nb_repair` serialized repair packets.
pub uninterp spec fn raptorq_encode(
    transfer_length: u64,
    symbol_size: u16,
    nb_repair: u32,
    block_id: u8,
    data: Seq<u8>,
) -> Seq<Seq<u8>>;

/// The four bytes that number packet `index` of block `block_id`: the block,
/// then the index as three big-endian bytes.
pub open spec fn packet_id(block_id: u8, index: int) -> Seq<u8> {
    seq![
        block_id,
        (index / 0x1_0000) as u8,
        (index / 0x100 % 0x100) as u8,
        (index % 0x100) as u8,
    ]
}

/// True when `packets` have the shape of the packets of `data`: each is its
/// number followed by one symbol, they are numbered from zero in order, and the
/// source packets, which come first, carry `data` symbol by symbol.
pub open spec fn is_encoding(
    info: TransmissionInfo,
    block_id: u8,
    data: Seq<u8>,
    packets: Seq<Seq<u8>>,
) -> bool {
    &&& packets.len() >= info.source_packets()
    &&& forall|i: int|
        0 <= i < packets.len() ==> {
            &&& (#[trigger] packets[i]).len() == info.packet_size()
            &&& packets[i].subrange(0, 4) == packet_id(block_id, i)
        }
    &&& forall|i: int|
        0 <= i < info.source_packets() ==> (#[trigger] packets[i]).subrange(
            4,
            info.packet_size(),
        ) == symbol_of(data, info.symbol_size as int, i)
}

/// `raptorq::SourceBlockEncoder`: `source_packets` then `repair_packets(0, nb_repair)`
/// of an encoder made by `new` for blocks of this shape, sent as one source
/// block without sub-blocks; each packet serialized.
///
/// Claimed of it: the result depends on the arguments alone; there is one source
/// packet per symbol of `data` and `nb_repair` repair packets; every serialized
/// packet is its four identifier bytes and one symbol; packets are numbered in
/// order from zero; source packet `i` carries symbol `i` of `data`. Left out are
/// the inputs on which it panics: data that is not a whole number of symbols,
/// more symbols than the codec takes, identifiers beyond 24 bits.
#[verifier::external_body]
fn encode_block(info: &TransmissionInfo, nb_repair: u32, block_id: u8, data: &Vec<u8>) -> (packets:
    Vec<Vec<u8>>)
    requires
        info.wf(),
        data.len() == info.transfer_length,
        info.source_packets() + nb_repair <= 0x100_0000,
    ensures
        bytes_of(packets@) == raptorq_encode(
            info.transfer_length,
            info.symbol_size,
            nb_repair,
            block_id,
            data@,
        ),
        packets.len() == info.source_packets() + nb_repair,
        is_encoding(*info, block_id, data@, bytes_of(packets@)),
{
    let config = raptorq::ObjectTransmissionInformation::new(
        info.transfer_length,
        info.symbol_size,
        1,
        1,
        8,
    );
    let encoder = raptorq::SourceBlockEncoder::new(block_id, &config, data);
    let mut packets = encoder.source_packets();
    packets.extend(encoder.repair_packets(0, nb_repair));
    packets.iter().map(|packet| packet.serialize()).collect()
}

/// Encoder of one lane.
#[derive(Clone, Copy, Debug, PartialEq, Eq, Structural)]
pub struct Encoding {
    pub info: TransmissionInfo,
    pub nb_repair_packets: u32,
}

impl Encoding {
    /// The block shape is sound and a block's packets can all be numbered.
    pub open spec fn wf(self) -> bool {
        &&& self.info.wf()
        &&& self.info.source_packets() + self.nb_repair_packets <= 0x100_0000
    }

    /// Number of packets made of each block.
    pub open spec fn spec_capacity(self) -> int {
        self.info.source_packets() + self.nb_repair_packets
    }

    /// What `encode` returns for `data`.
    pub open spec fn spec_encode(self, data: Seq<u8>, block_id: u8) -> Seq<Seq<u8>> {
        raptorq_encode(
            self.info.transfer_length,
            self.info.symbol_size,
            self.nb_repair_packets,
            block_id,
            data,
        )
    }

    /// Tells whether [`Encoding::new`] accepts these values.
    pub fn fits(info: &TransmissionInfo, repair_block_size: u32) -> (r: bool)
        requires
            info.wf(),
        ensures
            r == (info.source_packets() + info.repair_packets(repair_block_size) <= 0x100_0000),
    {
        let source: u64 = nb_encoding_packets(info);
        let repair: u64 = nb_repair_packets(info, repair_block_size) as u64;
        source + repair <= 0x100_0000
    }

    /// Encoder for blocks of shape `info`, adding as many repair packets as
    /// `repair_block_size` bytes hold symbols.
    pub fn new(info: TransmissionInfo, repair_block_size: u32) -> (r: Encoding)
        requires
            info.wf(),
            info.source_packets() + info.repair_packets(repair_block_size) <= 0x100_0000,
        ensures
            r.wf(),
            r.info == info,
            r.nb_repair_packets == info.repair_packets(repair_block_size),
    {
        Encoding { info, nb_repair_packets: nb_repair_packets(&info, repair_block_size) }
    }

    /// Number of packets made of each block.
    pub fn capacity(&self) -> (r: usize)
        requires
            self.wf(),
        ensures
            r == self.spec_capacity(),
    {
        (nb_encoding_packets(&self.info) + self.nb_repair_packets as u64) as usize
    }

    /// Encodes one block into its packets, source packets first.
    pub fn encode(&self, data: Vec<u8>, block_id: u8) -> (packets: Vec<Vec<u8>>)
        requires
            self.wf(),
            data.len() == self.info.transfer_length,
        ensures
            bytes_of(packets@) == self.spec_encode(data@, block_id),
            packets.len() == self.spec_capacity(),
            is_encoding(self.info, block_id, data@, bytes_of(packets@)),
            forall|i: int|
                0 <= i < packets.len() ==> (#[trigger] packets[i]).len()
                    == self.info.packet_size(),
    {
        let packets = encode_block(&self.info, self.nb_repair_packets, block_id, &data);
        assert forall|i: int| 0 <= i < packets.len() implies (#[trigger] packets[i]).len()
            == self.info.packet_size() by {
            assert(bytes_of(packets@)[i].len() == self.info.packet_size());
        }
        packets
    }
}

} // verus!
