//! Forward error correction, receiving side: a block is rebuilt from whichever
//! of its packets arrived.

use crate::protocol::{bytes_of, lemma_block_fits_in_memory, symbol_of, TransmissionInfo};
use crate::send::encoding::{is_encoding, packet_id};
use vstd::arithmetic::div_mod::lemma_fundamental_div_mod;
use vstd::prelude::*;

verus! {

/// The block that the codec rebuilds from serialized packets, if it can.
pub uninterp spec fn raptorq_decode(
    transfer_length: u64,
    symbol_size: u16,
    block_id: u8,
    packets: Seq<Seq<u8>>,
) -> Option<Seq<u8>>;

/// The number that a serialized packet carries after its block: three
/// big-endian bytes.
pub open spec fn symbol_id(packet: Seq<u8>) -> int {
    packet[1] * 0x1_0000 + packet[2] * 0x100 + packet[3]
}

/// True when `packets[j]` is the first packet numbered `id`.
pub open spec fn is_first_with(packets: Seq<Seq<u8>>, id: int, j: int) -> bool {
    &&& 0 <= j < packets.len()
    &&& symbol_id(packets[j]) == id
    &&& forall|k: int| 0 <= k < j ==> symbol_id(#[trigger] packets[k]) != id
}

/// True when some packet is numbered `id`.
pub open spec fn has_source(packets: Seq<Seq<u8>>, id: int) -> bool {
    exists|j: int| is_first_with(packets, id, j)
}

/// True when every source packet of a block is there: for each symbol of the
/// block, a packet that carries its number.
pub open spec fn has_all_sources(info: TransmissionInfo, packets: Seq<Seq<u8>>) -> bool {
    forall|id: int| 0 <= id < info.source_packets() ==> #[trigger] has_source(packets, id)
}

/// True when `block` is made of the symbols of the source packets: symbol `id`
/// of the block is what the first packet numbered `id` carries.
pub open spec fn is_rebuilt_from_sources(
    info: TransmissionInfo,
    packets: Seq<Seq<u8>>,
    block: Seq<u8>,
) -> bool {
    &&& block.len() == info.transfer_length
    &&& forall|id: int, j: int|
        0 <= id < info.source_packets() && #[trigger] is_first_with(packets, id, j)
            ==> symbol_of(block, info.symbol_size as int, id) == packets[j].subrange(
            4,
            info.packet_size(),
        )
}

/// `raptorq::SourceBlockDecoder::decode`, on a decoder made by `new` for blocks
/// of this shape, sent as one source block without sub-blocks, and fed the
/// packets deserialized in order.
///
/// Claimed of it: the result depends on the arguments alone; with fewer packets
/// than the block has symbols nothing is rebuilt; what is rebuilt has the length
/// of a block; when every source packet is there, the block is rebuilt from
/// them alone, each symbol taken from the first packet that carries its number.
/// Left out are the inputs on which it panics: a packet that is not four
/// identifier bytes and one symbol, or whose first byte is not `block_id`.
#[verifier::external_body]
fn decode_block(info: &TransmissionInfo, block_id: u8, packets: &Vec<Vec<u8>>) -> (block: Option<
    Vec<u8>,
>)
    requires
        info.wf(),
        forall|i: int|
            0 <= i < packets.len() ==> (#[trigger] packets[i]).len() == info.packet_size()
                && packets[i][0] == block_id,
    ensures
        match block {
            Some(bytes) => raptorq_decode(
                info.transfer_length,
                info.symbol_size,
                block_id,
                bytes_of(packets@),
            ) == Some(bytes@),
            None => raptorq_decode(
                info.transfer_length,
                info.symbol_size,
                block_id,
                bytes_of(packets@),
            ) is None,
        },
        packets.len() < info.source_packets() ==> block is None,
        block is Some ==> block->Some_0.len() == info.transfer_length,
        has_all_sources(*info, bytes_of(packets@)) ==> block is Some && is_rebuilt_from_sources(
            *info,
            bytes_of(packets@),
            block->Some_0@,
        ),
{
    let config = raptorq::ObjectTransmissionInformation::new(
        info.transfer_length,
        info.symbol_size,
        1,
        1,
        8,
    );
    let mut decoder = raptorq::SourceBlockDecoder::new(block_id, &config, info.transfer_length);
    decoder.decode(packets.iter().map(|packet| raptorq::EncodingPacket::deserialize(packet)))
}

/// True when `packet` has the size of a packet of blocks shaped `info` and names
/// block `block_id`.
pub open spec fn packet_acceptable(info: TransmissionInfo, block_id: u8, packet: Seq<u8>) -> bool {
    packet.len() == info.packet_size() && packet[0] == block_id
}

/// True when every packet of the list is acceptable.
pub open spec fn packets_acceptable(
    info: TransmissionInfo,
    block_id: u8,
    packets: Seq<Seq<u8>>,
) -> bool {
    forall|i: int| 0 <= i < packets.len() ==> packet_acceptable(info, block_id, #[trigger] packets[i])
}

/// Tells whether a payload is a packet that the decoder of `block_id` takes.
pub fn is_acceptable_packet(info: &TransmissionInfo, block_id: u8, packet: &[u8]) -> (r: bool)
    ensures
        r == packet_acceptable(*info, block_id, packet@),
{
    packet.len() == 4 + info.symbol_size as usize && packet[0] == block_id
}

/// What is rebuilt from a list of packets: nothing when one of them is not a
/// packet of this block, else what the codec rebuilds.
pub open spec fn decoded(info: TransmissionInfo, block_id: u8, packets: Seq<Seq<u8>>) -> Option<
    Seq<u8>,
> {
    if packets_acceptable(info, block_id, packets) {
        raptorq_decode(info.transfer_length, info.symbol_size, block_id, packets)
    } else {
        None
    }
}

/// Decoder of the receiving end.
#[derive(Clone, Copy, Debug, PartialEq, Eq, Structural)]
pub struct Decoding {
    pub info: TransmissionInfo,
    pub capacity: usize,
}

impl Decoding {
    /// Decoder for blocks of shape `info`, of which `capacity` packets are sent.
    pub fn new(info: TransmissionInfo, capacity: usize) -> (r: Decoding)
        ensures
            r == (Decoding { info, capacity }),
    {
        Decoding { info, capacity }
    }

    /// Number of packets sent for each block.
    pub fn capacity(&self) -> (r: usize)
        ensures
            r == self.capacity,
    {
        self.capacity
    }

    /// Tells whether every packet is one that the decoder of `block_id` takes.
    pub fn all_acceptable(&self, packets: &Vec<Vec<u8>>, block_id: u8) -> (r: bool)
        ensures
            r == packets_acceptable(self.info, block_id, bytes_of(packets@)),
    {
        let mut i: usize = 0;
        while i < packets.len()
            invariant
                i <= packets.len(),
                forall|j: int|
                    0 <= j < i ==> packet_acceptable(
                        self.info,
                        block_id,
                        #[trigger] bytes_of(packets@)[j],
                    ),
            decreases packets.len() - i,
        {
            if !is_acceptable_packet(&self.info, block_id, packets[i].as_slice()) {
                assert(!packet_acceptable(self.info, block_id, bytes_of(packets@)[i as int]));
                return false;
            }
            i += 1;
        }
        true
    }

    /// Rebuilds a block from the packets that arrived. Gives nothing when a
    /// packet does not belong to the block, when fewer packets arrived than the
    /// block has source packets, or when the codec cannot solve for the block.
    /// When every source packet arrived, the block is made of what they carry.
    pub fn decode(&self, packets: Vec<Vec<u8>>, block_id: u8) -> (block: Option<Vec<u8>>)
        requires
            self.info.wf(),
        ensures
            match block {
                Some(bytes) => decoded(self.info, block_id, bytes_of(packets@)) == Some(bytes@),
                None => decoded(self.info, block_id, bytes_of(packets@)) is None,
            },
            packets.len() < self.info.source_packets() ==> block is None,
            block is Some ==> block->Some_0.len() == self.info.transfer_length,
            packets_acceptable(self.info, block_id, bytes_of(packets@)) && has_all_sources(
                self.info,
                bytes_of(packets@),
            ) ==> block is Some && is_rebuilt_from_sources(
                self.info,
                bytes_of(packets@),
                block->Some_0@,
            ),
    {
        if !self.all_acceptable(&packets, block_id) {
            return None;
        }
        assert forall|i: int| 0 <= i < packets.len() implies (#[trigger] packets[i]).len()
            == self.info.packet_size() && packets[i][0] == block_id by {
            assert(packet_acceptable(self.info, block_id, bytes_of(packets@)[i]));
        }
        decode_block(&self.info, block_id, &packets)
    }
}

/// A packet of an encoding carries its place in the encoding as its number.
pub proof fn lemma_numbered_in_order(
    info: TransmissionInfo,
    block_id: u8,
    data: Seq<u8>,
    sent: Seq<Seq<u8>>,
    i: int,
)
    requires
        is_encoding(info, block_id, data, sent),
        0 <= i < sent.len() <= 0x100_0000,
    ensures
        symbol_id(sent[i]) == i,
        sent[i][0] == block_id,
        packet_acceptable(info, block_id, sent[i]),
{
    let id = sent[i].subrange(0, 4);
    assert(id == packet_id(block_id, i));
    assert(id[0] == sent[i][0] && id[1] == sent[i][1] && id[2] == sent[i][2] && id[3]
        == sent[i][3]);
}

/// Among packets of which one is numbered `id`, one is the first so numbered.
pub proof fn lemma_first_exists(packets: Seq<Seq<u8>>, id: int, at: int)
    requires
        0 <= at < packets.len(),
        symbol_id(packets[at]) == id,
    ensures
        has_source(packets, id),
    decreases at,
{
    if forall|k: int| 0 <= k < at ==> symbol_id(#[trigger] packets[k]) != id {
        assert(is_first_with(packets, id, at));
    } else {
        let k = choose|k: int| 0 <= k < at && symbol_id(#[trigger] packets[k]) == id;
        lemma_first_exists(packets, id, k);
    }
}

/// When every source packet of a block arrives as it was sent, the block is
/// rebuilt as it was: in whatever order the packets arrive, however often, and
/// whatever repair packets arrive with them.
pub proof fn lemma_intact_sources_rebuild(
    info: TransmissionInfo,
    block_id: u8,
    data: Seq<u8>,
    sent: Seq<Seq<u8>>,
    received: Seq<Seq<u8>>,
    block: Seq<u8>,
)
    requires
        info.wf(),
        data.len() == info.transfer_length,
        is_encoding(info, block_id, data, sent),
        sent.len() <= 0x100_0000,
        forall|j: int| 0 <= j < received.len() ==> sent.contains(#[trigger] received[j]),
        forall|i: int| 0 <= i < info.source_packets() ==> received.contains(#[trigger] sent[i]),
        has_all_sources(info, received) ==> is_rebuilt_from_sources(info, received, block),
    ensures
        packets_acceptable(info, block_id, received),
        has_all_sources(info, received),
        block == data,
{
    let t = info.symbol_size as int;
    let k = info.source_packets();
    assert forall|j: int| 0 <= j < received.len() implies packet_acceptable(
        info,
        block_id,
        #[trigger] received[j],
    ) by {
        let i = choose|i: int| 0 <= i < sent.len() && sent[i] == received[j];
        lemma_numbered_in_order(info, block_id, data, sent, i);
    }
    assert forall|id: int| 0 <= id < k implies #[trigger] has_source(received, id) by {
        assert(received.contains(sent[id]));
        let j = choose|j: int| 0 <= j < received.len() && received[j] == sent[id];
        lemma_numbered_in_order(info, block_id, data, sent, id);
        lemma_first_exists(received, id, j);
    }
    lemma_block_fits_in_memory(info);
    assert forall|id: int| 0 <= id < k implies #[trigger] symbol_of(block, t, id) == symbol_of(
        data,
        t,
        id,
    ) by {
        assert(has_source(received, id));
        let j = choose|j: int| is_first_with(received, id, j);
        assert(sent.contains(received[j]));
        let i = choose|i: int| 0 <= i < sent.len() && sent[i] == received[j];
        lemma_numbered_in_order(info, block_id, data, sent, i);
        assert(i == id);
        assert(is_first_with(received, id, j));
    }
    assert(block.len() == data.len());
    assert forall|p: int| 0 <= p < block.len() implies block[p] == data[p] by {
        let id = p / t;
        lemma_fundamental_div_mod(p, t);
        let r = p % t;
        assert(0 <= id < k && id * t + r == p && (id + 1) * t <= k * t && (id + 1) * t == id * t
            + t) by (nonlinear_arith)
            requires
                0 <= p < k * t,
                t > 0,
                id == p / t,
                r == p % t,
                p == t * id + r,
                0 <= r < t,
        ;
        assert(symbol_of(block, t, id) == symbol_of(data, t, id));
        assert(symbol_of(block, t, id)[r] == block[p]);
        assert(symbol_of(data, t, id)[r] == data[p]);
    }
    assert(block =~= data);
}

} // verus!
