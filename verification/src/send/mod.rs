//! Sending end: the stream of a client is cut into blocks, blocks are spread
//! over the lanes, and each lane encodes its blocks into datagrams.

pub mod encoding;
pub mod tcp;
pub mod throttle;

use crate::config::{ConfigError, DiodeConfig};
use crate::protocol::{
    block_size_fits, block_size_is_valid, bytes_of, nb_encoding_packets, nb_repair_packets,
    object_transmission_information, spec_data_mtu, Header, LidiParameters, MessageType,
    TransmissionInfo, FIRST_BLOCK_ID, FIRST_SESSION_ID,
};
use crate::send::encoding::{is_encoding, Encoding};
use crate::send::tcp::BlockFramer;
use vstd::prelude::*;

verus! {

/// Number of blocks that may wait for each lane.
pub const LANE_QUEUE_SIZE: usize = 1000;

/// Settings of a sender, derived from a configuration.
pub struct SenderConfig {
    pub encoding_block_size: u64,
    pub repair_block_size: u32,
    /// In milliseconds.
    pub hearbeat_interval: u64,
    pub bind_udp: String,
    pub to_udp: String,
    pub udp_port_list: Vec<u16>,
    pub to_udp_mtu: u16,
    pub from_tcp: String,
    pub object_transmission_info: TransmissionInfo,
    /// Size of a block.
    pub from_buffer_size: u32,
    /// Number of packets of a block.
    pub to_max_messages: u32,
    /// In bits per second.
    pub max_bandwidth: Option<u64>,
}

/// Why a configuration gives no sender, if it gives none: the block size does
/// not fit the MTU, a block makes too many packets, or the sender's part is
/// missing, looked at in this order.
pub open spec fn sender_refusal(config: DiodeConfig) -> Option<ConfigError> {
    if !block_size_fits(config.udp_mtu, config.encoding_block_size) {
        Some(ConfigError::InvalidBlockSize)
    } else if config.encoding_block_size as int / spec_data_mtu(config.udp_mtu)
        + config.repair_block_size as int / spec_data_mtu(config.udp_mtu) > 0x100_0000 {
        Some(ConfigError::TooManyPackets)
    } else if config.sender is None {
        Some(ConfigError::MissingSender)
    } else {
        None
    }
}

impl SenderConfig {
    /// The settings agree with the configuration they were derived from.
    pub open spec fn derived_from(self, config: DiodeConfig) -> bool {
        let sender = config.sender->Some_0;
        &&& self.object_transmission_info.wf()
        &&& self.object_transmission_info.symbol_size == spec_data_mtu(config.udp_mtu)
        &&& self.object_transmission_info.source_packets() == config.encoding_block_size as int
            / spec_data_mtu(config.udp_mtu)
        &&& self.from_buffer_size == self.object_transmission_info.transfer_length
        &&& self.from_buffer_size > 4
        &&& self.to_max_messages == self.object_transmission_info.source_packets()
            + self.object_transmission_info.repair_packets(config.repair_block_size)
        &&& self.to_max_messages <= 0x100_0000
        &&& self.encoding_block_size == config.encoding_block_size
        &&& self.repair_block_size == config.repair_block_size
        &&& self.hearbeat_interval == config.heartbeat
        &&& self.bind_udp == sender.bind_udp
        &&& self.to_udp == config.udp_addr
        &&& self.udp_port_list == config.udp_port
        &&& self.to_udp_mtu == config.udp_mtu
        &&& self.from_tcp == sender.bind_tcp
        &&& self.max_bandwidth == sender.max_bandwidth
    }

    /// Derives the settings of a sender: the shape of the blocks and the number
    /// of packets per block.
    pub fn try_from(config: DiodeConfig) -> (r: Result<SenderConfig, ConfigError>)
        ensures
            match r {
                Ok(settings) => sender_refusal(config) is None && settings.derived_from(config),
                Err(e) => sender_refusal(config) == Some(e),
            },
    {
        if !block_size_is_valid(config.udp_mtu, config.encoding_block_size) {
            return Err(ConfigError::InvalidBlockSize);
        }
        let info = object_transmission_information(config.udp_mtu, config.encoding_block_size);
        let source: u64 = nb_encoding_packets(&info);
        let repair: u64 = nb_repair_packets(&info, config.repair_block_size) as u64;
        if source + repair > 0x100_0000 {
            return Err(ConfigError::TooManyPackets);
        }
        let DiodeConfig {
            encoding_block_size,
            repair_block_size,
            udp_addr,
            udp_port,
            udp_mtu,
            heartbeat,
            log_config,
            sender,
            receiver,
        } = config;
        match sender {
            None => Err(ConfigError::MissingSender),
            Some(sender) => {
                proof {
                    crate::protocol::lemma_block_fits_in_memory(info);
                    assert(info.transfer_length >= 8) by (nonlinear_arith)
                        requires
                            info.transfer_length == info.source_packets() * info.symbol_size,
                            info.source_packets() >= 1,
                            info.symbol_size >= 8,
                    ;
                }
                Ok(
                    SenderConfig {
                        encoding_block_size,
                        repair_block_size,
                        hearbeat_interval: heartbeat as u64,
                        bind_udp: sender.bind_udp,
                        to_udp: udp_addr,
                        udp_port_list: udp_port,
                        to_udp_mtu: udp_mtu,
                        from_tcp: sender.bind_tcp,
                        object_transmission_info: info,
                        from_buffer_size: info.transfer_length as u32,
                        to_max_messages: (source + repair) as u32,
                        max_bandwidth: sender.max_bandwidth,
                    },
                )
            },
        }
    }

    /// The parameters that the sender publishes in its first datagram. The
    /// number of lanes is counted modulo 256, as it is on the wire.
    pub fn parameters(&self) -> (r: LidiParameters)
        ensures
            r == (LidiParameters {
                encoding_block_size: self.encoding_block_size,
                repair_block_size: self.repair_block_size,
                heartbeat_interval_ms: (self.hearbeat_interval % 0x1_0000_0000) as u32,
                udp_mtu: self.to_udp_mtu,
                nb_threads: (self.udp_port_list.len() % 0x100) as u8,
            }),
    {
        LidiParameters::new(
            self.encoding_block_size,
            self.repair_block_size,
            (self.hearbeat_interval % 0x1_0000_0000) as u32,
            self.to_udp_mtu,
            (self.udp_port_list.len() % 0x100) as u8,
        )
    }

    /// Size that the kernel's buffers are measured against: a block with its
    /// repair data.
    pub fn block_size(&self) -> (r: u64)
        ensures
            r == if self.encoding_block_size + self.repair_block_size <= u64::MAX {
                self.encoding_block_size + self.repair_block_size
            } else {
                u64::MAX as int
            },
    {
        self.encoding_block_size.saturating_add(self.repair_block_size as u64)
    }
}

/// The datagram that announces a sender: its parameters under the init flag.
pub fn init_message(parameters: &LidiParameters) -> (r: (Header, Vec<u8>))
    ensures
        r.0 == (Header {
            message_type: MessageType { bits: 1 },
            session_id: FIRST_SESSION_ID,
            block_id: FIRST_BLOCK_ID,
            seq: 0,
        }),
        r.1@ == parameters.wire(),
{
    (Header::new(MessageType::init(), FIRST_SESSION_ID, FIRST_BLOCK_ID), parameters.serialize())
}

/// The datagram of a heartbeat: the heartbeat flag and no payload.
pub fn heartbeat_message() -> (r: (Header, Vec<u8>))
    ensures
        r.0 == (Header { message_type: MessageType { bits: 2 }, session_id: 0, block_id: 0, seq: 0 }),
        r.1@ == Seq::<u8>::empty(),
{
    (Header::new(MessageType::heartbeat(), 0, 0), Vec::new())
}

/// The header of packet `index` of a block sent under `header`: the counter is
/// advanced once per packet, wrapping after 255.
pub open spec fn packet_header(header: Header, index: int) -> Header {
    Header { seq: ((header.seq + index + 1) % 256) as u8, ..header }
}

/// The packets carried by a list of datagrams.
pub open spec fn payloads_of(datagrams: Seq<(Header, Vec<u8>)>) -> Seq<Seq<u8>> {
    Seq::new(datagrams.len(), |i: int| datagrams[i].1@)
}

/// The datagrams that a lane sends for one block: nothing for an empty payload,
/// else one datagram per packet of the encoded block, in order, each under the
/// block's header with the counter advanced.
#[verifier::loop_isolation(false)]
pub fn lane_datagrams(encoding: &Encoding, header: Header, payload: Vec<u8>) -> (r: Vec<
    (Header, Vec<u8>),
>)
    requires
        encoding.wf(),
        payload.len() == 0 || payload.len() == encoding.info.transfer_length,
    ensures
        payload.len() == 0 ==> r.len() == 0,
        payload.len() > 0 ==> r.len() == encoding.spec_capacity(),
        payload.len() > 0 ==> payloads_of(r@) == encoding.spec_encode(payload@, header.block_id),
        payload.len() > 0 ==> is_encoding(
            encoding.info,
            header.block_id,
            payload@,
            payloads_of(r@),
        ),
        forall|i: int|
            0 <= i < r.len() ==> {
                &&& (#[trigger] r[i]).0 == packet_header(header, i)
                &&& r[i].1@ == encoding.spec_encode(payload@, header.block_id)[i]
                &&& r[i].1.len() == encoding.info.packet_size()
            },
{
    let mut datagrams: Vec<(Header, Vec<u8>)> = Vec::new();
    if payload.len() == 0 {
        return datagrams;
    }
    let ghost data = payload@;
    let mut packets = encoding.encode(payload, header.block());
    let ghost encoded = bytes_of(packets@);
    let mut header = header;
    let ghost first = header;
    let count: usize = packets.len();
    let mut i: usize = 0;
    while i < count
        invariant
            i <= count,
            count == packets.len(),
            datagrams.len() == i,
            encoded == encoding.spec_encode(data, first.block_id),
            encoded.len() == count,
            header == (Header { seq: ((first.seq + i) % 256) as u8, ..first }),
            forall|k: int| i <= k < count ==> (#[trigger] packets[k])@ == encoded[k],
            forall|k: int|
                0 <= k < count ==> (#[trigger] encoded[k]).len() == encoding.info.packet_size(),
            forall|k: int|
                0 <= k < i ==> {
                    &&& (#[trigger] datagrams[k]).0 == packet_header(first, k)
                    &&& datagrams[k].1@ == encoded[k]
                    &&& datagrams[k].1.len() == encoding.info.packet_size()
                },
        decreases count - i,
    {
        header.incr_seq();
        let mut packet: Vec<u8> = Vec::new();
        packets.set_and_swap(i, &mut packet);
        datagrams.push((header, packet));
        i += 1;
    }
    assert(payloads_of(datagrams@) =~= encoded);
    datagrams
}

/// Spreads the blocks of the clients over the lanes, and numbers the sessions.
#[derive(Clone, Copy, Debug, PartialEq, Eq, Structural)]
pub struct Dispatcher {
    /// Number of lanes.
    pub lanes: usize,
    /// Lane of the next block.
    pub next_lane: usize,
    /// Session of the current client, or of the next one.
    pub session_id: u8,
}

impl Dispatcher {
    pub open spec fn wf(self) -> bool {
        self.next_lane < self.lanes
    }

    /// A dispatcher for `lanes` lanes, before the first client.
    pub fn new(lanes: usize) -> (r: Dispatcher)
        requires
            lanes > 0,
        ensures
            r.wf(),
            r == (Dispatcher { lanes, next_lane: 0, session_id: FIRST_SESSION_ID }),
    {
        Dispatcher { lanes, next_lane: 0, session_id: FIRST_SESSION_ID }
    }

    /// A client connected: its blocks go to the lanes from the first lane on,
    /// and are framed under the current session.
    pub fn begin_session(&mut self, buffer_size: u32) -> (r: BlockFramer)
        requires
            old(self).wf(),
            buffer_size > 4,
        ensures
            final(self).wf(),
            *final(self) == (Dispatcher { next_lane: 0, ..*old(self) }),
            r.wf(),
            r@.buffer.len() == buffer_size,
            r@.cursor == 4,
            r@.message_type == (MessageType { bits: 12 }),
            r@.session_id == old(self).session_id,
            r@.block_id == FIRST_BLOCK_ID,
    {
        self.next_lane = 0;
        BlockFramer::new(buffer_size, self.session_id)
    }

    /// Gives the lane of a block and tells whether the block ends the session.
    /// Lanes are taken in turn.
    pub fn dispatch(&mut self, header: &Header) -> (r: (usize, bool))
        requires
            old(self).wf(),
        ensures
            final(self).wf(),
            r.0 == old(self).next_lane,
            r.1 == (header.message_type.bits & 16 == 16),
            *final(self) == (Dispatcher {
                next_lane: ((old(self).next_lane + 1) % (old(self).lanes as int)) as usize,
                ..*old(self)
            }),
    {
        let lane: usize = self.next_lane;
        proof {
            let n = self.lanes as int;
            if lane == self.lanes - 1 {
                vstd::arithmetic::div_mod::lemma_mod_self_0(n);
            } else {
                vstd::arithmetic::div_mod::lemma_small_mod((lane + 1) as nat, n as nat);
            }
        }
        self.next_lane = if lane == self.lanes - 1 {
            0
        } else {
            lane + 1
        };
        (lane, header.message_type().contains(MessageType::end()))
    }

    /// The client is gone: the next one gets the next session, wrapping after
    /// 255.
    pub fn end_session(&mut self)
        ensures
            *final(self) == (Dispatcher {
                session_id: ((old(self).session_id + 1) % 256) as u8,
                ..*old(self)
            }),
    {
        self.session_id = self.session_id.wrapping_add(1);
    }
}

/// Lanes are taken in turn: from the first lane, block number `k` of a session
/// goes to lane `k` modulo the number of lanes.
pub open spec fn lane_of(lanes: usize, k: nat) -> int {
    k as int % lanes as int
}

/// The dispatcher after `k` blocks of a session.
pub open spec fn after_blocks(dispatcher: Dispatcher, k: nat) -> Dispatcher
    decreases k,
{
    if k == 0 {
        Dispatcher { next_lane: 0, ..dispatcher }
    } else {
        let before = after_blocks(dispatcher, (k - 1) as nat);
        Dispatcher { next_lane: ((before.next_lane + 1) % (before.lanes as int)) as usize, ..before }
    }
}

/// Block number `k` of a session goes to lane `k` modulo the number of lanes.
pub proof fn lemma_round_robin(dispatcher: Dispatcher, k: nat)
    requires
        dispatcher.lanes > 0,
    ensures
        after_blocks(dispatcher, k).next_lane == lane_of(dispatcher.lanes, k),
        after_blocks(dispatcher, k).lanes == dispatcher.lanes,
        after_blocks(dispatcher, k).wf(),
    decreases k,
{
    if k > 0 {
        lemma_round_robin(dispatcher, (k - 1) as nat);
        let n = dispatcher.lanes as int;
        let j = (k - 1) as int;
        assert(((j % n) + 1) % n == (j + 1) % n) by (nonlinear_arith)
            requires
                n > 0,
                j >= 0,
        ;
    }
}

} // verus!
