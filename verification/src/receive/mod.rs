//! Receiving end: datagrams are regrouped into blocks, blocks are decoded, and
//! the decoded stream is handed to the downstream connection session by session.

pub mod decoding;
pub mod egress;
pub mod heartbeat;
pub mod packet;
pub mod reorder;

use crate::config::{ConfigError, DiodeConfig};
use crate::protocol::{
    block_size_fits, block_size_is_valid, bytes_of, nb_encoding_packets, nb_repair_packets,
    object_transmission_information, spec_data_mtu, Header, LidiParameters, MessageType,
    ProtocolError, TransmissionInfo,
};
use crate::receive::decoding::{decoded, is_acceptable_packet, packet_acceptable, Decoding};
use crate::receive::egress::{spec_payload, BlockInfo};
use crate::receive::heartbeat::{HeartBeat, HeartBeatView};
use crate::receive::reorder::{is_released, PendingView, Reorder, ReorderView};
use vstd::prelude::*;

verus! {

/// Default length of the queue between UDP readers and reorder buffer.
pub const DEFAULT_UDP_PACKETS_QUEUE_SIZE: usize = 10000;

/// Default length of the queue between decoder and downstream writer.
pub const DEFAULT_TCP_BLOCKS_QUEUE_SIZE: usize = 1000;

/// A block as it leaves the decoder: its flags and identifiers, and its bytes
/// when it could be rebuilt.
pub struct ReceiverBlock {
    pub flags: MessageType,
    pub session_id: u8,
    pub block_id: u8,
    pub block: Option<Vec<u8>>,
}

impl ReceiverBlock {
    /// The stream bytes of the block, when it was rebuilt and is well framed.
    pub open spec fn stream_bytes(&self) -> Option<Seq<u8>> {
        match self.block {
            Some(bytes) => spec_payload(bytes@),
            None => None,
        }
    }

    /// What the egress machine looks at.
    pub open spec fn spec_info(&self) -> BlockInfo {
        BlockInfo {
            flags: self.flags,
            session_id: self.session_id,
            decoded: self.stream_bytes() is Some,
        }
    }

    /// The stream bytes that the block carries, without its length prefix and
    /// its padding. Nothing when the block was not rebuilt, or when its prefix
    /// announces more than it holds.
    pub fn payload(&self) -> (r: Option<&[u8]>)
        ensures
            match r {
                Some(bytes) => self.stream_bytes() == Some(bytes@),
                None => self.stream_bytes() is None,
            },
    {
        match &self.block {
            Some(bytes) => crate::receive::egress::payload(bytes.as_slice()),
            None => None,
        }
    }

    /// What the egress machine is told of this block.
    pub fn info(&self) -> (r: BlockInfo)
        ensures
            r == self.spec_info(),
    {
        let carried = self.payload();
        BlockInfo { flags: self.flags, session_id: self.session_id, decoded: carried.is_some() }
    }
}

/// Number of packets of a block that did not arrive.
pub open spec fn missing_packets(capacity: int, arrived: int) -> int {
    if arrived >= capacity {
        0
    } else {
        capacity - arrived
    }
}

/// Settings of a receiver, derived from a configuration.
pub struct ReceiverConfig {
    pub to_tcp: String,
    /// In milliseconds.
    pub block_expiration_timeout: u64,
    pub encoding_block_size: u64,
    pub repair_block_size: u32,
    pub from_udp: String,
    pub udp_port_list: Vec<u16>,
    pub from_udp_mtu: u16,
    /// In milliseconds.
    pub heartbeat_interval: u64,
    /// In milliseconds.
    pub session_expiration_timeout: u64,
    pub core_affinity: Option<Vec<usize>>,
    pub object_transmission_info: TransmissionInfo,
    /// Size of a decoded block.
    pub to_buffer_size: usize,
    /// Number of packets of a block.
    pub from_max_messages: u32,
    pub udp_packets_queue_size: usize,
    pub tcp_blocks_queue_size: usize,
}

/// Why a configuration gives no receiver, if it gives none: the block size does
/// not fit the MTU, a block makes too many packets, or the receiver's part is
/// missing, looked at in this order.
pub open spec fn receiver_refusal(config: DiodeConfig) -> Option<ConfigError> {
    if !block_size_fits(config.udp_mtu, config.encoding_block_size) {
        Some(ConfigError::InvalidBlockSize)
    } else if config.encoding_block_size as int / spec_data_mtu(config.udp_mtu)
        + config.repair_block_size as int / spec_data_mtu(config.udp_mtu) > 0x100_0000 {
        Some(ConfigError::TooManyPackets)
    } else if config.receiver is None {
        Some(ConfigError::MissingReceiver)
    } else {
        None
    }
}

/// A timeout of the configuration, or its default.
pub open spec fn timeout_or(chosen: Option<u32>, default: int) -> int {
    match chosen {
        Some(timeout) => timeout as int,
        None => default,
    }
}

/// A queue length of the configuration, or its default.
pub open spec fn length_or(chosen: Option<usize>, default: usize) -> usize {
    match chosen {
        Some(length) => length,
        None => default,
    }
}

impl ReceiverConfig {
    /// The settings agree with the configuration they were derived from.
    pub open spec fn derived_from(self, config: DiodeConfig) -> bool {
        let receiver = config.receiver->Some_0;
        &&& self.object_transmission_info.wf()
        &&& self.object_transmission_info.symbol_size == spec_data_mtu(config.udp_mtu)
        &&& self.object_transmission_info.source_packets() == config.encoding_block_size as int
            / spec_data_mtu(config.udp_mtu)
        &&& self.to_buffer_size == self.object_transmission_info.transfer_length
        &&& self.from_max_messages == self.object_transmission_info.source_packets()
            + self.object_transmission_info.repair_packets(config.repair_block_size)
        &&& self.from_max_messages <= 0x100_0000
        &&& self.encoding_block_size == config.encoding_block_size
        &&& self.repair_block_size == config.repair_block_size
        &&& self.heartbeat_interval == config.heartbeat
        &&& self.from_udp == config.udp_addr
        &&& self.from_udp_mtu == config.udp_mtu
        &&& self.udp_port_list == config.udp_port
        &&& self.to_tcp == receiver.to_tcp
        &&& self.core_affinity == receiver.core_affinity
        &&& self.block_expiration_timeout == timeout_or(
            receiver.block_expiration_timeout,
            config.heartbeat as int,
        )
        &&& self.session_expiration_timeout == timeout_or(
            receiver.session_expiration_timeout,
            config.heartbeat * 5,
        )
        &&& self.udp_packets_queue_size == length_or(receiver.udp_packets_queue_size, 10000)
        &&& self.tcp_blocks_queue_size == length_or(receiver.tcp_blocks_queue_size, 1000)
    }

    /// Derives the settings of a receiver: the shape of the blocks, the number
    /// of packets per block, and the timeouts, where the block timeout defaults
    /// to one heartbeat period and the session timeout to five.
    pub fn try_from(config: DiodeConfig) -> (r: Result<ReceiverConfig, ConfigError>)
        ensures
            match r {
                Ok(settings) => receiver_refusal(config) is None && settings.derived_from(config),
                Err(e) => receiver_refusal(config) == Some(e),
            },
    {
        if !block_size_is_valid(config.udp_mtu, config.encoding_block_size) {
            return Err(ConfigError::InvalidBlockSize);
        }
        let info = object_transmission_information(config.udp_mtu, config.encoding_block_size);
        let source: u64 = nb_encoding_packets(&info);
        let repair: u64 = nb_repair_packets(&info, config.repair_block_size) as u64;
        if source + repair > 0x100_0000 {
            return Err(ConfigError::TooManyPackets);
        }
        let DiodeConfig {
            encoding_block_size,
            repair_block_size,
            udp_addr,
            udp_port,
            udp_mtu,
            heartbeat,
            log_config,
            sender,
            receiver,
        } = config;
        match receiver {
            None => Err(ConfigError::MissingReceiver),
            Some(receiver) => {
                let block_expiration_timeout: u64 = match receiver.block_expiration_timeout {
                    Some(timeout) => timeout as u64,
                    None => heartbeat as u64,
                };
                let session_expiration_timeout: u64 = match receiver.session_expiration_timeout {
                    Some(timeout) => timeout as u64,
                    None => heartbeat as u64 * 5,
                };
                let udp_packets_queue_size: usize = match receiver.udp_packets_queue_size {
                    Some(length) => length,
                    None => DEFAULT_UDP_PACKETS_QUEUE_SIZE,
                };
                let tcp_blocks_queue_size: usize = match receiver.tcp_blocks_queue_size {
                    Some(length) => length,
                    None => DEFAULT_TCP_BLOCKS_QUEUE_SIZE,
                };
                proof {
                    crate::protocol::lemma_block_fits_in_memory(info);
                }
                Ok(
                    ReceiverConfig {
                        to_tcp: receiver.to_tcp,
                        block_expiration_timeout,
                        encoding_block_size,
                        repair_block_size,
                        from_udp: udp_addr,
                        udp_port_list: udp_port,
                        from_udp_mtu: udp_mtu,
                        heartbeat_interval: heartbeat as u64,
                        session_expiration_timeout,
                        core_affinity: receiver.core_affinity,
                        object_transmission_info: info,
                        to_buffer_size: info.transfer_length as usize,
                        from_max_messages: (source + repair) as u32,
                        udp_packets_queue_size,
                        tcp_blocks_queue_size,
                    },
                )
            },
        }
    }

    /// The parameters that a sender with the same configuration publishes. The
    /// number of lanes is counted modulo 256, as it is on the wire.
    pub fn parameters(&self) -> (r: LidiParameters)
        ensures
            r == (LidiParameters {
                encoding_block_size: self.encoding_block_size,
                repair_block_size: self.repair_block_size,
                heartbeat_interval_ms: (self.heartbeat_interval % 0x1_0000_0000) as u32,
                udp_mtu: self.from_udp_mtu,
                nb_threads: (self.udp_port_list.len() % 0x100) as u8,
            }),
    {
        LidiParameters::new(
            self.encoding_block_size,
            self.repair_block_size,
            (self.heartbeat_interval % 0x1_0000_0000) as u32,
            self.from_udp_mtu,
            (self.udp_port_list.len() % 0x100) as u8,
        )
    }

    /// Size that the kernel's receive buffer is measured against: a block with
    /// its repair data.
    pub fn block_size(&self) -> (r: u64)
        ensures
            r == if self.encoding_block_size + self.repair_block_size <= u64::MAX {
                self.encoding_block_size + self.repair_block_size
            } else {
                u64::MAX as int
            },
    {
        self.encoding_block_size.saturating_add(self.repair_block_size as u64)
    }

    /// Decodes a block released by the reorder buffer. Returns the block, with
    /// its bytes when they could be rebuilt, and the number of packets of the
    /// block that did not arrive.
    pub fn decode(
        decoding: &Decoding,
        flags: MessageType,
        block_id: u8,
        session_id: u8,
        encoded_packets: Vec<Vec<u8>>,
    ) -> (r: (ReceiverBlock, usize))
        requires
            decoding.info.wf(),
        ensures
            r.0.flags == flags,
            r.0.session_id == session_id,
            r.0.block_id == block_id,
            match r.0.block {
                Some(bytes) => decoded(decoding.info, block_id, bytes_of(encoded_packets@)) == Some(
                    bytes@,
                ),
                None => decoded(decoding.info, block_id, bytes_of(encoded_packets@)) is None,
            },
            encoded_packets.len() < decoding.info.source_packets() ==> r.0.block is None,
            r.1 == missing_packets(decoding.capacity as int, encoded_packets.len() as int),
    {
        let arrived: usize = encoded_packets.len();
        let missing: usize = if arrived >= decoding.capacity() {
            0
        } else {
            decoding.capacity() - arrived
        };
        let block = decoding.decode(encoded_packets, block_id);
        (ReceiverBlock { flags, session_id, block_id, block }, missing)
    }
}

/// What became of a datagram.
pub enum Received {
    /// The sender announced itself: what was pending is dropped. `sender` holds
    /// the parameters it published, if they could be read, and `agree` tells
    /// whether they are the receiver's own.
    Init { sender: Result<LidiParameters, ProtocolError>, agree: bool },
    /// A datagram without payload: nothing to reassemble.
    Control,
    /// The payload is not a packet of the block that the header names.
    Rejected,
    /// The packet was counted; its block is not complete.
    Pending,
    /// The packet completed its block, which left the buffer.
    Complete { flags: MessageType, session_id: u8, block_id: u8, packets: Vec<Vec<u8>> },
}

/// Model of the state of the reassembly loop.
pub struct ReassemblerView {
    pub reorder: ReorderView,
    pub heartbeat: HeartBeatView,
    pub info: TransmissionInfo,
    pub parameters: LidiParameters,
    /// Whether the place of the sender in its stream is known.
    pub initialized: bool,
    /// Whether the last request for an expired block gave one.
    pub draining: bool,
}

/// The flag that announces a sender.
pub open spec fn announces(header: Header) -> bool {
    header.message_type.bits & 1 == 1
}

/// The flag of a heartbeat.
pub open spec fn beats(header: Header) -> bool {
    header.message_type.bits & 2 == 2
}

impl ReassemblerView {
    pub open spec fn wf(self) -> bool {
        self.reorder.wf()
    }

    /// True when the datagram goes to the reorder buffer: it announces no
    /// sender and its payload is a packet of the block that its header names.
    pub open spec fn takes(self, header: Header, payload: Seq<u8>) -> bool {
        !announces(header) && payload.len() > 0 && packet_acceptable(
            self.info,
            header.block_id,
            payload,
        )
    }

    /// The buffer that the packet is pushed to: the sender is taken to stand at
    /// the first packet seen when it did not announce itself.
    pub open spec fn placed(self, header: Header) -> ReorderView {
        if self.initialized {
            self.reorder
        } else {
            self.reorder.init(header)
        }
    }

    /// The state after a datagram came in at `now`.
    pub open spec fn on_packet(self, now: u64, header: Header, payload: Seq<u8>) -> ReassemblerView {
        if announces(header) {
            ReassemblerView { reorder: self.reorder.clear(), initialized: true, ..self }
        } else {
            let heartbeat = if beats(header) {
                self.heartbeat.update(now)
            } else {
                self.heartbeat
            };
            if self.takes(header, payload) {
                ReassemblerView {
                    reorder: self.placed(header).push(now, header, payload).0,
                    heartbeat,
                    initialized: true,
                    ..self
                }
            } else {
                ReassemblerView { heartbeat, ..self }
            }
        }
    }

    /// The block that a datagram completes, if it completes one.
    pub open spec fn completed(self, now: u64, header: Header, payload: Seq<u8>) -> Option<
        PendingView,
    > {
        if self.takes(header, payload) {
            self.placed(header).push(now, header, payload).1
        } else {
            None
        }
    }

    /// The state after expired blocks were asked for at `now`.
    pub open spec fn pop_expired(self, now: u64) -> ReassemblerView {
        ReassemblerView {
            reorder: self.reorder.pop_first(now).0,
            draining: self.reorder.pop_first(now).1 is Some,
            ..self
        }
    }
}

/// True when `received` tells what became of the datagram in state `before`.
pub open spec fn is_outcome(
    received: Received,
    before: ReassemblerView,
    now: u64,
    header: Header,
    payload: Seq<u8>,
) -> bool {
    if announces(header) {
        received matches Received::Init { sender, agree } && sender == LidiParameters::parse(
            payload,
        ) && agree == (sender == Ok::<LidiParameters, ProtocolError>(before.parameters))
    } else if payload.len() == 0 {
        received is Control
    } else if !before.takes(header, payload) {
        received is Rejected
    } else {
        match before.completed(now, header, payload) {
            None => received is Pending,
            Some(block) => received matches Received::Complete {
                flags,
                session_id,
                block_id,
                packets,
            } && is_released(Some((flags, session_id, block_id, packets)), Some(block)),
        }
    }
}

/// State of the loop that reassembles blocks: the reorder buffer, the watch on
/// the sender's heartbeat, and what was learnt of the sender.
pub struct Reassembler {
    pub reorder: Reorder,
    pub heartbeat: HeartBeat,
    pub decoding: Decoding,
    pub parameters: LidiParameters,
    pub initialized: bool,
    pub draining: bool,
}

impl View for Reassembler {
    type V = ReassemblerView;

    open spec fn view(&self) -> ReassemblerView {
        ReassemblerView {
            reorder: self.reorder@,
            heartbeat: self.heartbeat@,
            info: self.decoding.info,
            parameters: self.parameters,
            initialized: self.initialized,
            draining: self.draining,
        }
    }
}

impl Reassembler {
    pub open spec fn wf(&self) -> bool {
        self@.wf()
    }

    /// The state of a loop that starts at `now`: nothing pending, the sender
    /// not yet placed, and a watch that allows two heartbeat periods of silence.
    pub fn new_at(
        info: TransmissionInfo,
        repair_block_size: u32,
        session_expiration_timeout: u64,
        block_expiration_timeout: u64,
        parameters: LidiParameters,
        now: u64,
    ) -> (r: Reassembler)
        requires
            info.wf(),
            info.source_packets() + info.repair_packets(repair_block_size) <= 0x100_0000,
        ensures
            r.wf(),
            r@.reorder.capacity == info.source_packets() + info.repair_packets(repair_block_size),
            r@.reorder.pending.len() == 0,
            r@.reorder.block_expiration_timeout == block_expiration_timeout,
            r@.reorder.session_expiration_timeout == session_expiration_timeout,
            r@.heartbeat == (HeartBeatView {
                last_time: now,
                interval: (parameters.heartbeat_interval_ms * 2) as u64,
                last_log: now,
            }),
            r@.info == info,
            r.decoding.capacity == r@.reorder.capacity,
            r@.parameters == parameters,
            !r@.initialized,
            !r@.draining,
    {
        let nb_normal_packets: usize = nb_encoding_packets(&info) as usize;
        let nb_repair_packets: usize = nb_repair_packets(&info, repair_block_size) as usize;
        let capacity: usize = nb_normal_packets + nb_repair_packets;
        Reassembler {
            reorder: Reorder::new(
                nb_normal_packets,
                nb_repair_packets,
                block_expiration_timeout,
                session_expiration_timeout,
            ),
            heartbeat: HeartBeat::new_at(parameters.heartbeat_interval() as u64 * 2, now),
            decoding: Decoding::new(info, capacity),
            parameters,
            initialized: false,
            draining: false,
        }
    }

    /// Reading of the clock that the loop's times are taken from.
    pub fn now_ms(&self) -> (r: u64) {
        self.reorder.clock.now_ms()
    }

    /// Whether the loop asks for another expired block before it waits for a
    /// datagram.
    pub fn is_draining(&self) -> (r: bool)
        ensures
            r == self@.draining,
    {
        self.draining
    }

    /// How long the loop waits for a datagram, in milliseconds.
    pub fn block_expiration_timeout(&self) -> (r: u64)
        ensures
            r == self@.reorder.block_expiration_timeout,
    {
        self.reorder.block_expiration_timeout()
    }

    /// Checks the sender's heartbeat at `now`, before the loop waits for a
    /// datagram. Gives the length of the silence when a warning is due.
    pub fn check_heartbeat_at(&mut self, now: u64) -> (r: Option<u64>)
        ensures
            final(self)@ == (ReassemblerView {
                heartbeat: old(self)@.heartbeat.check(now),
                ..old(self)@
            }),
            r == old(self)@.heartbeat.warning(now),
            final(self).decoding == old(self).decoding,
    {
        self.heartbeat.check_at(now)
    }

    /// Takes in a datagram that came in at `now`.
    ///
    /// A datagram that announces the sender empties the buffer and gives the
    /// sender's parameters. Any other datagram counts as a heartbeat when its
    /// flags say so; without payload that is all. A payload that is a packet of
    /// the block named by the header goes to the reorder buffer, which is first
    /// placed at that block when the sender never announced itself.
    pub fn on_packet_at(&mut self, now: u64, header: &Header, payload: &[u8]) -> (r: Received)
        requires
            old(self).wf(),
        ensures
            final(self).wf(),
            final(self)@ == old(self)@.on_packet(now, *header, payload@),
            is_outcome(r, old(self)@, now, *header, payload@),
            final(self).decoding == old(self).decoding,
    {
        if header.message_type().contains(MessageType::init()) {
            self.initialized = true;
            self.reorder.clear();
            let sender = LidiParameters::deserialize(payload);
            let agree: bool = match sender {
                Ok(published) => published == self.parameters,
                Err(_) => false,
            };
            return Received::Init { sender, agree };
        }
        if header.message_type().contains(MessageType::heartbeat()) {
            self.heartbeat.update_at(now);
        }
        if payload.len() == 0 {
            return Received::Control;
        }
        if !is_acceptable_packet(&self.decoding.info, header.block(), payload) {
            return Received::Rejected;
        }
        if !self.initialized {
            self.reorder.init(header);
            self.initialized = true;
        }
        let packet: Vec<u8> = crate::protocol::to_vec(payload);
        match self.reorder.push_at(now, header, packet) {
            None => Received::Pending,
            Some((flags, session_id, block_id, packets)) => Received::Complete {
                flags,
                session_id,
                block_id,
                packets,
            },
        }
    }

    /// Asks for the oldest block that has expired at `now`. The loop does so
    /// when no datagram came within the block timeout, and again as long as it
    /// gets a block.
    pub fn pop_expired_at(&mut self, now: u64) -> (r: Option<(MessageType, u8, u8, Vec<Vec<u8>>)>)
        requires
            old(self).wf(),
        ensures
            final(self).wf(),
            final(self)@ == old(self)@.pop_expired(now),
            is_released(r, old(self)@.reorder.pop_first(now).1),
            final(self).decoding == old(self).decoding,
    {
        let r = self.reorder.pop_first_at(now);
        self.draining = r.is_some();
        r
    }
}

} // verus!
