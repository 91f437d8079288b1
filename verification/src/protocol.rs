//! Wire format of the link: the four-byte datagram header and its flags.

use vstd::arithmetic::div_mod::{lemma_div_multiples_vanish, lemma_fundamental_div_mod, lemma_mod_multiples_basic};
use vstd::arithmetic::mul::lemma_mul_is_commutative;
use vstd::prelude::*;

verus! {

/// Bytes reserved at the head of every block for the length of its payload.
pub const PAYLOAD_OVERHEAD: usize = 4;

/// Identifier of the first block of a session.
pub const FIRST_BLOCK_ID: u8 = 0;

/// Identifier of the first session of a sender.
pub const FIRST_SESSION_ID: u8 = 0;

/// Size of a serialized [`Header`].
pub const HEADER_SIZE: usize = 4;

/// Mask of the flag bits that carry a meaning.
pub const KNOWN_FLAGS: u8 = 0x1f;

/// Why a datagram was not understood.
#[derive(Clone, Copy, Debug, PartialEq, Eq, Structural)]
pub enum ProtocolError {
    /// Fewer than four bytes, or flag bits that no sender sets.
    MalformedHeader,
    /// A parameter payload of the wrong size.
    MalformedParameters,
}

/// Set of control flags carried by every datagram.
#[derive(Clone, Copy, Debug, PartialEq, Eq, Structural)]
pub struct MessageType {
    pub bits: u8,
}

impl MessageType {
    /// True when no bit outside the five known flags is set.
    pub open spec fn recognized(bits: u8) -> bool {
        bits & 0xe0 == 0
    }

    pub open spec fn spec_contains(self, other: MessageType) -> bool {
        self.bits & other.bits == other.bits
    }

    pub open spec fn spec_union(self, other: MessageType) -> MessageType {
        MessageType { bits: self.bits | other.bits }
    }

    /// No flag at all.
    pub fn empty() -> (r: MessageType)
        ensures
            r.bits == 0,
    {
        MessageType { bits: 0 }
    }

    /// First datagram of a sender, carrying its parameters.
    pub fn init() -> (r: MessageType)
        ensures
            r.bits == 1,
    {
        MessageType { bits: 1 }
    }

    /// Liveness signal without payload.
    pub fn heartbeat() -> (r: MessageType)
        ensures
            r.bits == 2,
    {
        MessageType { bits: 2 }
    }

    /// First block of a session.
    pub fn start() -> (r: MessageType)
        ensures
            r.bits == 4,
    {
        MessageType { bits: 4 }
    }

    /// Block of stream data.
    pub fn data() -> (r: MessageType)
        ensures
            r.bits == 8,
    {
        MessageType { bits: 8 }
    }

    /// Last block of a session.
    pub fn end() -> (r: MessageType)
        ensures
            r.bits == 16,
    {
        MessageType { bits: 16 }
    }

    /// Decodes a flag byte, refusing bits that no sender sets.
    pub fn from_bits(bits: u8) -> (r: Option<MessageType>)
        ensures
            r == if Self::recognized(bits) {
                Some(MessageType { bits })
            } else {
                None::<MessageType>
            },
    {
        if bits & 0xe0 == 0 {
            Some(MessageType { bits })
        } else {
            None
        }
    }

    pub fn bits(&self) -> (r: u8)
        ensures
            r == self.bits,
    {
        self.bits
    }

    /// True when every flag of `other` is set in `self`.
    pub fn contains(&self, other: MessageType) -> (r: bool)
        ensures
            r == self.spec_contains(other),
    {
        self.bits & other.bits == other.bits
    }

    /// Flags set in either operand.
    pub fn union(self, other: MessageType) -> (r: MessageType)
        ensures
            r == self.spec_union(other),
    {
        MessageType { bits: self.bits | other.bits }
    }
}

/// A union holds the flags of both operands, keeps whatever either held, and
/// stays within the known flags when both operands do.
pub proof fn lemma_union_contains(a: MessageType, b: MessageType, c: MessageType)
    ensures
        a.spec_union(b).spec_contains(a),
        a.spec_union(b).spec_contains(b),
        a.spec_contains(c) ==> a.spec_union(b).spec_contains(c),
        b.spec_contains(c) ==> a.spec_union(b).spec_contains(c),
        MessageType::recognized(a.bits) && MessageType::recognized(b.bits)
            ==> MessageType::recognized(a.spec_union(b).bits),
{
    let x: u8 = a.bits;
    let y: u8 = b.bits;
    let z: u8 = c.bits;
    assert((x | y) & x == x) by (bit_vector);
    assert((x | y) & y == y) by (bit_vector);
    assert(x & z == z ==> (x | y) & z == z) by (bit_vector);
    assert(y & z == z ==> (x | y) & z == z) by (bit_vector);
    assert(x & 0xe0 == 0 && y & 0xe0 == 0 ==> (x | y) & 0xe0 == 0) by (bit_vector);
}

/// Header of a datagram: flags, session, block and a per-block packet counter.
#[derive(Clone, Copy, Debug, PartialEq, Eq, Structural)]
pub struct Header {
    pub message_type: MessageType,
    pub session_id: u8,
    pub block_id: u8,
    pub seq: u8,
}

impl Header {
    /// The four bytes that stand for this header on the wire.
    pub open spec fn wire(self) -> Seq<u8> {
        seq![self.message_type.bits, self.session_id, self.block_id, self.seq]
    }

    /// What the first four bytes of `data` stand for, when they stand for a header.
    pub open spec fn parse(data: Seq<u8>) -> Result<Header, ProtocolError> {
        if data.len() < 4 || !MessageType::recognized(data[0]) {
            Err(ProtocolError::MalformedHeader)
        } else {
            Ok(
                Header {
                    message_type: MessageType { bits: data[0] },
                    session_id: data[1],
                    block_id: data[2],
                    seq: data[3],
                },
            )
        }
    }

    /// Header of the first packet slot of a block: the counter starts at zero.
    pub fn new(message_type: MessageType, session_id: u8, block_id: u8) -> (r: Header)
        ensures
            r == (Header { message_type, session_id, block_id, seq: 0 }),
    {
        Header { message_type, session_id, block_id, seq: 0 }
    }

    pub fn message_type(&self) -> (r: MessageType)
        ensures
            r == self.message_type,
    {
        self.message_type
    }

    pub fn session(&self) -> (r: u8)
        ensures
            r == self.session_id,
    {
        self.session_id
    }

    pub fn block(&self) -> (r: u8)
        ensures
            r == self.block_id,
    {
        self.block_id
    }

    pub fn seq(&self) -> (r: u8)
        ensures
            r == self.seq,
    {
        self.seq
    }

    /// Advances the packet counter by one, wrapping after 255.
    pub fn incr_seq(&mut self)
        ensures
            *final(self) == (Header { seq: ((old(self).seq + 1) % 256) as u8, ..*old(self) }),
    {
        self.seq = self.seq.wrapping_add(1);
    }

    /// Number of bytes a header takes in front of a payload.
    pub fn serialize_overhead() -> (r: usize)
        ensures
            r == HEADER_SIZE,
    {
        HEADER_SIZE
    }

    /// The header as it goes on the wire.
    pub fn serialized(&self) -> (r: [u8; 4])
        ensures
            r@ == self.wire(),
    {
        let r: [u8; 4] = [self.message_type.bits, self.session_id, self.block_id, self.seq];
        assert(r@ =~= self.wire());
        r
    }

    /// Reads a header from the head of a datagram.
    pub fn deserialize(data: &[u8]) -> (r: Result<Header, ProtocolError>)
        ensures
            r == Self::parse(data@),
    {
        if data.len() < 4 {
            return Err(ProtocolError::MalformedHeader);
        }
        match MessageType::from_bits(data[0]) {
            None => Err(ProtocolError::MalformedHeader),
            Some(message_type) => Ok(
                Header { message_type, session_id: data[1], block_id: data[2], seq: data[3] },
            ),
        }
    }
}

/// A serialized header reads back as itself whenever its flags are known ones.
pub proof fn lemma_header_round_trip(header: Header)
    requires
        MessageType::recognized(header.message_type.bits),
    ensures
        Header::parse(header.wire()) == Ok::<Header, ProtocolError>(header),
{
}

/// Whatever follows the four bytes of a header leaves the header unchanged.
pub proof fn lemma_header_prefix(header: Header, payload: Seq<u8>)
    requires
        MessageType::recognized(header.message_type.bits),
    ensures
        Header::parse(header.wire() + payload) == Ok::<Header, ProtocolError>(header),
{
}

/// A header that was read serializes to the bytes it was read from.
pub proof fn lemma_header_reads_its_bytes(data: Seq<u8>)
    requires
        Header::parse(data) is Ok,
    ensures
        Header::parse(data)->Ok_0.wire() == data.subrange(0, 4),
        MessageType::recognized(Header::parse(data)->Ok_0.message_type.bits),
{
    assert(Header::parse(data)->Ok_0.wire() =~= data.subrange(0, 4));
}

/// Size of a serialized [`LidiParameters`].
pub const PARAMETERS_SIZE: usize = 19;

/// Big-endian bytes of a 16-bit value.
pub open spec fn be16(x: u16) -> Seq<u8> {
    seq![(x / 0x100) as u8, (x % 0x100) as u8]
}

/// Big-endian bytes of a 32-bit value.
pub open spec fn be32(x: u32) -> Seq<u8> {
    seq![
        (x / 0x100_0000) as u8,
        (x / 0x1_0000 % 0x100) as u8,
        (x / 0x100 % 0x100) as u8,
        (x % 0x100) as u8,
    ]
}

/// Big-endian bytes of a 64-bit value.
pub open spec fn be64(x: u64) -> Seq<u8> {
    be32((x / 0x1_0000_0000) as u32) + be32((x % 0x1_0000_0000) as u32)
}

/// Value of two big-endian bytes.
pub open spec fn from_be16(s: Seq<u8>) -> int {
    s[0] * 0x100 + s[1]
}

/// Value of four big-endian bytes.
pub open spec fn from_be32(s: Seq<u8>) -> int {
    s[0] * 0x100_0000 + s[1] * 0x1_0000 + s[2] * 0x100 + s[3]
}

/// Value of eight big-endian bytes.
pub open spec fn from_be64(s: Seq<u8>) -> int {
    from_be32(s.subrange(0, 4)) * 0x1_0000_0000 + from_be32(s.subrange(4, 8))
}

/// Reading back the big-endian bytes of a 32-bit value gives the value.
pub proof fn lemma_be32_round_trip(b: u32)
    ensures
        be32(b).len() == 4,
        from_be32(be32(b)) == b,
{
    assert(b / 0x100_0000 < 0x100 && b / 0x1_0000 % 0x100 < 0x100 && b / 0x100 % 0x100 < 0x100 && b
        % 0x100 < 0x100) by (bit_vector);
    assert(b == (b / 0x100_0000) * 0x100_0000 + (b / 0x1_0000 % 0x100) * 0x1_0000 + (b / 0x100
        % 0x100) * 0x100 + b % 0x100) by (bit_vector);
}

/// Reading back the big-endian bytes of a value gives the value.
pub proof fn lemma_be_round_trip(a: u16, b: u32, c: u64)
    ensures
        be16(a).len() == 2,
        be32(b).len() == 4,
        be64(c).len() == 8,
        from_be16(be16(a)) == a,
        from_be32(be32(b)) == b,
        from_be64(be64(c)) == c,
{
    assert(a / 0x100 < 0x100 && a % 0x100 < 0x100 && a == (a / 0x100) * 0x100 + a % 0x100)
        by (bit_vector);
    lemma_be32_round_trip(b);
    let hi: u32 = (c / 0x1_0000_0000) as u32;
    let lo: u32 = (c % 0x1_0000_0000) as u32;
    assert(c / 0x1_0000_0000 < 0x1_0000_0000 && c % 0x1_0000_0000 < 0x1_0000_0000 && c == (c
        / 0x1_0000_0000) * 0x1_0000_0000 + c % 0x1_0000_0000) by (bit_vector);
    lemma_be32_round_trip(hi);
    lemma_be32_round_trip(lo);
    assert(be64(c).subrange(0, 4) =~= be32(hi));
    assert(be64(c).subrange(4, 8) =~= be32(lo));
}

/// Writes a 32-bit value as four big-endian bytes at the end of `out`.
pub fn push_be32(out: &mut Vec<u8>, x: u32)
    ensures
        final(out)@ == old(out)@ + be32(x),
{
    out.push((x / 0x100_0000) as u8);
    out.push((x / 0x1_0000 % 0x100) as u8);
    out.push((x / 0x100 % 0x100) as u8);
    out.push((x % 0x100) as u8);
    assert(out@ =~= old(out)@ + be32(x));
}

/// Reads the 32-bit big-endian value that starts at `at`.
pub fn read_be32(data: &[u8], at: usize) -> (r: u32)
    requires
        at + 4 <= data.len(),
    ensures
        r == from_be32(data@.subrange(at as int, at + 4)),
{
    let b0: u32 = data[at] as u32;
    let b1: u32 = data[at + 1] as u32;
    let b2: u32 = data[at + 2] as u32;
    let b3: u32 = data[at + 3] as u32;
    b0 * 0x100_0000 + b1 * 0x1_0000 + b2 * 0x100 + b3
}

/// What both ends must agree on; the sender publishes it once, in the payload
/// of its first datagram.
#[derive(Clone, Copy, Debug, PartialEq, Eq, Structural)]
pub struct LidiParameters {
    pub encoding_block_size: u64,
    pub repair_block_size: u32,
    pub heartbeat_interval_ms: u32,
    pub udp_mtu: u16,
    pub nb_threads: u8,
}

impl LidiParameters {
    /// The nineteen bytes that stand for these parameters on the wire.
    pub open spec fn wire(self) -> Seq<u8> {
        be64(self.encoding_block_size) + be32(self.repair_block_size) + be32(
            self.heartbeat_interval_ms,
        ) + be16(self.udp_mtu) + seq![self.nb_threads]
    }

    /// What the first nineteen bytes of `data` stand for.
    pub open spec fn parse(data: Seq<u8>) -> Result<LidiParameters, ProtocolError> {
        if data.len() < 19 {
            Err(ProtocolError::MalformedParameters)
        } else {
            Ok(
                LidiParameters {
                    encoding_block_size: from_be64(data.subrange(0, 8)) as u64,
                    repair_block_size: from_be32(data.subrange(8, 12)) as u32,
                    heartbeat_interval_ms: from_be32(data.subrange(12, 16)) as u32,
                    udp_mtu: from_be16(data.subrange(16, 18)) as u16,
                    nb_threads: data[18],
                },
            )
        }
    }

    pub fn new(
        encoding_block_size: u64,
        repair_block_size: u32,
        heartbeat_interval_ms: u32,
        udp_mtu: u16,
        nb_threads: u8,
    ) -> (r: LidiParameters)
        ensures
            r == (LidiParameters {
                encoding_block_size,
                repair_block_size,
                heartbeat_interval_ms,
                udp_mtu,
                nb_threads,
            }),
    {
        LidiParameters {
            encoding_block_size,
            repair_block_size,
            heartbeat_interval_ms,
            udp_mtu,
            nb_threads,
        }
    }

    /// Period of the sender's heartbeat, in milliseconds.
    pub fn heartbeat_interval(&self) -> (r: u32)
        ensures
            r == self.heartbeat_interval_ms,
    {
        self.heartbeat_interval_ms
    }

    /// The parameters as they go on the wire.
    pub fn serialize(&self) -> (r: Vec<u8>)
        ensures
            r@ == self.wire(),
            r.len() == PARAMETERS_SIZE,
    {
        let mut out: Vec<u8> = Vec::new();
        push_be32(&mut out, (self.encoding_block_size / 0x1_0000_0000) as u32);
        push_be32(&mut out, (self.encoding_block_size % 0x1_0000_0000) as u32);
        push_be32(&mut out, self.repair_block_size);
        push_be32(&mut out, self.heartbeat_interval_ms);
        out.push((self.udp_mtu / 0x100) as u8);
        out.push((self.udp_mtu % 0x100) as u8);
        out.push(self.nb_threads);
        assert(out@ =~= self.wire());
        out
    }

    /// Reads parameters from the payload of a sender's first datagram.
    pub fn deserialize(data: &[u8]) -> (r: Result<LidiParameters, ProtocolError>)
        ensures
            r == Self::parse(data@),
    {
        if data.len() < 19 {
            return Err(ProtocolError::MalformedParameters);
        }
        let hi: u32 = read_be32(data, 0);
        let lo: u32 = read_be32(data, 4);
        let repair_block_size: u32 = read_be32(data, 8);
        let heartbeat_interval_ms: u32 = read_be32(data, 12);
        let m0: u16 = data[16] as u16;
        let m1: u16 = data[17] as u16;
        proof {
            assert(data@.subrange(0, 8).subrange(0, 4) =~= data@.subrange(0, 4));
            assert(data@.subrange(0, 8).subrange(4, 8) =~= data@.subrange(4, 8));
        }
        Ok(
            LidiParameters {
                encoding_block_size: (hi as u64) * 0x1_0000_0000 + (lo as u64),
                repair_block_size,
                heartbeat_interval_ms,
                udp_mtu: m0 * 0x100 + m1,
                nb_threads: data[18],
            },
        )
    }
}

/// Serialized parameters read back as themselves, whatever follows them.
pub proof fn lemma_parameters_round_trip(parameters: LidiParameters, rest: Seq<u8>)
    ensures
        parameters.wire().len() == 19,
        LidiParameters::parse(parameters.wire() + rest) == Ok::<LidiParameters, ProtocolError>(
            parameters,
        ),
{
    let w = parameters.wire();
    let d = w + rest;
    lemma_be_round_trip(
        parameters.udp_mtu,
        parameters.repair_block_size,
        parameters.encoding_block_size,
    );
    lemma_be_round_trip(
        parameters.udp_mtu,
        parameters.heartbeat_interval_ms,
        parameters.encoding_block_size,
    );
    assert(d.subrange(0, 8) =~= be64(parameters.encoding_block_size));
    assert(d.subrange(8, 12) =~= be32(parameters.repair_block_size));
    assert(d.subrange(12, 16) =~= be32(parameters.heartbeat_interval_ms));
    assert(d.subrange(16, 18) =~= be16(parameters.udp_mtu));
    assert(d[18] == parameters.nb_threads);
}

/// Bytes of an Ethernet frame taken by the IP and UDP headers.
pub const IP_UDP_OVERHEAD: u16 = 28;

/// Bytes of an encoded packet taken by its symbol identifier.
pub const PACKET_ID_SIZE: usize = 4;

/// Everything in a frame that is not symbol data: IP and UDP headers, the
/// datagram header and the symbol identifier.
pub const FRAME_OVERHEAD: u16 = 36;

/// Symbol sizes are multiples of this.
pub const SYMBOL_ALIGNMENT: u16 = 8;

/// Smallest MTU that leaves room for one aligned symbol.
pub const MIN_MTU: u16 = 44;

/// Most source symbols the codec takes in one block.
pub const MAX_SOURCE_SYMBOLS: u64 = 56403;

/// Symbol identifiers have 24 bits: a block has at most this many packets.
pub const MAX_BLOCK_PACKETS: u64 = 0x100_0000;

/// The byte strings held by a list of buffers.
pub open spec fn bytes_of(buffers: Seq<Vec<u8>>) -> Seq<Seq<u8>> {
    Seq::new(buffers.len(), |i: int| buffers[i]@)
}

/// Bytes of symbol data that fit in one frame of `mtu` bytes: what is left after
/// the overhead, rounded down to the symbol alignment.
pub open spec fn spec_data_mtu(mtu: u16) -> int {
    (mtu - 36) / 8 * 8
}

/// True when blocks of `logical_block_size` bytes can be cut into symbols for
/// frames of `mtu` bytes: at least one symbol, at most what the codec takes.
pub open spec fn block_size_fits(mtu: u16, logical_block_size: u64) -> bool {
    &&& mtu >= 44
    &&& spec_data_mtu(mtu) <= logical_block_size
    &&& logical_block_size / (spec_data_mtu(mtu) as u64) <= 56403
}

/// Shape of a block as the codec sees it: its length and the size of a symbol.
#[derive(Clone, Copy, Debug, PartialEq, Eq, Structural)]
pub struct TransmissionInfo {
    pub transfer_length: u64,
    pub symbol_size: u16,
}

impl TransmissionInfo {
    /// A block is a whole number of aligned symbols, between one and the
    /// codec's limit.
    pub open spec fn wf(self) -> bool {
        &&& self.symbol_size >= 8
        &&& self.symbol_size % 8 == 0
        &&& self.transfer_length % (self.symbol_size as u64) == 0
        &&& 1 <= self.transfer_length / (self.symbol_size as u64) <= 56403
    }

    /// Number of source packets of a block.
    pub open spec fn source_packets(self) -> int {
        self.transfer_length as int / self.symbol_size as int
    }

    /// Number of repair packets bought by `repair_block_size` bytes.
    pub open spec fn repair_packets(self, repair_block_size: u32) -> int {
        repair_block_size as int / self.symbol_size as int
    }

    /// Size of a serialized packet: identifier and one symbol.
    pub open spec fn packet_size(self) -> int {
        4 + self.symbol_size
    }

    /// Length of a block, in bytes.
    pub fn transfer_length(&self) -> (r: u64)
        ensures
            r == self.transfer_length,
    {
        self.transfer_length
    }

    /// Size of a symbol, in bytes.
    pub fn symbol_size(&self) -> (r: u16)
        ensures
            r == self.symbol_size,
    {
        self.symbol_size
    }
}

/// Symbol `id` of a block cut into symbols of `size` bytes.
pub open spec fn symbol_of(block: Seq<u8>, size: int, id: int) -> Seq<u8> {
    block.subrange(id * size, (id + 1) * size)
}

/// Size of the symbols carried by frames of `mtu` bytes.
pub fn data_mtu(mtu: u16) -> (r: u16)
    requires
        mtu >= 36,
    ensures
        r == spec_data_mtu(mtu),
        r % 8 == 0,
        r + 36 <= mtu,
{
    (mtu - FRAME_OVERHEAD) / SYMBOL_ALIGNMENT * SYMBOL_ALIGNMENT
}

/// Tells whether [`object_transmission_information`] accepts these values.
pub fn block_size_is_valid(mtu: u16, logical_block_size: u64) -> (r: bool)
    ensures
        r == block_size_fits(mtu, logical_block_size),
{
    if mtu < MIN_MTU {
        return false;
    }
    let symbol_size: u64 = data_mtu(mtu) as u64;
    symbol_size <= logical_block_size && logical_block_size / symbol_size <= MAX_SOURCE_SYMBOLS
}

/// Shape of the blocks for a link of `mtu` bytes and a wanted block size: the
/// symbol is as large as a frame allows, and the block is the largest whole
/// number of symbols within `logical_block_size`.
pub fn object_transmission_information(mtu: u16, logical_block_size: u64) -> (r: TransmissionInfo)
    requires
        block_size_fits(mtu, logical_block_size),
    ensures
        r.wf(),
        r.symbol_size == spec_data_mtu(mtu),
        r.source_packets() == logical_block_size as int / spec_data_mtu(mtu),
        r.transfer_length == r.source_packets() * r.symbol_size,
        r.transfer_length <= logical_block_size,
{
    let symbol_size: u16 = data_mtu(mtu);
    let nb_encoding_packets: u64 = logical_block_size / (symbol_size as u64);
    proof {
        let n = logical_block_size as int;
        let t = symbol_size as int;
        let k = nb_encoding_packets as int;
        lemma_fundamental_div_mod(n, t);
        lemma_mul_is_commutative(t, k);
        lemma_div_multiples_vanish(k, t);
        lemma_mod_multiples_basic(k, t);
        assert(k * t <= n);
        assert((k * t) / t == k);
        assert((k * t) % t == 0);
        assert(k >= 1) by {
            if k <= 0 {
                assert(t * k == 0) by (nonlinear_arith)
                    requires
                        k == 0,
                ;
                assert(n % t < t);
            }
        }
    }
    let transfer_length: u64 = nb_encoding_packets * (symbol_size as u64);
    TransmissionInfo { transfer_length, symbol_size }
}

/// Number of source packets in each block.
pub fn nb_encoding_packets(info: &TransmissionInfo) -> (r: u64)
    requires
        info.symbol_size > 0,
    ensures
        r == info.source_packets(),
{
    info.transfer_length / (info.symbol_size as u64)
}

/// Number of repair packets added to each block: as many whole symbols as fit
/// in `repair_block_size` bytes.
pub fn nb_repair_packets(info: &TransmissionInfo, repair_block_size: u32) -> (r: u32)
    requires
        info.symbol_size > 0,
    ensures
        r == info.repair_packets(repair_block_size),
{
    repair_block_size / (info.symbol_size as u32)
}

/// Copies a slice into a buffer of its own.
pub fn to_vec(bytes: &[u8]) -> (r: Vec<u8>)
    ensures
        r@ == bytes@,
{
    let mut r: Vec<u8> = Vec::with_capacity(bytes.len());
    let mut i: usize = 0;
    while i < bytes.len()
        invariant
            i <= bytes.len(),
            r@ == bytes@.subrange(0, i as int),
        decreases bytes.len() - i,
    {
        r.push(bytes[i]);
        assert(r@ =~= bytes@.subrange(0, i + 1));
        i += 1;
    }
    assert(r@ =~= bytes@);
    r
}

/// A block is smaller than four gigabytes: its length fits in 32 bits.
pub proof fn lemma_block_fits_in_memory(info: TransmissionInfo)
    requires
        info.wf(),
    ensures
        info.transfer_length <= 0xffff_ffff,
        info.transfer_length == info.source_packets() * info.symbol_size,
{
    let t = info.symbol_size as int;
    let k = info.transfer_length as int / t;
    lemma_fundamental_div_mod(info.transfer_length as int, t);
    assert(t * k <= 65535 * 56403) by (nonlinear_arith)
        requires
            0 <= t <= 65535,
            0 <= k <= 56403,
    ;
    lemma_mul_is_commutative(t, k);
}

} // verus!
