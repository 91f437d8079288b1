//! What goes in a UDP datagram, and how large the kernel's buffers should be.

use crate::protocol::{Header, ProtocolError};
use vstd::prelude::*;

verus! {

/// Number of blocks that the kernel's receive buffer should hold.
pub const BLOCKS_IN_RECEIVE_BUFFER: u64 = 5;

/// The bytes of a datagram: the header, then the payload.
pub open spec fn spec_datagram(header: Header, payload: Seq<u8>) -> Seq<u8> {
    header.wire() + payload
}

/// Builds the datagram that carries `payload` under `header`.
pub fn datagram(header: &Header, payload: &[u8]) -> (r: Vec<u8>)
    requires
        payload.len() + 4 <= usize::MAX,
    ensures
        r@ == spec_datagram(*header, payload@),
{
    let mut buffer: Vec<u8> = Vec::with_capacity(payload.len() + 4);
    buffer.push(header.message_type.bits);
    buffer.push(header.session_id);
    buffer.push(header.block_id);
    buffer.push(header.seq);
    assert(buffer@ =~= header.wire());
    let mut i: usize = 0;
    while i < payload.len()
        invariant
            i <= payload.len(),
            buffer@ == header.wire() + payload@.subrange(0, i as int),
        decreases payload.len() - i,
    {
        buffer.push(payload[i]);
        i += 1;
        assert(buffer@ =~= header.wire() + payload@.subrange(0, i as int));
    }
    assert(payload@.subrange(0, payload.len() as int) =~= payload@);
    buffer
}

/// Tells whether a receive buffer of `socket_buffer_size` bytes is too small
/// for a link whose blocks, repair data included, take `min_buf_size` bytes: it
/// should hold five of them.
pub fn receive_buffer_is_small(socket_buffer_size: usize, min_buf_size: u64) -> (r: bool)
    ensures
        r == (socket_buffer_size < 5 * min_buf_size),
{
    (socket_buffer_size as u128) < BLOCKS_IN_RECEIVE_BUFFER as u128 * min_buf_size as u128
}

/// A datagram reads back as the header and the payload it was built from.
pub proof fn lemma_datagram_round_trip(header: Header, payload: Seq<u8>)
    requires
        crate::protocol::MessageType::recognized(header.message_type.bits),
    ensures
        Header::parse(spec_datagram(header, payload)) == Ok::<Header, ProtocolError>(header),
        spec_datagram(header, payload).subrange(4, spec_datagram(header, payload).len() as int)
            == payload,
{
    let d = spec_datagram(header, payload);
    assert(d.subrange(4, d.len() as int) =~= payload);
}

} // verus!
