//! A datagram as it was received: the buffer, how much of it was filled, and
//! the header read from its first bytes.

use crate::config::MAX_MTU;
use crate::protocol::{Header, ProtocolError};
use vstd::prelude::*;

verus! {

pub struct Packet {
    buf: [u8; MAX_MTU],
    len: usize,
    header: Header,
}

impl Packet {
    #[verifier::type_invariant]
    spec fn inv(self) -> bool {
        4 <= self.len <= MAX_MTU
    }

    /// Header that the datagram was received with.
    pub closed spec fn spec_header(&self) -> Header {
        self.header
    }

    /// Bytes of the datagram that follow its header.
    pub closed spec fn spec_payload(&self) -> Seq<u8> {
        self.buf@.subrange(4, self.len as int)
    }

    /// Wraps a receive buffer of which the first `len` bytes were filled.
    pub fn new(buf: [u8; MAX_MTU], len: usize, header: Header) -> (r: Packet)
        requires
            4 <= len <= MAX_MTU,
        ensures
            r.spec_header() == header,
            r.spec_payload() == buf@.subrange(4, len as int),
    {
        Packet { buf, len, header }
    }

    /// Reads the header of a received datagram and keeps the datagram with it.
    /// A datagram too short for a header, longer than the buffer, or with
    /// unknown flags is refused.
    pub fn from_datagram(buf: [u8; MAX_MTU], len: usize) -> (r: Result<Packet, ProtocolError>)
        ensures
            len > MAX_MTU ==> r is Err,
            len <= MAX_MTU ==> match Header::parse(buf@.subrange(0, len as int)) {
                Ok(header) => r is Ok && r->Ok_0.spec_header() == header
                    && r->Ok_0.spec_payload() == buf@.subrange(4, len as int),
                Err(e) => r == Err::<Packet, ProtocolError>(e),
            },
            r is Err ==> r->Err_0 == ProtocolError::MalformedHeader,
    {
        if len > MAX_MTU {
            return Err(ProtocolError::MalformedHeader);
        }
        let parsed = Header::deserialize(&buf.as_slice()[0..len]);
        match parsed {
            Ok(header) => Ok(Packet { buf, len, header }),
            Err(e) => Err(e),
        }
    }

    pub fn header(&self) -> (r: &Header)
        ensures
            *r == self.spec_header(),
    {
        &self.header
    }

    pub fn payload(&self) -> (r: &[u8])
        ensures
            r@ == self.spec_payload(),
    {
        proof {
            use_type_invariant(self);
        }
        &self.buf.as_slice()[Header::serialize_overhead()..self.len]
    }
}

} // verus!
