//! Ingress framing: the byte stream of a client is cut into blocks of one size.
//!
//! A block begins with the number of stream bytes it carries, as four
//! big-endian bytes; the stream bytes follow, and what is left of the block is
//! padding. The first block of a session is flagged as its start, the last one
//! as its end, and blocks are numbered from zero, wrapping after 255.
//!
//! The caller owns the connection. It reads at most [`BlockFramer::room`] bytes
//! at a time and reports what the read gave.

use crate::protocol::{
    be32, lemma_be_round_trip, Header, MessageType, FIRST_BLOCK_ID, PAYLOAD_OVERHEAD,
};
use crate::receive::egress::spec_payload;
use vstd::prelude::*;

verus! {

/// Model of the framer.
pub struct FramerView {
    /// The block under construction: its length never changes.
    pub buffer: Seq<u8>,
    /// Where the next stream byte goes.
    pub cursor: int,
    /// Flags of the next block, the end flag aside.
    pub message_type: MessageType,
    pub session_id: u8,
    /// Number of the next block.
    pub block_id: u8,
    /// Bytes sent so far, prefixes included, held at the largest value once
    /// they no longer fit.
    pub transmitted: usize,
}

/// What a read on the client's connection gave.
pub enum Ingress {
    /// Some bytes.
    Data(Seq<u8>),
    /// The end of the stream.
    End,
    /// Nothing yet.
    WouldBlock,
}

/// The stream bytes that a message carries; none when there is no message.
pub open spec fn carried(message: Option<(Header, Seq<u8>)>) -> Seq<u8> {
    match message {
        Some((header, block)) => match spec_payload(block) {
            Some(bytes) => bytes,
            None => Seq::empty(),
        },
        None => Seq::empty(),
    }
}

/// All the chunks, one after the other.
pub open spec fn concat(chunks: Seq<Seq<u8>>) -> Seq<u8>
    decreases chunks.len(),
{
    if chunks.len() == 0 {
        Seq::empty()
    } else {
        concat(chunks.drop_last()) + chunks.last()
    }
}

impl FramerView {
    /// The cursor is past the length prefix and within the block, and the
    /// length of a block fits its prefix.
    pub open spec fn wf(self) -> bool {
        &&& 4 < self.buffer.len() <= u32::MAX
        &&& 4 <= self.cursor <= self.buffer.len()
    }

    /// Stream bytes read and not yet sent.
    pub open spec fn pending(self) -> Seq<u8> {
        self.buffer.subrange(4, self.cursor)
    }

    /// Bytes that can still be read into the block.
    pub open spec fn room(self) -> int {
        self.buffer.len() - self.cursor
    }

    /// The block that goes out: the buffer, with the number of pending bytes in
    /// its first four bytes.
    pub open spec fn block(self) -> Seq<u8> {
        be32((self.cursor - 4) as u32) + self.buffer.subrange(4, self.buffer.len() as int)
    }

    /// The header that goes out with the next block.
    pub open spec fn header(self, end: bool) -> Header {
        Header {
            message_type: if end {
                self.message_type.spec_union(MessageType { bits: 16 })
            } else {
                self.message_type
            },
            session_id: self.session_id,
            block_id: self.block_id,
            seq: 0,
        }
    }

    /// The framer after a block went out: the next block is empty, is numbered
    /// one more and does not start the session.
    pub open spec fn emitted(self) -> FramerView {
        FramerView {
            buffer: self.block(),
            cursor: 4,
            message_type: MessageType { bits: 8 },
            block_id: ((self.block_id + 1) % 256) as u8,
            transmitted: if self.transmitted + self.cursor > usize::MAX {
                usize::MAX
            } else {
                (self.transmitted + self.cursor) as usize
            },
            ..self
        }
    }

    /// The framer with `data` read into the block.
    pub open spec fn filled(self, data: Seq<u8>) -> FramerView {
        FramerView {
            buffer: self.buffer.subrange(0, self.cursor) + data + self.buffer.subrange(
                self.cursor + data.len(),
                self.buffer.len() as int,
            ),
            cursor: self.cursor + data.len(),
            ..self
        }
    }

    /// The framer after a read, and the message that the read sets off: the
    /// full block when bytes filled it, the last block at the end of the stream,
    /// and what is pending when nothing more can be read for now.
    pub open spec fn step(self, read: Ingress) -> (FramerView, Option<(Header, Seq<u8>)>) {
        match read {
            Ingress::Data(data) => {
                let filled = self.filled(data);
                if filled.cursor < filled.buffer.len() {
                    (filled, None)
                } else {
                    (filled.emitted(), Some((filled.header(false), filled.block())))
                }
            },
            Ingress::End => (self.emitted(), Some((self.header(true), self.block()))),
            Ingress::WouldBlock => if self.cursor > 4 {
                (self.emitted(), Some((self.header(false), self.block())))
            } else {
                (self, None)
            },
        }
    }

    /// True when the framer can take the read.
    pub open spec fn takes(self, read: Ingress) -> bool {
        match read {
            Ingress::Data(data) => 0 < data.len() <= self.room(),
            _ => true,
        }
    }

    /// True when the framer can take the reads one after the other.
    pub open spec fn takes_all(self, reads: Seq<Ingress>) -> bool
        decreases reads.len(),
    {
        if reads.len() == 0 {
            true
        } else {
            self.takes_all(reads.drop_last()) && self.run(reads.drop_last()).takes(reads.last())
        }
    }

    /// The framer after the reads.
    pub open spec fn run(self, reads: Seq<Ingress>) -> FramerView
        decreases reads.len(),
    {
        if reads.len() == 0 {
            self
        } else {
            self.run(reads.drop_last()).step(reads.last()).0
        }
    }

    /// The stream bytes carried by the blocks that the reads set off.
    pub open spec fn sent(self, reads: Seq<Ingress>) -> Seq<u8>
        decreases reads.len(),
    {
        if reads.len() == 0 {
            Seq::empty()
        } else {
            self.sent(reads.drop_last()) + carried(
                self.run(reads.drop_last()).step(reads.last()).1,
            )
        }
    }
}

/// The bytes that a read gave.
pub open spec fn bytes_read(read: Ingress) -> Seq<u8> {
    match read {
        Ingress::Data(data) => data,
        _ => Seq::empty(),
    }
}

/// The bytes that were read, one read after the other.
pub open spec fn received(reads: Seq<Ingress>) -> Seq<u8>
    decreases reads.len(),
{
    if reads.len() == 0 {
        Seq::empty()
    } else {
        received(reads.drop_last()) + bytes_read(reads.last())
    }
}

/// The block that goes out carries exactly the pending bytes, and leaves none
/// pending.
pub proof fn lemma_block_carries_pending(framer: FramerView)
    requires
        framer.wf(),
    ensures
        framer.block().len() == framer.buffer.len(),
        spec_payload(framer.block()) == Some(framer.pending()),
        framer.emitted().wf(),
        framer.emitted().pending() == Seq::<u8>::empty(),
{
    let n = (framer.cursor - 4) as u32;
    let block = framer.block();
    lemma_be_round_trip(0, n, 0);
    assert(block.subrange(0, 4) =~= be32(n));
    assert(block.subrange(4, 4 + n) =~= framer.pending());
    assert(framer.emitted().pending() =~= Seq::<u8>::empty());
}

/// Every step keeps the framer sound and loses no byte: what was pending and
/// what was read is what goes out and what stays pending.
pub proof fn lemma_step_conserves(framer: FramerView, read: Ingress)
    requires
        framer.wf(),
        framer.takes(read),
    ensures
        framer.step(read).0.wf(),
        framer.step(read).0.buffer.len() == framer.buffer.len(),
        framer.step(read).0.session_id == framer.session_id,
        carried(framer.step(read).1) + framer.step(read).0.pending() == framer.pending()
            + bytes_read(read),
{
    lemma_block_carries_pending(framer);
    match read {
        Ingress::Data(data) => {
            let filled = framer.filled(data);
            assert(filled.pending() =~= framer.pending() + data);
            lemma_block_carries_pending(filled);
            if filled.cursor < filled.buffer.len() {
                assert(carried(framer.step(read).1) + filled.pending() =~= framer.pending() + data);
            } else {
                assert(carried(framer.step(read).1) + filled.emitted().pending()
                    =~= framer.pending() + data);
            }
        },
        Ingress::End => {
            assert(carried(framer.step(read).1) + framer.emitted().pending() =~= framer.pending()
                + Seq::<u8>::empty());
        },
        Ingress::WouldBlock => {
            if framer.cursor > 4 {
                assert(carried(framer.step(read).1) + framer.emitted().pending()
                    =~= framer.pending() + Seq::<u8>::empty());
            } else {
                assert(carried(framer.step(read).1) + framer.pending() =~= framer.pending()
                    + Seq::<u8>::empty());
            }
        },
    }
}

/// Over any run of reads, the bytes carried by the blocks that went out,
/// followed by the bytes still pending, are the bytes pending at first followed
/// by the bytes read, in order.
pub proof fn lemma_stream_conserved(framer: FramerView, reads: Seq<Ingress>)
    requires
        framer.wf(),
        framer.takes_all(reads),
    ensures
        framer.run(reads).wf(),
        framer.sent(reads) + framer.run(reads).pending() == framer.pending() + received(reads),
    decreases reads.len(),
{
    if reads.len() == 0 {
        assert(framer.sent(reads) + framer.pending() =~= framer.pending() + received(reads));
    } else {
        let front = reads.drop_last();
        let last = reads.last();
        let before = framer.run(front);
        lemma_stream_conserved(framer, front);
        lemma_step_conserves(before, last);
        let sent_before = framer.sent(front);
        let out = carried(before.step(last).1);
        let left = before.step(last).0.pending();
        let extra = bytes_read(last);
        assert(framer.run(reads) == before.step(last).0);
        assert(framer.sent(reads) == sent_before + out);
        assert(received(reads) == received(front) + extra);
        lemma_join(sent_before, out, left, before.pending(), extra, framer.pending(), received(front));
    }
}

/// If `out + left` is `held + extra` and `sent + held` is `first + read`, then
/// `(sent + out) + left` is `first + (read + extra)`.
proof fn lemma_join(
    sent: Seq<u8>,
    out: Seq<u8>,
    left: Seq<u8>,
    held: Seq<u8>,
    extra: Seq<u8>,
    first: Seq<u8>,
    read: Seq<u8>,
)
    requires
        out + left == held + extra,
        sent + held == first + read,
    ensures
        (sent + out) + left == first + (read + extra),
{
    assert((sent + out) + left =~= sent + (out + left));
    assert(sent + (held + extra) =~= (sent + held) + extra);
    assert((first + read) + extra =~= first + (read + extra));
}

/// A session that is read to its end goes out whole: the blocks carry the
/// bytes that were read, all of them and in order.
pub proof fn lemma_session_goes_out_whole(framer: FramerView, reads: Seq<Ingress>)
    requires
        framer.wf(),
        framer.cursor == 4,
        framer.takes_all(reads),
        reads.len() > 0,
        reads.last() is End,
    ensures
        framer.sent(reads) == received(reads),
{
    lemma_stream_conserved(framer, reads);
    lemma_stream_conserved(framer, reads.drop_last());
    lemma_block_carries_pending(framer.run(reads.drop_last()));
    assert(framer.pending() =~= Seq::<u8>::empty());
    assert(framer.run(reads).pending() =~= Seq::<u8>::empty());
    assert(framer.sent(reads) + Seq::<u8>::empty() =~= framer.sent(reads));
    assert(Seq::<u8>::empty() + received(reads) =~= received(reads));
}

/// The framer of one client connection.
pub struct BlockFramer {
    /// The block under construction.
    pub buffer: Vec<u8>,
    /// Where the next stream byte goes.
    pub cursor: usize,
    /// Bytes sent so far, prefixes included.
    pub transmitted: usize,
    /// Flags of the next block, the end flag aside.
    pub message_type: MessageType,
    pub session_id: u8,
    /// Number of the next block.
    pub block_id: u8,
}

impl View for BlockFramer {
    type V = FramerView;

    open spec fn view(&self) -> FramerView {
        FramerView {
            buffer: self.buffer@,
            cursor: self.cursor as int,
            message_type: self.message_type,
            session_id: self.session_id,
            block_id: self.block_id,
            transmitted: self.transmitted,
        }
    }
}

/// The message as a value of the model.
pub open spec fn message_view(message: Option<(Header, Vec<u8>)>) -> Option<(Header, Seq<u8>)> {
    match message {
        Some((header, block)) => Some((header, block@)),
        None => None,
    }
}

impl BlockFramer {
    /// See [`FramerView::wf`].
    pub open spec fn wf(&self) -> bool {
        self@.wf()
    }

    /// The framer of a new session, for blocks of `buffer_size` bytes: the first
    /// block starts the session and is numbered zero.
    pub fn new(buffer_size: u32, session_id: u8) -> (r: BlockFramer)
        requires
            buffer_size > 4,
        ensures
            r.wf(),
            r@.buffer.len() == buffer_size,
            r@.cursor == 4,
            r@.message_type == (MessageType { bits: 12 }),
            r@.session_id == session_id,
            r@.block_id == FIRST_BLOCK_ID,
            r@.transmitted == 0,
    {
        let message_type = MessageType::start().union(MessageType::data());
        assert(4u8 | 8u8 == 12u8) by (bit_vector);
        BlockFramer {
            buffer: vec![0u8; buffer_size as usize],
            cursor: PAYLOAD_OVERHEAD,
            transmitted: 0,
            message_type,
            session_id,
            block_id: FIRST_BLOCK_ID,
        }
    }

    /// Number of bytes that the next read may give.
    pub fn room(&self) -> (r: usize)
        requires
            self.wf(),
        ensures
            r == self@.room(),
    {
        self.buffer.len() - self.cursor
    }

    /// Number of bytes sent so far.
    pub fn transmitted(&self) -> (r: usize)
        ensures
            r == self@.transmitted,
    {
        self.transmitted
    }

    /// Makes the header of the next block and moves on to the block after it.
    fn new_header(&mut self, end: bool) -> (r: Header)
        ensures
            r == old(self)@.header(end),
            final(self)@ == (FramerView {
                message_type: MessageType { bits: 8 },
                block_id: ((old(self).block_id + 1) % 256) as u8,
                ..old(self)@
            }),
    {
        let flags = if end {
            self.message_type.union(MessageType::end())
        } else {
            self.message_type
        };
        let message = Header::new(flags, self.session_id, self.block_id);
        self.block_id = self.block_id.wrapping_add(1);
        self.message_type = MessageType::data();
        message
    }

    /// Sends the block out: writes the number of pending bytes in front, copies
    /// the block and starts the next one.
    fn emit(&mut self, end: bool) -> (r: (Header, Vec<u8>))
        requires
            old(self).wf(),
        ensures
            final(self).wf(),
            final(self)@ == old(self)@.emitted(),
            r.0 == old(self)@.header(end),
            r.1@ == old(self)@.block(),
    {
        let header = self.new_header(end);
        let read_size: u32 = (self.cursor - PAYLOAD_OVERHEAD) as u32;
        self.buffer.set(0, (read_size / 0x100_0000) as u8);
        self.buffer.set(1, (read_size / 0x1_0000 % 0x100) as u8);
        self.buffer.set(2, (read_size / 0x100 % 0x100) as u8);
        self.buffer.set(3, (read_size % 0x100) as u8);
        assert(self.buffer@ =~= old(self)@.block());
        self.transmitted = self.transmitted.saturating_add(self.cursor);
        self.cursor = PAYLOAD_OVERHEAD;
        let block = crate::protocol::to_vec(self.buffer.as_slice());
        (header, block)
    }

    /// Takes in the bytes that a read gave. Gives the block when they filled it.
    pub fn on_read(&mut self, data: &[u8]) -> (r: Option<(Header, Vec<u8>)>)
        requires
            old(self).wf(),
            0 < data.len() <= old(self)@.room(),
        ensures
            final(self).wf(),
            final(self)@ == old(self)@.step(Ingress::Data(data@)).0,
            message_view(r) == old(self)@.step(Ingress::Data(data@)).1,
    {
        let start: usize = self.cursor;
        let mut i: usize = 0;
        while i < data.len()
            invariant
                i <= data.len(),
                start + data.len() <= self.buffer.len(),
                self.buffer.len() == old(self).buffer.len(),
                self.buffer@ == old(self).buffer@.subrange(0, start as int) + data@.subrange(
                    0,
                    i as int,
                ) + old(self).buffer@.subrange(start + i, old(self).buffer.len() as int),
                self.cursor == start,
                self.transmitted == old(self).transmitted,
                self.message_type == old(self).message_type,
                self.session_id == old(self).session_id,
                self.block_id == old(self).block_id,
                start == old(self).cursor,
            decreases data.len() - i,
        {
            self.buffer.set(start + i, data[i]);
            i += 1;
            assert(self.buffer@ =~= old(self).buffer@.subrange(0, start as int) + data@.subrange(
                0,
                i as int,
            ) + old(self).buffer@.subrange(start + i, old(self).buffer.len() as int));
        }
        assert(data@.subrange(0, data.len() as int) =~= data@);
        self.cursor = start + data.len();
        assert(self@ == old(self)@.filled(data@));
        if self.cursor < self.buffer.len() {
            None
        } else {
            Some(self.emit(false))
        }
    }

    /// Takes in the end of the stream: gives the last block of the session,
    /// with whatever is pending.
    pub fn on_end(&mut self) -> (r: (Header, Vec<u8>))
        requires
            old(self).wf(),
        ensures
            final(self).wf(),
            final(self)@ == old(self)@.step(Ingress::End).0,
            message_view(Some(r)) == old(self)@.step(Ingress::End).1,
    {
        self.emit(true)
    }

    /// Takes in that nothing can be read for now: gives a block with what is
    /// pending, if anything is.
    pub fn on_would_block(&mut self) -> (r: Option<(Header, Vec<u8>)>)
        requires
            old(self).wf(),
        ensures
            final(self).wf(),
            final(self)@ == old(self)@.step(Ingress::WouldBlock).0,
            message_view(r) == old(self)@.step(Ingress::WouldBlock).1,
    {
        if self.cursor > PAYLOAD_OVERHEAD {
            Some(self.emit(false))
        } else {
            None
        }
    }
}

/// Tells whether a socket buffer of `socket_buffer_size` bytes is too small for
/// blocks of `buffer_size` bytes: it should hold two of them.
pub fn socket_buffer_is_small(socket_buffer_size: usize, buffer_size: usize) -> (r: bool)
    ensures
        r == (socket_buffer_size < 2 * buffer_size),
{
    socket_buffer_size / 2 < buffer_size
}

} // verus!
