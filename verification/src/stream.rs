//! What holds of the two ends together: a session framed by the sender and
//! handed block by block to the receiver's egress comes out as it went in.

use crate::protocol::{Header, TransmissionInfo};
use crate::receive::decoding::{
    has_all_sources, is_rebuilt_from_sources, lemma_intact_sources_rebuild,
};
use crate::send::encoding::is_encoding;
use crate::receive::egress::{
    action_for, spec_payload, state_after_block, streams, BlockInfo, EgressState,
};
use crate::send::tcp::{
    carried, lemma_block_carries_pending, lemma_session_goes_out_whole, lemma_step_conserves,
    received, FramerView, Ingress,
};
use vstd::prelude::*;

verus! {

/// The messages that a run of reads sets off, in order.
pub open spec fn messages_of(framer: FramerView, reads: Seq<Ingress>) -> Seq<(Header, Seq<u8>)>
    decreases reads.len(),
{
    if reads.len() == 0 {
        Seq::empty()
    } else {
        let before = messages_of(framer, reads.drop_last());
        match framer.run(reads.drop_last()).step(reads.last()).1 {
            Some(message) => before.push(message),
            None => before,
        }
    }
}

/// What the egress is told of a message that arrived as it was sent.
pub open spec fn info_of(message: (Header, Seq<u8>)) -> BlockInfo {
    BlockInfo {
        flags: message.0.message_type,
        session_id: message.0.session_id,
        decoded: spec_payload(message.1) is Some,
    }
}

/// The state of the egress after the messages, every write succeeding.
pub open spec fn state_after(state: EgressState, messages: Seq<(Header, Seq<u8>)>) -> EgressState
    decreases messages.len(),
{
    if messages.len() == 0 {
        state
    } else {
        state_after_block(state_after(state, messages.drop_last()), info_of(messages.last()))
    }
}

/// The bytes that the egress writes for the messages, every write succeeding.
pub open spec fn written(state: EgressState, messages: Seq<(Header, Seq<u8>)>) -> Seq<u8>
    decreases messages.len(),
{
    if messages.len() == 0 {
        Seq::empty()
    } else {
        let before = written(state, messages.drop_last());
        if action_for(state_after(state, messages.drop_last()), info_of(messages.last())) is Write {
            before + carried(Some(messages.last()))
        } else {
            before
        }
    }
}

/// True when the framer is at the start of a session: nothing pending, and the
/// next block flagged as the first.
pub open spec fn fresh(framer: FramerView) -> bool {
    framer.wf() && framer.cursor == 4 && framer.message_type.bits == 12
}

/// True when the reads are those of one session: the stream ends with the last
/// read and not before.
pub open spec fn one_session(reads: Seq<Ingress>) -> bool {
    &&& reads.len() > 0
    &&& reads.last() is End
    &&& forall|k: int| 0 <= k < reads.len() - 1 ==> !(#[trigger] reads[k] is End)
}

/// Before the end of the stream, every message of a session is written: what
/// the egress wrote is what the framer sent, and the egress streams the
/// session as soon as a message went out.
proof fn lemma_session_in_progress(framer: FramerView, reads: Seq<Ingress>, state: EgressState)
    requires
        fresh(framer),
        framer.takes_all(reads),
        forall|k: int| 0 <= k < reads.len() ==> !(#[trigger] reads[k] is End),
    ensures
        framer.run(reads).wf(),
        framer.run(reads).session_id == framer.session_id,
        written(state, messages_of(framer, reads)) == framer.sent(reads),
        messages_of(framer, reads).len() == 0 ==> framer.run(reads).message_type.bits == 12,
        messages_of(framer, reads).len() > 0 ==> framer.run(reads).message_type.bits == 8
            && streams(state_after(state, messages_of(framer, reads)), framer.session_id),
    decreases reads.len(),
{
    if reads.len() > 0 {
        let front = reads.drop_last();
        let last = reads.last();
        assert forall|k: int| 0 <= k < front.len() implies !(#[trigger] front[k] is End) by {
            assert(front[k] == reads[k]);
        }
        lemma_session_in_progress(framer, front, state);
        let before = framer.run(front);
        let sent_before = messages_of(framer, front);
        lemma_step_conserves(before, last);
        lemma_flags();
        match before.step(last).1 {
            Some(message) => {
                let messages = messages_of(framer, reads);
                assert(messages == sent_before.push(message));
                assert(messages.drop_last() =~= sent_before);
                assert(messages.last() == message);
                lemma_message_is_framed(before, last);
            },
            None => {
                assert(carried(None) =~= Seq::<u8>::empty());
                assert(framer.sent(front) + Seq::<u8>::empty() =~= framer.sent(front));
            },
        }
    }
}

/// What the flags of a framer's blocks hold.
proof fn lemma_flags()
    ensures
        12u8 & 4 == 4,
        12u8 & 16 == 0,
        8u8 & 4 == 0,
        8u8 & 16 == 0,
        (12u8 | 16) & 4 == 4,
        (12u8 | 16) & 16 == 16,
        (8u8 | 16) & 4 == 0,
        (8u8 | 16) & 16 == 16,
{
    assert(12u8 & 4 == 4) by (bit_vector);
    assert(12u8 & 16 == 0) by (bit_vector);
    assert(8u8 & 4 == 0) by (bit_vector);
    assert(8u8 & 16 == 0) by (bit_vector);
    assert((12u8 | 16) & 4 == 4) by (bit_vector);
    assert((12u8 | 16) & 16 == 16) by (bit_vector);
    assert((8u8 | 16) & 4 == 0) by (bit_vector);
    assert((8u8 | 16) & 16 == 16) by (bit_vector);
}

/// A message of the framer is well framed and goes out under the framer's
/// flags and session.
proof fn lemma_message_is_framed(framer: FramerView, read: Ingress)
    requires
        framer.wf(),
        framer.takes(read),
        framer.step(read).1 is Some,
    ensures
        info_of(framer.step(read).1->Some_0).decoded,
        info_of(framer.step(read).1->Some_0).session_id == framer.session_id,
        info_of(framer.step(read).1->Some_0).flags == if read is End {
            framer.message_type.spec_union(crate::protocol::MessageType { bits: 16 })
        } else {
            framer.message_type
        },
        framer.step(read).0.message_type.bits == 8,
{
    lemma_block_carries_pending(framer);
    match read {
        Ingress::Data(data) => {
            lemma_block_carries_pending(framer.filled(data));
        },
        _ => {},
    }
}

/// Over a link that delivers every block as it was sent and in order, the
/// bytes written downstream for a session are the bytes that the sender read
/// from its client, whatever state the egress was in before.
pub proof fn lemma_lossless_session(framer: FramerView, reads: Seq<Ingress>, state: EgressState)
    requires
        fresh(framer),
        framer.takes_all(reads),
        one_session(reads),
    ensures
        written(state, messages_of(framer, reads)) == received(reads),
        state_after(state, messages_of(framer, reads)) is Disconnected,
{
    let front = reads.drop_last();
    let last = reads.last();
    assert forall|k: int| 0 <= k < front.len() implies !(#[trigger] front[k] is End) by {
        assert(front[k] == reads[k]);
    }
    lemma_session_in_progress(framer, front, state);
    lemma_session_goes_out_whole(framer, reads);
    let before = framer.run(front);
    lemma_message_is_framed(before, last);
    lemma_flags();
    let message = before.step(last).1->Some_0;
    let messages = messages_of(framer, reads);
    assert(messages == messages_of(framer, front).push(message));
    assert(messages.drop_last() =~= messages_of(framer, front));
    assert(messages.last() == message);
}

/// Every block that a framer sends has the length of its buffer.
pub proof fn lemma_blocks_have_one_length(framer: FramerView, reads: Seq<Ingress>)
    requires
        framer.wf(),
        framer.takes_all(reads),
    ensures
        framer.run(reads).wf(),
        framer.run(reads).buffer.len() == framer.buffer.len(),
        forall|k: int|
            0 <= k < messages_of(framer, reads).len() ==> (#[trigger] messages_of(
                framer,
                reads,
            )[k]).1.len() == framer.buffer.len(),
    decreases reads.len(),
{
    if reads.len() > 0 {
        let front = reads.drop_last();
        let before = framer.run(front);
        lemma_blocks_have_one_length(framer, front);
        lemma_step_conserves(before, reads.last());
        lemma_block_carries_pending(before);
        match reads.last() {
            Ingress::Data(data) => {
                lemma_block_carries_pending(before.filled(data));
            },
            _ => {},
        }
        assert forall|k: int| 0 <= k < messages_of(framer, reads).len() implies (
        #[trigger] messages_of(framer, reads)[k]).1.len() == framer.buffer.len() by {
            if k < messages_of(framer, front).len() {
                assert(messages_of(framer, reads)[k] == messages_of(framer, front)[k]);
            }
        }
    }
}

/// True when a block went over the link unharmed: `sent` are the packets of the
/// block, every packet in `arrived` is one of them, every source packet is
/// among them, and `rebuilt` is what the decoder makes of source packets.
pub open spec fn crossed_unharmed(
    info: TransmissionInfo,
    message: (Header, Seq<u8>),
    sent: Seq<Seq<u8>>,
    arrived: Seq<Seq<u8>>,
    rebuilt: Seq<u8>,
) -> bool {
    &&& is_encoding(info, message.0.block_id, message.1, sent)
    &&& sent.len() <= 0x100_0000
    &&& forall|j: int| 0 <= j < arrived.len() ==> sent.contains(#[trigger] arrived[j])
    &&& forall|i: int| 0 <= i < info.source_packets() ==> arrived.contains(#[trigger] sent[i])
    &&& has_all_sources(info, arrived) ==> is_rebuilt_from_sources(info, arrived, rebuilt)
}

/// The messages as the receiver has them: the headers of the sender, with the
/// blocks that the decoder rebuilt.
pub open spec fn as_rebuilt(messages: Seq<(Header, Seq<u8>)>, rebuilt: Seq<Seq<u8>>) -> Seq<
    (Header, Seq<u8>),
> {
    Seq::new(messages.len(), |k: int| (messages[k].0, rebuilt[k]))
}

/// Over a link that loses no source packet and harms none, the bytes written
/// downstream for a session are the bytes that the sender read from its client:
/// every block is encoded, crosses the link in any order and with any
/// repetition, is rebuilt, and is written in turn.
pub proof fn lemma_lossless_link(
    framer: FramerView,
    reads: Seq<Ingress>,
    state: EgressState,
    info: TransmissionInfo,
    sent: Seq<Seq<Seq<u8>>>,
    arrived: Seq<Seq<Seq<u8>>>,
    rebuilt: Seq<Seq<u8>>,
)
    requires
        fresh(framer),
        framer.takes_all(reads),
        one_session(reads),
        info.wf(),
        framer.buffer.len() == info.transfer_length,
        rebuilt.len() == messages_of(framer, reads).len(),
        forall|k: int|
            0 <= k < messages_of(framer, reads).len() ==> crossed_unharmed(
                info,
                messages_of(framer, reads)[k],
                sent[k],
                arrived[k],
                #[trigger] rebuilt[k],
            ),
    ensures
        written(state, as_rebuilt(messages_of(framer, reads), rebuilt)) == received(reads),
{
    let messages = messages_of(framer, reads);
    lemma_blocks_have_one_length(framer, reads);
    assert forall|k: int| 0 <= k < messages.len() implies #[trigger] as_rebuilt(
        messages,
        rebuilt,
    )[k] == messages[k] by {
        assert(crossed_unharmed(info, messages[k], sent[k], arrived[k], rebuilt[k]));
        lemma_intact_sources_rebuild(
            info,
            messages[k].0.block_id,
            messages[k].1,
            sent[k],
            arrived[k],
            rebuilt[k],
        );
    }
    assert(as_rebuilt(messages, rebuilt) =~= messages);
    lemma_lossless_session(framer, reads, state);
}

} // verus!
