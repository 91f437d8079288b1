//! Session machine of the downstream connection. It decides, block by block,
//! what is written downstream, when the connection is renewed and when a
//! session is given up.
//!
//! The caller owns the connection: it connects when the machine is
//! disconnected, hands in every block in the order it was released, carries
//! out the action it gets back, and reports a write that failed.

use crate::protocol::{from_be32, read_be32, MessageType, PAYLOAD_OVERHEAD};
use vstd::prelude::*;

verus! {

/// Where the downstream connection stands.
#[derive(Clone, Copy, Debug, PartialEq, Eq, Structural)]
pub enum EgressState {
    /// No connection.
    Disconnected,
    /// Connected, waiting for the first block of a session.
    AwaitingStart,
    /// Connected, writing the blocks of one session.
    Streaming { session_id: u8 },
}

/// What the caller does with a block.
#[derive(Clone, Copy, Debug, PartialEq, Eq, Structural)]
pub enum EgressAction {
    /// Drop the block.
    Skip,
    /// Close the connection: the session of this block is lost.
    Abandon,
    /// Write the payload of the block. With `reconnect`, close the connection
    /// and open a new one first. With `last`, flush and close the connection
    /// after the write.
    Write { reconnect: bool, last: bool },
}

/// What the machine looks at in a block.
#[derive(Clone, Copy, Debug, PartialEq, Eq, Structural)]
pub struct BlockInfo {
    pub flags: MessageType,
    pub session_id: u8,
    /// Whether the block was rebuilt and holds a payload.
    pub decoded: bool,
}

/// What happens to the connection.
#[derive(Clone, Copy, Debug, PartialEq, Eq, Structural)]
pub enum EgressEvent {
    /// The caller opened the connection.
    Connected,
    /// A block was released.
    Block(BlockInfo),
    /// The write of the block handed in last failed.
    WriteFailed,
}

/// The flag that marks the first block of a session.
pub open spec fn starts(block: BlockInfo) -> bool {
    block.flags.bits & 4 == 4
}

/// The flag that marks the last block of a session.
pub open spec fn ends(block: BlockInfo) -> bool {
    block.flags.bits & 16 == 16
}

/// What is done with `block` in `state`.
///
/// A block that starts a session is written on a connection of its own, or
/// gives its session up when it was not rebuilt. Other blocks are written only
/// while their session is streaming; a block that was not rebuilt gives the
/// streaming session up, and a block of another session ends it.
pub open spec fn action_for(state: EgressState, block: BlockInfo) -> EgressAction {
    if starts(block) {
        if !block.decoded {
            match state {
                EgressState::Disconnected => EgressAction::Skip,
                _ => EgressAction::Abandon,
            }
        } else {
            EgressAction::Write {
                reconnect: !(state is AwaitingStart),
                last: ends(block),
            }
        }
    } else {
        match state {
            EgressState::Streaming { session_id } => if session_id != block.session_id {
                EgressAction::Skip
            } else if !block.decoded {
                EgressAction::Abandon
            } else {
                EgressAction::Write { reconnect: false, last: ends(block) }
            },
            _ => EgressAction::Skip,
        }
    }
}

/// The state after `block` was handed in, the write taken to succeed.
pub open spec fn state_after_block(state: EgressState, block: BlockInfo) -> EgressState {
    match action_for(state, block) {
        EgressAction::Abandon => EgressState::Disconnected,
        EgressAction::Write { reconnect, last } => if last {
            EgressState::Disconnected
        } else {
            EgressState::Streaming { session_id: block.session_id }
        },
        EgressAction::Skip => match state {
            EgressState::Streaming { session_id } => EgressState::AwaitingStart,
            _ => state,
        },
    }
}

/// The state after an event.
pub open spec fn step(state: EgressState, event: EgressEvent) -> EgressState {
    match event {
        EgressEvent::Connected => match state {
            EgressState::Disconnected => EgressState::AwaitingStart,
            _ => state,
        },
        EgressEvent::Block(block) => state_after_block(state, block),
        EgressEvent::WriteFailed => EgressState::Disconnected,
    }
}

/// The state after a run of events.
pub open spec fn run(state: EgressState, events: Seq<EgressEvent>) -> EgressState
    decreases events.len(),
{
    if events.len() == 0 {
        state
    } else {
        step(run(state, events.drop_last()), events.last())
    }
}

/// What is done with the block that is event `at` of a run that began in `state`.
pub open spec fn action_at(state: EgressState, events: Seq<EgressEvent>, at: int) -> EgressAction {
    match events[at] {
        EgressEvent::Block(block) => action_for(run(state, events.subrange(0, at)), block),
        _ => EgressAction::Skip,
    }
}

/// The machine itself.
#[derive(Clone, Copy, Debug, PartialEq, Eq, Structural)]
pub struct Egress {
    pub state: EgressState,
}

impl Egress {
    /// A machine without connection.
    pub fn new() -> (r: Egress)
        ensures
            r.state == EgressState::Disconnected,
    {
        Egress { state: EgressState::Disconnected }
    }

    pub fn state(&self) -> (r: EgressState)
        ensures
            r == self.state,
    {
        self.state
    }

    /// Tells whether the caller has to connect before the next block.
    pub fn is_disconnected(&self) -> (r: bool)
        ensures
            r == (self.state is Disconnected),
    {
        match self.state {
            EgressState::Disconnected => true,
            _ => false,
        }
    }

    /// The caller opened the connection.
    pub fn connected(&mut self)
        ensures
            final(self).state == step(old(self).state, EgressEvent::Connected),
    {
        match self.state {
            EgressState::Disconnected => {
                self.state = EgressState::AwaitingStart;
            },
            _ => {},
        }
    }

    /// The write of the block handed in last failed.
    pub fn write_failed(&mut self)
        ensures
            final(self).state == step(old(self).state, EgressEvent::WriteFailed),
    {
        self.state = EgressState::Disconnected;
    }

    /// Hands in the next block and tells what to do with it.
    pub fn on_block(&mut self, block: BlockInfo) -> (r: EgressAction)
        ensures
            r == action_for(old(self).state, block),
            final(self).state == step(old(self).state, EgressEvent::Block(block)),
    {
        let first: bool = block.flags.contains(MessageType::start());
        let last: bool = block.flags.contains(MessageType::end());
        let action = if first {
            if !block.decoded {
                match self.state {
                    EgressState::Disconnected => EgressAction::Skip,
                    _ => EgressAction::Abandon,
                }
            } else {
                let fresh: bool = match self.state {
                    EgressState::AwaitingStart => true,
                    _ => false,
                };
                EgressAction::Write { reconnect: !fresh, last }
            }
        } else {
            match self.state {
                EgressState::Streaming { session_id } => {
                    if session_id != block.session_id {
                        EgressAction::Skip
                    } else if !block.decoded {
                        EgressAction::Abandon
                    } else {
                        EgressAction::Write { reconnect: false, last }
                    }
                },
                _ => EgressAction::Skip,
            }
        };
        match action {
            EgressAction::Abandon => {
                self.state = EgressState::Disconnected;
            },
            EgressAction::Write { reconnect, last } => {
                if last {
                    self.state = EgressState::Disconnected;
                } else {
                    self.state = EgressState::Streaming { session_id: block.session_id };
                }
            },
            EgressAction::Skip => {
                match self.state {
                    EgressState::Streaming { session_id } => {
                        self.state = EgressState::AwaitingStart;
                    },
                    _ => {},
                }
            },
        }
        action
    }
}

/// The stream bytes that a block carries: its first four bytes give their
/// number, they follow, and the rest of the block is padding. A block too short
/// for the count, or for the bytes it announces, carries nothing.
pub open spec fn spec_payload(block: Seq<u8>) -> Option<Seq<u8>> {
    if block.len() < 4 {
        None
    } else if from_be32(block.subrange(0, 4)) > block.len() - 4 {
        None
    } else {
        Some(block.subrange(4, 4 + from_be32(block.subrange(0, 4))))
    }
}

/// Reads the stream bytes out of a decoded block.
pub fn payload(block: &[u8]) -> (r: Option<&[u8]>)
    ensures
        match r {
            Some(bytes) => spec_payload(block@) == Some(bytes@),
            None => spec_payload(block@) is None,
        },
{
    if block.len() < PAYLOAD_OVERHEAD {
        return None;
    }
    let announced: u32 = read_be32(block, 0);
    if announced as u64 > (block.len() - PAYLOAD_OVERHEAD) as u64 {
        return None;
    }
    let end: usize = PAYLOAD_OVERHEAD + announced as usize;
    Some(&block[PAYLOAD_OVERHEAD..end])
}

/// A machine that streams no session writes nothing, and goes on streaming
/// none, until a block comes in that starts a session.
pub proof fn lemma_idle_until_start(state: EgressState, events: Seq<EgressEvent>)
    requires
        !(state is Streaming),
        forall|k: int|
            0 <= k < events.len() ==> (#[trigger] events[k] matches EgressEvent::Block(block)
                ==> !starts(block)),
    ensures
        !(run(state, events) is Streaming),
        forall|k: int| 0 <= k < events.len() ==> !(#[trigger] action_at(state, events, k) is Write),
    decreases events.len(),
{
    if events.len() > 0 {
        let front = events.drop_last();
        lemma_idle_until_start(state, front);
        assert forall|k: int| 0 <= k < events.len() implies !(#[trigger] action_at(
            state,
            events,
            k,
        ) is Write) by {
            if k < front.len() {
                assert(events.subrange(0, k) =~= front.subrange(0, k));
                assert(action_at(state, front, k) == action_at(state, events, k));
            } else {
                assert(events.subrange(0, k) =~= front);
            }
        }
    }
}

/// The state that streams session `session_id`.
pub open spec fn streams(state: EgressState, session_id: u8) -> bool {
    state == (EgressState::Streaming { session_id })
}

/// Once a block of a session was not rebuilt, every later block of that session
/// is discarded, until a block comes in that starts the session anew. Blocks of
/// other sessions, renewed connections and failed writes in between change
/// nothing to that.
pub proof fn lemma_lost_session_discarded(
    state: EgressState,
    events: Seq<EgressEvent>,
    lost: int,
    later: int,
)
    requires
        0 <= lost < later < events.len(),
        events[lost] matches EgressEvent::Block(block) && !block.decoded,
        events[later] is Block,
        events[later]->Block_0.session_id == events[lost]->Block_0.session_id,
        forall|k: int|
            lost < k <= later ==> (#[trigger] events[k] matches EgressEvent::Block(block) ==> !(
            starts(block) && block.session_id == events[lost]->Block_0.session_id)),
    ensures
        !(action_at(state, events, later) is Write),
{
    let session_id = events[lost]->Block_0.session_id;
    lemma_not_streaming_session(state, events, lost, later - 1);
    assert(events.subrange(0, later) =~= events.subrange(0, later - 1 + 1));
}

/// After a block of a session that was not rebuilt, the machine does not stream
/// that session as long as no block starts it anew.
proof fn lemma_not_streaming_session(
    state: EgressState,
    events: Seq<EgressEvent>,
    lost: int,
    upto: int,
)
    requires
        0 <= lost <= upto < events.len(),
        events[lost] matches EgressEvent::Block(block) && !block.decoded,
        forall|k: int|
            lost < k <= upto ==> (#[trigger] events[k] matches EgressEvent::Block(block) ==> !(
            starts(block) && block.session_id == events[lost]->Block_0.session_id)),
    ensures
        !streams(run(state, events.subrange(0, upto + 1)), events[lost]->Block_0.session_id),
    decreases upto - lost,
{
    let prefix = events.subrange(0, upto + 1);
    assert(prefix.drop_last() =~= events.subrange(0, upto));
    assert(prefix.last() == events[upto]);
    if upto > lost {
        lemma_not_streaming_session(state, events, lost, upto - 1);
    }
}

} // verus!
