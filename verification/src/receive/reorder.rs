//! Reorder buffer: packets are grouped by session and block until a block has
//! all its packets, or has waited long enough to be released with what arrived.
//!
//! Time is a count of milliseconds on a clock that never goes back. Identifiers
//! wrap after 255, so two identifiers are ordered by their distance from the
//! block released last: up to 128 steps ahead counts as later, anything else as
//! earlier.

use crate::clock::Clock;
use crate::protocol::{bytes_of, Header, MessageType, FIRST_BLOCK_ID, FIRST_SESSION_ID};
use vstd::prelude::*;

verus! {

/// Model of a block under reassembly.
pub struct PendingView {
    pub session_id: u8,
    pub block_id: u8,
    /// Union of the flags of the packets seen so far.
    pub flags: MessageType,
    /// When the first packet of the block came in.
    pub arrival_time: u64,
    /// The distinct packets seen so far, in order of arrival.
    pub packets: Seq<Seq<u8>>,
}

/// Model of the reorder buffer.
pub struct ReorderView {
    /// Number of packets that make a block complete.
    pub capacity: int,
    pub block_expiration_timeout: u64,
    pub session_expiration_timeout: u64,
    /// Identifiers of the block released last, or where the sender started.
    pub session_id: u8,
    pub block_id: u8,
    /// Blocks under reassembly, in order of creation.
    pub pending: Seq<PendingView>,
}

/// Signed distance from `from` to `to` on the circle of 256 identifiers:
/// between 0 and 128 when `to` is ahead, between -127 and -1 when it is behind.
pub open spec fn wrap_offset(from: u8, to: u8) -> int {
    let gap = (to - from) % 256;
    if gap <= 128 {
        gap
    } else {
        gap - 256
    }
}

/// True when `entry` is the block `session_id`, `block_id`.
pub open spec fn is_block(entry: PendingView, session_id: u8, block_id: u8) -> bool {
    entry.session_id == session_id && entry.block_id == block_id
}

/// True when some pending block is `session_id`, `block_id`.
pub open spec fn has_block(pending: Seq<PendingView>, session_id: u8, block_id: u8) -> bool {
    exists|i: int| 0 <= i < pending.len() && is_block(#[trigger] pending[i], session_id, block_id)
}

/// Place of the block `session_id`, `block_id` among the pending ones.
pub open spec fn block_index(pending: Seq<PendingView>, session_id: u8, block_id: u8) -> int {
    choose|i: int| 0 <= i < pending.len() && is_block(#[trigger] pending[i], session_id, block_id)
}

/// No two packets of the list are equal.
pub open spec fn distinct_packets(packets: Seq<Seq<u8>>) -> bool {
    forall|i: int, j: int|
        0 <= i < packets.len() && 0 <= j < packets.len() && i != j ==> packets[i] != packets[j]
}

/// No two pending blocks have the same identifiers.
pub open spec fn distinct_blocks(pending: Seq<PendingView>) -> bool {
    forall|i: int, j: int|
        0 <= i < pending.len() && 0 <= j < pending.len() && i != j ==> !is_block(
            pending[i],
            pending[j].session_id,
            pending[j].block_id,
        )
}

/// True when the block has waited `timeout` milliseconds or more at `now`.
pub open spec fn waited(entry: PendingView, now: u64, timeout: u64) -> bool {
    entry.arrival_time + timeout <= now
}

/// The pending blocks that have waited less than `timeout`, in their order.
pub open spec fn without_stale(pending: Seq<PendingView>, now: u64, timeout: u64) -> Seq<
    PendingView,
>
    decreases pending.len(),
{
    if pending.len() == 0 {
        pending
    } else {
        let head = without_stale(pending.drop_last(), now, timeout);
        if waited(pending.last(), now, timeout) {
            head
        } else {
            head.push(pending.last())
        }
    }
}

impl ReorderView {
    /// Every pending block has at least one packet and fewer than a complete
    /// block, holds no packet twice, and is the only one with its identifiers.
    pub open spec fn wf(self) -> bool {
        &&& self.capacity >= 0
        &&& distinct_blocks(self.pending)
        &&& forall|i: int|
            0 <= i < self.pending.len() ==> {
                &&& 1 <= (#[trigger] self.pending[i]).packets.len() < self.capacity
                &&& distinct_packets(self.pending[i].packets)
            }
    }

    /// True when `a` is released before `b`: it came first, or at the same time
    /// and its session, then its block, is the earlier one seen from the block
    /// released last.
    pub open spec fn precedes(self, a: PendingView, b: PendingView) -> bool {
        ||| a.arrival_time < b.arrival_time
        ||| a.arrival_time == b.arrival_time && wrap_offset(self.session_id, a.session_id)
            < wrap_offset(self.session_id, b.session_id)
        ||| a.arrival_time == b.arrival_time && a.session_id == b.session_id && wrap_offset(
            self.block_id,
            a.block_id,
        ) < wrap_offset(self.block_id, b.block_id)
    }

    /// True when `live[i]` has waited out the block timeout and no other block
    /// that has is released before it.
    pub open spec fn is_oldest_expired(self, live: Seq<PendingView>, now: u64, i: int) -> bool {
        &&& 0 <= i < live.len()
        &&& waited(live[i], now, self.block_expiration_timeout)
        &&& forall|j: int|
            0 <= j < live.len() && waited(#[trigger] live[j], now, self.block_expiration_timeout)
                ==> !self.precedes(live[j], live[i])
    }

    /// The block as it stands once a packet with `header` is counted in: a new
    /// block for the first packet, else the flags joined and the packet added
    /// unless the block holds it already.
    pub open spec fn joined(self, now: u64, header: Header, packet: Seq<u8>) -> PendingView {
        if has_block(self.pending, header.session_id, header.block_id) {
            let entry = self.pending[block_index(
                self.pending,
                header.session_id,
                header.block_id,
            )];
            PendingView {
                flags: entry.flags.spec_union(header.message_type),
                packets: if entry.packets.contains(packet) {
                    entry.packets
                } else {
                    entry.packets.push(packet)
                },
                ..entry
            }
        } else {
            PendingView {
                session_id: header.session_id,
                block_id: header.block_id,
                flags: header.message_type,
                arrival_time: now,
                packets: seq![packet],
            }
        }
    }

    /// The buffer after a packet came in at `now`, and the block that the packet
    /// completed, if it completed one.
    pub open spec fn push(self, now: u64, header: Header, packet: Seq<u8>) -> (
        ReorderView,
        Option<PendingView>,
    ) {
        let known = has_block(self.pending, header.session_id, header.block_id);
        let at = block_index(self.pending, header.session_id, header.block_id);
        let entry = self.joined(now, header, packet);
        if entry.packets.len() >= self.capacity {
            (
                ReorderView {
                    session_id: entry.session_id,
                    block_id: entry.block_id,
                    pending: if known {
                        self.pending.remove(at)
                    } else {
                        self.pending
                    },
                    ..self
                },
                Some(entry),
            )
        } else {
            (
                ReorderView {
                    pending: if known {
                        self.pending.update(at, entry)
                    } else {
                        self.pending.push(entry)
                    },
                    ..self
                },
                None,
            )
        }
    }

    /// The buffer after its oldest expired block was taken out at `now`, and
    /// that block, if there was one. Blocks that waited out the session timeout
    /// are dropped first and never handed out.
    pub open spec fn pop_first(self, now: u64) -> (ReorderView, Option<PendingView>) {
        let live = without_stale(self.pending, now, self.session_expiration_timeout);
        if exists|i: int| self.is_oldest_expired(live, now, i) {
            let i = choose|i: int| self.is_oldest_expired(live, now, i);
            (
                ReorderView {
                    session_id: live[i].session_id,
                    block_id: live[i].block_id,
                    pending: live.remove(i),
                    ..self
                },
                Some(live[i]),
            )
        } else {
            (ReorderView { pending: live, ..self }, None)
        }
    }

    /// The buffer after `init`: the sender is taken to stand at `header`.
    pub open spec fn init(self, header: Header) -> ReorderView {
        ReorderView { session_id: header.session_id, block_id: header.block_id, ..self }
    }

    /// The buffer after `clear`: nothing pending, the sender at its first block.
    pub open spec fn clear(self) -> ReorderView {
        ReorderView {
            session_id: FIRST_SESSION_ID,
            block_id: FIRST_BLOCK_ID,
            pending: Seq::empty(),
            ..self
        }
    }
}

/// The offset from a point tells identifiers apart.
pub proof fn lemma_wrap_offset_injective(from: u8, a: u8, b: u8)
    ensures
        -127 <= wrap_offset(from, a) <= 128,
        wrap_offset(from, a) == wrap_offset(from, b) ==> a == b,
        wrap_offset(from, from) == 0,
{
}

/// What `without_stale` keeps was pending, has not waited out the timeout, and
/// stays in order; what it drops had waited.
pub proof fn lemma_without_stale(pending: Seq<PendingView>, now: u64, timeout: u64)
    ensures
        without_stale(pending, now, timeout).len() <= pending.len(),
        forall|k: int|
            0 <= k < without_stale(pending, now, timeout).len() ==> {
                &&& pending.contains(#[trigger] without_stale(pending, now, timeout)[k])
                &&& !waited(without_stale(pending, now, timeout)[k], now, timeout)
            },
        forall|i: int|
            0 <= i < pending.len() && !waited(#[trigger] pending[i], now, timeout)
                ==> without_stale(pending, now, timeout).contains(pending[i]),
        distinct_blocks(pending) ==> distinct_blocks(without_stale(pending, now, timeout)),
    decreases pending.len(),
{
    let kept = without_stale(pending, now, timeout);
    if pending.len() > 0 {
        let front = pending.drop_last();
        let head = without_stale(front, now, timeout);
        lemma_without_stale(front, now, timeout);
        assert forall|k: int| 0 <= k < kept.len() implies pending.contains(#[trigger] kept[k])
            && !waited(kept[k], now, timeout) by {
            if k < head.len() {
                assert(front.contains(head[k]));
                let m = choose|m: int| 0 <= m < front.len() && front[m] == head[k];
                assert(pending[m] == kept[k]);
            } else {
                assert(kept[k] == pending[pending.len() - 1]);
            }
        }
        assert forall|i: int|
            0 <= i < pending.len() && !waited(#[trigger] pending[i], now, timeout) implies kept.contains(
            pending[i],
        ) by {
            if i < front.len() {
                assert(front[i] == pending[i]);
                assert(head.contains(front[i]));
                let m = choose|m: int| 0 <= m < head.len() && head[m] == front[i];
                assert(kept[m] == pending[i]);
            } else {
                assert(kept[kept.len() - 1] == pending[i]);
            }
        }
        if distinct_blocks(pending) {
            assert(distinct_blocks(front)) by {
                assert forall|i: int, j: int|
                    0 <= i < front.len() && 0 <= j < front.len() && i != j implies !is_block(
                    front[i],
                    front[j].session_id,
                    front[j].block_id,
                ) by {
                    assert(front[i] == pending[i] && front[j] == pending[j]);
                }
            }
            assert forall|i: int, j: int|
                0 <= i < kept.len() && 0 <= j < kept.len() && i != j implies !is_block(
                kept[i],
                kept[j].session_id,
                kept[j].block_id,
            ) by {
                let last = pending.len() - 1;
                if i < head.len() && j < head.len() {
                    assert(kept[i] == head[i] && kept[j] == head[j]);
                } else if i < head.len() {
                    assert(front.contains(head[i]));
                    let m = choose|m: int| 0 <= m < front.len() && front[m] == head[i];
                    assert(pending[m] == kept[i] && pending[last] == kept[j]);
                } else {
                    assert(front.contains(head[j]));
                    let m = choose|m: int| 0 <= m < front.len() && front[m] == head[j];
                    assert(pending[m] == kept[j] && pending[last] == kept[i]);
                }
            }
        }
    }
}

/// Among blocks with distinct identifiers, at most one is the oldest expired.
pub proof fn lemma_oldest_expired_unique(
    buffer: ReorderView,
    live: Seq<PendingView>,
    now: u64,
    i: int,
    j: int,
)
    requires
        distinct_blocks(live),
        buffer.is_oldest_expired(live, now, i),
        buffer.is_oldest_expired(live, now, j),
    ensures
        i == j,
{
    if i != j {
        let a = live[i];
        let b = live[j];
        assert(!buffer.precedes(a, b) && !buffer.precedes(b, a));
        lemma_wrap_offset_injective(buffer.session_id, a.session_id, b.session_id);
        lemma_wrap_offset_injective(buffer.block_id, a.block_id, b.block_id);
        assert(is_block(a, b.session_id, b.block_id));
    }
}

/// Pushing a packet keeps the buffer sound. A block is handed out only with as
/// many packets as make it complete, and its flags hold those of the packet
/// that completed it and of every packet counted before.
pub proof fn lemma_push_wf(buffer: ReorderView, now: u64, header: Header, packet: Seq<u8>)
    requires
        buffer.wf(),
    ensures
        buffer.push(now, header, packet).0.wf(),
        buffer.joined(now, header, packet).flags.spec_contains(header.message_type),
        has_block(buffer.pending, header.session_id, header.block_id) ==> forall|seen: MessageType|
            buffer.pending[block_index(
                buffer.pending,
                header.session_id,
                header.block_id,
            )].flags.spec_contains(seen) ==> #[trigger] buffer.joined(
                now,
                header,
                packet,
            ).flags.spec_contains(seen),
        buffer.joined(now, header, packet).packets.contains(packet),
        is_block(buffer.joined(now, header, packet), header.session_id, header.block_id),
        buffer.push(now, header, packet).1 matches Some(block) ==> {
            &&& block == buffer.joined(now, header, packet)
            &&& block.packets.len() >= 1
            &&& block.packets.len() == buffer.capacity || buffer.capacity == 0
            &&& !has_block(buffer.push(now, header, packet).0.pending, block.session_id, block.block_id)
        },
{
    let known = has_block(buffer.pending, header.session_id, header.block_id);
    let at = block_index(buffer.pending, header.session_id, header.block_id);
    let entry = buffer.joined(now, header, packet);
    let after = buffer.push(now, header, packet).0;
    if known {
        let before = buffer.pending[at];
        crate::protocol::lemma_union_contains(before.flags, header.message_type, header.message_type);
        assert forall|seen: MessageType| before.flags.spec_contains(seen) implies #[trigger] entry.flags.spec_contains(
            seen,
        ) by {
            crate::protocol::lemma_union_contains(before.flags, header.message_type, seen);
        }
        if before.packets.contains(packet) {
        } else {
            let grown = before.packets.push(packet);
            assert(grown[grown.len() - 1] == packet);
            assert(distinct_packets(grown)) by {
                assert forall|i: int, j: int|
                    0 <= i < grown.len() && 0 <= j < grown.len() && i != j implies grown[i]
                    != grown[j] by {
                    if i < before.packets.len() && j < before.packets.len() {
                        assert(grown[i] == before.packets[i] && grown[j] == before.packets[j]);
                    } else if i < before.packets.len() {
                        assert(before.packets[i] == grown[i]);
                    } else {
                        assert(before.packets[j] == grown[j]);
                    }
                }
            }
        }
        if entry.packets.len() >= buffer.capacity {
            assert(after.pending == buffer.pending.remove(at));
            assert forall|i: int, j: int|
                0 <= i < after.pending.len() && 0 <= j < after.pending.len() && i
                    != j implies !is_block(
                after.pending[i],
                after.pending[j].session_id,
                after.pending[j].block_id,
            ) by {
                let i0 = if i < at { i } else { i + 1 };
                let j0 = if j < at { j } else { j + 1 };
                assert(after.pending[i] == buffer.pending[i0]);
                assert(after.pending[j] == buffer.pending[j0]);
            }
            assert forall|i: int| 0 <= i < after.pending.len() implies 1 <= (
            #[trigger] after.pending[i]).packets.len() < after.capacity && distinct_packets(
                after.pending[i].packets,
            ) by {
                let i0 = if i < at { i } else { i + 1 };
                assert(after.pending[i] == buffer.pending[i0]);
            }
            assert(!has_block(after.pending, entry.session_id, entry.block_id)) by {
                if has_block(after.pending, entry.session_id, entry.block_id) {
                    let i = choose|i: int|
                        0 <= i < after.pending.len() && is_block(
                            #[trigger] after.pending[i],
                            entry.session_id,
                            entry.block_id,
                        );
                    let i0 = if i < at { i } else { i + 1 };
                    assert(after.pending[i] == buffer.pending[i0]);
                    assert(is_block(buffer.pending[i0], before.session_id, before.block_id));
                }
            }
        } else {
            assert(after.pending == buffer.pending.update(at, entry));
            assert forall|i: int, j: int|
                0 <= i < after.pending.len() && 0 <= j < after.pending.len() && i
                    != j implies !is_block(
                after.pending[i],
                after.pending[j].session_id,
                after.pending[j].block_id,
            ) by {
                assert(is_block(after.pending[i], buffer.pending[i].session_id, buffer.pending[i].block_id));
                assert(is_block(after.pending[j], buffer.pending[j].session_id, buffer.pending[j].block_id));
            }
        }
    } else {
        let y: u8 = header.message_type.bits;
        assert(y & y == y) by (bit_vector);
        assert(entry.packets[0] == packet);
        if entry.packets.len() >= buffer.capacity {
        } else {
            assert(after.pending == buffer.pending.push(entry));
            assert forall|i: int, j: int|
                0 <= i < after.pending.len() && 0 <= j < after.pending.len() && i
                    != j implies !is_block(
                after.pending[i],
                after.pending[j].session_id,
                after.pending[j].block_id,
            ) by {
                if i < buffer.pending.len() && j < buffer.pending.len() {
                    assert(after.pending[i] == buffer.pending[i]);
                    assert(after.pending[j] == buffer.pending[j]);
                } else if i < buffer.pending.len() {
                    assert(after.pending[i] == buffer.pending[i]);
                } else {
                    assert(after.pending[j] == buffer.pending[j]);
                }
            }
        }
    }
}

/// Popping keeps the buffer sound. What is handed out was pending, has waited
/// out the block timeout but not the session timeout, and is no longer pending;
/// nothing that stays has waited out the session timeout.
pub proof fn lemma_pop_first_wf(buffer: ReorderView, now: u64)
    requires
        buffer.wf(),
    ensures
        buffer.pop_first(now).0.wf(),
        buffer.pop_first(now).0.pending.len() <= buffer.pending.len(),
        forall|k: int|
            0 <= k < buffer.pop_first(now).0.pending.len() ==> {
                &&& buffer.pending.contains(#[trigger] buffer.pop_first(now).0.pending[k])
                &&& !waited(
                    buffer.pop_first(now).0.pending[k],
                    now,
                    buffer.session_expiration_timeout,
                )
            },
        buffer.pop_first(now).1 matches Some(block) ==> {
            &&& buffer.pending.contains(block)
            &&& waited(block, now, buffer.block_expiration_timeout)
            &&& !waited(block, now, buffer.session_expiration_timeout)
            &&& 1 <= block.packets.len() < buffer.capacity
            &&& !has_block(buffer.pop_first(now).0.pending, block.session_id, block.block_id)
        },
{
    let live = without_stale(buffer.pending, now, buffer.session_expiration_timeout);
    let after = buffer.pop_first(now).0;
    lemma_without_stale(buffer.pending, now, buffer.session_expiration_timeout);
    assert forall|k: int| 0 <= k < live.len() implies 1 <= (#[trigger] live[k]).packets.len()
        < buffer.capacity && distinct_packets(live[k].packets) by {
        assert(buffer.pending.contains(live[k]));
    }
    if exists|i: int| buffer.is_oldest_expired(live, now, i) {
        let at = choose|i: int| buffer.is_oldest_expired(live, now, i);
        assert(after.pending == live.remove(at));
        assert(buffer.pending.contains(live[at]));
        assert forall|k: int| 0 <= k < after.pending.len() implies buffer.pending.contains(
            #[trigger] after.pending[k],
        ) && !waited(after.pending[k], now, buffer.session_expiration_timeout) && 1
            <= after.pending[k].packets.len() < buffer.capacity && distinct_packets(
            after.pending[k].packets,
        ) by {
            let k0 = if k < at { k } else { k + 1 };
            assert(after.pending[k] == live[k0]);
            assert(buffer.pending.contains(live[k0]));
        }
        assert forall|i: int, j: int|
            0 <= i < after.pending.len() && 0 <= j < after.pending.len() && i != j implies !is_block(
            after.pending[i],
            after.pending[j].session_id,
            after.pending[j].block_id,
        ) by {
            let i0 = if i < at { i } else { i + 1 };
            let j0 = if j < at { j } else { j + 1 };
            assert(after.pending[i] == live[i0]);
            assert(after.pending[j] == live[j0]);
        }
        assert(!has_block(after.pending, live[at].session_id, live[at].block_id)) by {
            if has_block(after.pending, live[at].session_id, live[at].block_id) {
                let i = choose|i: int|
                    0 <= i < after.pending.len() && is_block(
                        #[trigger] after.pending[i],
                        live[at].session_id,
                        live[at].block_id,
                    );
                let i0 = if i < at { i } else { i + 1 };
                assert(after.pending[i] == live[i0]);
            }
        }
    } else {
        assert(after.pending == live);
    }
}

/// A block under reassembly.
pub struct PendingBlock {
    pub session_id: u8,
    pub block_id: u8,
    pub flags: MessageType,
    pub arrival_time: u64,
    pub packets: Vec<Vec<u8>>,
}

impl View for PendingBlock {
    type V = PendingView;

    open spec fn view(&self) -> PendingView {
        PendingView {
            session_id: self.session_id,
            block_id: self.block_id,
            flags: self.flags,
            arrival_time: self.arrival_time,
            packets: bytes_of(self.packets@),
        }
    }
}

/// The models of a list of blocks.
pub open spec fn pending_views(pending: Seq<PendingBlock>) -> Seq<PendingView> {
    Seq::new(pending.len(), |i: int| pending[i]@)
}

/// True when `released` is the block `model`: same flags, same identifiers, same
/// packets in the same order.
pub open spec fn is_released(
    released: Option<(MessageType, u8, u8, Vec<Vec<u8>>)>,
    model: Option<PendingView>,
) -> bool {
    match (released, model) {
        (None, None) => true,
        (Some(block), Some(entry)) => {
            &&& block.0 == entry.flags
            &&& block.1 == entry.session_id
            &&& block.2 == entry.block_id
            &&& bytes_of(block.3@) == entry.packets
        },
        _ => false,
    }
}

/// Tells whether two buffers hold the same bytes.
pub fn same_bytes(a: &Vec<u8>, b: &Vec<u8>) -> (r: bool)
    ensures
        r == (a@ == b@),
{
    if a.len() != b.len() {
        return false;
    }
    let mut i: usize = 0;
    while i < a.len()
        invariant
            i <= a.len(),
            a.len() == b.len(),
            forall|j: int| 0 <= j < i ==> a[j] == b[j],
        decreases a.len() - i,
    {
        if a[i] != b[i] {
            return false;
        }
        i += 1;
    }
    assert(a@ =~= b@);
    true
}

/// Tells whether `packet` is among `packets`.
pub fn holds_packet(packets: &Vec<Vec<u8>>, packet: &Vec<u8>) -> (r: bool)
    ensures
        r == bytes_of(packets@).contains(packet@),
{
    let mut i: usize = 0;
    while i < packets.len()
        invariant
            i <= packets.len(),
            forall|j: int| 0 <= j < i ==> bytes_of(packets@)[j] != packet@,
        decreases packets.len() - i,
    {
        if same_bytes(&packets[i], packet) {
            assert(bytes_of(packets@)[i as int] == packet@);
            return true;
        }
        i += 1;
    }
    false
}

/// The reorder buffer of a receiver.
pub struct Reorder {
    /// Number of packets that make a block complete.
    pub capacity: usize,
    /// Milliseconds after which an incomplete block is released as it is.
    pub block_expiration_timeout: u64,
    /// Milliseconds after which what is pending is dropped.
    pub session_expiration_timeout: u64,
    /// Identifiers of the block released last, or where the sender started.
    pub session_id: u8,
    pub block_id: u8,
    /// Blocks under reassembly, in order of creation.
    pub pending: Vec<PendingBlock>,
    pub clock: Clock,
}

impl View for Reorder {
    type V = ReorderView;

    open spec fn view(&self) -> ReorderView {
        ReorderView {
            capacity: self.capacity as int,
            block_expiration_timeout: self.block_expiration_timeout,
            session_expiration_timeout: self.session_expiration_timeout,
            session_id: self.session_id,
            block_id: self.block_id,
            pending: pending_views(self.pending@),
        }
    }
}

impl Reorder {
    /// See [`ReorderView::wf`].
    pub open spec fn wf(&self) -> bool {
        self@.wf()
    }

    /// An empty buffer for blocks of `nb_normal_packets` source packets and
    /// `nb_repair_packets` repair packets, with its timeouts in milliseconds.
    pub fn new(
        nb_normal_packets: usize,
        nb_repair_packets: usize,
        block_expiration_timeout: u64,
        session_expiration_timeout: u64,
    ) -> (r: Reorder)
        requires
            nb_normal_packets + nb_repair_packets <= usize::MAX,
        ensures
            r.wf(),
            r@ == (ReorderView {
                capacity: nb_normal_packets + nb_repair_packets,
                block_expiration_timeout,
                session_expiration_timeout,
                session_id: FIRST_SESSION_ID,
                block_id: FIRST_BLOCK_ID,
                pending: Seq::empty(),
            }),
    {
        let r = Reorder {
            capacity: nb_normal_packets + nb_repair_packets,
            block_expiration_timeout,
            session_expiration_timeout,
            session_id: FIRST_SESSION_ID,
            block_id: FIRST_BLOCK_ID,
            pending: Vec::new(),
            clock: Clock::new(),
        };
        assert(r@.pending =~= Seq::empty());
        r
    }

    /// Takes the sender to stand at the block named by `header`. For a receiver
    /// that missed the sender's first datagram.
    pub fn init(&mut self, header: &Header)
        ensures
            final(self)@ == old(self)@.init(*header),
            old(self).wf() ==> final(self).wf(),
    {
        self.session_id = header.session_id;
        self.block_id = header.block_id;
    }

    /// Drops everything pending and takes the sender back to its first block.
    pub fn clear(&mut self)
        ensures
            final(self)@ == old(self)@.clear(),
            final(self).wf(),
    {
        self.pending.clear();
        self.session_id = FIRST_SESSION_ID;
        self.block_id = FIRST_BLOCK_ID;
        assert(self@.pending =~= Seq::empty());
    }

    /// How long the consumer may wait for a packet before it asks for expired
    /// blocks, in milliseconds.
    pub fn block_expiration_timeout(&self) -> (r: u64)
        ensures
            r == self.block_expiration_timeout,
    {
        self.block_expiration_timeout
    }

    /// Number of blocks under reassembly.
    pub fn pending_blocks(&self) -> (r: usize)
        ensures
            r == self@.pending.len(),
    {
        self.pending.len()
    }

    /// Finds the pending block `session_id`, `block_id`.
    fn find(&self, session_id: u8, block_id: u8) -> (r: Option<usize>)
        ensures
            match r {
                Some(i) => i < self.pending.len() && is_block(
                    self@.pending[i as int],
                    session_id,
                    block_id,
                ),
                None => !has_block(self@.pending, session_id, block_id),
            },
    {
        let mut i: usize = 0;
        while i < self.pending.len()
            invariant
                i <= self.pending.len(),
                forall|j: int| 0 <= j < i ==> !is_block(self@.pending[j], session_id, block_id),
            decreases self.pending.len() - i,
        {
            if self.pending[i].session_id == session_id && self.pending[i].block_id == block_id {
                return Some(i);
            }
            i += 1;
        }
        None
    }

    /// Counts in a packet that came in at `now`. The packet joins the pending
    /// block named by `header`, or opens it. When the block then has as many
    /// packets as make it complete, it leaves the buffer and is returned: the
    /// union of the flags seen on its packets, its identifiers and its packets.
    pub fn push_at(&mut self, now: u64, header: &Header, packet: Vec<u8>) -> (r: Option<
        (MessageType, u8, u8, Vec<Vec<u8>>),
    >)
        requires
            old(self).wf(),
        ensures
            final(self).wf(),
            final(self)@ == old(self)@.push(now, *header, packet@).0,
            is_released(r, old(self)@.push(now, *header, packet@).1),
    {
        proof {
            lemma_push_wf(self@, now, *header, packet@);
        }
        let ghost before = self@;
        let ghost model = before.push(now, *header, packet@);
        let found = self.find(header.session_id, header.block_id);
        match found {
            Some(i) => {
                proof {
                    let at = block_index(before.pending, header.session_id, header.block_id);
                    assert(is_block(before.pending[at], header.session_id, header.block_id));
                    assert(at == i);
                }
                let mut entry = self.pending.remove(i);
                assert(entry@ == before.pending[i as int]);
                entry.flags = entry.flags.union(header.message_type);
                if !holds_packet(&entry.packets, &packet) {
                    entry.packets.push(packet);
                    assert(bytes_of(entry.packets@) =~= before.pending[i as int].packets.push(
                        packet@,
                    ));
                }
                assert(entry@ == before.joined(now, *header, packet@));
                if entry.packets.len() >= self.capacity {
                    self.session_id = entry.session_id;
                    self.block_id = entry.block_id;
                    assert(self@.pending =~= before.pending.remove(i as int));
                    Some((entry.flags, entry.session_id, entry.block_id, entry.packets))
                } else {
                    self.pending.insert(i, entry);
                    assert(self@.pending =~= before.pending.update(i as int, model.0.pending[i as int]));
                    None
                }
            },
            None => {
                let mut packets: Vec<Vec<u8>> = Vec::new();
                let ghost bytes = packet@;
                packets.push(packet);
                assert(bytes_of(packets@) =~= seq![bytes]);
                let entry = PendingBlock {
                    session_id: header.session_id,
                    block_id: header.block_id,
                    flags: header.message_type,
                    arrival_time: now,
                    packets,
                };
                assert(entry@ == before.joined(now, *header, bytes));
                if 1 >= self.capacity {
                    self.session_id = entry.session_id;
                    self.block_id = entry.block_id;
                    assert(self@.pending =~= before.pending);
                    Some((entry.flags, entry.session_id, entry.block_id, entry.packets))
                } else {
                    self.pending.push(entry);
                    assert(self@.pending =~= before.pending.push(model.0.pending.last()));
                    None
                }
            },
        }
    }

    /// Drops the blocks that have waited out the session timeout at `now`.
    fn drop_stale(&mut self, now: u64)
        ensures
            final(self)@ == (ReorderView {
                pending: without_stale(
                    old(self)@.pending,
                    now,
                    old(self).session_expiration_timeout,
                ),
                ..old(self)@
            }),
    {
        let ghost before = self@.pending;
        let timeout: u64 = self.session_expiration_timeout;
        let mut kept: usize = 0;
        let ghost mut done: int = 0;
        assert(before.subrange(0, 0) =~= Seq::<PendingView>::empty());
        while kept < self.pending.len()
            invariant
                0 <= done <= before.len(),
                kept <= self.pending.len(),
                self.pending.len() - kept == before.len() - done,
                self@.pending.subrange(0, kept as int) == without_stale(
                    before.subrange(0, done),
                    now,
                    timeout,
                ),
                self@.pending.subrange(kept as int, self.pending.len() as int) == before.subrange(
                    done,
                    before.len() as int,
                ),
                self.capacity == old(self).capacity,
                self.block_expiration_timeout == old(self).block_expiration_timeout,
                self.session_expiration_timeout == old(self).session_expiration_timeout,
                self.session_id == old(self).session_id,
                self.block_id == old(self).block_id,
                timeout == self.session_expiration_timeout,
            decreases self.pending.len() - kept,
        {
            let ghost current = self@.pending;
            let ghost rest = current.subrange(kept as int, current.len() as int);
            assert(rest[0] == before[done]);
            assert(current[kept as int] == before[done]);
            assert(before.subrange(0, done + 1).drop_last() =~= before.subrange(0, done));
            assert(before.subrange(0, done + 1).last() == before[done]);
            if has_waited(self.pending[kept].arrival_time, now, timeout) {
                self.pending.remove(kept);
                proof {
                    assert(self@.pending.subrange(0, kept as int) =~= current.subrange(
                        0,
                        kept as int,
                    ));
                    assert(self@.pending.subrange(kept as int, self.pending.len() as int)
                        =~= rest.subrange(1, rest.len() as int));
                    assert(rest.subrange(1, rest.len() as int) =~= before.subrange(
                        done + 1,
                        before.len() as int,
                    ));
                    done = done + 1;
                }
            } else {
                kept += 1;
                proof {
                    assert(current.subrange(0, kept as int) =~= current.subrange(
                        0,
                        kept - 1,
                    ).push(before[done]));
                    assert(current.subrange(kept as int, current.len() as int) =~= rest.subrange(
                        1,
                        rest.len() as int,
                    ));
                    assert(rest.subrange(1, rest.len() as int) =~= before.subrange(
                        done + 1,
                        before.len() as int,
                    ));
                    done = done + 1;
                }
            }
        }
        assert(self@.pending.subrange(0, kept as int) =~= self@.pending);
        assert(before.subrange(0, done) =~= before);
    }

    /// Finds the block that has waited out the block timeout at `now` and comes
    /// before every other that has.
    fn oldest_expired(&self, now: u64) -> (r: Option<usize>)
        ensures
            match r {
                Some(i) => self@.is_oldest_expired(self@.pending, now, i as int),
                None => forall|j: int|
                    0 <= j < self@.pending.len() ==> !waited(
                        #[trigger] self@.pending[j],
                        now,
                        self.block_expiration_timeout,
                    ),
            },
    {
        let mut best: Option<usize> = None;
        let mut i: usize = 0;
        while i < self.pending.len()
            invariant
                i <= self.pending.len(),
                match best {
                    Some(b) => {
                        &&& b < i
                        &&& waited(self@.pending[b as int], now, self.block_expiration_timeout)
                        &&& forall|j: int|
                            0 <= j < i && waited(
                                #[trigger] self@.pending[j],
                                now,
                                self.block_expiration_timeout,
                            ) ==> !self@.precedes(self@.pending[j], self@.pending[b as int])
                    },
                    None => forall|j: int|
                        0 <= j < i ==> !waited(
                            #[trigger] self@.pending[j],
                            now,
                            self.block_expiration_timeout,
                        ),
                },
            decreases self.pending.len() - i,
        {
            if has_waited(self.pending[i].arrival_time, now, self.block_expiration_timeout) {
                match best {
                    None => {
                        best = Some(i);
                    },
                    Some(b) => {
                        if self.comes_before(&self.pending[i], &self.pending[b]) {
                            best = Some(i);
                        }
                    },
                }
            }
            i += 1;
        }
        best
    }

    /// Tells whether `a` is released before `b`.
    fn comes_before(&self, a: &PendingBlock, b: &PendingBlock) -> (r: bool)
        ensures
            r == self@.precedes(a@, b@),
    {
        if a.arrival_time != b.arrival_time {
            return a.arrival_time < b.arrival_time;
        }
        if a.session_id != b.session_id {
            proof {
                lemma_wrap_offset_injective(self.session_id, a.session_id, b.session_id);
            }
            return signed_gap(self.session_id, a.session_id) < signed_gap(
                self.session_id,
                b.session_id,
            );
        }
        signed_gap(self.block_id, a.block_id) < signed_gap(self.block_id, b.block_id)
    }

    /// Takes out the oldest block that has waited out the block timeout at
    /// `now`, with whatever packets it has, after dropping the blocks that have
    /// waited out the session timeout. Gives nothing when no block has expired.
    pub fn pop_first_at(&mut self, now: u64) -> (r: Option<(MessageType, u8, u8, Vec<Vec<u8>>)>)
        requires
            old(self).wf(),
        ensures
            final(self).wf(),
            final(self)@ == old(self)@.pop_first(now).0,
            is_released(r, old(self)@.pop_first(now).1),
    {
        proof {
            lemma_pop_first_wf(self@, now);
            lemma_without_stale(self@.pending, now, self.session_expiration_timeout);
        }
        let ghost before = self@;
        self.drop_stale(now);
        let ghost live = self@.pending;
        let found = self.oldest_expired(now);
        match found {
            Some(i) => {
                proof {
                    assert(before.is_oldest_expired(live, now, i as int));
                    let at = choose|k: int| before.is_oldest_expired(live, now, k);
                    lemma_oldest_expired_unique(before, live, now, at, i as int);
                }
                let entry = self.pending.remove(i);
                self.session_id = entry.session_id;
                self.block_id = entry.block_id;
                assert(self@.pending =~= live.remove(i as int));
                Some((entry.flags, entry.session_id, entry.block_id, entry.packets))
            },
            None => {
                assert(!exists|k: int| before.is_oldest_expired(live, now, k));
                None
            },
        }
    }

    /// Counts in a packet that came in now: [`Reorder::push_at`] at the reading
    /// of the buffer's clock.
    pub fn push(&mut self, header: &Header, packet: Vec<u8>) -> (r: Option<
        (MessageType, u8, u8, Vec<Vec<u8>>),
    >)
        requires
            old(self).wf(),
        ensures
            final(self).wf(),
            exists|now: u64|
                final(self)@ == (#[trigger] old(self)@.push(now, *header, packet@)).0
                    && is_released(r, old(self)@.push(now, *header, packet@).1),
    {
        let now: u64 = self.clock.now_ms();
        self.push_at(now, header, packet)
    }

    /// Takes out the oldest block that has expired now: [`Reorder::pop_first_at`]
    /// at the reading of the buffer's clock.
    pub fn pop_first(&mut self) -> (r: Option<(MessageType, u8, u8, Vec<Vec<u8>>)>)
        requires
            old(self).wf(),
        ensures
            final(self).wf(),
            exists|now: u64|
                final(self)@ == (#[trigger] old(self)@.pop_first(now)).0 && is_released(
                    r,
                    old(self)@.pop_first(now).1,
                ),
    {
        let now: u64 = self.clock.now_ms();
        self.pop_first_at(now)
    }
}

/// Tells whether something that came in at `arrival` has waited `timeout`
/// milliseconds or more at `now`.
pub fn has_waited(arrival: u64, now: u64, timeout: u64) -> (r: bool)
    ensures
        r == (arrival + timeout <= now),
{
    arrival <= now && now - arrival >= timeout
}

/// Signed distance from `from` to `to` on the circle of identifiers.
pub fn signed_gap(from: u8, to: u8) -> (r: i16)
    ensures
        r == wrap_offset(from, to),
{
    let gap: u8 = to.wrapping_sub(from);
    if gap <= 128 {
        gap as i16
    } else {
        gap as i16 - 256
    }
}

} // verus!
