use diode::protocol::{Header, MessageType};
use diode::receive::reorder::{has_waited, holds_packet, same_bytes, signed_gap, Reorder};

fn header(bits: u8, session: u8, block: u8) -> Header {
    Header::new(MessageType::from_bits(bits).unwrap(), session, block)
}

fn packet(block: u8, index: u8) -> Vec<u8> {
    vec![block, 0, 0, index, 7, 7]
}

#[test]
fn block_is_released_when_complete() {
    let mut reorder = Reorder::new(2, 1, 100, 500);
    assert_eq!(reorder.capacity, 3);
    assert_eq!(reorder.push_at(10, &header(8, 0, 0), packet(0, 0)), None);
    assert_eq!(reorder.push_at(11, &header(8, 0, 0), packet(0, 2)), None);
    assert_eq!(reorder.pending_blocks(), 1);
    let released = reorder.push_at(12, &header(8, 0, 0), packet(0, 1));
    assert_eq!(
        released,
        Some((MessageType::data(), 0, 0, vec![packet(0, 0), packet(0, 2), packet(0, 1)]))
    );
    assert_eq!(reorder.pending_blocks(), 0);
    assert_eq!((reorder.session_id, reorder.block_id), (0, 0));
}

#[test]
fn flags_of_any_packet_survive() {
    let mut reorder = Reorder::new(3, 0, 100, 500);
    assert_eq!(reorder.push_at(1, &header(8, 4, 0), packet(0, 0)), None);
    assert_eq!(reorder.push_at(2, &header(8 | 4, 4, 0), packet(0, 1)), None);
    let released = reorder.push_at(3, &header(8 | 16, 4, 0), packet(0, 2)).unwrap();
    assert_eq!(released.0.bits(), 4 | 8 | 16);
    assert_eq!((released.1, released.2), (4, 0));

    // also when the block is released by its timeout
    assert_eq!(reorder.push_at(10, &header(8 | 4, 5, 0), packet(0, 0)), None);
    assert_eq!(reorder.push_at(11, &header(8, 5, 0), packet(0, 1)), None);
    let released = reorder.pop_first_at(110).unwrap();
    assert_eq!(released.0.bits(), 4 | 8);
    assert_eq!(released.3.len(), 2);
}

#[test]
fn blocks_are_kept_apart() {
    let mut reorder = Reorder::new(2, 0, 100, 500);
    assert_eq!(reorder.push_at(1, &header(8, 0, 0), packet(0, 0)), None);
    assert_eq!(reorder.push_at(1, &header(8, 0, 1), packet(1, 0)), None);
    assert_eq!(reorder.push_at(1, &header(8, 1, 0), packet(0, 0)), None);
    assert_eq!(reorder.pending_blocks(), 3);
    let released = reorder.push_at(2, &header(8, 0, 1), packet(1, 1)).unwrap();
    assert_eq!((released.1, released.2), (0, 1));
    assert_eq!(released.3, vec![packet(1, 0), packet(1, 1)]);
    assert_eq!(reorder.pending_blocks(), 2);
    assert_eq!((reorder.session_id, reorder.block_id), (0, 1));
}

#[test]
fn duplicated_packets_count_once() {
    let mut reorder = Reorder::new(2, 0, 100, 500);
    assert_eq!(reorder.push_at(1, &header(8, 0, 0), packet(0, 0)), None);
    assert_eq!(reorder.push_at(2, &header(8 | 4, 0, 0), packet(0, 0)), None);
    assert_eq!(reorder.push_at(3, &header(8, 0, 0), packet(0, 0)), None);
    assert_eq!(reorder.pending[0].packets.len(), 1);
    // the flags of a duplicate still count
    assert_eq!(reorder.pending[0].flags.bits(), 12);
    // the block keeps the time of its first packet
    assert_eq!(reorder.pending[0].arrival_time, 1);
    let released = reorder.push_at(4, &header(8, 0, 0), packet(0, 1)).unwrap();
    assert_eq!(released.3, vec![packet(0, 0), packet(0, 1)]);
}

#[test]
fn single_packet_blocks_go_straight_through() {
    let mut reorder = Reorder::new(1, 0, 100, 500);
    let released = reorder.push_at(1, &header(12, 9, 3), packet(3, 0));
    assert_eq!(released, Some((MessageType::from_bits(12).unwrap(), 9, 3, vec![packet(3, 0)])));
    assert_eq!(reorder.pending_blocks(), 0);
    assert_eq!((reorder.session_id, reorder.block_id), (9, 3));
}

#[test]
fn expired_blocks_come_out_oldest_first() {
    let mut reorder = Reorder::new(4, 0, 100, 10_000);
    assert_eq!(reorder.block_expiration_timeout(), 100);
    reorder.push_at(30, &header(8, 0, 2), packet(2, 0));
    reorder.push_at(10, &header(8, 0, 0), packet(0, 0));
    reorder.push_at(20, &header(8, 0, 1), packet(1, 0));
    reorder.push_at(25, &header(8, 0, 1), packet(1, 1));

    // nothing has waited long enough
    assert_eq!(reorder.pop_first_at(109), None);
    assert_eq!(reorder.pending_blocks(), 3);

    // exactly at the timeout the block is due
    let released = reorder.pop_first_at(110).unwrap();
    assert_eq!((released.1, released.2), (0, 0));
    assert_eq!(reorder.pop_first_at(110), None);

    let released = reorder.pop_first_at(1000).unwrap();
    assert_eq!((released.1, released.2), (0, 1));
    assert_eq!(released.3, vec![packet(1, 0), packet(1, 1)]);
    let released = reorder.pop_first_at(1000).unwrap();
    assert_eq!((released.1, released.2), (0, 2));
    assert_eq!(reorder.pop_first_at(1000), None);
    assert_eq!(reorder.pending_blocks(), 0);
}

#[test]
fn ties_are_broken_by_identifiers_around_the_wrap() {
    let mut reorder = Reorder::new(4, 0, 100, 10_000);
    reorder.init(&header(8, 7, 254));
    assert_eq!((reorder.session_id, reorder.block_id), (7, 254));
    // all at the same time; block 1 is three steps after block 254
    reorder.push_at(50, &header(8, 7, 1), packet(1, 0));
    reorder.push_at(50, &header(8, 7, 255), packet(255, 0));
    reorder.push_at(50, &header(8, 8, 0), packet(0, 0));
    reorder.push_at(50, &header(8, 7, 0), packet(0, 0));
    // block 250 is four steps before block 254
    reorder.push_at(50, &header(8, 7, 250), packet(250, 0));
    let mut order = vec![];
    while let Some(released) = reorder.pop_first_at(150) {
        order.push((released.1, released.2));
    }
    // every release moves the point from which distances are taken
    assert_eq!(order, vec![(7, 250), (7, 255), (7, 0), (7, 1), (8, 0)]);
}

#[test]
fn sessions_are_ordered_around_the_wrap() {
    let mut reorder = Reorder::new(4, 0, 100, 10_000);
    reorder.init(&header(8, 255, 10));
    reorder.push_at(50, &header(8, 0, 0), packet(0, 0));
    reorder.push_at(50, &header(8, 255, 11), packet(11, 0));
    reorder.push_at(50, &header(8, 254, 200), packet(200, 0));
    let mut order = vec![];
    while let Some(released) = reorder.pop_first_at(150) {
        order.push((released.1, released.2));
    }
    assert_eq!(order, vec![(254, 200), (255, 11), (0, 0)]);
}

#[test]
fn stale_blocks_are_dropped() {
    let mut reorder = Reorder::new(4, 0, 100, 500);
    reorder.push_at(0, &header(8, 0, 0), packet(0, 0));
    reorder.push_at(300, &header(8, 0, 1), packet(1, 0));
    reorder.push_at(450, &header(8, 0, 2), packet(2, 0));
    // block 0 has waited out the session timeout: it is dropped, not handed out
    let released = reorder.pop_first_at(500).unwrap();
    assert_eq!((released.1, released.2), (0, 1));
    assert_eq!(reorder.pending_blocks(), 1);
    assert_eq!(reorder.pending[0].block_id, 2);
    // block 2 has not expired yet
    assert_eq!(reorder.pop_first_at(500), None);
    // and is dropped in its turn
    assert_eq!(reorder.pop_first_at(950), None);
    assert_eq!(reorder.pending_blocks(), 0);
}

#[test]
fn clear_forgets_everything() {
    let mut reorder = Reorder::new(4, 0, 100, 500);
    reorder.init(&header(8, 9, 9));
    reorder.push_at(0, &header(8, 9, 9), packet(9, 0));
    reorder.push_at(0, &header(8, 9, 10), packet(10, 0));
    reorder.clear();
    assert_eq!(reorder.pending_blocks(), 0);
    assert_eq!((reorder.session_id, reorder.block_id), (0, 0));
    assert_eq!(reorder.pop_first_at(10_000), None);
}

#[test]
fn a_clock_that_goes_back_expires_nothing() {
    let mut reorder = Reorder::new(4, 0, 0, 500);
    reorder.push_at(100, &header(8, 0, 0), packet(0, 0));
    assert_eq!(reorder.pop_first_at(99), None);
    assert!(reorder.pop_first_at(100).is_some());
}

#[test]
fn reading_the_clock() {
    let mut reorder = Reorder::new(2, 0, 0, 1_000_000);
    assert_eq!(reorder.push(&header(8, 0, 0), packet(0, 0)), None);
    // with no block timeout, what is pending is due at once
    let released = reorder.pop_first().unwrap();
    assert_eq!(released.3, vec![packet(0, 0)]);
    assert_eq!(reorder.pop_first(), None);
}

#[test]
fn helpers() {
    assert!(has_waited(10, 110, 100));
    assert!(!has_waited(10, 109, 100));
    assert!(!has_waited(10, 9, 0));
    assert!(has_waited(10, 10, 0));
    assert!(!has_waited(u64::MAX, u64::MAX, 1));
    assert!(has_waited(0, u64::MAX, u64::MAX));

    assert_eq!(signed_gap(0, 0), 0);
    assert_eq!(signed_gap(0, 1), 1);
    assert_eq!(signed_gap(0, 128), 128);
    assert_eq!(signed_gap(0, 129), -127);
    assert_eq!(signed_gap(0, 255), -1);
    assert_eq!(signed_gap(255, 0), 1);
    assert_eq!(signed_gap(200, 72), 128);
    assert_eq!(signed_gap(200, 73), -127);
    assert_eq!(signed_gap(10, 5), -5);

    assert!(same_bytes(&vec![], &vec![]));
    assert!(same_bytes(&vec![1, 2], &vec![1, 2]));
    assert!(!same_bytes(&vec![1, 2], &vec![1, 3]));
    assert!(!same_bytes(&vec![1, 2], &vec![1]));
    assert!(holds_packet(&vec![vec![1], vec![2, 3]], &vec![2, 3]));
    assert!(!holds_packet(&vec![vec![1], vec![2, 3]], &vec![2]));
    assert!(!holds_packet(&vec![], &vec![]));
}
