use diode::protocol::MessageType;
use diode::receive::egress::{payload, BlockInfo, Egress, EgressAction, EgressState};
use diode::receive::ReceiverBlock;

fn block(bits: u8, session_id: u8, decoded: bool) -> BlockInfo {
    BlockInfo { flags: MessageType::from_bits(bits).unwrap(), session_id, decoded }
}

const START: u8 = 4 | 8;
const DATA: u8 = 8;
const END: u8 = 8 | 16;
const ONLY: u8 = 4 | 8 | 16;

fn write(reconnect: bool, last: bool) -> EgressAction {
    EgressAction::Write { reconnect, last }
}

#[test]
fn a_session_from_start_to_end() {
    let mut egress = Egress::new();
    assert!(egress.is_disconnected());
    egress.connected();
    assert_eq!(egress.state(), EgressState::AwaitingStart);
    assert_eq!(egress.on_block(block(START, 3, true)), write(false, false));
    assert_eq!(egress.state(), EgressState::Streaming { session_id: 3 });
    assert_eq!(egress.on_block(block(DATA, 3, true)), write(false, false));
    assert_eq!(egress.on_block(block(DATA, 3, true)), write(false, false));
    assert_eq!(egress.on_block(block(END, 3, true)), write(false, true));
    assert_eq!(egress.state(), EgressState::Disconnected);
    egress.connected();
    assert_eq!(egress.state(), EgressState::AwaitingStart);
}

#[test]
fn a_session_of_one_block() {
    let mut egress = Egress::new();
    egress.connected();
    assert_eq!(egress.on_block(block(ONLY, 0, true)), write(false, true));
    assert_eq!(egress.state(), EgressState::Disconnected);
}

#[test]
fn blocks_before_a_start_are_skipped() {
    let mut egress = Egress::new();
    egress.connected();
    assert_eq!(egress.on_block(block(DATA, 3, true)), EgressAction::Skip);
    assert_eq!(egress.on_block(block(END, 3, true)), EgressAction::Skip);
    assert_eq!(egress.on_block(block(DATA, 3, false)), EgressAction::Skip);
    assert_eq!(egress.state(), EgressState::AwaitingStart);
}

#[test]
fn a_lost_block_gives_the_session_up() {
    let mut egress = Egress::new();
    egress.connected();
    assert_eq!(egress.on_block(block(START, 3, true)), write(false, false));
    assert_eq!(egress.on_block(block(DATA, 3, false)), EgressAction::Abandon);
    assert_eq!(egress.state(), EgressState::Disconnected);
    egress.connected();
    // the rest of the session is discarded
    assert_eq!(egress.on_block(block(DATA, 3, true)), EgressAction::Skip);
    assert_eq!(egress.on_block(block(END, 3, true)), EgressAction::Skip);
    // the next session is delivered
    assert_eq!(egress.on_block(block(START, 4, true)), write(false, false));
    assert_eq!(egress.state(), EgressState::Streaming { session_id: 4 });
}

#[test]
fn a_lost_first_block_gives_the_session_up() {
    let mut egress = Egress::new();
    egress.connected();
    assert_eq!(egress.on_block(block(START, 3, false)), EgressAction::Abandon);
    assert_eq!(egress.state(), EgressState::Disconnected);
    egress.connected();
    assert_eq!(egress.on_block(block(DATA, 3, true)), EgressAction::Skip);
    assert_eq!(egress.state(), EgressState::AwaitingStart);
}

#[test]
fn a_new_session_takes_over() {
    let mut egress = Egress::new();
    egress.connected();
    assert_eq!(egress.on_block(block(START, 3, true)), write(false, false));
    // the sender restarted: a new start comes in before the end of session 3
    assert_eq!(egress.on_block(block(START, 4, true)), write(true, false));
    assert_eq!(egress.state(), EgressState::Streaming { session_id: 4 });
    // stragglers of session 3 are skipped and end the streaming of session 4
    assert_eq!(egress.on_block(block(DATA, 3, true)), EgressAction::Skip);
    assert_eq!(egress.state(), EgressState::AwaitingStart);
    assert_eq!(egress.on_block(block(DATA, 4, true)), EgressAction::Skip);
}

#[test]
fn a_new_session_whose_first_block_is_lost() {
    let mut egress = Egress::new();
    egress.connected();
    assert_eq!(egress.on_block(block(START, 3, true)), write(false, false));
    assert_eq!(egress.on_block(block(START, 4, false)), EgressAction::Abandon);
    assert_eq!(egress.state(), EgressState::Disconnected);
}

#[test]
fn a_failed_write_disconnects() {
    let mut egress = Egress::new();
    egress.connected();
    assert_eq!(egress.on_block(block(START, 3, true)), write(false, false));
    egress.write_failed();
    assert_eq!(egress.state(), EgressState::Disconnected);
    egress.connected();
    assert_eq!(egress.on_block(block(DATA, 3, true)), EgressAction::Skip);
}

#[test]
fn blocks_without_connection() {
    let mut egress = Egress::new();
    assert_eq!(egress.on_block(block(DATA, 3, true)), EgressAction::Skip);
    assert_eq!(egress.on_block(block(START, 3, false)), EgressAction::Skip);
    assert!(egress.is_disconnected());
    // a start asks for a connection of its own
    assert_eq!(egress.on_block(block(START, 3, true)), write(true, false));
    assert_eq!(egress.state(), EgressState::Streaming { session_id: 3 });
    // connecting again changes nothing while a session streams
    egress.connected();
    assert_eq!(egress.state(), EgressState::Streaming { session_id: 3 });
}

#[test]
fn payload_of_a_block() {
    assert_eq!(payload(&[0, 0, 0, 3, 10, 20, 30, 99, 99]), Some(&[10u8, 20, 30][..]));
    assert_eq!(payload(&[0, 0, 0, 0, 99, 99]), Some(&[][..]));
    assert_eq!(payload(&[0, 0, 0, 2, 1, 2]), Some(&[1u8, 2][..]));
    assert_eq!(payload(&[0, 0, 0, 0]), Some(&[][..]));
    // announces more than the block holds
    assert_eq!(payload(&[0, 0, 0, 3, 1, 2]), None);
    assert_eq!(payload(&[1, 0, 0, 0, 1, 2]), None);
    assert_eq!(payload(&[255, 255, 255, 255, 1, 2]), None);
    // too short for a length
    assert_eq!(payload(&[0, 0, 0]), None);
    assert_eq!(payload(&[]), None);
    let mut large = vec![0, 0, 1, 2];
    large.extend(std::iter::repeat(5u8).take(300));
    assert_eq!(payload(&large).map(|bytes| bytes.len()), Some(258));
}

#[test]
fn what_the_machine_is_told_of_a_block() {
    let flags = MessageType::from_bits(START).unwrap();
    let good = ReceiverBlock { flags, session_id: 1, block_id: 2, block: Some(vec![0, 0, 0, 1, 9, 0]) };
    assert_eq!(good.payload(), Some(&[9u8][..]));
    assert_eq!(good.info(), BlockInfo { flags, session_id: 1, decoded: true });
    let lost = ReceiverBlock { flags, session_id: 1, block_id: 2, block: None };
    assert_eq!(lost.payload(), None);
    assert_eq!(lost.info(), BlockInfo { flags, session_id: 1, decoded: false });
    let garbled = ReceiverBlock { flags, session_id: 1, block_id: 2, block: Some(vec![0, 0, 0, 9, 9]) };
    assert_eq!(garbled.payload(), None);
    assert!(!garbled.info().decoded);
}
