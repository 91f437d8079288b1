use diode::protocol::{object_transmission_information, Header, LidiParameters, MessageType};
use diode::receive::egress::payload;
use diode::send::encoding::Encoding;
use diode::send::tcp::{socket_buffer_is_small, BlockFramer};
use diode::send::throttle::Throttle;
use diode::send::{heartbeat_message, init_message, lane_datagrams, Dispatcher};
use diode::test::build_random_data;

#[test]
fn framer_cuts_the_stream_into_blocks() {
    let mut framer = BlockFramer::new(12, 5);
    assert_eq!(framer.room(), 8);
    assert_eq!(framer.on_read(&[1, 2, 3]), None);
    assert_eq!(framer.room(), 5);
    assert_eq!(framer.on_read(&[4, 5, 6, 7]), None);
    let (header, block) = framer.on_read(&[8]).unwrap();
    assert_eq!(header, Header::new(MessageType::from_bits(12).unwrap(), 5, 0));
    assert_eq!(block, vec![0, 0, 0, 8, 1, 2, 3, 4, 5, 6, 7, 8]);
    assert_eq!(framer.room(), 8);
    assert_eq!(framer.transmitted(), 12);

    // the second block does not start the session
    let (header, block) = framer.on_read(&[9, 10, 11, 12, 13, 14, 15, 16]).unwrap();
    assert_eq!(header, Header::new(MessageType::data(), 5, 1));
    assert_eq!(block, vec![0, 0, 0, 8, 9, 10, 11, 12, 13, 14, 15, 16]);

    // the last block is short: what follows its bytes is padding
    assert_eq!(framer.on_read(&[17, 18]), None);
    let (header, block) = framer.on_end();
    assert_eq!(header, Header::new(MessageType::from_bits(24).unwrap(), 5, 2));
    assert_eq!(block.len(), 12);
    assert_eq!(&block[..6], &[0, 0, 0, 2, 17, 18]);
    assert_eq!(payload(&block), Some(&[17u8, 18][..]));
    assert_eq!(framer.transmitted(), 12 + 12 + 6);
}

#[test]
fn framer_of_an_empty_session() {
    let mut framer = BlockFramer::new(12, 0);
    let (header, block) = framer.on_end();
    assert_eq!(header.message_type().bits(), 4 | 8 | 16);
    assert_eq!(payload(&block), Some(&[][..]));
    assert_eq!(block.len(), 12);
}

#[test]
fn framer_flushes_when_the_client_pauses() {
    let mut framer = BlockFramer::new(12, 0);
    // nothing is pending: no message
    assert_eq!(framer.on_would_block(), None);
    assert_eq!(framer.on_read(&[1, 2]), None);
    let (header, block) = framer.on_would_block().unwrap();
    assert_eq!(header.message_type().bits(), 4 | 8);
    assert_eq!(header.block(), 0);
    assert_eq!(payload(&block), Some(&[1u8, 2][..]));
    assert_eq!(framer.on_would_block(), None);
    let (header, _) = framer.on_end();
    assert_eq!(header.message_type().bits(), 8 | 16);
    assert_eq!(header.block(), 1);
}

#[test]
fn framer_numbers_blocks_around_the_wrap() {
    let mut framer = BlockFramer::new(5, 1);
    for expected in 0..=255u8 {
        let (header, _) = framer.on_read(&[expected]).unwrap();
        assert_eq!(header.block(), expected);
        assert_eq!(header.session(), 1);
    }
    let (header, _) = framer.on_read(&[0]).unwrap();
    assert_eq!(header.block(), 0);
    // a block number seen again does not start the session again
    assert_eq!(header.message_type().bits(), 8);
}

#[test]
fn framer_loses_no_byte() {
    let data = build_random_data(10_000);
    let mut framer = BlockFramer::new(64, 0);
    let mut out = vec![];
    let mut at = 0;
    let mut step = 1;
    while at < data.len() {
        let n = step.min(framer.room()).min(data.len() - at);
        if let Some((_, block)) = framer.on_read(&data[at..at + n]) {
            out.extend_from_slice(payload(&block).unwrap());
        }
        at += n;
        step = step % 97 + 1;
        if step % 13 == 0 {
            if let Some((_, block)) = framer.on_would_block() {
                out.extend_from_slice(payload(&block).unwrap());
            }
        }
    }
    let (_, block) = framer.on_end();
    out.extend_from_slice(payload(&block).unwrap());
    assert_eq!(out, data);
}

#[test]
fn socket_buffer_heuristic() {
    assert!(socket_buffer_is_small(119_999, 60_000));
    assert!(!socket_buffer_is_small(120_000, 60_000));
    assert!(!socket_buffer_is_small(0, 0));
    assert!(socket_buffer_is_small(usize::MAX - 1, usize::MAX));
    assert!(socket_buffer_is_small(5, 3));
    assert!(!socket_buffer_is_small(6, 3));
}

#[test]
fn lanes_are_taken_in_turn() {
    let mut dispatcher = Dispatcher::new(3);
    let mut framer = dispatcher.begin_session(8);
    let data = Header::new(MessageType::data(), 0, 0);
    let end = Header::new(MessageType::from_bits(24).unwrap(), 0, 0);
    let mut lanes = vec![];
    for _ in 0..7 {
        let (lane, last) = dispatcher.dispatch(&data);
        assert!(!last);
        lanes.push(lane);
    }
    assert_eq!(lanes, vec![0, 1, 2, 0, 1, 2, 0]);
    assert_eq!(dispatcher.dispatch(&end), (1, true));
    dispatcher.end_session();
    assert_eq!(dispatcher.session_id, 1);
    let (header, _) = framer.on_end();
    assert_eq!(header.session(), 0);

    // the next client starts at the first lane, in the next session
    let mut framer = dispatcher.begin_session(8);
    assert_eq!(dispatcher.dispatch(&data).0, 0);
    let (header, _) = framer.on_end();
    assert_eq!(header.session(), 1);
}

#[test]
fn a_single_lane_takes_everything() {
    let mut dispatcher = Dispatcher::new(1);
    let data = Header::new(MessageType::data(), 0, 0);
    for _ in 0..5 {
        assert_eq!(dispatcher.dispatch(&data), (0, false));
    }
}

#[test]
fn sessions_are_numbered_around_the_wrap() {
    let mut dispatcher = Dispatcher::new(2);
    for expected in 1..=255u8 {
        dispatcher.end_session();
        assert_eq!(dispatcher.session_id, expected);
    }
    dispatcher.end_session();
    assert_eq!(dispatcher.session_id, 0);
}

#[test]
fn control_messages() {
    let parameters = LidiParameters::new(60000, 6000, 100, 1500, 2);
    let (header, body) = init_message(&parameters);
    assert_eq!(header, Header::new(MessageType::init(), 0, 0));
    assert_eq!(LidiParameters::deserialize(&body), Ok(parameters));
    assert_eq!(body.len(), 19);
    let (header, body) = heartbeat_message();
    assert_eq!(header, Header::new(MessageType::heartbeat(), 0, 0));
    assert!(body.is_empty());
}

#[test]
fn a_lane_sends_every_packet_under_its_own_counter() {
    let info = object_transmission_information(1500, 10000);
    let encoding = Encoding::new(info, 1500);
    let data = build_random_data(info.transfer_length() as usize);
    let header = Header::new(MessageType::from_bits(12).unwrap(), 2, 7);
    let datagrams = lane_datagrams(&encoding, header, data.clone());
    let packets = encoding.encode(data, 7);
    assert_eq!(datagrams.len(), 7);
    for (i, (sent_under, packet)) in datagrams.iter().enumerate() {
        assert_eq!(sent_under.message_type().bits(), 12);
        assert_eq!(sent_under.session(), 2);
        assert_eq!(sent_under.block(), 7);
        assert_eq!(sent_under.seq() as usize, i + 1);
        assert_eq!(packet, &packets[i]);
        // header and packet fit a frame of 1500 bytes with its IP and UDP headers
        assert!(4 + packet.len() + 28 <= 1500);
    }
    assert!(lane_datagrams(&encoding, header, vec![]).is_empty());
}

#[test]
fn a_lane_counter_wraps() {
    let info = object_transmission_information(52, 16 * 300);
    let encoding = Encoding::new(info, 0);
    assert_eq!(encoding.capacity(), 300);
    let data = build_random_data(info.transfer_length() as usize);
    let datagrams = lane_datagrams(&encoding, Header::new(MessageType::data(), 0, 0), data);
    assert_eq!(datagrams.len(), 300);
    assert_eq!(datagrams[254].0.seq(), 255);
    assert_eq!(datagrams[255].0.seq(), 0);
    assert_eq!(datagrams[299].0.seq(), 44);
}

#[test]
fn throttle_starts_empty_and_fills_at_its_rate() {
    // 8000 bits per second: one byte per millisecond
    let mut throttle = Throttle::new_at(8000, 0);
    assert!(!throttle.try_acquire_at(0, 1));
    assert!(throttle.try_acquire_at(1, 1));
    assert!(!throttle.try_acquire_at(1, 1));
    assert!(!throttle.try_acquire_at(10, 10));
    assert!(throttle.try_acquire_at(11, 10));
    assert_eq!(throttle.current_tokens, 0);
    assert!(throttle.try_acquire_at(511, 100));
    assert_eq!(throttle.current_tokens, 400 * 8000);
}

#[test]
fn throttle_holds_one_second_of_budget() {
    let mut throttle = Throttle::new_at(8000, 0);
    throttle.refresh_at(600);
    throttle.refresh_at(1200);
    throttle.refresh_at(1800);
    assert_eq!(throttle.current_tokens, 8000 * 1000);
    assert!(throttle.can_admit(1000));
    assert!(!throttle.can_admit(1001));
    assert!(!throttle.try_acquire_at(1800, 1001));
    assert!(throttle.try_acquire_at(1800, 1000));
    assert_eq!(throttle.current_tokens, 0);
}

#[test]
fn throttle_gives_nothing_for_a_long_pause() {
    let mut throttle = Throttle::new_at(8000, 0);
    // more than a second went by: the time counts for nothing
    throttle.refresh_at(1001);
    assert_eq!(throttle.current_tokens, 0);
    assert_eq!(throttle.previous, 1001);
    // exactly a second fills the bucket
    throttle.refresh_at(2001);
    assert_eq!(throttle.current_tokens, 8000 * 1000);
    // a clock that goes back gives nothing either
    let mut throttle = Throttle::new_at(8000, 500);
    throttle.refresh_at(400);
    assert_eq!(throttle.current_tokens, 0);
}

#[test]
fn throttle_paces_a_stream() {
    // ten megabits per second, blocks of 50000 bytes, polled every 10 ms for 10 s
    let rate: u64 = 10_000_000;
    let mut throttle = Throttle::new_at(rate, 0);
    let mut passed_bits: u64 = 0;
    let mut window_bits: u64 = 0;
    let mut now = 0;
    while now < 10_000 {
        now += 10;
        if now % 100 == 10 {
            window_bits = 0;
        }
        while throttle.try_acquire_at(now, 50_000) {
            passed_bits += 400_000;
            window_bits += 400_000;
        }
        // no window of 100 ms sees more than twice the rate
        assert!(window_bits <= 2 * rate / 10);
    }
    let expected = rate * 10;
    assert!(passed_bits <= expected);
    assert!(passed_bits >= expected - expected / 20);
}

#[test]
fn throttle_on_its_own_clock() {
    // a bucket starts empty, whatever its rate
    let mut throttle = Throttle::new(u64::MAX);
    assert_eq!(throttle.current_tokens, 0);
    assert!(throttle.try_acquire(0));
    let mut throttle = Throttle::new(0);
    assert!(!throttle.try_acquire(1));
    assert!(throttle.try_acquire(0));
    assert!(!throttle.can_admit(1));
}
