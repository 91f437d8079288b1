use diode::clock::{time_value, Clock};
use diode::protocol::{
    data_mtu, push_be32, read_be32, to_vec, Header, LidiParameters, MessageType, ProtocolError,
    FIRST_BLOCK_ID, FIRST_SESSION_ID, HEADER_SIZE, PARAMETERS_SIZE, PAYLOAD_OVERHEAD,
};
use diode::receive::packet::Packet;
use diode::udp::{datagram, receive_buffer_is_small};

fn flags(bits: u8) -> MessageType {
    MessageType::from_bits(bits).unwrap()
}

#[test]
fn constants_of_the_wire_format() {
    assert_eq!(HEADER_SIZE, 4);
    assert_eq!(PARAMETERS_SIZE, 19);
    assert_eq!(PAYLOAD_OVERHEAD, 4);
    assert_eq!(FIRST_BLOCK_ID, 0);
    assert_eq!(FIRST_SESSION_ID, 0);
    assert_eq!(Header::serialize_overhead(), 4);
    assert_eq!(MessageType::init().bits(), 1);
    assert_eq!(MessageType::heartbeat().bits(), 2);
    assert_eq!(MessageType::start().bits(), 4);
    assert_eq!(MessageType::data().bits(), 8);
    assert_eq!(MessageType::end().bits(), 16);
    assert_eq!(MessageType::empty().bits(), 0);
}

#[test]
fn flags_combine() {
    let first = MessageType::start().union(MessageType::data());
    assert_eq!(first.bits(), 12);
    assert!(first.contains(MessageType::start()));
    assert!(first.contains(MessageType::data()));
    assert!(!first.contains(MessageType::end()));
    assert!(first.contains(MessageType::empty()));
    let whole = first.union(MessageType::end());
    assert_eq!(whole.bits(), 28);
    assert!(whole.contains(first));
    assert!(!first.contains(whole));
    assert_eq!(MessageType::from_bits(31), Some(flags(31)));
    assert_eq!(MessageType::from_bits(0), Some(MessageType::empty()));
    assert_eq!(MessageType::from_bits(32), None);
    assert_eq!(MessageType::from_bits(0x8c), None);
    assert_eq!(MessageType::from_bits(255), None);
}

#[test]
fn header_layout() {
    let mut header = Header::new(flags(12), 7, 9);
    assert_eq!(header.seq(), 0);
    assert_eq!(header.serialized(), [12, 7, 9, 0]);
    header.incr_seq();
    assert_eq!(header.serialized(), [12, 7, 9, 1]);
    assert_eq!(header.message_type(), flags(12));
    assert_eq!(header.session(), 7);
    assert_eq!(header.block(), 9);
}

#[test]
fn header_counter_wraps() {
    let mut header = Header::new(MessageType::data(), 0, 0);
    for expected in 1..=255u8 {
        header.incr_seq();
        assert_eq!(header.seq(), expected);
    }
    header.incr_seq();
    assert_eq!(header.seq(), 0);
}

#[test]
fn header_round_trip_for_all_known_flags() {
    for bits in 0..32u8 {
        for (session, block, seq) in [(0u8, 0u8, 0u8), (255, 255, 255), (1, 200, 17)] {
            let mut header = Header::new(flags(bits), session, block);
            for _ in 0..seq {
                header.incr_seq();
            }
            let wire = header.serialized();
            assert_eq!(Header::deserialize(&wire), Ok(header));
            let mut longer = wire.to_vec();
            longer.extend_from_slice(&[9, 9, 9]);
            assert_eq!(Header::deserialize(&longer), Ok(header));
        }
    }
}

#[test]
fn header_refused() {
    assert_eq!(Header::deserialize(&[]), Err(ProtocolError::MalformedHeader));
    assert_eq!(Header::deserialize(&[8, 0, 0]), Err(ProtocolError::MalformedHeader));
    assert_eq!(Header::deserialize(&[32, 0, 0, 0]), Err(ProtocolError::MalformedHeader));
    assert_eq!(Header::deserialize(&[0x48, 0, 0, 0, 1, 2]), Err(ProtocolError::MalformedHeader));
    assert!(Header::deserialize(&[8, 0, 0, 0]).is_ok());
}

#[test]
fn parameters_layout() {
    let parameters = LidiParameters::new(0x0102_0304_0506_0708, 0x0a0b_0c0d, 0x1122_3344, 0x5566, 0x77);
    assert_eq!(
        parameters.serialize(),
        vec![1, 2, 3, 4, 5, 6, 7, 8, 0x0a, 0x0b, 0x0c, 0x0d, 0x11, 0x22, 0x33, 0x44, 0x55, 0x66, 0x77]
    );
    assert_eq!(parameters.heartbeat_interval(), 0x1122_3344);
    let common = LidiParameters::new(60000, 6000, 100, 1500, 2);
    assert_eq!(
        common.serialize(),
        vec![0, 0, 0, 0, 0, 0, 0xea, 0x60, 0, 0, 0x17, 0x70, 0, 0, 0, 100, 5, 0xdc, 2]
    );
}

#[test]
fn parameters_round_trip() {
    let samples = [
        LidiParameters::new(0, 0, 0, 0, 0),
        LidiParameters::new(u64::MAX, u32::MAX, u32::MAX, u16::MAX, u8::MAX),
        LidiParameters::new(60000, 6000, 100, 1500, 2),
        LidiParameters::new(1 << 40, 1 << 31, 1 << 16, 9000, 20),
    ];
    for parameters in samples {
        let wire = parameters.serialize();
        assert_eq!(wire.len(), 19);
        assert_eq!(LidiParameters::deserialize(&wire), Ok(parameters));
        let mut longer = wire.clone();
        longer.push(1);
        assert_eq!(LidiParameters::deserialize(&longer), Ok(parameters));
    }
}

#[test]
fn parameters_refused() {
    assert_eq!(LidiParameters::deserialize(&[]), Err(ProtocolError::MalformedParameters));
    assert_eq!(LidiParameters::deserialize(&[0; 18]), Err(ProtocolError::MalformedParameters));
    assert_eq!(LidiParameters::deserialize(&[0; 19]), Ok(LidiParameters::new(0, 0, 0, 0, 0)));
}

#[test]
fn datagram_is_header_then_payload() {
    let header = Header::new(flags(24), 3, 4);
    let bytes = datagram(&header, &[10, 20, 30]);
    assert_eq!(bytes, vec![24, 3, 4, 0, 10, 20, 30]);
    assert_eq!(datagram(&header, &[]), vec![24, 3, 4, 0]);
}

#[test]
fn packet_from_datagram() {
    let header = Header::new(flags(8), 3, 4);
    let bytes = datagram(&header, &[10, 20, 30]);
    let mut buf = [0u8; 9000];
    buf[..bytes.len()].copy_from_slice(&bytes);
    let packet = Packet::from_datagram(buf, bytes.len()).ok().unwrap();
    assert_eq!(*packet.header(), header);
    assert_eq!(packet.payload(), &[10, 20, 30]);

    let packet = Packet::new(buf, 4, header);
    assert_eq!(packet.payload().len(), 0);
    let packet = Packet::new(buf, 9000, header);
    assert_eq!(packet.payload().len(), 8996);

    // what lies beyond the filled part is not read as a header
    assert!(matches!(Packet::from_datagram(buf, 3), Err(ProtocolError::MalformedHeader)));
    assert!(matches!(Packet::from_datagram(buf, 0), Err(ProtocolError::MalformedHeader)));
    assert!(matches!(Packet::from_datagram(buf, 9001), Err(ProtocolError::MalformedHeader)));
    buf[0] = 0x80;
    assert!(matches!(Packet::from_datagram(buf, 7), Err(ProtocolError::MalformedHeader)));
}

#[test]
fn receive_buffer_heuristic() {
    assert!(receive_buffer_is_small(0, 1));
    assert!(receive_buffer_is_small(329_999, 66_000));
    assert!(!receive_buffer_is_small(330_000, 66_000));
    assert!(!receive_buffer_is_small(0, 0));
    assert!(receive_buffer_is_small(usize::MAX, u64::MAX));
}

#[test]
fn big_endian_numbers() {
    let mut out = vec![9];
    push_be32(&mut out, 0x0102_0304);
    push_be32(&mut out, 0);
    push_be32(&mut out, u32::MAX);
    assert_eq!(out, vec![9, 1, 2, 3, 4, 0, 0, 0, 0, 255, 255, 255, 255]);
    assert_eq!(read_be32(&out, 1), 0x0102_0304);
    assert_eq!(read_be32(&out, 5), 0);
    assert_eq!(read_be32(&out, 9), u32::MAX);
    assert_eq!(read_be32(&out, 0), 0x0901_0203);
    assert_eq!(to_vec(&out[1..5]), vec![1, 2, 3, 4]);
    assert_eq!(to_vec(&[]), Vec::<u8>::new());
}

#[test]
fn symbol_size_for_an_mtu() {
    assert_eq!(data_mtu(1500), 1464);
    assert_eq!(data_mtu(9000), 8960);
    assert_eq!(data_mtu(44), 8);
    assert_eq!(data_mtu(51), 8);
    assert_eq!(data_mtu(52), 16);
    assert_eq!(data_mtu(43), 0);
    assert_eq!(data_mtu(36), 0);
    assert_eq!(data_mtu(u16::MAX), 65496);
}

#[test]
fn clock_does_not_go_back() {
    let clock = Clock::new();
    let first = clock.now_ms();
    let second = clock.now_ms();
    assert!(first <= second);
    // a stopwatch that was just started has not run for a minute
    assert!(second < 60_000);
}

#[test]
fn time_values_stop_at_the_largest() {
    assert_eq!(time_value(0), 0);
    assert_eq!(time_value(1_500), 1_500);
    assert_eq!(time_value(u64::MAX as u128), u64::MAX);
    assert_eq!(time_value(u64::MAX as u128 + 1), u64::MAX);
    assert_eq!(time_value(u128::MAX), u64::MAX);
}
