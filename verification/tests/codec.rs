use diode::protocol::{
    block_size_is_valid, nb_encoding_packets, nb_repair_packets, object_transmission_information,
};
use diode::receive::decoding::Decoding;
use diode::send::encoding::Encoding;
use diode::test::{build_random_data, build_random_message};

#[test]
fn test_encode() {
    // transmission properties, set by user
    let mtu = 1500;
    let block_size = 60000;
    let repair_block_size = 6000;

    let object_transmission_info = object_transmission_information(mtu, block_size);

    let real_data_size = object_transmission_info.transfer_length() as usize;
    let (_header, payload) = build_random_message(real_data_size);

    let original_data = payload.clone();

    let encoding = Encoding::new(object_transmission_info, repair_block_size);

    let block_id = 0;
    let packets = encoding.encode(payload, block_id);

    let nb_normal_packets = nb_encoding_packets(&object_transmission_info);
    let nb_repair_packets = nb_repair_packets(&object_transmission_info, repair_block_size);
    let nb_packets = nb_normal_packets + nb_repair_packets as u64;
    let decoder = Decoding::new(object_transmission_info, nb_packets as _);

    let decoded_data = decoder.decode(packets, block_id).unwrap();

    assert_eq!(original_data, decoded_data);
}

#[test]
fn test_decode_data_missing_packet_fail() {
    let mtu = 1500;
    let block_size = 10000;
    let repair_block_size = 0;

    let object_transmission_info = object_transmission_information(mtu, block_size);

    let real_data_size = object_transmission_info.transfer_length() as usize;
    let (_header, payload) = build_random_message(real_data_size);

    let encoding = Encoding::new(object_transmission_info, repair_block_size);

    let block_id = 0;
    let mut packets = encoding.encode(payload, block_id);

    assert!(packets.len() == 6);

    // remove one packet
    let _ = packets.pop().unwrap();

    // now decode : must fail
    let nb_normal_packets = nb_encoding_packets(&object_transmission_info);
    let nb_repair_packets = nb_repair_packets(&object_transmission_info, repair_block_size);
    let nb_packets = nb_normal_packets + nb_repair_packets as u64;
    let decoder = Decoding::new(object_transmission_info, nb_packets as _);

    let ret = decoder.decode(packets, block_id);
    assert!(ret.is_none());
}

#[test]
fn test_decode_data_missing_packet_with_repair_success() {
    let mtu = 1500;
    let block_size = 10000;
    let repair_block_size = 1500;

    let object_transmission_info = object_transmission_information(mtu, block_size);

    let real_data_size = object_transmission_info.transfer_length() as usize;
    let (_header, payload) = build_random_message(real_data_size);

    let encoding = Encoding::new(object_transmission_info, repair_block_size);

    let original_data = payload.clone();

    let block_id = 0;
    let mut packets = encoding.encode(payload, block_id);

    assert!(packets.len() == 7);

    // remove one packet
    let _ = packets.pop().unwrap();

    let nb_normal_packets = nb_encoding_packets(&object_transmission_info);
    let nb_repair_packets = nb_repair_packets(&object_transmission_info, repair_block_size);
    let nb_packets = nb_normal_packets + nb_repair_packets as u64;
    let decoder = Decoding::new(object_transmission_info, nb_packets as _);

    let decoded_data = decoder.decode(packets, block_id).unwrap();

    assert_eq!(original_data, decoded_data);
}

#[test]
fn test_decode_data_corruption_without_repair_block() {
    let mtu = 1500;
    let block_size = 10000;
    let repair_block_size = 0;

    let object_transmission_info = object_transmission_information(mtu, block_size);

    let real_data_size = object_transmission_info.transfer_length() as usize;
    let (_header, payload) = build_random_message(real_data_size);

    let original_data = payload.clone();

    let encoding = Encoding::new(object_transmission_info, repair_block_size);

    let block_id = 0;
    let mut packets = encoding.encode(payload, block_id);

    assert!(packets.len() == 6);

    // corrupt a packet: its identifier is kept, the head of its data is zeroed
    let mut corrupted_packet = packets.pop().unwrap();
    corrupted_packet[4] = 0;
    corrupted_packet[5] = 0;
    corrupted_packet[6] = 0;
    corrupted_packet[7] = 0;
    packets.push(corrupted_packet);

    let nb_normal_packets = nb_encoding_packets(&object_transmission_info);
    let nb_repair_packets = nb_repair_packets(&object_transmission_info, repair_block_size);
    let nb_packets = nb_normal_packets + nb_repair_packets as u64;
    let decoder = Decoding::new(object_transmission_info, nb_packets as _);

    let decoded_data = decoder.decode(packets, block_id).unwrap();

    // the codec rebuilds a block, but not the one that was sent: integrity is
    // left to the UDP checksum, which drops such a packet before it gets here
    assert_ne!(original_data, decoded_data);
}

#[test]
fn test_decode_data_corruption_with_repair_block() {
    let mtu = 1500;
    let block_size = 10000;
    let repair_block_size = 1500;

    let object_transmission_info = object_transmission_information(mtu, block_size);

    let real_data_size = object_transmission_info.transfer_length() as usize;
    let (_header, payload) = build_random_message(real_data_size);

    let original_data = payload.clone();

    let encoding = Encoding::new(object_transmission_info, repair_block_size);

    let block_id = 0;
    let mut packets = encoding.encode(payload, block_id);

    assert!(packets.len() == 7);

    // corrupt the last packet, a repair packet
    let mut corrupted_packet = packets.pop().unwrap();
    corrupted_packet[4] = 0;
    corrupted_packet[5] = 0;
    corrupted_packet[6] = 0;
    corrupted_packet[7] = 0;
    packets.push(corrupted_packet);

    let nb_normal_packets = nb_encoding_packets(&object_transmission_info);
    let nb_repair_packets = nb_repair_packets(&object_transmission_info, repair_block_size);
    let nb_packets = nb_normal_packets + nb_repair_packets as u64;
    let decoder = Decoding::new(object_transmission_info, nb_packets as _);

    let decoded_data = decoder.decode(packets, block_id).unwrap();

    // all source packets are intact, so the block is the one that was sent
    assert_eq!(original_data, decoded_data);
}

#[test]
fn block_shape_for_common_links() {
    let info = object_transmission_information(1500, 60000);
    assert_eq!(info.symbol_size(), 1464);
    assert_eq!(nb_encoding_packets(&info), 40);
    assert_eq!(info.transfer_length(), 58560);
    assert_eq!(nb_repair_packets(&info, 6000), 4);

    let info = object_transmission_information(1500, 10000);
    assert_eq!(nb_encoding_packets(&info), 6);
    assert_eq!(info.transfer_length(), 8784);
    assert_eq!(nb_repair_packets(&info, 1500), 1);
    assert_eq!(nb_repair_packets(&info, 0), 0);

    let info = object_transmission_information(9000, 1_000_000);
    assert_eq!(info.symbol_size(), 8960);
    assert_eq!(nb_encoding_packets(&info), 111);

    let info = object_transmission_information(44, 8);
    assert_eq!(info.symbol_size(), 8);
    assert_eq!(info.transfer_length(), 8);
}

#[test]
fn block_size_validity() {
    assert!(block_size_is_valid(1500, 60000));
    assert!(block_size_is_valid(44, 8));
    assert!(!block_size_is_valid(43, 60000));
    assert!(!block_size_is_valid(0, 60000));
    assert!(!block_size_is_valid(1500, 1463));
    assert!(block_size_is_valid(1500, 1464));
    assert!(block_size_is_valid(1500, 1464 * 56403 + 1463));
    assert!(!block_size_is_valid(1500, 1464 * 56404));
}

#[test]
fn encoded_packets_have_one_size_and_name_their_block() {
    let info = object_transmission_information(1500, 10000);
    let encoding = Encoding::new(info, 3000);
    assert_eq!(encoding.capacity(), 8);
    let data = build_random_data(info.transfer_length() as usize);
    let packets = encoding.encode(data.clone(), 9);
    assert_eq!(packets.len(), 8);
    for (i, packet) in packets.iter().enumerate() {
        assert_eq!(packet.len(), 4 + 1464);
        assert_eq!(packet[0], 9);
        assert_eq!(packet[3] as usize, i);
    }
    // source packets carry the block itself
    assert_eq!(&packets[0][4..], &data[..1464]);
    assert_eq!(&packets[5][4..], &data[5 * 1464..]);
    // repair packets differ from the data they protect
    assert_ne!(&packets[6][4..], &data[..1464]);
}

#[test]
fn decode_refuses_foreign_packets() {
    let info = object_transmission_information(1500, 10000);
    let encoding = Encoding::new(info, 1500);
    let data = build_random_data(info.transfer_length() as usize);
    let decoder = Decoding::new(info, 7);

    // a packet of another block
    let mut packets = encoding.encode(data.clone(), 0);
    packets[6][0] = 1;
    assert!(!decoder.all_acceptable(&packets, 0));
    assert!(decoder.decode(packets, 0).is_none());

    // a packet cut short
    let mut packets = encoding.encode(data.clone(), 0);
    packets[6].pop();
    assert!(decoder.decode(packets, 0).is_none());

    // a packet with no room for an identifier
    let mut packets = encoding.encode(data.clone(), 0);
    packets[6] = vec![0, 0];
    assert!(decoder.decode(packets, 0).is_none());

    // packets decoded under the wrong block number
    let packets = encoding.encode(data.clone(), 0);
    assert!(decoder.decode(packets, 1).is_none());

    // the same packets, left alone
    let packets = encoding.encode(data.clone(), 0);
    assert!(decoder.all_acceptable(&packets, 0));
    assert_eq!(decoder.decode(packets, 0), Some(data));
}

#[test]
fn decode_with_any_source_packet_lost() {
    let info = object_transmission_information(1500, 10000);
    let encoding = Encoding::new(info, 3000);
    let data = build_random_data(info.transfer_length() as usize);
    let decoder = Decoding::new(info, 8);
    for lost in 0..6 {
        let mut packets = encoding.encode(data.clone(), 3);
        packets.remove(lost);
        assert_eq!(decoder.decode(packets, 3), Some(data.clone()));
    }
    // too few packets of any kind
    let mut packets = encoding.encode(data.clone(), 3);
    packets.truncate(5);
    assert_eq!(decoder.decode(packets, 3), None);
    let mut packets = encoding.encode(data.clone(), 3);
    packets.drain(0..3);
    assert_eq!(decoder.decode(packets, 3), None);
}

#[test]
fn sample_data_is_repeatable() {
    let a = build_random_data(1000);
    let b = build_random_data(1000);
    assert_eq!(a.len(), 1000);
    assert_eq!(a, b);
    assert!(a.iter().any(|byte| *byte != a[0]));
    assert_eq!(build_random_data(0).len(), 0);
    let (header, data) = build_random_message(12);
    assert_eq!(header.message_type().bits(), 8);
    assert_eq!(header.session(), 0);
    assert_eq!(header.block(), 0);
    assert_eq!(header.seq(), 0);
    assert_eq!(data.len(), 12);
}

#[test]
fn source_packets_alone_rebuild_the_block() {
    let info = object_transmission_information(1500, 10000);
    let encoding = Encoding::new(info, 3000);
    let data = build_random_data(info.transfer_length() as usize);
    let decoder = Decoding::new(info, 8);

    // the source packets, backwards
    let mut packets = encoding.encode(data.clone(), 3);
    packets.truncate(6);
    packets.reverse();
    assert_eq!(decoder.decode(packets, 3), Some(data.clone()));

    // every packet twice, repair packets first
    let mut packets = encoding.encode(data.clone(), 3);
    packets.rotate_left(6);
    let again = packets.clone();
    packets.extend(again);
    assert_eq!(decoder.decode(packets, 3), Some(data.clone()));
}

#[test]
fn the_first_packet_of_a_number_counts() {
    let info = object_transmission_information(1500, 10000);
    let encoding = Encoding::new(info, 0);
    let data = build_random_data(info.transfer_length() as usize);
    let decoder = Decoding::new(info, 6);
    let packets = encoding.encode(data.clone(), 0);
    let mut garbled = packets[2].clone();
    garbled[100] ^= 0xff;

    // a garbled copy that comes after the packet itself changes nothing
    let mut received = packets.clone();
    received.push(garbled.clone());
    assert_eq!(decoder.decode(received, 0), Some(data.clone()));

    // a garbled copy that comes first is what the block is made of
    let mut received = packets.clone();
    received.insert(0, garbled);
    let mut expected = data.clone();
    expected[2 * 1464 + 96] ^= 0xff;
    assert_eq!(decoder.decode(received, 0), Some(expected));
}

#[test]
fn packets_are_numbered_in_order() {
    let info = object_transmission_information(52, 16 * 300);
    let encoding = Encoding::new(info, 16 * 5);
    let data = build_random_data(info.transfer_length() as usize);
    let packets = encoding.encode(data.clone(), 200);
    assert_eq!(packets.len(), 305);
    for (i, packet) in packets.iter().enumerate() {
        assert_eq!(packet.len(), 20);
        assert_eq!(&packet[..4], &[200, 0, (i / 256) as u8, (i % 256) as u8]);
        if i < 300 {
            assert_eq!(&packet[4..], &data[16 * i..16 * (i + 1)]);
        }
    }
}

#[test]
fn a_block_of_many_symbols_survives_the_loss_of_source_packets() {
    let info = object_transmission_information(100, 64 * 400);
    assert_eq!(info.symbol_size(), 64);
    let encoding = Encoding::new(info, 64 * 10);
    let data = build_random_data(info.transfer_length() as usize);
    let mut packets = encoding.encode(data.clone(), 1);
    assert_eq!(packets.len(), 410);
    for lost in [399, 250, 100, 0] {
        packets.remove(lost);
    }
    let decoder = Decoding::new(info, 410);
    assert_eq!(decoder.decode(packets, 1), Some(data));
}
