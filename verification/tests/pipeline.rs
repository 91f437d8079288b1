use diode::config::MAX_MTU;
use diode::protocol::{object_transmission_information, LidiParameters, TransmissionInfo};
use diode::receive::egress::{Egress, EgressAction};
use diode::receive::packet::Packet;
use diode::receive::{Reassembler, Received, ReceiverBlock, ReceiverConfig};
use diode::send::encoding::Encoding;
use diode::send::{init_message, lane_datagrams, Dispatcher};
use diode::test::build_random_data;
use diode::udp::datagram;

/// A link in memory: the sender's datagrams, of which some are lost.
struct Link {
    info: TransmissionInfo,
    repair: u32,
    lanes: usize,
    datagrams: Vec<Vec<u8>>,
    dispatcher: Dispatcher,
}

impl Link {
    fn new(mtu: u16, block_size: u64, repair: u32, lanes: usize) -> Link {
        let info = object_transmission_information(mtu, block_size);
        let parameters = LidiParameters::new(block_size, repair, 100, mtu, lanes as u8);
        let (header, body) = init_message(&parameters);
        Link {
            info,
            repair,
            lanes,
            datagrams: vec![datagram(&header, &body)],
            dispatcher: Dispatcher::new(lanes),
        }
    }

    /// Sends one client's stream as one session, read in chunks of `chunk` bytes.
    fn send(&mut self, stream: &[u8], chunk: usize) {
        let encoding = Encoding::new(self.info, self.repair);
        let mut framer = self.dispatcher.begin_session(self.info.transfer_length() as u32);
        let mut used = vec![0usize; self.lanes];
        let mut at = 0;
        loop {
            let n = chunk.min(framer.room()).min(stream.len() - at);
            let message = if n == 0 { Some(framer.on_end()) } else { framer.on_read(&stream[at..at + n]) };
            at += n;
            if let Some((header, block)) = message {
                let (lane, last) = self.dispatcher.dispatch(&header);
                used[lane] += 1;
                for (header, packet) in lane_datagrams(&encoding, header, block) {
                    self.datagrams.push(datagram(&header, &packet));
                }
                if last {
                    break;
                }
            }
        }
        self.dispatcher.end_session();
        // no lane carries two blocks more than another
        let most = used.iter().max().unwrap();
        let least = used.iter().min().unwrap();
        assert!(most - least <= 1);
    }
}

/// Receives datagrams ten milliseconds apart and gives what is written
/// downstream, connection by connection, with the number of blocks lost.
fn receive(link: &Link, datagrams: &[Vec<u8>]) -> (Vec<Vec<u8>>, usize) {
    let parameters = LidiParameters::new(0, 0, 100, 0, 0);
    let mut state = Reassembler::new_at(link.info, link.repair, 5000, 1000, parameters, 0);
    let mut egress = Egress::new();
    let mut written: Vec<Vec<u8>> = vec![];
    let mut lost = 0;
    let mut deliver = |egress: &mut Egress, block: ReceiverBlock| {
        if egress.is_disconnected() {
            egress.connected();
            written.push(vec![]);
        }
        match egress.on_block(block.info()) {
            EgressAction::Skip => {}
            EgressAction::Abandon => {}
            EgressAction::Write { reconnect, .. } => {
                if reconnect {
                    written.push(vec![]);
                }
                written.last_mut().unwrap().extend_from_slice(block.payload().unwrap());
            }
        }
    };
    let mut now = 0;
    for bytes in datagrams {
        now += 10;
        let mut buf = [0u8; MAX_MTU];
        buf[..bytes.len()].copy_from_slice(bytes);
        let packet = Packet::from_datagram(buf, bytes.len()).ok().unwrap();
        if let Received::Complete { flags, session_id, block_id, packets } =
            state.on_packet_at(now, packet.header(), packet.payload())
        {
            let (block, _) =
                ReceiverConfig::decode(&state.decoding, flags, block_id, session_id, packets);
            lost += block.block.is_none() as usize;
            deliver(&mut egress, block);
        }
    }
    // the link falls silent: what is pending is released by its timeout
    now += 1000;
    while let Some((flags, session_id, block_id, packets)) = state.pop_expired_at(now) {
        let (block, _) =
            ReceiverConfig::decode(&state.decoding, flags, block_id, session_id, packets);
        lost += block.block.is_none() as usize;
        deliver(&mut egress, block);
    }
    written.retain(|connection| !connection.is_empty());
    (written, lost)
}

#[test]
fn happy_path_single_block() {
    let mut link = Link::new(1500, 60000, 6000, 1);
    // a block of 58560 bytes carries its length and up to 58556 stream bytes
    let stream = build_random_data(50000);
    link.send(&stream, 8192);
    // the announcement, then every source and repair packet of one block
    assert_eq!(link.datagrams.len(), 1 + 40 + 4);
    let (written, lost) = receive(&link, &link.datagrams);
    assert_eq!(lost, 0);
    assert_eq!(written, vec![stream]);
}

#[test]
fn a_stream_that_fills_its_last_block() {
    let mut link = Link::new(1500, 60000, 6000, 1);
    let stream = build_random_data(58556);
    link.send(&stream, 8192);
    // the full block goes out when it is full, and the end of the stream
    // takes a block of its own
    assert_eq!(link.datagrams.len(), 1 + 2 * (40 + 4));
    let (written, lost) = receive(&link, &link.datagrams);
    assert_eq!(lost, 0);
    assert_eq!(written, vec![stream]);
}

#[test]
fn a_stream_of_many_blocks_over_several_lanes() {
    let mut link = Link::new(1500, 10000, 1500, 3);
    let stream = build_random_data(60000);
    link.send(&stream, 1000);
    let (written, lost) = receive(&link, &link.datagrams);
    assert_eq!(lost, 0);
    assert_eq!(written, vec![stream]);
}

#[test]
fn a_stream_of_many_blocks_over_one_lane() {
    let mut link = Link::new(1500, 10000, 1500, 1);
    let stream = build_random_data(60000);
    link.send(&stream, 1000);
    let (written, lost) = receive(&link, &link.datagrams);
    assert_eq!(lost, 0);
    assert_eq!(written, vec![stream]);
}

#[test]
fn packet_loss_within_repair_budget() {
    let mut link = Link::new(1500, 10000, 1500, 1);
    let stream = build_random_data(20000);
    link.send(&stream, 4096);
    // six source packets and one repair packet per block: drop one source
    // packet of every block
    let mut datagrams = link.datagrams.clone();
    let blocks = (datagrams.len() - 1) / 7;
    for block in (0..blocks).rev() {
        datagrams.remove(1 + block * 7 + block % 6);
    }
    let (written, lost) = receive(&link, &datagrams);
    assert_eq!(lost, 0);
    assert_eq!(written, vec![stream]);
}

#[test]
fn packet_loss_beyond_repair_budget() {
    let mut link = Link::new(1500, 10000, 0, 1);
    let stream = build_random_data(8000);
    link.send(&stream, 4096);
    // six source packets and no repair: drop one packet
    assert_eq!(link.datagrams.len(), 1 + 6);
    let mut datagrams = link.datagrams.clone();
    datagrams.remove(3);
    let (written, lost) = receive(&link, &datagrams);
    assert_eq!(lost, 1);
    assert!(written.is_empty());
}

#[test]
fn packet_loss_in_the_last_block() {
    let mut link = Link::new(1500, 10000, 0, 1);
    let stream = build_random_data(12000);
    link.send(&stream, 4096);
    let mut datagrams = link.datagrams.clone();
    datagrams.pop();
    let (written, lost) = receive(&link, &datagrams);
    assert_eq!(lost, 1);
    // the first block went through; the session was given up at the second
    assert_eq!(written, vec![stream[..8780].to_vec()]);
}

#[test]
fn session_restart() {
    let mut link = Link::new(1500, 10000, 1500, 1);
    let first = build_random_data(30000);
    let second: Vec<u8> = build_random_data(12000).iter().map(|byte| byte ^ 0x5a).collect();
    link.send(&first, 4096);
    let cut = 1 + 2 * 7;
    let mut datagrams = link.datagrams[..cut].to_vec();
    let before = link.datagrams.len();
    link.send(&second, 4096);
    // the first session breaks off after two blocks; the next one follows
    datagrams.extend_from_slice(&link.datagrams[before..]);
    let (written, lost) = receive(&link, &datagrams);
    assert_eq!(lost, 0);
    assert_eq!(written, vec![first[..2 * 8780].to_vec(), second]);
}

#[test]
fn duplicated_and_reordered_datagrams() {
    let mut link = Link::new(1500, 10000, 1500, 1);
    let stream = build_random_data(8000);
    link.send(&stream, 4096);
    let mut datagrams = link.datagrams.clone();
    // the packets of the block arrive backwards, some of them twice
    datagrams[1..8].reverse();
    datagrams.insert(3, datagrams[2].clone());
    datagrams.insert(6, datagrams[5].clone());
    let (written, lost) = receive(&link, &datagrams);
    assert_eq!(lost, 0);
    assert_eq!(written, vec![stream]);
}
