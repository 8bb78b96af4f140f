use commlib::ids::ConnId;
use commlib::net_packet_encdec::{
    add_packet_no, check_packet, decode_packet, decrypt_packet, encode_packet, encrypt_packet,
    read_client_packet, read_client_ws_packet, read_robot_packet, read_robot_ws_packet,
    read_server_packet, write_client_packet, write_client_ws_packet, write_robot_packet,
    write_robot_ws_packet, write_server_packet, EncryptData, EncryptTable, NetPacket,
};
use commlib::packet::{get_leading_field_size, PacketType};
use commlib::packet_builder::{PacketBuilder, PacketResult, WsPacketBuilder, WsPacketResult};

fn key64() -> String {
    let mut s = String::new();
    for i in 0..64u8 {
        s.push((b'A' + (i % 26)) as char);
    }
    s
}

#[test]
fn ids_to_text() {
    assert_eq!(ConnId::from(0usize).to_string(), "0");
    assert_eq!(ConnId::from(1234567usize).to_string(), "1234567");
}

#[test]
fn leading_field_size_per_type() {
    assert_eq!(get_leading_field_size(PacketType::Client), 2);
    assert_eq!(get_leading_field_size(PacketType::Server), 4);
    assert_eq!(get_leading_field_size(PacketType::Robot), 4);
    assert_eq!(get_leading_field_size(PacketType::ClientWs), 4);
}

#[test]
fn encrypt_xors_cmd_and_first_body_bytes() {
    let key = key64();
    let mut data = vec![0u8; 10];
    encrypt_packet(&mut data, 8, &key, 3);
    // six bytes obfuscated with key bytes 3..9, the rest untouched
    assert_eq!(&data[..6], &key.as_bytes()[3..9]);
    assert_eq!(&data[6..], &[0u8; 4]);
    decrypt_packet(&mut data, 8, &key, 3);
    assert_eq!(data, vec![0u8; 10]);
}

#[test]
fn encrypt_short_body_and_key_end() {
    let key = key64();
    // body of one byte: cmd (2) + 1 byte
    let mut data = vec![0u8; 5];
    encrypt_packet(&mut data, 1, &key, 0);
    assert_eq!(&data[..3], &key.as_bytes()[..3]);
    assert_eq!(&data[3..], &[0u8, 0u8]);
    // number 62: only two key bytes are left
    let mut data = vec![0u8; 8];
    encrypt_packet(&mut data, 6, &key, 62);
    assert_eq!(&data[..2], &key.as_bytes()[62..64]);
    assert_eq!(&data[2..], &[0u8; 6]);
}

#[test]
fn server_packet_roundtrip() {
    let mut pkt = NetPacket::new(0x1234, vec![1, 2, 3]);
    write_server_packet(&mut pkt);
    assert_eq!(pkt.buffer, vec![0, 0, 0, 9, 0x12, 0x34, 1, 2, 3]);
    let mut back = NetPacket::new(0, pkt.buffer.clone());
    read_server_packet(&mut back);
    assert_eq!(back.cmd, 0x1234);
    assert_eq!(back.body_size, 3);
    assert_eq!(back.buffer, vec![1, 2, 3]);
}

#[test]
fn client_to_robot_roundtrip() {
    let mut pkt = NetPacket::new(7, vec![9, 8]);
    write_client_packet(&mut pkt);
    assert_eq!(pkt.buffer, vec![0, 0, 0, 8, 0, 7, 9, 8]);
    let mut back = NetPacket::new(0, pkt.buffer.clone());
    read_robot_packet(&mut back);
    assert_eq!((back.cmd, back.body_size, back.buffer.clone()), (7, 2, vec![9, 8]));
}

#[test]
fn robot_to_client_roundtrip_with_key() {
    let key = key64();
    let mut pkt = NetPacket::new(0x0102, vec![10, 20, 30, 40, 50]);
    pkt.client_no = 5;
    write_robot_packet(&mut pkt, &key);
    // length 5 + 5, number, obfuscated cmd and first four body bytes
    assert_eq!(&pkt.buffer[..3], &[0, 10, 5]);
    assert_ne!(&pkt.buffer[3..5], &[1, 2]);
    assert_eq!(pkt.buffer[9], 50);
    let mut back = NetPacket::new(0, pkt.buffer.clone());
    read_client_packet(&mut back, &key);
    assert_eq!(back.cmd, 0x0102);
    assert_eq!(back.client_no, 5);
    assert_eq!(back.body_size, 5);
    assert_eq!(back.buffer, vec![10, 20, 30, 40, 50]);
}

#[test]
fn ws_roundtrips() {
    let key = key64();
    let mut pkt = NetPacket::new(0xabcd, vec![1, 2, 3]);
    write_client_ws_packet(&mut pkt);
    assert_eq!(pkt.buffer, vec![0xab, 0xcd, 1, 2, 3]);
    let mut back = NetPacket::new(0, pkt.buffer.clone());
    read_robot_ws_packet(&mut back);
    assert_eq!((back.cmd, back.body_size, back.buffer.clone()), (0xabcd, 3, vec![1, 2, 3]));

    let mut pkt = NetPacket::new(0x0203, vec![4, 5]);
    pkt.client_no = 60;
    write_robot_ws_packet(&mut pkt, &key);
    assert_eq!(pkt.buffer[0], 60);
    let mut back = NetPacket::new(0, pkt.buffer.clone());
    read_client_ws_packet(&mut back, &key);
    assert_eq!((back.cmd, back.client_no, back.buffer.clone()), (0x0203, 60, vec![4, 5]));
}

#[test]
fn check_packet_rules() {
    assert!(check_packet(PacketType::Client, &vec![0, 5, 1, 0, 2]));
    assert!(!check_packet(PacketType::Client, &vec![0, 6, 1, 0, 2]));
    assert!(!check_packet(PacketType::Client, &vec![0, 4, 1, 0]));
    assert!(check_packet(PacketType::ClientWs, &vec![1, 0, 2]));
    assert!(!check_packet(PacketType::ClientWs, &vec![1, 0]));
}

#[test]
fn add_packet_no_refuses_repeats_and_out_of_key() {
    let mut e = EncryptData { no_list: Vec::new(), encrypt_key: key64() };
    assert!(add_packet_no(&mut e, 3));
    assert_eq!(e.no_list, vec![3]);
    assert!(!add_packet_no(&mut e, 3));
    assert!(add_packet_no(&mut e, 4));
    assert_eq!(e.no_list, vec![4]);
    assert!(!add_packet_no(&mut e, 64));
    assert!(add_packet_no(&mut e, 3));
}

#[test]
fn encode_then_decode_through_tables() {
    let key = key64();
    let hd = ConnId::from(7usize);
    let mut robot_table = EncryptTable::new();
    let _ = robot_table.insert(hd, EncryptData { no_list: Vec::new(), encrypt_key: key.clone() });
    let mut server_table = EncryptTable::new();
    let _ = server_table.insert(hd, EncryptData { no_list: Vec::new(), encrypt_key: key.clone() });

    let mut pkt = NetPacket::new(0x0a0b, vec![1, 2, 3, 4, 5, 6]);
    assert!(encode_packet(PacketType::Robot, hd, &mut pkt, &mut robot_table));
    let no = pkt.client_no;
    assert!((0..63).contains(&no));

    let mut rx = NetPacket::new(0, pkt.buffer.clone());
    assert!(decode_packet(PacketType::Client, hd, &mut rx, &mut server_table));
    assert_eq!(rx.cmd, 0x0a0b);
    assert_eq!(rx.client_no, no);
    assert_eq!(rx.buffer, vec![1, 2, 3, 4, 5, 6]);

    // the same packet again is a replay: refused
    let mut again = NetPacket::new(0, pkt.buffer.clone());
    assert!(!decode_packet(PacketType::Client, hd, &mut again, &mut server_table));
}

#[test]
fn decode_without_state_or_incomplete_fails() {
    let hd = ConnId::from(1usize);
    let mut table = EncryptTable::new();
    let mut pkt = NetPacket::new(0, vec![0, 5, 1, 0, 2]);
    assert!(!decode_packet(PacketType::Client, hd, &mut pkt, &mut table));
    assert_eq!(pkt.buffer, vec![0, 5, 1, 0, 2]);
    let _ = table.insert(hd, EncryptData { no_list: Vec::new(), encrypt_key: key64() });
    let mut short = NetPacket::new(0, vec![0, 9, 1, 0, 2]);
    assert!(!decode_packet(PacketType::Client, hd, &mut short, &mut table));
    let mut robot = NetPacket::new(0, vec![1, 2, 3]);
    assert!(!encode_packet(PacketType::Robot, ConnId::from(2usize), &mut robot, &mut table));
    assert_eq!(robot.buffer, vec![1, 2, 3]);
}

#[test]
fn server_types_always_code() {
    let hd = ConnId::from(3usize);
    let mut table = EncryptTable::new();
    let mut pkt = NetPacket::new(5, vec![7]);
    assert!(encode_packet(PacketType::Server, hd, &mut pkt, &mut table));
    assert!(decode_packet(PacketType::Server, hd, &mut pkt, &mut table));
    assert_eq!((pkt.cmd, pkt.buffer.clone()), (5, vec![7]));
    let mut ws = NetPacket::new(6, vec![8]);
    assert!(encode_packet(PacketType::ClientWs, hd, &mut ws, &mut table));
    assert!(decode_packet(PacketType::RobotWs, hd, &mut ws, &mut table));
    assert_eq!((ws.cmd, ws.buffer.clone()), (6, vec![8]));
}

#[test]
fn packet_builder_splits_frames_across_chunks() {
    let mut b = PacketBuilder::new();
    match b.build_once(&[0, 0, 0, 6, 1], 4) {
        PacketResult::Ready(v) => assert!(v.is_empty()),
        PacketResult::Abort(_) => panic!("unexpected abort"),
    }
    match b.build_once(&[2, 0, 0, 0, 6, 9], 4) {
        PacketResult::Ready(v) => assert_eq!(v, vec![vec![0, 0, 0, 6, 1, 2]]),
        PacketResult::Abort(_) => panic!("unexpected abort"),
    }
    match b.build_once(&[], 4) {
        PacketResult::Ready(v) => assert!(v.is_empty()),
        PacketResult::Abort(_) => panic!("unexpected abort"),
    }
    match b.build_once(&[8], 4) {
        PacketResult::Ready(v) => assert_eq!(v, vec![vec![0, 0, 0, 6, 9, 8]]),
        PacketResult::Abort(_) => panic!("unexpected abort"),
    }
}

#[test]
fn packet_builder_two_byte_field_and_overflow() {
    let mut b = PacketBuilder::new();
    match b.build_once(&[0, 3, 7, 0, 2], 2) {
        PacketResult::Ready(v) => assert_eq!(v, vec![vec![0, 3, 7], vec![0, 2]]),
        PacketResult::Abort(_) => panic!("unexpected abort"),
    }
    let mut z = PacketBuilder::new();
    match z.build_once(&[0, 0], 2) {
        PacketResult::Abort(msg) => assert_eq!(msg, "overflow"),
        PacketResult::Ready(_) => panic!("zero length must abort"),
    }
    match z.build_once(&[0, 3, 1], 2) {
        PacketResult::Abort(msg) => assert_eq!(msg, "overflow"),
        PacketResult::Ready(_) => panic!("an aborted builder stays aborted"),
    }
    let mut big = WsPacketBuilder::new();
    match big.build_once(&[0x01, 0x40, 0x00, 0x01], 4) {
        WsPacketResult::Abort(msg) => assert_eq!(msg, "overflow"),
        WsPacketResult::Ready(_) => panic!("over the limit must abort"),
    }
}
