use bytes::{Bytes, BytesMut};
use rustmetaverse::chat::{chat_from_viewer, CHAT_TYPE_NORMAL};
use rustmetaverse::client::{
    agent_height_width, complete_agent_movement, complete_ping_check, inspect_datagram, interpret_login_response,
    packet_ack, region_handshake_reply, region_handshake_step, use_circuit_code, use_circuit_code_step,
    CircuitAction, CircuitEvent, DatagramVerdict, HandshakeAction, HandshakeEvent, STANDARD_HEIGHT, STANDARD_WIDTH,
};
use rustmetaverse::groups::join_group_request;
use rustmetaverse::header::{Header, PacketFrequency, MSG_RESENT};
use rustmetaverse::messaging::improved_instant_message;
use rustmetaverse::objects::{object_add, object_delete, object_name, MATERIAL_WOOD, P_CODE_BOX};
use rustmetaverse::osd::{OsdMap, OSD};
use rustmetaverse::packets::{QuaternionBits, Vector3Bits};
use rustmetaverse::reliability::{NeedAcks, MAX_RESEND_COUNT};
use rustmetaverse::uuid::UUID;

fn real_text(bits: u64) -> String {
    f64::from_bits(bits).to_string()
}

fn id(b: u8) -> UUID {
    UUID([b; 16])
}

fn header_of(frame: &[u8]) -> Header {
    let mut data = Bytes::copy_from_slice(frame);
    Header::deserialize(&mut data).unwrap()
}

// ---- reliable delivery ----------------------------------------------------

#[test]
fn need_acks_add_and_ack() {
    let mut need_acks = NeedAcks::new();
    need_acks.add(1, BytesMut::new(), 0);
    assert_eq!(need_acks.len(), 1);
    let acked = need_acks.ack(1);
    assert!(acked.is_some());
    assert!(need_acks.is_empty());
}

#[test]
fn need_acks_ack_unknown() {
    let mut need_acks = NeedAcks::new();
    let acked = need_acks.ack(42);
    assert!(acked.is_none());
}

#[test]
fn need_acks_get_resends_empty() {
    let mut need_acks = NeedAcks::new();
    let resends = need_acks.get_resends(0, 1_000_000);
    assert!(resends.is_empty());
}

#[test]
fn need_acks_ack_returns_what_was_added() {
    let mut need_acks = NeedAcks::new();
    need_acks.add(7, BytesMut::from(&b"abc"[..]), 500);
    let p = need_acks.ack(7).unwrap();
    assert_eq!(p.sequence, 7);
    assert_eq!(p.last_sent, 500);
    assert_eq!(p.resend_count, 0);
    assert_eq!(&p.data[..], b"abc");
    assert!(need_acks.ack(7).is_none());
}

#[test]
fn need_acks_ack_many() {
    let mut need_acks = NeedAcks::new();
    for s in 1..=4u32 {
        need_acks.add(s, BytesMut::new(), 0);
    }
    need_acks.ack_many(&[2, 4, 9]);
    assert_eq!(need_acks.len(), 2);
    assert!(need_acks.ack(1).is_some());
    assert!(need_acks.ack(3).is_some());
    assert!(need_acks.is_empty());
}

#[test]
fn get_resends_only_expired() {
    let mut need_acks = NeedAcks::new();
    need_acks.add(1, BytesMut::from(&[0x40u8, 0, 0, 0, 1, 0, 0xff][..]), 0);
    need_acks.add(2, BytesMut::from(&[0x40u8, 0, 0, 0, 2, 0, 0xff][..]), 900_000);
    let resends = need_acks.get_resends(1_000_000, 1_000_000);
    assert_eq!(resends.len(), 1);
    assert_eq!(resends[0].sequence, 1);
    assert_eq!(resends[0].resend_count, 1);
    assert_eq!(resends[0].last_sent, 1_000_000);
    assert_eq!(&resends[0].data[..], &[0x60u8, 0, 0, 0, 1, 0, 0xff][..]);
    assert_eq!(need_acks.len(), 2);
    // Not due again right away.
    assert!(need_acks.get_resends(1_000_001, 1_000_000).is_empty());
}

#[test]
fn get_resends_marks_the_copy_and_the_stored_packet_resent() {
    let mut need_acks = NeedAcks::new();
    need_acks.add(9, BytesMut::from(&[0x40u8, 0, 0, 0, 9, 0][..]), 0);
    let first = need_acks.get_resends(2_000_000, 1_000_000);
    assert_eq!(&first[0].data[..], &[0x60u8, 0, 0, 0, 9, 0][..]);
    let second = need_acks.get_resends(4_000_000, 1_000_000);
    assert_eq!(&second[0].data[..], &[0x60u8, 0, 0, 0, 9, 0][..]);
    assert_eq!(second[0].resend_count, 2);
    let stored = need_acks.ack(9).unwrap();
    assert_eq!(stored.data[0] & MSG_RESENT, MSG_RESENT);
}

#[test]
fn get_resends_gives_up_after_max() {
    let mut need_acks = NeedAcks::new();
    need_acks.add(3, BytesMut::new(), 0);
    let mut now = 0u64;
    for round in 1..=MAX_RESEND_COUNT {
        now += 2_000_000;
        let resends = need_acks.get_resends(now, 1_000_000);
        assert_eq!(resends.len(), 1);
        assert_eq!(resends[0].resend_count, round);
    }
    now += 2_000_000;
    assert!(need_acks.get_resends(now, 1_000_000).is_empty());
    assert!(need_acks.is_empty());
}

#[test]
fn get_resends_clock_going_back_is_not_due() {
    let mut need_acks = NeedAcks::new();
    need_acks.add(5, BytesMut::new(), 10_000_000);
    assert!(need_acks.get_resends(0, 1).is_empty());
    assert_eq!(need_acks.get_resends(0, 0).len(), 1);
}

// ---- received datagrams ---------------------------------------------------

#[test]
fn inspect_datagram_truncated() {
    let data = Bytes::from_static(&[0x40, 0, 0, 0, 1, 0]);
    assert!(matches!(inspect_datagram(&data), DatagramVerdict::Truncated));
}

#[test]
fn inspect_datagram_malformed() {
    // Low frequency marker but no room for the message number.
    let data = Bytes::from_static(&[0x40, 0, 0, 0, 1, 0, 0xFF, 0xFF, 0x00]);
    assert!(matches!(inspect_datagram(&data), DatagramVerdict::Malformed));
}

#[test]
fn inspect_datagram_reliable_is_acknowledged() {
    let data = Bytes::from_static(&[0x40, 0, 0, 0, 9, 0, 0x01, 0xAA]);
    match inspect_datagram(&data) {
        DatagramVerdict::Accepted { header, ack } => {
            assert!(header.reliable);
            assert_eq!(header.sequence, 9);
            assert_eq!(header.frequency, PacketFrequency::High);
            assert_eq!(header.id, 1);
            assert_eq!(ack, Some(9));
        }
        _ => panic!("expected an accepted datagram"),
    }
}

#[test]
fn inspect_datagram_with_appended_acks() {
    // Unreliable, appended acks: one ack (sequence 0x0102), count byte 1.
    let data = Bytes::from_static(&[0x10, 0, 0, 0, 3, 0, 0x05, 0xEE, 0, 0, 0x01, 0x02, 0x01]);
    match inspect_datagram(&data) {
        DatagramVerdict::Accepted { header, ack } => {
            assert_eq!(header.acks, vec![0x0102]);
            assert_eq!(ack, None);
        }
        _ => panic!("expected an accepted datagram"),
    }
}

// ---- messages the client sends -------------------------------------------

#[test]
fn packet_ack_bytes() {
    let p = packet_ack(5, 0x01020304);
    let mut buf = BytesMut::new();
    p.serialize(&mut buf);
    assert_eq!(
        &buf[..],
        &[0x00, 0, 0, 0, 5, 0, 0xFF, 0xFF, 0xFF, 0xFB, 1, 0x04, 0x03, 0x02, 0x01][..]
    );
}

#[test]
fn ping_reply_acknowledges_reliable_ping() {
    let mut ping = Header::default();
    ping.reliable = true;
    ping.sequence = 77;
    let p = complete_ping_check(&ping, 3, 8);
    let mut buf = BytesMut::new();
    p.serialize(&mut buf);
    assert_eq!(&buf[..], &[0x10, 0, 0, 0, 8, 0, 0x02, 3, 0, 0, 0, 77, 1][..]);
    let back = header_of(&buf);
    assert_eq!(back.acks, vec![77]);
    assert!(!back.reliable);
}

#[test]
fn ping_reply_to_unreliable_ping_has_no_acks() {
    let ping = Header::default();
    let p = complete_ping_check(&ping, 9, 1);
    assert!(!p.header.appended_acks);
    assert!(p.header.acks.is_empty());
    assert_eq!(p.ping_i_d, 9);
}

#[test]
fn chat_from_viewer_bytes() {
    let p = chat_from_viewer(2, id(1), id(2), "hi", CHAT_TYPE_NORMAL, 0);
    let mut buf = BytesMut::new();
    p.serialize(&mut buf);
    let mut expected = vec![0x40, 0, 0, 0, 2, 0, 0xFF, 0xFF, 0, 80];
    expected.extend_from_slice(&[1; 16]);
    expected.extend_from_slice(&[2; 16]);
    expected.extend_from_slice(&[2, 0, b'h', b'i', 1, 0, 0, 0, 0]);
    assert_eq!(&buf[..], &expected[..]);
    let back = header_of(&buf);
    assert_eq!(back.id, 80);
    assert_eq!(back.frequency, PacketFrequency::Low);
}

#[test]
fn use_circuit_code_marks_retries_resent() {
    let first = use_circuit_code(4, 0, 1234, id(2), id(1));
    let retry = use_circuit_code(4, 1, 1234, id(2), id(1));
    assert!(!first.header.resent);
    assert!(retry.header.resent);
    assert_eq!(first.header.id, 3);
    let mut buf = BytesMut::new();
    retry.serialize(&mut buf);
    assert_eq!(buf[0], 0x60);
    assert_eq!(&buf[10..14], &1234u32.to_le_bytes());
}

#[test]
fn handshake_messages() {
    let reply = region_handshake_reply(6, id(1), id(2));
    assert_eq!(reply.header.id, 149);
    assert_eq!(reply.flags, 0);
    let hw = agent_height_width(7, id(1), id(2), 99);
    assert_eq!(hw.header.id, 83);
    assert_eq!(hw.height_width_block.height, STANDARD_HEIGHT);
    assert_eq!(hw.height_width_block.width, STANDARD_WIDTH);
    assert_eq!(hw.agent_data.circuit_code, 99);
    let mut buf = BytesMut::new();
    hw.serialize(&mut buf);
    assert_eq!(buf.len(), 10 + 16 + 16 + 4 + 4 + 2 + 2);
    assert_eq!(&buf[buf.len() - 4..], &[169, 0, 45, 0]);
    let cam = complete_agent_movement(8, id(1), id(2), 99);
    assert_eq!(cam.header.id, 249);
    assert!(cam.header.reliable);
}

#[test]
fn object_messages() {
    let zero = Vector3Bits::default();
    let one = Vector3Bits { x: 1.0f32.to_bits(), y: 1.0f32.to_bits(), z: 1.0f32.to_bits() };
    let rot = QuaternionBits { x: 0, y: 0, z: 0, w: 1.0f32.to_bits() };
    let add = object_add(1, id(1), id(2), P_CODE_BOX, MATERIAL_WOOD, one, rot, zero, one);
    assert_eq!(add.header.frequency, PacketFrequency::Medium);
    assert_eq!(add.header.id, 1);
    assert_eq!(add.object_data.path_curve, 16);
    assert_eq!(add.object_data.profile_curve, 1);
    assert_eq!(add.object_data.path_scale_x, 100);
    assert_eq!(add.object_data.ray_end_is_intersection, 1);
    assert_eq!(add.agent_data.group_i_d, UUID([0; 16]));
    let mut buf = BytesMut::new();
    add.serialize(&mut buf);
    assert_eq!(&buf[..8], &[0x40, 0, 0, 0, 1, 0, 0xFF, 1]);
    assert_eq!(buf.len(), 8 + 48 + 1 + 1 + 4 + 1 + 1 + 2 + 2 + 11 + 6 + 1 + 12 + 12 + 16 + 1 + 12 + 12 + 1);

    let del = object_delete(2, id(1), id(2), &[10, 20], true);
    let mut buf = BytesMut::new();
    del.serialize(&mut buf);
    assert_eq!(&buf[42..], &[1, 2, 10, 0, 0, 0, 20, 0, 0, 0]);

    let name = object_name(3, id(1), id(2), 10, "box");
    let mut buf = BytesMut::new();
    name.serialize(&mut buf);
    assert_eq!(&buf[42..], &[1, 10, 0, 0, 0, 3, b'b', b'o', b'x']);
}

#[test]
fn instant_message_fields() {
    let p = improved_instant_message(1, id(1), id(2), id(3), id(4), "hello", 0, id(5), 1_700_000_000);
    assert_eq!(p.header.id, 254);
    assert_eq!(p.message_block.parent_estate_i_d, 1);
    assert_eq!(p.estate_block.estate_i_d, 1);
    assert_eq!(p.message_block.timestamp, 1_700_000_000);
    assert_eq!(p.message_block.message, b"hello".to_vec());
    assert!(p.message_block.from_agent_name.is_empty());
    let mut buf = BytesMut::new();
    p.serialize(&mut buf);
    // Ends with the estate (1) and an empty metadata block.
    assert_eq!(&buf[buf.len() - 5..], &[1, 0, 0, 0, 0]);
}

#[test]
fn join_group_request_fields() {
    let p = join_group_request(9, id(1), id(2), id(7));
    assert_eq!(p.header.id, 343);
    assert_eq!(p.group_i_d, id(7));
    let mut buf = BytesMut::new();
    p.serialize(&mut buf);
    assert_eq!(buf.len(), 10 + 48);
}

// ---- login and circuit -----------------------------------------------------

fn login_map(login: OSD) -> OsdMap<OSD> {
    let mut m = OsdMap::new();
    m.insert("login".to_string(), login);
    m
}

#[test]
fn login_response_not_a_map() {
    let r = interpret_login_response(&OSD::Integer(1), &real_text);
    assert_eq!(r.err().unwrap(), "Invalid login response format");
}

#[test]
fn login_response_without_login_flag() {
    let r = interpret_login_response(&OSD::Dict(OsdMap::new()), &real_text);
    assert_eq!(r.err().unwrap(), "Invalid login response");
}

#[test]
fn login_response_refused_with_message() {
    let mut m = login_map(OSD::String("false".to_string()));
    m.insert("message".to_string(), OSD::String("Bad password".to_string()));
    let r = interpret_login_response(&OSD::Dict(m), &real_text);
    assert_eq!(r.err().unwrap(), "Bad password");
    let r = interpret_login_response(&OSD::Dict(login_map(OSD::Boolean(false))), &real_text);
    assert_eq!(r.err().unwrap(), "Login failed");
}

#[test]
fn login_response_granted() {
    let mut m = login_map(OSD::String("true".to_string()));
    m.insert("circuit_code".to_string(), OSD::Integer(123456));
    m.insert("session_id".to_string(), OSD::String("00000000-0000-0000-0000-000000000002".to_string()));
    m.insert("agent_id".to_string(), OSD::String("not-a-uuid".to_string()));
    m.insert("sim_ip".to_string(), OSD::String("127.0.0.1".to_string()));
    m.insert("sim_port".to_string(), OSD::Integer(9000));
    let s = interpret_login_response(&OSD::Dict(m), &real_text).unwrap();
    assert_eq!(s.circuit_code, 123456);
    assert_eq!(s.sim_port, 9000);
    assert_eq!(s.sim_ip, "127.0.0.1");
    assert_eq!(s.session_id.0[15], 2);
    assert_eq!(s.agent_id, UUID([0; 16]));
    assert_eq!(s.agent_id_text, "not-a-uuid");
    assert_eq!(s.seed_capability, "");
}

#[test]
fn circuit_gives_up_after_four_attempts() {
    let mut attempt = 0usize;
    let mut sends = 1;
    loop {
        match use_circuit_code_step(attempt, CircuitEvent::TimedOut) {
            CircuitAction::Resend(next) => {
                attempt = next;
                sends += 1;
            }
            CircuitAction::Failed => break,
            CircuitAction::Confirmed => panic!("a timeout never confirms"),
        }
    }
    assert_eq!(sends, 4);
}

#[test]
fn circuit_confirmed_or_closed() {
    assert_eq!(use_circuit_code_step(2, CircuitEvent::Acked), CircuitAction::Confirmed);
    assert_eq!(use_circuit_code_step(0, CircuitEvent::Closed), CircuitAction::Failed);
    assert_eq!(use_circuit_code_step(0, CircuitEvent::TimedOut), CircuitAction::Resend(1));
}

#[test]
fn region_handshake_steps() {
    assert_eq!(region_handshake_step(&UUID([0; 16]), HandshakeEvent::Received), HandshakeAction::Stop);
    assert_eq!(region_handshake_step(&id(1), HandshakeEvent::Received), HandshakeAction::SendReply);
    assert_eq!(region_handshake_step(&id(1), HandshakeEvent::ReplySent(true)), HandshakeAction::SendHeightWidth);
    assert_eq!(region_handshake_step(&id(1), HandshakeEvent::ReplySent(false)), HandshakeAction::Stop);
    assert_eq!(region_handshake_step(&id(1), HandshakeEvent::HeightWidthSent(true)), HandshakeAction::Ready);
    assert_eq!(region_handshake_step(&id(1), HandshakeEvent::HeightWidthSent(false)), HandshakeAction::Stop);
}

// ---- decoding received packets -----------------------------------------------

use rustmetaverse::decode::decode_packet;
use rustmetaverse::packets::{RegionHandshakePacket, WrappedPacket};
use rustmetaverse::client::region_identity;
use rustmetaverse::zerocoding::zero_encode;

#[test]
fn decode_packet_ack() {
    let mut buf = BytesMut::new();
    packet_ack(3, 0x0A0B0C0D).serialize(&mut buf);
    match decode_packet(&buf.freeze()).unwrap() {
        WrappedPacket::PacketAck(p) => {
            assert_eq!(p.packets, vec![0x0A0B0C0D]);
            assert_eq!(p.header.sequence, 3);
        }
        other => panic!("unexpected {:?}", other),
    }
}

#[test]
fn decode_start_ping_check() {
    let data = Bytes::from_static(&[0x40, 0, 0, 0, 2, 0, 0x01, 7, 5, 0, 0, 0]);
    match decode_packet(&data).unwrap() {
        WrappedPacket::StartPingCheck(p) => {
            assert_eq!(p.ping_i_d, 7);
            assert_eq!(p.oldest_unacked, 5);
            assert!(p.header.reliable);
        }
        other => panic!("unexpected {:?}", other),
    }
}

#[test]
fn decode_short_ping_is_an_error() {
    let data = Bytes::from_static(&[0x00, 0, 0, 0, 2, 0, 0x01, 7, 5]);
    assert!(decode_packet(&data).is_err());
}

#[test]
fn decode_zero_coded_packet_ack() {
    let mut buf = BytesMut::new();
    packet_ack(1, 2).serialize(&mut buf);
    let plain = buf.to_vec();
    let encoded = zero_encode(&plain);
    assert!(encoded[0] & 0x80 != 0);
    match decode_packet(&encoded.freeze()).unwrap() {
        WrappedPacket::PacketAck(p) => assert_eq!(p.packets, vec![2]),
        other => panic!("unexpected {:?}", other),
    }
}

#[test]
fn decode_region_handshake() {
    let mut data = vec![0x40, 0, 0, 0, 4, 0, 0xFF, 0xFF, 0, 148];
    data.extend_from_slice(&[0, 0, 0, 0, 13]);
    data.push(4);
    data.extend_from_slice(b"Home");
    data.extend_from_slice(&[0u8; 201]);
    data.extend_from_slice(&[9u8; 16]);
    data.extend_from_slice(&[0u8; 30]);
    match decode_packet(&Bytes::from(data)).unwrap() {
        WrappedPacket::RegionHandshake(p) => {
            assert_eq!(p.sim_name, b"Home".to_vec());
            assert_eq!(p.region_i_d, UUID([9; 16]));
        }
        other => panic!("unexpected {:?}", other),
    }
}

#[test]
fn decode_other_keeps_header() {
    let data = Bytes::from_static(&[0x00, 0, 0, 0, 6, 0, 0xFF, 0x05, 1, 2, 3]);
    match decode_packet(&data).unwrap() {
        WrappedPacket::Other(h) => {
            assert_eq!(h.frequency, PacketFrequency::Medium);
            assert_eq!(h.id, 5);
        }
        other => panic!("unexpected {:?}", other),
    }
}

#[test]
fn decode_bad_zero_coding_is_an_error() {
    let data = Bytes::from_static(&[0x80, 0, 0, 0, 6, 0, 0x05, 0x00]);
    assert!(decode_packet(&data).is_err());
}

#[test]
fn region_identity_decodes_the_name() {
    let handshake = RegionHandshakePacket {
        header: Header::default(),
        sim_name: b"Ahern\xff".to_vec(),
        region_i_d: id(3),
    };
    let (name, region) = region_identity(&handshake);
    assert_eq!(name, "Ahern\u{fffd}");
    assert_eq!(region, id(3));
}
