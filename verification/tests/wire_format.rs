use bytes::Bytes;
use rustmetaverse::safebuf::{underflow_message, SafeBuf};
use rustmetaverse::zerocoding::{expand_zerocoded, zero_encode, LLUDP_PACKET_HEADER_SIZE};
use std::io;

#[test]
fn read_u8_returns_eof_on_empty() {
    let mut buf = SafeBuf::new(Bytes::new());
    assert!(matches!(buf.read_u8(), Err(e) if e.kind() == io::ErrorKind::UnexpectedEof));
}

#[test]
fn read_u32_le_returns_eof_on_short_buffer() {
    let mut buf = SafeBuf::new(Bytes::from_static(&[0x01, 0x02]));
    let err = buf.read_u32_le().unwrap_err();
    assert_eq!(err.kind(), io::ErrorKind::UnexpectedEof);
    assert!(err.to_string().contains("needed 4"));
    assert!(err.to_string().contains("2 remaining"));
}

#[test]
fn copy_to_slice_returns_eof_instead_of_panic() {
    let mut buf = SafeBuf::new(Bytes::from_static(&[0xAB, 0xCD]));
    let mut dst = [0u8; 10];
    let err = buf.read_bytes_into(&mut dst).unwrap_err();
    assert_eq!(err.kind(), io::ErrorKind::UnexpectedEof);
}

#[test]
fn read_vec_returns_eof_on_short_buffer() {
    let mut buf = SafeBuf::new(Bytes::from_static(&[0x01, 0x02, 0x03]));
    let err = buf.read_vec(20).unwrap_err();
    assert_eq!(err.kind(), io::ErrorKind::UnexpectedEof);
}

#[test]
fn successful_reads_advance_cursor() {
    let mut buf = SafeBuf::new(Bytes::from_static(&[0x01, 0x02, 0x03, 0x04]));
    assert_eq!(buf.read_u8().unwrap(), 0x01);
    assert_eq!(buf.read_u16_le().unwrap(), 0x0302);
    assert_eq!(buf.remaining(), 1);
    assert_eq!(buf.read_u8().unwrap(), 0x04);
    assert_eq!(buf.remaining(), 0);
}

#[test]
fn read_array_compiles_and_works() {
    let mut buf = SafeBuf::new(Bytes::from_static(&[1, 2, 3, 4]));
    let arr: [u8; 4] = buf.read_array().unwrap();
    assert_eq!(arr, [1, 2, 3, 4]);
}

#[test]
fn read_array_returns_eof_on_short() {
    let mut buf = SafeBuf::new(Bytes::from_static(&[1, 2]));
    let result: io::Result<[u8; 4]> = buf.read_array();
    assert!(result.is_err());
}

#[test]
fn zero_coding_round_trips_the_packet_body() {
    let packet = [
        0x40, 0, 0, 0, 1, 0, 0xff, 0xff, 0, 31, 7, 0, 0, 0, 0, 0, 0, 0, 9,
    ];

    let encoded = zero_encode(&packet);
    assert!(encoded.len() < packet.len());
    assert_ne!(encoded[0] & 0x80, 0);

    let mut encoded_body = Bytes::copy_from_slice(&encoded[LLUDP_PACKET_HEADER_SIZE..]);
    let decoded_body = expand_zerocoded(&mut encoded_body).unwrap();
    assert_eq!(&decoded_body[..], &packet[LLUDP_PACKET_HEADER_SIZE..]);
}

#[test]
fn underflow_message_names_both_counts() {
    assert_eq!(underflow_message(4, 1), "buffer underflow: needed 4 bytes, 1 remaining");
    let mut buf = SafeBuf::new(Bytes::from_static(&[1]));
    let e = buf.read_u32_le().unwrap_err();
    assert_eq!(e.kind(), io::ErrorKind::UnexpectedEof);
    assert_eq!(e.to_string(), "buffer underflow: needed 4 bytes, 1 remaining");
}
