//! End-to-end decode of a 41-byte NHDP hello packet.

use rfc5444::parser;
use rfc5444::Error;
use rfc5444::Packet;

const RESULT: &[u8] = &[
    0x00, 0x01, 0x03, 0x00, 0x28, 0x00, 0x00, 0x04, 0x80, 0x01, 0x0a, 0x01, 0x00, 0x65, 0x01,
    0x00, 0x66, 0x01, 0x00, 0x67, 0x0b, 0x0b, 0x0b, 0x00, 0x10, 0x02, 0x50, 0x01, 0x01, 0x00,
    0x03, 0x50, 0x00, 0x01, 0x01, 0x03, 0x30, 0x02, 0x03, 0x01, 0x01,
];

#[test]
fn test_parse_nhdp() {
    let pkt = parser::packet(RESULT).unwrap();

    assert_eq!(pkt.hdr.version, 0);
    assert!(pkt.hdr.seq_num.is_none());
    assert!(pkt.hdr.tlv_block.is_none());

    let mut messages = pkt.messages.iter();
    let msg = messages.next().unwrap().unwrap();
    assert_eq!(msg.hdr.typ, 1);
    assert_eq!(msg.hdr.address_length, 4);
    assert!(msg.hdr.orig_addr.is_none());
    assert!(msg.hdr.hop_limit.is_none());
    assert!(msg.hdr.hop_count.is_none());
    assert!(msg.hdr.seq_num.is_none());

    let mut msg_tlvs = msg.tlv_block.iter();
    assert!(msg_tlvs.next().is_none());

    println!("pkt {:?}", pkt);
    println!("msg {:?}", msg.address_tlv);

    let mut pairs = msg.address_tlv.iter();
    while let Some(pair) = pairs.next() {
        let _pair = pair.unwrap();
    }
}

#[test]
fn test_parse_nhdp_truncated() {
    // Cutting the packet anywhere short of its full length must surface as
    // UnexpectedEof, never as a different error and never as a complete
    // successful traversal.
    for n in 0..RESULT.len() {
        match Packet::read(&RESULT[..n]) {
            Ok(pkt) => {
                let mut messages = pkt.messages.iter();
                let first = messages.next();
                if n == 0 {
                    panic!("an empty buffer cannot decode");
                }
                if n == 1 {
                    // Only the header survives; the message area is empty.
                    assert!(first.is_none());
                } else {
                    match first {
                        Some(Err(Error::UnexpectedEof)) => {}
                        other => panic!("truncated to {} bytes: got {:?}", n, other),
                    }
                }
            }
            Err(e) => {
                assert_eq!(n, 0);
                assert!(matches!(e, Error::UnexpectedEof));
            }
        }
    }
}
