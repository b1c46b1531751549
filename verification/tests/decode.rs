//! Decoder behaviour on hand-written wire fragments: flag-gated fields,
//! each error on an input that provokes it, and the documented post-error
//! iterator policy.

use rfc5444::parser;
use rfc5444::Buf;
use rfc5444::Error;
use rfc5444::Packet;

#[test]
fn test_version_gate() {
    // High nibble of the first byte is the version; anything but zero is
    // rejected as InvalidVersion even though the buffer ends right there.
    assert!(matches!(Packet::read(&[0x10]), Err(Error::InvalidVersion)));
    assert!(matches!(Packet::read(&[0xf0]), Err(Error::InvalidVersion)));
    // The reserved low-nibble bits alone never make a header invalid.
    let pkt = Packet::read(&[0x03]).unwrap();
    assert_eq!(pkt.hdr.version, 0);
}

#[test]
fn test_empty_input() {
    assert!(matches!(Packet::read(&[]), Err(Error::UnexpectedEof)));
}

#[test]
fn test_pkt_header_seq_num_and_tlv_block() {
    // Flags 0x0c: sequence number (2 bytes) and a TLV block (here empty).
    let pkt = Packet::read(&[0x0c, 0x12, 0x34, 0x00, 0x00]).unwrap();
    assert_eq!(pkt.hdr.version, 0);
    assert_eq!(pkt.hdr.seq_num, Some(0x1234));
    let block = pkt.hdr.tlv_block.unwrap();
    assert!(block.iter().next().is_none());
    // Nothing follows the header, so the message area is empty.
    assert!(pkt.messages.as_bytes().is_empty());
    assert!(pkt.messages.iter().next().is_none());
}

#[test]
fn test_pkt_header_truncated() {
    // The flagged sequence number is cut short.
    assert!(matches!(Packet::read(&[0x08, 0x12]), Err(Error::UnexpectedEof)));
    // The packet-level TLV block claims more bytes than remain.
    assert!(matches!(Packet::read(&[0x04, 0x00, 0x05]), Err(Error::UnexpectedEof)));
}

#[test]
fn test_messages_as_bytes_is_message_area() {
    let input = &[0x00, 0xaa, 0xbb, 0xcc];
    let pkt = Packet::read(input).unwrap();
    assert_eq!(pkt.messages.as_bytes(), &input[1..]);
}

#[test]
fn test_tlv_bare() {
    let mut buf = Buf::new(&[0x05, 0x00]);
    let tlv = parser::tlv(&mut buf).unwrap();
    assert_eq!(tlv.typ, 5);
    assert!(tlv.type_ext.is_none());
    assert!(tlv.start_index.is_none());
    assert!(tlv.stop_index.is_none());
    assert!(tlv.value.is_none());
    assert_eq!(buf.pos(), 2);
}

#[test]
fn test_tlv_reserved_flags_accepted() {
    // The multi-value marker and the two reserved bits gate no fields and
    // must be accepted, not rejected.
    let mut buf = Buf::new(&[0x05, 0x07]);
    let tlv = parser::tlv(&mut buf).unwrap();
    assert_eq!(tlv.typ, 5);
    assert!(tlv.value.is_none());
    assert_eq!(buf.pos(), 2);
}

#[test]
fn test_msg_header_address_length_extremes() {
    // The low nibble stores address_length - 1: 0x0 means 1, 0xf means 16.
    let mut buf = Buf::new(&[0x09, 0x00, 0x00, 0x04]);
    let hdr = parser::msg_header(&mut buf).unwrap();
    assert_eq!(hdr.address_length, 1);

    let mut buf = Buf::new(&[0x09, 0x0f, 0x00, 0x04]);
    let hdr = parser::msg_header(&mut buf).unwrap();
    assert_eq!(hdr.address_length, 16);
}

#[test]
fn test_tlv_block_iter_clone_is_independent() {
    let mut buf = Buf::new(&[0x00, 0x04, 0x05, 0x00, 0x06, 0x00]);
    let block = parser::tlv_block(&mut buf).unwrap();
    let mut iter = block.iter();
    assert_eq!(iter.next().unwrap().unwrap().typ, 5);
    let mut other = iter.clone();
    assert_eq!(iter.next().unwrap().unwrap().typ, 6);
    // The clone resumes from where it was taken, unaffected by the original.
    assert_eq!(other.next().unwrap().unwrap().typ, 6);
    assert!(other.next().is_none());
}

#[test]
fn test_tlv_type_ext_and_value() {
    // 0x90 = has type extension | has value; 8-bit length.
    let mut buf = Buf::new(&[0x07, 0x90, 0x09, 0x02, 0xaa, 0xbb]);
    let tlv = parser::tlv(&mut buf).unwrap();
    assert_eq!(tlv.typ, 7);
    assert_eq!(tlv.type_ext, Some(9));
    assert_eq!(tlv.value.unwrap(), &[0xaa, 0xbb]);
}

#[test]
fn test_tlv_ext_len() {
    // 0x18 = has value | 16-bit length.
    let mut buf = Buf::new(&[0x07, 0x18, 0x00, 0x02, 0xaa, 0xbb]);
    let tlv = parser::tlv(&mut buf).unwrap();
    assert_eq!(tlv.value.unwrap(), &[0xaa, 0xbb]);

    // The ext-len flag without the has-value flag gates nothing.
    let mut buf = Buf::new(&[0x07, 0x08]);
    let tlv = parser::tlv(&mut buf).unwrap();
    assert!(tlv.value.is_none());
    assert_eq!(buf.pos(), 2);
}

#[test]
fn test_tlv_zero_length_value() {
    // The has-value flag with a zero length yields no value.
    let mut buf = Buf::new(&[0x07, 0x10, 0x00]);
    let tlv = parser::tlv(&mut buf).unwrap();
    assert!(tlv.value.is_none());
    assert_eq!(buf.pos(), 3);
}

#[test]
fn test_tlv_indices() {
    // Single-index flag alone: a start index only.
    let mut buf = Buf::new(&[0x07, 0x40, 0x03]);
    let tlv = parser::tlv(&mut buf).unwrap();
    assert_eq!(tlv.start_index, Some(3));
    assert!(tlv.stop_index.is_none());

    // Multi-index flag: start and stop.
    let mut buf = Buf::new(&[0x07, 0x20, 0x03, 0x04]);
    let tlv = parser::tlv(&mut buf).unwrap();
    assert_eq!(tlv.start_index, Some(3));
    assert_eq!(tlv.stop_index, Some(4));

    // Both index flags together count as the multi-index case.
    let mut buf = Buf::new(&[0x07, 0x60, 0x03, 0x04]);
    let tlv = parser::tlv(&mut buf).unwrap();
    assert_eq!(tlv.start_index, Some(3));
    assert_eq!(tlv.stop_index, Some(4));
}

#[test]
fn test_tlv_truncated() {
    // The flagged type extension is missing.
    let mut buf = Buf::new(&[0x07, 0x80]);
    assert!(matches!(parser::tlv(&mut buf), Err(Error::UnexpectedEof)));

    // The declared value length claims more than what is left.
    let mut buf = Buf::new(&[0x07, 0x10, 0x05, 0xaa]);
    assert!(matches!(parser::tlv(&mut buf), Err(Error::UnexpectedEof)));
}

#[test]
fn test_tlv_block_iterates_entries() {
    let mut buf = Buf::new(&[0x00, 0x04, 0x05, 0x00, 0x06, 0x00]);
    let block = parser::tlv_block(&mut buf).unwrap();
    let mut iter = block.iter();
    assert_eq!(iter.next().unwrap().unwrap().typ, 5);
    assert_eq!(iter.next().unwrap().unwrap().typ, 6);
    assert!(iter.next().is_none());
    // The block is restartable from a fresh iterator.
    let mut again = block.iter();
    assert_eq!(again.next().unwrap().unwrap().typ, 5);
}

#[test]
fn test_tlv_block_length_claims_too_much() {
    let mut buf = Buf::new(&[0x00, 0x09, 0x05, 0x00]);
    assert!(matches!(parser::tlv_block(&mut buf), Err(Error::UnexpectedEof)));
}

#[test]
fn test_tlv_block_iter_ends_after_error() {
    // The single entry inside the block is cut short: the iterator yields
    // the error once and is permanently ended afterwards.
    let mut buf = Buf::new(&[0x00, 0x02, 0x05, 0x80]);
    let block = parser::tlv_block(&mut buf).unwrap();
    let mut iter = block.iter();
    assert!(matches!(iter.next(), Some(Err(Error::UnexpectedEof))));
    assert!(iter.next().is_none());
    assert!(iter.next().is_none());
}

#[test]
fn test_address_block_head_mid() {
    // Head length 2 with a shared head, per-address mids for 3 addresses of
    // length 4: mid length 2 each.
    let mut buf = Buf::new(&[
        0x03, 0x80, 0x02, 0x0a, 0x0b, 0x01, 0x01, 0x02, 0x02, 0x03, 0x03,
    ]);
    let block = parser::address_block(&mut buf, 4).unwrap();
    assert_eq!(block.num_addr, 3);
    assert_eq!(block.head.unwrap(), &[0x0a, 0x0b]);
    assert!(block.tail.is_none());
    assert_eq!(block.mid.unwrap(), &[0x01, 0x01, 0x02, 0x02, 0x03, 0x03]);
    assert!(block.prefix_lengths.is_none());
    assert!(buf.is_eof());
}

#[test]
fn test_address_block_tails() {
    // Full tail: a length byte and that many shared bytes.
    let mut buf = Buf::new(&[0x01, 0x40, 0x02, 0xcc, 0xdd, 0xaa, 0xbb]);
    let block = parser::address_block(&mut buf, 4).unwrap();
    assert_eq!(block.tail.unwrap(), &[0xcc, 0xdd]);
    assert_eq!(block.mid.unwrap(), &[0xaa, 0xbb]);

    // Full tail of length zero: no tail bytes and no tail.
    let mut buf = Buf::new(&[0x01, 0x40, 0x00, 0xaa, 0xbb, 0xcc, 0xdd]);
    let block = parser::address_block(&mut buf, 4).unwrap();
    assert!(block.tail.is_none());
    assert_eq!(block.mid.unwrap(), &[0xaa, 0xbb, 0xcc, 0xdd]);

    // Zero tail: a length byte but no bytes, the tail is implicitly zero.
    let mut buf = Buf::new(&[0x01, 0x20, 0x02, 0xaa, 0xbb]);
    let block = parser::address_block(&mut buf, 4).unwrap();
    assert!(block.tail.is_none());
    assert_eq!(block.mid.unwrap(), &[0xaa, 0xbb]);

    // Both tail flags together: no tail fields at all.
    let mut buf = Buf::new(&[0x01, 0x60, 0xaa, 0xbb, 0xcc, 0xdd]);
    let block = parser::address_block(&mut buf, 4).unwrap();
    assert!(block.tail.is_none());
    assert_eq!(block.mid.unwrap(), &[0xaa, 0xbb, 0xcc, 0xdd]);
}

#[test]
fn test_address_block_prefix_lengths() {
    // Single prefix-length byte, exactly at the bound 8 * 4 = 32: accepted.
    let mut buf = Buf::new(&[0x01, 0x10, 0xaa, 0xbb, 0xcc, 0xdd, 0x20]);
    let block = parser::address_block(&mut buf, 4).unwrap();
    assert_eq!(block.prefix_lengths.unwrap(), &[0x20]);

    // One byte over the bound: rejected.
    let mut buf = Buf::new(&[0x01, 0x10, 0xaa, 0xbb, 0xcc, 0xdd, 0x21]);
    assert!(matches!(parser::address_block(&mut buf, 4), Err(Error::PrefixTooLarge)));

    // Multi flag: one prefix byte per address; the second one is too large.
    let mut buf = Buf::new(&[
        0x02, 0x08, 0x01, 0x01, 0x02, 0x02, 0x03, 0x03, 0x04, 0x04, 0x20, 0xff,
    ]);
    assert!(matches!(parser::address_block(&mut buf, 4), Err(Error::PrefixTooLarge)));

    // Both prefix flags together: no prefix fields.
    let mut buf = Buf::new(&[0x01, 0x18, 0xaa, 0xbb, 0xcc, 0xdd]);
    let block = parser::address_block(&mut buf, 4).unwrap();
    assert!(block.prefix_lengths.is_none());
}

#[test]
fn test_address_block_head_tail_underflow() {
    // Head length 3 and tail length 2 exceed the address length 4: the
    // mid-length subtraction must fail cleanly, not wrap.
    let mut buf = Buf::new(&[
        0x01, 0xc0, 0x03, 0x0a, 0x0b, 0x0c, 0x02, 0xdd, 0xee, 0xff, 0xff,
    ]);
    assert!(matches!(parser::address_block(&mut buf, 4), Err(Error::UnexpectedEof)));
}

#[test]
fn test_message_size_underflow() {
    // Header and empty TLV block consume 6 bytes but the declared size is 1:
    // the size-remainder subtraction must fail cleanly, not wrap.
    let mut buf = Buf::new(&[0x01, 0x03, 0x00, 0x01, 0x00, 0x00]);
    assert!(matches!(parser::message(&mut buf), Err(Error::UnexpectedEof)));
}

#[test]
fn test_message_optional_fields() {
    // Flags 0xf0: originator address, hop limit, hop count and sequence
    // number all present; address length 2; size 12 covers the header (10)
    // plus the empty TLV block (2), leaving an empty address-TLV region.
    let mut buf = Buf::new(&[
        0x09, 0xf1, 0x00, 0x0c, 0xaa, 0xbb, 0x05, 0x06, 0x01, 0x02, 0x00, 0x00,
    ]);
    let msg = parser::message(&mut buf).unwrap();
    assert_eq!(msg.hdr.typ, 9);
    assert_eq!(msg.hdr.address_length, 2);
    assert_eq!(msg.hdr.orig_addr.unwrap(), &[0xaa, 0xbb]);
    assert_eq!(msg.hdr.hop_limit, Some(5));
    assert_eq!(msg.hdr.hop_count, Some(6));
    assert_eq!(msg.hdr.seq_num, Some(0x0102));
    assert!(msg.tlv_block.iter().next().is_none());
    assert!(msg.address_tlv.iter().next().is_none());
}

#[test]
fn test_message_iter_ends_after_error() {
    // One byte of a second message follows a valid empty-area message: the
    // iterator yields UnexpectedEof once, then is permanently ended.
    let pkt = Packet::read(&[0x00, 0x01, 0x03, 0x00, 0x06, 0x00, 0x00, 0x01]).unwrap();
    let mut messages = pkt.messages.iter();
    let msg = messages.next().unwrap().unwrap();
    assert_eq!(msg.hdr.typ, 1);
    assert!(matches!(messages.next(), Some(Err(Error::UnexpectedEof))));
    assert!(messages.next().is_none());
}
