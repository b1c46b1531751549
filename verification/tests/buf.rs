use rfc5444::Buf;

const BUF: &[u8] = &[0xde, 0xad, 0xbe, 0xef, 0xba, 0xbe, 0xca, 0xfe];

#[test]
fn test_make_slice() {
    // Three two-byte windows at offsets 1, 3 and 5, taken through the cursor.
    let mut buf = Buf::new(BUF);
    buf.get_u8().unwrap();
    let s0 = buf.get_bytes(2).unwrap();
    let s1 = buf.get_bytes(2).unwrap();
    let s2 = buf.get_bytes(2).unwrap();
    assert_eq!(s0, &[0xad, 0xbe]);
    assert_eq!(s1, &[0xef, 0xba]);
    assert_eq!(s2, &[0xbe, 0xca]);
}

#[test]
fn test_buf_get_bytes() {
    let mut buf = Buf::new(BUF);
    let bytes = buf.get_bytes(4).unwrap();
    assert_eq!(bytes, &BUF[..4]);
    assert_eq!(buf.pos(), 4);
}

#[test]
fn test_buf_get_ne_u16() {
    let mut buf = Buf::new(BUF);
    assert_eq!(buf.get_ne_u16().unwrap(), 0xdead);
    assert_eq!(buf.pos(), 2);
    assert_eq!(buf.get_ne_u16().unwrap(), 0xbeef);
    assert_eq!(buf.pos(), 4);
}

#[test]
fn test_buf_get_u8() {
    let mut buf = Buf::new(BUF);
    for (i, c) in BUF.iter().enumerate() {
        assert_eq!(i, buf.pos());
        assert_eq!(*c, buf.get_u8().unwrap());
    }
}

#[test]
fn test_buf_is_eof() {
    let mut buf = Buf::new(BUF);
    for _ in BUF {
        buf.get_u8().unwrap();
    }
    assert!(buf.is_eof());
}
