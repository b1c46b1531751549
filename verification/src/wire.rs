//! The wire format, stated as mathematics.
//!
//! Each `..._dec` specification function decodes one structure of the format
//! from a byte sequence `d` at an offset `i` and yields the decoded value
//! together with the offset just past it, or the error that the format
//! prescribes. The executable decoders are proved to return exactly what
//! these functions say, so these definitions are the single source of truth
//! for every flag bit, conditional field and length rule.

use vstd::prelude::*;

use crate::error::Error;

verus! {

// Flag bits of a TLV's flag byte.
pub const TLV_HAS_TYPE_EXT: u8 = 0x80;
pub const TLV_HAS_SINGLE_INDEX: u8 = 0x40;
pub const TLV_HAS_MULTI_INDEX: u8 = 0x20;
pub const TLV_HAS_VALUE: u8 = 0x10;
pub const TLV_HAS_EXT_LEN: u8 = 0x08;

// Flag bits of a message header's flag nibble (the high nibble of its
// second byte).
pub const MSG_HAS_ORIG: u8 = 0x80;
pub const MSG_HAS_HOP_LIMIT: u8 = 0x40;
pub const MSG_HAS_HOP_COUNT: u8 = 0x20;
pub const MSG_HAS_SEQ_NUM: u8 = 0x10;

// Flag bits of a packet header's flag nibble (the low nibble of its first
// byte). The other bits are reserved and are ignored, not rejected.
pub const PKT_HAS_SEQ_NUM: u8 = 0x08;
pub const PKT_HAS_TLV: u8 = 0x04;

// Flag bits of an address block's flag byte.
pub const ADDR_HAS_HEAD: u8 = 0x80;
pub const ADDR_HAS_FULL_TAIL: u8 = 0x40;
pub const ADDR_HAS_ZERO_TAIL: u8 = 0x20;
pub const ADDR_HAS_SINGLE_PRELEN: u8 = 0x10;
pub const ADDR_HAS_MULTI_PRELEN: u8 = 0x08;

/// Is the bit selected by `mask` set in `b`?
pub open spec fn bit(b: u8, mask: u8) -> bool {
    b & mask != 0
}

/// The mathematical value of an optional borrowed byte slice.
pub open spec fn opt_bytes_view(o: Option<&[u8]>) -> Option<Seq<u8>> {
    match o {
        Some(s) => Some(s@),
        None => None,
    }
}

// ---------------------------------------------------------------------------
// Primitive reads. Every decoder below is built from these three.
// ---------------------------------------------------------------------------

/// Read one byte at `i`.
pub open spec fn rd_u8(d: Seq<u8>, i: int) -> Result<(u8, int), Error> {
    if 0 <= i && i + 1 <= d.len() {
        Ok((d[i], i + 1))
    } else {
        Err(Error::UnexpectedEof)
    }
}

/// Read a 16-bit integer in network byte order at `i`.
pub open spec fn rd_u16(d: Seq<u8>, i: int) -> Result<(u16, int), Error> {
    if 0 <= i && i + 2 <= d.len() {
        Ok((((d[i] as u16) * 256 + (d[i + 1] as u16)) as u16, i + 2))
    } else {
        Err(Error::UnexpectedEof)
    }
}

/// Read `n` bytes at `i`.
pub open spec fn rd_bytes(d: Seq<u8>, i: int, n: int) -> Result<(Seq<u8>, int), Error> {
    if 0 <= i && 0 <= n && i + n <= d.len() {
        Ok((d.subrange(i, i + n), i + n))
    } else {
        Err(Error::UnexpectedEof)
    }
}

/// Read one byte at `i` if `present`, else nothing.
pub open spec fn rd_opt_u8(d: Seq<u8>, i: int, present: bool) -> Result<(Option<u8>, int), Error> {
    if present {
        match rd_u8(d, i) {
            Ok((v, j)) => Ok((Some(v), j)),
            Err(e) => Err(e),
        }
    } else {
        Ok((None, i))
    }
}

/// Read a 16-bit integer at `i` if `present`, else nothing.
pub open spec fn rd_opt_u16(d: Seq<u8>, i: int, present: bool) -> Result<(Option<u16>, int), Error> {
    if present {
        match rd_u16(d, i) {
            Ok((v, j)) => Ok((Some(v), j)),
            Err(e) => Err(e),
        }
    } else {
        Ok((None, i))
    }
}

/// Read `n` bytes at `i` if `present`, else nothing.
pub open spec fn rd_opt_bytes(d: Seq<u8>, i: int, present: bool, n: int) -> Result<
    (Option<Seq<u8>>, int),
    Error,
> {
    if present {
        match rd_bytes(d, i, n) {
            Ok((b, j)) => Ok((Some(b), j)),
            Err(e) => Err(e),
        }
    } else {
        Ok((None, i))
    }
}

// ---------------------------------------------------------------------------
// TLV
// ---------------------------------------------------------------------------

/// Mathematical value of one decoded type-length-value entry.
pub ghost struct SpecTlv {
    pub typ: u8,
    pub type_ext: Option<u8>,
    pub start_index: Option<u8>,
    pub stop_index: Option<u8>,
    pub value: Option<Seq<u8>>,
}

/// The index fields of a TLV: none, a start index alone, or a start and a
/// stop index. Both index flags set together counts as the multi-index case.
pub open spec fn tlv_indices_dec(d: Seq<u8>, i: int, flags: u8) -> Result<
    ((Option<u8>, Option<u8>), int),
    Error,
> {
    let single = bit(flags, TLV_HAS_SINGLE_INDEX);
    let multi = bit(flags, TLV_HAS_MULTI_INDEX);
    if !single && !multi {
        Ok(((None, None), i))
    } else if single && !multi {
        match rd_u8(d, i) {
            Ok((s, j)) => Ok(((Some(s), None), j)),
            Err(e) => Err(e),
        }
    } else {
        match rd_u8(d, i) {
            Ok((s, j)) => match rd_u8(d, j) {
                Ok((t, k)) => Ok(((Some(s), Some(t)), k)),
                Err(e) => Err(e),
            },
            Err(e) => Err(e),
        }
    }
}

/// The value bytes of a TLV once its length `n` is known. A length of zero
/// yields no value even though the has-value flag was set.
pub open spec fn tlv_value_bytes(d: Seq<u8>, i: int, n: int) -> Result<
    (Option<Seq<u8>>, int),
    Error,
> {
    if n == 0 {
        Ok((None, i))
    } else {
        match rd_bytes(d, i, n) {
            Ok((b, j)) => Ok((Some(b), j)),
            Err(e) => Err(e),
        }
    }
}

/// The length and value of a TLV. The length field is absent without the
/// has-value flag and is 8 or 16 bits wide depending on the ext-len flag.
pub open spec fn tlv_value_dec(d: Seq<u8>, i: int, flags: u8) -> Result<
    (Option<Seq<u8>>, int),
    Error,
> {
    if !bit(flags, TLV_HAS_VALUE) {
        Ok((None, i))
    } else if !bit(flags, TLV_HAS_EXT_LEN) {
        match rd_u8(d, i) {
            Ok((n, j)) => tlv_value_bytes(d, j, n as int),
            Err(e) => Err(e),
        }
    } else {
        match rd_u16(d, i) {
            Ok((n, j)) => tlv_value_bytes(d, j, n as int),
            Err(e) => Err(e),
        }
    }
}

/// One TLV entry: type, flags, then the flag-gated optional fields in order.
/// Reserved flag bits are accepted, never rejected.
pub open spec fn tlv_dec(d: Seq<u8>, i: int) -> Result<(SpecTlv, int), Error> {
    match rd_u8(d, i) {
        Err(e) => Err(e),
        Ok((typ, i1)) => match rd_u8(d, i1) {
            Err(e) => Err(e),
            Ok((flags, i2)) => match rd_opt_u8(d, i2, bit(flags, TLV_HAS_TYPE_EXT)) {
                Err(e) => Err(e),
                Ok((type_ext, i3)) => match tlv_indices_dec(d, i3, flags) {
                    Err(e) => Err(e),
                    Ok((idx, i4)) => match tlv_value_dec(d, i4, flags) {
                        Err(e) => Err(e),
                        Ok((value, i5)) => Ok(
                            (
                                SpecTlv {
                                    typ,
                                    type_ext,
                                    start_index: idx.0,
                                    stop_index: idx.1,
                                    value,
                                },
                                i5,
                            ),
                        ),
                    },
                },
            },
        },
    }
}

/// A TLV block: a 16-bit length followed by exactly that many bytes, which
/// are the concatenated TLV entries. The result is the raw block contents.
pub open spec fn tlv_block_dec(d: Seq<u8>, i: int) -> Result<(Seq<u8>, int), Error> {
    match rd_u16(d, i) {
        Err(e) => Err(e),
        Ok((n, j)) => rd_bytes(d, j, n as int),
    }
}

/// A TLV block if `present`, else nothing.
pub open spec fn opt_tlv_block_dec(d: Seq<u8>, i: int, present: bool) -> Result<
    (Option<Seq<u8>>, int),
    Error,
> {
    if present {
        match tlv_block_dec(d, i) {
            Ok((b, j)) => Ok((Some(b), j)),
            Err(e) => Err(e),
        }
    } else {
        Ok((None, i))
    }
}

// ---------------------------------------------------------------------------
// Address block
// ---------------------------------------------------------------------------

/// Mathematical value of one decoded address block: the four raw components
/// of the compressed address list. Addresses are never reconstructed here.
pub ghost struct SpecAddressBlock {
    pub num_addr: int,
    pub head: Option<Seq<u8>>,
    pub tail: Option<Seq<u8>>,
    pub mid: Option<Seq<u8>>,
    pub prefix_lengths: Option<Seq<u8>>,
}

/// The head phase: with the has-head flag, a length byte then that many
/// shared head bytes. Yields the head length and the head bytes.
pub open spec fn addr_head_dec(d: Seq<u8>, i: int, flags: u8) -> Result<
    ((int, Option<Seq<u8>>), int),
    Error,
> {
    if bit(flags, ADDR_HAS_HEAD) {
        match rd_u8(d, i) {
            Ok((hl, j)) => match rd_bytes(d, j, hl as int) {
                Ok((h, k)) => Ok(((hl as int, Some(h)), k)),
                Err(e) => Err(e),
            },
            Err(e) => Err(e),
        }
    } else {
        Ok(((0, None), i))
    }
}

/// The tail phase. Neither or both tail flags: no tail fields at all. Only
/// the full-tail flag: a length byte, then that many shared tail bytes if
/// the length is nonzero. Only the zero-tail flag: a length byte and no
/// bytes (the tail is implicitly all zero). Yields the tail length and the
/// tail bytes.
pub open spec fn addr_tail_dec(d: Seq<u8>, i: int, flags: u8) -> Result<
    ((int, Option<Seq<u8>>), int),
    Error,
> {
    let full = bit(flags, ADDR_HAS_FULL_TAIL);
    let zero = bit(flags, ADDR_HAS_ZERO_TAIL);
    if full == zero {
        Ok(((0, None), i))
    } else if full {
        match rd_u8(d, i) {
            Ok((tl, j)) => if tl == 0 {
                Ok(((0, None), j))
            } else {
                match rd_bytes(d, j, tl as int) {
                    Ok((t, k)) => Ok(((tl as int, Some(t)), k)),
                    Err(e) => Err(e),
                }
            },
            Err(e) => Err(e),
        }
    } else {
        match rd_u8(d, i) {
            Ok((tl, j)) => Ok(((tl as int, None), j)),
            Err(e) => Err(e),
        }
    }
}

/// The mid phase: with a nonzero per-address mid length, the concatenated
/// per-address middles, `mid_len * num_addr` bytes in all.
pub open spec fn addr_mid_dec(d: Seq<u8>, i: int, mid_len: int, num_addr: u8) -> Result<
    (Option<Seq<u8>>, int),
    Error,
> {
    if mid_len != 0 {
        match rd_bytes(d, i, mid_len * num_addr) {
            Ok((m, j)) => Ok((Some(m), j)),
            Err(e) => Err(e),
        }
    } else {
        Ok((None, i))
    }
}

/// How many prefix-length bytes the flags call for: none when neither or
/// both prefix flags are set, one for the single flag, `num_addr` for the
/// multi flag.
pub open spec fn addr_prefix_count(flags: u8, num_addr: u8) -> int {
    let single = bit(flags, ADDR_HAS_SINGLE_PRELEN);
    let multi = bit(flags, ADDR_HAS_MULTI_PRELEN);
    if single == multi {
        0
    } else if single {
        1
    } else {
        num_addr as int
    }
}

/// A prefix length in bits cannot exceed the address width in bits.
pub open spec fn prefixes_ok(p: Seq<u8>, alen: int) -> bool {
    forall|k: int| 0 <= k < p.len() ==> #[trigger] p[k] <= 8 * alen
}

/// The prefix phase: the prefix-length bytes the flags call for, each of
/// which must not exceed `8 * alen`, the one validation rule of the format
/// beyond bounds checking.
pub open spec fn addr_prefix_dec(d: Seq<u8>, i: int, flags: u8, num_addr: u8, alen: int) -> Result<
    (Option<Seq<u8>>, int),
    Error,
> {
    let cnt = addr_prefix_count(flags, num_addr);
    if cnt == 0 {
        Ok((None, i))
    } else {
        match rd_bytes(d, i, cnt) {
            Ok((p, j)) => if prefixes_ok(p, alen) {
                Ok((Some(p), j))
            } else {
                Err(Error::PrefixTooLarge)
            },
            Err(e) => Err(e),
        }
    }
}

/// One address block, given the address length `alen` in bytes supplied by
/// the enclosing message. A head and tail whose lengths together exceed
/// `alen` are malformed: the mid-length subtraction is checked and fails
/// cleanly instead of wrapping.
pub open spec fn addr_block_dec(d: Seq<u8>, i: int, alen: int) -> Result<
    (SpecAddressBlock, int),
    Error,
> {
    match rd_u8(d, i) {
        Err(e) => Err(e),
        Ok((num_addr, i1)) => match rd_u8(d, i1) {
            Err(e) => Err(e),
            Ok((flags, i2)) => match addr_head_dec(d, i2, flags) {
                Err(e) => Err(e),
                Ok((hd, i3)) => match addr_tail_dec(d, i3, flags) {
                    Err(e) => Err(e),
                    Ok((tl, i4)) => if hd.0 + tl.0 > alen {
                        Err(Error::UnexpectedEof)
                    } else {
                        match addr_mid_dec(d, i4, alen - hd.0 - tl.0, num_addr) {
                            Err(e) => Err(e),
                            Ok((mid, i5)) => match addr_prefix_dec(d, i5, flags, num_addr, alen) {
                                Err(e) => Err(e),
                                Ok((pl, i6)) => Ok(
                                    (
                                        SpecAddressBlock {
                                            num_addr: num_addr as int,
                                            head: hd.1,
                                            tail: tl.1,
                                            mid,
                                            prefix_lengths: pl,
                                        },
                                        i6,
                                    ),
                                ),
                            },
                        }
                    },
                },
            },
        },
    }
}

/// One `(address block, TLV block)` pair of a message's address-TLV region.
pub open spec fn addr_tlv_dec(d: Seq<u8>, i: int, alen: int) -> Result<
    ((SpecAddressBlock, Seq<u8>), int),
    Error,
> {
    match addr_block_dec(d, i, alen) {
        Err(e) => Err(e),
        Ok((ab, j)) => match tlv_block_dec(d, j) {
            Err(e) => Err(e),
            Ok((blk, k)) => Ok(((ab, blk), k)),
        },
    }
}

// ---------------------------------------------------------------------------
// Message
// ---------------------------------------------------------------------------

/// Mathematical value of one decoded message header.
pub ghost struct SpecMsgHeader {
    pub typ: u8,
    /// Bytes per address, `1..=16`: stored on the wire as a nibble plus one.
    pub address_length: int,
    /// Declared total size of the message, its own header included.
    pub size: int,
    pub orig_addr: Option<Seq<u8>>,
    pub hop_limit: Option<u8>,
    pub hop_count: Option<u8>,
    pub seq_num: Option<u16>,
}

/// Mathematical value of a message's address-TLV region: the address length
/// its blocks are decoded with, and the raw bytes of the region.
pub ghost struct SpecAddressTlvs {
    pub address_length: int,
    pub data: Seq<u8>,
}

/// Mathematical value of one decoded message.
pub ghost struct SpecMessage {
    pub hdr: SpecMsgHeader,
    /// Raw contents of the message's own TLV block.
    pub tlv_block: Seq<u8>,
    /// The `(address block, TLV block)` pair region that fills the rest of
    /// the message's declared size.
    pub address_tlv: SpecAddressTlvs,
}

/// One message header: type, a byte whose high nibble holds the flags and
/// whose low nibble holds `address_length - 1`, a 16-bit size, then the
/// flag-gated optional fields in order.
pub open spec fn msg_header_dec(d: Seq<u8>, i: int) -> Result<(SpecMsgHeader, int), Error> {
    match rd_u8(d, i) {
        Err(e) => Err(e),
        Ok((typ, i1)) => match rd_u8(d, i1) {
            Err(e) => Err(e),
            Ok((b, i2)) => {
                let flags = b & 0xf0;
                let alen = (b & 0x0f) as int + 1;
                match rd_u16(d, i2) {
                    Err(e) => Err(e),
                    Ok((size, i3)) => match rd_opt_bytes(d, i3, bit(flags, MSG_HAS_ORIG), alen) {
                        Err(e) => Err(e),
                        Ok((orig, i4)) => match rd_opt_u8(d, i4, bit(flags, MSG_HAS_HOP_LIMIT)) {
                            Err(e) => Err(e),
                            Ok((hl, i5)) => match rd_opt_u8(d, i5, bit(flags, MSG_HAS_HOP_COUNT)) {
                                Err(e) => Err(e),
                                Ok((hc, i6)) => match rd_opt_u16(
                                    d,
                                    i6,
                                    bit(flags, MSG_HAS_SEQ_NUM),
                                ) {
                                    Err(e) => Err(e),
                                    Ok((sn, i7)) => Ok(
                                        (
                                            SpecMsgHeader {
                                                typ,
                                                address_length: alen,
                                                size: size as int,
                                                orig_addr: orig,
                                                hop_limit: hl,
                                                hop_count: hc,
                                                seq_num: sn,
                                            },
                                            i7,
                                        ),
                                    ),
                                },
                            },
                        },
                    },
                }
            },
        },
    }
}

/// One message: header, the message's TLV block, then the remainder of the
/// declared size as the address-TLV region. A declared size smaller than
/// what the header and TLV block actually consumed is malformed: the
/// subtraction is checked and fails cleanly instead of wrapping.
pub open spec fn msg_dec(d: Seq<u8>, i: int) -> Result<(SpecMessage, int), Error> {
    match msg_header_dec(d, i) {
        Err(e) => Err(e),
        Ok((h, j)) => match tlv_block_dec(d, j) {
            Err(e) => Err(e),
            Ok((blk, k)) => if h.size < k - i {
                Err(Error::UnexpectedEof)
            } else {
                match rd_bytes(d, k, h.size - (k - i)) {
                    Err(e) => Err(e),
                    Ok((region, m)) => Ok(
                        (
                            SpecMessage {
                                hdr: h,
                                tlv_block: blk,
                                address_tlv: SpecAddressTlvs {
                                    address_length: h.address_length,
                                    data: region,
                                },
                            },
                            m,
                        ),
                    ),
                }
            },
        },
    }
}

// ---------------------------------------------------------------------------
// Packet
// ---------------------------------------------------------------------------

/// Mathematical value of one decoded packet header.
pub ghost struct SpecPktHeader {
    pub version: u8,
    pub seq_num: Option<u16>,
    /// Raw contents of the packet-level TLV block, when present.
    pub tlv_block: Option<Seq<u8>>,
}

/// Mathematical value of one decoded packet: the header, and the raw bytes
/// of the message area that fills the rest of the buffer.
pub ghost struct SpecPacket {
    pub hdr: SpecPktHeader,
    pub messages: Seq<u8>,
}

/// The packet header: a byte whose high nibble is the version, which must
/// equal [`crate::RFC5444_VERSION`], and whose low nibble holds the packet
/// flags; then an optional sequence number and an optional TLV block.
/// Reserved flag bits are ignored, not rejected. The version is checked
/// right after that first byte, before anything further is read.
pub open spec fn pkt_header_dec(d: Seq<u8>, i: int) -> Result<(SpecPktHeader, int), Error> {
    match rd_u8(d, i) {
        Err(e) => Err(e),
        Ok((b, i1)) => if b >> 4 != crate::RFC5444_VERSION {
            Err(Error::InvalidVersion)
        } else {
            match rd_opt_u16(d, i1, bit(b & 0x0f, PKT_HAS_SEQ_NUM)) {
                Err(e) => Err(e),
                Ok((sn, i2)) => match opt_tlv_block_dec(d, i2, bit(b & 0x0f, PKT_HAS_TLV)) {
                    Err(e) => Err(e),
                    Ok((blk, i3)) => Ok(
                        (SpecPktHeader { version: b >> 4, seq_num: sn, tlv_block: blk }, i3),
                    ),
                },
            }
        },
    }
}

/// A decoded TLV ends strictly after where it began and within the buffer:
/// a traversal that pulls one TLV at a time makes progress.
pub proof fn lemma_tlv_dec_bounds(d: Seq<u8>, i: int)
    ensures
        tlv_dec(d, i) matches Ok(tj) ==> i < tj.1 <= d.len(),
{
}

/// A decoded message ends strictly after where it began and within the
/// buffer: a traversal that pulls one message at a time makes progress.
pub proof fn lemma_msg_dec_bounds(d: Seq<u8>, i: int)
    ensures
        msg_dec(d, i) matches Ok(mj) ==> i < mj.1 <= d.len(),
{
}

/// A decoded `(address block, TLV block)` pair ends strictly after where it
/// began and within the buffer: a traversal that pulls one pair at a time
/// makes progress.
pub proof fn lemma_addr_tlv_dec_bounds(d: Seq<u8>, i: int, alen: int)
    ensures
        addr_tlv_dec(d, i, alen) matches Ok(pj) ==> i < pj.1 <= d.len(),
{
}

/// A decoded message header ends at or after where it began and within the
/// buffer, so the size-remainder subtraction of [`msg_dec`] is meaningful.
pub proof fn lemma_msg_header_dec_bounds(d: Seq<u8>, i: int)
    ensures
        msg_header_dec(d, i) matches Ok(hj) ==> i <= hj.1 <= d.len(),
{
}

/// A decoded TLV block ends at or after where it began and within the
/// buffer.
pub proof fn lemma_tlv_block_dec_bounds(d: Seq<u8>, i: int)
    ensures
        tlv_block_dec(d, i) matches Ok(bj) ==> i <= bj.1 <= d.len(),
{
}

/// A decoded packet header ends at or after where it began and within the
/// buffer, so the rest of the buffer is a well-defined message area.
pub proof fn lemma_pkt_header_dec_bounds(d: Seq<u8>, i: int)
    ensures
        pkt_header_dec(d, i) matches Ok(hj) ==> i <= hj.1 <= d.len(),
{
}

/// One packet: the header, then the whole rest of the buffer as the message
/// area, decoded lazily one message at a time.
pub open spec fn packet_dec(d: Seq<u8>) -> Result<SpecPacket, Error> {
    match pkt_header_dec(d, 0) {
        Err(e) => Err(e),
        Ok((h, j)) => Ok(SpecPacket { hdr: h, messages: d.subrange(j, d.len() as int) }),
    }
}

} // verus!
