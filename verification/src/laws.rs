//! Format-level guarantees, proved once and for all over the wire model.
//!
//! The truncation lemmas say that cutting a buffer anywhere inside a
//! structure that would otherwise decode turns the decode into
//! [`Error::UnexpectedEof`] — never into a different error and never into a
//! success with different content — while cutting at or after its end
//! changes nothing. The remaining lemmas pin down the version gate, the
//! prefix-length bound, and the two checked subtractions of the format.

use vstd::prelude::*;

use crate::error::Error;
use crate::wire::addr_block_dec;
use crate::wire::addr_head_dec;
use crate::wire::addr_mid_dec;
use crate::wire::addr_prefix_count;
use crate::wire::addr_prefix_dec;
use crate::wire::addr_tail_dec;
use crate::wire::bit;
use crate::wire::msg_dec;
use crate::wire::msg_header_dec;
use crate::wire::opt_tlv_block_dec;
use crate::wire::packet_dec;
use crate::wire::pkt_header_dec;
use crate::wire::prefixes_ok;
use crate::wire::rd_bytes;
use crate::wire::rd_opt_bytes;
use crate::wire::rd_opt_u16;
use crate::wire::rd_opt_u8;
use crate::wire::rd_u16;
use crate::wire::rd_u8;
use crate::wire::tlv_block_dec;
use crate::wire::tlv_dec;
use crate::wire::tlv_indices_dec;
use crate::wire::tlv_value_bytes;
use crate::wire::tlv_value_dec;
use crate::wire::SpecAddressBlock;
use crate::wire::SpecMessage;
use crate::wire::SpecMsgHeader;
use crate::wire::SpecPacket;
use crate::wire::SpecPktHeader;
use crate::wire::SpecTlv;
use crate::wire::MSG_HAS_HOP_COUNT;
use crate::wire::MSG_HAS_HOP_LIMIT;
use crate::wire::MSG_HAS_ORIG;
use crate::wire::MSG_HAS_SEQ_NUM;
use crate::wire::PKT_HAS_SEQ_NUM;
use crate::wire::PKT_HAS_TLV;
use crate::wire::TLV_HAS_TYPE_EXT;

verus! {

// ---------------------------------------------------------------------------
// Truncation behaviour of the primitive reads.
// ---------------------------------------------------------------------------

proof fn l_rd_u8_t(d: Seq<u8>, i: int, n: int)
    requires
        0 <= n <= d.len(),
    ensures
        rd_u8(d, i) matches Ok(vj) ==> i < vj.1 <= d.len(),
        rd_u8(d, i) matches Ok(vj) ==> (vj.1 <= n ==> rd_u8(d.take(n), i) == rd_u8(d, i)),
        rd_u8(d, i) matches Ok(vj) ==> (i <= n && n < vj.1 ==> rd_u8(d.take(n), i) == Err::<
            (u8, int),
            Error,
        >(Error::UnexpectedEof)),
{
}

proof fn l_rd_u16_t(d: Seq<u8>, i: int, n: int)
    requires
        0 <= n <= d.len(),
    ensures
        rd_u16(d, i) matches Ok(vj) ==> i < vj.1 <= d.len(),
        rd_u16(d, i) matches Ok(vj) ==> (vj.1 <= n ==> rd_u16(d.take(n), i) == rd_u16(d, i)),
        rd_u16(d, i) matches Ok(vj) ==> (i <= n && n < vj.1 ==> rd_u16(d.take(n), i) == Err::<
            (u16, int),
            Error,
        >(Error::UnexpectedEof)),
{
}

proof fn l_rd_bytes_t(d: Seq<u8>, i: int, m: int, n: int)
    requires
        0 <= n <= d.len(),
    ensures
        rd_bytes(d, i, m) matches Ok(bj) ==> i <= bj.1 <= d.len(),
        rd_bytes(d, i, m) matches Ok(bj) ==> (bj.1 <= n ==> rd_bytes(d.take(n), i, m) == rd_bytes(
            d,
            i,
            m,
        )),
        rd_bytes(d, i, m) matches Ok(bj) ==> (i <= n && n < bj.1 ==> rd_bytes(d.take(n), i, m)
            == Err::<(Seq<u8>, int), Error>(Error::UnexpectedEof)),
{
    if let Ok((b, j)) = rd_bytes(d, i, m) {
        if j <= n {
            assert(d.take(n).subrange(i, i + m) =~= d.subrange(i, i + m));
        }
    }
}

proof fn l_rd_opt_u8_t(d: Seq<u8>, i: int, p: bool, n: int)
    requires
        0 <= n <= d.len(),
    ensures
        rd_opt_u8(d, i, p) matches Ok(vj) ==> i <= vj.1 <= (if p {
            d.len() as int
        } else {
            i
        }),
        rd_opt_u8(d, i, p) matches Ok(vj) ==> (vj.1 <= n ==> rd_opt_u8(d.take(n), i, p)
            == rd_opt_u8(d, i, p)),
        rd_opt_u8(d, i, p) matches Ok(vj) ==> (i <= n && n < vj.1 ==> rd_opt_u8(d.take(n), i, p)
            == Err::<(Option<u8>, int), Error>(Error::UnexpectedEof)),
{
    l_rd_u8_t(d, i, n);
}

proof fn l_rd_opt_u16_t(d: Seq<u8>, i: int, p: bool, n: int)
    requires
        0 <= n <= d.len(),
    ensures
        rd_opt_u16(d, i, p) matches Ok(vj) ==> i <= vj.1 <= (if p {
            d.len() as int
        } else {
            i
        }),
        rd_opt_u16(d, i, p) matches Ok(vj) ==> (vj.1 <= n ==> rd_opt_u16(d.take(n), i, p)
            == rd_opt_u16(d, i, p)),
        rd_opt_u16(d, i, p) matches Ok(vj) ==> (i <= n && n < vj.1 ==> rd_opt_u16(d.take(n), i, p)
            == Err::<(Option<u16>, int), Error>(Error::UnexpectedEof)),
{
    l_rd_u16_t(d, i, n);
}

proof fn l_rd_opt_bytes_t(d: Seq<u8>, i: int, p: bool, m: int, n: int)
    requires
        0 <= n <= d.len(),
    ensures
        rd_opt_bytes(d, i, p, m) matches Ok(vj) ==> i <= vj.1 <= (if p {
            d.len() as int
        } else {
            i
        }),
        rd_opt_bytes(d, i, p, m) matches Ok(vj) ==> (vj.1 <= n ==> rd_opt_bytes(d.take(n), i, p, m)
            == rd_opt_bytes(d, i, p, m)),
        rd_opt_bytes(d, i, p, m) matches Ok(vj) ==> (i <= n && n < vj.1 ==> rd_opt_bytes(
            d.take(n),
            i,
            p,
            m,
        ) == Err::<(Option<Seq<u8>>, int), Error>(Error::UnexpectedEof)),
{
    l_rd_bytes_t(d, i, m, n);
}

// ---------------------------------------------------------------------------
// Truncation behaviour of the TLV decoders.
// ---------------------------------------------------------------------------

proof fn l_tlv_indices_t(d: Seq<u8>, i: int, flags: u8, n: int)
    requires
        0 <= n <= d.len(),
    ensures
        tlv_indices_dec(d, i, flags) matches Ok(vj) ==> i <= vj.1 <= d.len() || vj.1 == i,
        tlv_indices_dec(d, i, flags) matches Ok(vj) ==> (vj.1 <= n ==> tlv_indices_dec(
            d.take(n),
            i,
            flags,
        ) == tlv_indices_dec(d, i, flags)),
        tlv_indices_dec(d, i, flags) matches Ok(vj) ==> (i <= n && n < vj.1 ==> tlv_indices_dec(
            d.take(n),
            i,
            flags,
        ) == Err::<((Option<u8>, Option<u8>), int), Error>(Error::UnexpectedEof)),
{
    l_rd_u8_t(d, i, n);
    if let Ok((s, j)) = rd_u8(d, i) {
        l_rd_u8_t(d, j, n);
    }
}

proof fn l_tlv_value_bytes_t(d: Seq<u8>, i: int, m: int, n: int)
    requires
        0 <= n <= d.len(),
    ensures
        tlv_value_bytes(d, i, m) matches Ok(vj) ==> i <= vj.1 <= d.len() || vj.1 == i,
        tlv_value_bytes(d, i, m) matches Ok(vj) ==> (vj.1 <= n ==> tlv_value_bytes(d.take(n), i, m)
            == tlv_value_bytes(d, i, m)),
        tlv_value_bytes(d, i, m) matches Ok(vj) ==> (i <= n && n < vj.1 ==> tlv_value_bytes(
            d.take(n),
            i,
            m,
        ) == Err::<(Option<Seq<u8>>, int), Error>(Error::UnexpectedEof)),
{
    l_rd_bytes_t(d, i, m, n);
}

proof fn l_tlv_value_t(d: Seq<u8>, i: int, flags: u8, n: int)
    requires
        0 <= n <= d.len(),
    ensures
        tlv_value_dec(d, i, flags) matches Ok(vj) ==> i <= vj.1 <= d.len() || vj.1 == i,
        tlv_value_dec(d, i, flags) matches Ok(vj) ==> (vj.1 <= n ==> tlv_value_dec(
            d.take(n),
            i,
            flags,
        ) == tlv_value_dec(d, i, flags)),
        tlv_value_dec(d, i, flags) matches Ok(vj) ==> (i <= n && n < vj.1 ==> tlv_value_dec(
            d.take(n),
            i,
            flags,
        ) == Err::<(Option<Seq<u8>>, int), Error>(Error::UnexpectedEof)),
{
    l_rd_u8_t(d, i, n);
    l_rd_u16_t(d, i, n);
    if let Ok((len8, j)) = rd_u8(d, i) {
        l_tlv_value_bytes_t(d, j, len8 as int, n);
    }
    if let Ok((len16, j)) = rd_u16(d, i) {
        l_tlv_value_bytes_t(d, j, len16 as int, n);
    }
}

/// Truncation law for one TLV: if a TLV decodes at `i` and ends at `j`, then
/// on the buffer cut to `n` bytes the same TLV decodes unchanged when
/// `j <= n`, and the decode fails with [`Error::UnexpectedEof`] — no other
/// error, no success — when the cut falls inside it.
pub proof fn lemma_truncation_tlv(d: Seq<u8>, i: int, n: int)
    requires
        0 <= n <= d.len(),
    ensures
        tlv_dec(d, i) matches Ok(tj) ==> i < tj.1 <= d.len(),
        tlv_dec(d, i) matches Ok(tj) ==> (tj.1 <= n ==> tlv_dec(d.take(n), i) == tlv_dec(d, i)),
        tlv_dec(d, i) matches Ok(tj) ==> (i <= n && n < tj.1 ==> tlv_dec(d.take(n), i) == Err::<
            (SpecTlv, int),
            Error,
        >(Error::UnexpectedEof)),
{
    l_rd_u8_t(d, i, n);
    if let Ok((typ, i1)) = rd_u8(d, i) {
        l_rd_u8_t(d, i1, n);
        if let Ok((flags, i2)) = rd_u8(d, i1) {
            l_rd_opt_u8_t(d, i2, bit(flags, TLV_HAS_TYPE_EXT), n);
            if let Ok((te, i3)) = rd_opt_u8(d, i2, bit(flags, TLV_HAS_TYPE_EXT)) {
                l_tlv_indices_t(d, i3, flags, n);
                if let Ok((idx, i4)) = tlv_indices_dec(d, i3, flags) {
                    l_tlv_value_t(d, i4, flags, n);
                }
            }
        }
    }
}

/// Truncation law for a TLV block: cutting the buffer inside a block that
/// would otherwise decode — inside its length field or inside the bytes the
/// length claims — yields [`Error::UnexpectedEof`], and cutting at or after
/// its end changes nothing.
pub proof fn lemma_truncation_tlv_block(d: Seq<u8>, i: int, n: int)
    requires
        0 <= n <= d.len(),
    ensures
        tlv_block_dec(d, i) matches Ok(bj) ==> i < bj.1 <= d.len(),
        tlv_block_dec(d, i) matches Ok(bj) ==> (bj.1 <= n ==> tlv_block_dec(d.take(n), i)
            == tlv_block_dec(d, i)),
        tlv_block_dec(d, i) matches Ok(bj) ==> (i <= n && n < bj.1 ==> tlv_block_dec(d.take(n), i)
            == Err::<(Seq<u8>, int), Error>(Error::UnexpectedEof)),
{
    l_rd_u16_t(d, i, n);
    if let Ok((len, j)) = rd_u16(d, i) {
        l_rd_bytes_t(d, j, len as int, n);
    }
}

proof fn l_opt_tlv_block_t(d: Seq<u8>, i: int, p: bool, n: int)
    requires
        0 <= n <= d.len(),
    ensures
        opt_tlv_block_dec(d, i, p) matches Ok(vj) ==> i <= vj.1 <= d.len() || vj.1 == i,
        opt_tlv_block_dec(d, i, p) matches Ok(vj) ==> (vj.1 <= n ==> opt_tlv_block_dec(
            d.take(n),
            i,
            p,
        ) == opt_tlv_block_dec(d, i, p)),
        opt_tlv_block_dec(d, i, p) matches Ok(vj) ==> (i <= n && n < vj.1 ==> opt_tlv_block_dec(
            d.take(n),
            i,
            p,
        ) == Err::<(Option<Seq<u8>>, int), Error>(Error::UnexpectedEof)),
{
    lemma_truncation_tlv_block(d, i, n);
}

// ---------------------------------------------------------------------------
// Truncation behaviour of the message decoders.
// ---------------------------------------------------------------------------

proof fn l_msg_header_t(d: Seq<u8>, i: int, n: int)
    requires
        0 <= n <= d.len(),
    ensures
        msg_header_dec(d, i) matches Ok(hj) ==> i < hj.1 <= d.len(),
        msg_header_dec(d, i) matches Ok(hj) ==> (hj.1 <= n ==> msg_header_dec(d.take(n), i)
            == msg_header_dec(d, i)),
        msg_header_dec(d, i) matches Ok(hj) ==> (i <= n && n < hj.1 ==> msg_header_dec(
            d.take(n),
            i,
        ) == Err::<(SpecMsgHeader, int), Error>(Error::UnexpectedEof)),
{
    l_rd_u8_t(d, i, n);
    if let Ok((typ, i1)) = rd_u8(d, i) {
        l_rd_u8_t(d, i1, n);
        if let Ok((b, i2)) = rd_u8(d, i1) {
            let flags = b & 0xf0;
            let alen = (b & 0x0f) as int + 1;
            l_rd_u16_t(d, i2, n);
            if let Ok((size, i3)) = rd_u16(d, i2) {
                l_rd_opt_bytes_t(d, i3, bit(flags, MSG_HAS_ORIG), alen, n);
                if let Ok((orig, i4)) = rd_opt_bytes(d, i3, bit(flags, MSG_HAS_ORIG), alen) {
                    l_rd_opt_u8_t(d, i4, bit(flags, MSG_HAS_HOP_LIMIT), n);
                    if let Ok((hl, i5)) = rd_opt_u8(d, i4, bit(flags, MSG_HAS_HOP_LIMIT)) {
                        l_rd_opt_u8_t(d, i5, bit(flags, MSG_HAS_HOP_COUNT), n);
                        if let Ok((hc, i6)) = rd_opt_u8(d, i5, bit(flags, MSG_HAS_HOP_COUNT)) {
                            l_rd_opt_u16_t(d, i6, bit(flags, MSG_HAS_SEQ_NUM), n);
                        }
                    }
                }
            }
        }
    }
}

/// Truncation law for one message: cutting the buffer anywhere inside a
/// message that would otherwise decode — inside its header, its TLV block,
/// or the address-TLV region its declared size claims — yields
/// [`Error::UnexpectedEof`], never a different error and never a success;
/// cutting at or after its end changes nothing.
pub proof fn lemma_truncation_message(d: Seq<u8>, i: int, n: int)
    requires
        0 <= n <= d.len(),
    ensures
        msg_dec(d, i) matches Ok(mj) ==> i < mj.1 <= d.len(),
        msg_dec(d, i) matches Ok(mj) ==> (mj.1 <= n ==> msg_dec(d.take(n), i) == msg_dec(d, i)),
        msg_dec(d, i) matches Ok(mj) ==> (i <= n && n < mj.1 ==> msg_dec(d.take(n), i) == Err::<
            (SpecMessage, int),
            Error,
        >(Error::UnexpectedEof)),
{
    l_msg_header_t(d, i, n);
    if let Ok((h, j)) = msg_header_dec(d, i) {
        lemma_truncation_tlv_block(d, j, n);
        if let Ok((blk, k)) = tlv_block_dec(d, j) {
            if h.size >= k - i {
                l_rd_bytes_t(d, k, h.size - (k - i), n);
            }
        }
    }
}

// ---------------------------------------------------------------------------
// Truncation behaviour of the address-block decoders.
// ---------------------------------------------------------------------------

proof fn l_addr_head_t(d: Seq<u8>, i: int, flags: u8, n: int)
    requires
        0 <= n <= d.len(),
    ensures
        addr_head_dec(d, i, flags) matches Ok(vj) ==> i <= vj.1 <= d.len() || vj.1 == i,
        addr_head_dec(d, i, flags) matches Ok(vj) ==> (vj.1 <= n ==> addr_head_dec(
            d.take(n),
            i,
            flags,
        ) == addr_head_dec(d, i, flags)),
        addr_head_dec(d, i, flags) matches Ok(vj) ==> (i <= n && n < vj.1 ==> addr_head_dec(
            d.take(n),
            i,
            flags,
        ) == Err::<((int, Option<Seq<u8>>), int), Error>(Error::UnexpectedEof)),
{
    l_rd_u8_t(d, i, n);
    if let Ok((hl, j)) = rd_u8(d, i) {
        l_rd_bytes_t(d, j, hl as int, n);
    }
}

proof fn l_addr_tail_t(d: Seq<u8>, i: int, flags: u8, n: int)
    requires
        0 <= n <= d.len(),
    ensures
        addr_tail_dec(d, i, flags) matches Ok(vj) ==> i <= vj.1 <= d.len() || vj.1 == i,
        addr_tail_dec(d, i, flags) matches Ok(vj) ==> (vj.1 <= n ==> addr_tail_dec(
            d.take(n),
            i,
            flags,
        ) == addr_tail_dec(d, i, flags)),
        addr_tail_dec(d, i, flags) matches Ok(vj) ==> (i <= n && n < vj.1 ==> addr_tail_dec(
            d.take(n),
            i,
            flags,
        ) == Err::<((int, Option<Seq<u8>>), int), Error>(Error::UnexpectedEof)),
{
    l_rd_u8_t(d, i, n);
    if let Ok((tl, j)) = rd_u8(d, i) {
        l_rd_bytes_t(d, j, tl as int, n);
    }
}

proof fn l_addr_mid_t(d: Seq<u8>, i: int, mid_len: int, num_addr: u8, n: int)
    requires
        0 <= n <= d.len(),
    ensures
        addr_mid_dec(d, i, mid_len, num_addr) matches Ok(vj) ==> i <= vj.1 <= d.len() || vj.1 == i,
        addr_mid_dec(d, i, mid_len, num_addr) matches Ok(vj) ==> (vj.1 <= n ==> addr_mid_dec(
            d.take(n),
            i,
            mid_len,
            num_addr,
        ) == addr_mid_dec(d, i, mid_len, num_addr)),
        addr_mid_dec(d, i, mid_len, num_addr) matches Ok(vj) ==> (i <= n && n < vj.1
            ==> addr_mid_dec(d.take(n), i, mid_len, num_addr) == Err::<
            (Option<Seq<u8>>, int),
            Error,
        >(Error::UnexpectedEof)),
{
    l_rd_bytes_t(d, i, mid_len * num_addr, n);
}

proof fn l_addr_prefix_t(d: Seq<u8>, i: int, flags: u8, num_addr: u8, alen: int, n: int)
    requires
        0 <= n <= d.len(),
    ensures
        addr_prefix_dec(d, i, flags, num_addr, alen) matches Ok(vj) ==> i <= vj.1 <= d.len()
            || vj.1 == i,
        addr_prefix_dec(d, i, flags, num_addr, alen) matches Ok(vj) ==> (vj.1 <= n
            ==> addr_prefix_dec(d.take(n), i, flags, num_addr, alen) == addr_prefix_dec(
            d,
            i,
            flags,
            num_addr,
            alen,
        )),
        addr_prefix_dec(d, i, flags, num_addr, alen) matches Ok(vj) ==> (i <= n && n < vj.1
            ==> addr_prefix_dec(d.take(n), i, flags, num_addr, alen) == Err::<
            (Option<Seq<u8>>, int),
            Error,
        >(Error::UnexpectedEof)),
{
    l_rd_bytes_t(d, i, addr_prefix_count(flags, num_addr), n);
}

/// Truncation law for one address block: cutting the buffer anywhere inside
/// an address block that would otherwise decode yields
/// [`Error::UnexpectedEof`] — in particular never [`Error::PrefixTooLarge`],
/// because the prefix bytes are only judged once they are all present — and
/// cutting at or after its end changes nothing.
pub proof fn lemma_truncation_addr_block(d: Seq<u8>, i: int, alen: int, n: int)
    requires
        0 <= n <= d.len(),
    ensures
        addr_block_dec(d, i, alen) matches Ok(bj) ==> i < bj.1 <= d.len(),
        addr_block_dec(d, i, alen) matches Ok(bj) ==> (bj.1 <= n ==> addr_block_dec(
            d.take(n),
            i,
            alen,
        ) == addr_block_dec(d, i, alen)),
        addr_block_dec(d, i, alen) matches Ok(bj) ==> (i <= n && n < bj.1 ==> addr_block_dec(
            d.take(n),
            i,
            alen,
        ) == Err::<(SpecAddressBlock, int), Error>(Error::UnexpectedEof)),
{
    l_rd_u8_t(d, i, n);
    if let Ok((num_addr, i1)) = rd_u8(d, i) {
        l_rd_u8_t(d, i1, n);
        if let Ok((flags, i2)) = rd_u8(d, i1) {
            l_addr_head_t(d, i2, flags, n);
            if let Ok((hd, i3)) = addr_head_dec(d, i2, flags) {
                l_addr_tail_t(d, i3, flags, n);
                if let Ok((tl, i4)) = addr_tail_dec(d, i3, flags) {
                    if hd.0 + tl.0 <= alen {
                        l_addr_mid_t(d, i4, alen - hd.0 - tl.0, num_addr, n);
                        if let Ok((mid, i5)) = addr_mid_dec(d, i4, alen - hd.0 - tl.0, num_addr) {
                            l_addr_prefix_t(d, i5, flags, num_addr, alen, n);
                        }
                    }
                }
            }
        }
    }
}

// ---------------------------------------------------------------------------
// Truncation behaviour of the packet decoders.
// ---------------------------------------------------------------------------

/// Truncation law for the packet header: cutting the buffer inside a header
/// that would otherwise decode yields [`Error::UnexpectedEof`] — in
/// particular never [`Error::InvalidVersion`], because the version nibble of
/// a header that decoded was valid and is unchanged by the cut — and cutting
/// at or after its end changes nothing.
pub proof fn lemma_truncation_pkt_header(d: Seq<u8>, i: int, n: int)
    requires
        0 <= n <= d.len(),
    ensures
        pkt_header_dec(d, i) matches Ok(hj) ==> i < hj.1 <= d.len(),
        pkt_header_dec(d, i) matches Ok(hj) ==> (hj.1 <= n ==> pkt_header_dec(d.take(n), i)
            == pkt_header_dec(d, i)),
        pkt_header_dec(d, i) matches Ok(hj) ==> (i <= n && n < hj.1 ==> pkt_header_dec(
            d.take(n),
            i,
        ) == Err::<(SpecPktHeader, int), Error>(Error::UnexpectedEof)),
{
    l_rd_u8_t(d, i, n);
    if let Ok((b, i1)) = rd_u8(d, i) {
        l_rd_opt_u16_t(d, i1, bit(b & 0x0f, PKT_HAS_SEQ_NUM), n);
        if let Ok((sn, i2)) = rd_opt_u16(d, i1, bit(b & 0x0f, PKT_HAS_SEQ_NUM)) {
            l_opt_tlv_block_t(d, i2, bit(b & 0x0f, PKT_HAS_TLV), n);
        }
    }
}

/// Truncation law for a whole packet: cutting the buffer inside the packet
/// header yields [`Error::UnexpectedEof`]; cutting anywhere in the message
/// area leaves the header decode unchanged and merely shortens the area —
/// whose messages then fall under [`lemma_truncation_message`].
pub proof fn lemma_truncation_packet(d: Seq<u8>, n: int)
    requires
        0 <= n <= d.len(),
    ensures
        pkt_header_dec(d, 0) matches Ok(hj) ==> (n < hj.1 ==> packet_dec(d.take(n)) == Err::<
            SpecPacket,
            Error,
        >(Error::UnexpectedEof)),
        pkt_header_dec(d, 0) matches Ok(hj) ==> (hj.1 <= n ==> (packet_dec(d.take(n)) matches Ok(p)
            && p.hdr == hj.0 && p.messages == d.subrange(hj.1, n))),
{
    lemma_truncation_pkt_header(d, 0, n);
    if let Ok((h, j)) = pkt_header_dec(d, 0) {
        if j <= n {
            assert(d.take(n).subrange(j, n) =~= d.subrange(j, n));
        }
    }
}

// ---------------------------------------------------------------------------
// The version gate.
// ---------------------------------------------------------------------------

/// Version gate: a buffer whose version nibble differs from
/// [`crate::RFC5444_VERSION`] is rejected with [`Error::InvalidVersion`]
/// right after that first byte, whatever the rest of the buffer holds.
pub proof fn lemma_version_gate(d: Seq<u8>, i: int)
    requires
        0 <= i < d.len(),
        d[i] >> 4 != crate::RFC5444_VERSION,
    ensures
        pkt_header_dec(d, i) == Err::<(SpecPktHeader, int), Error>(Error::InvalidVersion),
        i == 0 ==> packet_dec(d) == Err::<SpecPacket, Error>(Error::InvalidVersion),
{
}

// ---------------------------------------------------------------------------
// The prefix-length bound.
// ---------------------------------------------------------------------------

/// Does an address block at `i` decode as far as its prefix-length bytes,
/// with at least one of them exceeding `8 * alen`? This spells out the one
/// configuration in which the decoder reports [`Error::PrefixTooLarge`].
pub open spec fn addr_block_oversized_prefix(d: Seq<u8>, i: int, alen: int) -> bool {
    match rd_u8(d, i) {
        Err(_) => false,
        Ok((num_addr, i1)) => match rd_u8(d, i1) {
            Err(_) => false,
            Ok((flags, i2)) => match addr_head_dec(d, i2, flags) {
                Err(_) => false,
                Ok((hd, i3)) => match addr_tail_dec(d, i3, flags) {
                    Err(_) => false,
                    Ok((tl, i4)) => hd.0 + tl.0 <= alen && match addr_mid_dec(
                        d,
                        i4,
                        alen - hd.0 - tl.0,
                        num_addr,
                    ) {
                        Err(_) => false,
                        Ok((mid, i5)) => addr_prefix_count(flags, num_addr) != 0 && match rd_bytes(
                            d,
                            i5,
                            addr_prefix_count(flags, num_addr),
                        ) {
                            Err(_) => false,
                            Ok((p, i6)) => !prefixes_ok(p, alen),
                        },
                    },
                },
            },
        },
    }
}

/// Prefix bound: an address block yields [`Error::PrefixTooLarge`] exactly
/// when its prefix-length bytes are all present and one of them exceeds
/// `8 * alen`; and a block that decodes hands out only bounded prefixes.
pub proof fn lemma_prefix_bound(d: Seq<u8>, i: int, alen: int)
    ensures
        addr_block_dec(d, i, alen) == Err::<(SpecAddressBlock, int), Error>(Error::PrefixTooLarge)
            <==> addr_block_oversized_prefix(d, i, alen),
        addr_block_dec(d, i, alen) matches Ok(bj) ==> (bj.0.prefix_lengths matches Some(p)
            ==> prefixes_ok(p, alen)),
{
}

// ---------------------------------------------------------------------------
// The two checked subtractions.
// ---------------------------------------------------------------------------

/// Does an address block at `i` declare a head and tail whose lengths
/// together exceed the address length? The mid-length subtraction would wrap
/// on such a block.
pub open spec fn addr_block_head_tail_overflow(d: Seq<u8>, i: int, alen: int) -> bool {
    match rd_u8(d, i) {
        Err(_) => false,
        Ok((num_addr, i1)) => match rd_u8(d, i1) {
            Err(_) => false,
            Ok((flags, i2)) => match addr_head_dec(d, i2, flags) {
                Err(_) => false,
                Ok((hd, i3)) => match addr_tail_dec(d, i3, flags) {
                    Err(_) => false,
                    Ok((tl, i4)) => hd.0 + tl.0 > alen,
                },
            },
        },
    }
}

/// Underflow guard for address blocks: a head and tail whose lengths
/// together exceed the address length fail cleanly with
/// [`Error::UnexpectedEof`] instead of wrapping the mid-length subtraction.
pub proof fn lemma_underflow_guard_addr_block(d: Seq<u8>, i: int, alen: int)
    requires
        addr_block_head_tail_overflow(d, i, alen),
    ensures
        addr_block_dec(d, i, alen) == Err::<(SpecAddressBlock, int), Error>(Error::UnexpectedEof),
{
}

/// Does a message at `i` declare a size smaller than what its header and TLV
/// block actually consume? The size-remainder subtraction would wrap on such
/// a message.
pub open spec fn msg_declared_size_short(d: Seq<u8>, i: int) -> bool {
    match msg_header_dec(d, i) {
        Err(_) => false,
        Ok((h, j)) => match tlv_block_dec(d, j) {
            Err(_) => false,
            Ok((blk, k)) => h.size < k - i,
        },
    }
}

/// Underflow guard for messages: a declared size smaller than the bytes the
/// header and TLV block consumed fails cleanly with
/// [`Error::UnexpectedEof`] instead of wrapping the size-remainder
/// subtraction.
pub proof fn lemma_underflow_guard_message(d: Seq<u8>, i: int)
    requires
        msg_declared_size_short(d, i),
    ensures
        msg_dec(d, i) == Err::<(SpecMessage, int), Error>(Error::UnexpectedEof),
{
}

} // verus!
