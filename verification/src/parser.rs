//! Free-function entry points to every decoder, for callers that prefer
//! them over the methods of the decoded types.

use vstd::prelude::*;

use crate::addrtlv::AddressBlock;
use crate::addrtlv::MAX_ADDR_LEN;
use crate::buf::Buf;
use crate::error::Error;
use crate::msg::Message;
use crate::msg::MsgHeader;
use crate::packet::Packet;
use crate::packet::PktHeader;
use crate::tlv::Tlv;
use crate::tlv::TlvBlock;
use crate::wire::addr_block_dec;
use crate::wire::msg_dec;
use crate::wire::msg_header_dec;
use crate::wire::packet_dec;
use crate::wire::pkt_header_dec;
use crate::wire::tlv_block_dec;
use crate::wire::tlv_dec;

verus! {

/// Parse one packet from a byte buffer. See [`Packet::read`].
pub fn packet<'a>(buf: &'a [u8]) -> (r: Result<Packet<'a>, Error>)
    ensures
        match packet_dec(buf@) {
            Ok(p) => r matches Ok(v) && v@ == p,
            Err(e) => r matches Err(e2) && e2 == e,
        },
{
    Packet::read(buf)
}

/// Parse a packet header at the cursor. See [`PktHeader`].
pub fn pkt_header<'a>(buf: &mut Buf<'a>) -> (r: Result<PktHeader<'a>, Error>)
    ensures
        final(buf).data() == old(buf).data(),
        match pkt_header_dec(old(buf).data(), old(buf).off()) {
            Ok((h, j)) => r matches Ok(v) && v@ == h && final(buf).off() == j,
            Err(e) => r matches Err(e2) && e2 == e && (e is InvalidVersion ==> final(buf).off()
                == old(buf).off() + 1),
        },
{
    PktHeader::read(buf)
}

/// Parse one message at the cursor. See [`Message::read`].
pub fn message<'a>(buf: &mut Buf<'a>) -> (r: Result<Message<'a>, Error>)
    ensures
        final(buf).data() == old(buf).data(),
        match msg_dec(old(buf).data(), old(buf).off()) {
            Ok((m, j)) => r matches Ok(v) && v@ == m && final(buf).off() == j
                && v.address_tlv.wf(),
            Err(e) => r matches Err(e2) && e2 == e,
        },
{
    Message::read(buf)
}

/// Parse a message header at the cursor. See [`MsgHeader::read`].
pub fn msg_header<'a>(buf: &mut Buf<'a>) -> (r: Result<MsgHeader<'a>, Error>)
    ensures
        final(buf).data() == old(buf).data(),
        match msg_header_dec(old(buf).data(), old(buf).off()) {
            Ok((h, j)) => r matches Ok(v) && v@ == h && final(buf).off() == j && 1
                <= v@.address_length <= MAX_ADDR_LEN as int,
            Err(e) => r matches Err(e2) && e2 == e,
        },
{
    MsgHeader::read(buf)
}

/// Parse one address block at the cursor, given the address length in bytes
/// supplied by the enclosing message. See [`AddressBlock::read`].
pub fn address_block<'a>(buf: &mut Buf<'a>, address_length: usize) -> (r: Result<
    AddressBlock<'a>,
    Error,
>)
    requires
        1 <= address_length <= MAX_ADDR_LEN,
    ensures
        final(buf).data() == old(buf).data(),
        match addr_block_dec(old(buf).data(), old(buf).off(), address_length as int) {
            Ok((ab, j)) => r matches Ok(b) && b@ == ab && final(buf).off() == j,
            Err(e) => r matches Err(e2) && e2 == e,
        },
{
    AddressBlock::read(buf, address_length)
}

/// Parse a `<tlv-block>` at the cursor. See [`TlvBlock::read`].
pub fn tlv_block<'a>(buf: &mut Buf<'a>) -> (r: Result<TlvBlock<'a>, Error>)
    ensures
        final(buf).data() == old(buf).data(),
        match tlv_block_dec(old(buf).data(), old(buf).off()) {
            Ok((blk, j)) => r matches Ok(b) && b@ == blk && final(buf).off() == j,
            Err(e) => r matches Err(e2) && e2 == e,
        },
{
    TlvBlock::read(buf)
}

/// Parse a `<tlv>` at the cursor. See [`Tlv::read`].
pub fn tlv<'a>(buf: &mut Buf<'a>) -> (r: Result<Tlv<'a>, Error>)
    ensures
        final(buf).data() == old(buf).data(),
        match tlv_dec(old(buf).data(), old(buf).off()) {
            Ok((t, j)) => r matches Ok(v) && v@ == t && final(buf).off() == j,
            Err(e) => r matches Err(e2) && e2 == e,
        },
{
    Tlv::read(buf)
}

} // verus!
