//! The top-level packet: header plus a lazy sequence of messages.

use vstd::prelude::*;

use crate::buf::Buf;
use crate::error::Error;
use crate::msg::Messages;
use crate::tlv::TlvBlock;
use crate::wire::bit;
use crate::wire::lemma_pkt_header_dec_bounds;
use crate::wire::packet_dec;
use crate::wire::pkt_header_dec;
use crate::wire::SpecPacket;
use crate::wire::SpecPktHeader;
use crate::wire::PKT_HAS_SEQ_NUM;
use crate::wire::PKT_HAS_TLV;

verus! {

/// Packet: one header, then the rest of the buffer as the message area.
#[derive(Debug)]
pub struct Packet<'a> {
    /// Packet header.
    pub hdr: PktHeader<'a>,
    /// Messages.
    pub messages: Messages<'a>,
}

impl<'a> View for Packet<'a> {
    type V = SpecPacket;

    closed spec fn view(&self) -> SpecPacket {
        SpecPacket { hdr: self.hdr@, messages: self.messages@ }
    }
}

impl<'a> Packet<'a> {
    /// Read a packet: exactly what [`packet_dec`] says, for every byte
    /// buffer. Only the header is decoded eagerly; the messages are decoded
    /// one at a time as [`Messages::iter`] is pulled.
    pub fn read(buf: &'a [u8]) -> (r: Result<Packet<'a>, Error>)
        ensures
            match packet_dec(buf@) {
                Ok(p) => r matches Ok(v) && v@ == p,
                Err(e) => r matches Err(e2) && e2 == e,
            },
    {
        let mut b = Buf::new(buf);

        let hdr = match PktHeader::read(&mut b) {
            Ok(v) => v,
            Err(e) => return Err(e),
        };
        proof {
            lemma_pkt_header_dec_bounds(buf@, 0);
        }

        let messages = Messages::from_buf(b);

        Ok(Packet { hdr, messages })
    }
}

/// Packet header.
#[derive(Debug)]
pub struct PktHeader<'a> {
    /// Wire-format version; always [`crate::RFC5444_VERSION`] in a decoded
    /// header, since any other version is rejected.
    pub version: u8,
    /// Sequence number.
    pub seq_num: Option<u16>,
    /// TLV block.
    pub tlv_block: Option<TlvBlock<'a>>,
}

impl<'a> View for PktHeader<'a> {
    type V = SpecPktHeader;

    closed spec fn view(&self) -> SpecPktHeader {
        SpecPktHeader {
            version: self.version,
            seq_num: self.seq_num,
            tlv_block: match self.tlv_block {
                Some(b) => Some(b@),
                None => None,
            },
        }
    }
}

impl<'a> PktHeader<'a> {
    /// Read a packet header: exactly what [`pkt_header_dec`] says, for every
    /// input. A version nibble other than the supported version is rejected
    /// right after the first byte, before anything further is consumed.
    pub(crate) fn read(buf: &mut Buf<'a>) -> (r: Result<PktHeader<'a>, Error>)
        ensures
            final(buf).data() == old(buf).data(),
            match pkt_header_dec(old(buf).data(), old(buf).off()) {
                Ok((h, j)) => r matches Ok(v) && v@ == h && final(buf).off() == j,
                Err(e) => r matches Err(e2) && e2 == e && (e is InvalidVersion
                    ==> final(buf).off() == old(buf).off() + 1),
            },
    {
        let ghost d = buf.data();
        let ghost i0 = buf.off();

        // Parse <version> and <pkt-flags>: one byte, version in the high
        // nibble, flags in the low nibble.
        let b = match buf.get_u8() {
            Ok(v) => v,
            Err(e) => return Err(e),
        };
        let version = b >> 4;
        let flags = b & 0x0f;

        if version != crate::RFC5444_VERSION {
            return Err(Error::InvalidVersion);
        }

        // Parse <pkt-seq-num>?.
        let seq_num = match buf.get_opt_u16(flags & PKT_HAS_SEQ_NUM != 0) {
            Ok(v) => v,
            Err(e) => return Err(e),
        };

        // Parse <tlv-block>?.
        let ghost i2 = buf.off();
        let tlv_block = if flags & PKT_HAS_TLV != 0 {
            match TlvBlock::read(buf) {
                Ok(v) => Some(v),
                Err(e) => return Err(e),
            }
        } else {
            None
        };
        proof {
            assert(crate::wire::opt_tlv_block_dec(d, i2, bit(flags, PKT_HAS_TLV)) == Ok::<
                (Option<Seq<u8>>, int),
                Error,
            >(
                (
                    match tlv_block {
                        Some(bb) => Some(bb@),
                        None => None,
                    },
                    buf.off(),
                ),
            ));
        }

        let r = PktHeader { version, seq_num, tlv_block };
        proof {
            assert(pkt_header_dec(d, i0) == Ok::<(SpecPktHeader, int), Error>((r@, buf.off())));
        }
        Ok(r)
    }
}

} // verus!
