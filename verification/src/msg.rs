//! Messages: header, message-level TLV block, and the address-TLV region.

use vstd::prelude::*;

use crate::addrtlv::AddressTlvs;
use crate::addrtlv::MAX_ADDR_LEN;
use crate::buf::Buf;
use crate::error::Error;
use crate::tlv::TlvBlock;
use crate::wire::lemma_msg_header_dec_bounds;
use crate::wire::lemma_tlv_block_dec_bounds;
use crate::wire::msg_dec;
use crate::wire::msg_header_dec;
use crate::wire::opt_bytes_view;
use crate::wire::SpecMessage;
use crate::wire::SpecMsgHeader;
use crate::wire::MSG_HAS_HOP_COUNT;
use crate::wire::MSG_HAS_HOP_LIMIT;
use crate::wire::MSG_HAS_ORIG;
use crate::wire::MSG_HAS_SEQ_NUM;

verus! {

/// Message header.
#[derive(Debug)]
pub struct MsgHeader<'a> {
    /// Message type.
    pub typ: u8,
    /// Address size in bytes, `1..=MAX_ADDR_LEN`: the wire stores it as a
    /// nibble holding `address_length - 1`.
    pub address_length: usize,
    /// Declared total size in bytes of the `<message>`, `<msg-header>`
    /// included.
    size: usize,
    /// Originator address.
    pub orig_addr: Option<&'a [u8]>,
    /// Hop limit.
    pub hop_limit: Option<u8>,
    /// Hop count.
    pub hop_count: Option<u8>,
    /// Sequence number.
    pub seq_num: Option<u16>,
}

impl<'a> View for MsgHeader<'a> {
    type V = SpecMsgHeader;

    closed spec fn view(&self) -> SpecMsgHeader {
        SpecMsgHeader {
            typ: self.typ,
            address_length: self.address_length as int,
            size: self.size as int,
            orig_addr: opt_bytes_view(self.orig_addr),
            hop_limit: self.hop_limit,
            hop_count: self.hop_count,
            seq_num: self.seq_num,
        }
    }
}

impl<'a> MsgHeader<'a> {
    /// Read the message header: exactly what [`msg_header_dec`] says, for
    /// every input.
    pub fn read(buf: &mut Buf<'a>) -> (r: Result<MsgHeader<'a>, Error>)
        ensures
            final(buf).data() == old(buf).data(),
            match msg_header_dec(old(buf).data(), old(buf).off()) {
                Ok((h, j)) => r matches Ok(v) && v@ == h && final(buf).off() == j && 1
                    <= v@.address_length <= MAX_ADDR_LEN as int,
                Err(e) => r matches Err(e2) && e2 == e,
            },
    {
        let ghost d = buf.data();
        let ghost i0 = buf.off();

        // Parse <msg-type>.
        let typ = match buf.get_u8() {
            Ok(v) => v,
            Err(e) => return Err(e),
        };

        // Parse <msg-flags> and <msg-addr-length>: one byte whose high
        // nibble holds the flags and whose low nibble holds the address
        // length minus one.
        let b = match buf.get_u8() {
            Ok(v) => v,
            Err(e) => return Err(e),
        };
        let flags = b & 0xf0;
        let address_length = ((b & 0x0f) as usize) + 1;
        proof {
            assert(b & 0x0f <= 15) by (bit_vector);
        }

        // Parse <msg-size>.
        let size = match buf.get_ne_u16() {
            Ok(v) => v as usize,
            Err(e) => return Err(e),
        };

        // Parse <msg-orig-addr>.
        let orig_addr = match buf.get_opt_bytes(flags & MSG_HAS_ORIG != 0, address_length) {
            Ok(v) => v,
            Err(e) => return Err(e),
        };

        // Parse <msg-hop-limit>.
        let hop_limit = match buf.get_opt_u8(flags & MSG_HAS_HOP_LIMIT != 0) {
            Ok(v) => v,
            Err(e) => return Err(e),
        };

        // Parse <msg-hop-count>.
        let hop_count = match buf.get_opt_u8(flags & MSG_HAS_HOP_COUNT != 0) {
            Ok(v) => v,
            Err(e) => return Err(e),
        };

        // Parse <msg-seq-num>.
        let seq_num = match buf.get_opt_u16(flags & MSG_HAS_SEQ_NUM != 0) {
            Ok(v) => v,
            Err(e) => return Err(e),
        };

        let r = MsgHeader { typ, address_length, size, orig_addr, hop_limit, hop_count, seq_num };
        proof {
            assert(msg_header_dec(d, i0) == Ok::<(SpecMsgHeader, int), Error>((r@, buf.off())));
        }
        Ok(r)
    }
}

/// Message: header, message-level TLV block, and the address-TLV region
/// that fills the rest of the message's declared size.
#[derive(Debug)]
pub struct Message<'a> {
    /// Message header.
    pub hdr: MsgHeader<'a>,
    /// TLV block.
    pub tlv_block: TlvBlock<'a>,
    /// Address block / TLV block region.
    pub address_tlv: AddressTlvs<'a>,
}

impl<'a> View for Message<'a> {
    type V = SpecMessage;

    closed spec fn view(&self) -> SpecMessage {
        SpecMessage {
            hdr: self.hdr@,
            tlv_block: self.tlv_block@,
            address_tlv: self.address_tlv@,
        }
    }
}

impl<'a> Message<'a> {
    /// Read a message: exactly what [`msg_dec`] says, for every input. A
    /// declared size smaller than what the header and TLV block actually
    /// consumed is malformed; the subtraction is checked, never wrapped.
    pub fn read(buf: &mut Buf<'a>) -> (r: Result<Message<'a>, Error>)
        ensures
            final(buf).data() == old(buf).data(),
            match msg_dec(old(buf).data(), old(buf).off()) {
                Ok((m, j)) => r matches Ok(v) && v@ == m && final(buf).off() == j
                    && v.address_tlv.wf(),
                Err(e) => r matches Err(e2) && e2 == e,
            },
    {
        let ghost d = buf.data();
        let ghost i0 = buf.off();
        let initial_offset = buf.pos();

        let hdr = match MsgHeader::read(buf) {
            Ok(v) => v,
            Err(e) => return Err(e),
        };
        proof {
            lemma_msg_header_dec_bounds(d, i0);
        }

        let ghost i1 = buf.off();
        let msg_tlv_block = match TlvBlock::read(buf) {
            Ok(v) => v,
            Err(e) => return Err(e),
        };
        proof {
            lemma_tlv_block_dec_bounds(d, i1);
        }

        // The remainder of the declared size is the address-TLV region; a
        // size smaller than what was already consumed is malformed, and the
        // subtraction is checked so that it can never wrap.
        let count = buf.pos() - initial_offset;
        if hdr.size < count {
            return Err(Error::UnexpectedEof);
        }
        let restant_bytes = hdr.size - count;
        let region = match buf.get_bytes(restant_bytes) {
            Ok(v) => v,
            Err(e) => return Err(e),
        };

        let address_tlv = AddressTlvs::new(hdr.address_length, region);
        Ok(Message { hdr, tlv_block: msg_tlv_block, address_tlv })
    }
}

/// The message area of a packet: the raw bytes that follow the packet
/// header, holding the packet's messages one after another.
#[derive(Debug, Clone, Copy, PartialEq, Eq)]
pub struct Messages<'a> {
    data: &'a [u8],
}

impl<'a> View for Messages<'a> {
    type V = Seq<u8>;

    closed spec fn view(&self) -> Seq<u8> {
        self.data@
    }
}

impl<'a> Messages<'a> {
    /// Read `Messages` from the given buffer: everything from the cursor's
    /// position to the end of the buffer.
    pub fn from_buf(buf: Buf<'a>) -> (r: Messages<'a>)
        requires
            buf.off() <= buf.data().len(),
        ensures
            r@ == buf.data().subrange(buf.off(), buf.data().len() as int),
    {
        Messages { data: buf.rest() }
    }

    /// The bytes of all the messages.
    pub fn as_bytes(&self) -> (r: &'a [u8])
        ensures
            r@ == self@,
    {
        self.data
    }

    /// A fresh traversal of the messages, starting at the first one.
    pub fn iter(&self) -> (r: MessageIter<'a>)
        ensures
            r.data() == self@,
            r.off() == 0,
    {
        MessageIter { buf: Buf::new(self.data) }
    }
}

/// Lazy iterator over the messages of a packet.
///
/// Each pull decodes one message. After the first decode error the traversal
/// is permanently ended: the failing pull returns the error once, every
/// later pull returns `None`. Cloning the iterator yields an independent
/// traversal from the same position.
#[derive(Debug, Clone, Copy)]
pub struct MessageIter<'a> {
    buf: Buf<'a>,
}

impl<'a> MessageIter<'a> {
    /// The message area being traversed.
    pub closed spec fn data(self) -> Seq<u8> {
        self.buf.data()
    }

    /// The position of the next message.
    pub closed spec fn off(self) -> int {
        self.buf.off()
    }

    /// Decode the message at the current position, or `None` at the end.
    pub fn next(&mut self) -> (r: Option<Result<Message<'a>, Error>>)
        ensures
            final(self).data() == old(self).data(),
            old(self).off() >= old(self).data().len() ==> r is None && final(self).off() == old(
                self,
            ).off(),
            old(self).off() < old(self).data().len() ==> match msg_dec(
                old(self).data(),
                old(self).off(),
            ) {
                Ok((m, j)) => r matches Some(Ok(v)) && v@ == m && final(self).off() == j
                    && v.address_tlv.wf() && old(self).off() < j <= old(self).data().len(),
                Err(e) => r matches Some(Err(e2)) && e2 == e && final(self).off()
                    == final(self).data().len(),
            },
    {
        if self.buf.is_eof() {
            return None;
        }
        proof {
            crate::wire::lemma_msg_dec_bounds(self.buf.data(), self.buf.off());
        }
        match Message::read(&mut self.buf) {
            Ok(m) => Some(Ok(m)),
            Err(e) => {
                self.buf.exhaust();
                Some(Err(e))
            },
        }
    }
}

} // verus!
