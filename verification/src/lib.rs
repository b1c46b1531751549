//! Decoder for the generalized MANET packet/message wire format (RFC 5444).
//!
//! A packet is handed in as one borrowed byte buffer; the decoder exposes its
//! header, its messages, their TLV blocks and compressed address blocks as
//! lazy views that borrow from that buffer. No byte is copied and nothing is
//! allocated. Every field whose presence or width depends on a flag bit is
//! decoded through a bounds-checked cursor, so malformed input is rejected
//! with one of three errors and can never cause a panic or an out-of-bounds
//! read.
//!
//! The module [`wire`] states the wire format itself as specification
//! functions over byte sequences; every decoding function is proved against
//! them. The module [`laws`] proves the format-level guarantees: truncation
//! always surfaces as an end-of-file error, a bad version nibble is rejected
//! from the first byte, prefix lengths are bounded, and the two length
//! subtractions of the format can never wrap.

use vstd::prelude::*;

pub mod addrtlv;
pub mod buf;
pub mod error;
pub mod laws;
pub mod msg;
pub mod packet;
pub mod parser;
pub mod tlv;
pub mod wire;

pub use addrtlv::AddressBlock;
pub use addrtlv::AddressTlvIter;
pub use addrtlv::AddressTlvs;
pub use addrtlv::MAX_ADDR_LEN;
pub use buf::Buf;
pub use error::Error;
pub use msg::Message;
pub use msg::MessageIter;
pub use msg::Messages;
pub use msg::MsgHeader;
pub use packet::Packet;
pub use packet::PktHeader;
pub use tlv::Tlv;
pub use tlv::TlvBlock;
pub use tlv::TlvBlockIter;

verus! {

/// Supported version of RFC 5444.
pub const RFC5444_VERSION: u8 = 0;

} // verus!
