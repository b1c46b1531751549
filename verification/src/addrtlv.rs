//! Compressed address blocks and the address-TLV region of a message.

use vstd::prelude::*;

use crate::buf::Buf;
use crate::error::Error;
use crate::tlv::TlvBlock;
use crate::wire::addr_block_dec;
use crate::wire::addr_head_dec;
use crate::wire::addr_mid_dec;
use crate::wire::addr_prefix_dec;
use crate::wire::addr_tail_dec;
use crate::wire::addr_tlv_dec;
use crate::wire::opt_bytes_view;
use crate::wire::prefixes_ok;
use crate::wire::SpecAddressBlock;
use crate::wire::SpecAddressTlvs;
use crate::wire::ADDR_HAS_FULL_TAIL;
use crate::wire::ADDR_HAS_HEAD;
use crate::wire::ADDR_HAS_MULTI_PRELEN;
use crate::wire::ADDR_HAS_SINGLE_PRELEN;
use crate::wire::ADDR_HAS_ZERO_TAIL;

verus! {

/// Largest address length in bytes that the wire format can express: a
/// message header stores `address_length - 1` in a nibble.
pub const MAX_ADDR_LEN: usize = 16;

/// The head phase of an address block: with the has-head flag, a length
/// byte and that many shared head bytes.
fn read_head<'a>(buf: &mut Buf<'a>, flags: u8) -> (r: Result<(usize, Option<&'a [u8]>), Error>)
    ensures
        final(buf).data() == old(buf).data(),
        match addr_head_dec(old(buf).data(), old(buf).off(), flags) {
            Ok((hd, j)) => r matches Ok(p) && p.0 as int == hd.0 && opt_bytes_view(p.1) == hd.1
                && final(buf).off() == j && p.0 <= 255,
            Err(e) => r matches Err(e2) && e2 == e,
        },
{
    if flags & ADDR_HAS_HEAD != 0 {
        let head_length = match buf.get_u8() {
            Ok(v) => v as usize,
            Err(e) => return Err(e),
        };
        match buf.get_bytes(head_length) {
            Ok(h) => Ok((head_length, Some(h))),
            Err(e) => Err(e),
        }
    } else {
        Ok((0, None))
    }
}

/// The tail phase of an address block: no tail fields when neither or both
/// tail flags are set; a length byte and that many bytes for a nonzero full
/// tail; a length byte alone for an implicitly-zero tail.
fn read_tail<'a>(buf: &mut Buf<'a>, flags: u8) -> (r: Result<(usize, Option<&'a [u8]>), Error>)
    ensures
        final(buf).data() == old(buf).data(),
        match addr_tail_dec(old(buf).data(), old(buf).off(), flags) {
            Ok((tt, j)) => r matches Ok(p) && p.0 as int == tt.0 && opt_bytes_view(p.1) == tt.1
                && final(buf).off() == j && p.0 <= 255,
            Err(e) => r matches Err(e2) && e2 == e,
        },
{
    let full = flags & ADDR_HAS_FULL_TAIL != 0;
    let zero = flags & ADDR_HAS_ZERO_TAIL != 0;
    if full == zero {
        Ok((0, None))
    } else if full {
        let tail_length = match buf.get_u8() {
            Ok(v) => v as usize,
            Err(e) => return Err(e),
        };
        if tail_length != 0 {
            match buf.get_bytes(tail_length) {
                Ok(t) => Ok((tail_length, Some(t))),
                Err(e) => Err(e),
            }
        } else {
            Ok((0, None))
        }
    } else {
        match buf.get_u8() {
            Ok(v) => Ok((v as usize, None)),
            Err(e) => Err(e),
        }
    }
}

/// The mid phase of an address block: the concatenated per-address middles,
/// `mid_length * num_addr` bytes, read only when the mid length is nonzero.
fn read_mid<'a>(buf: &mut Buf<'a>, mid_length: usize, num_addr: u8) -> (r: Result<
    Option<&'a [u8]>,
    Error,
>)
    requires
        mid_length <= MAX_ADDR_LEN,
    ensures
        final(buf).data() == old(buf).data(),
        match addr_mid_dec(old(buf).data(), old(buf).off(), mid_length as int, num_addr) {
            Ok((m, j)) => r matches Ok(s) && opt_bytes_view(s) == m && final(buf).off() == j,
            Err(e) => r matches Err(e2) && e2 == e,
        },
{
    if mid_length != 0 {
        proof {
            assert(mid_length * (num_addr as usize) <= 4080) by (nonlinear_arith)
                requires
                    mid_length <= 16,
                    num_addr as usize <= 255,
            ;
        }
        match buf.get_bytes(mid_length * (num_addr as usize)) {
            Ok(m) => Ok(Some(m)),
            Err(e) => Err(e),
        }
    } else {
        Ok(None)
    }
}

/// The prefix phase of an address block: the prefix-length bytes the flags
/// call for, each checked against `8 * address_length`.
#[verifier::loop_isolation(false)]
fn read_prefixes<'a>(buf: &mut Buf<'a>, flags: u8, num_addr: u8, address_length: usize) -> (r:
    Result<Option<&'a [u8]>, Error>)
    requires
        address_length <= MAX_ADDR_LEN,
    ensures
        final(buf).data() == old(buf).data(),
        match addr_prefix_dec(
            old(buf).data(),
            old(buf).off(),
            flags,
            num_addr,
            address_length as int,
        ) {
            Ok((p, j)) => r matches Ok(s) && opt_bytes_view(s) == p && final(buf).off() == j,
            Err(e) => r matches Err(e2) && e2 == e,
        },
{
    let single = flags & ADDR_HAS_SINGLE_PRELEN != 0;
    let multi = flags & ADDR_HAS_MULTI_PRELEN != 0;
    let count: usize = if single == multi {
        0
    } else if single {
        1
    } else {
        num_addr as usize
    };
    if count == 0 {
        return Ok(None);
    }
    let pfs = match buf.get_bytes(count) {
        Ok(v) => v,
        Err(e) => return Err(e),
    };
    let mut k: usize = 0;
    while k < pfs.len()
        invariant
            k <= pfs@.len(),
            address_length <= 16,
            forall|t: int| 0 <= t < k ==> #[trigger] pfs@[t] <= 8 * (address_length as int),
        decreases pfs@.len() - k,
    {
        let p = *vstd::slice::slice_index_get(pfs, k);
        if (p as usize) > 8 * address_length {
            proof {
                assert((k as int) < pfs@.len() && !(pfs@[k as int] <= 8 * (
                address_length as int)));
                assert(!prefixes_ok(pfs@, address_length as int));
            }
            return Err(Error::PrefixTooLarge);
        }
        k = k + 1;
    }
    proof {
        assert(prefixes_ok(pfs@, address_length as int));
    }
    Ok(Some(pfs))
}

/// An address block: `num_addr` addresses in compressed form, as the four
/// raw components (shared head, shared or implicit tail, per-address
/// middles, prefix lengths). Reconstructing full addresses is left to the
/// caller.
#[derive(Debug)]
pub struct AddressBlock<'a> {
    /// Address count.
    pub num_addr: usize,
    /// `<head>`.
    pub head: Option<&'a [u8]>,
    /// `<tail>`.
    pub tail: Option<&'a [u8]>,
    /// `<mid>`.
    pub mid: Option<&'a [u8]>,
    /// Prefix lengths.
    pub prefix_lengths: Option<&'a [u8]>,
}

impl<'a> View for AddressBlock<'a> {
    type V = SpecAddressBlock;

    closed spec fn view(&self) -> SpecAddressBlock {
        SpecAddressBlock {
            num_addr: self.num_addr as int,
            head: opt_bytes_view(self.head),
            tail: opt_bytes_view(self.tail),
            mid: opt_bytes_view(self.mid),
            prefix_lengths: opt_bytes_view(self.prefix_lengths),
        }
    }
}

impl<'a> AddressBlock<'a> {
    /// Read an address block, given the address length in bytes supplied by
    /// the enclosing message: exactly what [`addr_block_dec`] says, for
    /// every input buffer.
    pub fn read(buf: &mut Buf<'a>, address_length: usize) -> (r: Result<AddressBlock<'a>, Error>)
        requires
            1 <= address_length <= MAX_ADDR_LEN,
        ensures
            final(buf).data() == old(buf).data(),
            match addr_block_dec(old(buf).data(), old(buf).off(), address_length as int) {
                Ok((ab, j)) => r matches Ok(b) && b@ == ab && final(buf).off() == j,
                Err(e) => r matches Err(e2) && e2 == e,
            },
    {
        let ghost d = buf.data();
        let ghost i0 = buf.off();

        // Parse <num-addr> and <addr-flags>.
        let num = match buf.get_u8() {
            Ok(v) => v,
            Err(e) => return Err(e),
        };
        let flags = match buf.get_u8() {
            Ok(v) => v,
            Err(e) => return Err(e),
        };

        let (head_length, head) = match read_head(buf, flags) {
            Ok(v) => v,
            Err(e) => return Err(e),
        };
        let (tail_length, tail) = match read_tail(buf, flags) {
            Ok(v) => v,
            Err(e) => return Err(e),
        };

        // The shared head and tail leave `mid_length` bytes of each address;
        // lengths that together exceed the address length are malformed, and
        // the subtraction is checked so that it can never wrap.
        if head_length + tail_length > address_length {
            return Err(Error::UnexpectedEof);
        }
        let mid_length = address_length - head_length - tail_length;
        let mid = match read_mid(buf, mid_length, num) {
            Ok(v) => v,
            Err(e) => return Err(e),
        };

        let prefix_lengths = match read_prefixes(buf, flags, num, address_length) {
            Ok(v) => v,
            Err(e) => return Err(e),
        };

        let r = AddressBlock { num_addr: num as usize, head, tail, mid, prefix_lengths };
        proof {
            assert(addr_block_dec(d, i0, address_length as int) == Ok::<
                (SpecAddressBlock, int),
                Error,
            >((r@, buf.off())));
        }
        Ok(r)
    }
}

/// The address-TLV region of a message: the raw bytes that hold its
/// `(address block, TLV block)` pairs, with the address length its blocks
/// are decoded with.
#[derive(Debug, Clone, Copy, PartialEq, Eq)]
pub struct AddressTlvs<'a> {
    address_length: usize,
    data: &'a [u8],
}

impl<'a> View for AddressTlvs<'a> {
    type V = SpecAddressTlvs;

    closed spec fn view(&self) -> SpecAddressTlvs {
        SpecAddressTlvs { address_length: self.address_length as int, data: self.data@ }
    }
}

impl<'a> AddressTlvs<'a> {
    /// The address length is a nibble plus one on the wire, so a region
    /// handed out by a decoded message always satisfies this.
    pub open spec fn wf(self) -> bool {
        1 <= self@.address_length <= MAX_ADDR_LEN as int
    }

    pub(crate) fn new(address_length: usize, data: &'a [u8]) -> (r: Self)
        ensures
            r@ == (SpecAddressTlvs { address_length: address_length as int, data: data@ }),
    {
        AddressTlvs { address_length, data }
    }

    /// A fresh traversal of the region's pairs, starting at its first byte.
    pub fn iter(&self) -> (r: AddressTlvIter<'a>)
        ensures
            r.alen() == self@.address_length,
            r.data() == self@.data,
            r.off() == 0,
    {
        AddressTlvIter { address_length: self.address_length, buf: Buf::new(self.data) }
    }
}

/// Lazy iterator over the `(address block, TLV block)` pairs of a message's
/// address-TLV region.
///
/// Each pull decodes one pair. After the first decode error the traversal is
/// permanently ended: the failing pull returns the error once, every later
/// pull returns `None`. Cloning the iterator yields an independent traversal
/// from the same position.
#[derive(Debug, Clone, Copy)]
pub struct AddressTlvIter<'a> {
    address_length: usize,
    /// `(<address-block><tlv-block>)*` buffer.
    buf: Buf<'a>,
}

impl<'a> AddressTlvIter<'a> {
    /// The address length the blocks are decoded with.
    pub closed spec fn alen(self) -> int {
        self.address_length as int
    }

    /// The region being traversed.
    pub closed spec fn data(self) -> Seq<u8> {
        self.buf.data()
    }

    /// The position of the next pair.
    pub closed spec fn off(self) -> int {
        self.buf.off()
    }

    /// See [`AddressTlvs::wf`].
    pub open spec fn wf(self) -> bool {
        1 <= self.alen() <= MAX_ADDR_LEN as int
    }

    /// Decode the pair at the current position, or `None` at the end.
    pub fn next(&mut self) -> (r: Option<Result<(AddressBlock<'a>, TlvBlock<'a>), Error>>)
        requires
            old(self).wf(),
        ensures
            final(self).wf(),
            final(self).data() == old(self).data(),
            final(self).alen() == old(self).alen(),
            old(self).off() >= old(self).data().len() ==> r is None && final(self).off() == old(
                self,
            ).off(),
            old(self).off() < old(self).data().len() ==> match addr_tlv_dec(
                old(self).data(),
                old(self).off(),
                old(self).alen(),
            ) {
                Ok((pair, j)) => r matches Some(Ok(p)) && p.0@ == pair.0 && p.1@ == pair.1
                    && final(self).off() == j && old(self).off() < j <= old(self).data().len(),
                Err(e) => r matches Some(Err(e2)) && e2 == e && final(self).off()
                    == final(self).data().len(),
            },
    {
        if self.buf.is_eof() {
            return None;
        }
        proof {
            crate::wire::lemma_addr_tlv_dec_bounds(
                self.buf.data(),
                self.buf.off(),
                self.address_length as int,
            );
        }

        let address_block = match AddressBlock::read(&mut self.buf, self.address_length) {
            Ok(a) => a,
            Err(e) => {
                self.buf.exhaust();
                return Some(Err(e));
            },
        };

        match TlvBlock::read(&mut self.buf) {
            Ok(t) => Some(Ok((address_block, t))),
            Err(e) => {
                self.buf.exhaust();
                Some(Err(e))
            },
        }
    }
}

} // verus!
