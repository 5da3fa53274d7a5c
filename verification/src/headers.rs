//! Ethernet, IPv4 and TCP header layouts as the firewall reads them from a
//! frame. Multi-byte fields hold the bytes as they lie in the frame, read in
//! little-endian host order (so a wire field still needs a conversion from
//! network order before it is interpreted).
use vstd::prelude::*;
use crate::bytes::{read_le_u16, read_le_u32, spec_le_u16, spec_le_u32};

verus! {

/// Length of an Ethernet header.
pub const ETH_HDR_LEN: usize = 14;

/// Length of an IPv4 header without options.
pub const IPV4_HDR_LEN: usize = 20;

/// Number of bytes of a TCP header that [`TcpHdr`] covers.
pub const TCP_HDR_FIELDS_LEN: usize = 13;

#[derive(Clone, Copy, Debug, PartialEq, Eq)]
pub struct EthHdr {
    pub dst_addr: [u8; 6],
    pub src_addr: [u8; 6],
    pub ether_type: u16,
}

#[derive(Clone, Copy, Debug, PartialEq, Eq, Structural)]
pub struct Ipv4Hdr {
    pub ver_ihl: u8,
    pub tos: u8,
    pub tot_len: u16,
    pub id: u16,
    pub frag_off: u16,
    pub ttl: u8,
    pub protocol: u8,
    pub check: u16,
    pub src_addr: u32,
    pub dst_addr: u32,
}

#[derive(Clone, Copy, Debug, PartialEq, Eq, Structural)]
pub struct TcpHdr {
    pub source: u16,
    pub dest: u16,
    pub seq: u32,
    pub ack_seq: u32,
    pub res1_doff: u8,
}

/// Whether `len` bytes are available in `s` from offset `off` on.
pub open spec fn spec_fits(s: Seq<u8>, off: int, len: int) -> bool {
    0 <= off && off + len <= s.len()
}

impl EthHdr {
    /// The Ethernet header at the start of `frame`, if the frame holds one.
    pub fn parse(frame: &[u8]) -> (r: Option<EthHdr>)
        ensures
            r is Some <==> frame@.len() >= ETH_HDR_LEN,
            r matches Some(h) ==> {
                &&& h.dst_addr@ == frame@.subrange(0, 6)
                &&& h.src_addr@ == frame@.subrange(6, 12)
                &&& h.ether_type == spec_le_u16(frame@, 12)
            },
    {
        if frame.len() < ETH_HDR_LEN {
            return None;
        }
        let dst_addr: [u8; 6] = [frame[0], frame[1], frame[2], frame[3], frame[4], frame[5]];
        let src_addr: [u8; 6] = [frame[6], frame[7], frame[8], frame[9], frame[10], frame[11]];
        assert(dst_addr@ =~= frame@.subrange(0, 6));
        assert(src_addr@ =~= frame@.subrange(6, 12));
        Some(EthHdr { dst_addr, src_addr, ether_type: read_le_u16(frame, 12) })
    }
}

impl Ipv4Hdr {
    /// The IPv4 header that starts at `off` in `frame`, if the frame holds
    /// [`IPV4_HDR_LEN`] bytes from there on.
    pub fn parse(frame: &[u8], off: usize) -> (r: Option<Ipv4Hdr>)
        ensures
            r is Some <==> spec_fits(frame@, off as int, IPV4_HDR_LEN as int),
            r matches Some(h) ==> {
                &&& h.ver_ihl == frame@[off as int]
                &&& h.tos == frame@[off + 1]
                &&& h.tot_len == spec_le_u16(frame@, off + 2)
                &&& h.id == spec_le_u16(frame@, off + 4)
                &&& h.frag_off == spec_le_u16(frame@, off + 6)
                &&& h.ttl == frame@[off + 8]
                &&& h.protocol == frame@[off + 9]
                &&& h.check == spec_le_u16(frame@, off + 10)
                &&& h.src_addr == spec_le_u32(frame@, off + 12)
                &&& h.dst_addr == spec_le_u32(frame@, off + 16)
            },
    {
        if off > frame.len() || frame.len() - off < IPV4_HDR_LEN {
            return None;
        }
        Some(
            Ipv4Hdr {
                ver_ihl: frame[off],
                tos: frame[off + 1],
                tot_len: read_le_u16(frame, off + 2),
                id: read_le_u16(frame, off + 4),
                frag_off: read_le_u16(frame, off + 6),
                ttl: frame[off + 8],
                protocol: frame[off + 9],
                check: read_le_u16(frame, off + 10),
                src_addr: read_le_u32(frame, off + 12),
                dst_addr: read_le_u32(frame, off + 16),
            },
        )
    }

    /// The header length in bytes that the IHL nibble announces.
    pub fn header_len(&self) -> (r: usize)
        ensures
            r == (self.ver_ihl % 16) * 4,
    {
        ((self.ver_ihl % 16) as usize) * 4
    }
}

impl TcpHdr {
    /// The leading TCP header fields that start at `off` in `frame`, if the
    /// frame holds [`TCP_HDR_FIELDS_LEN`] bytes from there on.
    pub fn parse(frame: &[u8], off: usize) -> (r: Option<TcpHdr>)
        ensures
            r is Some <==> spec_fits(frame@, off as int, TCP_HDR_FIELDS_LEN as int),
            r matches Some(h) ==> {
                &&& h.source == spec_le_u16(frame@, off as int)
                &&& h.dest == spec_le_u16(frame@, off + 2)
                &&& h.seq == spec_le_u32(frame@, off + 4)
                &&& h.ack_seq == spec_le_u32(frame@, off + 8)
                &&& h.res1_doff == frame@[off + 12]
            },
    {
        if off > frame.len() || frame.len() - off < TCP_HDR_FIELDS_LEN {
            return None;
        }
        Some(
            TcpHdr {
                source: read_le_u16(frame, off),
                dest: read_le_u16(frame, off + 2),
                seq: read_le_u32(frame, off + 4),
                ack_seq: read_le_u32(frame, off + 8),
                res1_doff: frame[off + 12],
            },
        )
    }

    /// The header length in bytes that the data-offset nibble announces.
    pub fn header_len(&self) -> (r: usize)
        ensures
            r == (self.res1_doff / 16) * 4,
    {
        ((self.res1_doff / 16) as usize) * 4
    }
}

} // verus!
