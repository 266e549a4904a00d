use vstd::prelude::*;
use vstd::slice::slice_to_vec;

verus! {

/// The shortest IPv4 header.
pub const MINIMUM_PACKET_SIZE: usize = 20;

/// The transport protocols this library reads out of IPv4 packets.
#[derive(Debug, Clone, Copy, PartialEq, Eq, Structural)]
pub enum IpV4Protocol {
    Icmp,
}

impl IpV4Protocol {
    /// The protocol with IPv4 protocol number `data`, if it is one this
    /// library knows.
    pub fn decode(data: u8) -> (r: Option<IpV4Protocol>)
        ensures
            r == (if data == 1 {
                Some(IpV4Protocol::Icmp)
            } else {
                None
            }),
    {
        match data {
            1 => Some(IpV4Protocol::Icmp),
            _ => None,
        }
    }
}

/// Why a buffer is not an IPv4 packet this library can read.
#[derive(Debug, Clone, Copy, PartialEq, Eq, Structural)]
pub enum Ipv4Error {
    /// Shorter than the minimum header.
    TooSmall,
    /// The version nibble is not 4.
    InvalidVersion,
    /// The header length field runs past the end of the buffer.
    InvalidHeaderSize,
    /// The protocol number is not ICMP.
    UnknownProtocol,
}

/// An IPv4 packet with its header taken off.
pub struct IpV4Packet {
    pub protocol: IpV4Protocol,
    pub data: Vec<u8>,
}

/// The header length in bytes that byte 0 of an IPv4 header announces.
pub open spec fn header_size(byte0: u8) -> int {
    4 * (byte0 % 16) as int
}

/// What reading `b` as an IPv4 packet yields: its protocol and the bytes
/// after the header, or the error.
pub open spec fn decode_ipv4(b: Seq<u8>) -> Result<(IpV4Protocol, Seq<u8>), Ipv4Error> {
    if b.len() < 20 {
        Err(Ipv4Error::TooSmall)
    } else if b[0] / 16 != 4 {
        Err(Ipv4Error::InvalidVersion)
    } else if b.len() < header_size(b[0]) {
        Err(Ipv4Error::InvalidHeaderSize)
    } else if b[9] != 1 {
        Err(Ipv4Error::UnknownProtocol)
    } else {
        Ok((IpV4Protocol::Icmp, b.subrange(header_size(b[0]), b.len() as int)))
    }
}

impl IpV4Packet {
    /// Checks the header of a packet read from a raw IPv4 socket and strips
    /// it. A buffer under 20 bytes fails with `TooSmall` and one whose version
    /// nibble is not 4 with `InvalidVersion`, whatever else it holds.
    pub fn decode(data: &[u8]) -> (r: Result<IpV4Packet, Ipv4Error>)
        ensures
            match r {
                Ok(p) => decode_ipv4(data@) == Ok::<(IpV4Protocol, Seq<u8>), Ipv4Error>(
                    (p.protocol, p.data@),
                ),
                Err(e) => decode_ipv4(data@) == Err::<(IpV4Protocol, Seq<u8>), Ipv4Error>(e),
            },
            data@.len() < 20 ==> r == Err::<IpV4Packet, Ipv4Error>(Ipv4Error::TooSmall),
            data@.len() >= 20 && data@[0] / 16 != 4 ==> r == Err::<IpV4Packet, Ipv4Error>(
                Ipv4Error::InvalidVersion,
            ),
    {
        if data.len() < MINIMUM_PACKET_SIZE {
            return Err(Ipv4Error::TooSmall);
        }
        let byte0 = data[0];
        let version = byte0 / 16;
        let header_size: usize = 4 * ((byte0 % 16) as usize);
        if version != 4 {
            return Err(Ipv4Error::InvalidVersion);
        }
        if data.len() < header_size {
            return Err(Ipv4Error::InvalidHeaderSize);
        }
        let protocol = match IpV4Protocol::decode(data[9]) {
            Some(protocol) => protocol,
            None => return Err(Ipv4Error::UnknownProtocol),
        };
        Ok(IpV4Packet { protocol, data: slice_to_vec(&data[header_size..data.len()]) })
    }
}

} // verus!
