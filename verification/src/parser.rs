//! Frame parsing: extract the destination address and the transport
//! protocol identifier from one raw link-layer frame.

use vstd::prelude::*;

verus! {

/// A record extracted from one successfully parsed frame: the 4-byte
/// IPv4 destination address (as its big-endian 32-bit value) and the
/// transport protocol identifier.
#[derive(Clone, Copy, Debug, PartialEq, Eq)]
pub struct ParsedRecord {
    pub dest_address: u32,
    pub protocol: u8,
}

/// Why a frame could not be parsed.
#[derive(Clone, Copy, Debug, PartialEq, Eq)]
pub enum ParseError {
    /// The frame is shorter than its declared layout requires.
    MalformedFrame,
    /// The frame carries an IPv6 payload, which this tool declines to
    /// analyse rather than silently skewing the statistics.
    UnsupportedProtocol,
    /// The frame-type field matches neither IPv4 nor IPv6.
    UnknownFrameType,
}

/// The 2-byte big-endian frame-type (ethertype) field at offsets 12..14.
pub open spec fn spec_frame_type(data: Seq<u8>) -> int
    recommends
        data.len() >= 14,
{
    data[12] * 256 + data[13]
}

/// The 4-byte big-endian destination address at offsets 30..34.
pub open spec fn spec_dest_address(data: Seq<u8>) -> int
    recommends
        data.len() >= 34,
{
    ((data[30] * 256 + data[31]) * 256 + data[32]) * 256 + data[33]
}

/// What `parse_packet` returns on a given frame.
pub open spec fn spec_parse(data: Seq<u8>) -> Result<ParsedRecord, ParseError> {
    if data.len() < 14 {
        Err(ParseError::MalformedFrame)
    } else if spec_frame_type(data) == 0x0800 {
        if data.len() < 34 {
            Err(ParseError::MalformedFrame)
        } else {
            Ok(ParsedRecord {
                dest_address: spec_dest_address(data) as u32,
                protocol: data[23],
            })
        }
    } else if spec_frame_type(data) == 0x86DD {
        Err(ParseError::UnsupportedProtocol)
    } else {
        Err(ParseError::UnknownFrameType)
    }
}

/// Parse one raw link-layer frame.
///
/// A frame shorter than 14 bytes is malformed; an IPv4 frame must hold
/// at least 34 bytes, and yields the protocol identifier at offset 23
/// and the destination address at offsets 30..34; an IPv6 frame is
/// unsupported; any other frame type is unknown.
pub fn parse_packet(data: &[u8]) -> (r: Result<ParsedRecord, ParseError>)
    ensures
        r == spec_parse(data@),
{
    let packet_size = data.len();
    if packet_size < 14 {
        return Err(ParseError::MalformedFrame);
    }
    let frame_type: u32 = (data[12] as u32) * 256 + (data[13] as u32);
    if frame_type == 0x0800 {
        if packet_size < 34 {
            return Err(ParseError::MalformedFrame);
        }
        let dest_address: u32 = (((data[30] as u32) * 256 + (data[31] as u32)) * 256
            + (data[32] as u32)) * 256 + (data[33] as u32);
        let protocol = data[23];
        assert(dest_address == spec_dest_address(data@));
        Ok(ParsedRecord { dest_address, protocol })
    } else if frame_type == 0x86DD {
        Err(ParseError::UnsupportedProtocol)
    } else {
        Err(ParseError::UnknownFrameType)
    }
}

} // verus!
