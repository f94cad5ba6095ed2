//! The header of a tunnel stream: the target port as two bytes, high byte
//! first. What follows it on the stream is payload.
use vstd::prelude::*;

verus! {

/// Number of bytes in the header that opens every tunnel stream.
pub const HEADER_LEN: usize = 2;

/// The header that asks for `port`.
pub open spec fn header_of(port: u16) -> Seq<u8> {
    seq![(port / 256) as u8, (port % 256) as u8]
}

/// The port that `header` asks for.
pub open spec fn port_in(header: Seq<u8>) -> u16
    recommends
        header.len() == HEADER_LEN,
{
    (header[0] * 256 + header[1]) as u16
}

/// Writes the header that asks for `port`.
pub fn encode_header(port: u16) -> (header: [u8; 2])
    ensures
        header@ == header_of(port),
{
    [(port / 256) as u8, (port % 256) as u8]
}

/// Reads the port that `header` asks for.
pub fn decode_header(header: &[u8; 2]) -> (port: u16)
    ensures
        port == port_in(header@),
{
    header[0] as u16 * 256 + header[1] as u16
}

/// A header has two bytes and gives back the port it was written for; two
/// bytes are the header of the port they give.
pub proof fn header_round_trip(port: u16, header: Seq<u8>)
    ensures
        header_of(port).len() == HEADER_LEN,
        port_in(header_of(port)) == port,
        header.len() == HEADER_LEN ==> header_of(port_in(header)) == header,
{
}

} // verus!
