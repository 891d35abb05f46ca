//! The GOAWAY frame: connection shutdown with a last stream identifier,
//! an error code, and optional debug data.

use vstd::prelude::*;

use crate::buffer;
use crate::error::Http2Error;
use crate::frame::{be31, be32, FrameHeader};

verus! {

/// Whether the GOAWAY payload is well formed: at least eight octets.
pub open spec fn go_away_ok(h: FrameHeader, p: Seq<u8>) -> bool {
    p.len() == h.payload_length && p.len() >= 8
}

/// Which parsed GOAWAY frame the header and payload describe.
pub open spec fn go_away_matches(d: GoAwayFrame, h: FrameHeader, p: Seq<u8>) -> bool {
    &&& d.reserved == (p[0] >= 128)
    &&& d.last_stream_id == be31(p[0], p[1], p[2], p[3])
    &&& d.error_code == be32(p[4], p[5], p[6], p[7])
    &&& (if p.len() > 8 {
        d.debug_data matches Some(dd) && dd@ == p.skip(8)
    } else {
        d.debug_data is None
    })
}

/// A GOAWAY frame: a reserved bit, the last processed stream identifier,
/// an error code, and optional opaque debug data.
#[derive(Debug, PartialEq)]
pub struct GoAwayFrame {
    pub reserved: bool,
    pub last_stream_id: u32,
    pub error_code: u32,
    pub debug_data: Option<Vec<u8>>,
}

impl GoAwayFrame {
    /// Parse a GOAWAY payload: eight fixed octets plus optional debug
    /// data.
    pub fn deserialize(frame_header: &FrameHeader, bytes: &mut Vec<u8>) -> (r: Result<
        Self,
        Http2Error,
    >)
        ensures
            match r {
                Ok(f) => go_away_ok(*frame_header, old(bytes)@) && go_away_matches(
                    f,
                    *frame_header,
                    old(bytes)@,
                ),
                Err(e) => !go_away_ok(*frame_header, old(bytes)@) && e
                    == Http2Error::FrameError,
            },
    {
        if bytes.len() != frame_header.payload_length as usize || bytes.len() < 8 {
            return Err(Http2Error::FrameError);
        }
        let reserved: bool = bytes[0] >= 128;
        let last_stream_id: u32 = ((bytes[0] % 128) as u32) * 0x1000000 + (bytes[1] as u32)
            * 0x10000 + (bytes[2] as u32) * 0x100 + (bytes[3] as u32);
        let error_code: u32 = (bytes[4] as u32) * 0x1000000 + (bytes[5] as u32) * 0x10000 + (
        bytes[6] as u32) * 0x100 + (bytes[7] as u32);
        let debug_data: Option<Vec<u8>> = if bytes.len() > 8 {
            buffer::consume(bytes, 8);
            let mut dd: Vec<u8> = Vec::new();
            core::mem::swap(&mut dd, bytes);
            Some(dd)
        } else {
            None
        };
        Ok(GoAwayFrame { reserved, last_stream_id, error_code, debug_data })
    }
}

} // verus!
