//! The WINDOW_UPDATE frame: a flow-control window increment.

use vstd::prelude::*;

use crate::error::Http2Error;
use crate::frame::{be31, FrameHeader};

verus! {

/// Whether the WINDOW_UPDATE payload is well formed: exactly four octets.
pub open spec fn window_update_ok(h: FrameHeader, p: Seq<u8>) -> bool {
    p.len() == h.payload_length && p.len() == 4
}

/// Which parsed WINDOW_UPDATE frame the header and payload describe.
pub open spec fn window_update_matches(d: WindowUpdateFrame, h: FrameHeader, p: Seq<u8>) -> bool {
    &&& d.stream_id == h.stream_identifier
    &&& d.reserved == (p[0] >= 128)
    &&& d.window_size_increment == be31(p[0], p[1], p[2], p[3])
}

/// A WINDOW_UPDATE frame: a reserved bit and a 31-bit window increment.
#[derive(Clone, Copy, Debug, PartialEq, Eq, Structural)]
pub struct WindowUpdateFrame {
    pub stream_id: u32,
    pub reserved: bool,
    pub window_size_increment: u32,
}

impl WindowUpdateFrame {
    /// Parse a WINDOW_UPDATE payload: exactly four octets.
    pub fn deserialize(frame_header: &FrameHeader, bytes: &mut Vec<u8>) -> (r: Result<
        Self,
        Http2Error,
    >)
        ensures
            match r {
                Ok(f) => window_update_ok(*frame_header, old(bytes)@) && window_update_matches(
                    f,
                    *frame_header,
                    old(bytes)@,
                ),
                Err(e) => !window_update_ok(*frame_header, old(bytes)@) && e
                    == Http2Error::FrameError,
            },
    {
        if bytes.len() != frame_header.payload_length as usize || bytes.len() != 4 {
            return Err(Http2Error::FrameError);
        }
        let reserved: bool = bytes[0] >= 128;
        let window_size_increment: u32 = ((bytes[0] % 128) as u32) * 0x1000000 + (
        bytes[1] as u32) * 0x10000 + (bytes[2] as u32) * 0x100 + (bytes[3] as u32);
        Ok(
            WindowUpdateFrame {
                stream_id: frame_header.stream_identifier,
                reserved,
                window_size_increment,
            },
        )
    }
}

} // verus!
