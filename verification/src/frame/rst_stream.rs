//! The RST_STREAM frame: immediate termination of a stream.

use vstd::prelude::*;

use crate::error::Http2Error;
use crate::frame::{be32, FrameHeader};

verus! {

/// Whether the RST_STREAM payload is well formed: exactly four octets.
pub open spec fn rst_stream_ok(h: FrameHeader, p: Seq<u8>) -> bool {
    p.len() == h.payload_length && p.len() == 4
}

/// Which parsed RST_STREAM frame the header and payload describe.
pub open spec fn rst_stream_matches(d: RstStreamFrame, h: FrameHeader, p: Seq<u8>) -> bool {
    &&& d.stream_id == h.stream_identifier
    &&& d.error_code == be32(p[0], p[1], p[2], p[3])
}

/// An RST_STREAM frame: a stream identifier and a 32-bit error code.
#[derive(Clone, Copy, Debug, PartialEq, Eq, Structural)]
pub struct RstStreamFrame {
    pub stream_id: u32,
    pub error_code: u32,
}

impl RstStreamFrame {
    /// Parse an RST_STREAM payload: exactly four octets of error code.
    pub fn deserialize(frame_header: &FrameHeader, bytes: &mut Vec<u8>) -> (r: Result<
        Self,
        Http2Error,
    >)
        ensures
            match r {
                Ok(f) => rst_stream_ok(*frame_header, old(bytes)@) && rst_stream_matches(
                    f,
                    *frame_header,
                    old(bytes)@,
                ),
                Err(e) => !rst_stream_ok(*frame_header, old(bytes)@) && e
                    == Http2Error::FrameError,
            },
    {
        if bytes.len() != frame_header.payload_length as usize || bytes.len() != 4 {
            return Err(Http2Error::FrameError);
        }
        let error_code: u32 = (bytes[0] as u32) * 0x1000000 + (bytes[1] as u32) * 0x10000 + (
        bytes[2] as u32) * 0x100 + (bytes[3] as u32);
        Ok(RstStreamFrame { stream_id: frame_header.stream_identifier, error_code })
    }
}

} // verus!
