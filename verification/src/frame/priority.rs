//! The PRIORITY frame: the sender-advised priority of a stream.

use vstd::prelude::*;

use crate::error::Http2Error;
use crate::frame::{priority_model, FrameHeader, FramePriority};

verus! {

/// Whether the PRIORITY payload is well formed: exactly five octets.
pub open spec fn priority_ok(h: FrameHeader, p: Seq<u8>) -> bool {
    p.len() == h.payload_length && p.len() == 5
}

/// Which parsed PRIORITY frame the header and payload describe.
pub open spec fn priority_matches(d: PriorityFrame, h: FrameHeader, p: Seq<u8>) -> bool {
    &&& d.stream_id == h.stream_identifier
    &&& d.frame_priority == priority_model(p)
}

/// A PRIORITY frame: a stream identifier and its priority sub-structure.
#[derive(Clone, Copy, Debug, PartialEq, Eq, Structural)]
pub struct PriorityFrame {
    pub stream_id: u32,
    pub frame_priority: FramePriority,
}

impl PriorityFrame {
    /// Parse a PRIORITY payload: exactly five octets.
    pub fn deserialize(frame_header: &FrameHeader, bytes: &mut Vec<u8>) -> (r: Result<
        Self,
        Http2Error,
    >)
        ensures
            match r {
                Ok(f) => priority_ok(*frame_header, old(bytes)@) && priority_matches(
                    f,
                    *frame_header,
                    old(bytes)@,
                ),
                Err(e) => !priority_ok(*frame_header, old(bytes)@) && e
                    == Http2Error::FrameError,
            },
    {
        if bytes.len() != frame_header.payload_length as usize || bytes.len() != 5 {
            return Err(Http2Error::FrameError);
        }
        let frame_priority = match FramePriority::deserialize(bytes) {
            Ok(p) => p,
            Err(_) => {
                proof {
                    assert(false);
                }
                return Err(Http2Error::FrameError);
            },
        };
        Ok(PriorityFrame { stream_id: frame_header.stream_identifier, frame_priority })
    }
}

} // verus!
