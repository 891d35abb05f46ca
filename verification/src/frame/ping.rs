//! The PING frame: eight opaque octets for liveness measurement.

use vstd::prelude::*;

use crate::error::Http2Error;
use crate::frame::{flag_set, FrameFlag, FrameHeader};

verus! {

/// Whether the PING payload is well formed: exactly eight octets.
pub open spec fn ping_ok(h: FrameHeader, p: Seq<u8>) -> bool {
    p.len() == h.payload_length && p.len() == 8
}

/// Which parsed PING frame the header and payload describe.
pub open spec fn ping_matches(d: PingFrame, h: FrameHeader, p: Seq<u8>) -> bool {
    &&& d.ack == flag_set(h.frame_flags, 0)
    &&& d.opaque_data@ == p
}

/// A PING frame: the acknowledgement flag and eight opaque octets.
#[derive(Debug, PartialEq)]
pub struct PingFrame {
    pub ack: bool,
    pub opaque_data: Vec<u8>,
}

/// The flags a PING frame's flag octet carries.
pub open spec fn ping_flags(b: u8) -> Seq<FrameFlag> {
    if flag_set(b, 0) {
        seq![FrameFlag::Ack]
    } else {
        Seq::empty()
    }
}

impl PingFrame {
    /// The flags carried by a PING frame's flag octet.
    pub fn deserialize_flags(byte: u8) -> (r: Vec<FrameFlag>)
        ensures
            r@ == ping_flags(byte),
    {
        let mut r: Vec<FrameFlag> = Vec::new();
        if byte % 2 == 1 {
            r.push(FrameFlag::Ack);
        }
        proof {
            assert(r@ =~= ping_flags(byte));
        }
        r
    }

    /// Parse a PING payload: exactly eight opaque octets.
    pub fn deserialize(frame_header: &FrameHeader, bytes: &mut Vec<u8>) -> (r: Result<
        Self,
        Http2Error,
    >)
        ensures
            match r {
                Ok(f) => ping_ok(*frame_header, old(bytes)@) && ping_matches(
                    f,
                    *frame_header,
                    old(bytes)@,
                ),
                Err(e) => !ping_ok(*frame_header, old(bytes)@) && e == Http2Error::FrameError,
            },
    {
        if bytes.len() != frame_header.payload_length as usize || bytes.len() != 8 {
            return Err(Http2Error::FrameError);
        }
        let ack = frame_header.frame_flags % 2 == 1;
        let mut opaque_data: Vec<u8> = Vec::new();
        core::mem::swap(&mut opaque_data, bytes);
        Ok(PingFrame { ack, opaque_data })
    }
}

} // verus!
