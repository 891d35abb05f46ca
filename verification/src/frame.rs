//! The HTTP/2 frame layer: the fixed 9-octet frame header, the priority
//! sub-structure, the frame flags, and the dispatcher that consumes exactly
//! one frame from the connection's byte stream.

pub mod continuation;
pub mod data;
pub mod go_away;
pub mod headers;
pub mod ping;
pub mod priority;
pub mod push_promise;
pub mod rst_stream;
pub mod settings;
pub mod window_update;

use vstd::prelude::*;

use crate::buffer;
use crate::error::Http2Error;
use crate::frame::continuation::ContinuationFrame;
use crate::frame::data::DataFrame;
use crate::frame::go_away::GoAwayFrame;
use crate::frame::headers::HeadersFrame;
use crate::frame::ping::PingFrame;
use crate::frame::priority::PriorityFrame;
use crate::frame::push_promise::PushPromiseFrame;
use crate::frame::rst_stream::RstStreamFrame;
use crate::frame::settings::SettingsFrame;
use crate::frame::window_update::WindowUpdateFrame;
use crate::header::representation::{table_model, TableModel};
use crate::header::table::HeaderTable;

verus! {

/// A 32-bit big-endian value from four octets.
pub open spec fn be32(b0: u8, b1: u8, b2: u8, b3: u8) -> int {
    b0 * 0x1000000 + b1 * 0x10000 + b2 * 0x100 + b3
}

/// A 31-bit identifier from four octets, the top bit masked away.
pub open spec fn be31(b0: u8, b1: u8, b2: u8, b3: u8) -> int {
    (b0 % 128) * 0x1000000 + b1 * 0x10000 + b2 * 0x100 + b3
}

/// Whether the numbered bit of a flags octet is set.
pub open spec fn flag_set(flags: u8, bit: int) -> bool {
    if bit == 0 {
        flags % 2 == 1
    } else if bit == 2 {
        (flags / 4) % 2 == 1
    } else if bit == 3 {
        (flags / 8) % 2 == 1
    } else if bit == 5 {
        (flags / 32) % 2 == 1
    } else {
        false
    }
}

/// The fixed 9-octet frame header: a 24-bit payload length, the type, the
/// flags, a reserved bit that receivers ignore, and a 31-bit stream
/// identifier.
#[derive(Clone, Copy, Debug, PartialEq, Eq, Structural)]
pub struct FrameHeader {
    pub payload_length: u32,
    pub frame_type: u8,
    pub frame_flags: u8,
    pub reserved: bool,
    pub stream_identifier: u32,
}

/// The frame header encoded by nine octets.
pub open spec fn fh_model(b: Seq<u8>) -> FrameHeader {
    FrameHeader {
        payload_length: (b[0] * 0x10000 + b[1] * 0x100 + b[2]) as u32,
        frame_type: b[3],
        frame_flags: b[4],
        reserved: b[5] >= 128,
        stream_identifier: be31(b[5], b[6], b[7], b[8]) as u32,
    }
}

/// The nine octets encoding a frame header, with the reserved bit clear.
pub open spec fn fh_encoding(h: FrameHeader) -> Seq<u8> {
    seq![
        ((h.payload_length as int) / 0x10000 % 256) as u8,
        ((h.payload_length as int) / 0x100 % 256) as u8,
        ((h.payload_length as int) % 256) as u8,
        h.frame_type,
        h.frame_flags,
        ((h.stream_identifier as int) / 0x1000000 % 128) as u8,
        ((h.stream_identifier as int) / 0x10000 % 256) as u8,
        ((h.stream_identifier as int) / 0x100 % 256) as u8,
        ((h.stream_identifier as int) % 256) as u8,
    ]
}

impl FrameHeader {
    /// Create a frame header.
    pub fn new(
        payload_length: u32,
        frame_type: u8,
        frame_flags: u8,
        reserved: bool,
        stream_identifier: u32,
    ) -> (r: FrameHeader)
        ensures
            r == (FrameHeader { payload_length, frame_type, frame_flags, reserved,
            stream_identifier }),
    {
        FrameHeader { payload_length, frame_type, frame_flags, reserved, stream_identifier }
    }

    /// Parse a frame header from the front of `bytes`, removing its nine
    /// octets on success and leaving the buffer untouched otherwise.
    pub fn deserialize(bytes: &mut Vec<u8>) -> (r: Result<FrameHeader, Http2Error>)
        ensures
            old(bytes)@.len() >= 9 ==> (r matches Ok(h) && h == fh_model(old(bytes)@)
                && final(bytes)@ == old(bytes)@.skip(9)),
            old(bytes)@.len() < 9 ==> (r matches Err(e) && e == Http2Error::Truncated
                && *final(bytes) == *old(bytes)),
    {
        if bytes.len() < 9 {
            return Err(Http2Error::Truncated);
        }
        let payload_length: u32 = (bytes[0] as u32) * 0x10000 + (bytes[1] as u32) * 0x100 + (
        bytes[2] as u32);
        let frame_type: u8 = bytes[3];
        let frame_flags: u8 = bytes[4];
        let reserved: bool = bytes[5] >= 128;
        let stream_identifier: u32 = ((bytes[5] % 128) as u32) * 0x1000000 + (bytes[6] as u32)
            * 0x10000 + (bytes[7] as u32) * 0x100 + (bytes[8] as u32);
        buffer::consume(bytes, 9);
        Ok(FrameHeader { payload_length, frame_type, frame_flags, reserved, stream_identifier })
    }

    /// Serialize the frame header into its nine octets, writing the
    /// reserved bit as zero.
    pub fn serialize(&self) -> (r: Vec<u8>)
        requires
            self.payload_length < 0x1000000,
        ensures
            r@ == fh_encoding(*self),
    {
        let mut r: Vec<u8> = Vec::new();
        r.push((self.payload_length / 0x10000 % 256) as u8);
        r.push((self.payload_length / 0x100 % 256) as u8);
        r.push((self.payload_length % 256) as u8);
        r.push(self.frame_type);
        r.push(self.frame_flags);
        r.push((self.stream_identifier / 0x1000000 % 128) as u8);
        r.push((self.stream_identifier / 0x10000 % 256) as u8);
        r.push((self.stream_identifier / 0x100 % 256) as u8);
        r.push((self.stream_identifier % 256) as u8);
        proof {
            assert(r@ =~= fh_encoding(*self));
        }
        r
    }

    /// The payload length declared by the header.
    pub fn payload_length(&self) -> (r: u32)
        ensures
            r == self.payload_length,
    {
        self.payload_length
    }

    /// The frame type octet.
    pub fn frame_type(&self) -> (r: u8)
        ensures
            r == self.frame_type,
    {
        self.frame_type
    }

    /// The flags octet.
    pub fn frame_flags(&self) -> (r: u8)
        ensures
            r == self.frame_flags,
    {
        self.frame_flags
    }

    /// The reserved bit, which receivers must ignore.
    pub fn reserved(&self) -> (r: bool)
        ensures
            r == self.reserved,
    {
        self.reserved
    }

    /// The 31-bit stream identifier.
    pub fn stream_identifier(&self) -> (r: u32)
        ensures
            r == self.stream_identifier,
    {
        self.stream_identifier
    }
}

/// A flag a frame header can carry.
#[derive(Clone, Copy, Debug, PartialEq, Eq, Structural)]
pub enum FrameFlag {
    EndStream,
    Padded,
    EndHeaders,
    Priority,
    Ack,
}

/// The priority sub-structure: an exclusivity bit, a 31-bit stream
/// dependency, and an 8-bit weight.
#[derive(Clone, Copy, Debug, PartialEq, Eq, Structural)]
pub struct FramePriority {
    pub exclusive: bool,
    pub stream_dependency: u32,
    pub weight: u8,
}

/// The priority sub-structure encoded by five octets.
pub open spec fn priority_model(b: Seq<u8>) -> FramePriority {
    FramePriority {
        exclusive: b[0] >= 128,
        stream_dependency: be31(b[0], b[1], b[2], b[3]) as u32,
        weight: b[4],
    }
}

impl FramePriority {
    /// Parse a priority sub-structure from the front of `bytes`, removing
    /// its five octets on success.
    pub fn deserialize(bytes: &mut Vec<u8>) -> (r: Result<FramePriority, Http2Error>)
        ensures
            old(bytes)@.len() >= 5 ==> (r matches Ok(p) && p == priority_model(old(bytes)@)
                && final(bytes)@ == old(bytes)@.skip(5)),
            old(bytes)@.len() < 5 ==> (r matches Err(e) && e == Http2Error::Truncated
                && *final(bytes) == *old(bytes)),
    {
        if bytes.len() < 5 {
            return Err(Http2Error::Truncated);
        }
        let exclusive: bool = bytes[0] >= 128;
        let stream_dependency: u32 = ((bytes[0] % 128) as u32) * 0x1000000 + (bytes[1] as u32)
            * 0x10000 + (bytes[2] as u32) * 0x100 + (bytes[3] as u32);
        let weight: u8 = bytes[4];
        buffer::consume(bytes, 5);
        Ok(FramePriority { exclusive, stream_dependency, weight })
    }

    /// The exclusivity bit.
    pub fn exclusive(&self) -> (r: bool)
        ensures
            r == self.exclusive,
    {
        self.exclusive
    }

    /// The 31-bit stream dependency.
    pub fn stream_dependency(&self) -> (r: u32)
        ensures
            r == self.stream_dependency,
    {
        self.stream_dependency
    }

    /// The weight.
    pub fn weight(&self) -> (r: u8)
        ensures
            r == self.weight,
    {
        self.weight
    }
}

/// A parsed HTTP/2 frame: one of the ten typed payloads.
#[derive(Debug, PartialEq)]
pub enum Frame {
    Data(DataFrame),
    Headers(HeadersFrame),
    Priority(PriorityFrame),
    RstStream(RstStreamFrame),
    Settings(SettingsFrame),
    PushPromise(PushPromiseFrame),
    Ping(PingFrame),
    GoAway(GoAwayFrame),
    WindowUpdate(WindowUpdateFrame),
    Continuation(ContinuationFrame),
}

/// Whether the front of `stream` holds one complete, well-formed frame
/// against the given header table: enough octets for the header and the
/// declared payload, a known type, and a payload its parser accepts. On
/// exactly these inputs the dispatcher owes a parsed frame.
pub open spec fn frame_parses(s: Seq<u8>, t: TableModel) -> bool {
    &&& s.len() >= 9
    &&& {
        let h = fh_model(s);
        let p = s.subrange(9, 9 + h.payload_length as int);
        &&& s.len() >= 9 + h.payload_length
        &&& h.frame_type <= 9
        &&& (if h.frame_type == 0 {
            data::data_ok(h, p)
        } else if h.frame_type == 1 {
            headers::headers_parses(h, p, t)
        } else if h.frame_type == 2 {
            priority::priority_ok(h, p)
        } else if h.frame_type == 3 {
            rst_stream::rst_stream_ok(h, p)
        } else if h.frame_type == 4 {
            settings::settings_ok(h, p)
        } else if h.frame_type == 5 {
            push_promise::push_promise_parses(h, p, t)
        } else if h.frame_type == 6 {
            ping::ping_ok(h, p)
        } else if h.frame_type == 7 {
            go_away::go_away_ok(h, p)
        } else if h.frame_type == 8 {
            window_update::window_update_ok(h, p)
        } else {
            continuation::continuation_ok(h, p, t)
        })
    }
}

/// The error a failed dispatch reports: too few octets for the header or
/// the declared payload are a truncation, a type above the ten known ones
/// is unknown, and a malformed payload reports its parser's error.
pub open spec fn frame_error_of(s: Seq<u8>, t: TableModel) -> Http2Error {
    if s.len() < 9 {
        Http2Error::Truncated
    } else {
        let h = fh_model(s);
        let p = s.subrange(9, 9 + h.payload_length as int);
        if s.len() < 9 + h.payload_length {
            Http2Error::Truncated
        } else if h.frame_type > 9 {
            Http2Error::UnknownFrameType
        } else if h.frame_type == 1 {
            headers::headers_error(h, p, t)
        } else if h.frame_type == 5 {
            push_promise::push_promise_error(h, p, t)
        } else if h.frame_type == 9 {
            continuation::continuation_error(h, p, t)
        } else {
            Http2Error::FrameError
        }
    }
}

impl Frame {
    /// Consume exactly one frame from the front of `stream`: parse the
    /// header, take exactly the declared payload, and dispatch by type.
    /// The dispatch succeeds exactly when the stream's front holds one
    /// complete, well-formed frame; the stream is then advanced by exactly
    /// nine octets plus the payload length. On failure the stream is left
    /// untouched, the error names the fault, and the header table is
    /// unchanged except by a partly-applied header block.
    #[verifier::rlimit(100)]
    pub fn deserialize(stream: &mut Vec<u8>, header_table: &mut HeaderTable) -> (r: Result<
        Frame,
        Http2Error,
    >)
        requires
            old(header_table).wf(),
        ensures
            final(header_table).wf(),
            r is Ok <==> frame_parses(old(stream)@, table_model(*old(header_table))),
            r matches Ok(f) ==> {
                let h = fh_model(old(stream)@);
                &&& old(stream)@.len() >= 9 + h.payload_length
                &&& final(stream)@ == old(stream)@.skip(9 + h.payload_length as int)
                &&& frame_matches(
                    f,
                    h,
                    old(stream)@.subrange(9, 9 + h.payload_length as int),
                    table_model(*old(header_table)),
                    table_model(*final(header_table)),
                )
            },
            r matches Err(e) ==> *final(stream) == *old(stream) && e == frame_error_of(
                old(stream)@,
                table_model(*old(header_table)),
            ),
    {
        let ghost orig = stream@;
        let mut bytes: Vec<u8> = stream.clone();
        proof {
            assert(bytes@ =~= orig);
        }
        let frame_header = match FrameHeader::deserialize(&mut bytes) {
            Ok(h) => h,
            Err(e) => {
                return Err(e);
            },
        };
        if bytes.len() < frame_header.payload_length as usize {
            return Err(Http2Error::Truncated);
        }
        bytes.truncate(frame_header.payload_length as usize);
        proof {
            assert(bytes@ =~= orig.subrange(9, 9 + frame_header.payload_length as int));
        }
        let frame: Frame = match frame_header.frame_type {
            0x00 => match DataFrame::deserialize(&frame_header, &mut bytes) {
                Ok(f) => Frame::Data(f),
                Err(e) => {
                    return Err(e);
                },
            },
            0x01 => match HeadersFrame::deserialize(&frame_header, &mut bytes, header_table) {
                Ok(f) => Frame::Headers(f),
                Err(e) => {
                    return Err(e);
                },
            },
            0x02 => match PriorityFrame::deserialize(&frame_header, &mut bytes) {
                Ok(f) => Frame::Priority(f),
                Err(e) => {
                    return Err(e);
                },
            },
            0x03 => match RstStreamFrame::deserialize(&frame_header, &mut bytes) {
                Ok(f) => Frame::RstStream(f),
                Err(e) => {
                    return Err(e);
                },
            },
            0x04 => match SettingsFrame::deserialize(&frame_header, &mut bytes) {
                Ok(f) => Frame::Settings(f),
                Err(e) => {
                    return Err(e);
                },
            },
            0x05 => match PushPromiseFrame::deserialize(
                &frame_header,
                &mut bytes,
                header_table,
            ) {
                Ok(f) => Frame::PushPromise(f),
                Err(e) => {
                    return Err(e);
                },
            },
            0x06 => match PingFrame::deserialize(&frame_header, &mut bytes) {
                Ok(f) => Frame::Ping(f),
                Err(e) => {
                    return Err(e);
                },
            },
            0x07 => match GoAwayFrame::deserialize(&frame_header, &mut bytes) {
                Ok(f) => Frame::GoAway(f),
                Err(e) => {
                    return Err(e);
                },
            },
            0x08 => match WindowUpdateFrame::deserialize(&frame_header, &mut bytes) {
                Ok(f) => Frame::WindowUpdate(f),
                Err(e) => {
                    return Err(e);
                },
            },
            0x09 => match ContinuationFrame::deserialize(
                &frame_header,
                &mut bytes,
                header_table,
            ) {
                Ok(f) => Frame::Continuation(f),
                Err(e) => {
                    return Err(e);
                },
            },
            _ => {
                return Err(Http2Error::UnknownFrameType);
            },
        };
        buffer::consume(stream, 9 + frame_header.payload_length as usize);
        Ok(frame)
    }
}

/// Which parsed frame the header and payload octets describe, threading
/// the header table through the three payloads that carry header blocks.
pub open spec fn frame_matches(
    f: Frame,
    h: FrameHeader,
    p: Seq<u8>,
    t: crate::header::representation::TableModel,
    t2: crate::header::representation::TableModel,
) -> bool {
    match f {
        Frame::Data(d) => h.frame_type == 0x00 && data::data_matches(d, h, p) && t2 == t,
        Frame::Headers(d) => h.frame_type == 0x01 && headers::headers_matches(d, h, p, t, t2),
        Frame::Priority(d) => h.frame_type == 0x02 && priority::priority_matches(d, h, p) && t2
            == t,
        Frame::RstStream(d) => h.frame_type == 0x03 && rst_stream::rst_stream_matches(d, h, p)
            && t2 == t,
        Frame::Settings(d) => h.frame_type == 0x04 && settings::settings_matches(d, h, p) && t2
            == t,
        Frame::PushPromise(d) => h.frame_type == 0x05 && push_promise::push_promise_matches(
            d,
            h,
            p,
            t,
            t2,
        ),
        Frame::Ping(d) => h.frame_type == 0x06 && ping::ping_matches(d, h, p) && t2 == t,
        Frame::GoAway(d) => h.frame_type == 0x07 && go_away::go_away_matches(d, h, p) && t2 == t,
        Frame::WindowUpdate(d) => h.frame_type == 0x08 && window_update::window_update_matches(
            d,
            h,
            p,
        ) && t2 == t,
        Frame::Continuation(d) => h.frame_type == 0x09 && continuation::continuation_matches(
            d,
            h,
            p,
            t,
            t2,
        ),
    }
}

} // verus!
