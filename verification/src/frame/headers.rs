//! The HEADERS frame: opens a stream and carries a header block fragment,
//! with optional padding and an optional priority sub-structure.

use vstd::prelude::*;

use crate::buffer;
use crate::error::Http2Error;
use crate::frame::data::{pad_ok, unpadded};
use crate::frame::{flag_set, priority_model, FrameFlag, FrameHeader, FramePriority};
use crate::header::list::{hl_decoding, HeaderList, HlDec};
use crate::header::representation::{table_model, TableModel};
use crate::header::table::HeaderTable;

verus! {

/// The header block fragment of a HEADERS payload: padding stripped, then
/// the priority sub-structure removed when its flag is set.
pub open spec fn headers_block(h: FrameHeader, p: Seq<u8>) -> Seq<u8> {
    let q = unpadded(h, p);
    if flag_set(h.frame_flags, 5) {
        q.skip(5)
    } else {
        q
    }
}

/// Whether the HEADERS payload is well formed and its block decodes
/// against the given table.
pub open spec fn headers_parses(h: FrameHeader, p: Seq<u8>, t: TableModel) -> bool {
    &&& p.len() == h.payload_length
    &&& pad_ok(h, p)
    &&& (flag_set(h.frame_flags, 5) ==> unpadded(h, p).len() >= 5)
    &&& hl_decoding(headers_block(h, p), t) is Val
}

/// Which parsed HEADERS frame the header, payload and tables describe.
pub open spec fn headers_matches(
    d: HeadersFrame,
    h: FrameHeader,
    p: Seq<u8>,
    t: TableModel,
    t2: TableModel,
) -> bool {
    &&& d.stream_id == h.stream_identifier
    &&& d.end_stream == flag_set(h.frame_flags, 0)
    &&& d.end_headers == flag_set(h.frame_flags, 2)
    &&& (if flag_set(h.frame_flags, 5) {
        d.frame_priority matches Some(fp) && fp == priority_model(unpadded(h, p).take(5))
    } else {
        d.frame_priority is None
    })
    &&& hl_decoding(headers_block(h, p), t) == HlDec::Val(d.header_list@, t2)
}

/// The error a failed HEADERS parse reports: a length or padding fault is
/// a frame error, a payload too short for its priority sub-structure is a
/// truncation, and anything else is the header-block error as it
/// propagates.
pub open spec fn headers_error(h: FrameHeader, p: Seq<u8>, t: TableModel) -> Http2Error {
    if p.len() != h.payload_length {
        Http2Error::FrameError
    } else if !pad_ok(h, p) {
        Http2Error::FrameError
    } else if flag_set(h.frame_flags, 5) && unpadded(h, p).len() < 5 {
        Http2Error::Truncated
    } else {
        match hl_decoding(headers_block(h, p), t) {
            HlDec::Fail(e) => e,
            HlDec::Val(fs, t2) => Http2Error::FrameError,
        }
    }
}

/// A HEADERS frame: stream identifier, flags, optional priority, and the
/// decoded header list.
#[derive(Debug, PartialEq)]
pub struct HeadersFrame {
    pub stream_id: u32,
    pub end_stream: bool,
    pub end_headers: bool,
    pub frame_priority: Option<FramePriority>,
    pub header_list: HeaderList,
}

/// The flags a HEADERS frame's flag octet carries.
pub open spec fn headers_flags(b: u8) -> Seq<FrameFlag> {
    (if flag_set(b, 0) {
        seq![FrameFlag::EndStream]
    } else {
        Seq::empty()
    }) + (if flag_set(b, 2) {
        seq![FrameFlag::EndHeaders]
    } else {
        Seq::empty()
    }) + (if flag_set(b, 3) {
        seq![FrameFlag::Padded]
    } else {
        Seq::empty()
    }) + (if flag_set(b, 5) {
        seq![FrameFlag::Priority]
    } else {
        Seq::empty()
    })
}

impl HeadersFrame {
    /// The flags carried by a HEADERS frame's flag octet.
    pub fn deserialize_flags(byte: u8) -> (r: Vec<FrameFlag>)
        ensures
            r@ == headers_flags(byte),
    {
        let mut r: Vec<FrameFlag> = Vec::new();
        if byte % 2 == 1 {
            r.push(FrameFlag::EndStream);
        }
        if (byte / 4) % 2 == 1 {
            r.push(FrameFlag::EndHeaders);
        }
        if (byte / 8) % 2 == 1 {
            r.push(FrameFlag::Padded);
        }
        if (byte / 32) % 2 == 1 {
            r.push(FrameFlag::Priority);
        }
        proof {
            assert(r@ =~= headers_flags(byte));
        }
        r
    }

    /// Parse a HEADERS payload: strip padding from the tail, take the
    /// priority sub-structure when present, then decode the header block
    /// against and mutating the header table.
    pub fn deserialize(
        frame_header: &FrameHeader,
        bytes: &mut Vec<u8>,
        header_table: &mut HeaderTable,
    ) -> (r: Result<Self, Http2Error>)
        requires
            old(header_table).wf(),
        ensures
            final(header_table).wf(),
            r matches Ok(f) ==> headers_parses(
                *frame_header,
                old(bytes)@,
                table_model(*old(header_table)),
            ) && headers_matches(
                f,
                *frame_header,
                old(bytes)@,
                table_model(*old(header_table)),
                table_model(*final(header_table)),
            ),
            r matches Err(e) ==> !headers_parses(
                *frame_header,
                old(bytes)@,
                table_model(*old(header_table)),
            ) && e == headers_error(
                *frame_header,
                old(bytes)@,
                table_model(*old(header_table)),
            ),
    {
        if bytes.len() != frame_header.payload_length as usize {
            return Err(Http2Error::FrameError);
        }
        let ghost p = bytes@;
        let end_stream = frame_header.frame_flags % 2 == 1;
        let end_headers = (frame_header.frame_flags / 4) % 2 == 1;
        if (frame_header.frame_flags / 8) % 2 == 1 {
            if bytes.len() < 1 {
                return Err(Http2Error::FrameError);
            }
            let pad_length = bytes[0];
            if pad_length as usize + 1 > bytes.len() {
                return Err(Http2Error::FrameError);
            }
            let keep = bytes.len() - pad_length as usize;
            bytes.truncate(keep);
            buffer::consume(bytes, 1);
            proof {
                assert(bytes@ =~= unpadded(*frame_header, p));
            }
        }
        let ghost q = bytes@;
        proof {
            assert(q == unpadded(*frame_header, p));
        }
        let frame_priority: Option<FramePriority> = if (frame_header.frame_flags / 32) % 2
            == 1 {
            match FramePriority::deserialize(bytes) {
                Ok(fp) => {
                    proof {
                        assert(q.take(5) =~= q.subrange(0, 5));
                        assert(bytes@ =~= headers_block(*frame_header, p));
                    }
                    Some(fp)
                },
                Err(e) => {
                    return Err(e);
                },
            }
        } else {
            proof {
                assert(bytes@ == headers_block(*frame_header, p));
            }
            None
        };
        let header_list = match HeaderList::decode(bytes, header_table) {
            Ok(list) => list,
            Err(e) => {
                return Err(e);
            },
        };
        Ok(
            HeadersFrame {
                stream_id: frame_header.stream_identifier,
                end_stream,
                end_headers,
                frame_priority,
                header_list,
            },
        )
    }
}

} // verus!
