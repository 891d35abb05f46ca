//! The PUSH_PROMISE frame: announces a stream the sender intends to open,
//! with the promised stream identifier and a header block fragment.

use vstd::prelude::*;

use crate::buffer;
use crate::error::Http2Error;
use crate::frame::data::{pad_ok, unpadded};
use crate::frame::{be31, flag_set, FrameFlag, FrameHeader};
use crate::header::list::{hl_decoding, HeaderList, HlDec};
use crate::header::representation::{table_model, TableModel};
use crate::header::table::HeaderTable;

verus! {

/// Whether the PUSH_PROMISE payload is well formed and its block decodes
/// against the given table.
pub open spec fn push_promise_parses(h: FrameHeader, p: Seq<u8>, t: TableModel) -> bool {
    &&& p.len() == h.payload_length
    &&& pad_ok(h, p)
    &&& unpadded(h, p).len() >= 4
    &&& hl_decoding(unpadded(h, p).skip(4), t) is Val
}

/// Which parsed PUSH_PROMISE frame the header, payload and tables
/// describe.
pub open spec fn push_promise_matches(
    d: PushPromiseFrame,
    h: FrameHeader,
    p: Seq<u8>,
    t: TableModel,
    t2: TableModel,
) -> bool {
    let q = unpadded(h, p);
    &&& d.stream_id == h.stream_identifier
    &&& d.end_headers == flag_set(h.frame_flags, 2)
    &&& d.reserved == (q[0] >= 128)
    &&& d.promised_stream_id == be31(q[0], q[1], q[2], q[3])
    &&& hl_decoding(q.skip(4), t) == HlDec::Val(d.header_list@, t2)
}

/// The error a failed PUSH_PROMISE parse reports: a length, padding or
/// promised-identifier fault is a frame error, anything else is the
/// header-block error as it propagates.
pub open spec fn push_promise_error(h: FrameHeader, p: Seq<u8>, t: TableModel) -> Http2Error {
    if p.len() != h.payload_length {
        Http2Error::FrameError
    } else if !pad_ok(h, p) {
        Http2Error::FrameError
    } else if unpadded(h, p).len() < 4 {
        Http2Error::FrameError
    } else {
        match hl_decoding(unpadded(h, p).skip(4), t) {
            HlDec::Fail(e) => e,
            HlDec::Val(fs, t2) => Http2Error::FrameError,
        }
    }
}

/// A PUSH_PROMISE frame: the promised stream identifier and the decoded
/// header list.
#[derive(Debug, PartialEq)]
pub struct PushPromiseFrame {
    pub stream_id: u32,
    pub end_headers: bool,
    pub reserved: bool,
    pub promised_stream_id: u32,
    pub header_list: HeaderList,
}

/// The flags a PUSH_PROMISE frame's flag octet carries.
pub open spec fn push_promise_flags(b: u8) -> Seq<FrameFlag> {
    (if flag_set(b, 2) {
        seq![FrameFlag::EndHeaders]
    } else {
        Seq::empty()
    }) + (if flag_set(b, 3) {
        seq![FrameFlag::Padded]
    } else {
        Seq::empty()
    })
}

impl PushPromiseFrame {
    /// The flags carried by a PUSH_PROMISE frame's flag octet.
    pub fn deserialize_flags(byte: u8) -> (r: Vec<FrameFlag>)
        ensures
            r@ == push_promise_flags(byte),
    {
        let mut r: Vec<FrameFlag> = Vec::new();
        if (byte / 4) % 2 == 1 {
            r.push(FrameFlag::EndHeaders);
        }
        if (byte / 8) % 2 == 1 {
            r.push(FrameFlag::Padded);
        }
        proof {
            assert(r@ =~= push_promise_flags(byte));
        }
        r
    }

    /// Parse a PUSH_PROMISE payload: strip padding, take the promised
    /// stream identifier, then decode the header block against and
    /// mutating the header table.
    pub fn deserialize(
        frame_header: &FrameHeader,
        bytes: &mut Vec<u8>,
        header_table: &mut HeaderTable,
    ) -> (r: Result<Self, Http2Error>)
        requires
            old(header_table).wf(),
        ensures
            final(header_table).wf(),
            r matches Ok(f) ==> push_promise_parses(
                *frame_header,
                old(bytes)@,
                table_model(*old(header_table)),
            ) && push_promise_matches(
                f,
                *frame_header,
                old(bytes)@,
                table_model(*old(header_table)),
                table_model(*final(header_table)),
            ),
            r matches Err(e) ==> !push_promise_parses(
                *frame_header,
                old(bytes)@,
                table_model(*old(header_table)),
            ) && e == push_promise_error(
                *frame_header,
                old(bytes)@,
                table_model(*old(header_table)),
            ),
    {
        if bytes.len() != frame_header.payload_length as usize {
            return Err(Http2Error::FrameError);
        }
        let ghost p = bytes@;
        let end_headers = (frame_header.frame_flags / 4) % 2 == 1;
        if (frame_header.frame_flags / 8) % 2 == 1 {
            if bytes.len() < 1 {
                return Err(Http2Error::FrameError);
            }
            let pad_length = bytes[0];
            if pad_length as usize + 1 > bytes.len() {
                return Err(Http2Error::FrameError);
            }
            let keep = bytes.len() - pad_length as usize;
            bytes.truncate(keep);
            buffer::consume(bytes, 1);
            proof {
                assert(bytes@ =~= unpadded(*frame_header, p));
            }
        }
        if bytes.len() < 4 {
            return Err(Http2Error::FrameError);
        }
        let reserved: bool = bytes[0] >= 128;
        let promised_stream_id: u32 = ((bytes[0] % 128) as u32) * 0x1000000 + (bytes[1] as u32)
            * 0x10000 + (bytes[2] as u32) * 0x100 + (bytes[3] as u32);
        buffer::consume(bytes, 4);
        proof {
            assert(bytes@ =~= unpadded(*frame_header, p).skip(4));
        }
        let header_list = match HeaderList::decode(bytes, header_table) {
            Ok(list) => list,
            Err(e) => {
                return Err(e);
            },
        };
        Ok(
            PushPromiseFrame {
                stream_id: frame_header.stream_identifier,
                end_headers,
                reserved,
                promised_stream_id,
                header_list,
            },
        )
    }
}

} // verus!
