//! The CONTINUATION frame: a further fragment of a header block.

use vstd::prelude::*;

use crate::error::Http2Error;
use crate::frame::{flag_set, FrameFlag, FrameHeader};
use crate::header::list::{hl_decoding, HeaderList, HlDec};
use crate::header::representation::{table_model, TableModel};
use crate::header::table::HeaderTable;

verus! {

/// Whether the CONTINUATION payload decodes as a header block against the
/// given table.
pub open spec fn continuation_ok(h: FrameHeader, p: Seq<u8>, t: TableModel) -> bool {
    &&& p.len() == h.payload_length
    &&& hl_decoding(p, t) is Val
}

/// Which parsed CONTINUATION frame the header, payload and tables
/// describe.
pub open spec fn continuation_matches(
    d: ContinuationFrame,
    h: FrameHeader,
    p: Seq<u8>,
    t: TableModel,
    t2: TableModel,
) -> bool {
    &&& d.end_headers == flag_set(h.frame_flags, 2)
    &&& hl_decoding(p, t) == HlDec::Val(d.header_list@, t2)
}

/// The error a failed CONTINUATION parse reports: a length mismatch is a
/// frame error, anything else is the header-block error as it propagates.
pub open spec fn continuation_error(h: FrameHeader, p: Seq<u8>, t: TableModel) -> Http2Error {
    if p.len() != h.payload_length {
        Http2Error::FrameError
    } else {
        match hl_decoding(p, t) {
            HlDec::Fail(e) => e,
            HlDec::Val(fs, t2) => Http2Error::FrameError,
        }
    }
}

/// A CONTINUATION frame: the end-of-headers flag and the decoded header
/// list fragment.
#[derive(Debug, PartialEq)]
pub struct ContinuationFrame {
    pub end_headers: bool,
    pub header_list: HeaderList,
}

/// The flags a CONTINUATION frame's flag octet carries.
pub open spec fn continuation_flags(b: u8) -> Seq<FrameFlag> {
    if flag_set(b, 2) {
        seq![FrameFlag::EndHeaders]
    } else {
        Seq::empty()
    }
}

impl ContinuationFrame {
    /// The flags carried by a CONTINUATION frame's flag octet.
    pub fn deserialize_flags(byte: u8) -> (r: Vec<FrameFlag>)
        ensures
            r@ == continuation_flags(byte),
    {
        let mut r: Vec<FrameFlag> = Vec::new();
        if (byte / 4) % 2 == 1 {
            r.push(FrameFlag::EndHeaders);
        }
        proof {
            assert(r@ =~= continuation_flags(byte));
        }
        r
    }

    /// Parse a CONTINUATION payload: a header block fragment, decoded
    /// against and mutating the header table.
    pub fn deserialize(
        frame_header: &FrameHeader,
        bytes: &mut Vec<u8>,
        header_table: &mut HeaderTable,
    ) -> (r: Result<Self, Http2Error>)
        requires
            old(header_table).wf(),
        ensures
            final(header_table).wf(),
            r matches Ok(f) ==> continuation_ok(
                *frame_header,
                old(bytes)@,
                table_model(*old(header_table)),
            ) && continuation_matches(
                f,
                *frame_header,
                old(bytes)@,
                table_model(*old(header_table)),
                table_model(*final(header_table)),
            ),
            r matches Err(e) ==> !continuation_ok(
                *frame_header,
                old(bytes)@,
                table_model(*old(header_table)),
            ) && e == continuation_error(
                *frame_header,
                old(bytes)@,
                table_model(*old(header_table)),
            ),
    {
        if bytes.len() != frame_header.payload_length as usize {
            return Err(Http2Error::FrameError);
        }
        let end_headers = (frame_header.frame_flags / 4) % 2 == 1;
        let header_list = match HeaderList::decode(bytes, header_table) {
            Ok(list) => list,
            Err(e) => {
                return Err(e);
            },
        };
        Ok(ContinuationFrame { end_headers, header_list })
    }
}

} // verus!
