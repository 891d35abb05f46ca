//! The DATA frame: arbitrary octets on a stream, with optional padding.

use vstd::prelude::*;

use crate::buffer;
use crate::error::Http2Error;
use crate::frame::{fh_encoding, flag_set, FrameFlag, FrameHeader};

verus! {

/// Whether a padded payload declares a padding that fits inside it. A pad
/// length of zero is legal.
pub open spec fn pad_ok(h: FrameHeader, p: Seq<u8>) -> bool {
    flag_set(h.frame_flags, 3) ==> p.len() >= 1 && p[0] + 1 <= p.len()
}

/// The payload with its pad-length octet and trailing padding removed.
pub open spec fn unpadded(h: FrameHeader, p: Seq<u8>) -> Seq<u8> {
    if flag_set(h.frame_flags, 3) {
        p.subrange(1, p.len() - p[0])
    } else {
        p
    }
}

/// Whether the DATA payload is well formed under its header.
pub open spec fn data_ok(h: FrameHeader, p: Seq<u8>) -> bool {
    p.len() == h.payload_length && pad_ok(h, p)
}

/// Which parsed DATA frame the header and payload describe.
pub open spec fn data_matches(d: DataFrame, h: FrameHeader, p: Seq<u8>) -> bool {
    &&& d.stream_id == h.stream_identifier
    &&& d.end_stream == flag_set(h.frame_flags, 0)
    &&& d.data@ == unpadded(h, p)
}

/// A DATA frame: a stream identifier, the end-of-stream flag, and the
/// payload octets with padding already removed.
#[derive(Debug, PartialEq)]
pub struct DataFrame {
    pub stream_id: u32,
    pub end_stream: bool,
    pub data: Vec<u8>,
}

/// The flags a DATA frame's flag octet carries.
pub open spec fn data_flags(b: u8) -> Seq<FrameFlag> {
    (if flag_set(b, 0) {
        seq![FrameFlag::EndStream]
    } else {
        Seq::empty()
    }) + (if flag_set(b, 3) {
        seq![FrameFlag::Padded]
    } else {
        Seq::empty()
    })
}

impl DataFrame {
    /// Create a DATA frame.
    pub fn new(stream_id: u32, end_stream: bool, data: Vec<u8>) -> (r: Self)
        ensures
            r.stream_id == stream_id,
            r.end_stream == end_stream,
            r.data@ == data@,
    {
        DataFrame { stream_id, end_stream, data }
    }

    /// The flags carried by a DATA frame's flag octet.
    pub fn deserialize_flags(byte: u8) -> (r: Vec<FrameFlag>)
        ensures
            r@ == data_flags(byte),
    {
        let mut r: Vec<FrameFlag> = Vec::new();
        if byte % 2 == 1 {
            r.push(FrameFlag::EndStream);
        }
        if (byte / 8) % 2 == 1 {
            r.push(FrameFlag::Padded);
        }
        proof {
            assert(r@ =~= data_flags(byte));
        }
        r
    }

    /// Serialize the frame, appending the given padding when one is
    /// supplied.
    pub fn serialize(&self, padding: Option<Vec<u8>>) -> (r: Vec<u8>)
        requires
            match padding {
                Some(pad) => pad@.len() <= 255 && self.data@.len() + pad@.len() + 1 < 0x1000000,
                None => self.data@.len() < 0x1000000,
            },
        ensures
            match padding {
                Some(pad) => r@ == fh_encoding(
                    FrameHeader {
                        payload_length: (self.data@.len() + pad@.len() + 1) as u32,
                        frame_type: 0x00,
                        frame_flags: (if self.end_stream {
                            9u8
                        } else {
                            8u8
                        }),
                        reserved: false,
                        stream_identifier: self.stream_id,
                    },
                ) + seq![pad@.len() as u8] + self.data@ + pad@,
                None => r@ == fh_encoding(
                    FrameHeader {
                        payload_length: self.data@.len() as u32,
                        frame_type: 0x00,
                        frame_flags: (if self.end_stream {
                            1u8
                        } else {
                            0u8
                        }),
                        reserved: false,
                        stream_identifier: self.stream_id,
                    },
                ) + self.data@,
            },
    {
        match padding {
            Some(pad) => {
                let frame_flags: u8 = if self.end_stream {
                    9
                } else {
                    8
                };
                let header = FrameHeader {
                    payload_length: (self.data.len() + pad.len() + 1) as u32,
                    frame_type: 0x00,
                    frame_flags,
                    reserved: false,
                    stream_identifier: self.stream_id,
                };
                let mut r = header.serialize();
                r.push(pad.len() as u8);
                crate::header::representation::append_encoded(&mut r, self.data.clone());
                crate::header::representation::append_encoded(&mut r, pad);
                proof {
                    assert(r@ =~= fh_encoding(header) + seq![pad@.len() as u8] + self.data@
                        + pad@);
                }
                r
            },
            None => {
                let frame_flags: u8 = if self.end_stream {
                    1
                } else {
                    0
                };
                let header = FrameHeader {
                    payload_length: self.data.len() as u32,
                    frame_type: 0x00,
                    frame_flags,
                    reserved: false,
                    stream_identifier: self.stream_id,
                };
                let mut r = header.serialize();
                crate::header::representation::append_encoded(&mut r, self.data.clone());
                r
            },
        }
    }

    /// Parse a DATA payload, stripping any padding.
    pub fn deserialize(frame_header: &FrameHeader, bytes: &mut Vec<u8>) -> (r: Result<
        Self,
        Http2Error,
    >)
        ensures
            match r {
                Ok(f) => data_ok(*frame_header, old(bytes)@) && data_matches(
                    f,
                    *frame_header,
                    old(bytes)@,
                ),
                Err(e) => !data_ok(*frame_header, old(bytes)@) && e == Http2Error::FrameError,
            },
    {
        if bytes.len() != frame_header.payload_length as usize {
            return Err(Http2Error::FrameError);
        }
        let ghost p = bytes@;
        let end_stream = frame_header.frame_flags % 2 == 1;
        if (frame_header.frame_flags / 8) % 2 == 1 {
            if bytes.len() < 1 {
                return Err(Http2Error::FrameError);
            }
            let pad_length = bytes[0];
            if pad_length as usize + 1 > bytes.len() {
                return Err(Http2Error::FrameError);
            }
            let keep = bytes.len() - pad_length as usize;
            bytes.truncate(keep);
            buffer::consume(bytes, 1);
            proof {
                assert(bytes@ =~= unpadded(*frame_header, p));
            }
        }
        let mut data: Vec<u8> = Vec::new();
        core::mem::swap(&mut data, bytes);
        Ok(DataFrame { stream_id: frame_header.stream_identifier, end_stream, data })
    }
}

} // verus!
