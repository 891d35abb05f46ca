//! The SETTINGS frame: configuration parameters, six octets each, with
//! unknown identifiers skipped rather than rejected.

use vstd::prelude::*;

use crate::buffer;
use crate::error::Http2Error;
use crate::frame::{be32, flag_set, FrameFlag, FrameHeader};

verus! {

/// A known SETTINGS parameter with its 32-bit value.
#[derive(Clone, Copy, Debug, PartialEq, Eq, Structural)]
pub enum SettingsParameter {
    HeaderTableSize(u32),
    EnablePush(u32),
    MaxConcurrentStreams(u32),
    InitialWindowSize(u32),
    MaxFrameSize(u32),
    MaxHeaderListSize(u32),
}

/// The parameter a six-octet record describes, if its identifier is known.
pub open spec fn settings_param(id: int, value: u32) -> Option<SettingsParameter> {
    if id == 1 {
        Some(SettingsParameter::HeaderTableSize(value))
    } else if id == 2 {
        Some(SettingsParameter::EnablePush(value))
    } else if id == 3 {
        Some(SettingsParameter::MaxConcurrentStreams(value))
    } else if id == 4 {
        Some(SettingsParameter::InitialWindowSize(value))
    } else if id == 5 {
        Some(SettingsParameter::MaxFrameSize(value))
    } else if id == 6 {
        Some(SettingsParameter::MaxHeaderListSize(value))
    } else {
        None
    }
}

/// The known parameters of a SETTINGS payload, in order, unknown
/// identifiers skipped.
pub open spec fn settings_params(p: Seq<u8>) -> Seq<SettingsParameter>
    decreases p.len(),
{
    if p.len() < 6 {
        Seq::empty()
    } else {
        let id = p[0] * 256 + p[1];
        let value = be32(p[2], p[3], p[4], p[5]) as u32;
        (match settings_param(id, value) {
            Some(param) => seq![param],
            None => Seq::empty(),
        }) + settings_params(p.skip(6))
    }
}

/// Whether the SETTINGS payload is well formed: a multiple of six octets,
/// and empty when the frame acknowledges.
pub open spec fn settings_ok(h: FrameHeader, p: Seq<u8>) -> bool {
    &&& p.len() == h.payload_length
    &&& p.len() % 6 == 0
    &&& flag_set(h.frame_flags, 0) ==> p.len() == 0
}

/// Which parsed SETTINGS frame the header and payload describe.
pub open spec fn settings_matches(d: SettingsFrame, h: FrameHeader, p: Seq<u8>) -> bool {
    &&& d.ack == flag_set(h.frame_flags, 0)
    &&& d.settings_parameters@ == settings_params(p)
}

/// A SETTINGS frame: the acknowledgement flag and the known parameters.
#[derive(Debug, PartialEq)]
pub struct SettingsFrame {
    pub ack: bool,
    pub settings_parameters: Vec<SettingsParameter>,
}

/// The flags a SETTINGS frame's flag octet carries.
pub open spec fn settings_flags(b: u8) -> Seq<FrameFlag> {
    if flag_set(b, 0) {
        seq![FrameFlag::Ack]
    } else {
        Seq::empty()
    }
}

impl SettingsParameter {
    /// The parameter a record with this identifier and value describes;
    /// unknown identifiers are an error for the caller to skip.
    pub fn deserialize(parameter_id: u16, parameter_value: u32) -> (r: Result<Self, Http2Error>)
        ensures
            match settings_param(parameter_id as int, parameter_value) {
                Some(param) => r matches Ok(q) && q == param,
                None => r matches Err(e) && e == Http2Error::FrameError,
            },
    {
        match parameter_id {
            1 => Ok(SettingsParameter::HeaderTableSize(parameter_value)),
            2 => Ok(SettingsParameter::EnablePush(parameter_value)),
            3 => Ok(SettingsParameter::MaxConcurrentStreams(parameter_value)),
            4 => Ok(SettingsParameter::InitialWindowSize(parameter_value)),
            5 => Ok(SettingsParameter::MaxFrameSize(parameter_value)),
            6 => Ok(SettingsParameter::MaxHeaderListSize(parameter_value)),
            _ => Err(Http2Error::FrameError),
        }
    }
}

/// Splitting a payload at a record boundary splits its parameters.
proof fn lemma_settings_params_append(a: Seq<u8>, b: Seq<u8>)
    requires
        a.len() % 6 == 0,
    ensures
        settings_params(a + b) == settings_params(a) + settings_params(b),
    decreases a.len(),
{
    if a.len() == 0 {
        assert(a + b =~= b);
        assert(settings_params(a + b) =~= settings_params(a) + settings_params(b));
    } else {
        assert(a.len() >= 6);
        assert((a + b).skip(6) =~= a.skip(6) + b);
        assert(a.skip(6).len() % 6 == 0);
        lemma_settings_params_append(a.skip(6), b);
        assert((a + b)[0] == a[0] && (a + b)[1] == a[1] && (a + b)[2] == a[2] && (a + b)[3]
            == a[3] && (a + b)[4] == a[4] && (a + b)[5] == a[5]);
        assert(settings_params(a + b) =~= settings_params(a) + settings_params(b));
    }
}

impl SettingsFrame {
    /// The flags carried by a SETTINGS frame's flag octet.
    pub fn deserialize_flags(byte: u8) -> (r: Vec<FrameFlag>)
        ensures
            r@ == settings_flags(byte),
    {
        let mut r: Vec<FrameFlag> = Vec::new();
        if byte % 2 == 1 {
            r.push(FrameFlag::Ack);
        }
        proof {
            assert(r@ =~= settings_flags(byte));
        }
        r
    }

    /// Parse a SETTINGS payload: known parameters collected in order,
    /// unknown identifiers skipped, acknowledgements required empty.
    pub fn deserialize(frame_header: &FrameHeader, bytes: &mut Vec<u8>) -> (r: Result<
        Self,
        Http2Error,
    >)
        ensures
            match r {
                Ok(f) => settings_ok(*frame_header, old(bytes)@) && settings_matches(
                    f,
                    *frame_header,
                    old(bytes)@,
                ),
                Err(e) => !settings_ok(*frame_header, old(bytes)@) && e
                    == Http2Error::FrameError,
            },
    {
        if bytes.len() != frame_header.payload_length as usize {
            return Err(Http2Error::FrameError);
        }
        if bytes.len() % 6 != 0 {
            return Err(Http2Error::FrameError);
        }
        let ack = frame_header.frame_flags % 2 == 1;
        if ack && bytes.len() != 0 {
            return Err(Http2Error::FrameError);
        }
        let ghost p = bytes@;
        let mut settings_parameters: Vec<SettingsParameter> = Vec::new();
        let mut i: usize = 0;
        proof {
            assert(p.take(0) =~= Seq::<u8>::empty());
            assert(settings_params(p.take(0)) =~= Seq::<SettingsParameter>::empty());
        }
        while i < bytes.len()
            invariant
                i % 6 == 0,
                i <= p.len(),
                p.len() % 6 == 0,
                bytes@ == p,
                settings_parameters@ == settings_params(p.take(i as int)),
            decreases p.len() - i,
        {
            proof {
                assert(i + 6 <= p.len()) by (nonlinear_arith)
                    requires
                        i % 6 == 0,
                        p.len() % 6 == 0,
                        i < p.len(),
                ;
            }
            let parameter_id: u16 = (bytes[i] as u16) * 256 + (bytes[i + 1] as u16);
            let parameter_value: u32 = (bytes[i + 2] as u32) * 0x1000000 + (bytes[i
                + 3] as u32) * 0x10000 + (bytes[i + 4] as u32) * 0x100 + (bytes[i + 5] as u32);
            let ghost chunk = p.subrange(i as int, i as int + 6);
            proof {
                assert(p.take(i as int + 6) =~= p.take(i as int) + chunk);
                lemma_settings_params_append(p.take(i as int), chunk);
                assert(chunk.skip(6) =~= Seq::<u8>::empty());
                assert(settings_params(chunk.skip(6)) =~= Seq::<SettingsParameter>::empty());
                assert(chunk[0] == p[i as int] && chunk[1] == p[i as int + 1] && chunk[2] == p[
                    i as int + 2
                ] && chunk[3] == p[i as int + 3] && chunk[4] == p[i as int + 4] && chunk[5]
                    == p[i as int + 5]);
            }
            if parameter_id >= 1 && parameter_id <= 6 {
                let param = match SettingsParameter::deserialize(parameter_id, parameter_value) {
                    Ok(q) => q,
                    Err(_) => {
                        proof {
                            assert(false);
                        }
                        return Err(Http2Error::FrameError);
                    },
                };
                settings_parameters.push(param);
                proof {
                    assert(settings_parameters@ =~= settings_params(p.take(i as int))
                        + settings_params(chunk));
                    assert(settings_parameters@ =~= settings_params(p.take(i as int + 6)));
                }
            } else {
                proof {
                    assert(settings_params(chunk) =~= Seq::<SettingsParameter>::empty());
                    assert(settings_parameters@ =~= settings_params(p.take(i as int + 6)));
                }
            }
            i = i + 6;
        }
        proof {
            assert(p.take(p.len() as int) =~= p);
        }
        Ok(SettingsFrame { ack, settings_parameters })
    }
}

} // verus!
