//! The HTTP/2 connection preface.

use vstd::prelude::*;

verus! {

/// The 24 octets of the client connection preface,
/// `PRI * HTTP/2.0\r\n\r\nSM\r\n\r\n`, produced and consumed verbatim
/// before any frame is exchanged.
pub open spec fn connection_preface_spec() -> Seq<u8> {
    seq![
        0x50u8, 0x52, 0x49, 0x20, 0x2a, 0x20, 0x48, 0x54, 0x54, 0x50, 0x2f, 0x32,
        0x2e, 0x30, 0x0d, 0x0a, 0x0d, 0x0a, 0x53, 0x4d, 0x0d, 0x0a, 0x0d, 0x0a,
    ]
}

/// Build the client connection preface octets.
pub fn connection_preface() -> (r: Vec<u8>)
    ensures
        r@ == connection_preface_spec(),
{
    let mut r: Vec<u8> = Vec::new();
    r.push(0x50);
    r.push(0x52);
    r.push(0x49);
    r.push(0x20);
    r.push(0x2a);
    r.push(0x20);
    r.push(0x48);
    r.push(0x54);
    r.push(0x54);
    r.push(0x50);
    r.push(0x2f);
    r.push(0x32);
    r.push(0x2e);
    r.push(0x30);
    r.push(0x0d);
    r.push(0x0a);
    r.push(0x0d);
    r.push(0x0a);
    r.push(0x53);
    r.push(0x4d);
    r.push(0x0d);
    r.push(0x0a);
    r.push(0x0d);
    r.push(0x0a);
    assert(r@ =~= connection_preface_spec());
    r
}

} // verus!
