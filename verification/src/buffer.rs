//! Consuming the front of a caller-owned byte buffer.
//!
//! Every decoder of this crate removes exactly the octets it has read from
//! the front of a `Vec<u8>`; this helper is the one place where that
//! removal happens.

use vstd::prelude::*;

verus! {

/// Remove the first `count` octets of `bytes`, keeping the rest in order.
pub fn consume(bytes: &mut Vec<u8>, count: usize)
    requires
        count <= old(bytes)@.len(),
    ensures
        final(bytes)@ == old(bytes)@.skip(count as int),
{
    let tail = bytes.split_off(count);
    *bytes = tail;
    assert(bytes@ =~= old(bytes)@.skip(count as int));
}

} // verus!
