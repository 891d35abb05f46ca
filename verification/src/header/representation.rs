//! The seven on-wire forms of a header field: one indexed form, six
//! literal forms, and the dynamic-table size-update signal, each
//! discriminated by the top bits of its first octet.

use vstd::prelude::*;

use crate::buffer;
use crate::error::Http2Error;
use crate::header::field::{lower, FieldModel, HeaderField, HeaderName, HeaderValue};
use crate::header::primitive::{
    int_decoding, int_encoding, lemma_int_decoding_used, lemma_int_encoding_first,
    lemma_integer_round_trip_offset, lemma_string_round_trip_raw, str_decoding, str_encoding,
    HpackInteger, HpackString, IntDec, StrDec,
};
use crate::header::table::{evicted, ht_find, ht_find_name, ht_get, HeaderTable};

verus! {

/// A header table as the representation layer models it: the dynamic
/// entries, newest first, and the dynamic table's capacity in octets.
pub type TableModel = (Seq<FieldModel>, nat);

/// The mathematical form of a representation.
pub enum RepModel {
    Indexed(nat),
    IncrementalIndexingIndexedName(nat, Seq<u8>),
    IncrementalIndexingNewName(Seq<u8>, Seq<u8>),
    WithoutIndexingIndexedName(nat, Seq<u8>),
    WithoutIndexingNewName(Seq<u8>, Seq<u8>),
    NeverIndexedIndexedName(nat, Seq<u8>),
    NeverIndexedNewName(Seq<u8>, Seq<u8>),
    SizeUpdate(nat),
}

/// Outcome of decoding one representation from the front of a byte
/// sequence: the representation and the octets it occupied, or an error.
pub enum RepDec {
    Val(RepModel, int),
    Fail(Http2Error),
}

/// The octets of a representation. The two Huffman flags say whether
/// literal names and values are Huffman-coded.
pub open spec fn rep_encoding(m: RepModel, hn: bool, hv: bool) -> Seq<u8> {
    match m {
        RepModel::Indexed(i) => {
            let e = int_encoding(i, 7);
            seq![(e[0] + 128) as u8] + e.skip(1)
        },
        RepModel::IncrementalIndexingIndexedName(i, v) => {
            let e = int_encoding(i, 6);
            seq![(e[0] + 64) as u8] + e.skip(1) + str_encoding(v, hv)
        },
        RepModel::IncrementalIndexingNewName(n, v) => seq![64u8] + str_encoding(n, hn)
            + str_encoding(v, hv),
        RepModel::WithoutIndexingIndexedName(i, v) => int_encoding(i, 4) + str_encoding(v, hv),
        RepModel::WithoutIndexingNewName(n, v) => seq![0u8] + str_encoding(n, hn) + str_encoding(
            v,
            hv,
        ),
        RepModel::NeverIndexedIndexedName(i, v) => {
            let e = int_encoding(i, 4);
            seq![(e[0] + 16) as u8] + e.skip(1) + str_encoding(v, hv)
        },
        RepModel::NeverIndexedNewName(n, v) => seq![16u8] + str_encoding(n, hn) + str_encoding(
            v,
            hv,
        ),
        RepModel::SizeUpdate(m) => {
            let e = int_encoding(m, 5);
            seq![(e[0] + 32) as u8] + e.skip(1)
        },
    }
}

/// Decoding of one representation from the front of `bytes`, discriminated
/// by the range the first octet falls in.
pub open spec fn rep_decoding(bytes: Seq<u8>) -> RepDec {
    if bytes.len() == 0 {
        RepDec::Fail(Http2Error::Truncated)
    } else {
        let b0 = bytes[0];
        if b0 >= 128 {
            match int_decoding(7, bytes) {
                IntDec::Val(v, u) => RepDec::Val(RepModel::Indexed(v), u),
                IntDec::Fail(e) => RepDec::Fail(e),
            }
        } else if b0 >= 64 {
            if b0 != 64 {
                match int_decoding(6, bytes) {
                    IntDec::Val(v, u) => match str_decoding(bytes.skip(u)) {
                        StrDec::Val(s, u2) => RepDec::Val(
                            RepModel::IncrementalIndexingIndexedName(v, s),
                            u + u2,
                        ),
                        StrDec::Fail(e) => RepDec::Fail(e),
                    },
                    IntDec::Fail(e) => RepDec::Fail(e),
                }
            } else {
                match str_decoding(bytes.skip(1)) {
                    StrDec::Val(n, u1) => match str_decoding(bytes.skip(1 + u1)) {
                        StrDec::Val(v, u2) => RepDec::Val(
                            RepModel::IncrementalIndexingNewName(n, v),
                            1 + u1 + u2,
                        ),
                        StrDec::Fail(e) => RepDec::Fail(e),
                    },
                    StrDec::Fail(e) => RepDec::Fail(e),
                }
            }
        } else if b0 >= 32 {
            match int_decoding(5, bytes) {
                IntDec::Val(v, u) => RepDec::Val(RepModel::SizeUpdate(v), u),
                IntDec::Fail(e) => RepDec::Fail(e),
            }
        } else if b0 >= 16 {
            if b0 != 16 {
                match int_decoding(4, bytes) {
                    IntDec::Val(v, u) => match str_decoding(bytes.skip(u)) {
                        StrDec::Val(s, u2) => RepDec::Val(
                            RepModel::NeverIndexedIndexedName(v, s),
                            u + u2,
                        ),
                        StrDec::Fail(e) => RepDec::Fail(e),
                    },
                    IntDec::Fail(e) => RepDec::Fail(e),
                }
            } else {
                match str_decoding(bytes.skip(1)) {
                    StrDec::Val(n, u1) => match str_decoding(bytes.skip(1 + u1)) {
                        StrDec::Val(v, u2) => RepDec::Val(
                            RepModel::NeverIndexedNewName(n, v),
                            1 + u1 + u2,
                        ),
                        StrDec::Fail(e) => RepDec::Fail(e),
                    },
                    StrDec::Fail(e) => RepDec::Fail(e),
                }
            }
        } else {
            if b0 != 0 {
                match int_decoding(4, bytes) {
                    IntDec::Val(v, u) => match str_decoding(bytes.skip(u)) {
                        StrDec::Val(s, u2) => RepDec::Val(
                            RepModel::WithoutIndexingIndexedName(v, s),
                            u + u2,
                        ),
                        StrDec::Fail(e) => RepDec::Fail(e),
                    },
                    IntDec::Fail(e) => RepDec::Fail(e),
                }
            } else {
                match str_decoding(bytes.skip(1)) {
                    StrDec::Val(n, u1) => match str_decoding(bytes.skip(1 + u1)) {
                        StrDec::Val(v, u2) => RepDec::Val(
                            RepModel::WithoutIndexingNewName(n, v),
                            1 + u1 + u2,
                        ),
                        StrDec::Fail(e) => RepDec::Fail(e),
                    },
                    StrDec::Fail(e) => RepDec::Fail(e),
                }
            }
        }
    }
}

/// An HPACK header field representation.
#[derive(Debug)]
pub enum HeaderRepresentation {
    /// An entry of the unified table, by index.
    Indexed(HpackInteger),
    /// A literal value under an indexed name; the field is then added to
    /// the dynamic table.
    IncrementalIndexingIndexedName(HpackInteger, HpackString),
    /// A literal name and value; the field is then added to the dynamic
    /// table.
    IncrementalIndexingNewName(HpackString, HpackString),
    /// A literal value under an indexed name, leaving the table alone.
    WithoutIndexingIndexedName(HpackInteger, HpackString),
    /// A literal name and value, leaving the table alone.
    WithoutIndexingNewName(HpackString, HpackString),
    /// As without-indexing, and intermediaries must keep this form.
    NeverIndexedIndexedName(HpackInteger, HpackString),
    /// As without-indexing with a literal name, kept by intermediaries.
    NeverIndexedNewName(HpackString, HpackString),
    /// A change of the dynamic table's capacity, signalled in-stream.
    SizeUpdate(HpackInteger),
}

impl View for HeaderRepresentation {
    type V = RepModel;

    open spec fn view(&self) -> RepModel {
        match self {
            HeaderRepresentation::Indexed(i) => RepModel::Indexed(i@),
            HeaderRepresentation::IncrementalIndexingIndexedName(i, v) =>
                RepModel::IncrementalIndexingIndexedName(i@, v@),
            HeaderRepresentation::IncrementalIndexingNewName(n, v) =>
                RepModel::IncrementalIndexingNewName(n@, v@),
            HeaderRepresentation::WithoutIndexingIndexedName(i, v) =>
                RepModel::WithoutIndexingIndexedName(i@, v@),
            HeaderRepresentation::WithoutIndexingNewName(n, v) =>
                RepModel::WithoutIndexingNewName(n@, v@),
            HeaderRepresentation::NeverIndexedIndexedName(i, v) =>
                RepModel::NeverIndexedIndexedName(i@, v@),
            HeaderRepresentation::NeverIndexedNewName(n, v) => RepModel::NeverIndexedNewName(
                n@,
                v@,
            ),
            HeaderRepresentation::SizeUpdate(m) => RepModel::SizeUpdate(m@),
        }
    }
}

/// Prefix an integer encoding with a discriminator in its unused high
/// bits.
fn encode_prefixed(i: &HpackInteger, n: u8, mask: u8) -> (r: Vec<u8>)
    requires
        1 <= n <= 8,
        mask as int + crate::header::primitive::prefix_max(n as int) <= 255,
    ensures
        r@ == seq![(int_encoding(i@, n as int)[0] + mask) as u8] + int_encoding(
            i@,
            n as int,
        ).skip(1),
{
    let enc = match i.encode(n) {
        Ok(v) => v,
        Err(_) => {
            proof {
                assert(false);
            }
            Vec::new()
        },
    };
    proof {
        lemma_int_encoding_first(i@, n as int);
    }
    let mut r: Vec<u8> = Vec::new();
    r.push(enc[0] + mask);
    let mut k: usize = 1;
    while k < enc.len()
        invariant
            1 <= k <= enc@.len(),
            r@ =~= seq![(enc@[0] + mask) as u8] + enc@.subrange(1, k as int),
        decreases enc@.len() - k,
    {
        let b = enc[k];
        r.push(b);
        proof {
            assert(r@ =~= seq![(enc@[0] + mask) as u8] + enc@.subrange(1, k as int + 1));
        }
        k = k + 1;
    }
    proof {
        assert(enc@.subrange(1, enc@.len() as int) =~= enc@.skip(1));
        assert(r@ =~= seq![(enc@[0] + mask) as u8] + enc@.skip(1));
    }
    r
}

/// Append the octets of `v` to `out`.
pub fn append_encoded(out: &mut Vec<u8>, v: Vec<u8>)
    ensures
        final(out)@ == old(out)@ + v@,
{
    let ghost head = out@;
    let mut k: usize = 0;
    while k < v.len()
        invariant
            k <= v@.len(),
            out@ =~= head + v@.take(k as int),
        decreases v@.len() - k,
    {
        let b = v[k];
        out.push(b);
        proof {
            assert(out@ =~= head + v@.take(k as int + 1));
        }
        k = k + 1;
    }
    proof {
        assert(v@.take(v@.len() as int) =~= v@);
        assert(out@ =~= head + v@);
    }
}

impl HeaderRepresentation {
    /// Encode the representation; the flags say whether literal names and
    /// values are Huffman-coded.
    pub fn encode(&self, huffman_encode_name: bool, huffman_encode_value: bool) -> (r: Vec<u8>)
        ensures
            r@ == rep_encoding(self@, huffman_encode_name, huffman_encode_value),
    {
        proof {
            vstd::arithmetic::power2::lemma2_to64();
        }
        match self {
            HeaderRepresentation::Indexed(i) => encode_prefixed(i, 7, 128),
            HeaderRepresentation::IncrementalIndexingIndexedName(i, v) => {
                let mut r = encode_prefixed(i, 6, 64);
                let vs = match v.encode(huffman_encode_value) {
                    Ok(b) => b,
                    Err(_) => Vec::new(),
                };
                append_encoded(&mut r, vs);
                r
            },
            HeaderRepresentation::IncrementalIndexingNewName(n, v) => {
                let mut r: Vec<u8> = Vec::new();
                r.push(64);
                let ns = match n.encode(huffman_encode_name) {
                    Ok(b) => b,
                    Err(_) => Vec::new(),
                };
                append_encoded(&mut r, ns);
                let vs = match v.encode(huffman_encode_value) {
                    Ok(b) => b,
                    Err(_) => Vec::new(),
                };
                append_encoded(&mut r, vs);
                proof {
                    assert(r@ =~= rep_encoding(
                        self@,
                        huffman_encode_name,
                        huffman_encode_value,
                    ));
                }
                r
            },
            HeaderRepresentation::WithoutIndexingIndexedName(i, v) => {
                let mut r = encode_prefixed(i, 4, 0);
                proof {
                    assert(r@ =~= int_encoding(i@, 4));
                }
                let vs = match v.encode(huffman_encode_value) {
                    Ok(b) => b,
                    Err(_) => Vec::new(),
                };
                append_encoded(&mut r, vs);
                r
            },
            HeaderRepresentation::WithoutIndexingNewName(n, v) => {
                let mut r: Vec<u8> = Vec::new();
                r.push(0);
                let ns = match n.encode(huffman_encode_name) {
                    Ok(b) => b,
                    Err(_) => Vec::new(),
                };
                append_encoded(&mut r, ns);
                let vs = match v.encode(huffman_encode_value) {
                    Ok(b) => b,
                    Err(_) => Vec::new(),
                };
                append_encoded(&mut r, vs);
                proof {
                    assert(r@ =~= rep_encoding(
                        self@,
                        huffman_encode_name,
                        huffman_encode_value,
                    ));
                }
                r
            },
            HeaderRepresentation::NeverIndexedIndexedName(i, v) => {
                let mut r = encode_prefixed(i, 4, 16);
                let vs = match v.encode(huffman_encode_value) {
                    Ok(b) => b,
                    Err(_) => Vec::new(),
                };
                append_encoded(&mut r, vs);
                r
            },
            HeaderRepresentation::NeverIndexedNewName(n, v) => {
                let mut r: Vec<u8> = Vec::new();
                r.push(16);
                let ns = match n.encode(huffman_encode_name) {
                    Ok(b) => b,
                    Err(_) => Vec::new(),
                };
                append_encoded(&mut r, ns);
                let vs = match v.encode(huffman_encode_value) {
                    Ok(b) => b,
                    Err(_) => Vec::new(),
                };
                append_encoded(&mut r, vs);
                proof {
                    assert(r@ =~= rep_encoding(
                        self@,
                        huffman_encode_name,
                        huffman_encode_value,
                    ));
                }
                r
            },
            HeaderRepresentation::SizeUpdate(m) => encode_prefixed(m, 5, 32),
        }
    }

    /// Decode one representation from the front of `bytes`, removing
    /// exactly the octets read on success.
    pub fn decode(bytes: &mut Vec<u8>) -> (r: Result<HeaderRepresentation, Http2Error>)
        ensures
            match rep_decoding(old(bytes)@) {
                RepDec::Val(m, u) => r matches Ok(rep) && rep@ == m && final(bytes)@ == old(
                    bytes,
                )@.skip(u),
                RepDec::Fail(e) => r matches Err(e2) && e2 == e,
            },
    {
        if bytes.len() == 0 {
            return Err(Http2Error::Truncated);
        }
        let b0 = bytes[0];
        if b0 >= 128 {
            match HpackInteger::decode(7, bytes) {
                Ok(i) => Ok(HeaderRepresentation::Indexed(i)),
                Err(e) => Err(e),
            }
        } else if b0 >= 64 {
            if b0 != 64 {
                match decode_indexed_name_form(6, bytes) {
                    Ok((i, v)) => Ok(HeaderRepresentation::IncrementalIndexingIndexedName(i, v)),
                    Err(e) => Err(e),
                }
            } else {
                match decode_new_name_form(bytes) {
                    Ok((n, v)) => Ok(HeaderRepresentation::IncrementalIndexingNewName(n, v)),
                    Err(e) => Err(e),
                }
            }
        } else if b0 >= 32 {
            match HpackInteger::decode(5, bytes) {
                Ok(m) => Ok(HeaderRepresentation::SizeUpdate(m)),
                Err(e) => Err(e),
            }
        } else if b0 >= 16 {
            if b0 != 16 {
                match decode_indexed_name_form(4, bytes) {
                    Ok((i, v)) => Ok(HeaderRepresentation::NeverIndexedIndexedName(i, v)),
                    Err(e) => Err(e),
                }
            } else {
                match decode_new_name_form(bytes) {
                    Ok((n, v)) => Ok(HeaderRepresentation::NeverIndexedNewName(n, v)),
                    Err(e) => Err(e),
                }
            }
        } else {
            if b0 != 0 {
                match decode_indexed_name_form(4, bytes) {
                    Ok((i, v)) => Ok(HeaderRepresentation::WithoutIndexingIndexedName(i, v)),
                    Err(e) => Err(e),
                }
            } else {
                match decode_new_name_form(bytes) {
                    Ok((n, v)) => Ok(HeaderRepresentation::WithoutIndexingNewName(n, v)),
                    Err(e) => Err(e),
                }
            }
        }
    }
}

/// Decode the index-and-value tail of an indexed-name form.
fn decode_indexed_name_form(n: u8, bytes: &mut Vec<u8>) -> (r: Result<
    (HpackInteger, HpackString),
    Http2Error,
>)
    requires
        1 <= n <= 8,
    ensures
        match int_decoding(n as int, old(bytes)@) {
            IntDec::Val(v, u) => match str_decoding(old(bytes)@.skip(u)) {
                StrDec::Val(s, u2) => r matches Ok(p) && p.0@ == v && p.1@ == s && final(bytes)@
                    == old(bytes)@.skip(u + u2),
                StrDec::Fail(e) => r matches Err(e2) && e2 == e,
            },
            IntDec::Fail(e) => r matches Err(e2) && e2 == e,
        },
{
    let ghost orig = bytes@;
    let i = match HpackInteger::decode(n, bytes) {
        Ok(i) => i,
        Err(e) => {
            return Err(e);
        },
    };
    let v = match HpackString::decode(bytes) {
        Ok(v) => v,
        Err(e) => {
            return Err(e);
        },
    };
    proof {
        lemma_int_then_str(orig, n as int);
    }
    Ok((i, v))
}

/// Decode the two strings of a new-name form, after its discriminator
/// octet.
fn decode_new_name_form(bytes: &mut Vec<u8>) -> (r: Result<(HpackString, HpackString), Http2Error>)
    requires
        old(bytes)@.len() >= 1,
    ensures
        match str_decoding(old(bytes)@.skip(1)) {
            StrDec::Val(n, u1) => match str_decoding(old(bytes)@.skip(1 + u1)) {
                StrDec::Val(v, u2) => r matches Ok(p) && p.0@ == n && p.1@ == v && final(bytes)@
                    == old(bytes)@.skip(1 + u1 + u2),
                StrDec::Fail(e) => r matches Err(e2) && e2 == e,
            },
            StrDec::Fail(e) => r matches Err(e2) && e2 == e,
        },
{
    let ghost orig = bytes@;
    buffer::consume(bytes, 1);
    let n = match HpackString::decode(bytes) {
        Ok(n) => n,
        Err(e) => {
            return Err(e);
        },
    };
    proof {
        crate::header::primitive::lemma_str_decoding_used(orig.skip(1));
        let u1 = str_decoding(orig.skip(1))->Val_1;
        lemma_skip_add(orig, 1, u1);
    }
    let v = match HpackString::decode(bytes) {
        Ok(v) => v,
        Err(e) => {
            return Err(e);
        },
    };
    proof {
        lemma_str_then_str(orig);
    }
    Ok((n, v))
}

/// Composing two front consumptions skips their sum.
proof fn lemma_skip_add(s: Seq<u8>, a: int, b: int)
    requires
        0 <= a,
        0 <= b,
        a + b <= s.len(),
    ensures
        s.skip(a).skip(b) == s.skip(a + b),
{
    assert(s.skip(a).skip(b) =~= s.skip(a + b));
}

/// The skip composition behind an indexed-name form: an integer, then a
/// string.
proof fn lemma_int_then_str(orig: Seq<u8>, n: int)
    requires
        1 <= n <= 8,
    ensures
        match int_decoding(n, orig) {
            IntDec::Val(v, u) => match str_decoding(orig.skip(u)) {
                StrDec::Val(s, u2) => orig.skip(u).skip(u2) == orig.skip(u + u2),
                StrDec::Fail(e) => true,
            },
            IntDec::Fail(e) => true,
        },
{
    lemma_int_decoding_used(n, orig);
    if int_decoding(n, orig) is Val {
        let u = int_decoding(n, orig)->Val_1;
        crate::header::primitive::lemma_str_decoding_used(orig.skip(u));
        if str_decoding(orig.skip(u)) is Val {
            let u2 = str_decoding(orig.skip(u))->Val_1;
            lemma_skip_add(orig, u, u2);
        }
    }
}

/// The skip composition behind a new-name form: the discriminator octet,
/// then two strings.
proof fn lemma_str_then_str(orig: Seq<u8>)
    requires
        orig.len() >= 1,
    ensures
        match str_decoding(orig.skip(1)) {
            StrDec::Val(n, u1) => orig.skip(1).skip(u1) == orig.skip(1 + u1) && match str_decoding(
                orig.skip(1 + u1),
            ) {
                StrDec::Val(v, u2) => orig.skip(1 + u1).skip(u2) == orig.skip(1 + u1 + u2),
                StrDec::Fail(e) => true,
            },
            StrDec::Fail(e) => true,
        },
{
    crate::header::primitive::lemma_str_decoding_used(orig.skip(1));
    if str_decoding(orig.skip(1)) is Val {
        let u1 = str_decoding(orig.skip(1))->Val_1;
        lemma_skip_add(orig, 1, u1);
        crate::header::primitive::lemma_str_decoding_used(orig.skip(1 + u1));
        if str_decoding(orig.skip(1 + u1)) is Val {
            let u2 = str_decoding(orig.skip(1 + u1))->Val_1;
            lemma_skip_add(orig, 1 + u1, u2);
        }
    }
}

// ---------------------------------------------------------------------------
// Building header fields from representations, and the reverse policy
// ---------------------------------------------------------------------------

/// Outcome of applying one representation to a header table: a decoded
/// field, a table change with no field, or an error.
pub enum FromRep {
    Field(FieldModel, TableModel),
    NoField(TableModel),
    Fail(Http2Error),
}

/// What one representation does to the decoder's table and output list.
/// An indexed-name lookup keeps the name as stored in the table; a literal
/// name is canonicalized to lowercase.
pub open spec fn from_rep_model(m: RepModel, t: TableModel) -> FromRep {
    match m {
        RepModel::Indexed(i) => if i > usize::MAX {
            FromRep::Fail(Http2Error::HpackError)
        } else {
            match ht_get(t.0, i as int) {
                Some(f) => FromRep::Field(f, t),
                None => FromRep::Fail(Http2Error::IndexationError),
            }
        },
        RepModel::IncrementalIndexingIndexedName(i, v) => if i > usize::MAX {
            FromRep::Fail(Http2Error::HpackError)
        } else {
            match ht_get(t.0, i as int) {
                Some(e) => FromRep::Field(
                    (e.0, v),
                    (evicted(seq![(e.0, v)] + t.0, t.1), t.1),
                ),
                None => FromRep::Fail(Http2Error::IndexationError),
            }
        },
        RepModel::IncrementalIndexingNewName(n, v) => FromRep::Field(
            (lower(n), v),
            (evicted(seq![(lower(n), v)] + t.0, t.1), t.1),
        ),
        RepModel::WithoutIndexingIndexedName(i, v) => if i > usize::MAX {
            FromRep::Fail(Http2Error::HpackError)
        } else {
            match ht_get(t.0, i as int) {
                Some(e) => FromRep::Field((e.0, v), t),
                None => FromRep::Fail(Http2Error::IndexationError),
            }
        },
        RepModel::WithoutIndexingNewName(n, v) => FromRep::Field((lower(n), v), t),
        RepModel::NeverIndexedIndexedName(i, v) => if i > usize::MAX {
            FromRep::Fail(Http2Error::HpackError)
        } else {
            match ht_get(t.0, i as int) {
                Some(e) => FromRep::Field((e.0, v), t),
                None => FromRep::Fail(Http2Error::IndexationError),
            }
        },
        RepModel::NeverIndexedNewName(n, v) => FromRep::Field((lower(n), v), t),
        RepModel::SizeUpdate(m) => if m > usize::MAX {
            FromRep::Fail(Http2Error::HpackError)
        } else {
            FromRep::NoField((evicted(t.0, m), m))
        },
    }
}

/// The encoder's policy for one field: an exact match is sent indexed, a
/// name match is sent as a literal under the indexed name and added to the
/// table, anything else as a literal with a new name and added.
pub open spec fn into_rep_model(f: FieldModel, t: TableModel) -> (RepModel, TableModel) {
    match ht_find(t.0, f) {
        Some(i) => (RepModel::Indexed(i as nat), t),
        None => match ht_find_name(t.0, f.0) {
            Some(i) => (
                RepModel::IncrementalIndexingIndexedName(i as nat, f.1),
                (evicted(seq![f] + t.0, t.1), t.1),
            ),
            None => (
                RepModel::IncrementalIndexingNewName(f.0, f.1),
                (evicted(seq![f] + t.0, t.1), t.1),
            ),
        },
    }
}

/// The table model of a header table value.
pub open spec fn table_model(t: HeaderTable) -> TableModel {
    (t@, t.max_size_spec())
}

impl HeaderField {
    /// Build a header field from a representation, looking names up in the
    /// table and applying any table mutation the representation carries.
    /// A size update yields no field.
    pub fn from_representation(
        header_representation: HeaderRepresentation,
        header_table: &mut HeaderTable,
    ) -> (r: Result<Option<HeaderField>, Http2Error>)
        requires
            old(header_table).wf(),
        ensures
            final(header_table).wf(),
            match from_rep_model(header_representation@, table_model(*old(header_table))) {
                FromRep::Field(f, t2) => r matches Ok(of) && of matches Some(hf) && hf@ == f
                    && table_model(*final(header_table)) == t2,
                FromRep::NoField(t2) => r matches Ok(of) && of is None && table_model(
                    *final(header_table),
                ) == t2,
                FromRep::Fail(e) => r matches Err(e2) && e2 == e && *final(header_table) == *old(
                    header_table,
                ),
            },
    {
        match header_representation {
            HeaderRepresentation::Indexed(index) => {
                let idx128: u128 = index.value();
                if idx128 > usize::MAX as u128 {
                    return Err(Http2Error::HpackError);
                }
                match header_table.get(idx128 as usize) {
                    Ok(field) => Ok(Some(field)),
                    Err(e) => Err(e),
                }
            },
            HeaderRepresentation::IncrementalIndexingIndexedName(index, value) => {
                let idx128: u128 = index.value();
                if idx128 > usize::MAX as u128 {
                    return Err(Http2Error::HpackError);
                }
                let entry = match header_table.get(idx128 as usize) {
                    Ok(field) => field,
                    Err(e) => {
                        return Err(e);
                    },
                };
                let field = HeaderField {
                    name: entry.name,
                    value: HeaderValue { value: value.octets },
                };
                header_table.add_entry(field.clone());
                Ok(Some(field))
            },
            HeaderRepresentation::IncrementalIndexingNewName(name, value) => {
                let field = HeaderField {
                    name: HeaderName::new(name.octets),
                    value: HeaderValue { value: value.octets },
                };
                header_table.add_entry(field.clone());
                Ok(Some(field))
            },
            HeaderRepresentation::WithoutIndexingIndexedName(index, value) => {
                let idx128: u128 = index.value();
                if idx128 > usize::MAX as u128 {
                    return Err(Http2Error::HpackError);
                }
                let entry = match header_table.get(idx128 as usize) {
                    Ok(field) => field,
                    Err(e) => {
                        return Err(e);
                    },
                };
                Ok(
                    Some(
                        HeaderField {
                            name: entry.name,
                            value: HeaderValue { value: value.octets },
                        },
                    ),
                )
            },
            HeaderRepresentation::WithoutIndexingNewName(name, value) => Ok(
                Some(
                    HeaderField {
                        name: HeaderName::new(name.octets),
                        value: HeaderValue { value: value.octets },
                    },
                ),
            ),
            HeaderRepresentation::NeverIndexedIndexedName(index, value) => {
                let idx128: u128 = index.value();
                if idx128 > usize::MAX as u128 {
                    return Err(Http2Error::HpackError);
                }
                let entry = match header_table.get(idx128 as usize) {
                    Ok(field) => field,
                    Err(e) => {
                        return Err(e);
                    },
                };
                Ok(
                    Some(
                        HeaderField {
                            name: entry.name,
                            value: HeaderValue { value: value.octets },
                        },
                    ),
                )
            },
            HeaderRepresentation::NeverIndexedNewName(name, value) => Ok(
                Some(
                    HeaderField {
                        name: HeaderName::new(name.octets),
                        value: HeaderValue { value: value.octets },
                    },
                ),
            ),
            HeaderRepresentation::SizeUpdate(max_size) => {
                let m128: u128 = max_size.value();
                if m128 > usize::MAX as u128 {
                    return Err(Http2Error::HpackError);
                }
                header_table.set_max_size(m128 as usize);
                Ok(None)
            },
        }
    }

    /// Build a representation for this field under the encoder policy,
    /// adding the field to the dynamic table when a literal form is used.
    pub fn into_representation(&self, header_table: &mut HeaderTable) -> (r: HeaderRepresentation)
        requires
            old(header_table).wf(),
        ensures
            final(header_table).wf(),
            r@ == into_rep_model(self@, table_model(*old(header_table))).0,
            table_model(*final(header_table)) == into_rep_model(
                self@,
                table_model(*old(header_table)),
            ).1,
    {
        match header_table.contains(self) {
            Some(index) => HeaderRepresentation::Indexed(HpackInteger::new(index as u128)),
            None => {
                match header_table.contains_name(self) {
                    Some(index) => {
                        header_table.add_entry(self.clone());
                        HeaderRepresentation::IncrementalIndexingIndexedName(
                            HpackInteger::new(index as u128),
                            HpackString::new(self.value.value.clone()),
                        )
                    },
                    None => {
                        header_table.add_entry(self.clone());
                        HeaderRepresentation::IncrementalIndexingNewName(
                            HpackString::new(self.name.name.clone()),
                            HpackString::new(self.value.value.clone()),
                        )
                    },
                }
            },
        }
    }

    /// Build a without-indexing representation for this field, leaving the
    /// table alone.
    pub fn into_representation_without_indexing(&self, header_table: &HeaderTable) -> (r:
        HeaderRepresentation)
        requires
            header_table.wf(),
        ensures
            r@ == (match ht_find_name(header_table@, self@.0) {
                Some(i) => RepModel::WithoutIndexingIndexedName(i as nat, self@.1),
                None => RepModel::WithoutIndexingNewName(self@.0, self@.1),
            }),
    {
        match header_table.contains_name(self) {
            Some(index) => HeaderRepresentation::WithoutIndexingIndexedName(
                HpackInteger::new(index as u128),
                HpackString::new(self.value.value.clone()),
            ),
            None => HeaderRepresentation::WithoutIndexingNewName(
                HpackString::new(self.name.name.clone()),
                HpackString::new(self.value.value.clone()),
            ),
        }
    }

    /// Build a never-indexed representation for this field, leaving the
    /// table alone; intermediaries must keep the form on re-encoding.
    pub fn into_representation_never_index(&self, header_table: &HeaderTable) -> (r:
        HeaderRepresentation)
        requires
            header_table.wf(),
        ensures
            r@ == (match ht_find_name(header_table@, self@.0) {
                Some(i) => RepModel::NeverIndexedIndexedName(i as nat, self@.1),
                None => RepModel::NeverIndexedNewName(self@.0, self@.1),
            }),
    {
        match header_table.contains_name(self) {
            Some(index) => HeaderRepresentation::NeverIndexedIndexedName(
                HpackInteger::new(index as u128),
                HpackString::new(self.value.value.clone()),
            ),
            None => HeaderRepresentation::NeverIndexedNewName(
                HpackString::new(self.name.name.clone()),
                HpackString::new(self.value.value.clone()),
            ),
        }
    }
}

// ---------------------------------------------------------------------------
// Round trips for the representations the encoder policy emits
// ---------------------------------------------------------------------------

/// Decoding an encoded indexed representation returns it and consumes
/// exactly its octets.
pub proof fn lemma_rep_round_trip_indexed(i: nat, rest: Seq<u8>)
    requires
        1 <= i <= u128::MAX,
    ensures
        rep_decoding(rep_encoding(RepModel::Indexed(i), false, false) + rest) == RepDec::Val(
            RepModel::Indexed(i),
            rep_encoding(RepModel::Indexed(i), false, false).len() as int,
        ),
{
    vstd::arithmetic::power2::lemma2_to64();
    lemma_int_encoding_first(i, 7);
    let enc = int_encoding(i, 7);
    let rb = rep_encoding(RepModel::Indexed(i), false, false);
    let bytes = rb + rest;
    assert(bytes =~= seq![(enc[0] + 128) as u8] + enc.skip(1) + rest);
    assert(bytes[0] >= 128);
    lemma_integer_round_trip_offset(i, 7, 1, rest);
    assert(rb.len() == enc.len());
}

/// Decoding an encoded incremental-indexing indexed-name representation
/// returns it and consumes exactly its octets.
pub proof fn lemma_rep_round_trip_inc_idx(i: nat, v: Seq<u8>, rest: Seq<u8>)
    requires
        1 <= i <= u128::MAX,
        v.len() <= u128::MAX,
    ensures
        rep_decoding(
            rep_encoding(RepModel::IncrementalIndexingIndexedName(i, v), false, false) + rest,
        ) == RepDec::Val(
            RepModel::IncrementalIndexingIndexedName(i, v),
            rep_encoding(RepModel::IncrementalIndexingIndexedName(i, v), false, false).len() as int,
        ),
{
    vstd::arithmetic::power2::lemma2_to64();
    lemma_int_encoding_first(i, 6);
    let enc = int_encoding(i, 6);
    let sv = str_encoding(v, false);
    let rb = rep_encoding(RepModel::IncrementalIndexingIndexedName(i, v), false, false);
    let bytes = rb + rest;
    let fb: u8 = (enc[0] + 64) as u8;
    assert(bytes =~= seq![fb] + enc.skip(1) + (sv + rest));
    assert(bytes[0] == fb);
    assert(enc[0] >= 1) by {
        if i < 63 {
            assert(enc[0] == i as u8);
        } else {
            assert(enc[0] == 63);
        }
    }
    assert(64 <= fb < 128);
    assert(fb != 64);
    lemma_integer_round_trip_offset(i, 6, 1, sv + rest);
    assert(int_decoding(6, bytes) == IntDec::Val(i, enc.len() as int));
    assert(bytes.skip(enc.len() as int) =~= sv + rest);
    lemma_string_round_trip_raw(v, rest);
    assert(str_decoding(bytes.skip(enc.len() as int)) == StrDec::Val(v, sv.len() as int));
    assert(rb.len() == enc.len() + sv.len());
}

/// Decoding an encoded incremental-indexing new-name representation
/// returns it and consumes exactly its octets.
pub proof fn lemma_rep_round_trip_inc_new(n: Seq<u8>, v: Seq<u8>, rest: Seq<u8>)
    requires
        n.len() <= u128::MAX,
        v.len() <= u128::MAX,
    ensures
        rep_decoding(
            rep_encoding(RepModel::IncrementalIndexingNewName(n, v), false, false) + rest,
        ) == RepDec::Val(
            RepModel::IncrementalIndexingNewName(n, v),
            rep_encoding(RepModel::IncrementalIndexingNewName(n, v), false, false).len() as int,
        ),
{
    let sn = str_encoding(n, false);
    let sv = str_encoding(v, false);
    let rb = rep_encoding(RepModel::IncrementalIndexingNewName(n, v), false, false);
    let bytes = rb + rest;
    assert(bytes[0] == 64);
    assert(bytes.skip(1) =~= sn + (sv + rest));
    lemma_string_round_trip_raw(n, sv + rest);
    assert(str_decoding(bytes.skip(1)) == StrDec::Val(n, sn.len() as int));
    assert(bytes.skip(1 + sn.len() as int) =~= sv + rest);
    lemma_string_round_trip_raw(v, rest);
    assert(str_decoding(bytes.skip(1 + sn.len() as int)) == StrDec::Val(v, sv.len() as int));
    assert(rb.len() == 1 + sn.len() + sv.len());
}

} // verus!
