//! Header fields: a name and a value, both octet strings, with the size
//! accounting that drives dynamic-table eviction.

use vstd::prelude::*;

verus! {

/// A header field as the table layer sees it: name octets and value octets.
pub type FieldModel = (Seq<u8>, Seq<u8>);

/// ASCII lowercasing of an octet string.
pub open spec fn lower(s: Seq<u8>) -> Seq<u8> {
    s.map_values(
        |b: u8|
            if 65 <= b <= 90 {
                (b + 32) as u8
            } else {
                b
            },
    )
}

/// The size an entry charges against the table: name length plus value
/// length plus a 32-octet overhead, independent of any wire form.
pub open spec fn field_size(f: FieldModel) -> nat {
    f.0.len() + f.1.len() + 32
}

/// A header field name. Names are ASCII and case-insensitive by
/// convention; a name built from a literal is canonicalized to lowercase.
#[derive(Debug, PartialEq)]
pub struct HeaderName {
    pub name: Vec<u8>,
}

impl View for HeaderName {
    type V = Seq<u8>;

    open spec fn view(&self) -> Seq<u8> {
        self.name@
    }
}

impl Clone for HeaderName {
    fn clone(&self) -> (r: Self)
        ensures
            r@ == self@,
    {
        let r = HeaderName { name: self.name.clone() };
        proof {
            assert(r.name@ =~= self.name@);
        }
        r
    }
}

impl HeaderName {
    /// Create a header field name from literal octets, lowercasing it.
    pub fn new(name: Vec<u8>) -> (r: Self)
        ensures
            r@ == lower(name@),
    {
        let mut out: Vec<u8> = Vec::new();
        let mut i: usize = 0;
        while i < name.len()
            invariant
                i <= name@.len(),
                out@ =~= lower(name@.take(i as int)),
            decreases name@.len() - i,
        {
            let b = name[i];
            if 65 <= b && b <= 90 {
                out.push(b + 32);
            } else {
                out.push(b);
            }
            proof {
                assert(out@ =~= lower(name@.take(i as int + 1)));
            }
            i = i + 1;
        }
        proof {
            assert(name@.take(name@.len() as int) =~= name@);
        }
        HeaderName { name: out }
    }

    /// The octets of the name.
    pub fn as_bytes(&self) -> (r: &Vec<u8>)
        ensures
            r@ == self@,
    {
        &self.name
    }
}

/// A header field value: opaque octets, kept exactly as given.
#[derive(Debug, PartialEq)]
pub struct HeaderValue {
    pub value: Vec<u8>,
}

impl View for HeaderValue {
    type V = Seq<u8>;

    open spec fn view(&self) -> Seq<u8> {
        self.value@
    }
}

impl Clone for HeaderValue {
    fn clone(&self) -> (r: Self)
        ensures
            r@ == self@,
    {
        let r = HeaderValue { value: self.value.clone() };
        proof {
            assert(r.value@ =~= self.value@);
        }
        r
    }
}

impl HeaderValue {
    /// Create a header field value holding `value`.
    pub fn new(value: Vec<u8>) -> (r: Self)
        ensures
            r@ == value@,
    {
        HeaderValue { value }
    }

    /// The octets of the value.
    pub fn as_bytes(&self) -> (r: &Vec<u8>)
        ensures
            r@ == self@,
    {
        &self.value
    }
}

/// A header field: an ordered pair of name and value.
#[derive(Debug, PartialEq)]
pub struct HeaderField {
    pub name: HeaderName,
    pub value: HeaderValue,
}

impl View for HeaderField {
    type V = FieldModel;

    open spec fn view(&self) -> FieldModel {
        (self.name@, self.value@)
    }
}

impl Clone for HeaderField {
    fn clone(&self) -> (r: Self)
        ensures
            r@ == self@,
    {
        HeaderField { name: self.name.clone(), value: self.value.clone() }
    }
}

impl HeaderField {
    /// Create a header field from a name and a value.
    pub fn new(name: HeaderName, value: HeaderValue) -> (r: Self)
        ensures
            r@ == (name@, value@),
    {
        HeaderField { name, value }
    }

    /// The name of the header field.
    pub fn name(&self) -> (r: HeaderName)
        ensures
            r@ == self@.0,
    {
        self.name.clone()
    }

    /// The value of the header field.
    pub fn value(&self) -> (r: HeaderValue)
        ensures
            r@ == self@.1,
    {
        self.value.clone()
    }

    /// The size of the field in octets: name length plus value length
    /// plus the fixed 32-octet accounting charge.
    pub fn size(&self) -> (r: usize)
        requires
            field_size(self@) <= usize::MAX,
        ensures
            r == field_size(self@),
    {
        self.name.name.len() + self.value.value.len() + 32
    }

    /// The size of the field, computed wide enough never to overflow.
    pub fn size_u128(&self) -> (r: u128)
        ensures
            r == field_size(self@),
            r <= 2 * (usize::MAX as u128) + 32,
    {
        self.name.name.len() as u128 + self.value.value.len() as u128 + 32
    }
}

} // verus!
