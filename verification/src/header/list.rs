//! The header-list codec: a sequence of representations carrying one
//! request's or response's ordered header fields, decoded and encoded
//! against the connection's header table.

use vstd::prelude::*;

use crate::error::Http2Error;
use crate::header::field::{field_size, lower, FieldModel, HeaderField};
use crate::header::primitive::lemma_str_decoding_used;
use crate::header::representation::{
    from_rep_model, into_rep_model, lemma_rep_round_trip_inc_idx, lemma_rep_round_trip_inc_new,
    lemma_rep_round_trip_indexed, rep_decoding, rep_encoding, table_model, FromRep,
    HeaderRepresentation, RepDec, RepModel, TableModel,
};
use crate::header::table::{
    evicted, ht_find, ht_find_name, lemma_evicted_bounded, lemma_find_field_sound,
    lemma_find_name_sound, lemma_ht_find_name_sound, lemma_ht_find_sound, lemma_sum_lower_bound,
    static_entries, sum_sizes, HeaderTable,
};

verus! {

/// Outcome of decoding a whole header block: the decoded fields in order
/// and the table left behind, or an error.
pub enum HlDec {
    Val(Seq<FieldModel>, TableModel),
    Fail(Http2Error),
}

/// A representation occupies between one octet and the whole buffer.
pub proof fn lemma_rep_decoding_used(bytes: Seq<u8>)
    ensures
        match rep_decoding(bytes) {
            RepDec::Val(m, u) => 1 <= u <= bytes.len(),
            RepDec::Fail(e) => true,
        },
{
    if bytes.len() > 0 {
        crate::header::primitive::lemma_int_decoding_used(7, bytes);
        crate::header::primitive::lemma_int_decoding_used(6, bytes);
        crate::header::primitive::lemma_int_decoding_used(5, bytes);
        crate::header::primitive::lemma_int_decoding_used(4, bytes);
        let b0 = bytes[0];
        if (64 <= b0 && b0 < 128 && b0 != 64) || (b0 < 32 && b0 != 0 && b0 != 16) || (16 <= b0
            && b0 < 32 && b0 != 16) {
            let n: int = if b0 >= 64 {
                6
            } else {
                4
            };
            match crate::header::primitive::int_decoding(n, bytes) {
                crate::header::primitive::IntDec::Val(v, u) => {
                    lemma_str_decoding_used(bytes.skip(u));
                },
                crate::header::primitive::IntDec::Fail(e) => {},
            }
        } else if b0 == 64 || b0 == 0 || b0 == 16 {
            lemma_str_decoding_used(bytes.skip(1));
            match crate::header::primitive::str_decoding(bytes.skip(1)) {
                crate::header::primitive::StrDec::Val(nn, u1) => {
                    lemma_str_decoding_used(bytes.skip(1 + u1));
                },
                crate::header::primitive::StrDec::Fail(e) => {},
            }
        }
    }
}

/// Decoding of a header block: representations until the buffer is empty,
/// each applied to the table as it goes by.
pub open spec fn hl_decoding(bytes: Seq<u8>, t: TableModel) -> HlDec
    decreases bytes.len(),
{
    if bytes.len() == 0 {
        HlDec::Val(Seq::empty(), t)
    } else {
        match rep_decoding(bytes) {
            RepDec::Fail(e) => HlDec::Fail(e),
            RepDec::Val(m, u) => if 1 <= u <= bytes.len() {
                match from_rep_model(m, t) {
                    FromRep::Fail(e) => HlDec::Fail(e),
                    FromRep::Field(f, t2) => match hl_decoding(bytes.skip(u), t2) {
                        HlDec::Val(fs, t3) => HlDec::Val(seq![f] + fs, t3),
                        HlDec::Fail(e) => HlDec::Fail(e),
                    },
                    FromRep::NoField(t2) => hl_decoding(bytes.skip(u), t2),
                }
            } else {
                HlDec::Fail(Http2Error::HpackError)
            },
        }
    }
}

/// Encoding of a header list: one representation per field under the
/// encoder policy, with the table updated as it goes by.
pub open spec fn hl_encoding(fields: Seq<FieldModel>, t: TableModel) -> (Seq<u8>, TableModel)
    decreases fields.len(),
{
    if fields.len() == 0 {
        (Seq::empty(), t)
    } else {
        let step = into_rep_model(fields[0], t);
        let rest = hl_encoding(fields.skip(1), step.1);
        (rep_encoding(step.0, false, false) + rest.0, rest.1)
    }
}


/// One step of block decoding, as an equation over the definitions.
proof fn lemma_hl_step(bytes: Seq<u8>, t: TableModel)
    requires
        bytes.len() > 0,
    ensures
        match rep_decoding(bytes) {
            RepDec::Val(m, u) => 1 <= u <= bytes.len() && hl_decoding(bytes, t) == (
            match from_rep_model(m, t) {
                FromRep::Fail(e) => HlDec::Fail(e),
                FromRep::Field(f, t2) => match hl_decoding(bytes.skip(u), t2) {
                    HlDec::Val(fs, t3) => HlDec::Val(seq![f] + fs, t3),
                    HlDec::Fail(e) => HlDec::Fail(e),
                },
                FromRep::NoField(t2) => hl_decoding(bytes.skip(u), t2),
            }),
            RepDec::Fail(e) => hl_decoding(bytes, t) == HlDec::Fail(e),
        },
{
    lemma_rep_decoding_used(bytes);
}

/// One step of list encoding, as an equation over the definitions.
proof fn lemma_hl_enc_step(fields: Seq<FieldModel>, t: TableModel)
    requires
        fields.len() > 0,
    ensures
        hl_encoding(fields, t).0 == rep_encoding(into_rep_model(fields[0], t).0, false, false)
            + hl_encoding(fields.skip(1), into_rep_model(fields[0], t).1).0,
        hl_encoding(fields, t).1 == hl_encoding(
            fields.skip(1),
            into_rep_model(fields[0], t).1,
        ).1,
{
}


/// Prepend already-decoded fields to the outcome of decoding the rest.
pub open spec fn hl_compose(out: Seq<FieldModel>, d: HlDec) -> HlDec {
    match d {
        HlDec::Val(fs, t2) => HlDec::Val(out + fs, t2),
        HlDec::Fail(e) => HlDec::Fail(e),
    }
}

/// Decode one representation and apply it to the table.
#[verifier::rlimit(100)]
fn decode_step(bytes: &mut Vec<u8>, header_table: &mut HeaderTable) -> (r: Result<
    Option<HeaderField>,
    Http2Error,
>)
    requires
        old(header_table).wf(),
        old(bytes)@.len() > 0,
    ensures
        final(header_table).wf(),
        match rep_decoding(old(bytes)@) {
            RepDec::Val(m, u) => match from_rep_model(m, table_model(*old(header_table))) {
                FromRep::Fail(e) => r matches Err(e2) && e2 == e,
                FromRep::Field(f, t2) => r matches Ok(of) && of matches Some(hf) && hf@ == f
                    && table_model(*final(header_table)) == t2 && final(bytes)@ == old(
                    bytes,
                )@.skip(u),
                FromRep::NoField(t2) => r matches Ok(of) && of is None && table_model(
                    *final(header_table),
                ) == t2 && final(bytes)@ == old(bytes)@.skip(u),
            },
            RepDec::Fail(e) => r matches Err(e2) && e2 == e,
        },
{
    let rep = match HeaderRepresentation::decode(bytes) {
        Ok(rep) => rep,
        Err(e) => {
            return Err(e);
        },
    };
    HeaderField::from_representation(rep, header_table)
}

/// An ordered list of header fields, as one request or response carries.
#[derive(Debug, PartialEq)]
pub struct HeaderList {
    pub header_fields: Vec<HeaderField>,
}

impl View for HeaderList {
    type V = Seq<FieldModel>;

    open spec fn view(&self) -> Seq<FieldModel> {
        self.header_fields@.map_values(|e: HeaderField| e@)
    }
}

impl Clone for HeaderList {
    fn clone(&self) -> (r: Self)
        ensures
            r@ == self@,
    {
        let mut fields: Vec<HeaderField> = Vec::new();
        let mut i: usize = 0;
        while i < self.header_fields.len()
            invariant
                i <= self.header_fields@.len(),
                fields@.len() == i,
                forall|j: int| 0 <= j < i ==> (#[trigger] fields@[j])@
                    == self.header_fields@[j]@,
            decreases self.header_fields@.len() - i,
        {
            let f = self.header_fields[i].clone();
            fields.push(f);
            i = i + 1;
        }
        let r = HeaderList { header_fields: fields };
        proof {
            assert forall|j: int| 0 <= j < r@.len() implies r@[j] == self@[j] by {
                assert(fields@[j]@ == self.header_fields@[j]@);
            }
            assert(r@ =~= self@);
        }
        r
    }
}

impl HeaderList {
    /// Create a header list holding `header_fields` in order.
    pub fn new(header_fields: Vec<HeaderField>) -> (r: HeaderList)
        ensures
            r@ == header_fields@.map_values(|e: HeaderField| e@),
    {
        HeaderList { header_fields }
    }

    /// The fields of the list.
    pub fn header_fields(&self) -> (r: &Vec<HeaderField>)
        ensures
            r@.map_values(|e: HeaderField| e@) == self@,
    {
        &self.header_fields
    }

    /// Decode a header block, consuming the whole buffer and applying its
    /// table mutations in stream order.
    #[verifier::rlimit(100)]
    pub fn decode(bytes: &mut Vec<u8>, header_table: &mut HeaderTable) -> (r: Result<
        HeaderList,
        Http2Error,
    >)
        requires
            old(header_table).wf(),
        ensures
            final(header_table).wf(),
            match hl_decoding(old(bytes)@, table_model(*old(header_table))) {
                HlDec::Val(fs, t2) => r matches Ok(list) && list@ == fs && table_model(
                    *final(header_table),
                ) == t2 && final(bytes)@.len() == 0,
                HlDec::Fail(e) => r matches Err(e2) && e2 == e,
            },
        decreases old(bytes)@.len(),
    {
        if bytes.len() == 0 {
            let empty = HeaderList { header_fields: Vec::new() };
            proof {
                assert(empty@ =~= Seq::<FieldModel>::empty());
            }
            return Ok(empty);
        }
        let ghost before = bytes@;
        let ghost tbefore = table_model(*header_table);
        proof {
            lemma_hl_step(before, tbefore);
        }
        let step = match decode_step(bytes, header_table) {
            Ok(step) => step,
            Err(e) => {
                return Err(e);
            },
        };
        match HeaderList::decode(bytes, header_table) {
            Ok(rest) => {
                match step {
                    Some(field) => {
                        let ghost fv = field@;
                        let ghost restv = rest@;
                        let mut fields = rest.header_fields;
                        fields.insert(0, field);
                        let list = HeaderList { header_fields: fields };
                        proof {
                            assert(list@ =~= seq![fv] + restv);
                        }
                        Ok(list)
                    },
                    None => Ok(rest),
                }
            },
            Err(e) => Err(e),
        }
    }

    /// Encode the list under the encoder policy, updating the table so
    /// that sender and receiver stay in lockstep.
    #[verifier::rlimit(100)]
    pub fn encode(&self, header_table: &mut HeaderTable) -> (r: Result<Vec<u8>, Http2Error>)
        requires
            old(header_table).wf(),
        ensures
            final(header_table).wf(),
            r matches Ok(bytes) && bytes@ == hl_encoding(
                self@,
                table_model(*old(header_table)),
            ).0 && table_model(*final(header_table)) == hl_encoding(
                self@,
                table_model(*old(header_table)),
            ).1,
    {
        let mut bytes: Vec<u8> = Vec::new();
        let ghost t0 = table_model(*header_table);
        let mut i: usize = 0;
        proof {
            assert(self@.skip(0) =~= self@);
        }
        while i < self.header_fields.len()
            invariant
                i <= self@.len(),
                self@.len() == self.header_fields@.len(),
                header_table.wf(),
                hl_encoding(self@, t0).0 == bytes@ + hl_encoding(
                    self@.skip(i as int),
                    table_model(*header_table),
                ).0,
                hl_encoding(self@, t0).1 == hl_encoding(
                    self@.skip(i as int),
                    table_model(*header_table),
                ).1,
            decreases self@.len() - i,
        {
            let ghost tcur = table_model(*header_table);
            let rep = self.header_fields[i].into_representation(header_table);
            let encoded = rep.encode(false, false);
            proof {
                assert(self@.skip(i as int)[0] == self@[i as int]);
                assert(self@.skip(i as int).skip(1) =~= self@.skip(i as int + 1));
                lemma_hl_enc_step(self@.skip(i as int), tcur);
                let step = into_rep_model(self@[i as int], tcur);
                let rest = hl_encoding(self@.skip(i as int + 1), step.1);
                assert(bytes@ + (encoded@ + rest.0) =~= (bytes@ + encoded@) + rest.0);
            }
            crate::header::representation::append_encoded(&mut bytes, encoded);
            i = i + 1;
        }
        proof {
            assert(self@.skip(self@.len() as int).len() == 0);
            assert(bytes@ + Seq::<u8>::empty() =~= bytes@);
        }
        Ok(bytes)
    }
}

/// Encoder-decoder lockstep law: with equal initial tables, decoding what
/// the encoder produced yields the same header list, and both tables end
/// in the same state. Holds for every list of canonical fields, that is,
/// fields whose names are lowercase and whose sizes are representable.
#[verifier::rlimit(100)]
pub proof fn lemma_encoder_decoder_lockstep(fields: Seq<FieldModel>, t: TableModel)
    requires
        forall|i: int| 0 <= i < fields.len() ==> (#[trigger] fields[i]).0 == lower(fields[i].0),
        forall|i: int| 0 <= i < fields.len() ==> field_size(#[trigger] fields[i]) <= usize::MAX,
        sum_sizes(t.0) <= t.1,
        t.1 <= usize::MAX,
    ensures
        hl_decoding(hl_encoding(fields, t).0, t) == HlDec::Val(fields, hl_encoding(fields, t).1),
    decreases fields.len(),
{
    if fields.len() == 0 {
        assert(hl_encoding(fields, t).0 =~= Seq::<u8>::empty());
        assert(fields =~= Seq::<FieldModel>::empty());
    } else {
        let f0 = fields[0];
        let step = into_rep_model(f0, t);
        let t2 = step.1;
        let rest = hl_encoding(fields.skip(1), t2);
        let rb = rep_encoding(step.0, false, false);
        let bytes = hl_encoding(fields, t).0;
        assert(bytes == rb + rest.0);
        // Bound every index the policy can produce.
        lemma_sum_lower_bound(t.0);
        assert(t.0.len() <= usize::MAX) by {
            assert(32 * t.0.len() <= sum_sizes(t.0));
        }
        lemma_find_field_sound(static_entries(), f0);
        lemma_find_field_sound(t.0, f0);
        lemma_find_name_sound(static_entries(), f0.0);
        lemma_find_name_sound(t.0, f0.0);
        assert(static_entries().len() == 61);
        // Hypotheses carry to the table after the policy's insertion.
        assert(sum_sizes(t2.0) <= t2.1 && t2.1 == t.1) by {
            match ht_find(t.0, f0) {
                Some(i) => {},
                None => {
                    lemma_evicted_bounded(seq![f0] + t.0, t.1);
                },
            }
        }
        lemma_encoder_decoder_lockstep(fields.skip(1), t2);
        // One representation decodes back to itself ...
        match ht_find(t.0, f0) {
            Some(i) => {
                lemma_rep_round_trip_indexed(i as nat, rest.0);
                lemma_ht_find_sound(t.0, f0);
            },
            None => {
                match ht_find_name(t.0, f0.0) {
                    Some(i) => {
                        lemma_rep_round_trip_inc_idx(i as nat, f0.1, rest.0);
                        lemma_ht_find_name_sound(t.0, f0.0);
                    },
                    None => {
                        lemma_rep_round_trip_inc_new(f0.0, f0.1, rest.0);
                    },
                }
            },
        }
        assert(rep_decoding(bytes) == RepDec::Val(step.0, rb.len() as int));
        assert(rb.len() >= 1) by {
            lemma_rep_decoding_used(bytes);
        }
        assert(bytes.skip(rb.len() as int) =~= rest.0);
        // ... and rebuilding the field from it gives the field back, with
        // the decoder's table moving exactly as the encoder's did.
        assert(from_rep_model(step.0, t) == FromRep::Field(f0, t2));
        assert(seq![f0] + fields.skip(1) =~= fields);
    }
}

} // verus!
