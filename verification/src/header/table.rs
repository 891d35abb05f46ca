//! The HPACK indexing tables: the fixed static table, the bounded FIFO
//! dynamic table with octet-size eviction, and the unified index space
//! over both.

use vstd::prelude::*;

use crate::error::Http2Error;
use crate::header::field::{field_size, FieldModel, HeaderField, HeaderName, HeaderValue};

verus! {

/// The number of static table entries.
pub open spec fn static_len() -> int {
    61
}

pub open spec fn static_chunk_0() -> Seq<FieldModel> {
    seq![
        (seq![58u8, 97, 117, 116, 104, 111, 114, 105, 116, 121], Seq::<u8>::empty()),
        (seq![58u8, 109, 101, 116, 104, 111, 100], seq![71u8, 69, 84]),
        (seq![58u8, 109, 101, 116, 104, 111, 100], seq![80u8, 79, 83, 84]),
        (seq![58u8, 112, 97, 116, 104], seq![47u8]),
        (seq![58u8, 112, 97, 116, 104], seq![47u8, 105, 110, 100, 101, 120, 46, 104, 116, 109, 108]),
        (seq![58u8, 115, 99, 104, 101, 109, 101], seq![104u8, 116, 116, 112]),
        (seq![58u8, 115, 99, 104, 101, 109, 101], seq![104u8, 116, 116, 112, 115]),
        (seq![58u8, 115, 116, 97, 116, 117, 115], seq![50u8, 48, 48]),
        (seq![58u8, 115, 116, 97, 116, 117, 115], seq![50u8, 48, 52]),
        (seq![58u8, 115, 116, 97, 116, 117, 115], seq![50u8, 48, 54]),
        (seq![58u8, 115, 116, 97, 116, 117, 115], seq![51u8, 48, 52]),
        (seq![58u8, 115, 116, 97, 116, 117, 115], seq![52u8, 48, 48]),
        (seq![58u8, 115, 116, 97, 116, 117, 115], seq![52u8, 48, 52]),
        (seq![58u8, 115, 116, 97, 116, 117, 115], seq![53u8, 48, 48]),
        (seq![97u8, 99, 99, 101, 112, 116, 45, 99, 104, 97, 114, 115, 101, 116], Seq::<u8>::empty()),
        (seq![97u8, 99, 99, 101, 112, 116, 45, 101, 110, 99, 111, 100, 105, 110, 103], seq![103u8, 122, 105, 112, 44, 32, 100, 101, 102, 108, 97, 116, 101]),
    ]
}

pub open spec fn static_chunk_1() -> Seq<FieldModel> {
    seq![
        (seq![97u8, 99, 99, 101, 112, 116, 45, 108, 97, 110, 103, 117, 97, 103, 101], Seq::<u8>::empty()),
        (seq![97u8, 99, 99, 101, 112, 116, 45, 114, 97, 110, 103, 101, 115], Seq::<u8>::empty()),
        (seq![97u8, 99, 99, 101, 112, 116], Seq::<u8>::empty()),
        (seq![97u8, 99, 99, 101, 115, 115, 45, 99, 111, 110, 116, 114, 111, 108, 45, 97, 108, 108, 111, 119, 45, 111, 114, 105, 103, 105, 110], Seq::<u8>::empty()),
        (seq![97u8, 103, 101], Seq::<u8>::empty()),
        (seq![97u8, 108, 108, 111, 119], Seq::<u8>::empty()),
        (seq![97u8, 117, 116, 104, 111, 114, 105, 122, 97, 116, 105, 111, 110], Seq::<u8>::empty()),
        (seq![99u8, 97, 99, 104, 101, 45, 99, 111, 110, 116, 114, 111, 108], Seq::<u8>::empty()),
        (seq![99u8, 111, 110, 116, 101, 110, 116, 45, 100, 105, 115, 112, 111, 115, 105, 116, 105, 111, 110], Seq::<u8>::empty()),
        (seq![99u8, 111, 110, 116, 101, 110, 116, 45, 101, 110, 99, 111, 100, 105, 110, 103], Seq::<u8>::empty()),
        (seq![99u8, 111, 110, 116, 101, 110, 116, 45, 108, 97, 110, 103, 117, 97, 103, 101], Seq::<u8>::empty()),
        (seq![99u8, 111, 110, 116, 101, 110, 116, 45, 108, 101, 110, 103, 116, 104], Seq::<u8>::empty()),
        (seq![99u8, 111, 110, 116, 101, 110, 116, 45, 108, 111, 99, 97, 116, 105, 111, 110], Seq::<u8>::empty()),
        (seq![99u8, 111, 110, 116, 101, 110, 116, 45, 114, 97, 110, 103, 101], Seq::<u8>::empty()),
        (seq![99u8, 111, 110, 116, 101, 110, 116, 45, 116, 121, 112, 101], Seq::<u8>::empty()),
        (seq![99u8, 111, 111, 107, 105, 101], Seq::<u8>::empty()),
    ]
}

pub open spec fn static_chunk_2() -> Seq<FieldModel> {
    seq![
        (seq![100u8, 97, 116, 101], Seq::<u8>::empty()),
        (seq![101u8, 116, 97, 103], Seq::<u8>::empty()),
        (seq![101u8, 120, 112, 101, 99, 116], Seq::<u8>::empty()),
        (seq![101u8, 120, 112, 105, 114, 101, 115], Seq::<u8>::empty()),
        (seq![102u8, 114, 111, 109], Seq::<u8>::empty()),
        (seq![104u8, 111, 115, 116], Seq::<u8>::empty()),
        (seq![105u8, 102, 45, 109, 97, 116, 99, 104], Seq::<u8>::empty()),
        (seq![105u8, 102, 45, 109, 111, 100, 105, 102, 105, 101, 100, 45, 115, 105, 110, 99, 101], Seq::<u8>::empty()),
        (seq![105u8, 102, 45, 110, 111, 110, 101, 45, 109, 97, 116, 99, 104], Seq::<u8>::empty()),
        (seq![105u8, 102, 45, 114, 97, 110, 103, 101], Seq::<u8>::empty()),
        (seq![105u8, 102, 45, 117, 110, 109, 111, 100, 105, 102, 105, 101, 100, 45, 115, 105, 110, 99, 101], Seq::<u8>::empty()),
        (seq![108u8, 97, 115, 116, 45, 109, 111, 100, 105, 102, 105, 101, 100], Seq::<u8>::empty()),
        (seq![108u8, 105, 110, 107], Seq::<u8>::empty()),
        (seq![108u8, 111, 99, 97, 116, 105, 111, 110], Seq::<u8>::empty()),
        (seq![109u8, 97, 120, 45, 102, 111, 114, 119, 97, 114, 100, 115], Seq::<u8>::empty()),
        (seq![112u8, 114, 111, 120, 121, 45, 97, 117, 116, 104, 101, 110, 116, 105, 99, 97, 116, 101], Seq::<u8>::empty()),
    ]
}

pub open spec fn static_chunk_3() -> Seq<FieldModel> {
    seq![
        (seq![112u8, 114, 111, 120, 121, 45, 97, 117, 116, 104, 111, 114, 105, 122, 97, 116, 105, 111, 110], Seq::<u8>::empty()),
        (seq![114u8, 97, 110, 103, 101], Seq::<u8>::empty()),
        (seq![114u8, 101, 102, 101, 114, 101, 114], Seq::<u8>::empty()),
        (seq![114u8, 101, 102, 114, 101, 115, 104], Seq::<u8>::empty()),
        (seq![114u8, 101, 116, 114, 121, 45, 97, 102, 116, 101, 114], Seq::<u8>::empty()),
        (seq![115u8, 101, 114, 118, 101, 114], Seq::<u8>::empty()),
        (seq![115u8, 101, 116, 45, 99, 111, 111, 107, 105, 101], Seq::<u8>::empty()),
        (seq![115u8, 116, 114, 105, 99, 116, 45, 116, 114, 97, 110, 115, 112, 111, 114, 116, 45, 115, 101, 99, 117, 114, 105, 116, 121], Seq::<u8>::empty()),
        (seq![116u8, 114, 97, 110, 115, 102, 101, 114, 45, 101, 110, 99, 111, 100, 105, 110, 103], Seq::<u8>::empty()),
        (seq![117u8, 115, 101, 114, 45, 97, 103, 101, 110, 116], Seq::<u8>::empty()),
        (seq![118u8, 97, 114, 121], Seq::<u8>::empty()),
        (seq![118u8, 105, 97], Seq::<u8>::empty()),
        (seq![119u8, 119, 119, 45, 97, 117, 116, 104, 101, 110, 116, 105, 99, 97, 116, 101], Seq::<u8>::empty()),
    ]
}

/// The 61 static entries, in their fixed order.
pub open spec fn static_entries() -> Seq<FieldModel> {
    static_chunk_0() + static_chunk_1() + static_chunk_2() + static_chunk_3()
}

/// The sum of the entry sizes of a table, counted from the oldest end.
pub open spec fn sum_sizes(s: Seq<FieldModel>) -> nat
    decreases s.len(),
{
    if s.len() == 0 {
        0
    } else {
        sum_sizes(s.drop_last()) + field_size(s.last())
    }
}

/// Evict entries from the oldest end until the table fits in `max` octets.
pub open spec fn evicted(s: Seq<FieldModel>, max: nat) -> Seq<FieldModel>
    decreases s.len(),
{
    if s.len() == 0 || sum_sizes(s) <= max {
        s
    } else {
        evicted(s.drop_last(), max)
    }
}

/// Prepending an entry adds its size to the total.
pub proof fn lemma_sum_prepend(f: FieldModel, s: Seq<FieldModel>)
    ensures
        sum_sizes(seq![f] + s) == field_size(f) + sum_sizes(s),
    decreases s.len(),
{
    if s.len() == 0 {
        assert((seq![f] + s).drop_last() =~= Seq::<FieldModel>::empty());
        assert((seq![f] + s).last() == f);
        assert(sum_sizes(Seq::<FieldModel>::empty()) == 0);
    } else {
        assert((seq![f] + s).drop_last() =~= seq![f] + s.drop_last());
        assert((seq![f] + s).last() == s.last());
        lemma_sum_prepend(f, s.drop_last());
    }
}

/// Header table size invariant: after eviction the summed entry sizes
/// never exceed the table's capacity.
pub proof fn lemma_evicted_bounded(s: Seq<FieldModel>, max: nat)
    ensures
        sum_sizes(evicted(s, max)) <= max,
    decreases s.len(),
{
    if s.len() == 0 || sum_sizes(s) <= max {
    } else {
        lemma_evicted_bounded(s.drop_last(), max);
    }
}

/// Newest-first law: an insertion that fits without eviction puts the new
/// entry at position zero, above everything already there.
pub proof fn lemma_newest_first(f: FieldModel, s: Seq<FieldModel>, max: nat)
    requires
        field_size(f) + sum_sizes(s) <= max,
    ensures
        evicted(seq![f] + s, max) == seq![f] + s,
        evicted(seq![f] + s, max)[0] == f,
        ht_get(evicted(seq![f] + s, max), 62) == Some(f),
{
    lemma_sum_prepend(f, s);
    assert((seq![f] + s)[0] == f);
}

/// Every entry charges at least its 32-octet overhead, so a table within
/// its capacity holds a bounded number of entries.
pub proof fn lemma_sum_lower_bound(s: Seq<FieldModel>)
    ensures
        sum_sizes(s) >= 32 * s.len(),
    decreases s.len(),
{
    if s.len() > 0 {
        lemma_sum_lower_bound(s.drop_last());
    }
}

/// The first position holding exactly the field `f`, if any.
pub open spec fn find_field(s: Seq<FieldModel>, f: FieldModel) -> Option<int>
    decreases s.len(),
{
    if s.len() == 0 {
        None
    } else if s[0] == f {
        Some(0)
    } else {
        match find_field(s.skip(1), f) {
            Some(i) => Some(i + 1),
            None => None,
        }
    }
}

/// The first position holding an entry with name `name`, if any.
pub open spec fn find_name(s: Seq<FieldModel>, name: Seq<u8>) -> Option<int>
    decreases s.len(),
{
    if s.len() == 0 {
        None
    } else if s[0].0 == name {
        Some(0)
    } else {
        match find_name(s.skip(1), name) {
            Some(i) => Some(i + 1),
            None => None,
        }
    }
}

/// A found field is in range and is the field sought.
pub proof fn lemma_find_field_sound(s: Seq<FieldModel>, f: FieldModel)
    ensures
        match find_field(s, f) {
            Some(i) => 0 <= i < s.len() && s[i] == f,
            None => true,
        },
    decreases s.len(),
{
    if s.len() > 0 && s[0] != f {
        lemma_find_field_sound(s.skip(1), f);
    }
}

/// A found name position is in range and holds that name.
pub proof fn lemma_find_name_sound(s: Seq<FieldModel>, name: Seq<u8>)
    ensures
        match find_name(s, name) {
            Some(i) => 0 <= i < s.len() && s[i].0 == name,
            None => true,
        },
    decreases s.len(),
{
    if s.len() > 0 && s[0].0 != name {
        lemma_find_name_sound(s.skip(1), name);
    }
}

/// The read-only 61-entry static table.
pub struct StaticTable {
    pub table: Vec<HeaderField>,
}

impl View for StaticTable {
    type V = Seq<FieldModel>;

    open spec fn view(&self) -> Seq<FieldModel> {
        self.table@.map_values(|e: HeaderField| e@)
    }
}

#[verifier::rlimit(100)]
fn static_entry_0(i: usize) -> (r: HeaderField)
    requires
        0 <= i < 16,
    ensures
        r@ == static_entries()[i as int],
{
    match i {
        0 => {
            let mut n: Vec<u8> = Vec::new();
            let mut v: Vec<u8> = Vec::new();
            n.push(58);
            n.push(97);
            n.push(117);
            n.push(116);
            n.push(104);
            n.push(111);
            n.push(114);
            n.push(105);
            n.push(116);
            n.push(121);

            let f = HeaderField { name: HeaderName { name: n }, value: HeaderValue { value: v } };
            proof {
                assert(f@.0 =~= static_entries()[0].0);
                assert(f@.1 =~= static_entries()[0].1);
            }
            f
        },
        1 => {
            let mut n: Vec<u8> = Vec::new();
            let mut v: Vec<u8> = Vec::new();
            n.push(58);
            n.push(109);
            n.push(101);
            n.push(116);
            n.push(104);
            n.push(111);
            n.push(100);
            v.push(71);
            v.push(69);
            v.push(84);
            let f = HeaderField { name: HeaderName { name: n }, value: HeaderValue { value: v } };
            proof {
                assert(f@.0 =~= static_entries()[1].0);
                assert(f@.1 =~= static_entries()[1].1);
            }
            f
        },
        2 => {
            let mut n: Vec<u8> = Vec::new();
            let mut v: Vec<u8> = Vec::new();
            n.push(58);
            n.push(109);
            n.push(101);
            n.push(116);
            n.push(104);
            n.push(111);
            n.push(100);
            v.push(80);
            v.push(79);
            v.push(83);
            v.push(84);
            let f = HeaderField { name: HeaderName { name: n }, value: HeaderValue { value: v } };
            proof {
                assert(f@.0 =~= static_entries()[2].0);
                assert(f@.1 =~= static_entries()[2].1);
            }
            f
        },
        3 => {
            let mut n: Vec<u8> = Vec::new();
            let mut v: Vec<u8> = Vec::new();
            n.push(58);
            n.push(112);
            n.push(97);
            n.push(116);
            n.push(104);
            v.push(47);
            let f = HeaderField { name: HeaderName { name: n }, value: HeaderValue { value: v } };
            proof {
                assert(f@.0 =~= static_entries()[3].0);
                assert(f@.1 =~= static_entries()[3].1);
            }
            f
        },
        4 => {
            let mut n: Vec<u8> = Vec::new();
            let mut v: Vec<u8> = Vec::new();
            n.push(58);
            n.push(112);
            n.push(97);
            n.push(116);
            n.push(104);
            v.push(47);
            v.push(105);
            v.push(110);
            v.push(100);
            v.push(101);
            v.push(120);
            v.push(46);
            v.push(104);
            v.push(116);
            v.push(109);
            v.push(108);
            let f = HeaderField { name: HeaderName { name: n }, value: HeaderValue { value: v } };
            proof {
                assert(f@.0 =~= static_entries()[4].0);
                assert(f@.1 =~= static_entries()[4].1);
            }
            f
        },
        5 => {
            let mut n: Vec<u8> = Vec::new();
            let mut v: Vec<u8> = Vec::new();
            n.push(58);
            n.push(115);
            n.push(99);
            n.push(104);
            n.push(101);
            n.push(109);
            n.push(101);
            v.push(104);
            v.push(116);
            v.push(116);
            v.push(112);
            let f = HeaderField { name: HeaderName { name: n }, value: HeaderValue { value: v } };
            proof {
                assert(f@.0 =~= static_entries()[5].0);
                assert(f@.1 =~= static_entries()[5].1);
            }
            f
        },
        6 => {
            let mut n: Vec<u8> = Vec::new();
            let mut v: Vec<u8> = Vec::new();
            n.push(58);
            n.push(115);
            n.push(99);
            n.push(104);
            n.push(101);
            n.push(109);
            n.push(101);
            v.push(104);
            v.push(116);
            v.push(116);
            v.push(112);
            v.push(115);
            let f = HeaderField { name: HeaderName { name: n }, value: HeaderValue { value: v } };
            proof {
                assert(f@.0 =~= static_entries()[6].0);
                assert(f@.1 =~= static_entries()[6].1);
            }
            f
        },
        7 => {
            let mut n: Vec<u8> = Vec::new();
            let mut v: Vec<u8> = Vec::new();
            n.push(58);
            n.push(115);
            n.push(116);
            n.push(97);
            n.push(116);
            n.push(117);
            n.push(115);
            v.push(50);
            v.push(48);
            v.push(48);
            let f = HeaderField { name: HeaderName { name: n }, value: HeaderValue { value: v } };
            proof {
                assert(f@.0 =~= static_entries()[7].0);
                assert(f@.1 =~= static_entries()[7].1);
            }
            f
        },
        8 => {
            let mut n: Vec<u8> = Vec::new();
            let mut v: Vec<u8> = Vec::new();
            n.push(58);
            n.push(115);
            n.push(116);
            n.push(97);
            n.push(116);
            n.push(117);
            n.push(115);
            v.push(50);
            v.push(48);
            v.push(52);
            let f = HeaderField { name: HeaderName { name: n }, value: HeaderValue { value: v } };
            proof {
                assert(f@.0 =~= static_entries()[8].0);
                assert(f@.1 =~= static_entries()[8].1);
            }
            f
        },
        9 => {
            let mut n: Vec<u8> = Vec::new();
            let mut v: Vec<u8> = Vec::new();
            n.push(58);
            n.push(115);
            n.push(116);
            n.push(97);
            n.push(116);
            n.push(117);
            n.push(115);
            v.push(50);
            v.push(48);
            v.push(54);
            let f = HeaderField { name: HeaderName { name: n }, value: HeaderValue { value: v } };
            proof {
                assert(f@.0 =~= static_entries()[9].0);
                assert(f@.1 =~= static_entries()[9].1);
            }
            f
        },
        10 => {
            let mut n: Vec<u8> = Vec::new();
            let mut v: Vec<u8> = Vec::new();
            n.push(58);
            n.push(115);
            n.push(116);
            n.push(97);
            n.push(116);
            n.push(117);
            n.push(115);
            v.push(51);
            v.push(48);
            v.push(52);
            let f = HeaderField { name: HeaderName { name: n }, value: HeaderValue { value: v } };
            proof {
                assert(f@.0 =~= static_entries()[10].0);
                assert(f@.1 =~= static_entries()[10].1);
            }
            f
        },
        11 => {
            let mut n: Vec<u8> = Vec::new();
            let mut v: Vec<u8> = Vec::new();
            n.push(58);
            n.push(115);
            n.push(116);
            n.push(97);
            n.push(116);
            n.push(117);
            n.push(115);
            v.push(52);
            v.push(48);
            v.push(48);
            let f = HeaderField { name: HeaderName { name: n }, value: HeaderValue { value: v } };
            proof {
                assert(f@.0 =~= static_entries()[11].0);
                assert(f@.1 =~= static_entries()[11].1);
            }
            f
        },
        12 => {
            let mut n: Vec<u8> = Vec::new();
            let mut v: Vec<u8> = Vec::new();
            n.push(58);
            n.push(115);
            n.push(116);
            n.push(97);
            n.push(116);
            n.push(117);
            n.push(115);
            v.push(52);
            v.push(48);
            v.push(52);
            let f = HeaderField { name: HeaderName { name: n }, value: HeaderValue { value: v } };
            proof {
                assert(f@.0 =~= static_entries()[12].0);
                assert(f@.1 =~= static_entries()[12].1);
            }
            f
        },
        13 => {
            let mut n: Vec<u8> = Vec::new();
            let mut v: Vec<u8> = Vec::new();
            n.push(58);
            n.push(115);
            n.push(116);
            n.push(97);
            n.push(116);
            n.push(117);
            n.push(115);
            v.push(53);
            v.push(48);
            v.push(48);
            let f = HeaderField { name: HeaderName { name: n }, value: HeaderValue { value: v } };
            proof {
                assert(f@.0 =~= static_entries()[13].0);
                assert(f@.1 =~= static_entries()[13].1);
            }
            f
        },
        14 => {
            let mut n: Vec<u8> = Vec::new();
            let mut v: Vec<u8> = Vec::new();
            n.push(97);
            n.push(99);
            n.push(99);
            n.push(101);
            n.push(112);
            n.push(116);
            n.push(45);
            n.push(99);
            n.push(104);
            n.push(97);
            n.push(114);
            n.push(115);
            n.push(101);
            n.push(116);

            let f = HeaderField { name: HeaderName { name: n }, value: HeaderValue { value: v } };
            proof {
                assert(f@.0 =~= static_entries()[14].0);
                assert(f@.1 =~= static_entries()[14].1);
            }
            f
        },
        15 => {
            let mut n: Vec<u8> = Vec::new();
            let mut v: Vec<u8> = Vec::new();
            n.push(97);
            n.push(99);
            n.push(99);
            n.push(101);
            n.push(112);
            n.push(116);
            n.push(45);
            n.push(101);
            n.push(110);
            n.push(99);
            n.push(111);
            n.push(100);
            n.push(105);
            n.push(110);
            n.push(103);
            v.push(103);
            v.push(122);
            v.push(105);
            v.push(112);
            v.push(44);
            v.push(32);
            v.push(100);
            v.push(101);
            v.push(102);
            v.push(108);
            v.push(97);
            v.push(116);
            v.push(101);
            let f = HeaderField { name: HeaderName { name: n }, value: HeaderValue { value: v } };
            proof {
                assert(f@.0 =~= static_entries()[15].0);
                assert(f@.1 =~= static_entries()[15].1);
            }
            f
        },
        _ => {
            proof {
                assert(false);
            }
            HeaderField {
                name: HeaderName { name: Vec::new() },
                value: HeaderValue { value: Vec::new() },
            }
        },
    }
}

#[verifier::rlimit(100)]
fn static_entry_16(i: usize) -> (r: HeaderField)
    requires
        16 <= i < 32,
    ensures
        r@ == static_entries()[i as int],
{
    match i {
        16 => {
            let mut n: Vec<u8> = Vec::new();
            let mut v: Vec<u8> = Vec::new();
            n.push(97);
            n.push(99);
            n.push(99);
            n.push(101);
            n.push(112);
            n.push(116);
            n.push(45);
            n.push(108);
            n.push(97);
            n.push(110);
            n.push(103);
            n.push(117);
            n.push(97);
            n.push(103);
            n.push(101);

            let f = HeaderField { name: HeaderName { name: n }, value: HeaderValue { value: v } };
            proof {
                assert(f@.0 =~= static_entries()[16].0);
                assert(f@.1 =~= static_entries()[16].1);
            }
            f
        },
        17 => {
            let mut n: Vec<u8> = Vec::new();
            let mut v: Vec<u8> = Vec::new();
            n.push(97);
            n.push(99);
            n.push(99);
            n.push(101);
            n.push(112);
            n.push(116);
            n.push(45);
            n.push(114);
            n.push(97);
            n.push(110);
            n.push(103);
            n.push(101);
            n.push(115);

            let f = HeaderField { name: HeaderName { name: n }, value: HeaderValue { value: v } };
            proof {
                assert(f@.0 =~= static_entries()[17].0);
                assert(f@.1 =~= static_entries()[17].1);
            }
            f
        },
        18 => {
            let mut n: Vec<u8> = Vec::new();
            let mut v: Vec<u8> = Vec::new();
            n.push(97);
            n.push(99);
            n.push(99);
            n.push(101);
            n.push(112);
            n.push(116);

            let f = HeaderField { name: HeaderName { name: n }, value: HeaderValue { value: v } };
            proof {
                assert(f@.0 =~= static_entries()[18].0);
                assert(f@.1 =~= static_entries()[18].1);
            }
            f
        },
        19 => {
            let mut n: Vec<u8> = Vec::new();
            let mut v: Vec<u8> = Vec::new();
            n.push(97);
            n.push(99);
            n.push(99);
            n.push(101);
            n.push(115);
            n.push(115);
            n.push(45);
            n.push(99);
            n.push(111);
            n.push(110);
            n.push(116);
            n.push(114);
            n.push(111);
            n.push(108);
            n.push(45);
            n.push(97);
            n.push(108);
            n.push(108);
            n.push(111);
            n.push(119);
            n.push(45);
            n.push(111);
            n.push(114);
            n.push(105);
            n.push(103);
            n.push(105);
            n.push(110);

            let f = HeaderField { name: HeaderName { name: n }, value: HeaderValue { value: v } };
            proof {
                assert(f@.0 =~= static_entries()[19].0);
                assert(f@.1 =~= static_entries()[19].1);
            }
            f
        },
        20 => {
            let mut n: Vec<u8> = Vec::new();
            let mut v: Vec<u8> = Vec::new();
            n.push(97);
            n.push(103);
            n.push(101);

            let f = HeaderField { name: HeaderName { name: n }, value: HeaderValue { value: v } };
            proof {
                assert(f@.0 =~= static_entries()[20].0);
                assert(f@.1 =~= static_entries()[20].1);
            }
            f
        },
        21 => {
            let mut n: Vec<u8> = Vec::new();
            let mut v: Vec<u8> = Vec::new();
            n.push(97);
            n.push(108);
            n.push(108);
            n.push(111);
            n.push(119);

            let f = HeaderField { name: HeaderName { name: n }, value: HeaderValue { value: v } };
            proof {
                assert(f@.0 =~= static_entries()[21].0);
                assert(f@.1 =~= static_entries()[21].1);
            }
            f
        },
        22 => {
            let mut n: Vec<u8> = Vec::new();
            let mut v: Vec<u8> = Vec::new();
            n.push(97);
            n.push(117);
            n.push(116);
            n.push(104);
            n.push(111);
            n.push(114);
            n.push(105);
            n.push(122);
            n.push(97);
            n.push(116);
            n.push(105);
            n.push(111);
            n.push(110);

            let f = HeaderField { name: HeaderName { name: n }, value: HeaderValue { value: v } };
            proof {
                assert(f@.0 =~= static_entries()[22].0);
                assert(f@.1 =~= static_entries()[22].1);
            }
            f
        },
        23 => {
            let mut n: Vec<u8> = Vec::new();
            let mut v: Vec<u8> = Vec::new();
            n.push(99);
            n.push(97);
            n.push(99);
            n.push(104);
            n.push(101);
            n.push(45);
            n.push(99);
            n.push(111);
            n.push(110);
            n.push(116);
            n.push(114);
            n.push(111);
            n.push(108);

            let f = HeaderField { name: HeaderName { name: n }, value: HeaderValue { value: v } };
            proof {
                assert(f@.0 =~= static_entries()[23].0);
                assert(f@.1 =~= static_entries()[23].1);
            }
            f
        },
        24 => {
            let mut n: Vec<u8> = Vec::new();
            let mut v: Vec<u8> = Vec::new();
            n.push(99);
            n.push(111);
            n.push(110);
            n.push(116);
            n.push(101);
            n.push(110);
            n.push(116);
            n.push(45);
            n.push(100);
            n.push(105);
            n.push(115);
            n.push(112);
            n.push(111);
            n.push(115);
            n.push(105);
            n.push(116);
            n.push(105);
            n.push(111);
            n.push(110);

            let f = HeaderField { name: HeaderName { name: n }, value: HeaderValue { value: v } };
            proof {
                assert(f@.0 =~= static_entries()[24].0);
                assert(f@.1 =~= static_entries()[24].1);
            }
            f
        },
        25 => {
            let mut n: Vec<u8> = Vec::new();
            let mut v: Vec<u8> = Vec::new();
            n.push(99);
            n.push(111);
            n.push(110);
            n.push(116);
            n.push(101);
            n.push(110);
            n.push(116);
            n.push(45);
            n.push(101);
            n.push(110);
            n.push(99);
            n.push(111);
            n.push(100);
            n.push(105);
            n.push(110);
            n.push(103);

            let f = HeaderField { name: HeaderName { name: n }, value: HeaderValue { value: v } };
            proof {
                assert(f@.0 =~= static_entries()[25].0);
                assert(f@.1 =~= static_entries()[25].1);
            }
            f
        },
        26 => {
            let mut n: Vec<u8> = Vec::new();
            let mut v: Vec<u8> = Vec::new();
            n.push(99);
            n.push(111);
            n.push(110);
            n.push(116);
            n.push(101);
            n.push(110);
            n.push(116);
            n.push(45);
            n.push(108);
            n.push(97);
            n.push(110);
            n.push(103);
            n.push(117);
            n.push(97);
            n.push(103);
            n.push(101);

            let f = HeaderField { name: HeaderName { name: n }, value: HeaderValue { value: v } };
            proof {
                assert(f@.0 =~= static_entries()[26].0);
                assert(f@.1 =~= static_entries()[26].1);
            }
            f
        },
        27 => {
            let mut n: Vec<u8> = Vec::new();
            let mut v: Vec<u8> = Vec::new();
            n.push(99);
            n.push(111);
            n.push(110);
            n.push(116);
            n.push(101);
            n.push(110);
            n.push(116);
            n.push(45);
            n.push(108);
            n.push(101);
            n.push(110);
            n.push(103);
            n.push(116);
            n.push(104);

            let f = HeaderField { name: HeaderName { name: n }, value: HeaderValue { value: v } };
            proof {
                assert(f@.0 =~= static_entries()[27].0);
                assert(f@.1 =~= static_entries()[27].1);
            }
            f
        },
        28 => {
            let mut n: Vec<u8> = Vec::new();
            let mut v: Vec<u8> = Vec::new();
            n.push(99);
            n.push(111);
            n.push(110);
            n.push(116);
            n.push(101);
            n.push(110);
            n.push(116);
            n.push(45);
            n.push(108);
            n.push(111);
            n.push(99);
            n.push(97);
            n.push(116);
            n.push(105);
            n.push(111);
            n.push(110);

            let f = HeaderField { name: HeaderName { name: n }, value: HeaderValue { value: v } };
            proof {
                assert(f@.0 =~= static_entries()[28].0);
                assert(f@.1 =~= static_entries()[28].1);
            }
            f
        },
        29 => {
            let mut n: Vec<u8> = Vec::new();
            let mut v: Vec<u8> = Vec::new();
            n.push(99);
            n.push(111);
            n.push(110);
            n.push(116);
            n.push(101);
            n.push(110);
            n.push(116);
            n.push(45);
            n.push(114);
            n.push(97);
            n.push(110);
            n.push(103);
            n.push(101);

            let f = HeaderField { name: HeaderName { name: n }, value: HeaderValue { value: v } };
            proof {
                assert(f@.0 =~= static_entries()[29].0);
                assert(f@.1 =~= static_entries()[29].1);
            }
            f
        },
        30 => {
            let mut n: Vec<u8> = Vec::new();
            let mut v: Vec<u8> = Vec::new();
            n.push(99);
            n.push(111);
            n.push(110);
            n.push(116);
            n.push(101);
            n.push(110);
            n.push(116);
            n.push(45);
            n.push(116);
            n.push(121);
            n.push(112);
            n.push(101);

            let f = HeaderField { name: HeaderName { name: n }, value: HeaderValue { value: v } };
            proof {
                assert(f@.0 =~= static_entries()[30].0);
                assert(f@.1 =~= static_entries()[30].1);
            }
            f
        },
        31 => {
            let mut n: Vec<u8> = Vec::new();
            let mut v: Vec<u8> = Vec::new();
            n.push(99);
            n.push(111);
            n.push(111);
            n.push(107);
            n.push(105);
            n.push(101);

            let f = HeaderField { name: HeaderName { name: n }, value: HeaderValue { value: v } };
            proof {
                assert(f@.0 =~= static_entries()[31].0);
                assert(f@.1 =~= static_entries()[31].1);
            }
            f
        },
        _ => {
            proof {
                assert(false);
            }
            HeaderField {
                name: HeaderName { name: Vec::new() },
                value: HeaderValue { value: Vec::new() },
            }
        },
    }
}

#[verifier::rlimit(100)]
fn static_entry_32(i: usize) -> (r: HeaderField)
    requires
        32 <= i < 48,
    ensures
        r@ == static_entries()[i as int],
{
    match i {
        32 => {
            let mut n: Vec<u8> = Vec::new();
            let mut v: Vec<u8> = Vec::new();
            n.push(100);
            n.push(97);
            n.push(116);
            n.push(101);

            let f = HeaderField { name: HeaderName { name: n }, value: HeaderValue { value: v } };
            proof {
                assert(f@.0 =~= static_entries()[32].0);
                assert(f@.1 =~= static_entries()[32].1);
            }
            f
        },
        33 => {
            let mut n: Vec<u8> = Vec::new();
            let mut v: Vec<u8> = Vec::new();
            n.push(101);
            n.push(116);
            n.push(97);
            n.push(103);

            let f = HeaderField { name: HeaderName { name: n }, value: HeaderValue { value: v } };
            proof {
                assert(f@.0 =~= static_entries()[33].0);
                assert(f@.1 =~= static_entries()[33].1);
            }
            f
        },
        34 => {
            let mut n: Vec<u8> = Vec::new();
            let mut v: Vec<u8> = Vec::new();
            n.push(101);
            n.push(120);
            n.push(112);
            n.push(101);
            n.push(99);
            n.push(116);

            let f = HeaderField { name: HeaderName { name: n }, value: HeaderValue { value: v } };
            proof {
                assert(f@.0 =~= static_entries()[34].0);
                assert(f@.1 =~= static_entries()[34].1);
            }
            f
        },
        35 => {
            let mut n: Vec<u8> = Vec::new();
            let mut v: Vec<u8> = Vec::new();
            n.push(101);
            n.push(120);
            n.push(112);
            n.push(105);
            n.push(114);
            n.push(101);
            n.push(115);

            let f = HeaderField { name: HeaderName { name: n }, value: HeaderValue { value: v } };
            proof {
                assert(f@.0 =~= static_entries()[35].0);
                assert(f@.1 =~= static_entries()[35].1);
            }
            f
        },
        36 => {
            let mut n: Vec<u8> = Vec::new();
            let mut v: Vec<u8> = Vec::new();
            n.push(102);
            n.push(114);
            n.push(111);
            n.push(109);

            let f = HeaderField { name: HeaderName { name: n }, value: HeaderValue { value: v } };
            proof {
                assert(f@.0 =~= static_entries()[36].0);
                assert(f@.1 =~= static_entries()[36].1);
            }
            f
        },
        37 => {
            let mut n: Vec<u8> = Vec::new();
            let mut v: Vec<u8> = Vec::new();
            n.push(104);
            n.push(111);
            n.push(115);
            n.push(116);

            let f = HeaderField { name: HeaderName { name: n }, value: HeaderValue { value: v } };
            proof {
                assert(f@.0 =~= static_entries()[37].0);
                assert(f@.1 =~= static_entries()[37].1);
            }
            f
        },
        38 => {
            let mut n: Vec<u8> = Vec::new();
            let mut v: Vec<u8> = Vec::new();
            n.push(105);
            n.push(102);
            n.push(45);
            n.push(109);
            n.push(97);
            n.push(116);
            n.push(99);
            n.push(104);

            let f = HeaderField { name: HeaderName { name: n }, value: HeaderValue { value: v } };
            proof {
                assert(f@.0 =~= static_entries()[38].0);
                assert(f@.1 =~= static_entries()[38].1);
            }
            f
        },
        39 => {
            let mut n: Vec<u8> = Vec::new();
            let mut v: Vec<u8> = Vec::new();
            n.push(105);
            n.push(102);
            n.push(45);
            n.push(109);
            n.push(111);
            n.push(100);
            n.push(105);
            n.push(102);
            n.push(105);
            n.push(101);
            n.push(100);
            n.push(45);
            n.push(115);
            n.push(105);
            n.push(110);
            n.push(99);
            n.push(101);

            let f = HeaderField { name: HeaderName { name: n }, value: HeaderValue { value: v } };
            proof {
                assert(f@.0 =~= static_entries()[39].0);
                assert(f@.1 =~= static_entries()[39].1);
            }
            f
        },
        40 => {
            let mut n: Vec<u8> = Vec::new();
            let mut v: Vec<u8> = Vec::new();
            n.push(105);
            n.push(102);
            n.push(45);
            n.push(110);
            n.push(111);
            n.push(110);
            n.push(101);
            n.push(45);
            n.push(109);
            n.push(97);
            n.push(116);
            n.push(99);
            n.push(104);

            let f = HeaderField { name: HeaderName { name: n }, value: HeaderValue { value: v } };
            proof {
                assert(f@.0 =~= static_entries()[40].0);
                assert(f@.1 =~= static_entries()[40].1);
            }
            f
        },
        41 => {
            let mut n: Vec<u8> = Vec::new();
            let mut v: Vec<u8> = Vec::new();
            n.push(105);
            n.push(102);
            n.push(45);
            n.push(114);
            n.push(97);
            n.push(110);
            n.push(103);
            n.push(101);

            let f = HeaderField { name: HeaderName { name: n }, value: HeaderValue { value: v } };
            proof {
                assert(f@.0 =~= static_entries()[41].0);
                assert(f@.1 =~= static_entries()[41].1);
            }
            f
        },
        42 => {
            let mut n: Vec<u8> = Vec::new();
            let mut v: Vec<u8> = Vec::new();
            n.push(105);
            n.push(102);
            n.push(45);
            n.push(117);
            n.push(110);
            n.push(109);
            n.push(111);
            n.push(100);
            n.push(105);
            n.push(102);
            n.push(105);
            n.push(101);
            n.push(100);
            n.push(45);
            n.push(115);
            n.push(105);
            n.push(110);
            n.push(99);
            n.push(101);

            let f = HeaderField { name: HeaderName { name: n }, value: HeaderValue { value: v } };
            proof {
                assert(f@.0 =~= static_entries()[42].0);
                assert(f@.1 =~= static_entries()[42].1);
            }
            f
        },
        43 => {
            let mut n: Vec<u8> = Vec::new();
            let mut v: Vec<u8> = Vec::new();
            n.push(108);
            n.push(97);
            n.push(115);
            n.push(116);
            n.push(45);
            n.push(109);
            n.push(111);
            n.push(100);
            n.push(105);
            n.push(102);
            n.push(105);
            n.push(101);
            n.push(100);

            let f = HeaderField { name: HeaderName { name: n }, value: HeaderValue { value: v } };
            proof {
                assert(f@.0 =~= static_entries()[43].0);
                assert(f@.1 =~= static_entries()[43].1);
            }
            f
        },
        44 => {
            let mut n: Vec<u8> = Vec::new();
            let mut v: Vec<u8> = Vec::new();
            n.push(108);
            n.push(105);
            n.push(110);
            n.push(107);

            let f = HeaderField { name: HeaderName { name: n }, value: HeaderValue { value: v } };
            proof {
                assert(f@.0 =~= static_entries()[44].0);
                assert(f@.1 =~= static_entries()[44].1);
            }
            f
        },
        45 => {
            let mut n: Vec<u8> = Vec::new();
            let mut v: Vec<u8> = Vec::new();
            n.push(108);
            n.push(111);
            n.push(99);
            n.push(97);
            n.push(116);
            n.push(105);
            n.push(111);
            n.push(110);

            let f = HeaderField { name: HeaderName { name: n }, value: HeaderValue { value: v } };
            proof {
                assert(f@.0 =~= static_entries()[45].0);
                assert(f@.1 =~= static_entries()[45].1);
            }
            f
        },
        46 => {
            let mut n: Vec<u8> = Vec::new();
            let mut v: Vec<u8> = Vec::new();
            n.push(109);
            n.push(97);
            n.push(120);
            n.push(45);
            n.push(102);
            n.push(111);
            n.push(114);
            n.push(119);
            n.push(97);
            n.push(114);
            n.push(100);
            n.push(115);

            let f = HeaderField { name: HeaderName { name: n }, value: HeaderValue { value: v } };
            proof {
                assert(f@.0 =~= static_entries()[46].0);
                assert(f@.1 =~= static_entries()[46].1);
            }
            f
        },
        47 => {
            let mut n: Vec<u8> = Vec::new();
            let mut v: Vec<u8> = Vec::new();
            n.push(112);
            n.push(114);
            n.push(111);
            n.push(120);
            n.push(121);
            n.push(45);
            n.push(97);
            n.push(117);
            n.push(116);
            n.push(104);
            n.push(101);
            n.push(110);
            n.push(116);
            n.push(105);
            n.push(99);
            n.push(97);
            n.push(116);
            n.push(101);

            let f = HeaderField { name: HeaderName { name: n }, value: HeaderValue { value: v } };
            proof {
                assert(f@.0 =~= static_entries()[47].0);
                assert(f@.1 =~= static_entries()[47].1);
            }
            f
        },
        _ => {
            proof {
                assert(false);
            }
            HeaderField {
                name: HeaderName { name: Vec::new() },
                value: HeaderValue { value: Vec::new() },
            }
        },
    }
}

#[verifier::rlimit(100)]
fn static_entry_48(i: usize) -> (r: HeaderField)
    requires
        48 <= i < 61,
    ensures
        r@ == static_entries()[i as int],
{
    match i {
        48 => {
            let mut n: Vec<u8> = Vec::new();
            let mut v: Vec<u8> = Vec::new();
            n.push(112);
            n.push(114);
            n.push(111);
            n.push(120);
            n.push(121);
            n.push(45);
            n.push(97);
            n.push(117);
            n.push(116);
            n.push(104);
            n.push(111);
            n.push(114);
            n.push(105);
            n.push(122);
            n.push(97);
            n.push(116);
            n.push(105);
            n.push(111);
            n.push(110);

            let f = HeaderField { name: HeaderName { name: n }, value: HeaderValue { value: v } };
            proof {
                assert(f@.0 =~= static_entries()[48].0);
                assert(f@.1 =~= static_entries()[48].1);
            }
            f
        },
        49 => {
            let mut n: Vec<u8> = Vec::new();
            let mut v: Vec<u8> = Vec::new();
            n.push(114);
            n.push(97);
            n.push(110);
            n.push(103);
            n.push(101);

            let f = HeaderField { name: HeaderName { name: n }, value: HeaderValue { value: v } };
            proof {
                assert(f@.0 =~= static_entries()[49].0);
                assert(f@.1 =~= static_entries()[49].1);
            }
            f
        },
        50 => {
            let mut n: Vec<u8> = Vec::new();
            let mut v: Vec<u8> = Vec::new();
            n.push(114);
            n.push(101);
            n.push(102);
            n.push(101);
            n.push(114);
            n.push(101);
            n.push(114);

            let f = HeaderField { name: HeaderName { name: n }, value: HeaderValue { value: v } };
            proof {
                assert(f@.0 =~= static_entries()[50].0);
                assert(f@.1 =~= static_entries()[50].1);
            }
            f
        },
        51 => {
            let mut n: Vec<u8> = Vec::new();
            let mut v: Vec<u8> = Vec::new();
            n.push(114);
            n.push(101);
            n.push(102);
            n.push(114);
            n.push(101);
            n.push(115);
            n.push(104);

            let f = HeaderField { name: HeaderName { name: n }, value: HeaderValue { value: v } };
            proof {
                assert(f@.0 =~= static_entries()[51].0);
                assert(f@.1 =~= static_entries()[51].1);
            }
            f
        },
        52 => {
            let mut n: Vec<u8> = Vec::new();
            let mut v: Vec<u8> = Vec::new();
            n.push(114);
            n.push(101);
            n.push(116);
            n.push(114);
            n.push(121);
            n.push(45);
            n.push(97);
            n.push(102);
            n.push(116);
            n.push(101);
            n.push(114);

            let f = HeaderField { name: HeaderName { name: n }, value: HeaderValue { value: v } };
            proof {
                assert(f@.0 =~= static_entries()[52].0);
                assert(f@.1 =~= static_entries()[52].1);
            }
            f
        },
        53 => {
            let mut n: Vec<u8> = Vec::new();
            let mut v: Vec<u8> = Vec::new();
            n.push(115);
            n.push(101);
            n.push(114);
            n.push(118);
            n.push(101);
            n.push(114);

            let f = HeaderField { name: HeaderName { name: n }, value: HeaderValue { value: v } };
            proof {
                assert(f@.0 =~= static_entries()[53].0);
                assert(f@.1 =~= static_entries()[53].1);
            }
            f
        },
        54 => {
            let mut n: Vec<u8> = Vec::new();
            let mut v: Vec<u8> = Vec::new();
            n.push(115);
            n.push(101);
            n.push(116);
            n.push(45);
            n.push(99);
            n.push(111);
            n.push(111);
            n.push(107);
            n.push(105);
            n.push(101);

            let f = HeaderField { name: HeaderName { name: n }, value: HeaderValue { value: v } };
            proof {
                assert(f@.0 =~= static_entries()[54].0);
                assert(f@.1 =~= static_entries()[54].1);
            }
            f
        },
        55 => {
            let mut n: Vec<u8> = Vec::new();
            let mut v: Vec<u8> = Vec::new();
            n.push(115);
            n.push(116);
            n.push(114);
            n.push(105);
            n.push(99);
            n.push(116);
            n.push(45);
            n.push(116);
            n.push(114);
            n.push(97);
            n.push(110);
            n.push(115);
            n.push(112);
            n.push(111);
            n.push(114);
            n.push(116);
            n.push(45);
            n.push(115);
            n.push(101);
            n.push(99);
            n.push(117);
            n.push(114);
            n.push(105);
            n.push(116);
            n.push(121);

            let f = HeaderField { name: HeaderName { name: n }, value: HeaderValue { value: v } };
            proof {
                assert(f@.0 =~= static_entries()[55].0);
                assert(f@.1 =~= static_entries()[55].1);
            }
            f
        },
        56 => {
            let mut n: Vec<u8> = Vec::new();
            let mut v: Vec<u8> = Vec::new();
            n.push(116);
            n.push(114);
            n.push(97);
            n.push(110);
            n.push(115);
            n.push(102);
            n.push(101);
            n.push(114);
            n.push(45);
            n.push(101);
            n.push(110);
            n.push(99);
            n.push(111);
            n.push(100);
            n.push(105);
            n.push(110);
            n.push(103);

            let f = HeaderField { name: HeaderName { name: n }, value: HeaderValue { value: v } };
            proof {
                assert(f@.0 =~= static_entries()[56].0);
                assert(f@.1 =~= static_entries()[56].1);
            }
            f
        },
        57 => {
            let mut n: Vec<u8> = Vec::new();
            let mut v: Vec<u8> = Vec::new();
            n.push(117);
            n.push(115);
            n.push(101);
            n.push(114);
            n.push(45);
            n.push(97);
            n.push(103);
            n.push(101);
            n.push(110);
            n.push(116);

            let f = HeaderField { name: HeaderName { name: n }, value: HeaderValue { value: v } };
            proof {
                assert(f@.0 =~= static_entries()[57].0);
                assert(f@.1 =~= static_entries()[57].1);
            }
            f
        },
        58 => {
            let mut n: Vec<u8> = Vec::new();
            let mut v: Vec<u8> = Vec::new();
            n.push(118);
            n.push(97);
            n.push(114);
            n.push(121);

            let f = HeaderField { name: HeaderName { name: n }, value: HeaderValue { value: v } };
            proof {
                assert(f@.0 =~= static_entries()[58].0);
                assert(f@.1 =~= static_entries()[58].1);
            }
            f
        },
        59 => {
            let mut n: Vec<u8> = Vec::new();
            let mut v: Vec<u8> = Vec::new();
            n.push(118);
            n.push(105);
            n.push(97);

            let f = HeaderField { name: HeaderName { name: n }, value: HeaderValue { value: v } };
            proof {
                assert(f@.0 =~= static_entries()[59].0);
                assert(f@.1 =~= static_entries()[59].1);
            }
            f
        },
        60 => {
            let mut n: Vec<u8> = Vec::new();
            let mut v: Vec<u8> = Vec::new();
            n.push(119);
            n.push(119);
            n.push(119);
            n.push(45);
            n.push(97);
            n.push(117);
            n.push(116);
            n.push(104);
            n.push(101);
            n.push(110);
            n.push(116);
            n.push(105);
            n.push(99);
            n.push(97);
            n.push(116);
            n.push(101);

            let f = HeaderField { name: HeaderName { name: n }, value: HeaderValue { value: v } };
            proof {
                assert(f@.0 =~= static_entries()[60].0);
                assert(f@.1 =~= static_entries()[60].1);
            }
            f
        },
        _ => {
            proof {
                assert(false);
            }
            HeaderField {
                name: HeaderName { name: Vec::new() },
                value: HeaderValue { value: Vec::new() },
            }
        },
    }
}


/// The static entry at zero-based position `i`.
fn static_entry(i: usize) -> (r: HeaderField)
    requires
        i < 61,
    ensures
        r@ == static_entries()[i as int],
{
    if i < 16 {
        static_entry_0(i)
    } else if i < 32 {
        static_entry_16(i)
    } else if i < 48 {
        static_entry_32(i)
    } else {
        static_entry_48(i)
    }
}

impl StaticTable {
    /// Build the static table.
    pub fn new() -> (r: StaticTable)
        ensures
            r@ == static_entries(),
    {
        let mut t: Vec<HeaderField> = Vec::with_capacity(61);
        let mut i: usize = 0;
        proof {
            assert(t@.map_values(|e: HeaderField| e@) =~= static_entries().take(0));
        }
        while i < 61
            invariant
                i <= 61,
                t@.len() == i,
                t@.map_values(|e: HeaderField| e@) == static_entries().take(i as int),
            decreases 61 - i,
        {
            let f = static_entry(i);
            t.push(f);
            proof {
                assert(t@.map_values(|e: HeaderField| e@) =~= static_entries().take(
                    i as int + 1,
                ));
            }
            i = i + 1;
        }
        let r = StaticTable { table: t };
        proof {
            assert(static_entries().take(61) =~= static_entries());
        }
        r
    }

    /// The number of entries: always 61.
    pub fn len(&self) -> (r: usize)
        requires
            self@ == static_entries(),
        ensures
            r == 61,
    {
        proof {
            assert(static_entries().len() == 61);
        }
        self.table.len()
    }

    /// The entry at zero-based position `index`.
    pub fn get(&self, index: usize) -> (r: Result<HeaderField, Http2Error>)
        ensures
            match r {
                Ok(f) => index < self@.len() && f@ == self@[index as int],
                Err(e) => index >= self@.len() && e == Http2Error::IndexationError,
            },
    {
        if index < self.table.len() {
            Ok(self.table[index].clone())
        } else {
            Err(Http2Error::IndexationError)
        }
    }

    /// The first position holding exactly `field`, if any.
    pub fn contains(&self, field: &HeaderField) -> (r: Option<usize>)
        ensures
            match r {
                Some(i) => find_field(self@, field@) == Some(i as int),
                None => find_field(self@, field@) is None,
            },
    {
        table_find_field(&self.table, field)
    }

    /// The first position holding an entry named like `field`, if any.
    pub fn contains_name(&self, field: &HeaderField) -> (r: Option<usize>)
        ensures
            match r {
                Some(i) => find_name(self@, field@.0) == Some(i as int),
                None => find_name(self@, field@.0) is None,
            },
    {
        table_find_name(&self.table, field)
    }
}

/// Linear scan for an exact field match, front first.
fn table_find_field(table: &Vec<HeaderField>, field: &HeaderField) -> (r: Option<usize>)
    ensures
        match r {
            Some(i) => find_field(table@.map_values(|e: HeaderField| e@), field@) == Some(
                i as int,
            ),
            None => find_field(table@.map_values(|e: HeaderField| e@), field@) is None,
        },
{
    let ghost view = table@.map_values(|e: HeaderField| e@);
    let mut i: usize = 0;
    proof {
        assert(view.skip(0) =~= view);
    }
    while i < table.len()
        invariant
            i <= table@.len(),
            view == table@.map_values(|e: HeaderField| e@),
            find_field(view, field@) == (match find_field(view.skip(i as int), field@) {
                Some(k) => Some(k + i),
                None => None::<int>,
            }),
        decreases table@.len() - i,
    {
        let same = table[i].name.name == field.name.name && table[i].value.value
            == field.value.value;
        proof {
            assert(view.skip(i as int)[0] == view[i as int]);
            assert(view.skip(i as int).skip(1) =~= view.skip(i as int + 1));
            if same {
                assert(view[i as int].0 =~= field@.0);
                assert(view[i as int].1 =~= field@.1);
                assert(view[i as int] == field@);
            } else {
                assert(view[i as int] != field@) by {
                    if view[i as int] == field@ {
                        assert(table@[i as int].name.name@ =~= field.name.name@);
                        assert(table@[i as int].value.value@ =~= field.value.value@);
                    }
                }
            }
        }
        if same {
            return Some(i);
        }
        i = i + 1;
    }
    proof {
        assert(view.skip(i as int).len() == 0);
    }
    None
}

/// Linear scan for a name match, front first.
fn table_find_name(table: &Vec<HeaderField>, field: &HeaderField) -> (r: Option<usize>)
    ensures
        match r {
            Some(i) => find_name(table@.map_values(|e: HeaderField| e@), field@.0) == Some(
                i as int,
            ),
            None => find_name(table@.map_values(|e: HeaderField| e@), field@.0) is None,
        },
{
    let ghost view = table@.map_values(|e: HeaderField| e@);
    let mut i: usize = 0;
    proof {
        assert(view.skip(0) =~= view);
    }
    while i < table.len()
        invariant
            i <= table@.len(),
            view == table@.map_values(|e: HeaderField| e@),
            find_name(view, field@.0) == (match find_name(view.skip(i as int), field@.0) {
                Some(k) => Some(k + i),
                None => None::<int>,
            }),
        decreases table@.len() - i,
    {
        let same = table[i].name.name == field.name.name;
        proof {
            assert(view.skip(i as int)[0] == view[i as int]);
            assert(view.skip(i as int).skip(1) =~= view.skip(i as int + 1));
            if same {
                assert(view[i as int].0 =~= field@.0);
            } else {
                assert(view[i as int].0 != field@.0) by {
                    if view[i as int].0 == field@.0 {
                        assert(table@[i as int].name.name@ =~= field.name.name@);
                    }
                }
            }
        }
        if same {
            return Some(i);
        }
        i = i + 1;
    }
    proof {
        assert(view.skip(i as int).len() == 0);
    }
    None
}

/// The bounded FIFO dynamic table: newest entry first, evicted from the
/// oldest end whenever the summed entry sizes exceed the capacity.
pub struct DynamicTable {
    pub entries: Vec<HeaderField>,
    pub size: usize,
    pub max_size: usize,
}

impl View for DynamicTable {
    type V = Seq<FieldModel>;

    open spec fn view(&self) -> Seq<FieldModel> {
        self.entries@.map_values(|e: HeaderField| e@)
    }
}

/// Partial sums from the front never exceed the whole sum.
proof fn lemma_sum_take_le(s: Seq<FieldModel>, i: int)
    requires
        0 <= i <= s.len(),
    ensures
        sum_sizes(s.take(i)) <= sum_sizes(s),
    decreases s.len() - i,
{
    if i == s.len() {
        assert(s.take(i) =~= s);
    } else {
        lemma_sum_take_le(s, i + 1);
        assert(s.take(i + 1).drop_last() =~= s.take(i));
        assert(s.take(i + 1).last() == s[i]);
    }
}

impl DynamicTable {
    /// Whether the cached size is the sum of the entry sizes and within
    /// the capacity: the invariant every mutation preserves.
    pub open spec fn wf(&self) -> bool {
        &&& self.size == sum_sizes(self@)
        &&& self.size <= self.max_size
    }

    /// Create an empty dynamic table with capacity `max_size` octets.
    pub fn new(max_size: usize) -> (r: DynamicTable)
        ensures
            r@ =~= Seq::<FieldModel>::empty(),
            r.max_size == max_size,
            r.wf(),
    {
        let r = DynamicTable { entries: Vec::new(), size: 0, max_size };
        proof {
            assert(r@ =~= Seq::<FieldModel>::empty());
            assert(sum_sizes(r@) == 0);
        }
        r
    }

    /// The number of entries.
    pub fn len(&self) -> (r: usize)
        ensures
            r == self@.len(),
    {
        self.entries.len()
    }

    /// The summed size of the entries in octets.
    pub fn size(&self) -> (r: usize)
        ensures
            r == self.size,
    {
        self.size
    }

    /// The capacity in octets.
    pub fn max_size(&self) -> (r: usize)
        ensures
            r == self.max_size,
    {
        self.max_size
    }

    /// The entry at zero-based position `index`, newest first.
    pub fn get(&self, index: usize) -> (r: Result<HeaderField, Http2Error>)
        ensures
            match r {
                Ok(f) => index < self@.len() && f@ == self@[index as int],
                Err(e) => index >= self@.len() && e == Http2Error::IndexationError,
            },
    {
        if index < self.entries.len() {
            Ok(self.entries[index].clone())
        } else {
            Err(Http2Error::IndexationError)
        }
    }

    /// Recompute the cached size from the entries.
    pub fn update_size(&mut self)
        requires
            sum_sizes(old(self)@) <= usize::MAX,
        ensures
            final(self).entries == old(self).entries,
            final(self).max_size == old(self).max_size,
            final(self).size == sum_sizes(final(self)@),
    {
        let ghost view = self@;
        let mut acc: u128 = 0;
        let mut i: usize = 0;
        proof {
            assert(view.take(0) =~= Seq::<FieldModel>::empty());
            assert(sum_sizes(Seq::<FieldModel>::empty()) == 0);
        }
        while i < self.entries.len()
            invariant
                i <= view.len(),
                view == self@,
                sum_sizes(view) <= usize::MAX,
                acc == sum_sizes(view.take(i as int)),
            decreases view.len() - i,
        {
            proof {
                assert(view.take(i as int + 1).drop_last() =~= view.take(i as int));
                assert(view.take(i as int + 1).last() == view[i as int]);
                lemma_sum_take_le(view, i as int + 1);
            }
            let es = self.entries[i].size_u128();
            acc = acc + es;
            i = i + 1;
        }
        proof {
            assert(view.take(view.len() as int) =~= view);
        }
        self.size = acc as usize;
    }

    /// The first position holding exactly `field`, if any.
    pub fn contains(&self, field: &HeaderField) -> (r: Option<usize>)
        ensures
            match r {
                Some(i) => find_field(self@, field@) == Some(i as int),
                None => find_field(self@, field@) is None,
            },
    {
        table_find_field(&self.entries, field)
    }

    /// The first position holding an entry named like `field`, if any.
    pub fn contains_name(&self, field: &HeaderField) -> (r: Option<usize>)
        ensures
            match r {
                Some(i) => find_name(self@, field@.0) == Some(i as int),
                None => find_name(self@, field@.0) is None,
            },
    {
        table_find_name(&self.entries, field)
    }

    /// Insert `entry` at position zero, then evict from the oldest end
    /// until the table fits; an entry too large for the whole table leaves
    /// it empty, which is permitted and is not an error.
    pub fn add_entry(&mut self, entry: HeaderField)
        requires
            old(self).wf(),
        ensures
            final(self)@ == evicted(seq![entry@] + old(self)@, old(self).max_size as nat),
            final(self).max_size == old(self).max_size,
            final(self).wf(),
            final(self).size == sum_sizes(final(self)@),
            final(self).size <= final(self).max_size,
    {
        let esize: u128 = entry.size_u128();
        let ghost inserted = seq![entry@] + old(self)@;
        let ghost max: nat = self.max_size as nat;
        proof {
            lemma_sum_prepend(entry@, old(self)@);
        }
        self.entries.insert(0, entry);
        proof {
            assert(self@ =~= inserted);
        }
        let mut cur: u128 = esize + self.size as u128;
        while cur > self.max_size as u128
            invariant
                cur == sum_sizes(self@),
                self.max_size as nat == max,
                evicted(self@, max) == evicted(inserted, max),
            decreases self@.len(),
        {
            proof {
                if self@.len() == 0 {
                    assert(sum_sizes(self@) == 0);
                }
                assert(self@.len() > 0);
            }
            let ghost before = self@;
            let dropped = match self.entries.pop() {
                Some(e) => e,
                None => {
                    proof {
                        assert(false);
                    }
                    HeaderField {
                        name: HeaderName { name: Vec::new() },
                        value: HeaderValue { value: Vec::new() },
                    }
                },
            };
            proof {
                assert(self@ =~= before.drop_last());
                assert(before.last() == dropped@);
            }
            let dsize = dropped.size_u128();
            cur = cur - dsize;
        }
        self.size = cur as usize;
    }

    /// Change the capacity, evicting from the oldest end until the table
    /// fits the new bound.
    pub fn set_max_size(&mut self, max_size: usize)
        requires
            old(self).wf(),
        ensures
            final(self)@ == evicted(old(self)@, max_size as nat),
            final(self).max_size == max_size,
            final(self).wf(),
            final(self).size == sum_sizes(final(self)@),
            final(self).size <= max_size,
    {
        let ghost orig = self@;
        self.max_size = max_size;
        let mut cur: u128 = self.size as u128;
        while cur > self.max_size as u128
            invariant
                cur == sum_sizes(self@),
                self.max_size == max_size,
                evicted(self@, max_size as nat) == evicted(orig, max_size as nat),
            decreases self@.len(),
        {
            proof {
                if self@.len() == 0 {
                    assert(sum_sizes(self@) == 0);
                }
                assert(self@.len() > 0);
            }
            let ghost before = self@;
            let dropped = match self.entries.pop() {
                Some(e) => e,
                None => {
                    proof {
                        assert(false);
                    }
                    HeaderField {
                        name: HeaderName { name: Vec::new() },
                        value: HeaderValue { value: Vec::new() },
                    }
                },
            };
            proof {
                assert(self@ =~= before.drop_last());
                assert(before.last() == dropped@);
            }
            let dsize = dropped.size_u128();
            cur = cur - dsize;
        }
        self.size = cur as usize;
    }
}

/// An entry of the unified index space: positions 1 through 61 address the
/// static table, positions above address the dynamic table, newest first.
pub open spec fn ht_get(dynv: Seq<FieldModel>, i: int) -> Option<FieldModel> {
    if 1 <= i <= 61 {
        Some(static_entries()[i - 1])
    } else if 62 <= i < 62 + dynv.len() {
        Some(dynv[i - 62])
    } else {
        None
    }
}

/// The unified index of an exact field match: static entries first.
pub open spec fn ht_find(dynv: Seq<FieldModel>, f: FieldModel) -> Option<int> {
    match find_field(static_entries(), f) {
        Some(i) => Some(i + 1),
        None => match find_field(dynv, f) {
            Some(i) => Some(i + 62),
            None => None,
        },
    }
}

/// The unified index of a name match: static entries first.
pub open spec fn ht_find_name(dynv: Seq<FieldModel>, name: Seq<u8>) -> Option<int> {
    match find_name(static_entries(), name) {
        Some(i) => Some(i + 1),
        None => match find_name(dynv, name) {
            Some(i) => Some(i + 62),
            None => None,
        },
    }
}

/// A found unified index addresses the field sought.
pub proof fn lemma_ht_find_sound(dynv: Seq<FieldModel>, f: FieldModel)
    ensures
        match ht_find(dynv, f) {
            Some(i) => ht_get(dynv, i) == Some(f),
            None => true,
        },
{
    lemma_find_field_sound(static_entries(), f);
    lemma_find_field_sound(dynv, f);
    assert(static_entries().len() == 61);
}

/// A found unified name index addresses an entry with that name.
pub proof fn lemma_ht_find_name_sound(dynv: Seq<FieldModel>, name: Seq<u8>)
    ensures
        match ht_find_name(dynv, name) {
            Some(i) => ht_get(dynv, i) is Some && ht_get(dynv, i)->Some_0.0 == name,
            None => true,
        },
{
    lemma_find_name_sound(static_entries(), name);
    lemma_find_name_sound(dynv, name);
    assert(static_entries().len() == 61);
}

/// The unified header table: the static table under the connection's
/// dynamic table, one logical index space over both.
pub struct HeaderTable {
    pub static_table: StaticTable,
    pub dynamic_table: DynamicTable,
}

impl View for HeaderTable {
    type V = Seq<FieldModel>;

    open spec fn view(&self) -> Seq<FieldModel> {
        self.dynamic_table@
    }
}

impl HeaderTable {
    /// Whether the static half is the fixed table and the dynamic half
    /// satisfies its size invariant.
    pub open spec fn wf(&self) -> bool {
        &&& self.static_table@ == static_entries()
        &&& self.dynamic_table.wf()
    }

    /// The dynamic table's capacity in octets.
    pub open spec fn max_size_spec(&self) -> nat {
        self.dynamic_table.max_size as nat
    }

    /// Create a header table whose dynamic table holds at most
    /// `dynamic_table_max_size` octets.
    pub fn new(dynamic_table_max_size: usize) -> (r: HeaderTable)
        ensures
            r.wf(),
            r@ =~= Seq::<FieldModel>::empty(),
            r.max_size_spec() == dynamic_table_max_size,
    {
        HeaderTable {
            static_table: StaticTable::new(),
            dynamic_table: DynamicTable::new(dynamic_table_max_size),
        }
    }

    /// The entry at unified index `index`, which counts from one.
    pub fn get(&self, index: usize) -> (r: Result<HeaderField, Http2Error>)
        requires
            self.wf(),
        ensures
            match r {
                Ok(f) => ht_get(self@, index as int) == Some(f@),
                Err(e) => ht_get(self@, index as int) is None && e == Http2Error::IndexationError,
            },
    {
        if index == 0 {
            return Err(Http2Error::IndexationError);
        }
        if index <= 61 {
            self.static_table.get(index - 1)
        } else {
            self.dynamic_table.get(index - 62)
        }
    }

    /// Insert a header field at the top of the dynamic table, evicting as
    /// needed.
    pub fn add_entry(&mut self, header_field: HeaderField)
        requires
            old(self).wf(),
        ensures
            final(self)@ == evicted(seq![header_field@] + old(self)@, old(self).max_size_spec()),
            final(self).max_size_spec() == old(self).max_size_spec(),
            final(self).wf(),
            final(self).dynamic_table.size == sum_sizes(final(self)@),
            final(self).dynamic_table.size <= final(self).max_size_spec(),
    {
        self.dynamic_table.add_entry(header_field);
    }

    /// The unified index of an exact match for `header_field`, if any.
    pub fn contains(&self, header_field: &HeaderField) -> (r: Option<usize>)
        requires
            self.wf(),
        ensures
            match r {
                Some(i) => ht_find(self@, header_field@) == Some(i as int),
                None => ht_find(self@, header_field@) is None,
            },
    {
        match self.static_table.contains(header_field) {
            Some(i) => {
                proof {
                    lemma_find_field_sound(static_entries(), header_field@);
                    assert(static_entries().len() == 61);
                }
                Some(i + 1)
            },
            None => {
                match self.dynamic_table.contains(header_field) {
                    Some(i) => {
                        proof {
                            lemma_find_field_sound(self@, header_field@);
                            lemma_sum_lower_bound(self@);
                        }
                        Some(i + 62)
                    },
                    None => None,
                }
            },
        }
    }

    /// The unified index of an entry named like `header_field`, if any.
    pub fn contains_name(&self, header_field: &HeaderField) -> (r: Option<usize>)
        requires
            self.wf(),
        ensures
            match r {
                Some(i) => ht_find_name(self@, header_field@.0) == Some(i as int),
                None => ht_find_name(self@, header_field@.0) is None,
            },
    {
        match self.static_table.contains_name(header_field) {
            Some(i) => {
                proof {
                    lemma_find_name_sound(static_entries(), header_field@.0);
                    assert(static_entries().len() == 61);
                }
                Some(i + 1)
            },
            None => {
                match self.dynamic_table.contains_name(header_field) {
                    Some(i) => {
                        proof {
                            lemma_find_name_sound(self@, header_field@.0);
                            lemma_sum_lower_bound(self@);
                        }
                        Some(i + 62)
                    },
                    None => None,
                }
            },
        }
    }

    /// Change the dynamic table's capacity, evicting as needed.
    pub fn set_max_size(&mut self, max_size: usize)
        requires
            old(self).wf(),
        ensures
            final(self)@ == evicted(old(self)@, max_size as nat),
            final(self).max_size_spec() == max_size,
            final(self).wf(),
            final(self).dynamic_table.size == sum_sizes(final(self)@),
            final(self).dynamic_table.size <= max_size,
    {
        self.dynamic_table.set_max_size(max_size);
    }

    /// The current size of the dynamic table in octets.
    pub fn get_dynamic_table_size(&self) -> (r: usize)
        ensures
            r == self.dynamic_table.size,
    {
        self.dynamic_table.size()
    }
}

} // verus!
