//! The generic output model: a small closed set of value shapes used as the
//! universal representation of a serialized document subtree.

use vstd::prelude::*;

verus! {

/// An insertion-ordered, string-keyed record of values.
#[derive(Debug, PartialEq)]
pub struct Record {
    pub entries: Vec<(String, Value)>,
}

/// The universal output representation: text, bytes, an ordered record, an
/// ordered list, or the explicit absence of a value.
#[derive(Debug, PartialEq)]
pub enum Value {
    Str(String),
    Binary(Vec<u8>),
    Record(Record),
    List(Vec<Value>),
    Nothing,
}

/// The mathematical shape of a [`Value`]: the same tree over sequences.
pub enum SpecValue {
    Str(Seq<char>),
    Binary(Seq<u8>),
    Record(Seq<(Seq<char>, SpecValue)>),
    List(Seq<SpecValue>),
    Nothing,
}

/// The views of the first `k` entries of a record, oldest first.
pub open spec fn entries_view(es: Seq<(String, Value)>, k: int) -> Seq<(Seq<char>, SpecValue)>
    decreases es, 0int, k,
{
    if k <= 0 || k > es.len() {
        Seq::empty()
    } else {
        entries_view(es, k - 1).push((es[k - 1].0@, value_view(es[k - 1].1)))
    }
}

/// The views of the first `k` elements of a list of values.
pub open spec fn list_view(vs: Seq<Value>, k: int) -> Seq<SpecValue>
    decreases vs, 0int, k,
{
    if k <= 0 || k > vs.len() {
        Seq::empty()
    } else {
        list_view(vs, k - 1).push(value_view(vs[k - 1]))
    }
}

/// The mathematical view of a [`Value`].
pub open spec fn value_view(v: Value) -> SpecValue
    decreases v, 1int, 0int,
{
    match v {
        Value::Str(s) => SpecValue::Str(s@),
        Value::Binary(b) => SpecValue::Binary(b@),
        Value::Record(r) => SpecValue::Record(entries_view(r.entries@, r.entries@.len() as int)),
        Value::List(vs) => SpecValue::List(list_view(vs@, vs@.len() as int)),
        Value::Nothing => SpecValue::Nothing,
    }
}

impl View for Value {
    type V = SpecValue;

    open spec fn view(&self) -> SpecValue {
        value_view(*self)
    }
}

impl View for Record {
    type V = Seq<(Seq<char>, SpecValue)>;

    open spec fn view(&self) -> Seq<(Seq<char>, SpecValue)> {
        entries_view(self.entries@, self.entries@.len() as int)
    }
}

/// Entry views are insensitive to entries beyond the first `k`, so pushing
/// onto a record leaves the views of the existing entries unchanged.
pub proof fn lemma_entries_view_push(es: Seq<(String, Value)>, x: (String, Value), k: int)
    requires
        0 <= k <= es.len(),
    ensures
        entries_view(es.push(x), k) == entries_view(es, k),
    decreases k,
{
    if k > 0 {
        lemma_entries_view_push(es, x, k - 1);
        assert(es.push(x)[k - 1] == es[k - 1]);
    }
}

/// Element views are insensitive to elements beyond the first `k`, so pushing
/// onto a list leaves the views of the existing elements unchanged.
pub proof fn lemma_list_view_push(vs: Seq<Value>, x: Value, k: int)
    requires
        0 <= k <= vs.len(),
    ensures
        list_view(vs.push(x), k) == list_view(vs, k),
    decreases k,
{
    if k > 0 {
        lemma_list_view_push(vs, x, k - 1);
        assert(vs.push(x)[k - 1] == vs[k - 1]);
    }
}

/// No two entries of one record share a key.
pub open spec fn entries_unique(es: Seq<(Seq<char>, SpecValue)>) -> bool {
    forall|i: int, j: int| 0 <= i < j < es.len() ==> es[i].0 != es[j].0
}

/// A well-formed value: every record anywhere in the tree has pairwise
/// distinct keys.
pub open spec fn spec_value_wf(sv: SpecValue) -> bool
    decreases sv,
{
    match sv {
        SpecValue::Record(es) => entries_unique(es) && forall|i: int|
            0 <= i < es.len() ==> spec_value_wf(#[trigger] es[i].1),
        SpecValue::List(vs) => forall|i: int| 0 <= i < vs.len() ==> spec_value_wf(#[trigger] vs[i]),
        _ => true,
    }
}

impl Record {
    /// An empty record.
    pub fn new() -> (r: Record)
        ensures
            r.entries@.len() == 0,
            r@ == Seq::<(Seq<char>, SpecValue)>::empty(),
    {
        Record { entries: Vec::new() }
    }

    /// Append an entry; insertion order is preserved.
    pub fn push(&mut self, key: String, val: Value)
        ensures
            final(self).entries@ == old(self).entries@.push((key, val)),
            final(self)@ == old(self)@.push((key@, value_view(val))),
    {
        let ghost old_es = self.entries@;
        self.entries.push((key, val));
        proof {
            lemma_entries_view_push(old_es, (key, val), old_es.len() as int);
        }
    }
}

} // verus!
