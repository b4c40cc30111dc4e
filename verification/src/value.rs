//! The dynamic value: the tagged union that every conversion and every
//! renderer works over, together with its mathematical model.

use crate::number::NumberValue;
use vstd::prelude::*;

verus! {

/// A dynamic, schema-less value. Arrays keep their order; an object is a
/// keyed collection whose keys are expected to be distinct (see
/// [`ValueModel::wf`]).
pub enum Value {
    /// Absence of data.
    Null,
    /// A boolean.
    Boolean(bool),
    /// A number, queryable at any fixed integer width.
    Number(NumberValue),
    /// A piece of text.
    String(String),
    /// An ordered sequence of values.
    Array(Vec<Value>),
    /// A keyed collection of values; insertion order is kept by the storage.
    Object(Vec<(String, Value)>),
}

/// The mathematical model of a [`Value`]: numbers are unbounded integers,
/// text is a sequence of characters, and both arrays and objects are
/// sequences (an object models as its entries, in storage order).
pub enum ValueModel {
    Null,
    Boolean(bool),
    Number(int),
    String(Seq<char>),
    Array(Seq<ValueModel>),
    Object(Seq<(Seq<char>, ValueModel)>),
}

/// The model of a value.
pub open spec fn model_of(v: Value) -> ValueModel
    decreases v,
{
    match v {
        Value::Null => ValueModel::Null,
        Value::Boolean(b) => ValueModel::Boolean(b),
        Value::Number(n) => ValueModel::Number(n@),
        Value::String(s) => ValueModel::String(s@),
        Value::Array(elems) => ValueModel::Array(seq_models(elems@)),
        Value::Object(entries) => ValueModel::Object(entry_models(entries@)),
    }
}

/// The models of a sequence of values, elementwise.
pub open spec fn seq_models(s: Seq<Value>) -> Seq<ValueModel>
    decreases s,
{
    if s.len() == 0 {
        Seq::empty()
    } else {
        seq_models(s.drop_last()).push(model_of(s.last()))
    }
}

/// The models of a sequence of object entries, elementwise.
pub open spec fn entry_models(s: Seq<(String, Value)>) -> Seq<(Seq<char>, ValueModel)>
    decreases s,
{
    if s.len() == 0 {
        Seq::empty()
    } else {
        entry_models(s.drop_last()).push((s.last().0@, model_of(s.last().1)))
    }
}

impl View for Value {
    type V = ValueModel;

    open spec fn view(&self) -> ValueModel {
        model_of(*self)
    }
}

/// `seq_models` is the elementwise image of `model_of`.
pub proof fn lemma_seq_models(s: Seq<Value>)
    ensures
        seq_models(s).len() == s.len(),
        forall|i: int| 0 <= i < s.len() ==> seq_models(s)[i] == model_of(s[i]),
    decreases s,
{
    if s.len() > 0 {
        lemma_seq_models(s.drop_last());
        assert forall|i: int| 0 <= i < s.len() implies seq_models(s)[i] == model_of(s[i]) by {
            if i < s.len() - 1 {
                assert(s.drop_last()[i] == s[i]);
            }
        }
    }
}

/// `entry_models` keeps each key and models each value.
pub proof fn lemma_entry_models(s: Seq<(String, Value)>)
    ensures
        entry_models(s).len() == s.len(),
        forall|i: int| 0 <= i < s.len() ==> entry_models(s)[i] == (s[i].0@, model_of(s[i].1)),
    decreases s,
{
    if s.len() > 0 {
        lemma_entry_models(s.drop_last());
        assert forall|i: int| 0 <= i < s.len() implies entry_models(s)[i] == (
        s[i].0@,
        model_of(s[i].1),
        ) by {
            if i < s.len() - 1 {
                assert(s.drop_last()[i] == s[i]);
            }
        }
    }
}

/// Whether the keys of a modelled object are pairwise distinct.
pub open spec fn distinct_keys(entries: Seq<(Seq<char>, ValueModel)>) -> bool {
    forall|i: int, j: int| 0 <= i < j < entries.len() ==> entries[i].0 != entries[j].0
}

impl ValueModel {
    /// Well-formedness: every object, at every depth, has distinct keys.
    pub open spec fn wf(self) -> bool
        decreases self,
    {
        match self {
            ValueModel::Array(elems) => seq_wf(elems),
            ValueModel::Object(entries) => distinct_keys(entries) && entries_wf(entries),
            _ => true,
        }
    }
}

/// Whether every model in a sequence is well-formed.
pub open spec fn seq_wf(s: Seq<ValueModel>) -> bool
    decreases s,
{
    s.len() == 0 || (seq_wf(s.drop_last()) && s.last().wf())
}

/// Whether every value model of an entry sequence is well-formed.
pub open spec fn entries_wf(s: Seq<(Seq<char>, ValueModel)>) -> bool
    decreases s,
{
    s.len() == 0 || (entries_wf(s.drop_last()) && s.last().1.wf())
}

/// `seq_wf` holds exactly when every element is well-formed.
pub proof fn lemma_seq_wf(s: Seq<ValueModel>)
    ensures
        seq_wf(s) <==> (forall|i: int| 0 <= i < s.len() ==> s[i].wf()),
    decreases s,
{
    if s.len() > 0 {
        lemma_seq_wf(s.drop_last());
        if forall|i: int| 0 <= i < s.drop_last().len() ==> s.drop_last()[i].wf() {
            assert forall|i: int| 0 <= i < s.len() - 1 implies s[i].wf() by {
                assert(s.drop_last()[i] == s[i]);
            }
        } else {
            let i = choose|i: int| 0 <= i < s.drop_last().len() && !s.drop_last()[i].wf();
            assert(s[i] == s.drop_last()[i]);
        }
    }
}

/// `entries_wf` holds exactly when every entry's value is well-formed.
pub proof fn lemma_entries_wf(s: Seq<(Seq<char>, ValueModel)>)
    ensures
        entries_wf(s) <==> (forall|i: int| 0 <= i < s.len() ==> s[i].1.wf()),
    decreases s,
{
    if s.len() > 0 {
        lemma_entries_wf(s.drop_last());
        if forall|i: int| 0 <= i < s.drop_last().len() ==> s.drop_last()[i].1.wf() {
            assert forall|i: int| 0 <= i < s.len() - 1 implies s[i].1.wf() by {
                assert(s.drop_last()[i] == s[i]);
            }
        } else {
            let i = choose|i: int| 0 <= i < s.drop_last().len() && !s.drop_last()[i].1.wf();
            assert(s[i] == s.drop_last()[i]);
        }
    }
}

} // verus!
