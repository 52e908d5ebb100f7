//! The document model: what a parse produces, and its mathematical view.
use vstd::prelude::*;

verus! {

broadcast use {
    vstd::seq::axiom_seq_index_decreases,
    vstd::seq::axiom_seq_subrange_decreases,
    vstd::std_specs::vec::axiom_vec_decreases_to_view,
};

/// A parsed project file: one root value.
#[derive(Debug, PartialEq)]
pub struct PbxDocument {
    pub root: PbxValue,
}

/// A value of the property-list dialect. Scalars keep their source text.
#[derive(Debug, PartialEq)]
pub enum PbxValue {
    Dictionary(Vec<PbxEntry>),
    Array(Vec<PbxValue>),
    String(String),
    Identifier(String),
    Number(String),
}

/// One member of a dictionary, with the comment that trails it, if any.
#[derive(Debug, PartialEq)]
pub struct PbxEntry {
    pub key: String,
    pub value: PbxValue,
    pub comment: Option<String>,
}

/// The mathematical value of a `PbxValue`.
pub enum ValueModel {
    Dictionary(Seq<EntryModel>),
    Array(Seq<ValueModel>),
    Str(Seq<char>),
    Identifier(Seq<char>),
    Number(Seq<char>),
}

/// The mathematical value of a `PbxEntry`.
pub struct EntryModel {
    pub key: Seq<char>,
    pub value: ValueModel,
    pub comment: Option<Seq<char>>,
}

pub open spec fn option_text(o: Option<String>) -> Option<Seq<char>> {
    match o {
        Some(t) => Some(t@),
        None => None,
    }
}

pub open spec fn value_model(v: PbxValue) -> ValueModel
    decreases v,
{
    match v {
        PbxValue::Dictionary(es) => ValueModel::Dictionary(entries_model(es@)),
        PbxValue::Array(vs) => ValueModel::Array(values_model(vs@)),
        PbxValue::String(t) => ValueModel::Str(t@),
        PbxValue::Identifier(t) => ValueModel::Identifier(t@),
        PbxValue::Number(t) => ValueModel::Number(t@),
    }
}

pub open spec fn entry_model(e: PbxEntry) -> EntryModel
    decreases e,
{
    EntryModel { key: e.key@, value: value_model(e.value), comment: option_text(e.comment) }
}

pub open spec fn entries_model(es: Seq<PbxEntry>) -> Seq<EntryModel>
    decreases es,
{
    if es.len() == 0 {
        Seq::empty()
    } else {
        entries_model(es.drop_last()).push(entry_model(es.last()))
    }
}

pub open spec fn values_model(vs: Seq<PbxValue>) -> Seq<ValueModel>
    decreases vs,
{
    if vs.len() == 0 {
        Seq::empty()
    } else {
        values_model(vs.drop_last()).push(value_model(vs.last()))
    }
}

pub proof fn lemma_entries_model_push(es: Seq<PbxEntry>, e: PbxEntry)
    ensures
        entries_model(es.push(e)) == entries_model(es).push(entry_model(e)),
{
    assert(es.push(e).drop_last() =~= es);
}

pub proof fn lemma_values_model_push(vs: Seq<PbxValue>, v: PbxValue)
    ensures
        values_model(vs.push(v)) == values_model(vs).push(value_model(v)),
{
    assert(vs.push(v).drop_last() =~= vs);
}

pub proof fn lemma_entries_model_index(es: Seq<PbxEntry>)
    ensures
        entries_model(es).len() == es.len(),
        forall|k: int| 0 <= k < es.len() ==> #[trigger] entries_model(es)[k] == entry_model(es[k]),
    decreases es.len(),
{
    if es.len() > 0 {
        lemma_entries_model_index(es.drop_last());
    }
}

pub proof fn lemma_values_model_index(vs: Seq<PbxValue>)
    ensures
        values_model(vs).len() == vs.len(),
        forall|k: int| 0 <= k < vs.len() ==> #[trigger] values_model(vs)[k] == value_model(vs[k]),
    decreases vs.len(),
{
    if vs.len() > 0 {
        lemma_values_model_index(vs.drop_last());
    }
}

impl PbxDocument {
    /// Wraps a root value into a document.
    pub fn new(root: PbxValue) -> (r: Self)
        ensures
            r.root == root,
    {
        PbxDocument { root }
    }

    /// The model of the document's root.
    pub open spec fn model(&self) -> ValueModel {
        value_model(self.root)
    }
}

} // verus!
