//! Projection of a document onto a generic JSON value: each value becomes an
//! object `{type, value}`, each entry an object `{key, value, comment?}`.
use vstd::prelude::*;
use crate::model::{
    entries_model, entry_model, lemma_entries_model_index, lemma_values_model_index, value_model,
    values_model, EntryModel, PbxDocument, PbxEntry, PbxValue, ValueModel,
};

verus! {

broadcast use {
    vstd::seq::axiom_seq_index_decreases,
    vstd::seq::axiom_seq_subrange_decreases,
    vstd::std_specs::vec::axiom_vec_decreases_to_view,
    vstd::std_specs::vec::axiom_vec_index_decreases,
};

/// A JSON value as the projection produces it: strings, arrays and objects
/// whose members keep their order.
#[derive(Debug, PartialEq)]
pub enum JsonValue {
    String(String),
    Array(Vec<JsonValue>),
    Object(Vec<JsonMember>),
}

/// One member of a JSON object.
#[derive(Debug, PartialEq)]
pub struct JsonMember {
    pub name: String,
    pub value: JsonValue,
}

/// The mathematical value of a `JsonValue`.
pub enum JsonModel {
    Str(Seq<char>),
    Array(Seq<JsonModel>),
    Object(Seq<(Seq<char>, JsonModel)>),
}

pub open spec fn json_model(j: JsonValue) -> JsonModel
    decreases j,
{
    match j {
        JsonValue::String(t) => JsonModel::Str(t@),
        JsonValue::Array(items) => JsonModel::Array(jsons_model(items@)),
        JsonValue::Object(members) => JsonModel::Object(members_model(members@)),
    }
}

pub open spec fn member_model(m: JsonMember) -> (Seq<char>, JsonModel)
    decreases m,
{
    (m.name@, json_model(m.value))
}

pub open spec fn jsons_model(js: Seq<JsonValue>) -> Seq<JsonModel>
    decreases js,
{
    if js.len() == 0 {
        Seq::empty()
    } else {
        jsons_model(js.drop_last()).push(json_model(js.last()))
    }
}

pub open spec fn members_model(ms: Seq<JsonMember>) -> Seq<(Seq<char>, JsonModel)>
    decreases ms,
{
    if ms.len() == 0 {
        Seq::empty()
    } else {
        members_model(ms.drop_last()).push(member_model(ms.last()))
    }
}

/// `{"type": tag, "value": payload}`.
pub open spec fn tagged(tag: Seq<char>, payload: JsonModel) -> JsonModel {
    JsonModel::Object(seq![("type"@, JsonModel::Str(tag)), ("value"@, payload)])
}

/// The projection of a value.
pub open spec fn project_value(v: ValueModel) -> JsonModel
    decreases v,
{
    match v {
        ValueModel::Dictionary(es) => tagged("dictionary"@, JsonModel::Array(project_entries(es))),
        ValueModel::Array(vs) => tagged("array"@, JsonModel::Array(project_values(vs))),
        ValueModel::Str(t) => tagged("string"@, JsonModel::Str(t)),
        ValueModel::Identifier(t) => tagged("identifier"@, JsonModel::Str(t)),
        ValueModel::Number(t) => tagged("number"@, JsonModel::Str(t)),
    }
}

/// The projection of an entry; `comment` is left out when there is none.
pub open spec fn project_entry(e: EntryModel) -> JsonModel
    decreases e,
{
    let base = seq![("key"@, JsonModel::Str(e.key)), ("value"@, project_value(e.value))];
    match e.comment {
        Some(c) => JsonModel::Object(base.push(("comment"@, JsonModel::Str(c)))),
        None => JsonModel::Object(base),
    }
}

pub open spec fn project_entries(es: Seq<EntryModel>) -> Seq<JsonModel>
    decreases es,
{
    if es.len() == 0 {
        Seq::empty()
    } else {
        project_entries(es.drop_last()).push(project_entry(es.last()))
    }
}

pub open spec fn project_values(vs: Seq<ValueModel>) -> Seq<JsonModel>
    decreases vs,
{
    if vs.len() == 0 {
        Seq::empty()
    } else {
        project_values(vs.drop_last()).push(project_value(vs.last()))
    }
}

fn member(name: &str, value: JsonValue) -> (r: JsonMember)
    ensures
        member_model(r) == (name@, json_model(value)),
{
    JsonMember { name: name.to_owned(), value }
}

fn tagged_json(tag: &str, payload: JsonValue) -> (r: JsonValue)
    ensures
        json_model(r) == tagged(tag@, json_model(payload)),
{
    let ghost pm = json_model(payload);
    let first = member("type", JsonValue::String(tag.to_owned()));
    let second = member("value", payload);
    let mut members: Vec<JsonMember> = Vec::new();
    members.push(first);
    members.push(second);
    let ghost m = members@;
    assert(m.drop_last().drop_last() =~= Seq::<JsonMember>::empty());
    assert(members_model(Seq::<JsonMember>::empty()) =~= Seq::empty());
    assert(m.drop_last().last() == first);
    assert(members_model(m.drop_last()) =~= seq![("type"@, JsonModel::Str(tag@))]);
    assert(members_model(m) =~= seq![
        ("type"@, JsonModel::Str(tag@)),
        ("value"@, pm),
    ]);
    JsonValue::Object(members)
}

fn project_entry_json(e: &PbxEntry) -> (r: JsonValue)
    ensures
        json_model(r) == project_entry(entry_model(*e)),
    decreases entry_model(*e), 0int,
{
    let first = member("key", JsonValue::String(e.key.clone()));
    let second = member("value", project_value_json(&e.value));
    let mut members: Vec<JsonMember> = Vec::new();
    members.push(first);
    members.push(second);
    let ghost two = members@;
    assert(two.drop_last().drop_last() =~= Seq::<JsonMember>::empty());
    assert(members_model(Seq::<JsonMember>::empty()) =~= Seq::empty());
    assert(two.drop_last().last() == first);
    assert(members_model(two.drop_last()) =~= seq![("key"@, JsonModel::Str(e.key@))]);
    assert(members_model(two) =~= seq![
        ("key"@, JsonModel::Str(e.key@)),
        ("value"@, project_value(value_model(e.value))),
    ]);
    match &e.comment {
        Some(c) => {
            members.push(member("comment", JsonValue::String(c.clone())));
            assert(members@.drop_last() =~= two);
        },
        None => {},
    }
    assert(json_model(JsonValue::Object(members)) =~= project_entry(entry_model(*e)));
    JsonValue::Object(members)
}

fn project_value_json(v: &PbxValue) -> (r: JsonValue)
    ensures
        json_model(r) == project_value(value_model(*v)),
    decreases value_model(*v), 1int,
{
    match v {
        PbxValue::Dictionary(es) => {
            let ghost ms = entries_model(es@);
            proof {
                lemma_entries_model_index(es@);
            }
            let mut items: Vec<JsonValue> = Vec::new();
            let mut k: usize = 0;
            while k < es.len()
                invariant
                    k <= es@.len(),
                    jsons_model(items@) == project_entries(ms.subrange(0, k as int)),
                    ms == entries_model(es@),
                    *v == PbxValue::Dictionary(*es),
                    ms.len() == es@.len(),
                    forall|m: int| 0 <= m < es@.len() ==> #[trigger] ms[m] == entry_model(es@[m]),
                decreases es.len() - k,
            {
                proof {
                    assert(ms.subrange(0, k + 1).drop_last() =~= ms.subrange(0, k as int));
                    let ghost d = value_model(*v);
                    assert(decreases_to!(d => d->Dictionary_0));
                    assert(decreases_to!(ms => ms[k as int]));
                }
                let j = project_entry_json(&es[k]);
                proof {
                    assert(items@.push(j).drop_last() =~= items@);
                }
                items.push(j);
                k = k + 1;
            }
            assert(ms.subrange(0, es@.len() as int) =~= ms);
            tagged_json("dictionary", JsonValue::Array(items))
        },
        PbxValue::Array(vs) => {
            let ghost ms = values_model(vs@);
            proof {
                lemma_values_model_index(vs@);
            }
            let mut items: Vec<JsonValue> = Vec::new();
            let mut k: usize = 0;
            while k < vs.len()
                invariant
                    k <= vs@.len(),
                    jsons_model(items@) == project_values(ms.subrange(0, k as int)),
                    ms == values_model(vs@),
                    *v == PbxValue::Array(*vs),
                    ms.len() == vs@.len(),
                    forall|m: int| 0 <= m < vs@.len() ==> #[trigger] ms[m] == value_model(vs@[m]),
                decreases vs.len() - k,
            {
                proof {
                    assert(ms.subrange(0, k + 1).drop_last() =~= ms.subrange(0, k as int));
                    let ghost d = value_model(*v);
                    assert(decreases_to!(d => d->Array_0));
                    assert(decreases_to!(ms => ms[k as int]));
                }
                let j = project_value_json(&vs[k]);
                proof {
                    assert(items@.push(j).drop_last() =~= items@);
                }
                items.push(j);
                k = k + 1;
            }
            assert(ms.subrange(0, vs@.len() as int) =~= ms);
            tagged_json("array", JsonValue::Array(items))
        },
        PbxValue::String(t) => tagged_json("string", JsonValue::String(t.clone())),
        PbxValue::Identifier(t) => tagged_json("identifier", JsonValue::String(t.clone())),
        PbxValue::Number(t) => tagged_json("number", JsonValue::String(t.clone())),
    }
}

impl PbxDocument {
    /// The JSON projection of the document's root.
    pub fn to_json(&self) -> (r: JsonValue)
        ensures
            json_model(r) == project_value(self.model()),
    {
        project_value_json(&self.root)
    }
}

} // verus!
