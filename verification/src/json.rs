//! The bridge from the configuration tree to JSON values and JSON text,
//! which are the work of the `serde_json` crate.

use crate::tree::{
    entries_model, first_index, first_positions, has_key, is_first, lemma_first_is_unique,
    lemma_key_present, lemma_mapping_view, lemma_sequence_view, lists_first_positions, lookup,
    positions_of, Tree, TreeModel,
};
use vstd::prelude::*;

verus! {

/// `serde_json::Value`, a JSON value of the JSON crate. Verus sees nothing
/// inside it; [`json_model`] names what it holds.
#[verifier::external_type_specification]
#[verifier::external_body]
pub struct ExJsonValue(serde_json::Value);

/// What a JSON value holds. A float is held as the text that the JSON crate
/// prints for it. An object is a map from keys to values: the crate keeps
/// an object's keys in their sorted order, so that the keys and their
/// values say everything.
pub enum JsonModel {
    Null,
    Bool(bool),
    Integer(int),
    Float(Seq<char>),
    Text(Seq<char>),
    Array(Seq<JsonModel>),
    Object(Map<Seq<char>, JsonModel>),
}

/// What the `serde_json::Value` `value` holds.
pub uninterp spec fn json_model(value: serde_json::Value) -> JsonModel;

/// The compact JSON text that the `Display` of `serde_json::Value` writes
/// for `value`.
pub uninterp spec fn json_text(value: JsonModel) -> Seq<char>;

/// The number that `serde_json::from_str` reads from `text` as a
/// `serde_json::Number`, or the null value where it reports an error.
pub uninterp spec fn json_number(text: Seq<char>) -> JsonModel;

/// One level of a JSON value that is to be made: its own kind and payload,
/// with the values below it as the JSON crate holds them.
pub enum JsonShape {
    Null,
    Bool(bool),
    Unsigned(u64),
    Signed(i64),
    Float(String),
    Text(String),
    Array(Vec<serde_json::Value>),
    Object(Vec<(String, serde_json::Value)>),
}

/// The keys of `members` with what their values hold.
pub open spec fn members_model(members: Seq<(String, serde_json::Value)>) -> Seq<
    (Seq<char>, JsonModel),
> {
    Seq::new(members.len(), |i: int| (members[i].0@, json_model(members[i].1)))
}

/// Whether no two of `members` have the same key.
pub open spec fn has_distinct_keys(members: Seq<(String, serde_json::Value)>) -> bool {
    forall|i: int, j: int|
        0 <= i < j < members.len() ==> (#[trigger] members[i]).0@ != (#[trigger] members[j]).0@
}

/// The object whose members are `members`.
pub open spec fn object_of(members: Seq<(Seq<char>, JsonModel)>) -> Map<Seq<char>, JsonModel> {
    Map::new(|key: Seq<char>| has_key(members, key), |key: Seq<char>| lookup(members, key)->0)
}

/// What a value made of the shape `shape` holds, for every shape but a
/// float.
pub open spec fn shape_json(shape: JsonShape) -> JsonModel {
    match shape {
        JsonShape::Null => JsonModel::Null,
        JsonShape::Bool(b) => JsonModel::Bool(b),
        JsonShape::Unsigned(u) => JsonModel::Integer(u as int),
        JsonShape::Signed(i) => JsonModel::Integer(i as int),
        JsonShape::Float(text) => JsonModel::Float(text@),
        JsonShape::Text(text) => JsonModel::Text(text@),
        JsonShape::Array(items) => JsonModel::Array(
            Seq::new(items@.len(), |i: int| json_model(items@[i])),
        ),
        JsonShape::Object(members) => JsonModel::Object(object_of(members_model(members@))),
    }
}

/// Makes a `serde_json::Value` of one level, variant by variant: an
/// integer through `Number::from`, a float by reading its text as a
/// number with `serde_json::from_str` (null where that reports an error),
/// an object by collecting its members. The members' keys must differ, so that
/// collecting keeps every member.
#[verifier::external_body]
fn json_make(shape: JsonShape) -> (value: serde_json::Value)
    requires
        shape matches JsonShape::Object(members) ==> has_distinct_keys(members@),
    ensures
        shape matches JsonShape::Float(text) ==> json_model(value) == json_number(text@),
        !(shape is Float) ==> json_model(value) == shape_json(shape),
{
    match shape {
        JsonShape::Null => serde_json::Value::Null,
        JsonShape::Bool(b) => serde_json::Value::Bool(b),
        JsonShape::Unsigned(u) => serde_json::Value::Number(u.into()),
        JsonShape::Signed(i) => serde_json::Value::Number(i.into()),
        JsonShape::Float(t) => {
            serde_json::from_str(&t).map_or(serde_json::Value::Null, serde_json::Value::Number)
        },
        JsonShape::Text(s) => serde_json::Value::String(s),
        JsonShape::Array(items) => serde_json::Value::Array(items),
        JsonShape::Object(members) => serde_json::Value::Object(members.into_iter().collect()),
    }
}

/// Calls the `to_string` that the `Display` of `serde_json::Value` gives:
/// the compact JSON text of what `value` holds.
#[verifier::external_body]
fn json_to_text(value: &serde_json::Value) -> (text: String)
    ensures
        text@ == json_text(json_model(*value)),
{
    value.to_string()
}

/// The JSON value that a tree is shown as. Integers, strings and booleans
/// are kept; a float is what the JSON crate reads from its text; a mapping
/// becomes the object of its keys, each with the value of the first entry
/// that has it.
pub open spec fn json_of_tree(tree: TreeModel) -> JsonModel
    decreases tree,
{
    match tree {
        TreeModel::Null => JsonModel::Null,
        TreeModel::Bool(b) => JsonModel::Bool(b),
        TreeModel::Integer(n) => JsonModel::Integer(n),
        TreeModel::Float(text) => json_number(text),
        TreeModel::Text(text) => JsonModel::Text(text),
        TreeModel::Sequence(items) => JsonModel::Array(
            Seq::new(
                items.len(),
                |i: int|
                    if 0 <= i < items.len() {
                        json_of_tree(items[i])
                    } else {
                        JsonModel::Null
                    },
            ),
        ),
        TreeModel::Mapping(entries) => JsonModel::Object(
            Map::new(
                |key: Seq<char>| has_key(entries, key),
                |key: Seq<char>|
                    if has_key(entries, key) {
                        json_of_tree(entries[first_index(entries, key)].1)
                    } else {
                        JsonModel::Null
                    },
            ),
        ),
    }
}

/// The `serde_json::Value` that the tree `tree` is shown as.
pub fn to_json(tree: &Tree) -> (value: serde_json::Value)
    ensures
        json_model(value) == json_of_tree(tree@),
    decreases tree,
{
    match tree {
        Tree::Null => json_make(JsonShape::Null),
        Tree::Bool(b) => json_make(JsonShape::Bool(*b)),
        Tree::Int(i) => json_make(JsonShape::Signed(*i)),
        Tree::UInt(u) => json_make(JsonShape::Unsigned(*u)),
        Tree::Float(text) => json_make(JsonShape::Float(text.clone())),
        Tree::Text(text) => json_make(JsonShape::Text(text.clone())),
        Tree::Sequence(items) => {
            let mut out: Vec<serde_json::Value> = Vec::new();
            let mut i: usize = 0;
            proof {
                lemma_sequence_view(*items);
            }
            while i < items.len()
                invariant
                    i <= items.len(),
                    out.len() == i,
                    tree is Sequence,
                    tree->Sequence_0 == *items,
                    forall|k: int| 0 <= k < i ==> json_model(out@[k]) == json_of_tree(items@[k]@),
                decreases items.len() - i,
            {
                assert(decreases_to!(tree => tree->Sequence_0));
                assert(decreases_to!(*items => items[i as int]));
                let item = to_json(&items[i]);
                out.push(item);
                i += 1;
            }
            let ghost shape = JsonShape::Array(out);
            let value = json_make(JsonShape::Array(out));
            assert(shape_json(shape)->Array_0 =~= json_of_tree(tree@)->Array_0);
            value
        },
        Tree::Mapping(entries) => {
            let ghost model = entries_model(entries@);
            let kept = first_positions(entries);
            let ghost positions = positions_of(kept@);
            let mut out: Vec<(String, serde_json::Value)> = Vec::new();
            let mut k: usize = 0;
            proof {
                lemma_mapping_view(*entries);
            }
            while k < kept.len()
                invariant
                    k <= kept.len(),
                    out.len() == k,
                    tree is Mapping,
                    tree->Mapping_0 == *entries,
                    model == entries_model(entries@),
                    positions == positions_of(kept@),
                    lists_first_positions(model, positions),
                    forall|a: int|
                        0 <= a < k ==> {
                            &&& (#[trigger] out@[a]).0@ == model[positions[a]].0
                            &&& json_model(out@[a].1) == json_of_tree(model[positions[a]].1)
                        },
                decreases kept.len() - k,
            {
                assert(0 <= positions[k as int] < model.len());
                let at: usize = kept[k];
                assert(decreases_to!(tree => tree->Mapping_0));
                assert(decreases_to!(*entries => entries[at as int]));
                let value = to_json(&entries[at].1);
                out.push((entries[at].0.clone(), value));
                k += 1;
            }
            let ghost shape = JsonShape::Object(out);
            proof {
                lemma_object_of_first_entries(model, positions, members_model(out@));
                assert forall|a: int, b: int| 0 <= a < b < out@.len() implies (
                #[trigger] out@[a]).0@ != (#[trigger] out@[b]).0@ by {
                    assert(members_model(out@)[a].0 == out@[a].0@);
                    assert(members_model(out@)[b].0 == out@[b].0@);
                }
            }
            json_make(JsonShape::Object(out))
        },
    }
}

/// The members made of the entries that are first with their key have
/// keys that differ, and form the object that the mapping is shown as.
proof fn lemma_object_of_first_entries(
    model: Seq<(Seq<char>, TreeModel)>,
    positions: Seq<int>,
    members: Seq<(Seq<char>, JsonModel)>,
)
    requires
        lists_first_positions(model, positions),
        members.len() == positions.len(),
        forall|a: int|
            0 <= a < members.len() ==> {
                &&& (#[trigger] members[a]).0 == model[positions[a]].0
                &&& members[a].1 == json_of_tree(model[positions[a]].1)
            },
    ensures
        forall|a: int, b: int|
            0 <= a < b < members.len() ==> (#[trigger] members[a]).0 != (#[trigger] members[b]).0,
        JsonModel::Object(object_of(members)) == json_of_tree(TreeModel::Mapping(model)),
{
    assert forall|a: int, b: int| 0 <= a < b < members.len() implies (#[trigger] members[a]).0 != (
    #[trigger] members[b]).0 by {
        assert(positions[a] < positions[b]);
        assert(is_first(model, model[positions[b]].0, positions[b]));
        assert(model[positions[a]].0 != model[positions[b]].0);
    }
    let made = object_of(members);
    let wanted = json_of_tree(TreeModel::Mapping(model))->Object_0;
    assert forall|key: Seq<char>| has_key(members, key) == has_key(model, key) by {
        if has_key(members, key) {
            let a = first_index(members, key);
            assert(is_first(members, key, a));
            assert(members[a].0 == model[positions[a]].0);
            lemma_key_present(model, key, positions[a]);
        }
        if has_key(model, key) {
            let f = first_index(model, key);
            assert(is_first(model, key, f));
            assert(model[f].0 == key);
            assert(positions.contains(f));
            let a = choose|a: int| 0 <= a < positions.len() && positions[a] == f;
            assert(members[a].0 == key);
            lemma_key_present(members, key, a);
        }
    }
    assert forall|key: Seq<char>| has_key(members, key) implies made[key] == wanted[key] by {
        let a = first_index(members, key);
        assert(is_first(members, key, a));
        assert(members[a].0 == model[positions[a]].0);
        assert(is_first(model, model[positions[a]].0, positions[a]));
        lemma_first_is_unique(model, key, positions[a]);
    }
    assert(made =~= wanted);
}

/// The compact JSON text of the tree `tree`.
pub fn compact_json(tree: &Tree) -> (text: String)
    ensures
        text@ == json_text(json_of_tree(tree@)),
{
    let value = to_json(tree);
    json_to_text(&value)
}

} // verus!
