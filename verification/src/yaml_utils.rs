//! The bridge between YAML text and the configuration tree.
//!
//! Reading and writing YAML text is the work of the `serde_yaml` crate. What
//! it reads is handed over node by node into [`YamlNode`], the library's own
//! picture of a YAML document; the rules that turn such a document into a
//! [`Tree`] and a tree back into a document are verified here.

use crate::colors::{bgr_color_keys, color_key_names, preserve_bgr_colors, with_colors};
use crate::text::{
    bool_string, bool_text, decimal_string, same_text, signed_decimal, signed_decimal_string,
};
use crate::tree::{
    all_normal, entries_model, find_key, insert_entry, inserted, is_first, is_normal,
    items_model, lemma_first_is_unique, lemma_mapping_view, lemma_sequence_view, Tree,
    TreeModel,
};
use vstd::prelude::*;

verus! {

/// `serde_yaml::Value`, a YAML value of the parser crate. Verus sees nothing
/// inside it; [`yaml_model`] names what it holds.
#[verifier::external_type_specification]
#[verifier::external_body]
pub struct ExYamlValue(serde_yaml::Value);

/// What a YAML value holds. A float is held as the text that the parser
/// crate prints for it; a tag is held as printed, with its leading `!`.
pub enum YamlModel {
    Null,
    Bool(bool),
    Integer(int),
    Float(Seq<char>),
    Text(Seq<char>),
    Sequence(Seq<YamlModel>),
    Mapping(Seq<(YamlModel, YamlModel)>),
    Tagged(Seq<char>, Box<YamlModel>),
}

/// What the `serde_yaml::Value` `value` holds.
pub uninterp spec fn yaml_model(value: serde_yaml::Value) -> YamlModel;

/// The document that `serde_yaml::from_str` reads from `text`, or `None`
/// where it reports an error.
pub uninterp spec fn yaml_document(text: Seq<char>) -> Option<YamlModel>;

/// The text that `serde_yaml::to_string` writes for `document`, or `None`
/// where it reports an error.
pub uninterp spec fn yaml_text(document: YamlModel) -> Option<Seq<char>>;

/// The number that `serde_yaml::Number` reads from `text` (through its
/// `FromStr`), or the null value where it reads none.
pub uninterp spec fn yaml_number(text: Seq<char>) -> YamlModel;

/// One level of a YAML value: its own kind and payload, with the values
/// below it still as the parser crate holds them.
pub enum YamlShape {
    Null,
    Bool(bool),
    Unsigned(u64),
    Signed(i64),
    Float(String),
    Text(String),
    Sequence(Vec<serde_yaml::Value>),
    Mapping(Vec<(serde_yaml::Value, serde_yaml::Value)>),
    Tagged(String, serde_yaml::Value),
}

/// What a value of the shape `shape` holds.
pub open spec fn shape_model(shape: YamlShape) -> YamlModel {
    match shape {
        YamlShape::Null => YamlModel::Null,
        YamlShape::Bool(b) => YamlModel::Bool(b),
        YamlShape::Unsigned(u) => YamlModel::Integer(u as int),
        YamlShape::Signed(i) => YamlModel::Integer(i as int),
        YamlShape::Float(text) => YamlModel::Float(text@),
        YamlShape::Text(text) => YamlModel::Text(text@),
        YamlShape::Sequence(items) => YamlModel::Sequence(
            Seq::new(items@.len(), |i: int| yaml_model(items@[i])),
        ),
        YamlShape::Mapping(entries) => YamlModel::Mapping(
            Seq::new(
                entries@.len(),
                |i: int| (yaml_model(entries@[i].0), yaml_model(entries@[i].1)),
            ),
        ),
        YamlShape::Tagged(tag, inner) => YamlModel::Tagged(tag@, Box::new(yaml_model(inner))),
    }
}

/// Calls `serde_yaml::from_str` for a `serde_yaml::Value`. The result holds
/// the document that the crate reads from `text`; it is `None` exactly
/// where the crate reports an error.
#[verifier::external_body]
fn yaml_from_str(text: &str) -> (parsed: Option<serde_yaml::Value>)
    ensures
        match parsed {
            Some(value) => yaml_document(text@) == Some(yaml_model(value)),
            None => yaml_document(text@) is None,
        },
{
    serde_yaml::from_str::<serde_yaml::Value>(text).ok()
}

/// Takes a `serde_yaml::Value` apart by one level, variant by variant. A
/// number gives its unsigned value where `as_u64` has one, else its signed
/// value where `as_i64` has one, else the text that its `Display` prints; a
/// tag gives the text that its `Display` prints.
#[verifier::external_body]
fn yaml_open(value: serde_yaml::Value) -> (shape: YamlShape)
    ensures
        shape_model(shape) == yaml_model(value),
{
    match value {
        serde_yaml::Value::Null => YamlShape::Null,
        serde_yaml::Value::Bool(b) => YamlShape::Bool(b),
        serde_yaml::Value::Number(n) => match (n.as_u64(), n.as_i64()) {
            (Some(u), _) => YamlShape::Unsigned(u),
            (None, Some(i)) => YamlShape::Signed(i),
            (None, None) => YamlShape::Float(n.to_string()),
        },
        serde_yaml::Value::String(s) => YamlShape::Text(s),
        serde_yaml::Value::Sequence(items) => YamlShape::Sequence(items),
        serde_yaml::Value::Mapping(entries) => YamlShape::Mapping(entries.into_iter().collect()),
        serde_yaml::Value::Tagged(t) => YamlShape::Tagged(t.tag.to_string(), t.value),
    }
}

/// A YAML document as the library holds it: every node with its kind and
/// payload as plain values.
#[derive(Debug, PartialEq)]
pub enum YamlNode {
    Null,
    Bool(bool),
    Unsigned(u64),
    Signed(i64),
    Float(String),
    Text(String),
    Sequence(Vec<YamlNode>),
    Mapping(Vec<(YamlNode, YamlNode)>),
    Tagged(String, Box<YamlNode>),
}

impl View for YamlNode {
    type V = YamlModel;

    open spec fn view(&self) -> YamlModel
        decreases self,
    {
        match self {
            YamlNode::Null => YamlModel::Null,
            YamlNode::Bool(b) => YamlModel::Bool(*b),
            YamlNode::Unsigned(u) => YamlModel::Integer(*u as int),
            YamlNode::Signed(i) => YamlModel::Integer(*i as int),
            YamlNode::Float(text) => YamlModel::Float(text@),
            YamlNode::Text(text) => YamlModel::Text(text@),
            YamlNode::Sequence(items) => YamlModel::Sequence(
                Seq::new(
                    items@.len(),
                    |i: int|
                        if 0 <= i < items@.len() {
                            items@[i]@
                        } else {
                            YamlModel::Null
                        },
                ),
            ),
            YamlNode::Mapping(entries) => {
                let keys = Seq::new(
                    entries@.len(),
                    |i: int|
                        if 0 <= i < entries@.len() {
                            entries@[i].0@
                        } else {
                            YamlModel::Null
                        },
                );
                let values = Seq::new(
                    entries@.len(),
                    |i: int|
                        if 0 <= i < entries@.len() {
                            entries@[i].1@
                        } else {
                            YamlModel::Null
                        },
                );
                YamlModel::Mapping(Seq::new(entries@.len(), |i: int| (keys[i], values[i])))
            },
            YamlNode::Tagged(tag, inner) => YamlModel::Tagged(tag@, Box::new((**inner)@)),
        }
    }
}

/// What a list of nodes holds, node by node.
pub open spec fn nodes_model(items: Seq<YamlNode>) -> Seq<YamlModel> {
    Seq::new(items.len(), |i: int| items[i]@)
}

/// What a list of pairs of nodes holds, pair by pair.
pub open spec fn pairs_model(entries: Seq<(YamlNode, YamlNode)>) -> Seq<(YamlModel, YamlModel)> {
    Seq::new(entries.len(), |i: int| (entries[i].0@, entries[i].1@))
}

/// A sequence node holds what its items hold.
pub proof fn lemma_yaml_sequence_view(items: Vec<YamlNode>)
    ensures
        YamlNode::Sequence(items)@ == YamlModel::Sequence(nodes_model(items@)),
{
    assert(YamlNode::Sequence(items)@->Sequence_0 =~= nodes_model(items@));
}

/// A mapping node holds what its pairs hold.
pub proof fn lemma_yaml_mapping_view(entries: Vec<(YamlNode, YamlNode)>)
    ensures
        YamlNode::Mapping(entries)@ == YamlModel::Mapping(pairs_model(entries@)),
{
    assert(YamlNode::Mapping(entries)@->Mapping_0 =~= pairs_model(entries@));
}

/// Hands a value of the parser crate over into the library's own type, node
/// by node.
fn lift(value: serde_yaml::Value) -> (node: YamlNode)
    ensures
        node@ == yaml_model(value),
    decreases yaml_model(value),
{
    let ghost whole = yaml_model(value);
    match yaml_open(value) {
        YamlShape::Null => YamlNode::Null,
        YamlShape::Bool(b) => YamlNode::Bool(b),
        YamlShape::Unsigned(u) => YamlNode::Unsigned(u),
        YamlShape::Signed(i) => YamlNode::Signed(i),
        YamlShape::Float(text) => YamlNode::Float(text),
        YamlShape::Text(text) => YamlNode::Text(text),
        YamlShape::Sequence(items) => {
            let ghost all = items;
            let mut out: Vec<YamlNode> = Vec::new();
            for item in it: items
                invariant
                    it.seq() == all@,
                    whole == yaml_model(value),
                    whole is Sequence,
                    whole->Sequence_0 == Seq::new(all@.len(), |i: int| yaml_model(all@[i])),
                    out.len() == it.index(),
                    forall|k: int| 0 <= k < it.index() ==> out@[k]@ == yaml_model(all@[k]),
            {
                assert(decreases_to!(whole => whole->Sequence_0));
                assert(decreases_to!(whole->Sequence_0 => whole->Sequence_0[it.index() as int]));
                let node = lift(item);
                out.push(node);
            }
            proof {
                lemma_yaml_sequence_view(out);
                assert(nodes_model(out@) =~= whole->Sequence_0);
            }
            YamlNode::Sequence(out)
        },
        YamlShape::Mapping(entries) => {
            let ghost all = entries;
            let mut out: Vec<(YamlNode, YamlNode)> = Vec::new();
            for entry in it: entries
                invariant
                    it.seq() == all@,
                    whole == yaml_model(value),
                    whole is Mapping,
                    whole->Mapping_0 == Seq::new(
                        all@.len(),
                        |i: int| (yaml_model(all@[i].0), yaml_model(all@[i].1)),
                    ),
                    out.len() == it.index(),
                    forall|k: int|
                        0 <= k < it.index() ==> out@[k].0@ == yaml_model(all@[k].0) && out@[k].1@
                            == yaml_model(all@[k].1),
            {
                let ghost pair = whole->Mapping_0[it.index() as int];
                assert(decreases_to!(whole => whole->Mapping_0));
                assert(decreases_to!(whole->Mapping_0 => pair));
                assert(decreases_to!(pair => pair.0));
                assert(decreases_to!(pair => pair.1));
                let (key, val) = entry;
                let key_node = lift(key);
                let val_node = lift(val);
                out.push((key_node, val_node));
            }
            proof {
                lemma_yaml_mapping_view(out);
                assert(pairs_model(out@) =~= whole->Mapping_0);
            }
            YamlNode::Mapping(out)
        },
        YamlShape::Tagged(tag, inner) => {
            assert(decreases_to!(whole => whole->Tagged_1));
            let node = lift(inner);
            YamlNode::Tagged(tag, Box::new(node))
        },
    }
}

/// Reads one YAML document from `content`. The result is `None` exactly
/// where the parser crate reports an error.
pub fn parse_yaml_document(content: &str) -> (document: Option<YamlNode>)
    ensures
        match document {
            Some(node) => yaml_document(content@) == Some(node@),
            None => yaml_document(content@) is None,
        },
{
    match yaml_from_str(content) {
        Some(value) => Some(lift(value)),
        None => None,
    }
}

/// Whether `text`, as the parser crate prints a float, stands for a finite
/// number: it prints `.nan`, `.inf` and `-.inf` for the others.
pub open spec fn is_finite_text(text: Seq<char>) -> bool {
    text != ".nan"@ && text != ".inf"@ && text != "-.inf"@
}

/// The string that a YAML mapping key becomes: a string is itself, a number
/// is its canonical decimal writing, a boolean is `true` or `false`. A key
/// of any other shape has none and its entry is left out.
pub open spec fn key_text(key: YamlModel) -> Option<Seq<char>> {
    match key {
        YamlModel::Text(text) => Some(text),
        YamlModel::Integer(n) => Some(signed_decimal(n)),
        YamlModel::Float(text) => Some(text),
        YamlModel::Bool(b) => Some(bool_text(b)),
        _ => None,
    }
}

/// The tree that a YAML document stands for. Integers and strings are
/// kept; a float is kept if it is finite and becomes null otherwise; a tag
/// is dropped and the value under it taken; the entries of a mapping are
/// set one after the other under their keys' strings.
pub open spec fn tree_of_yaml(yaml: YamlModel) -> TreeModel
    decreases yaml, 0nat,
{
    match yaml {
        YamlModel::Null => TreeModel::Null,
        YamlModel::Bool(b) => TreeModel::Bool(b),
        YamlModel::Integer(n) => TreeModel::Integer(n),
        YamlModel::Float(text) => if is_finite_text(text) {
            TreeModel::Float(text)
        } else {
            TreeModel::Null
        },
        YamlModel::Text(text) => TreeModel::Text(text),
        YamlModel::Sequence(items) => TreeModel::Sequence(
            Seq::new(
                items.len(),
                |i: int|
                    if 0 <= i < items.len() {
                        tree_of_yaml(items[i])
                    } else {
                        TreeModel::Null
                    },
            ),
        ),
        YamlModel::Mapping(entries) => TreeModel::Mapping(tree_entries(entries, entries.len())),
        YamlModel::Tagged(_, inner) => tree_of_yaml(*inner),
    }
}

/// The mapping entries that the first `count` pairs of a YAML mapping
/// give: each pair whose key has a string is set under that string, one
/// pair after the other, so that a later pair with the same string
/// replaces the value of the earlier one; a pair whose key has no string
/// is left out.
pub open spec fn tree_entries(entries: Seq<(YamlModel, YamlModel)>, count: nat) -> Seq<
    (Seq<char>, TreeModel),
>
    decreases entries, count,
{
    if count == 0 || count > entries.len() {
        Seq::empty()
    } else {
        let init = tree_entries(entries, (count - 1) as nat);
        match key_text(entries[count - 1].0) {
            Some(key) => inserted(init, key, tree_of_yaml(entries[count - 1].1)),
            None => init,
        }
    }
}

/// The string that the mapping key `key` becomes, if it has one.
pub fn key_string(key: YamlNode) -> (text: Option<String>)
    ensures
        match text {
            Some(s) => key_text(key@) == Some(s@),
            None => key_text(key@) is None,
        },
{
    match key {
        YamlNode::Text(text) => Some(text),
        YamlNode::Unsigned(u) => Some(decimal_string(u as u128)),
        YamlNode::Signed(i) => Some(signed_decimal_string(i)),
        YamlNode::Float(text) => Some(text),
        YamlNode::Bool(b) => Some(bool_string(b)),
        _ => None,
    }
}

/// The tree that the YAML document `yaml` stands for. An integer is held
/// as signed where it fits, and as unsigned above.
pub fn yaml_to_json(yaml: YamlNode) -> (tree: Tree)
    ensures
        tree@ == tree_of_yaml(yaml@),
        is_normal(tree),
    decreases yaml,
{
    match yaml {
        YamlNode::Null => Tree::Null,
        YamlNode::Bool(b) => Tree::Bool(b),
        YamlNode::Unsigned(u) => if u <= 0x7fff_ffff_ffff_ffff {
            Tree::Int(u as i64)
        } else {
            Tree::UInt(u)
        },
        YamlNode::Signed(i) => Tree::Int(i),
        YamlNode::Float(text) => {
            let finite = !same_text(text.as_str(), ".nan") && !same_text(text.as_str(), ".inf")
                && !same_text(text.as_str(), "-.inf");
            if finite {
                Tree::Float(text)
            } else {
                Tree::Null
            }
        },
        YamlNode::Text(text) => Tree::Text(text),
        YamlNode::Sequence(items) => {
            let ghost all = items;
            let mut out: Vec<Tree> = Vec::new();
            proof {
                lemma_yaml_sequence_view(all);
            }
            for item in it: items
                invariant
                    it.seq() == all@,
                    yaml == YamlNode::Sequence(all),
                    out.len() == it.index(),
                    forall|k: int| 0 <= k < it.index() ==> out@[k]@ == tree_of_yaml(all@[k]@),
                    forall|k: int| 0 <= k < it.index() ==> is_normal(#[trigger] out@[k]),
            {
                assert(decreases_to!(yaml => yaml->Sequence_0));
                assert(decreases_to!(all => all[it.index() as int]));
                let tree = yaml_to_json(item);
                out.push(tree);
            }
            proof {
                lemma_sequence_view(out);
                assert(items_model(out@) =~= tree_of_yaml(yaml@)->Sequence_0);
            }
            Tree::Sequence(out)
        },
        YamlNode::Mapping(entries) => {
            let ghost all = entries;
            let ghost pairs = pairs_model(all@);
            let mut out: Vec<(String, Tree)> = Vec::new();
            proof {
                lemma_yaml_mapping_view(all);
            }
            for entry in it: entries
                invariant
                    it.seq() == all@,
                    yaml == YamlNode::Mapping(all),
                    pairs == pairs_model(all@),
                    entries_model(out@) == tree_entries(pairs, it.index() as nat),
                    all_normal(out@),
            {
                assert(decreases_to!(yaml => yaml->Mapping_0));
                assert(decreases_to!(all => all[it.index() as int]));
                let (key, value) = entry;
                match key_string(key) {
                    Some(name) => {
                        let tree = yaml_to_json(value);
                        insert_entry(&mut out, name, tree);
                    },
                    None => {},
                }
            }
            proof {
                lemma_mapping_view(out);
            }
            Tree::Mapping(out)
        },
        YamlNode::Tagged(_, inner) => {
            yaml_to_json(*inner)
        },
    }
}

/// The tree that `text` stands for: the tree of the document it holds, or
/// the null tree where it holds none.
pub open spec fn parsed_tree(text: Seq<char>) -> TreeModel {
    match yaml_document(text) {
        Some(document) => tree_of_yaml(document),
        None => TreeModel::Null,
    }
}

/// Reads YAML text into a tree. Text that is no YAML document gives the
/// null tree.
pub fn parse_yaml(content: &str) -> (tree: Tree)
    ensures
        tree@ == parsed_tree(content@),
        is_normal(tree),
{
    match parse_yaml_document(content) {
        Some(document) => yaml_to_json(document),
        None => Tree::Null,
    }
}

/// Reads YAML text into a tree and shows its colour integers as colour
/// strings.
pub fn parse_yaml_with_colors(content: &str) -> (tree: Tree)
    ensures
        tree@ == with_colors(parsed_tree(content@), color_key_names()),
{
    let keys = bgr_color_keys();
    preserve_bgr_colors(parse_yaml(content), &keys)
}

/// Whether the keys of `entries` are strings, no two of them the same.
pub open spec fn has_distinct_text_keys(entries: Seq<(serde_yaml::Value, serde_yaml::Value)>) -> bool {
    &&& forall|i: int| 0 <= i < entries.len() ==> yaml_model(#[trigger] entries[i].0) is Text
    &&& forall|i: int, j: int|
        0 <= i < j < entries.len() ==> yaml_model(#[trigger] entries[i].0) != yaml_model(
            #[trigger] entries[j].0,
        )
}

/// Makes a `serde_yaml::Value` of one level, variant by variant: a number
/// through `Number::from`, a float through the `FromStr` of
/// `serde_yaml::Number` (null where that reads no number), a mapping by
/// collecting its entries in order. A mapping's keys must be strings, no two
/// the same, so that collecting keeps every entry; a tag must not be empty
/// and nothing is stated of a tagged value.
#[verifier::external_body]
fn yaml_close(shape: YamlShape) -> (value: serde_yaml::Value)
    requires
        shape matches YamlShape::Mapping(entries) ==> has_distinct_text_keys(entries@),
        shape matches YamlShape::Tagged(tag, _) ==> tag@.len() > 0,
    ensures
        shape matches YamlShape::Float(text) ==> yaml_model(value) == yaml_number(text@),
        !(shape is Float) && !(shape is Tagged) ==> yaml_model(value) == shape_model(shape),
{
    match shape {
        YamlShape::Null => serde_yaml::Value::Null,
        YamlShape::Bool(b) => serde_yaml::Value::Bool(b),
        YamlShape::Unsigned(u) => serde_yaml::Value::Number(u.into()),
        YamlShape::Signed(i) => serde_yaml::Value::Number(i.into()),
        YamlShape::Float(t) => t.parse().map_or(serde_yaml::Value::Null, serde_yaml::Value::Number),
        YamlShape::Text(s) => serde_yaml::Value::String(s),
        YamlShape::Sequence(items) => serde_yaml::Value::Sequence(items),
        YamlShape::Mapping(entries) => serde_yaml::Value::Mapping(entries.into_iter().collect()),
        YamlShape::Tagged(tag, value) => serde_yaml::Value::Tagged(
            Box::new(serde_yaml::value::TaggedValue { tag: serde_yaml::value::Tag::new(tag), value }),
        ),
    }
}

/// Calls `serde_yaml::to_string`. The result is the text that the crate
/// writes for what `value` holds; it is `None` exactly where the crate
/// reports an error.
#[verifier::external_body]
fn yaml_to_string(value: &serde_yaml::Value) -> (text: Option<String>)
    ensures
        match text {
            Some(s) => yaml_text(yaml_model(*value)) == Some(s@),
            None => yaml_text(yaml_model(*value)) is None,
        },
{
    serde_yaml::to_string(value).ok()
}

/// The YAML document that a tree is written as. Integers, strings and
/// booleans are kept; a float is what the parser crate's number type reads
/// from its text; of the entries of a mapping that share a key, the first
/// is kept.
pub open spec fn yaml_of_tree(tree: TreeModel) -> YamlModel
    decreases tree, 0nat,
{
    match tree {
        TreeModel::Null => YamlModel::Null,
        TreeModel::Bool(b) => YamlModel::Bool(b),
        TreeModel::Integer(n) => YamlModel::Integer(n),
        TreeModel::Float(text) => yaml_number(text),
        TreeModel::Text(text) => YamlModel::Text(text),
        TreeModel::Sequence(items) => YamlModel::Sequence(
            Seq::new(
                items.len(),
                |i: int|
                    if 0 <= i < items.len() {
                        yaml_of_tree(items[i])
                    } else {
                        YamlModel::Null
                    },
            ),
        ),
        TreeModel::Mapping(entries) => YamlModel::Mapping(yaml_entries(entries, entries.len())),
    }
}

/// The pairs that the first `count` entries of a mapping are written as:
/// each entry that is the first with its key gives a pair of its key, as a
/// string, and its value.
pub open spec fn yaml_entries(entries: Seq<(Seq<char>, TreeModel)>, count: nat) -> Seq<
    (YamlModel, YamlModel),
>
    decreases entries, count,
{
    if count == 0 || count > entries.len() {
        Seq::empty()
    } else {
        let init = yaml_entries(entries, (count - 1) as nat);
        if is_first(entries, entries[count - 1].0, count - 1) {
            init.push((YamlModel::Text(entries[count - 1].0), yaml_of_tree(entries[count - 1].1)))
        } else {
            init
        }
    }
}

/// The `serde_yaml::Value` that the tree `json` is written as.
pub fn json_to_yaml(json: &Tree) -> (yaml: serde_yaml::Value)
    ensures
        yaml_model(yaml) == yaml_of_tree(json@),
    decreases json,
{
    match json {
        Tree::Null => yaml_close(YamlShape::Null),
        Tree::Bool(b) => yaml_close(YamlShape::Bool(*b)),
        Tree::Int(i) => yaml_close(YamlShape::Signed(*i)),
        Tree::UInt(u) => yaml_close(YamlShape::Unsigned(*u)),
        Tree::Float(text) => yaml_close(YamlShape::Float(text.clone())),
        Tree::Text(text) => yaml_close(YamlShape::Text(text.clone())),
        Tree::Sequence(items) => {
            let mut out: Vec<serde_yaml::Value> = Vec::new();
            let mut i: usize = 0;
            proof {
                lemma_sequence_view(*items);
            }
            while i < items.len()
                invariant
                    i <= items.len(),
                    out.len() == i,
                    json is Sequence,
                    json->Sequence_0 == *items,
                    forall|k: int| 0 <= k < i ==> yaml_model(out@[k]) == yaml_of_tree(items@[k]@),
                decreases items.len() - i,
            {
                assert(decreases_to!(json => json->Sequence_0));
                assert(decreases_to!(*items => items[i as int]));
                let item = json_to_yaml(&items[i]);
                out.push(item);
                i += 1;
            }
            let ghost shape = YamlShape::Sequence(out);
            let value = yaml_close(YamlShape::Sequence(out));
            assert(shape_model(shape)->Sequence_0 =~= yaml_of_tree(json@)->Sequence_0);
            value
        },
        Tree::Mapping(entries) => {
            let ghost model = entries_model(entries@);
            let ghost mut origins: Seq<int> = Seq::empty();
            let mut out: Vec<(serde_yaml::Value, serde_yaml::Value)> = Vec::new();
            let mut i: usize = 0;
            proof {
                lemma_mapping_view(*entries);
            }
            while i < entries.len()
                invariant
                    i <= entries.len(),
                    json is Mapping,
                    json->Mapping_0 == *entries,
                    model == entries_model(entries@),
                    origins.len() == out.len(),
                    out.len() == yaml_entries(model, i as nat).len(),
                    forall|k: int|
                        0 <= k < out.len() ==> {
                            &&& 0 <= #[trigger] origins[k] < i
                            &&& is_first(model, model[origins[k]].0, origins[k])
                            &&& yaml_model(out@[k].0) == YamlModel::Text(model[origins[k]].0)
                            &&& yaml_entries(model, i as nat)[k] == (
                                yaml_model(out@[k].0),
                                yaml_model(out@[k].1),
                            )
                        },
                    forall|a: int, b: int|
                        0 <= a < b < out.len() ==> #[trigger] origins[a] < #[trigger] origins[b],
                decreases entries.len() - i,
            {
                assert(decreases_to!(json => json->Mapping_0));
                assert(decreases_to!(*entries => entries[i as int]));
                let first = find_key(entries, entries[i].0.as_str());
                let ghost before = yaml_entries(model, i as nat);
                let keep = match first {
                    Some(f) => f == i,
                    None => false,
                };
                proof {
                    if first is Some {
                        lemma_first_is_unique(model, model[i as int].0, first->0 as int);
                        if is_first(model, model[i as int].0, i as int) {
                            lemma_first_is_unique(model, model[i as int].0, i as int);
                        }
                    }
                    assert(keep == is_first(model, model[i as int].0, i as int));
                }
                if keep {
                    let key = yaml_close(YamlShape::Text(entries[i].0.clone()));
                    let value = json_to_yaml(&entries[i].1);
                    out.push((key, value));
                    proof {
                        origins = origins.push(i as int);
                        assert(yaml_entries(model, (i + 1) as nat) == before.push(
                            (YamlModel::Text(model[i as int].0), yaml_of_tree(model[i as int].1)),
                        ));
                    }
                } else {
                    proof {
                        assert(yaml_entries(model, (i + 1) as nat) == before);
                    }
                }
                i += 1;
            }
            let ghost shape = YamlShape::Mapping(out);
            proof {
                assert forall|k: int| 0 <= k < out@.len() implies yaml_model(
                    #[trigger] out@[k].0,
                ) is Text by {
                    assert(0 <= origins[k] < i);
                }
                assert forall|a: int, b: int| 0 <= a < b < out@.len() implies yaml_model(
                    #[trigger] out@[a].0,
                ) != yaml_model(#[trigger] out@[b].0) by {
                    assert(origins[a] < origins[b]);
                    if model[origins[a]].0 == model[origins[b]].0 {
                        assert(is_first(model, model[origins[b]].0, origins[b]));
                        assert(model[origins[a]].0 != model[origins[b]].0);
                    }
                }
                assert(has_distinct_text_keys(out@));
            }
            let value = yaml_close(YamlShape::Mapping(out));
            proof {
                let made = shape_model(shape)->Mapping_0;
                let wanted = yaml_entries(model, model.len());
                assert(made.len() == wanted.len());
                assert forall|k: int| 0 <= k < made.len() implies made[k] == wanted[k] by {
                    assert(0 <= origins[k] < i);
                }
                assert(made =~= wanted);
            }
            value
        },
    }
}

/// The document that a patch is saved as: a mapping with the one key
/// `patch`, which holds the patch.
pub open spec fn patch_document(patch: TreeModel) -> YamlModel {
    YamlModel::Mapping(seq![(YamlModel::Text("patch"@), yaml_of_tree(patch))])
}

/// The text that stands for an empty patch.
pub open spec fn empty_patch_text() -> Seq<char> {
    "patch: {}\n"@
}

/// The text that is saved for what the writer crate returned: its text, or
/// the text of an empty patch where it reported an error.
pub fn written_or_empty_patch(written: Option<String>) -> (text: String)
    ensures
        text@ == match written {
            Some(s) => s@,
            None => empty_patch_text(),
        },
{
    match written {
        Some(s) => s,
        None => String::from_str("patch: {}\n"),
    }
}

/// The text that the patch `patch` is saved as.
pub open spec fn patch_text(patch: TreeModel) -> Seq<char> {
    match yaml_text(patch_document(patch)) {
        Some(text) => text,
        None => empty_patch_text(),
    }
}

/// Writes `patch` as the YAML text of a custom file: one mapping with the
/// key `patch`. Where the writer crate reports an error, the text of an
/// empty patch is returned.
pub fn serialize_patch(patch: &Tree) -> (text: String)
    ensures
        text@ == patch_text(patch@),
{
    let body = json_to_yaml(patch);
    let key = yaml_close(YamlShape::Text(String::from_str("patch")));
    let mut entries: Vec<(serde_yaml::Value, serde_yaml::Value)> = Vec::new();
    entries.push((key, body));
    let ghost shape = YamlShape::Mapping(entries);
    let wrapper = yaml_close(YamlShape::Mapping(entries));
    assert(shape_model(shape)->Mapping_0 =~= patch_document(patch@)->Mapping_0);
    written_or_empty_patch(yaml_to_string(&wrapper))
}

} // verus!
