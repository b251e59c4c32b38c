//! What holds of every tree that is read from a YAML document: a mapping
//! has no key twice, and a float is finite.

use crate::round_trip::keys_differ;
use crate::tree::{
    first_index, has_key, inserted, is_first, lemma_key_present, TreeModel,
};
use crate::yaml_utils::{
    is_finite_text, key_text, parsed_tree, tree_entries, tree_of_yaml, yaml_document, YamlModel,
};
use vstd::prelude::*;

verus! {

/// Whether no mapping in `tree`, at any depth, has a key twice, and every
/// float in it is finite.
pub open spec fn is_regular(tree: TreeModel) -> bool
    decreases tree,
{
    match tree {
        TreeModel::Float(text) => is_finite_text(text),
        TreeModel::Sequence(items) => forall|i: int|
            0 <= i < items.len() ==> is_regular(#[trigger] items[i]),
        TreeModel::Mapping(entries) => keys_differ(entries) && forall|i: int|
            0 <= i < entries.len() ==> is_regular((#[trigger] entries[i]).1),
        _ => true,
    }
}

/// Whether the keys of `entries` differ and their values are regular.
pub open spec fn are_regular(entries: Seq<(Seq<char>, TreeModel)>) -> bool {
    keys_differ(entries) && forall|i: int|
        0 <= i < entries.len() ==> is_regular((#[trigger] entries[i]).1)
}

/// Setting a key to a regular value keeps regular entries regular.
proof fn lemma_inserted_is_regular(
    entries: Seq<(Seq<char>, TreeModel)>,
    key: Seq<char>,
    value: TreeModel,
)
    requires
        are_regular(entries),
        is_regular(value),
    ensures
        are_regular(inserted(entries, key, value)),
{
    let after = inserted(entries, key, value);
    if has_key(entries, key) {
        let at = first_index(entries, key);
        assert(is_first(entries, key, at));
        assert forall|i: int, j: int| 0 <= i < j < after.len() implies (#[trigger] after[i]).0 != (
        #[trigger] after[j]).0 by {
            assert(after[i].0 == entries[i].0);
            assert(after[j].0 == entries[j].0);
        }
        assert forall|i: int| 0 <= i < after.len() implies is_regular((#[trigger] after[i]).1) by {
            if i != at {
                assert(after[i] == entries[i]);
            }
        }
    } else {
        assert forall|i: int, j: int| 0 <= i < j < after.len() implies (#[trigger] after[i]).0 != (
        #[trigger] after[j]).0 by {
            if j == entries.len() {
                assert(after[i] == entries[i]);
                if entries[i].0 == key {
                    lemma_key_present(entries, key, i);
                }
            } else {
                assert(after[i] == entries[i]);
                assert(after[j] == entries[j]);
            }
        }
        assert forall|i: int| 0 <= i < after.len() implies is_regular((#[trigger] after[i]).1) by {
            if i < entries.len() {
                assert(after[i] == entries[i]);
            }
        }
    }
}

/// The entries read from the pairs of a YAML mapping are regular.
proof fn lemma_read_entries_are_regular(entries: Seq<(YamlModel, YamlModel)>, count: nat)
    ensures
        are_regular(tree_entries(entries, count)),
    decreases entries, count,
{
    if count == 0 || count > entries.len() {
    } else {
        lemma_read_entries_are_regular(entries, (count - 1) as nat);
        let init = tree_entries(entries, (count - 1) as nat);
        match key_text(entries[count - 1].0) {
            Some(key) => {
                lemma_read_tree_is_regular(entries[count - 1].1);
                lemma_inserted_is_regular(init, key, tree_of_yaml(entries[count - 1].1));
            },
            None => {},
        }
    }
}

/// A tree that is read from a YAML document is regular: whatever the
/// document, no mapping of the tree has a key twice and no float of it is
/// infinite or not a number.
pub proof fn lemma_read_tree_is_regular(yaml: YamlModel)
    ensures
        is_regular(tree_of_yaml(yaml)),
    decreases yaml, 0nat,
{
    match yaml {
        YamlModel::Sequence(items) => {
            assert forall|i: int| 0 <= i < items.len() implies is_regular(
                #[trigger] tree_of_yaml(yaml)->Sequence_0[i],
            ) by {
                lemma_read_tree_is_regular(items[i]);
            }
        },
        YamlModel::Mapping(entries) => {
            lemma_read_entries_are_regular(entries, entries.len());
        },
        YamlModel::Tagged(_, inner) => {
            lemma_read_tree_is_regular(*inner);
        },
        _ => {},
    }
}

/// A tree that is read from a text is regular, whatever the text.
pub proof fn lemma_parsed_tree_is_regular(text: Seq<char>)
    ensures
        is_regular(parsed_tree(text)),
{
    match yaml_document(text) {
        Some(document) => lemma_read_tree_is_regular(document),
        None => {},
    }
}

} // verus!
