//! What is saved can be read back: the laws that tie writing a patch to
//! reading it.

use crate::reader::{patch_of, patch_of_document};
use crate::tree::{inserted, is_first, lemma_absent_key, lemma_first_is_unique, TreeModel};
use crate::yaml_utils::{
    patch_document, patch_text, tree_entries, tree_of_yaml, yaml_document, yaml_entries,
    yaml_of_tree, yaml_text, YamlModel,
};
use vstd::prelude::*;

verus! {

/// Whether no two of `entries` have the same key.
pub open spec fn keys_differ(entries: Seq<(Seq<char>, TreeModel)>) -> bool {
    forall|i: int, j: int|
        0 <= i < j < entries.len() ==> (#[trigger] entries[i]).0 != (#[trigger] entries[j]).0
}

/// Whether `tree` is made of null, booleans, integers, strings, sequences
/// and mappings alone, and no mapping in it has a key twice.
pub open spec fn is_plain(tree: TreeModel) -> bool
    decreases tree,
{
    match tree {
        TreeModel::Float(_) => false,
        TreeModel::Sequence(items) => forall|i: int|
            0 <= i < items.len() ==> is_plain(#[trigger] items[i]),
        TreeModel::Mapping(entries) => keys_differ(entries) && forall|i: int|
            0 <= i < entries.len() ==> is_plain((#[trigger] entries[i]).1),
        _ => true,
    }
}

/// Every entry of a mapping without a double key is written, in order.
proof fn lemma_all_entries_written(entries: Seq<(Seq<char>, TreeModel)>, count: nat)
    requires
        keys_differ(entries),
        count <= entries.len(),
    ensures
        yaml_entries(entries, count).len() == count,
        forall|i: int|
            0 <= i < count ==> #[trigger] yaml_entries(entries, count)[i] == (
                YamlModel::Text(entries[i].0),
                yaml_of_tree(entries[i].1),
            ),
    decreases count,
{
    if count > 0 {
        lemma_all_entries_written(entries, (count - 1) as nat);
        let last = count - 1;
        assert(is_first(entries, entries[last].0, last)) by {
            assert forall|j: int| 0 <= j < last implies (#[trigger] entries[j]).0
                != entries[last].0 by {}
        }
    }
}

/// The pairs written for a plain mapping read back as its entries.
proof fn lemma_entries_read_back(
    entries: Seq<(Seq<char>, TreeModel)>,
    pairs: Seq<(YamlModel, YamlModel)>,
    count: nat,
)
    requires
        keys_differ(entries),
        count <= entries.len(),
        pairs.len() == entries.len(),
        forall|i: int|
            0 <= i < entries.len() ==> {
                &&& (#[trigger] pairs[i]).0 == YamlModel::Text(entries[i].0)
                &&& tree_of_yaml(pairs[i].1) == entries[i].1
            },
    ensures
        tree_entries(pairs, count) == entries.take(count as int),
    decreases count,
{
    if count == 0 {
        assert(tree_entries(pairs, count) =~= entries.take(0));
    } else {
        lemma_entries_read_back(entries, pairs, (count - 1) as nat);
        let last = count - 1;
        let init = entries.take(last);
        let key = entries[last].0;
        assert(pairs[last].0 == YamlModel::Text(key));
        assert forall|j: int| 0 <= j < init.len() implies (#[trigger] init[j]).0 != key by {
            assert(init[j] == entries[j]);
        }
        lemma_absent_key(init, key);
        assert(inserted(init, key, entries[last].1) == init.push((key, entries[last].1)));
        assert(init.push(entries[last]) =~= entries.take(count as int));
    }
}

/// A plain tree that is written as a YAML document reads back as itself.
pub proof fn lemma_tree_round_trip(tree: TreeModel)
    requires
        is_plain(tree),
    ensures
        tree_of_yaml(yaml_of_tree(tree)) == tree,
    decreases tree,
{
    match tree {
        TreeModel::Sequence(items) => {
            assert forall|i: int| 0 <= i < items.len() implies tree_of_yaml(
                yaml_of_tree(items[i]),
            ) == items[i] by {
                assert(is_plain(items[i]));
                lemma_tree_round_trip(items[i]);
            }
            assert(tree_of_yaml(yaml_of_tree(tree))->Sequence_0 =~= items);
        },
        TreeModel::Mapping(entries) => {
            let pairs = yaml_entries(entries, entries.len());
            lemma_all_entries_written(entries, entries.len());
            assert forall|i: int| 0 <= i < entries.len() implies {
                &&& (#[trigger] pairs[i]).0 == YamlModel::Text(entries[i].0)
                &&& tree_of_yaml(pairs[i].1) == entries[i].1
            } by {
                assert(is_plain(entries[i].1));
                lemma_tree_round_trip(entries[i].1);
            }
            lemma_entries_read_back(entries, pairs, entries.len());
            assert(entries.take(entries.len() as int) =~= entries);
        },
        _ => {},
    }
}

/// The document that a plain mapping is saved as holds it as its patch.
pub proof fn lemma_patch_document_round_trip(patch: TreeModel)
    requires
        patch is Mapping,
        is_plain(patch),
    ensures
        patch_of(tree_of_yaml(patch_document(patch))) == patch,
{
    lemma_tree_round_trip(patch);
    let pairs = patch_document(patch)->Mapping_0;
    let key = "patch"@;
    assert(pairs[0] == (YamlModel::Text(key), yaml_of_tree(patch)));
    assert(tree_entries(pairs, 0) =~= Seq::<(Seq<char>, TreeModel)>::empty());
    lemma_absent_key(tree_entries(pairs, 0), key);
    let entries = tree_entries(pairs, 1);
    assert(entries =~= seq![(key, patch)]);
    assert(is_first(entries, key, 0));
    lemma_first_is_unique(entries, key, 0);
}

/// Saving a plain mapping and reading the saved text gives the mapping
/// back, wherever the YAML crate reads the text that it wrote for the
/// document as that document.
pub proof fn lemma_saved_patch_reads_back(patch: TreeModel)
    requires
        patch is Mapping,
        is_plain(patch),
    ensures
        yaml_text(patch_document(patch)) is Some && yaml_document(
            yaml_text(patch_document(patch))->0,
        ) == Some(patch_document(patch)) ==> patch_of_document(yaml_document(patch_text(patch)))
            == patch,
{
    lemma_patch_document_round_trip(patch);
}

} // verus!
