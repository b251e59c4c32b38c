//! The generic configuration tree: the common shape through which YAML
//! documents are read, inspected and written back.

use vstd::prelude::*;

verus! {

/// A configuration value.
///
/// Integers are held in `Int` when they fit the signed range and in `UInt`
/// above it; both stand for the same mathematical integers. A number with a
/// fraction or an exponent is held as its decimal text. A mapping is a list
/// of entries in document order; where a key occurs twice, the first entry
/// is the one that counts.
#[derive(Debug, PartialEq)]
pub enum Tree {
    Null,
    Bool(bool),
    Int(i64),
    UInt(u64),
    Float(String),
    Text(String),
    Sequence(Vec<Tree>),
    Mapping(Vec<(String, Tree)>),
}

/// The mathematical value of a [`Tree`].
pub enum TreeModel {
    Null,
    Bool(bool),
    Integer(int),
    Float(Seq<char>),
    Text(Seq<char>),
    Sequence(Seq<TreeModel>),
    Mapping(Seq<(Seq<char>, TreeModel)>),
}

impl View for Tree {
    type V = TreeModel;

    open spec fn view(&self) -> TreeModel
        decreases self,
    {
        match self {
            Tree::Null => TreeModel::Null,
            Tree::Bool(b) => TreeModel::Bool(*b),
            Tree::Int(i) => TreeModel::Integer(*i as int),
            Tree::UInt(u) => TreeModel::Integer(*u as int),
            Tree::Float(text) => TreeModel::Float(text@),
            Tree::Text(text) => TreeModel::Text(text@),
            Tree::Sequence(items) => TreeModel::Sequence(
                Seq::new(
                    items@.len(),
                    |i: int|
                        if 0 <= i < items@.len() {
                            items@[i]@
                        } else {
                            TreeModel::Null
                        },
                ),
            ),
            Tree::Mapping(entries) => {
                let keys = Seq::new(entries@.len(), |i: int| entries@[i].0@);
                let values = Seq::new(
                    entries@.len(),
                    |i: int|
                        if 0 <= i < entries@.len() {
                            entries@[i].1@
                        } else {
                            TreeModel::Null
                        },
                );
                TreeModel::Mapping(Seq::new(entries@.len(), |i: int| (keys[i], values[i])))
            },
        }
    }
}

/// The values of a list of trees, item by item.
pub open spec fn items_model(items: Seq<Tree>) -> Seq<TreeModel> {
    Seq::new(items.len(), |i: int| items[i]@)
}

/// The values of a list of mapping entries, entry by entry.
pub open spec fn entries_model(entries: Seq<(String, Tree)>) -> Seq<(Seq<char>, TreeModel)> {
    Seq::new(entries.len(), |i: int| (entries[i].0@, entries[i].1@))
}

/// The value of a sequence is the sequence of its items' values.
pub proof fn lemma_sequence_view(items: Vec<Tree>)
    ensures
        Tree::Sequence(items)@ == TreeModel::Sequence(items_model(items@)),
{
    assert(Tree::Sequence(items)@->Sequence_0 =~= items_model(items@));
}

/// The value of a mapping is the sequence of its entries' values.
pub proof fn lemma_mapping_view(entries: Vec<(String, Tree)>)
    ensures
        Tree::Mapping(entries)@ == TreeModel::Mapping(entries_model(entries@)),
{
    assert(Tree::Mapping(entries)@->Mapping_0 =~= entries_model(entries@));
}

/// `i` is the first position in `entries` whose key is `key`.
pub open spec fn is_first<V>(entries: Seq<(Seq<char>, V)>, key: Seq<char>, i: int) -> bool {
    &&& 0 <= i < entries.len()
    &&& entries[i].0 == key
    &&& forall|j: int| 0 <= j < i ==> (#[trigger] entries[j]).0 != key
}

/// Whether some entry of `entries` has the key `key`.
pub open spec fn has_key<V>(entries: Seq<(Seq<char>, V)>, key: Seq<char>) -> bool {
    exists|i: int| is_first(entries, key, i)
}

/// The first position in `entries` whose key is `key`, where there is one.
pub open spec fn first_index<V>(entries: Seq<(Seq<char>, V)>, key: Seq<char>) -> int {
    choose|i: int| is_first(entries, key, i)
}

/// The value of the first entry whose key is `key`.
pub open spec fn lookup<V>(entries: Seq<(Seq<char>, V)>, key: Seq<char>) -> Option<V> {
    if has_key(entries, key) {
        Some(entries[first_index(entries, key)].1)
    } else {
        None
    }
}

/// There is at most one first position of a key.
pub proof fn lemma_first_is_unique<V>(entries: Seq<(Seq<char>, V)>, key: Seq<char>, i: int)
    requires
        is_first(entries, key, i),
    ensures
        has_key(entries, key),
        first_index(entries, key) == i,
        lookup(entries, key) == Some(entries[i].1),
{
    let c = first_index(entries, key);
    assert(is_first(entries, key, c));
    if c < i {
        assert(entries[c].0 != key);
    }
    if i < c {
        assert(entries[i].0 != key);
    }
}

/// A key that some entry carries is found.
pub proof fn lemma_key_present<V>(entries: Seq<(Seq<char>, V)>, key: Seq<char>, j: int)
    requires
        0 <= j < entries.len(),
        entries[j].0 == key,
    ensures
        has_key(entries, key),
        first_index(entries, key) <= j,
    decreases j,
{
    if forall|i: int| 0 <= i < j ==> (#[trigger] entries[i]).0 != key {
        assert(is_first(entries, key, j));
        lemma_first_is_unique(entries, key, j);
    } else {
        let i = choose|i: int| 0 <= i < j && (#[trigger] entries[i]).0 == key;
        lemma_key_present(entries, key, i);
    }
}

/// A key that no entry carries is not found.
pub proof fn lemma_absent_key<V>(entries: Seq<(Seq<char>, V)>, key: Seq<char>)
    requires
        forall|j: int| 0 <= j < entries.len() ==> (#[trigger] entries[j]).0 != key,
    ensures
        !has_key(entries, key),
        lookup(entries, key) is None,
{
    if has_key(entries, key) {
        let c = first_index(entries, key);
        assert(is_first(entries, key, c));
        assert(entries[c].0 != key);
    }
}

/// The entries after `key` was set to `value`: the first entry with that
/// key gets the new value and keeps its place; where there is none, a new
/// entry goes to the end.
pub open spec fn inserted<V>(entries: Seq<(Seq<char>, V)>, key: Seq<char>, value: V) -> Seq<
    (Seq<char>, V),
> {
    if has_key(entries, key) {
        entries.update(first_index(entries, key), (key, value))
    } else {
        entries.push((key, value))
    }
}

impl TreeModel {
    /// The empty mapping.
    pub open spec fn empty_mapping() -> TreeModel {
        TreeModel::Mapping(Seq::empty())
    }

    /// The child under `key`, if this is a mapping that has one.
    pub open spec fn get(self, key: Seq<char>) -> Option<TreeModel> {
        match self {
            TreeModel::Mapping(entries) => lookup(entries, key),
            _ => None,
        }
    }

    /// The text of a string value.
    pub open spec fn as_text(self) -> Option<Seq<char>> {
        match self {
            TreeModel::Text(text) => Some(text),
            _ => None,
        }
    }

    /// The items of a sequence.
    pub open spec fn as_sequence(self) -> Option<Seq<TreeModel>> {
        match self {
            TreeModel::Sequence(items) => Some(items),
            _ => None,
        }
    }

    /// An integer that fits the signed 64-bit range.
    pub open spec fn as_i64(self) -> Option<i64> {
        match self {
            TreeModel::Integer(n) if i64::MIN <= n <= i64::MAX => Some(n as i64),
            _ => None,
        }
    }

    /// An integer that fits the unsigned 64-bit range.
    pub open spec fn as_u64(self) -> Option<u64> {
        match self {
            TreeModel::Integer(n) if 0 <= n <= u64::MAX => Some(n as u64),
            _ => None,
        }
    }
}

/// What an optional tree holds.
pub open spec fn child_model(child: Option<&Tree>) -> Option<TreeModel> {
    match child {
        Some(tree) => Some(tree@),
        None => None,
    }
}

/// The text of a string value; empty for a value that is missing or no
/// string.
pub open spec fn text_under(value: Option<TreeModel>) -> Seq<char> {
    match value {
        Some(TreeModel::Text(text)) => text,
        _ => Seq::empty(),
    }
}

/// The text of the string `value`, or the empty string.
pub fn text_of(value: Option<&Tree>) -> (out: String)
    ensures
        out@ == text_under(child_model(value)),
{
    match value {
        Some(tree) => match tree.as_text() {
            Some(text) => text.clone(),
            None => String::new(),
        },
        None => String::new(),
    }
}

/// Position of the first entry of `entries` whose key is `key`.
pub fn find_key(entries: &Vec<(String, Tree)>, key: &str) -> (found: Option<usize>)
    ensures
        match found {
            Some(i) => is_first(entries_model(entries@), key@, i as int),
            None => !has_key(entries_model(entries@), key@),
        },
{
    let wanted = String::from_str(key);
    let mut i: usize = 0;
    while i < entries.len()
        invariant
            i <= entries.len(),
            wanted@ == key@,
            forall|j: int| 0 <= j < i ==> (#[trigger] entries_model(entries@)[j]).0 != key@,
        decreases entries.len() - i,
    {
        if entries[i].0 == wanted {
            return Some(i);
        }
        i += 1;
    }
    proof {
        lemma_absent_key(entries_model(entries@), key@);
    }
    None
}

/// Whether every integer of the tree that fits the signed range is held
/// as `Int`: `UInt` is for the integers above it alone.
pub open spec fn is_normal(tree: Tree) -> bool
    decreases tree,
{
    match tree {
        Tree::UInt(u) => u > i64::MAX,
        Tree::Sequence(items) => forall|i: int|
            0 <= i < items@.len() ==> is_normal(#[trigger] items@[i]),
        Tree::Mapping(entries) => all_normal(entries@),
        _ => true,
    }
}

/// Whether the values of `entries` are normal.
pub open spec fn all_normal(entries: Seq<(String, Tree)>) -> bool
    decreases entries,
{
    forall|i: int| 0 <= i < entries.len() ==> is_normal((#[trigger] entries[i]).1)
}

/// Sets `key` to `value` in `entries`: replaces the value of the first
/// entry with that key, or adds a new entry at the end.
pub fn insert_entry(entries: &mut Vec<(String, Tree)>, key: String, value: Tree)
    ensures
        entries_model(final(entries)@) == inserted(entries_model(old(entries)@), key@, value@),
        all_normal(old(entries)@) && is_normal(value) ==> all_normal(final(entries)@),
{
    let found = find_key(entries, key.as_str());
    match found {
        Some(i) => {
            proof {
                lemma_first_is_unique(entries_model(entries@), key@, i as int);
            }
            entries.set(i, (key, value));
            assert(entries_model(entries@) =~= inserted(
                entries_model(old(entries)@),
                key@,
                value@,
            ));
        },
        None => {
            entries.push((key, value));
            assert(entries_model(entries@) =~= inserted(
                entries_model(old(entries)@),
                key@,
                value@,
            ));
        },
    }
}

/// Whether `kept` lists, in rising order, exactly the positions of the
/// entries that are the first with their key.
pub open spec fn lists_first_positions<V>(entries: Seq<(Seq<char>, V)>, kept: Seq<int>) -> bool {
    &&& forall|k: int|
        0 <= k < kept.len() ==> 0 <= #[trigger] kept[k] < entries.len() && is_first(
            entries,
            entries[kept[k]].0,
            kept[k],
        )
    &&& forall|a: int, b: int| 0 <= a < b < kept.len() ==> #[trigger] kept[a] < #[trigger] kept[b]
    &&& forall|j: int|
        0 <= j < entries.len() && is_first(entries, (#[trigger] entries[j]).0, j) ==> kept.contains(
            j,
        )
}

/// The positions of a list of indices.
pub open spec fn positions_of(kept: Seq<usize>) -> Seq<int> {
    Seq::new(kept.len(), |i: int| kept[i] as int)
}

/// The positions of the entries that are the first with their key, in
/// rising order.
pub fn first_positions(entries: &Vec<(String, Tree)>) -> (kept: Vec<usize>)
    ensures
        lists_first_positions(entries_model(entries@), positions_of(kept@)),
{
    let ghost model = entries_model(entries@);
    let mut kept: Vec<usize> = Vec::new();
    let mut i: usize = 0;
    while i < entries.len()
        invariant
            i <= entries.len(),
            model == entries_model(entries@),
            forall|k: int|
                0 <= k < kept.len() ==> 0 <= #[trigger] kept@[k] < i && is_first(
                    model,
                    model[kept@[k] as int].0,
                    kept@[k] as int,
                ),
            forall|a: int, b: int|
                0 <= a < b < kept.len() ==> #[trigger] kept@[a] < #[trigger] kept@[b],
            forall|j: int|
                0 <= j < i && is_first(model, (#[trigger] model[j]).0, j) ==> positions_of(
                    kept@,
                ).contains(j),
        decreases entries.len() - i,
    {
        let first = find_key(entries, entries[i].0.as_str());
        let keep = match first {
            Some(f) => f == i,
            None => false,
        };
        proof {
            if first is Some {
                lemma_first_is_unique(model, model[i as int].0, first->0 as int);
                if is_first(model, model[i as int].0, i as int) {
                    lemma_first_is_unique(model, model[i as int].0, i as int);
                }
            }
            assert(keep == is_first(model, model[i as int].0, i as int));
        }
        let ghost before = positions_of(kept@);
        if keep {
            kept.push(i);
        }
        proof {
            let after = positions_of(kept@);
            assert forall|j: int|
                0 <= j < i + 1 && is_first(model, (#[trigger] model[j]).0, j) implies after.contains(
                j,
            ) by {
                if j < i {
                    assert(before.contains(j));
                    let a = choose|a: int| 0 <= a < before.len() && before[a] == j;
                    assert(after[a] == j);
                } else {
                    assert(after[after.len() - 1] == j);
                }
            }
        }
        i += 1;
    }
    proof {
        let positions = positions_of(kept@);
        assert forall|k: int| 0 <= k < positions.len() implies 0 <= #[trigger] positions[k]
            < model.len() && is_first(model, model[positions[k]].0, positions[k]) by {
            assert(positions[k] == kept@[k]);
        }
        assert forall|a: int, b: int| 0 <= a < b < positions.len() implies #[trigger] positions[a]
            < #[trigger] positions[b] by {
            assert(kept@[a] < kept@[b]);
        }
    }
    kept
}

impl Tree {
    /// The empty mapping.
    pub fn empty_mapping() -> (tree: Tree)
        ensures
            tree@ == TreeModel::empty_mapping(),
    {
        let entries: Vec<(String, Tree)> = Vec::new();
        proof {
            lemma_mapping_view(entries);
            assert(entries_model(entries@) =~= Seq::empty());
        }
        Tree::Mapping(entries)
    }

    /// The child under `key`, if this is a mapping that has one.
    pub fn get(&self, key: &str) -> (found: Option<&Tree>)
        ensures
            match found {
                Some(child) => self@.get(key@) == Some(child@),
                None => self@.get(key@) is None,
            },
    {
        match self {
            Tree::Mapping(entries) => {
                proof {
                    lemma_mapping_view(*entries);
                }
                match find_key(entries, key) {
                    Some(i) => {
                        proof {
                            lemma_first_is_unique(entries_model(entries@), key@, i as int);
                        }
                        Some(&entries[i].1)
                    },
                    None => None,
                }
            },
            _ => None,
        }
    }

    /// The text of a string value.
    pub fn as_text(&self) -> (text: Option<&String>)
        ensures
            match text {
                Some(s) => self@.as_text() == Some(s@),
                None => self@.as_text() is None,
            },
    {
        match self {
            Tree::Text(s) => Some(s),
            _ => None,
        }
    }

    /// The items of a sequence.
    pub fn as_sequence(&self) -> (items: Option<&Vec<Tree>>)
        ensures
            match items {
                Some(v) => self@.as_sequence() == Some(items_model(v@)),
                None => self@.as_sequence() is None,
            },
    {
        match self {
            Tree::Sequence(v) => {
                proof {
                    lemma_sequence_view(*v);
                }
                Some(v)
            },
            _ => None,
        }
    }

    /// An integer that fits the signed 64-bit range.
    pub fn as_i64(&self) -> (n: Option<i64>)
        ensures
            n == self@.as_i64(),
    {
        match self {
            Tree::Int(i) => Some(*i),
            Tree::UInt(u) => if *u <= 0x7fff_ffff_ffff_ffff {
                Some(*u as i64)
            } else {
                None
            },
            _ => None,
        }
    }

    /// An integer that fits the unsigned 64-bit range.
    pub fn as_u64(&self) -> (n: Option<u64>)
        ensures
            n == self@.as_u64(),
    {
        match self {
            Tree::UInt(u) => Some(*u),
            Tree::Int(i) => if *i >= 0 {
                Some(*i as u64)
            } else {
                None
            },
            _ => None,
        }
    }
}

impl Clone for Tree {
    /// A copy of the whole tree.
    fn clone(&self) -> (copy: Tree)
        ensures
            copy@ == self@,
        decreases self,
    {
        match self {
            Tree::Null => Tree::Null,
            Tree::Bool(b) => Tree::Bool(*b),
            Tree::Int(i) => Tree::Int(*i),
            Tree::UInt(u) => Tree::UInt(*u),
            Tree::Float(text) => Tree::Float(text.clone()),
            Tree::Text(text) => Tree::Text(text.clone()),
            Tree::Sequence(items) => {
                let mut out: Vec<Tree> = Vec::new();
                let mut i: usize = 0;
                while i < items.len()
                    invariant
                        i <= items.len(),
                        out.len() == i,
                        self is Sequence,
                        self->Sequence_0 == *items,
                        forall|k: int| 0 <= k < i ==> out@[k]@ == items@[k]@,
                    decreases items.len() - i,
                {
                    assert(decreases_to!(self => self->Sequence_0));
                    assert(decreases_to!(*items => items[i as int]));
                    let item = items[i].clone();
                    out.push(item);
                    i += 1;
                }
                proof {
                    lemma_sequence_view(out);
                    lemma_sequence_view(*items);
                    assert(items_model(out@) =~= items_model(items@));
                }
                Tree::Sequence(out)
            },
            Tree::Mapping(entries) => {
                let mut out: Vec<(String, Tree)> = Vec::new();
                let mut i: usize = 0;
                while i < entries.len()
                    invariant
                        i <= entries.len(),
                        out.len() == i,
                        self is Mapping,
                        self->Mapping_0 == *entries,
                        forall|k: int|
                            0 <= k < i ==> out@[k].0@ == entries@[k].0@ && out@[k].1@
                                == entries@[k].1@,
                    decreases entries.len() - i,
                {
                    assert(decreases_to!(self => self->Mapping_0));
                    assert(decreases_to!(*entries => entries[i as int]));
                    let value = entries[i].1.clone();
                    out.push((entries[i].0.clone(), value));
                    i += 1;
                }
                proof {
                    lemma_mapping_view(out);
                    lemma_mapping_view(*entries);
                    assert(entries_model(out@) =~= entries_model(entries@));
                }
                Tree::Mapping(out)
            },
        }
    }
}

} // verus!
