//! Keeps the colours of the appearance file readable: an integer under one
//! of the known colour keys is shown as a `0x` hexadecimal string.

use crate::text::{digit_char, names_of, push_upper_hex, upper_hex};
use crate::tree::{entries_model, items_model, lemma_mapping_view, lemma_sequence_view, Tree, TreeModel};
use vstd::prelude::*;

verus! {

/// The names under which the appearance file holds a colour.
pub open spec fn color_key_names() -> Seq<Seq<char>> {
    seq![
        "back_color"@,
        "border_color"@,
        "text_color"@,
        "hilited_text_color"@,
        "hilited_back_color"@,
        "hilited_candidate_text_color"@,
        "hilited_candidate_back_color"@,
        "hilited_candidate_label_color"@,
        "hilited_comment_text_color"@,
        "candidate_text_color"@,
        "candidate_back_color"@,
        "comment_text_color"@,
        "label_color"@,
        "preedit_back_color"@,
    ]
}

/// The colour key names, as strings.
pub fn bgr_color_keys() -> (keys: Vec<String>)
    ensures
        names_of(keys@) == color_key_names(),
{
    let mut keys: Vec<String> = Vec::new();
    keys.push(String::from_str("back_color"));
    keys.push(String::from_str("border_color"));
    keys.push(String::from_str("text_color"));
    keys.push(String::from_str("hilited_text_color"));
    keys.push(String::from_str("hilited_back_color"));
    keys.push(String::from_str("hilited_candidate_text_color"));
    keys.push(String::from_str("hilited_candidate_back_color"));
    keys.push(String::from_str("hilited_candidate_label_color"));
    keys.push(String::from_str("hilited_comment_text_color"));
    keys.push(String::from_str("candidate_text_color"));
    keys.push(String::from_str("candidate_back_color"));
    keys.push(String::from_str("comment_text_color"));
    keys.push(String::from_str("label_color"));
    keys.push(String::from_str("preedit_back_color"));
    assert(names_of(keys@) =~= color_key_names());
    keys
}

/// `count` zeros.
pub open spec fn zeros(count: int) -> Seq<char> {
    Seq::new(
        if count > 0 {
            count as nat
        } else {
            0
        },
        |i: int| '0',
    )
}

/// The least number of hexadecimal digits a colour is written with: six
/// where it fits 24 bits, eight above.
pub open spec fn color_width(n: nat) -> int {
    if n < 0x100_0000 {
        6
    } else {
        8
    }
}

/// The string that shows the colour `n`: `0x`, then the capital
/// hexadecimal digits of `n`, with zeros in front up to the width.
pub open spec fn color_text(n: nat) -> Seq<char> {
    "0x"@ + zeros(color_width(n) - upper_hex(n).len()) + upper_hex(n)
}

/// The string that shows the colour `n`.
pub fn color_string(n: u64) -> (out: String)
    ensures
        out@ == color_text(n as nat),
{
    let mut hex = String::new();
    push_upper_hex(&mut hex, n);
    assert(hex@ =~= upper_hex(n as nat));
    let len: usize = hex.as_str().unicode_len();
    let width: usize = if n < 0x100_0000 {
        6
    } else {
        8
    };
    let mut out = String::from_str("0x");
    let mut k: usize = len;
    while k < width
        invariant
            len <= k,
            len < width ==> k <= width,
            len >= width ==> k == len,
            out@ == "0x"@ + zeros(k - len),
        decreases width - k,
    {
        out.push('0');
        assert(zeros(k - len).push('0') =~= zeros(k + 1 - len));
        assert(out@ =~= "0x"@ + zeros(k + 1 - len));
        k += 1;
    }
    assert(zeros(k - len) =~= zeros(width - len));
    out.append(hex.as_str());
    out
}

/// Whether the entry `key: value` is one that holds a colour as an
/// unsigned integer.
pub open spec fn holds_color(key: Seq<char>, value: TreeModel, keys: Seq<Seq<char>>) -> bool {
    keys.contains(key) && value.as_u64() is Some
}

/// The tree with every colour integer shown as a colour string: in every
/// mapping, at any depth, the value of an entry that holds a colour is
/// replaced by its colour string; every other value is rewritten in turn.
pub open spec fn with_colors(tree: TreeModel, keys: Seq<Seq<char>>) -> TreeModel
    decreases tree,
{
    match tree {
        TreeModel::Sequence(items) => TreeModel::Sequence(
            Seq::new(
                items.len(),
                |i: int|
                    if 0 <= i < items.len() {
                        with_colors(items[i], keys)
                    } else {
                        TreeModel::Null
                    },
            ),
        ),
        TreeModel::Mapping(entries) => {
            let values = Seq::new(
                entries.len(),
                |i: int|
                    if 0 <= i < entries.len() {
                        if holds_color(entries[i].0, entries[i].1, keys) {
                            TreeModel::Text(color_text(entries[i].1.as_u64()->0 as nat))
                        } else {
                            with_colors(entries[i].1, keys)
                        }
                    } else {
                        TreeModel::Null
                    },
            );
            TreeModel::Mapping(Seq::new(entries.len(), |i: int| (entries[i].0, values[i])))
        },
        other => other,
    }
}

/// What becomes of the value of the entry `key: value`.
pub open spec fn entry_with_colors(key: Seq<char>, value: TreeModel, keys: Seq<Seq<char>>) -> TreeModel {
    if holds_color(key, value, keys) {
        TreeModel::Text(color_text(value.as_u64()->0 as nat))
    } else {
        with_colors(value, keys)
    }
}

/// Whether `key` is one of `keys`.
fn is_listed(keys: &Vec<String>, key: &String) -> (listed: bool)
    ensures
        listed == names_of(keys@).contains(key@),
{
    let mut i: usize = 0;
    while i < keys.len()
        invariant
            i <= keys.len(),
            forall|j: int| 0 <= j < i ==> names_of(keys@)[j] != key@,
        decreases keys.len() - i,
    {
        if keys[i] == *key {
            assert(names_of(keys@)[i as int] == key@);
            return true;
        }
        i += 1;
    }
    false
}

/// Rewrites the colour integers of `val` as colour strings, at every depth.
pub fn preserve_bgr_colors(val: Tree, color_keys: &Vec<String>) -> (out: Tree)
    ensures
        out@ == with_colors(val@, names_of(color_keys@)),
    decreases val,
{
    let ghost keys = names_of(color_keys@);
    match val {
        Tree::Sequence(items) => {
            let ghost all = items;
            let mut out: Vec<Tree> = Vec::new();
            proof {
                lemma_sequence_view(all);
            }
            for item in it: items
                invariant
                    it.seq() == all@,
                    val == Tree::Sequence(all),
                    keys == names_of(color_keys@),
                    out.len() == it.index(),
                    forall|k: int| 0 <= k < it.index() ==> out@[k]@ == with_colors(all@[k]@, keys),
            {
                assert(decreases_to!(val => val->Sequence_0));
                assert(decreases_to!(all => all[it.index() as int]));
                let rewritten = preserve_bgr_colors(item, color_keys);
                out.push(rewritten);
            }
            proof {
                lemma_sequence_view(out);
                assert(items_model(out@) =~= with_colors(val@, keys)->Sequence_0);
            }
            Tree::Sequence(out)
        },
        Tree::Mapping(entries) => {
            let ghost all = entries;
            let mut out: Vec<(String, Tree)> = Vec::new();
            proof {
                lemma_mapping_view(all);
            }
            for entry in it: entries
                invariant
                    it.seq() == all@,
                    val == Tree::Mapping(all),
                    keys == names_of(color_keys@),
                    out.len() == it.index(),
                    forall|k: int|
                        0 <= k < it.index() ==> out@[k].0@ == all@[k].0@ && out@[k].1@
                            == entry_with_colors(all@[k].0@, all@[k].1@, keys),
            {
                assert(decreases_to!(val => val->Mapping_0));
                assert(decreases_to!(all => all[it.index() as int]));
                let (key, value) = entry;
                let color: Option<u64> = if is_listed(color_keys, &key) {
                    value.as_u64()
                } else {
                    None
                };
                let rewritten = match color {
                    Some(n) => Tree::Text(color_string(n)),
                    None => preserve_bgr_colors(value, color_keys),
                };
                out.push((key, rewritten));
            }
            proof {
                lemma_mapping_view(out);
                assert(entries_model(out@) =~= with_colors(val@, keys)->Mapping_0);
            }
            Tree::Mapping(out)
        },
        other => other,
    }
}

/// Whether `c` is a digit or a capital letter from `A` to `F`.
pub open spec fn is_upper_hex_digit(c: char) -> bool {
    exists|d: int| 0 <= d < 16 && c == #[trigger] digit_char(d)
}

/// Whether `s` is `0x` followed by six or more capital hexadecimal digits.
pub open spec fn is_color_literal(s: Seq<char>) -> bool {
    &&& s.len() >= 8
    &&& s[0] == '0'
    &&& s[1] == 'x'
    &&& forall|i: int| 2 <= i < s.len() ==> is_upper_hex_digit(#[trigger] s[i])
}

/// The hexadecimal writing of a number has at least one character, and all
/// of them are capital hexadecimal digits.
pub proof fn lemma_upper_hex_digits(n: nat)
    ensures
        upper_hex(n).len() >= 1,
        forall|i: int| 0 <= i < upper_hex(n).len() ==> is_upper_hex_digit(#[trigger] upper_hex(n)[i]),
    decreases n,
{
    if n < 16 {
        assert(upper_hex(n)[0] == digit_char(n as int));
    } else {
        lemma_upper_hex_digits(n / 16);
        let d = (n % 16) as int;
        assert(upper_hex(n) == upper_hex(n / 16).push(digit_char(d)));
        assert forall|i: int| 0 <= i < upper_hex(n).len() implies is_upper_hex_digit(
            #[trigger] upper_hex(n)[i],
        ) by {
            if i < upper_hex(n / 16).len() {
                assert(upper_hex(n)[i] == upper_hex(n / 16)[i]);
            } else {
                assert(upper_hex(n)[i] == digit_char(d));
            }
        }
    }
}

/// A colour string is `0x` followed by at least six capital hexadecimal
/// digits, and by at least eight where the colour does not fit 24 bits.
pub proof fn lemma_color_text_is_literal(n: nat)
    ensures
        is_color_literal(color_text(n)),
        n >= 0x100_0000 ==> color_text(n).len() >= 10,
{
    reveal_strlit("0x");
    lemma_upper_hex_digits(n);
    let hex = upper_hex(n);
    let pad = zeros(color_width(n) - hex.len());
    let s = color_text(n);
    assert(s == "0x"@ + pad + hex);
    assert(s[0] == "0x"@[0]);
    assert(s[1] == "0x"@[1]);
    assert forall|i: int| 2 <= i < s.len() implies is_upper_hex_digit(#[trigger] s[i]) by {
        if i < 2 + pad.len() {
            assert(s[i] == pad[i - 2]);
            assert(s[i] == digit_char(0));
        } else {
            assert(s[i] == hex[i - 2 - pad.len()]);
        }
    }
}

/// Colour rewriting keeps the shape of a mapping: the same keys in the same
/// order. The value of the entry at `i` becomes a colour string exactly
/// where the key is one of `keys` and the value is an unsigned integer, and
/// is otherwise the rewritten old value: no value under another key is
/// replaced.
pub proof fn lemma_with_colors_entry(entries: Seq<(Seq<char>, TreeModel)>, keys: Seq<Seq<char>>, i: int)
    requires
        0 <= i < entries.len(),
    ensures
        with_colors(TreeModel::Mapping(entries), keys) is Mapping,
        with_colors(TreeModel::Mapping(entries), keys)->Mapping_0.len() == entries.len(),
        with_colors(TreeModel::Mapping(entries), keys)->Mapping_0[i].0 == entries[i].0,
        with_colors(TreeModel::Mapping(entries), keys)->Mapping_0[i].1 == entry_with_colors(
            entries[i].0,
            entries[i].1,
            keys,
        ),
        holds_color(entries[i].0, entries[i].1, keys) ==> {
            &&& with_colors(TreeModel::Mapping(entries), keys)->Mapping_0[i].1 is Text
            &&& is_color_literal(
                with_colors(TreeModel::Mapping(entries), keys)->Mapping_0[i].1->Text_0,
            )
        },
{
    if holds_color(entries[i].0, entries[i].1, keys) {
        lemma_color_text_is_literal(entries[i].1.as_u64()->0 as nat);
    }
}

/// Colour rewriting keeps the length of a sequence and rewrites its items
/// one by one.
pub proof fn lemma_with_colors_item(items: Seq<TreeModel>, keys: Seq<Seq<char>>, i: int)
    requires
        0 <= i < items.len(),
    ensures
        with_colors(TreeModel::Sequence(items), keys) is Sequence,
        with_colors(TreeModel::Sequence(items), keys)->Sequence_0.len() == items.len(),
        with_colors(TreeModel::Sequence(items), keys)->Sequence_0[i] == with_colors(items[i], keys),
{
}

/// Whether no mapping inside `tree`, at any depth, has an entry that holds
/// a colour as an unsigned integer.
pub open spec fn shows_all_colors(tree: TreeModel, keys: Seq<Seq<char>>) -> bool
    decreases tree,
{
    match tree {
        TreeModel::Sequence(items) => forall|i: int|
            0 <= i < items.len() ==> shows_all_colors(#[trigger] items[i], keys),
        TreeModel::Mapping(entries) => forall|i: int|
            0 <= i < entries.len() ==> !holds_color(
                (#[trigger] entries[i]).0,
                entries[i].1,
                keys,
            ) && shows_all_colors(entries[i].1, keys),
        _ => true,
    }
}

/// Rewriting leaves a value that is no unsigned integer as one: it keeps
/// the kind of every value but the colour integers.
pub proof fn lemma_colors_keep_kind(value: TreeModel, keys: Seq<Seq<char>>)
    requires
        value.as_u64() is None,
    ensures
        with_colors(value, keys).as_u64() is None,
{
}

/// After the rewriting no colour integer is left, at any depth: every
/// unsigned integer under one of the keys has become a colour string.
pub proof fn lemma_no_color_integer_left(tree: TreeModel, keys: Seq<Seq<char>>)
    ensures
        shows_all_colors(with_colors(tree, keys), keys),
    decreases tree,
{
    match tree {
        TreeModel::Sequence(items) => {
            let out = with_colors(tree, keys)->Sequence_0;
            assert forall|i: int| 0 <= i < out.len() implies shows_all_colors(
                #[trigger] out[i],
                keys,
            ) by {
                lemma_no_color_integer_left(items[i], keys);
            }
        },
        TreeModel::Mapping(entries) => {
            let out = with_colors(tree, keys)->Mapping_0;
            assert forall|i: int| 0 <= i < out.len() implies !holds_color(
                (#[trigger] out[i]).0,
                out[i].1,
                keys,
            ) && shows_all_colors(out[i].1, keys) by {
                assert(out[i].0 == entries[i].0);
                assert(out[i].1 == entry_with_colors(entries[i].0, entries[i].1, keys));
                if holds_color(entries[i].0, entries[i].1, keys) {
                } else {
                    lemma_no_color_integer_left(entries[i].1, keys);
                    if keys.contains(entries[i].0) {
                        lemma_colors_keep_kind(entries[i].1, keys);
                    }
                }
            }
        },
        _ => {},
    }
}

/// A tree in which no entry holds a colour as an unsigned integer is left
/// as it is: nothing but colour integers is ever rewritten.
pub proof fn lemma_colors_change_integers_only(tree: TreeModel, keys: Seq<Seq<char>>)
    requires
        shows_all_colors(tree, keys),
    ensures
        with_colors(tree, keys) == tree,
    decreases tree,
{
    match tree {
        TreeModel::Sequence(items) => {
            assert forall|i: int| 0 <= i < items.len() implies with_colors(items[i], keys)
                == items[i] by {
                assert(shows_all_colors(items[i], keys));
                lemma_colors_change_integers_only(items[i], keys);
            }
            assert(with_colors(tree, keys)->Sequence_0 =~= items);
        },
        TreeModel::Mapping(entries) => {
            assert forall|i: int| 0 <= i < entries.len() implies entry_with_colors(
                entries[i].0,
                entries[i].1,
                keys,
            ) == entries[i].1 by {
                assert(!holds_color(entries[i].0, entries[i].1, keys) && shows_all_colors(
                    entries[i].1,
                    keys,
                ));
                lemma_colors_change_integers_only(entries[i].1, keys);
            }
            assert(with_colors(tree, keys)->Mapping_0 =~= entries);
        },
        _ => {},
    }
}

/// Rewriting twice is rewriting once.
pub proof fn lemma_colors_apply_once(tree: TreeModel, keys: Seq<Seq<char>>)
    ensures
        with_colors(with_colors(tree, keys), keys) == with_colors(tree, keys),
{
    lemma_no_color_integer_left(tree, keys);
    lemma_colors_change_integers_only(with_colors(tree, keys), keys);
}

/// Whether no mapping inside `tree`, at any depth, has a key among `keys`.
pub open spec fn free_of_keys(tree: TreeModel, keys: Seq<Seq<char>>) -> bool
    decreases tree,
{
    match tree {
        TreeModel::Sequence(items) => forall|i: int|
            0 <= i < items.len() ==> free_of_keys(#[trigger] items[i], keys),
        TreeModel::Mapping(entries) => forall|i: int|
            0 <= i < entries.len() ==> !keys.contains((#[trigger] entries[i]).0) && free_of_keys(
                entries[i].1,
                keys,
            ),
        _ => true,
    }
}

/// A tree that names none of the keys shows all colours.
proof fn lemma_free_of_keys_shows_all(tree: TreeModel, keys: Seq<Seq<char>>)
    requires
        free_of_keys(tree, keys),
    ensures
        shows_all_colors(tree, keys),
    decreases tree,
{
    match tree {
        TreeModel::Sequence(items) => {
            assert forall|i: int| 0 <= i < items.len() implies shows_all_colors(
                #[trigger] items[i],
                keys,
            ) by {
                lemma_free_of_keys_shows_all(items[i], keys);
            }
        },
        TreeModel::Mapping(entries) => {
            assert forall|i: int| 0 <= i < entries.len() implies !holds_color(
                (#[trigger] entries[i]).0,
                entries[i].1,
                keys,
            ) && shows_all_colors(entries[i].1, keys) by {
                assert(!keys.contains(entries[i].0) && free_of_keys(entries[i].1, keys));
                lemma_free_of_keys_shows_all(entries[i].1, keys);
            }
        },
        _ => {},
    }
}

/// A tree that names none of the keys is left as it is.
pub proof fn lemma_colors_only_under_keys(tree: TreeModel, keys: Seq<Seq<char>>)
    requires
        free_of_keys(tree, keys),
    ensures
        with_colors(tree, keys) == tree,
{
    lemma_free_of_keys_shows_all(tree, keys);
    lemma_colors_change_integers_only(tree, keys);
}

} // verus!
