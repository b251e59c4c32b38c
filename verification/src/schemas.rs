//! The schema index: the fixed record of metadata that is taken from every
//! schema file of the configuration root.

use crate::json::{compact_json, json_of_tree, json_text};
use crate::text::{
    bool_string, bool_text, decimal_string, ends_with, has_prefix, has_suffix, names_of,
    signed_decimal, signed_decimal_string, starts_with,
};
use crate::tree::{child_model, items_model, text_of, text_under, Tree, TreeModel};
use crate::yaml_utils::{parse_yaml, parsed_tree};
use vstd::prelude::*;

verus! {

/// A switch that a schema declares.
#[derive(Debug, PartialEq, Eq)]
pub struct SchemaSwitch {
    pub name: String,
    pub states: Option<Vec<String>>,
    pub reset: Option<i64>,
}

/// The mathematical value of a [`SchemaSwitch`].
pub struct SchemaSwitchModel {
    pub name: Seq<char>,
    pub states: Option<Seq<Seq<char>>>,
    pub reset: Option<i64>,
}

impl View for SchemaSwitch {
    type V = SchemaSwitchModel;

    open spec fn view(&self) -> SchemaSwitchModel {
        SchemaSwitchModel {
            name: self.name@,
            states: match self.states {
                Some(states) => Some(names_of(states@)),
                None => None,
            },
            reset: self.reset,
        }
    }
}

/// The metadata of one schema.
#[derive(Debug, PartialEq, Eq)]
pub struct SchemaMetadata {
    pub schema_id: String,
    pub name: String,
    pub version: String,
    pub author: Vec<String>,
    pub description: String,
    pub switches: Vec<SchemaSwitch>,
    pub has_fuzzy_pinyin: bool,
}

/// The mathematical value of a [`SchemaMetadata`].
pub struct SchemaMetadataModel {
    pub schema_id: Seq<char>,
    pub name: Seq<char>,
    pub version: Seq<char>,
    pub author: Seq<Seq<char>>,
    pub description: Seq<char>,
    pub switches: Seq<SchemaSwitchModel>,
    pub has_fuzzy_pinyin: bool,
}

/// The values of a list of switches.
pub open spec fn switches_model(switches: Seq<SchemaSwitch>) -> Seq<SchemaSwitchModel> {
    Seq::new(switches.len(), |i: int| switches[i]@)
}

impl View for SchemaMetadata {
    type V = SchemaMetadataModel;

    open spec fn view(&self) -> SchemaMetadataModel {
        SchemaMetadataModel {
            schema_id: self.schema_id@,
            name: self.name@,
            version: self.version@,
            author: names_of(self.author@),
            description: self.description@,
            switches: switches_model(self.switches@),
            has_fuzzy_pinyin: self.has_fuzzy_pinyin,
        }
    }
}

/// The texts of the strings among the first `count` items, in order; an
/// item that is no string is passed over.
pub open spec fn string_items(items: Seq<TreeModel>, count: nat) -> Seq<Seq<char>>
    decreases count,
{
    if count == 0 || count > items.len() {
        Seq::empty()
    } else {
        let init = string_items(items, (count - 1) as nat);
        match items[count - 1] {
            TreeModel::Text(text) => init.push(text),
            _ => init,
        }
    }
}

/// The texts of the strings among the items of a sequence; empty for a
/// value that is missing or no sequence.
pub open spec fn strings_under(value: Option<TreeModel>) -> Seq<Seq<char>> {
    match value {
        Some(TreeModel::Sequence(items)) => string_items(items, items.len()),
        _ => Seq::empty(),
    }
}

/// The switch that an item of `switches` declares: it needs a string
/// `name`; `states` is taken if it is a sequence, with its strings; `reset`
/// is taken if it is an integer of the signed 64-bit range.
pub open spec fn switch_of(item: TreeModel) -> Option<SchemaSwitchModel> {
    match item.get("name"@) {
        Some(TreeModel::Text(name)) => Some(
            SchemaSwitchModel {
                name,
                states: match item.get("states"@) {
                    Some(TreeModel::Sequence(states)) => Some(string_items(states, states.len())),
                    _ => None,
                },
                reset: match item.get("reset"@) {
                    Some(value) => value.as_i64(),
                    None => None,
                },
            },
        ),
        _ => None,
    }
}

/// The switches that the first `count` items declare, in order; an item
/// that declares none is passed over.
pub open spec fn switches_among(items: Seq<TreeModel>, count: nat) -> Seq<SchemaSwitchModel>
    decreases count,
{
    if count == 0 || count > items.len() {
        Seq::empty()
    } else {
        let init = switches_among(items, (count - 1) as nat);
        match switch_of(items[count - 1]) {
            Some(switch) => init.push(switch),
            None => init,
        }
    }
}

/// The switches under `switches`; empty for a value that is missing or no
/// sequence.
pub open spec fn switches_under(value: Option<TreeModel>) -> Seq<SchemaSwitchModel> {
    match value {
        Some(TreeModel::Sequence(items)) => switches_among(items, items.len()),
        _ => Seq::empty(),
    }
}

/// The beginning of a spelling rule that marks fuzzy pinyin: a derive rule
/// that is commented out.
pub open spec fn fuzzy_prefix() -> Seq<char> {
    "# - derive/"@
}

/// Whether `item` is a string that begins with the fuzzy prefix.
pub open spec fn is_fuzzy_rule(item: TreeModel) -> bool {
    item matches TreeModel::Text(text) && has_prefix(text, fuzzy_prefix())
}

/// Whether some item of `rules` is a fuzzy rule.
pub open spec fn any_fuzzy_rule(rules: Seq<TreeModel>) -> bool {
    exists|i: int| 0 <= i < rules.len() && is_fuzzy_rule(#[trigger] rules[i])
}

/// The items of `speller.algebra`, where that is a sequence.
pub open spec fn spelling_rules(tree: TreeModel) -> Option<Seq<TreeModel>> {
    match tree.get("speller"@) {
        Some(speller) => match speller.get("algebra"@) {
            Some(TreeModel::Sequence(rules)) => Some(rules),
            _ => None,
        },
        None => None,
    }
}

/// Whether `speller.algebra` is a sequence with a fuzzy rule among its
/// items.
pub open spec fn has_fuzzy_rule(tree: TreeModel) -> bool {
    match spelling_rules(tree) {
        Some(rules) => any_fuzzy_rule(rules),
        None => false,
    }
}

/// The version that a value gives: a string is itself; null, a boolean and
/// an integer are written as `null`, `true` or `false`, and in decimal; any
/// other value is written as its compact JSON text.
pub open spec fn version_text(value: TreeModel) -> Seq<char> {
    match value {
        TreeModel::Text(text) => text,
        TreeModel::Null => "null"@,
        TreeModel::Bool(b) => bool_text(b),
        TreeModel::Integer(n) => signed_decimal(n),
        other => json_text(json_of_tree(other)),
    }
}

/// The version under `version`; empty where there is none.
pub open spec fn version_under(value: Option<TreeModel>) -> Seq<char> {
    match value {
        Some(version) => version_text(version),
        None => Seq::empty(),
    }
}

/// The metadata of the schema that `tree` describes. The tree must have a
/// `schema` child with a string `schema_id`, else it describes none. The
/// name falls back to the id; a missing string is empty and a missing list
/// is empty.
pub open spec fn schema_of(tree: TreeModel) -> Option<SchemaMetadataModel> {
    match tree.get("schema"@) {
        Some(schema) => match schema.get("schema_id"@) {
            Some(TreeModel::Text(id)) => Some(
                SchemaMetadataModel {
                    schema_id: id,
                    name: match schema.get("name"@) {
                        Some(TreeModel::Text(name)) => name,
                        _ => id,
                    },
                    version: version_under(schema.get("version"@)),
                    author: strings_under(schema.get("author"@)),
                    description: text_under(schema.get("description"@)),
                    switches: switches_under(tree.get("switches"@)),
                    has_fuzzy_pinyin: has_fuzzy_rule(tree),
                },
            ),
            _ => None,
        },
        None => None,
    }
}

/// The texts of the strings among `items`.
pub fn strings_in(items: &Vec<Tree>) -> (out: Vec<String>)
    ensures
        names_of(out@) == string_items(items_model(items@), items@.len()),
{
    let mut out: Vec<String> = Vec::new();
    let mut i: usize = 0;
    assert(names_of(out@) =~= string_items(items_model(items@), 0));
    while i < items.len()
        invariant
            i <= items.len(),
            names_of(out@) == string_items(items_model(items@), i as nat),
        decreases items.len() - i,
    {
        let ghost before = names_of(out@);
        match &items[i] {
            Tree::Text(text) => {
                out.push(text.clone());
                assert(names_of(out@) =~= before.push(text@));
            },
            _ => {},
        }
        i += 1;
    }
    out
}

/// The texts of the strings among the items of the sequence `value`.
pub fn strings_of(value: Option<&Tree>) -> (out: Vec<String>)
    ensures
        names_of(out@) == strings_under(child_model(value)),
{
    match value {
        Some(tree) => match tree.as_sequence() {
            Some(items) => strings_in(items),
            None => {
                let out: Vec<String> = Vec::new();
                assert(names_of(out@) =~= Seq::empty());
                out
            },
        },
        None => {
            let out: Vec<String> = Vec::new();
            assert(names_of(out@) =~= Seq::empty());
            out
        },
    }
}

/// The switch that `item` declares, if it declares one.
pub fn switch_from(item: &Tree) -> (switch: Option<SchemaSwitch>)
    ensures
        match switch {
            Some(s) => switch_of(item@) == Some(s@),
            None => switch_of(item@) is None,
        },
{
    let name = match item.get("name") {
        Some(tree) => match tree.as_text() {
            Some(text) => text.clone(),
            None => { return None; },
        },
        None => { return None; },
    };
    let states = match item.get("states") {
        Some(tree) => match tree.as_sequence() {
            Some(items) => Some(strings_in(items)),
            None => None,
        },
        None => None,
    };
    let reset = match item.get("reset") {
        Some(tree) => tree.as_i64(),
        None => None,
    };
    Some(SchemaSwitch { name, states, reset })
}

/// The switches that the items of the sequence `value` declare.
pub fn switches_of(value: Option<&Tree>) -> (out: Vec<SchemaSwitch>)
    ensures
        switches_model(out@) == switches_under(child_model(value)),
{
    let mut out: Vec<SchemaSwitch> = Vec::new();
    let items = match value {
        Some(tree) => match tree.as_sequence() {
            Some(items) => items,
            None => {
                assert(switches_model(out@) =~= Seq::empty());
                return out;
            },
        },
        None => {
            assert(switches_model(out@) =~= Seq::empty());
            return out;
        },
    };
    let mut i: usize = 0;
    assert(switches_model(out@) =~= switches_among(items_model(items@), 0));
    while i < items.len()
        invariant
            i <= items.len(),
            switches_model(out@) == switches_among(items_model(items@), i as nat),
        decreases items.len() - i,
    {
        let ghost before = switches_model(out@);
        match switch_from(&items[i]) {
            Some(switch) => {
                out.push(switch);
                assert(switches_model(out@) =~= before.push(switch@));
            },
            None => {},
        }
        i += 1;
    }
    out
}

/// Whether `speller.algebra` of `tree` has a fuzzy rule.
pub fn has_fuzzy_pinyin(tree: &Tree) -> (found: bool)
    ensures
        found == has_fuzzy_rule(tree@),
{
    let rules = match tree.get("speller") {
        Some(speller) => match speller.get("algebra") {
            Some(algebra) => match algebra.as_sequence() {
                Some(rules) => rules,
                None => { return false; },
            },
            None => { return false; },
        },
        None => { return false; },
    };
    let ghost model = items_model(rules@);
    assert(spelling_rules(tree@) == Some(model));
    let mut i: usize = 0;
    while i < rules.len()
        invariant
            i <= rules.len(),
            model == items_model(rules@),
            spelling_rules(tree@) == Some(model),
            forall|k: int| 0 <= k < i ==> !is_fuzzy_rule(#[trigger] model[k]),
        decreases rules.len() - i,
    {
        let fuzzy = match &rules[i] {
            Tree::Text(text) => starts_with(text.as_str(), "# - derive/"),
            _ => false,
        };
        assert(fuzzy == is_fuzzy_rule(model[i as int]));
        if fuzzy {
            return true;
        }
        i += 1;
    }
    false
}

/// The version that `value` gives.
pub fn version_string(value: &Tree) -> (out: String)
    ensures
        out@ == version_text(value@),
{
    match value {
        Tree::Text(text) => text.clone(),
        Tree::Null => String::from_str("null"),
        Tree::Bool(b) => bool_string(*b),
        Tree::Int(i) => signed_decimal_string(*i),
        Tree::UInt(u) => decimal_string(*u as u128),
        _ => compact_json(value),
    }
}

/// The metadata of the schema that `tree` describes, if it describes one.
pub fn schema_metadata(tree: &Tree) -> (metadata: Option<SchemaMetadata>)
    ensures
        match metadata {
            Some(m) => schema_of(tree@) == Some(m@),
            None => schema_of(tree@) is None,
        },
{
    let schema = match tree.get("schema") {
        Some(schema) => schema,
        None => { return None; },
    };
    let schema_id = match schema.get("schema_id") {
        Some(id) => match id.as_text() {
            Some(text) => text.clone(),
            None => { return None; },
        },
        None => { return None; },
    };
    let name = match schema.get("name") {
        Some(value) => match value.as_text() {
            Some(text) => text.clone(),
            None => schema_id.clone(),
        },
        None => schema_id.clone(),
    };
    let version = match schema.get("version") {
        Some(value) => version_string(value),
        None => String::new(),
    };
    let author = strings_of(schema.get("author"));
    let description = text_of(schema.get("description"));
    let switches = switches_of(tree.get("switches"));
    let has_fuzzy_pinyin = has_fuzzy_pinyin(tree);
    Some(
        SchemaMetadata {
            schema_id,
            name,
            version,
            author,
            description,
            switches,
            has_fuzzy_pinyin,
        },
    )
}

/// Reads the metadata of a schema from the text of its file. Text that is
/// no YAML document, or describes no schema, gives `None`.
pub fn parse_schema_metadata(content: &str) -> (metadata: Option<SchemaMetadata>)
    ensures
        match metadata {
            Some(m) => schema_of(parsed_tree(content@)) == Some(m@),
            None => schema_of(parsed_tree(content@)) is None,
        },
{
    let tree = parse_yaml(content);
    schema_metadata(&tree)
}

/// An entry of the configuration root: its file name and, where the file
/// was read, its text.
#[derive(Debug, PartialEq, Eq)]
pub struct SchemaFile {
    pub name: String,
    pub content: Option<String>,
}

/// The mathematical value of a [`SchemaFile`].
pub struct SchemaFileModel {
    pub name: Seq<char>,
    pub content: Option<Seq<char>>,
}

impl View for SchemaFile {
    type V = SchemaFileModel;

    open spec fn view(&self) -> SchemaFileModel {
        SchemaFileModel {
            name: self.name@,
            content: match self.content {
                Some(text) => Some(text@),
                None => None,
            },
        }
    }
}

/// The values of a list of files.
pub open spec fn files_model(files: Seq<SchemaFile>) -> Seq<SchemaFileModel> {
    Seq::new(files.len(), |i: int| files[i]@)
}

/// Whether a file of this name is a schema file.
pub open spec fn is_schema_name(name: Seq<char>) -> bool {
    has_suffix(name, ".schema.yaml"@)
}

/// The schema that a file gives: its name must end in `.schema.yaml`, it
/// must have been read, and its text must describe a schema.
pub open spec fn schema_in(file: SchemaFileModel) -> Option<SchemaMetadataModel> {
    if is_schema_name(file.name) {
        match file.content {
            Some(text) => schema_of(parsed_tree(text)),
            None => None,
        }
    } else {
        None
    }
}

/// The schemas that the first `count` files give, in the files' order.
pub open spec fn schemas_among(files: Seq<SchemaFileModel>, count: nat) -> Seq<SchemaMetadataModel>
    decreases count,
{
    if count == 0 || count > files.len() {
        Seq::empty()
    } else {
        let init = schemas_among(files, (count - 1) as nat);
        match schema_in(files[count - 1]) {
            Some(schema) => init.push(schema),
            None => init,
        }
    }
}

/// The values of a list of schema records.
pub open spec fn schemas_model(schemas: Seq<SchemaMetadata>) -> Seq<SchemaMetadataModel> {
    Seq::new(schemas.len(), |i: int| schemas[i]@)
}

/// Whether a file of the name `name` is a schema file.
pub fn is_schema_file(name: &str) -> (schema: bool)
    ensures
        schema == is_schema_name(name@),
{
    ends_with(name, ".schema.yaml")
}

/// The metadata of every schema among `files`, in the files' order. A file
/// that is no schema file, was not read, or describes no schema is passed
/// over.
pub fn discover_schemas(files: &Vec<SchemaFile>) -> (schemas: Vec<SchemaMetadata>)
    ensures
        schemas_model(schemas@) == schemas_among(files_model(files@), files@.len()),
{
    let mut schemas: Vec<SchemaMetadata> = Vec::new();
    let mut i: usize = 0;
    assert(schemas_model(schemas@) =~= schemas_among(files_model(files@), 0));
    while i < files.len()
        invariant
            i <= files.len(),
            schemas_model(schemas@) == schemas_among(files_model(files@), i as nat),
        decreases files.len() - i,
    {
        let ghost before = schemas_model(schemas@);
        let file = &files[i];
        assert(file@ == files_model(files@)[i as int]);
        if is_schema_file(file.name.as_str()) {
            match &file.content {
                Some(text) => match parse_schema_metadata(text.as_str()) {
                    Some(metadata) => {
                        schemas.push(metadata);
                        assert(schemas_model(schemas@) =~= before.push(metadata@));
                    },
                    None => {},
                },
                None => {},
            }
        }
        i += 1;
    }
    schemas
}

} // verus!
