//! Reading a configuration: the base document, and the patch that the
//! custom file holds.

use crate::colors::{bgr_color_keys, color_key_names, preserve_bgr_colors, with_colors};
use crate::text::same_text;
use crate::tree::{Tree, TreeModel};
use crate::yaml_utils::{
    parse_yaml_document, tree_of_yaml, yaml_document, yaml_to_json, YamlModel, YamlNode,
};
use vstd::prelude::*;

verus! {

/// The basename of the appearance file, whose colours are shown as colour
/// strings.
pub open spec fn appearance_basename() -> Seq<char> {
    "squirrel"@
}

/// The base tree of `basename` for what its base file holds: `None` stands
/// for a file that is missing or holds no YAML document, and gives the
/// empty mapping. The appearance file has its colours shown as colour
/// strings.
pub open spec fn base_of_document(basename: Seq<char>, document: Option<YamlModel>) -> TreeModel {
    match document {
        None => TreeModel::empty_mapping(),
        Some(yaml) => if basename == appearance_basename() {
            with_colors(tree_of_yaml(yaml), color_key_names())
        } else {
            tree_of_yaml(yaml)
        },
    }
}

/// The patch that a custom tree holds: its `patch` child where that is a
/// mapping, else the empty mapping.
pub open spec fn patch_of(custom: TreeModel) -> TreeModel {
    match custom.get("patch"@) {
        Some(TreeModel::Mapping(entries)) => TreeModel::Mapping(entries),
        _ => TreeModel::empty_mapping(),
    }
}

/// The patch for what a custom file holds: `None` stands for a file that
/// is missing or holds no YAML document, and gives the empty mapping.
pub open spec fn patch_of_document(document: Option<YamlModel>) -> TreeModel {
    match document {
        None => TreeModel::empty_mapping(),
        Some(yaml) => patch_of(tree_of_yaml(yaml)),
    }
}

/// The document that the text of a file holds, where the file is there.
pub open spec fn document_of(content: Option<&str>) -> Option<YamlModel> {
    match content {
        Some(text) => yaml_document(text@),
        None => None,
    }
}

/// What a list of optional nodes holds.
pub open spec fn model_of(document: Option<YamlNode>) -> Option<YamlModel> {
    match document {
        Some(node) => Some(node@),
        None => None,
    }
}

/// The base tree of `basename` for the document that its base file holds.
pub fn base_config_of(basename: &str, document: Option<YamlNode>) -> (base: Tree)
    ensures
        base@ == base_of_document(basename@, model_of(document)),
{
    match document {
        None => Tree::empty_mapping(),
        Some(yaml) => {
            let tree = yaml_to_json(yaml);
            if same_text(basename, "squirrel") {
                let keys = bgr_color_keys();
                preserve_bgr_colors(tree, &keys)
            } else {
                tree
            }
        },
    }
}

/// The patch that the custom tree `custom` holds.
pub fn extract_patch(custom: &Tree) -> (patch: Tree)
    ensures
        patch@ == patch_of(custom@),
{
    match custom.get("patch") {
        Some(child) => match child {
            Tree::Mapping(_) => child.clone(),
            _ => Tree::empty_mapping(),
        },
        None => Tree::empty_mapping(),
    }
}

/// The patch for the document that a custom file holds.
pub fn custom_config_of(document: Option<YamlNode>) -> (patch: Tree)
    ensures
        patch@ == patch_of_document(model_of(document)),
{
    match document {
        None => Tree::empty_mapping(),
        Some(yaml) => {
            let tree = yaml_to_json(yaml);
            extract_patch(&tree)
        },
    }
}

/// Reads the base configuration of `basename` from the text of its base
/// file; `None` stands for a file that is missing or cannot be read.
pub fn read_base_config(basename: &str, content: Option<&str>) -> (base: Tree)
    ensures
        base@ == base_of_document(basename@, document_of(content)),
{
    let document = match content {
        Some(text) => parse_yaml_document(text),
        None => None,
    };
    base_config_of(basename, document)
}

/// Reads the patch from the text of a custom file; `None` stands for a
/// file that is missing or cannot be read.
pub fn read_custom_config(content: Option<&str>) -> (patch: Tree)
    ensures
        patch@ == patch_of_document(document_of(content)),
{
    let document = match content {
        Some(text) => parse_yaml_document(text),
        None => None,
    };
    custom_config_of(document)
}

/// Which part of a configuration a reader asks for.
#[derive(Debug, Clone, Copy, PartialEq, Eq, Structural)]
pub enum ConfigMode {
    Base,
    Custom,
    All,
}

/// The mode that a selector names: `base` and `custom` name themselves,
/// anything else, and no selector, names both parts.
pub open spec fn mode_of(selector: Option<Seq<char>>) -> ConfigMode {
    match selector {
        Some(name) => if name == "base"@ {
            ConfigMode::Base
        } else if name == "custom"@ {
            ConfigMode::Custom
        } else {
            ConfigMode::All
        },
        None => ConfigMode::All,
    }
}

impl ConfigMode {
    /// The mode that the selector `config_type` names.
    pub fn from_selector(config_type: Option<&str>) -> (mode: ConfigMode)
        ensures
            mode == mode_of(
                match config_type {
                    Some(name) => Some(name@),
                    None => None,
                },
            ),
    {
        match config_type {
            Some(name) => if same_text(name, "base") {
                ConfigMode::Base
            } else if same_text(name, "custom") {
                ConfigMode::Custom
            } else {
                ConfigMode::All
            },
            None => ConfigMode::All,
        }
    }

    /// Whether the mode asks for the base document.
    pub open spec fn wants_base(self) -> bool {
        self != ConfigMode::Custom
    }

    /// Whether the mode asks for the custom patch.
    pub open spec fn wants_custom(self) -> bool {
        self != ConfigMode::Base
    }

    /// Whether the base file has to be read for this mode.
    pub fn needs_base(self) -> (needed: bool)
        ensures
            needed == self.wants_base(),
    {
        match self {
            ConfigMode::Custom => false,
            _ => true,
        }
    }

    /// Whether the custom file has to be read for this mode.
    pub fn needs_custom(self) -> (needed: bool)
        ensures
            needed == self.wants_custom(),
    {
        match self {
            ConfigMode::Base => false,
            _ => true,
        }
    }
}

/// What a reader gets: the base document and the custom patch.
#[derive(Debug, PartialEq)]
pub struct ConfigResponse {
    pub base: Tree,
    pub custom_patch: Tree,
}

/// The mathematical value of a [`ConfigResponse`].
pub struct ConfigResponseModel {
    pub base: TreeModel,
    pub custom_patch: TreeModel,
}

impl View for ConfigResponse {
    type V = ConfigResponseModel;

    open spec fn view(&self) -> ConfigResponseModel {
        ConfigResponseModel { base: self.base@, custom_patch: self.custom_patch@ }
    }
}

/// The answer to a read of `basename` in the mode `mode`, for what the two
/// files hold. A part that the mode does not ask for is the empty mapping,
/// whatever its file holds.
pub open spec fn config_of_documents(
    basename: Seq<char>,
    mode: ConfigMode,
    base: Option<YamlModel>,
    custom: Option<YamlModel>,
) -> ConfigResponseModel {
    ConfigResponseModel {
        base: if mode.wants_base() {
            base_of_document(basename, base)
        } else {
            TreeModel::empty_mapping()
        },
        custom_patch: if mode.wants_custom() {
            patch_of_document(custom)
        } else {
            TreeModel::empty_mapping()
        },
    }
}

/// Reads the configuration of `basename`. `config_type` selects the part;
/// `base_content` and `custom_content` are the texts of the two files,
/// `None` for a file that is missing or was not read.
pub fn read_config(
    basename: &str,
    config_type: Option<&str>,
    base_content: Option<&str>,
    custom_content: Option<&str>,
) -> (response: ConfigResponse)
    ensures
        response@ == config_of_documents(
            basename@,
            mode_of(
                match config_type {
                    Some(name) => Some(name@),
                    None => None,
                },
            ),
            document_of(base_content),
            document_of(custom_content),
        ),
{
    let mode = ConfigMode::from_selector(config_type);
    let base = if mode.needs_base() {
        read_base_config(basename, base_content)
    } else {
        Tree::empty_mapping()
    };
    let custom_patch = if mode.needs_custom() {
        read_custom_config(custom_content)
    } else {
        Tree::empty_mapping()
    };
    ConfigResponse { base, custom_patch }
}

/// A custom tree without a `patch` mapping at its top gives the empty
/// patch.
pub proof fn lemma_patch_needs_patch_mapping(custom: TreeModel)
    requires
        !(custom.get("patch"@) matches Some(child) && child is Mapping),
    ensures
        patch_of(custom) == TreeModel::empty_mapping(),
{
}

/// A read of the custom part alone gives two empty mappings wherever the
/// custom file is missing, holds no document, or holds one without a
/// `patch` mapping at its top.
pub proof fn lemma_custom_read_without_patch(
    basename: Seq<char>,
    base: Option<YamlModel>,
    custom: Option<YamlModel>,
)
    requires
        custom matches Some(document) ==> !(tree_of_yaml(document).get("patch"@) matches Some(
            child,
        ) && child is Mapping),
    ensures
        config_of_documents(basename, ConfigMode::Custom, base, custom) == (ConfigResponseModel {
            base: TreeModel::empty_mapping(),
            custom_patch: TreeModel::empty_mapping(),
        }),
{
}

/// A custom document whose `patch` child is a mapping gives that mapping.
pub proof fn lemma_patch_is_patch_child(custom: TreeModel, patch: TreeModel)
    requires
        custom.get("patch"@) == Some(patch),
        patch is Mapping,
    ensures
        patch_of(custom) == patch,
{
}

/// A missing file is no error: without a custom file the patch is the
/// empty mapping and the base is read as with one; without a base file the
/// base is the empty mapping.
pub proof fn lemma_missing_files(basename: Seq<char>, mode: ConfigMode, base: Option<YamlModel>)
    ensures
        config_of_documents(basename, mode, base, None).custom_patch == TreeModel::empty_mapping(),
        config_of_documents(basename, mode, base, None).base == config_of_documents(
            basename,
            mode,
            base,
            Some(YamlModel::Null),
        ).base,
        config_of_documents(basename, mode, None, None).base == TreeModel::empty_mapping(),
{
}

/// Whether two files hold the same: both are missing, or both hold the
/// same text.
pub open spec fn same_content(first: Option<&str>, second: Option<&str>) -> bool {
    match (first, second) {
        (Some(a), Some(b)) => a@ == b@,
        (None, None) => true,
        _ => false,
    }
}

/// Reading changes nothing and depends on nothing but what is read: two
/// reads of the same basename in the same mode, of files that hold the
/// same, give the same answer.
pub proof fn lemma_read_is_repeatable(
    basename: Seq<char>,
    selector: Option<Seq<char>>,
    first_base: Option<&str>,
    first_custom: Option<&str>,
    second_base: Option<&str>,
    second_custom: Option<&str>,
)
    requires
        same_content(first_base, second_base),
        same_content(first_custom, second_custom),
    ensures
        config_of_documents(
            basename,
            mode_of(selector),
            document_of(first_base),
            document_of(first_custom),
        ) == config_of_documents(
            basename,
            mode_of(selector),
            document_of(second_base),
            document_of(second_custom),
        ),
{
}

} // verus!
