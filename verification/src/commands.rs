//! The answers that the front end asks for: the health report and the list
//! of schemas.

use crate::paths::Platform;
use crate::schemas::{
    discover_schemas, files_model, schemas_among, schemas_model, SchemaFile, SchemaMetadata,
    SchemaMetadataModel,
};
use crate::tree::{text_of, text_under, Tree, TreeModel};
use crate::yaml_utils::{parse_yaml, parsed_tree};
use vstd::prelude::*;

verus! {

/// The name of the file that describes the installed distribution.
pub const INSTALLATION_FILE: &'static str = "installation.yaml";

/// What `installation.yaml` says of the installed distribution.
#[derive(Debug, PartialEq, Eq)]
pub struct InstallationInfo {
    pub distribution_name: String,
    pub distribution_version: String,
    pub rime_version: String,
    pub install_time: String,
}

/// The mathematical value of an [`InstallationInfo`].
pub struct InstallationInfoModel {
    pub distribution_name: Seq<char>,
    pub distribution_version: Seq<char>,
    pub rime_version: Seq<char>,
    pub install_time: Seq<char>,
}

impl View for InstallationInfo {
    type V = InstallationInfoModel;

    open spec fn view(&self) -> InstallationInfoModel {
        InstallationInfoModel {
            distribution_name: self.distribution_name@,
            distribution_version: self.distribution_version@,
            rime_version: self.rime_version@,
            install_time: self.install_time@,
        }
    }
}

/// The health report.
#[derive(Debug, PartialEq, Eq)]
pub struct HealthData {
    pub platform: String,
    pub config_dir: String,
    pub config_dir_exists: bool,
    pub installation: Option<InstallationInfo>,
}

/// The mathematical value of a [`HealthData`].
pub struct HealthDataModel {
    pub platform: Seq<char>,
    pub config_dir: Seq<char>,
    pub config_dir_exists: bool,
    pub installation: Option<InstallationInfoModel>,
}

impl View for HealthData {
    type V = HealthDataModel;

    open spec fn view(&self) -> HealthDataModel {
        HealthDataModel {
            platform: self.platform@,
            config_dir: self.config_dir@,
            config_dir_exists: self.config_dir_exists,
            installation: match self.installation {
                Some(info) => Some(info@),
                None => None,
            },
        }
    }
}

/// The tag that the front end knows a platform by.
pub open spec fn platform_tag(platform: Platform) -> Seq<char> {
    match platform {
        Platform::MacOs => "darwin"@,
        Platform::Linux => "linux"@,
        Platform::Windows => "win32"@,
        Platform::Unknown => "unknown"@,
    }
}

/// The tag that the front end knows `platform` by.
pub fn platform_name(platform: Platform) -> (tag: String)
    ensures
        tag@ == platform_tag(platform),
{
    match platform {
        Platform::MacOs => String::from_str("darwin"),
        Platform::Linux => String::from_str("linux"),
        Platform::Windows => String::from_str("win32"),
        Platform::Unknown => String::from_str("unknown"),
    }
}

/// The four strings that an installation document gives; a key that is
/// missing, or holds no string, gives the empty string.
pub open spec fn installation_of(tree: TreeModel) -> InstallationInfoModel {
    InstallationInfoModel {
        distribution_name: text_under(tree.get("distribution_name"@)),
        distribution_version: text_under(tree.get("distribution_version"@)),
        rime_version: text_under(tree.get("rime_version"@)),
        install_time: text_under(tree.get("install_time"@)),
    }
}

/// The four strings that the installation document `tree` gives.
pub fn installation_info(tree: &Tree) -> (info: InstallationInfo)
    ensures
        info@ == installation_of(tree@),
{
    InstallationInfo {
        distribution_name: text_of(tree.get("distribution_name")),
        distribution_version: text_of(tree.get("distribution_version")),
        rime_version: text_of(tree.get("rime_version")),
        install_time: text_of(tree.get("install_time")),
    }
}

/// The health report for a platform, the configuration root as it is
/// shown, whether the root is a directory, and the text of
/// `installation.yaml`, where there is such a file.
pub open spec fn health_of(
    platform: Platform,
    config_dir: Seq<char>,
    config_dir_exists: bool,
    installation: Option<Seq<char>>,
) -> HealthDataModel {
    HealthDataModel {
        platform: platform_tag(platform),
        config_dir,
        config_dir_exists,
        installation: match installation {
            Some(text) => Some(installation_of(parsed_tree(text))),
            None => None,
        },
    }
}

/// The health report. `config_dir` is the configuration root as it is
/// shown, `config_dir_exists` says whether it is a directory, and
/// `installation` is the text of `installation.yaml`, or `None` where the
/// file is missing or cannot be read.
pub fn get_health(
    platform: Platform,
    config_dir: String,
    config_dir_exists: bool,
    installation: Option<&str>,
) -> (health: HealthData)
    ensures
        health@ == health_of(
            platform,
            config_dir@,
            config_dir_exists,
            match installation {
                Some(text) => Some(text@),
                None => None,
            },
        ),
{
    let installation = match installation {
        Some(text) => {
            let tree = parse_yaml(text);
            Some(installation_info(&tree))
        },
        None => None,
    };
    HealthData { platform: platform_name(platform), config_dir, config_dir_exists, installation }
}

/// The list of schemas, as the front end gets it.
#[derive(Debug, PartialEq, Eq)]
pub struct SchemasResponse {
    pub schemas: Vec<SchemaMetadata>,
}

impl View for SchemasResponse {
    type V = Seq<SchemaMetadataModel>;

    open spec fn view(&self) -> Seq<SchemaMetadataModel> {
        schemas_model(self.schemas@)
    }
}

/// The schemas among the entries `files` of the configuration root.
pub fn get_schemas(files: &Vec<SchemaFile>) -> (response: SchemasResponse)
    ensures
        response@ == schemas_among(files_model(files@), files@.len()),
{
    SchemasResponse { schemas: discover_schemas(files) }
}

} // verus!
