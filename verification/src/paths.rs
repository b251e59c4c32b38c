//! Where the configuration lives: the root directory on each platform and
//! the file names that belong to a configuration's basename.

use crate::text::same_text;
use vstd::prelude::*;

verus! {

/// The platforms with a rule for the configuration root.
#[derive(Debug, Clone, Copy, PartialEq, Eq, Structural)]
pub enum Platform {
    MacOs,
    Linux,
    Windows,
    Unknown,
}

/// A path given by a starting directory and the names to descend through:
/// `base`, then each of `segments` in turn.
#[derive(Debug, PartialEq, Eq)]
pub struct ConfigPath {
    pub base: String,
    pub segments: Vec<String>,
}

/// The mathematical value of a [`ConfigPath`].
pub struct ConfigPathModel {
    pub base: Seq<char>,
    pub segments: Seq<Seq<char>>,
}

impl View for ConfigPath {
    type V = ConfigPathModel;

    open spec fn view(&self) -> ConfigPathModel {
        ConfigPathModel {
            base: self.base@,
            segments: Seq::new(self.segments@.len(), |i: int| self.segments@[i]@),
        }
    }
}

impl ConfigPathModel {
    /// The path one name further down.
    pub open spec fn join(self, name: Seq<char>) -> ConfigPathModel {
        ConfigPathModel { base: self.base, segments: self.segments.push(name) }
    }
}

impl ConfigPath {
    /// The path that is `base` itself.
    pub fn new(base: String) -> (path: ConfigPath)
        ensures
            path@ == (ConfigPathModel { base: base@, segments: Seq::empty() }),
    {
        let path = ConfigPath { base, segments: Vec::new() };
        assert(path@.segments =~= Seq::empty());
        path
    }

    /// The path one name further down.
    pub fn join(&self, name: &str) -> (path: ConfigPath)
        ensures
            path@ == self@.join(name@),
    {
        let mut path = self.clone();
        path.segments.push(String::from_str(name));
        assert(path@.segments =~= self@.join(name@).segments);
        path
    }
}

impl Clone for ConfigPath {
    /// A copy of the path.
    fn clone(&self) -> (copy: ConfigPath)
        ensures
            copy@ == self@,
    {
        let mut segments: Vec<String> = Vec::new();
        let mut i: usize = 0;
        while i < self.segments.len()
            invariant
                i <= self.segments.len(),
                segments.len() == i,
                forall|k: int| 0 <= k < i ==> segments@[k]@ == self.segments@[k]@,
            decreases self.segments.len() - i,
        {
            segments.push(self.segments[i].clone());
            i += 1;
        }
        let copy = ConfigPath { base: self.base.clone(), segments };
        assert(copy@.segments =~= self@.segments);
        copy
    }
}

/// The configuration root that the platform rule gives below the home
/// directory `home`: `Library/Rime` on macOS, `.config/fcitx/rime` on
/// Linux; on Windows `Rime` below the application data directory, or
/// `AppData/Roaming/Rime` below home where that directory is not known.
/// Any other platform follows macOS.
pub open spec fn platform_root(
    platform: Platform,
    home: Seq<char>,
    app_data: Option<Seq<char>>,
) -> ConfigPathModel {
    match platform {
        Platform::Linux => ConfigPathModel {
            base: home,
            segments: seq![".config"@, "fcitx"@, "rime"@],
        },
        Platform::Windows => match app_data {
            Some(dir) => ConfigPathModel { base: dir, segments: seq!["Rime"@] },
            None => ConfigPathModel { base: home, segments: seq!["AppData"@, "Roaming"@, "Rime"@] },
        },
        _ => ConfigPathModel { base: home, segments: seq!["Library"@, "Rime"@] },
    }
}

/// The configuration root: the override where there is one, else what the
/// platform rule gives.
pub open spec fn config_root(
    platform: Platform,
    override_dir: Option<Seq<char>>,
    home: Seq<char>,
    app_data: Option<Seq<char>>,
) -> ConfigPathModel {
    match override_dir {
        Some(dir) => ConfigPathModel { base: dir, segments: Seq::empty() },
        None => platform_root(platform, home, app_data),
    }
}

/// The text of an optional string.
pub open spec fn optional_text(s: Option<String>) -> Option<Seq<char>> {
    match s {
        Some(text) => Some(text@),
        None => None,
    }
}

/// The configuration root for the home directory `home`, which is empty
/// where none is known. `override_dir` is the value of the override
/// variable and `app_data` that of the application data variable, each
/// `None` where it is not set.
pub fn config_dir_below(
    platform: Platform,
    override_dir: Option<String>,
    home: String,
    app_data: Option<String>,
) -> (root: ConfigPath)
    ensures
        root@ == config_root(platform, optional_text(override_dir), home@, optional_text(app_data)),
{
    match override_dir {
        Some(dir) => { return ConfigPath::new(dir); },
        None => {},
    }
    let mut segments: Vec<String> = Vec::new();
    let base = match platform {
        Platform::Linux => {
            segments.push(String::from_str(".config"));
            segments.push(String::from_str("fcitx"));
            segments.push(String::from_str("rime"));
            home
        },
        Platform::Windows => match app_data {
            Some(dir) => {
                segments.push(String::from_str("Rime"));
                dir
            },
            None => {
                segments.push(String::from_str("AppData"));
                segments.push(String::from_str("Roaming"));
                segments.push(String::from_str("Rime"));
                home
            },
        },
        _ => {
            segments.push(String::from_str("Library"));
            segments.push(String::from_str("Rime"));
            home
        },
    };
    let root = ConfigPath { base, segments };
    assert(root@.segments =~= config_root(
        platform,
        optional_text(override_dir),
        home@,
        optional_text(app_data),
    ).segments);
    root
}

/// Calls `dirs::home_dir` and gives the path as text. What comes back
/// depends on the user and the environment, so nothing is stated of it.
#[verifier::external_body]
fn home_directory() -> (home: Option<String>)
{
    dirs::home_dir().map(|path| path.to_string_lossy().into_owned())
}

/// The text that stands for the home directory: empty where none is known.
pub fn home_or_empty(home: Option<String>) -> (text: String)
    ensures
        text@ == match home {
            Some(dir) => dir@,
            None => Seq::<char>::empty(),
        },
{
    match home {
        Some(dir) => dir,
        None => String::new(),
    }
}

/// The configuration root of this user. With an override the root is the
/// override itself; without one it is what the platform rule gives below
/// the user's home directory, whatever that is.
pub fn get_rime_config_dir(
    platform: Platform,
    override_dir: Option<String>,
    app_data: Option<String>,
) -> (root: ConfigPath)
    ensures
        exists|home: Seq<char>|
            root@ == config_root(platform, optional_text(override_dir), home, optional_text(app_data)),
{
    let home = home_or_empty(home_directory());
    config_dir_below(platform, override_dir, home, app_data)
}

/// The path of the file `filename` in the configuration root.
pub fn get_config_path(root: &ConfigPath, filename: &str) -> (path: ConfigPath)
    ensures
        path@ == root@.join(filename@),
{
    root.join(filename)
}

/// The name of the custom patch file of `basename`.
pub open spec fn custom_filename(basename: Seq<char>) -> Seq<char> {
    basename + ".custom.yaml"@
}

/// Whether `basename` names one of the three distribution files.
pub open spec fn is_reserved(basename: Seq<char>) -> bool {
    basename == "default"@ || basename == "squirrel"@ || basename == "weasel"@
}

/// The name of the base file of `basename`: `.yaml` behind a reserved
/// name, `.schema.yaml` behind any other.
pub open spec fn base_filename(basename: Seq<char>) -> Seq<char> {
    if is_reserved(basename) {
        basename + ".yaml"@
    } else {
        basename + ".schema.yaml"@
    }
}

/// The name of the custom patch file of `basename`.
pub fn get_custom_filename(basename: &str) -> (name: String)
    ensures
        name@ == custom_filename(basename@),
{
    String::from_str(basename).concat(".custom.yaml")
}

/// The name of the base file of `basename`.
pub fn get_base_filename(basename: &str) -> (name: String)
    ensures
        name@ == base_filename(basename@),
{
    let reserved = same_text(basename, "default") || same_text(basename, "squirrel") || same_text(
        basename,
        "weasel",
    );
    if reserved {
        String::from_str(basename).concat(".yaml")
    } else {
        String::from_str(basename).concat(".schema.yaml")
    }
}

} // verus!
