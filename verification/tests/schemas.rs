use rime_config::commands::{get_health, get_schemas, installation_info, platform_name, HealthData, InstallationInfo};
use rime_config::paths::Platform;
use rime_config::schemas::{
    discover_schemas, has_fuzzy_pinyin, is_schema_file, parse_schema_metadata, schema_metadata,
    strings_in, switch_from, version_string, SchemaFile, SchemaMetadata, SchemaSwitch,
};
use rime_config::tree::Tree;
use rime_config::yaml_utils::parse_yaml;

fn text(s: &str) -> Tree {
    Tree::Text(s.to_string())
}

fn entry(key: &str, value: Tree) -> (String, Tree) {
    (key.to_string(), value)
}

fn file(name: &str, content: Option<&str>) -> SchemaFile {
    SchemaFile { name: name.to_string(), content: content.map(|c| c.to_string()) }
}

const RIME_ICE: &str = "schema:\n  schema_id: rime_ice\n  name: 雾凇\n  version: 1.2\nspeller:\n  algebra:\n    - erase/^xx$/\n    - \"# - derive/zh/z\"\n";

#[test]
fn schema_discovery() {
    let files = vec![file("rime_ice.schema.yaml", Some(RIME_ICE))];
    let found = discover_schemas(&files);
    assert_eq!(found.len(), 1);
    assert_eq!(found[0].schema_id, "rime_ice");
    assert_eq!(found[0].name, "雾凇");
    assert_eq!(found[0].version, "1.2");
    assert!(found[0].has_fuzzy_pinyin);
    assert_eq!(found[0].author, Vec::<String>::new());
    assert_eq!(found[0].description, "");
    assert_eq!(found[0].switches, Vec::<SchemaSwitch>::new());
}

#[test]
fn discovery_skips_what_is_no_schema() {
    let files = vec![
        file("default.yaml", Some(RIME_ICE)),
        file("a.schema.yaml", None),
        file("b.schema.yaml", Some("schema: [1, 2]")),
        file("c.schema.yaml", Some(": : :")),
        file("d.schema.yaml", Some("schema: {schema_id: d}")),
        file("e.schema.yaml", Some("schema: {name: no id}")),
        file("f.schema.yaml", Some("schema: {schema_id: 7}")),
        file("g.schema.yaml.bak", Some("schema: {schema_id: g}")),
        file("h.schema.yaml", Some("schema: {schema_id: h, name: H}")),
    ];
    let found = discover_schemas(&files);
    let ids: Vec<&str> = found.iter().map(|m| m.schema_id.as_str()).collect();
    assert_eq!(ids, vec!["d", "h"]);
    assert_eq!(found[0].name, "d");
    assert_eq!(found[1].name, "H");
    assert_eq!(get_schemas(&files).schemas, found);
    assert_eq!(discover_schemas(&Vec::new()), Vec::<SchemaMetadata>::new());
}

#[test]
fn schema_file_names() {
    assert!(is_schema_file("rime_ice.schema.yaml"));
    assert!(is_schema_file(".schema.yaml"));
    assert!(!is_schema_file("rime_ice.custom.yaml"));
    assert!(!is_schema_file("schema.yaml"));
    assert!(!is_schema_file("rime_ice.schema.yaml "));
    assert!(!is_schema_file(""));
}

#[test]
fn full_schema_record() {
    let content = "schema:\n  schema_id: luna\n  name: Luna\n  version: \"0.9\"\n  author:\n    - Alice\n    - 42\n    - Bob\n  description: |\n    two\n    lines\nswitches:\n  - name: ascii_mode\n    reset: 0\n    states: [中文, 西文, 3]\n  - options: [a, b]\n  - name: full_shape\n  - name: big\n    reset: 9223372036854775808\n    states: none\n  - just a string\n";
    let expected = SchemaMetadata {
        schema_id: "luna".to_string(),
        name: "Luna".to_string(),
        version: "0.9".to_string(),
        author: vec!["Alice".to_string(), "Bob".to_string()],
        description: "two\nlines\n".to_string(),
        switches: vec![
            SchemaSwitch {
                name: "ascii_mode".to_string(),
                states: Some(vec!["中文".to_string(), "西文".to_string()]),
                reset: Some(0),
            },
            SchemaSwitch { name: "full_shape".to_string(), states: None, reset: None },
            SchemaSwitch { name: "big".to_string(), states: None, reset: None },
        ],
        has_fuzzy_pinyin: false,
    };
    assert_eq!(parse_schema_metadata(content), Some(expected));
}

#[test]
fn schema_needs_mapping_with_string_id() {
    assert_eq!(parse_schema_metadata(""), None);
    assert_eq!(parse_schema_metadata("just text"), None);
    assert_eq!(parse_schema_metadata("schema: text"), None);
    assert_eq!(parse_schema_metadata("schema: {schema_id: [a]}"), None);
    assert_eq!(schema_metadata(&Tree::Null), None);
    assert_eq!(schema_metadata(&Tree::Sequence(vec![])), None);
}

#[test]
fn versions_are_stringified() {
    assert_eq!(version_string(&text("1.0")), "1.0");
    assert_eq!(version_string(&Tree::Null), "null");
    assert_eq!(version_string(&Tree::Bool(true)), "true");
    assert_eq!(version_string(&Tree::Bool(false)), "false");
    assert_eq!(version_string(&Tree::Int(-12)), "-12");
    assert_eq!(version_string(&Tree::Int(0)), "0");
    assert_eq!(version_string(&Tree::Int(i64::MIN)), "-9223372036854775808");
    assert_eq!(version_string(&Tree::UInt(u64::MAX)), "18446744073709551615");
    assert_eq!(version_string(&Tree::Float("1.2".to_string())), "1.2");
    assert_eq!(version_string(&Tree::Float("1e20".to_string())), "1e+20");
    assert_eq!(version_string(&Tree::Float("nothing".to_string())), "null");
    assert_eq!(
        version_string(&Tree::Sequence(vec![Tree::Int(1), text("a\"b"), Tree::Null])),
        "[1,\"a\\\"b\",null]"
    );
    assert_eq!(
        version_string(&Tree::Mapping(vec![entry("b", Tree::Int(2)), entry("a", Tree::Bool(true)), entry("b", Tree::Int(3))])),
        "{\"a\":true,\"b\":2}"
    );
    let parsed = parse_schema_metadata("schema: {schema_id: x, version: 2024}").unwrap();
    assert_eq!(parsed.version, "2024");
    let parsed = parse_schema_metadata("schema: {schema_id: x, version: ~}").unwrap();
    assert_eq!(parsed.version, "null");
    let parsed = parse_schema_metadata("schema: {schema_id: x}").unwrap();
    assert_eq!(parsed.version, "");
}

#[test]
fn fuzzy_pinyin_needs_the_commented_prefix() {
    let with = |rules: &str| parse_yaml(&format!("speller:\n  algebra: {}\n", rules));
    assert!(has_fuzzy_pinyin(&with("['# - derive/zh/z']")));
    assert!(has_fuzzy_pinyin(&with("[abc, 5, '# - derive/']")));
    assert!(!has_fuzzy_pinyin(&with("['- derive/zh/z']")));
    assert!(!has_fuzzy_pinyin(&with("['derive/zh/z']")));
    assert!(!has_fuzzy_pinyin(&with("[' # - derive/zh/z']")));
    assert!(!has_fuzzy_pinyin(&with("['# - derive']")));
    assert!(!has_fuzzy_pinyin(&with("[]")));
    assert!(!has_fuzzy_pinyin(&with("'# - derive/zh/z'")));
    assert!(!has_fuzzy_pinyin(&parse_yaml("speller: ['# - derive/zh/z']")));
    assert!(!has_fuzzy_pinyin(&parse_yaml("algebra: ['# - derive/zh/z']")));
}

#[test]
fn switches_and_strings() {
    assert_eq!(switch_from(&text("x")), None);
    assert_eq!(switch_from(&Tree::Mapping(vec![entry("name", Tree::Int(1))])), None);
    assert_eq!(
        switch_from(&Tree::Mapping(vec![entry("name", text("s")), entry("reset", text("1")), entry("states", Tree::Sequence(vec![]))])),
        Some(SchemaSwitch { name: "s".to_string(), states: Some(vec![]), reset: None })
    );
    assert_eq!(
        switch_from(&Tree::Mapping(vec![entry("name", text("s")), entry("reset", Tree::UInt(5))])),
        Some(SchemaSwitch { name: "s".to_string(), states: None, reset: Some(5) })
    );
    assert_eq!(strings_in(&vec![text("a"), Tree::Null, text(""), Tree::Sequence(vec![text("in")])]), vec!["a".to_string(), "".to_string()]);
}

#[test]
fn health_report() {
    let content = "distribution_name: 鼠鬚管\ndistribution_version: 1.0.2\nrime_version: 1.11.2\ninstall_time: \"Mon Jan  1 00:00:00 2024\"\nextra: 1\n";
    let health = get_health(Platform::MacOs, "/Users/a/Library/Rime".to_string(), true, Some(content));
    let expected = HealthData {
        platform: "darwin".to_string(),
        config_dir: "/Users/a/Library/Rime".to_string(),
        config_dir_exists: true,
        installation: Some(InstallationInfo {
            distribution_name: "鼠鬚管".to_string(),
            distribution_version: "1.0.2".to_string(),
            rime_version: "1.11.2".to_string(),
            install_time: "Mon Jan  1 00:00:00 2024".to_string(),
        }),
    };
    assert_eq!(health, expected);
}

#[test]
fn health_without_installation_file() {
    let health = get_health(Platform::Linux, "".to_string(), false, None);
    assert_eq!(health.platform, "linux");
    assert_eq!(health.config_dir, "");
    assert!(!health.config_dir_exists);
    assert_eq!(health.installation, None);
}

#[test]
fn installation_keys_that_are_missing_give_empty_strings() {
    let empty = InstallationInfo {
        distribution_name: String::new(),
        distribution_version: String::new(),
        rime_version: String::new(),
        install_time: String::new(),
    };
    assert_eq!(get_health(Platform::Windows, "C:\\Rime".to_string(), true, Some("- a list")).installation, Some(InstallationInfo { ..empty_info() }));
    assert_eq!(installation_info(&Tree::Null), empty);
    let partial = installation_info(&parse_yaml("rime_version: 1.9\ndistribution_name: Weasel\n"));
    assert_eq!(partial.distribution_name, "Weasel");
    assert_eq!(partial.rime_version, "");
    assert_eq!(partial.distribution_version, "");
}

fn empty_info() -> InstallationInfo {
    InstallationInfo {
        distribution_name: String::new(),
        distribution_version: String::new(),
        rime_version: String::new(),
        install_time: String::new(),
    }
}

#[test]
fn platform_tags() {
    assert_eq!(platform_name(Platform::MacOs), "darwin");
    assert_eq!(platform_name(Platform::Linux), "linux");
    assert_eq!(platform_name(Platform::Windows), "win32");
    assert_eq!(platform_name(Platform::Unknown), "unknown");
}
