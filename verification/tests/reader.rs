use rime_config::reader::{
    base_config_of, custom_config_of, extract_patch, read_base_config, read_config,
    read_custom_config, ConfigMode, ConfigResponse,
};
use rime_config::tree::{find_key, first_positions, insert_entry, Tree};
use rime_config::yaml_utils::{parse_yaml, YamlNode};

fn text(s: &str) -> Tree {
    Tree::Text(s.to_string())
}

fn entry(key: &str, value: Tree) -> (String, Tree) {
    (key.to_string(), value)
}

fn empty() -> Tree {
    Tree::Mapping(vec![])
}

#[test]
fn missing_file_tolerance() {
    let response = read_config("default", None, Some("config_version: '1.0'\nmenu: {page_size: 5}\n"), None);
    assert_eq!(response.base, parse_yaml("config_version: '1.0'\nmenu: {page_size: 5}\n"));
    assert_eq!(
        response.base,
        Tree::Mapping(vec![
            entry("config_version", text("1.0")),
            entry("menu", Tree::Mapping(vec![entry("page_size", Tree::Int(5))])),
        ])
    );
    assert_eq!(response.custom_patch, empty());
    assert_eq!(read_base_config("default", None), empty());
    assert_eq!(read_custom_config(None), empty());
}

#[test]
fn malformed_yaml() {
    assert_eq!(read_base_config("default", Some("a: [1, 2")), empty());
    assert_eq!(read_base_config("squirrel", Some("{{{")), empty());
    assert_eq!(read_custom_config(Some("patch: [")), empty());
    let response = read_config("rime_ice", Some("all"), Some("key: 'open"), Some("\t- x"));
    assert_eq!(response, ConfigResponse { base: empty(), custom_patch: empty() });
}

#[test]
fn read_twice_gives_equal_results() {
    let base = "style: {text_color: 0x00FF00, font_point: 14}\n";
    let custom = "patch:\n  style/font_point: 16\n";
    let first = read_config("squirrel", None, Some(base), Some(custom));
    let second = read_config("squirrel", None, Some(base), Some(custom));
    assert_eq!(first, second);
}

#[test]
fn modes_select_the_parts() {
    let base = "a: 1\n";
    let custom = "patch: {b: 2}\n";
    let a = Tree::Mapping(vec![entry("a", Tree::Int(1))]);
    let b = Tree::Mapping(vec![entry("b", Tree::Int(2))]);
    assert_eq!(read_config("x", Some("base"), Some(base), Some(custom)), ConfigResponse { base: parse_yaml(base), custom_patch: empty() });
    assert_eq!(read_config("x", Some("custom"), Some(base), Some(custom)), ConfigResponse { base: empty(), custom_patch: b });
    let both = read_config("x", Some("all"), Some(base), Some(custom));
    assert_eq!(both.base, a);
    assert_eq!(read_config("x", Some("anything"), Some(base), Some(custom)), both);
    assert_eq!(read_config("x", None, Some(base), Some(custom)), both);
    assert_eq!(read_config("x", Some("BASE"), Some(base), Some(custom)), both);
    assert_eq!(ConfigMode::from_selector(Some("base")), ConfigMode::Base);
    assert_eq!(ConfigMode::from_selector(Some("custom")), ConfigMode::Custom);
    assert_eq!(ConfigMode::from_selector(Some("")), ConfigMode::All);
    assert_eq!(ConfigMode::from_selector(None), ConfigMode::All);
    assert!(ConfigMode::Base.needs_base() && !ConfigMode::Base.needs_custom());
    assert!(!ConfigMode::Custom.needs_base() && ConfigMode::Custom.needs_custom());
    assert!(ConfigMode::All.needs_base() && ConfigMode::All.needs_custom());
}

#[test]
fn colors_for_the_appearance_base_only() {
    let content = "style: {text_color: 255}\npatch: {back_color: 1}\n";
    let colored = read_base_config("squirrel", Some(content));
    assert_eq!(colored.get("style").unwrap().get("text_color"), Some(&text("0x0000FF")));
    let plain = read_base_config("weasel", Some(content));
    assert_eq!(plain.get("style").unwrap().get("text_color"), Some(&Tree::Int(255)));
    let patch = read_custom_config(Some(content));
    assert_eq!(patch, Tree::Mapping(vec![entry("back_color", Tree::Int(1))]));
    let both = read_config("squirrel", None, Some(content), Some(content));
    assert_eq!(both.base, colored);
    assert_eq!(both.custom_patch, patch);
}

#[test]
fn patch_extraction() {
    assert_eq!(read_custom_config(Some("")), empty());
    assert_eq!(read_custom_config(Some("just text")), empty());
    assert_eq!(read_custom_config(Some("- a\n- b\n")), empty());
    assert_eq!(read_custom_config(Some("other: {a: 1}\n")), empty());
    assert_eq!(read_custom_config(Some("patch: 5\n")), empty());
    assert_eq!(read_custom_config(Some("patch: [1]\n")), empty());
    assert_eq!(read_custom_config(Some("patch:\n")), empty());
    assert_eq!(read_custom_config(Some("patch: {}\n")), empty());
    assert_eq!(
        read_custom_config(Some("patch:\n  \"menu/page_size\": 9\n  list: [a]\n")),
        Tree::Mapping(vec![entry("menu/page_size", Tree::Int(9)), entry("list", Tree::Sequence(vec![text("a")]))])
    );
    assert_eq!(extract_patch(&Tree::Null), empty());
    assert_eq!(extract_patch(&Tree::Mapping(vec![entry("patch", text("x")), entry("patch", empty())])), empty());
}

#[test]
fn documents_in_the_own_type() {
    let node = YamlNode::Mapping(vec![(
        YamlNode::Text("patch".to_string()),
        YamlNode::Mapping(vec![(YamlNode::Bool(true), YamlNode::Signed(-1))]),
    )]);
    assert_eq!(custom_config_of(Some(node)), Tree::Mapping(vec![entry("true", Tree::Int(-1))]));
    assert_eq!(custom_config_of(None), empty());
    assert_eq!(base_config_of("squirrel", None), empty());
    let node = YamlNode::Mapping(vec![(YamlNode::Text("label_color".to_string()), YamlNode::Unsigned(0x123456))]);
    assert_eq!(base_config_of("squirrel", Some(node)), Tree::Mapping(vec![entry("label_color", text("0x123456"))]));
    assert_eq!(base_config_of("default", Some(YamlNode::Null)), Tree::Null);
}

#[test]
fn lookups_take_the_first_entry() {
    let tree = Tree::Mapping(vec![entry("a", Tree::Int(1)), entry("b", Tree::Int(2)), entry("a", Tree::Int(3))]);
    assert_eq!(tree.get("a"), Some(&Tree::Int(1)));
    assert_eq!(tree.get("b"), Some(&Tree::Int(2)));
    assert_eq!(tree.get("c"), None);
    assert_eq!(text("a").get("a"), None);
    if let Tree::Mapping(entries) = &tree {
        assert_eq!(find_key(entries, "a"), Some(0));
        assert_eq!(find_key(entries, "b"), Some(1));
        assert_eq!(find_key(entries, ""), None);
        assert_eq!(first_positions(entries), vec![0, 1]);
    }
    assert_eq!(tree.clone(), tree);
}

#[test]
fn insert_replaces_or_appends() {
    let mut entries = vec![entry("a", Tree::Int(1)), entry("b", Tree::Int(2)), entry("a", Tree::Int(3))];
    insert_entry(&mut entries, "a".to_string(), Tree::Null);
    assert_eq!(entries, vec![entry("a", Tree::Null), entry("b", Tree::Int(2)), entry("a", Tree::Int(3))]);
    insert_entry(&mut entries, "c".to_string(), Tree::Bool(true));
    assert_eq!(entries.len(), 4);
    assert_eq!(entries[3], entry("c", Tree::Bool(true)));
}

#[test]
fn numbers_as_signed_and_unsigned() {
    assert_eq!(Tree::Int(-1).as_i64(), Some(-1));
    assert_eq!(Tree::Int(-1).as_u64(), None);
    assert_eq!(Tree::Int(7).as_u64(), Some(7));
    assert_eq!(Tree::UInt(7).as_i64(), Some(7));
    assert_eq!(Tree::UInt(9223372036854775807).as_i64(), Some(i64::MAX));
    assert_eq!(Tree::UInt(9223372036854775808).as_i64(), None);
    assert_eq!(Tree::UInt(u64::MAX).as_u64(), Some(u64::MAX));
    assert_eq!(Tree::Float("1.0".to_string()).as_i64(), None);
    assert_eq!(text("1").as_u64(), None);
    assert_eq!(text("s").as_text(), Some(&"s".to_string()));
    assert_eq!(Tree::Null.as_text(), None);
    assert_eq!(Tree::Sequence(vec![Tree::Null]).as_sequence(), Some(&vec![Tree::Null]));
    assert_eq!(Tree::Null.as_sequence(), None);
    assert_eq!(Tree::empty_mapping(), empty());
}
