use rime_config::json::{compact_json, to_json};
use rime_config::tree::Tree;
use rime_config::yaml_utils::{json_to_yaml, parse_yaml, serialize_patch};

fn text(s: &str) -> Tree {
    Tree::Text(s.to_string())
}

fn entry(key: &str, value: Tree) -> (String, Tree) {
    (key.to_string(), value)
}

#[test]
fn json_values_of_trees() {
    assert_eq!(to_json(&Tree::Null), serde_json::Value::Null);
    assert_eq!(to_json(&Tree::Bool(true)), serde_json::Value::Bool(true));
    assert_eq!(to_json(&Tree::Int(-3)), serde_json::Value::from(-3));
    assert_eq!(to_json(&Tree::Int(3)), serde_json::Value::from(3u64));
    assert_eq!(to_json(&Tree::UInt(u64::MAX)), serde_json::Value::from(u64::MAX));
    assert_eq!(to_json(&Tree::Float("2.5".to_string())), serde_json::Value::from(2.5));
    assert_eq!(to_json(&Tree::Float("-1e-3".to_string())), serde_json::Value::from(-0.001));
    assert_eq!(to_json(&Tree::Float("1.5.2".to_string())), serde_json::Value::Null);
    assert_eq!(to_json(&Tree::Float("true".to_string())), serde_json::Value::Null);
    assert_eq!(to_json(&Tree::Float("7".to_string())), serde_json::Value::from(7));
    assert_eq!(to_json(&text("2.5")), serde_json::Value::from("2.5"));
    let tree = Tree::Mapping(vec![
        entry("list", Tree::Sequence(vec![Tree::Int(1), text("二")])),
        entry("k", Tree::Null),
        entry("list", Tree::Bool(false)),
    ]);
    let mut object = serde_json::Map::new();
    object.insert("list".to_string(), serde_json::Value::Array(vec![serde_json::Value::from(1), serde_json::Value::from("二")]));
    object.insert("k".to_string(), serde_json::Value::Null);
    assert_eq!(to_json(&tree), serde_json::Value::Object(object));
}

#[test]
fn compact_json_text() {
    assert_eq!(compact_json(&Tree::Mapping(vec![])), "{}");
    assert_eq!(compact_json(&Tree::Sequence(vec![])), "[]");
    assert_eq!(compact_json(&text("a\nb")), "\"a\\nb\"");
    assert_eq!(compact_json(&Tree::Float("0.5".to_string())), "0.5");
    assert_eq!(
        compact_json(&Tree::Mapping(vec![entry("z", Tree::Int(1)), entry("a", Tree::Sequence(vec![Tree::UInt(2)]))])),
        "{\"a\":[2],\"z\":1}"
    );
}

#[test]
fn yaml_values_of_trees() {
    assert_eq!(json_to_yaml(&Tree::Null), serde_yaml::Value::Null);
    assert_eq!(json_to_yaml(&Tree::Bool(false)), serde_yaml::Value::Bool(false));
    assert_eq!(json_to_yaml(&Tree::Int(-7)), serde_yaml::Value::from(-7));
    assert_eq!(json_to_yaml(&Tree::UInt(7)), serde_yaml::Value::from(7));
    assert_eq!(json_to_yaml(&Tree::Float("0.25".to_string())), serde_yaml::Value::from(0.25));
    assert_eq!(json_to_yaml(&Tree::Float(".inf".to_string())), serde_yaml::Value::from(f64::INFINITY));
    assert_eq!(json_to_yaml(&Tree::Float("x".to_string())), serde_yaml::Value::Null);
    assert_eq!(json_to_yaml(&text("0.25")), serde_yaml::Value::from("0.25"));
    let tree = Tree::Sequence(vec![Tree::Mapping(vec![entry("b", Tree::Int(1)), entry("a", Tree::Int(2))])]);
    let mut mapping = serde_yaml::Mapping::new();
    mapping.insert(serde_yaml::Value::from("b"), serde_yaml::Value::from(1));
    mapping.insert(serde_yaml::Value::from("a"), serde_yaml::Value::from(2));
    assert_eq!(json_to_yaml(&tree), serde_yaml::Value::Sequence(vec![serde_yaml::Value::Mapping(mapping)]));
}

#[test]
fn written_patches_read_back() {
    let patches = vec![
        Tree::Mapping(vec![]),
        Tree::Mapping(vec![entry("menu/page_size", Tree::Int(9))]),
        Tree::Mapping(vec![
            entry("z", text("true")),
            entry("a", text("0x112233")),
            entry("n", text("null")),
            entry("m", text("multi\nline: text")),
            entry("", text("")),
            entry("u", Tree::UInt(u64::MAX)),
            entry("i", Tree::Int(i64::MIN)),
            entry("b", Tree::Bool(false)),
            entry("nothing", Tree::Null),
            entry("list", Tree::Sequence(vec![Tree::Sequence(vec![]), Tree::Mapping(vec![]), text("- x")])),
            entry("deep", Tree::Mapping(vec![entry("键", Tree::Mapping(vec![entry("k", Tree::Int(0))]))])),
        ]),
    ];
    for patch in patches {
        let written = serialize_patch(&patch);
        assert!(written.starts_with("patch:"));
        let read = parse_yaml(&written);
        assert_eq!(read, Tree::Mapping(vec![entry("patch", patch)]));
    }
}
