use lpm::config::{default_config_to_write, ConfigError, LpmConfig, Module, DEFAULT_CONFIG};
use lpm::document::JsonValue;

fn text(s: &str) -> JsonValue {
    JsonValue::Text(s.to_string())
}

fn object(members: Vec<(&str, JsonValue)>) -> JsonValue {
    JsonValue::Object(members.into_iter().map(|(k, v)| (k.to_string(), v)).collect())
}

fn module(name: &str, path: &str) -> JsonValue {
    object(vec![("name", text(name)), ("dylib_path", text(path))])
}

#[test]
fn member_finds_the_first_of_that_name() {
    let doc = object(vec![("a", JsonValue::Number(1)), ("b", text("x")), ("a", JsonValue::Number(2))]);
    assert_eq!(doc.member("a"), Some(&JsonValue::Number(1)));
    assert_eq!(doc.member("b"), Some(&text("x")));
    assert_eq!(doc.member("c"), None);
    assert_eq!(JsonValue::Null.member("a"), None);
    assert_eq!(JsonValue::Array(vec![]).member("a"), None);
}

#[test]
fn values_are_read_by_their_type() {
    assert_eq!(text("hi").as_text(), Some("hi"));
    assert_eq!(JsonValue::Number(7).as_text(), None);
    assert_eq!(JsonValue::Number(-7).as_number(), Some(-7));
    assert_eq!(JsonValue::Fraction.as_number(), None);
    assert_eq!(JsonValue::Boolean(true).as_number(), None);
    assert_eq!(JsonValue::Array(vec![JsonValue::Null]).as_items(), Some(&vec![JsonValue::Null]));
    assert_eq!(text("hi").as_items(), None);
    let doc = object(vec![("n", JsonValue::Number(3)), ("t", text("x"))]);
    assert_eq!(doc.text_member("t"), Some("x".to_string()));
    assert_eq!(doc.text_member("n"), None);
    assert_eq!(doc.number_member("n"), Some(3));
    assert_eq!(doc.number_member("t"), None);
    assert_eq!(doc.number_member("missing"), None);
}

#[test]
fn module_from_object() {
    let m = Module::from_json_object(&module("net", "/usr/lib/net.so")).unwrap();
    assert_eq!(m, Module { name: "net".to_string(), dylib_path: "/usr/lib/net.so".to_string() });
}

#[test]
fn module_requires_both_fields() {
    let no_name = object(vec![("dylib_path", text("/x.so"))]);
    assert_eq!(Module::from_json_object(&no_name), Err(ConfigError::MissingName));
    let no_path = object(vec![("name", text("x"))]);
    assert_eq!(Module::from_json_object(&no_path), Err(ConfigError::MissingDylibPath));
    let neither = object(vec![]);
    assert_eq!(Module::from_json_object(&neither), Err(ConfigError::MissingName));
    let wrong_type = object(vec![("name", JsonValue::Number(1)), ("dylib_path", text("/x.so"))]);
    assert_eq!(Module::from_json_object(&wrong_type), Err(ConfigError::MissingName));
    assert_eq!(Module::from_json_object(&JsonValue::Null), Err(ConfigError::MissingName));
}

#[test]
fn modules_from_array() {
    let list = JsonValue::Array(vec![module("a", "/a.so"), module("b", "/b.so")]);
    let modules = Module::from_json_array(&list).unwrap();
    assert_eq!(modules.len(), 2);
    assert_eq!(modules[0].name, "a");
    assert_eq!(modules[1].dylib_path, "/b.so");
    assert_eq!(Module::from_json_array(&JsonValue::Array(vec![])), Ok(vec![]));
}

#[test]
fn modules_from_array_stop_at_the_first_fault() {
    let list = JsonValue::Array(vec![
        module("a", "/a.so"),
        object(vec![("name", text("b"))]),
        object(vec![("dylib_path", text("/c.so"))]),
    ]);
    assert_eq!(Module::from_json_array(&list), Err(ConfigError::MissingDylibPath));
}

#[test]
fn modules_need_an_array() {
    assert_eq!(Module::from_json_array(&JsonValue::Null), Err(ConfigError::ExpectedArray));
    assert_eq!(Module::from_json_array(&module("a", "/a.so")), Err(ConfigError::ExpectedArray));
    assert_eq!(ConfigError::ExpectedArray.message(), "Wrong input, expected an array");
}

#[test]
fn config_from_object() {
    let doc = object(vec![("modules", JsonValue::Array(vec![module("a", "/a.so")]))]);
    let config = LpmConfig::from_json_object(&doc).unwrap();
    assert_eq!(
        config,
        LpmConfig { modules: vec![Module { name: "a".to_string(), dylib_path: "/a.so".to_string() }] }
    );
}

#[test]
fn config_needs_the_list_of_modules() {
    assert_eq!(LpmConfig::from_json_object(&object(vec![])), Err(ConfigError::ExpectedArray));
    assert_eq!(
        LpmConfig::from_json_object(&object(vec![("modules", text("none"))])),
        Err(ConfigError::ExpectedArray)
    );
    assert_eq!(LpmConfig::from_json_object(&JsonValue::Null), Err(ConfigError::ExpectedArray));
    let faulty = object(vec![("modules", JsonValue::Array(vec![object(vec![])]))]);
    assert_eq!(LpmConfig::from_json_object(&faulty), Err(ConfigError::MissingName));
}

#[test]
fn configs_from_array() {
    let one = object(vec![("modules", JsonValue::Array(vec![]))]);
    let two = object(vec![("modules", JsonValue::Array(vec![module("m", "/m.so")]))]);
    let configs = LpmConfig::from_json_array(&JsonValue::Array(vec![one, two])).unwrap();
    assert_eq!(configs.len(), 2);
    assert!(configs[0].modules.is_empty());
    assert_eq!(configs[1].modules[0].name, "m");
    assert_eq!(LpmConfig::from_json_array(&object(vec![])), Err(ConfigError::ExpectedArray));
    let bad = JsonValue::Array(vec![object(vec![("modules", JsonValue::Array(vec![]))]), JsonValue::Null]);
    assert_eq!(LpmConfig::from_json_array(&bad), Err(ConfigError::ExpectedArray));
}

#[test]
fn default_config_names_no_module() {
    let config = LpmConfig::from_json_object(&LpmConfig::default_document()).unwrap();
    assert!(config.modules.is_empty());
    assert_eq!(DEFAULT_CONFIG, "{\n    \"modules\": []\n}\n");
}

#[test]
fn default_config_is_written_only_where_no_file_is() {
    assert_eq!(default_config_to_write(true), None);
    assert_eq!(default_config_to_write(false), Some(DEFAULT_CONFIG));
}

#[test]
fn config_errors_have_messages() {
    assert_eq!(ConfigError::MissingName.message(), "Field 'name' is required");
    assert_eq!(ConfigError::MissingDylibPath.message(), "Field 'dylib_path' is required");
}
