use applejuicecli::configuration::{
    check_update, config_section, get_config, update_config, update_config_text, ConfigTextError,
};
use applejuicecli::json::JsonValue;

fn s(v: &str) -> JsonValue {
    JsonValue::String(v.to_string())
}

fn obj(es: Vec<(&str, JsonValue)>) -> JsonValue {
    JsonValue::Object(es.into_iter().map(|(k, v)| (k.to_string(), v)).collect())
}

fn text(v: Option<&JsonValue>) -> Option<String> {
    v.and_then(|x| x.as_str()).map(|x| x.to_string())
}

#[test]
fn update_then_get_reads_back_and_keeps_members() {
    let config = obj(vec![
        ("global", obj(vec![("a", s("1")), ("b", s("2"))])),
        ("other", obj(vec![("z", s("9"))])),
    ]);
    let res = update_config(config, obj(vec![("b", s("20")), ("c", s("30"))]), "global");
    assert_eq!(res.get("other").unwrap().str_at("z"), Some("9"));
    let global = get_config(res, "global");
    assert_eq!(text(global.get("a")), Some("1".to_string()));
    assert_eq!(text(global.get("b")), Some("20".to_string()));
    assert_eq!(text(global.get("c")), Some("30".to_string()));
}

#[test]
fn update_creates_missing_section() {
    let res = update_config(obj(vec![]), obj(vec![("k", s("v"))]), "proton_installations");
    let section = get_config(res, "proton_installations");
    assert_eq!(text(section.get("k")), Some("v".to_string()));
}

#[test]
fn update_with_nothing_keeps_section() {
    let config = obj(vec![("roblox_installations", obj(vec![("Player", s("x"))]))]);
    let res = update_config(config, obj(vec![]), "roblox_installations");
    let section = get_config(res, "roblox_installations");
    assert_eq!(text(section.get("Player")), Some("x".to_string()));
    let res = update_config(JsonValue::Null, obj(vec![]), "roblox_installations");
    assert!(res.get("roblox_installations").unwrap().is_null());
}

#[test]
fn get_config_of_missing_section_is_null() {
    assert!(get_config(obj(vec![]), "global").is_null());
    assert!(get_config(JsonValue::Bool(true), "global").is_null());
}

#[test]
fn json_value_queries() {
    let v = obj(vec![("a", s("x")), ("a", s("y")), ("t", JsonValue::Bool(true))]);
    assert_eq!(v.str_at("a"), Some("y"));
    assert!(v.get("t").unwrap().is_true());
    assert!(v.get("a").unwrap().is_string("y"));
    assert!(!v.get("a").unwrap().is_string("x"));
    assert!(obj(vec![]).is_empty_object());
    let (a, t) = v.take_pair("a", "t");
    assert_eq!(a.as_str(), Some("y"));
    assert!(t.is_true());
}

#[test]
fn sections_are_read_from_the_file_text() {
    let section = config_section("{\"global\": {\"b\": \"x\", \"n\": 1}, \"other\": 2}", "global").unwrap();
    assert_eq!(section.str_at("b"), Some("x"));
    assert!(matches!(section.get("n"), Some(JsonValue::Number(n)) if n == "1"));
    assert!(config_section("{\"global\": 1}", "missing").unwrap().is_null());
    assert!(config_section("not json", "global").is_none());
    assert!(config_section("", "global").is_none());
}

#[test]
fn updates_are_written_back_as_indented_text() {
    let text = update_config_text("{\"global\":{\"x\":1},\"z\":null}", obj(vec![("y", JsonValue::Bool(true))]), "global")
        .ok()
        .unwrap();
    assert_eq!(text, "{\n  \"global\": {\n    \"x\": 1,\n    \"y\": true\n  },\n  \"z\": null\n}");
    let fresh = update_config_text("{}", obj(vec![("a", s("b"))]), "global").ok().unwrap();
    assert_eq!(fresh, "{\n  \"global\": {\n    \"a\": \"b\"\n  }\n}");
}

#[test]
fn updates_that_cannot_be_made_are_refused() {
    assert!(matches!(update_config_text("{", obj(vec![]), "global"), Err(ConfigTextError::NotJson)));
    assert!(matches!(update_config_text("[1]", obj(vec![]), "global"), Err(ConfigTextError::CannotUpdate)));
    assert!(matches!(update_config_text("{\"global\": 3}", obj(vec![("a", s("b"))]), "global"), Err(ConfigTextError::CannotUpdate)));
    assert!(matches!(update_config_text("{}", s("x"), "global"), Err(ConfigTextError::CannotUpdate)));
    assert!(check_update(&JsonValue::Null, &obj(vec![("a", s("b"))]), "global"));
    assert!(check_update(&obj(vec![("global", JsonValue::Bool(true))]), &obj(vec![]), "global"));
    assert!(!check_update(&obj(vec![("global", JsonValue::Bool(true))]), &obj(vec![("a", s("b"))]), "global"));
}
