use conductor::env::{expand_env, EnvMap};
use conductor::names::eq_ignore_case;
use conductor::util::path_join;

fn env_of(pairs: &[(&str, &str)]) -> EnvMap {
    let mut e = EnvMap::new();
    for (k, v) in pairs {
        e.set(k.to_string(), v.to_string());
    }
    e
}

#[test]
fn expand_substitutes_variable() {
    let e = env_of(&[("BAR", "qux")]);
    assert_eq!(expand_env("%BAR%baz", &e), "quxbaz");
}

#[test]
fn expand_mixed_text() {
    let e = env_of(&[("HOST", "localhost"), ("PORT", "8080")]);
    assert_eq!(expand_env("http://%HOST%:%PORT%/x", &e), "http://localhost:8080/x");
}

#[test]
fn expand_missing_variable_falls_back_verbatim() {
    let e = EnvMap::new();
    assert_eq!(expand_env("%NOPE%baz", &e), "%NOPE%baz");
}

#[test]
fn expand_unpaired_percent_falls_back_verbatim() {
    let e = env_of(&[("A", "1")]);
    assert_eq!(expand_env("50%", &e), "50%");
}

#[test]
fn expand_bad_variable_name_falls_back_verbatim() {
    let e = env_of(&[("A B", "1")]);
    assert_eq!(expand_env("%A B%", &e), "%A B%");
}

#[test]
fn expand_no_tokens_is_identity() {
    let e = env_of(&[("A", "1")]);
    assert_eq!(expand_env("plain text", &e), "plain text");
}

#[test]
fn env_later_layer_wins() {
    let mut e = env_of(&[("K", "low")]);
    let hi = env_of(&[("K", "high")]);
    e.extend(&hi);
    assert_eq!(e.get("K"), Some(String::from("high")));
}

#[test]
fn env_get_missing_is_none() {
    let e = env_of(&[("K", "v")]);
    assert_eq!(e.get("OTHER"), None);
}

#[test]
fn env_expand_values_uses_whole_map() {
    let e = env_of(&[("BAR", "qux"), ("FOO", "%BAR%baz")]);
    let x = e.expand_values();
    assert_eq!(x.get("FOO"), Some(String::from("quxbaz")));
    assert_eq!(x.get("BAR"), Some(String::from("qux")));
}

#[test]
fn names_compare_case_insensitively() {
    assert!(eq_ignore_case("WebServer", "webserver"));
    assert!(eq_ignore_case("ABC", "abc"));
    assert!(!eq_ignore_case("abc", "abd"));
}

#[test]
fn path_join_relative() {
    assert_eq!(path_join("/project", "web"), "/project/web");
}

#[test]
fn path_join_absolute_sub_wins() {
    assert_eq!(path_join("/project", "/opt/web"), "/opt/web");
}

#[test]
fn path_join_trailing_separator() {
    assert_eq!(path_join("/project/", "web"), "/project/web");
}

#[test]
fn path_join_empty_root() {
    assert_eq!(path_join("", "web"), "web");
}
