use jilebi::context::{
    check_plugins_installed, context_from_row, distinct_names, enabled_plugins_query, installed_plugins_query,
    missing_plugins, parse_context_plugins, quoted_plugin_list, with_plugin, without_plugin,
};

fn texts(v: &[&str]) -> Vec<String> {
    v.iter().map(|s| s.to_string()).collect()
}

fn sorted(mut v: Vec<String>) -> Vec<String> {
    v.sort();
    v
}

#[test]
fn stored_plugins_read_back_trimmed() {
    let plugins = texts(&["context7", " wikipedia ", "git"]);
    let stored = quoted_plugin_list(&plugins, ", ");
    assert_eq!(stored, "'context7', 'wikipedia', 'git'");
    assert_eq!(parse_context_plugins(&stored), texts(&["context7", "wikipedia", "git"]));
}

#[test]
fn empty_list_reads_back_as_one_empty_name() {
    let stored = quoted_plugin_list(&Vec::new(), ", ");
    assert_eq!(stored, "");
    assert_eq!(parse_context_plugins(&stored), texts(&[""]));
}

#[test]
fn row_gives_name_and_plugins() {
    let c = context_from_row("ide".to_string(), "'context7','git' ,  'x'");
    assert_eq!(c.name, "ide");
    assert_eq!(c.plugins, texts(&["context7", "git", "x"]));
}

#[test]
fn adding_and_removing_plugins_keeps_each_once() {
    let base = texts(&["a", "b", "a"]);
    assert_eq!(distinct_names(&base), texts(&["a", "b"]));
    assert_eq!(with_plugin(&base, "c"), texts(&["a", "b", "c"]));
    assert_eq!(with_plugin(&base, "b"), texts(&["a", "b"]));
    assert_eq!(without_plugin(&base, "a"), texts(&["b"]));
    assert_eq!(without_plugin(&base, "z"), texts(&["a", "b"]));
    assert_eq!(sorted(with_plugin(&texts(&["z", "y"]), "x")), texts(&["x", "y", "z"]));
    let added = with_plugin(&base, "c");
    assert_eq!(sorted(without_plugin(&added, "c")), texts(&["a", "b"]));
}

#[test]
fn missing_plugins_are_reported() {
    let requested = texts(&["a", "b", "c", "b"]);
    let installed = texts(&["b"]);
    assert_eq!(missing_plugins(&requested, &installed), texts(&["a", "c"]));
    assert_eq!(
        check_plugins_installed(&requested, &installed).unwrap_err(),
        "The following plugins are not installed: a, c"
    );
    assert!(check_plugins_installed(&texts(&["b"]), &installed).is_ok());
    assert!(check_plugins_installed(&Vec::new(), &installed).is_ok());
}

#[test]
fn queries_for_plugins() {
    assert_eq!(
        installed_plugins_query(&texts(&["a", " b"])),
        "SELECT name FROM plugins WHERE name IN ('a','b')"
    );
    assert_eq!(
        enabled_plugins_query(Some("'a', 'b'")),
        "SELECT name, path FROM plugins WHERE name IN ('a', 'b') AND state = 'enabled'"
    );
    assert_eq!(enabled_plugins_query(None), "SELECT name, path FROM plugins WHERE state = 'enabled'");
}
