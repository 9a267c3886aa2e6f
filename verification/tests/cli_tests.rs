use jilebi::cli::{
    allows_any_origin, cors_env_values, language_at, language_choice, language_from_lowercase, plugin_download_url,
    release_download_url, template_archive_name, template_url, package_json_for, listing_line, manifest_code, mcp_path,
    pad_right, release_file_name, release_target, rule_line, update_available,
};
use jilebi::env::{env_from_storage, stored_env, EnvType, PluginEnv};
use jilebi::manifest::manifest_from_text;

fn texts(v: &[&str]) -> Vec<String> {
    v.iter().map(|s| s.to_string()).collect()
}

#[test]
fn new_plugin_manifest_names_the_plugin() {
    let code = manifest_code("my-plugin");
    assert_eq!(
        code,
        "\nname = \"my-plugin\"\nversion = \"1.0.0\"\nhomepage = \"\"\ncreator = \"\"\ncontact = \"\"\n\n[resources]\n\n[prompts]\n\n[tools]\n"
    );
    let m = manifest_from_text(&code).unwrap();
    assert_eq!(m.name, "my-plugin");
}

#[test]
fn languages_are_chosen_in_any_case() {
    assert_eq!(language_choice("typescript").unwrap(), "typescript");
    assert_eq!(language_choice("JAVASCRIPT").unwrap(), "javascript");
    assert_eq!(language_choice("rust").unwrap_err(), "Invalid language selected");
    let js = || "javascript".to_string();
    let ts = || "typescript".to_string();
    assert_eq!(language_from_lowercase("typescript", js(), ts()).unwrap(), "typescript");
    assert_eq!(language_from_lowercase("javascript", js(), ts()).unwrap(), "javascript");
    assert_eq!(language_from_lowercase("TypeScript", js(), ts()).unwrap_err(), "Invalid language selected");
}

#[test]
fn download_addresses() {
    assert_eq!(template_url("typescript.zip"), "https://jilebi.ai/api/download/templates/typescript.zip");
    assert_eq!(template_url("rollup.config.js"), "https://jilebi.ai/api/download/templates/rollup.config.js");
    assert_eq!(template_archive_name("javascript"), "javascript.zip");
    assert_eq!(plugin_download_url("weather"), "https://jilebi.ai/api/download/plugins/weather");
    assert_eq!(release_download_url("jilebi-linux.zip"), "https://jilebi.ai/api/download/bin/jilebi-linux.zip");
    assert_eq!(language_at(0), "javascript");
    assert_eq!(language_at(1), "typescript");
}

#[test]
fn listing_lines_are_padded() {
    assert_eq!(pad_right("ab", 4), "ab  ");
    assert_eq!(pad_right("abcdef", 4), "abcdef");
    let line = listing_line("Plugin Name", "Version", "State");
    assert_eq!(line.len(), 30 + 1 + 10 + 1 + 10);
    assert!(line.starts_with("Plugin Name "));
    assert_eq!(&line[31..41], "Version   ");
    assert_eq!(rule_line(60), "-".repeat(60));
    assert_eq!(rule_line(0), "");
}

#[test]
fn release_files_per_system() {
    assert_eq!(release_target("linux").unwrap(), "unknown-linux-gnu");
    assert_eq!(release_target("windows").unwrap(), "pc-windows-msvc");
    assert_eq!(release_target("macos").unwrap(), "apple-darwin");
    assert_eq!(release_target("apple").unwrap(), "apple-darwin");
    assert_eq!(release_target("freebsd").unwrap_err(), "Unsupported OS: freebsd");
    assert_eq!(release_file_name("x86_64", "unknown-linux-gnu"), "jilebi-x86_64-unknown-linux-gnu.zip");
}

#[test]
fn updates_compare_versions() {
    assert_eq!(update_available("0.1.0", "0.2.0"), Ok(true));
    assert_eq!(update_available("0.2.0", "0.2.0"), Ok(false));
    assert_eq!(update_available("1.0.0", "0.9.0"), Ok(false));
    assert!(update_available("one", "0.2.0").is_err());
    assert!(update_available("0.1.0", "latest").is_err());
}

#[test]
fn mcp_path_gets_a_leading_slash() {
    assert_eq!(mcp_path("/mcp").unwrap(), "/mcp");
    assert_eq!(mcp_path("mcp").unwrap(), "/mcp");
    assert_eq!(mcp_path("   ").unwrap_err(), "MCP path cannot be empty");
    assert_eq!(mcp_path("").unwrap_err(), "MCP path cannot be empty");
}

#[test]
fn cors_values_split_on_commas() {
    let values = cors_env_values("https://a.com,https://b.com");
    assert_eq!(values, texts(&["https://a.com", "https://b.com"]));
    assert!(!allows_any_origin(&values));
    assert!(allows_any_origin(&cors_env_values("*")));
}

#[test]
fn env_types_read_from_text() {
    assert_eq!(EnvType::try_from("secret".to_string()), Ok(EnvType::Secret));
    assert_eq!(EnvType::try_from("normal".to_string()), Ok(EnvType::Normal));
    assert_eq!(EnvType::try_from("Secret".to_string()), Err("Invalid EnvType: Secret".to_string()));
    assert_eq!(EnvType::Secret.to_display(), "Secret");
    assert_eq!(EnvType::Normal.stored_text(), "normal");
    assert_eq!(EnvType::default(), EnvType::Normal);
}

#[test]
fn stored_variables_read_back() {
    let normal = PluginEnv::new("URL".to_string(), "http://x".to_string(), EnvType::Normal, "{}".to_string());
    let s = stored_env(&normal);
    assert_eq!(s.env_type, "normal");
    assert_eq!(s.value, "http://x");
    assert!(s.secret.is_none());
    let back = env_from_storage(s.env_name, s.value, s.env_type, s.schema, None).unwrap();
    assert_eq!(back, normal);

    let secret = PluginEnv::new("TOKEN".to_string(), "t0k".to_string(), EnvType::Secret, "{}".to_string());
    let s = stored_env(&secret);
    assert_eq!(s.env_type, "secret");
    assert_eq!(s.value, "set-in-credential-manager");
    assert_eq!(s.secret.as_deref(), Some("t0k"));
    let back = env_from_storage(s.env_name, s.value, s.env_type, s.schema, s.secret).unwrap();
    assert_eq!(back, secret);
    let missing = env_from_storage("T".to_string(), "x".to_string(), "secret".to_string(), "{}".to_string(), None)
        .unwrap();
    assert_eq!(missing.value, "");
    let err = env_from_storage("T".to_string(), "x".to_string(), "other".to_string(), "{}".to_string(), None);
    assert_eq!(err.unwrap_err(), "Invalid EnvType: other");
    assert_eq!(PluginEnv::default().env_type, EnvType::Normal);
}

#[test]
fn package_json_takes_the_plugin_name() {
    assert_eq!(
        package_json_for(r#"{"name": "replace", "main": "replace.js"}"#, "weather"),
        r#"{"name": "weather", "main": "weather.js"}"#
    );
    assert_eq!(package_json_for("replacereplace", "x"), "xx");
    assert_eq!(package_json_for("repla", "x"), "repla");
    assert_eq!(package_json_for("", "x"), "");
}
