use jilebi::plugin::{
    new_plugin_row, plugin_from_fields, plugin_from_row, plugin_log_file_name, state_change, PluginOrigin,
    PluginState,
};
use jilebi::store::{
    download_count_after, download_object_key, latest_release_version, manifest_object_key,
    manifest_with_downloads, parse_latest_plugin_version, plugin_base_name, plugin_listing, AppError,
    DownloadReply, DownloadStat, FileType, download_reply,
};
use jilebi::toml_doc::{parse_toml, TomlValue};

fn texts(v: &[&str]) -> Vec<String> {
    v.iter().map(|s| s.to_string()).collect()
}

fn stat(name: &str, count: i64) -> DownloadStat {
    DownloadStat { id: 0, name: name.to_string(), count, file_type: FileType::Plugins }
}

fn message(e: &AppError) -> String {
    e.status_and_message().1
}

#[test]
fn origin_and_state_texts_read_back() {
    assert_eq!(PluginOrigin::Local.to_display(), "local");
    assert_eq!(PluginOrigin::Jilebi.to_display(), "jilebi");
    assert_eq!(PluginState::Enabled.to_display(), "enabled");
    assert_eq!(PluginState::Disabled.to_display(), "disabled");
    for o in [PluginOrigin::Local, PluginOrigin::Jilebi] {
        assert_eq!(PluginOrigin::from_text(&o.to_display()), Some(o));
    }
    for s in [PluginState::Enabled, PluginState::Disabled] {
        assert_eq!(PluginState::from_text(&s.to_display()), Some(s));
    }
    assert_eq!(PluginOrigin::from_text("Local"), None);
    assert_eq!(PluginState::from_text("on"), None);
}

#[test]
fn plugin_row_is_read() {
    let p = plugin_from_row(
        "weather".to_string(),
        "/plugins".to_string(),
        "1.0.0".to_string(),
        "jilebi",
        "enabled",
        "Tue, 1 Jul 2003 10:52:37 +0200",
        "Wed, 18 Feb 2015 23:16:09 GMT",
    )
    .unwrap();
    assert_eq!(p.name, "weather");
    assert_eq!(p.path, "/plugins");
    assert_eq!(p.origin, PluginOrigin::Jilebi);
    assert_eq!(p.state, PluginState::Enabled);
    assert_eq!(p.date_installed, 1057049557);
    assert_eq!(p.last_updated, 1424301369);
}

#[test]
fn unreadable_plugin_rows() {
    let bad_date = plugin_from_row(
        "w".to_string(),
        "/p".to_string(),
        "1".to_string(),
        "local",
        "disabled",
        "yesterday",
        "Wed, 18 Feb 2015 23:16:09 GMT",
    );
    assert_eq!(bad_date.unwrap_err(), "Could not query plugin from DB, please check logs");
    let bad_state = plugin_from_fields(
        "w".to_string(),
        "/p".to_string(),
        "1".to_string(),
        "local",
        "paused",
        Some(1),
        Some(2),
    );
    assert_eq!(bad_state.unwrap_err(), "Could not query plugin from DB, please check logs");
    let ok = plugin_from_fields("w".to_string(), "/p".to_string(), "1".to_string(), "local", "disabled", Some(1), Some(2))
        .unwrap();
    assert_eq!(ok.origin, PluginOrigin::Local);
    assert_eq!(ok.state, PluginState::Disabled);
}

#[test]
fn new_rows_and_state_changes() {
    let row = new_plugin_row("weather", "/plugins", "0.2.0");
    assert_eq!(row.name, "weather");
    assert_eq!(row.version, "0.2.0");
    assert_eq!(row.origin, "jilebi");
    assert_eq!(row.state, "enabled");
    assert_eq!(row.date_installed, row.last_updated);
    let readable = plugin_from_row(
        row.name.clone(),
        row.path.clone(),
        row.version.clone(),
        &row.origin,
        &row.state,
        &row.date_installed,
        &row.last_updated,
    );
    let read = readable.unwrap();
    assert_eq!(read.origin, PluginOrigin::Jilebi);
    assert_eq!(read.state, PluginState::Enabled);
    assert_eq!(read.date_installed, read.last_updated);
    assert!(read.date_installed > 1_600_000_000);
    let (state, when) = state_change(PluginState::Disabled);
    assert_eq!(state, "disabled");
    let changed = plugin_from_row(
        row.name.clone(),
        row.path.clone(),
        row.version.clone(),
        &row.origin,
        &state,
        &row.date_installed,
        &when,
    )
    .unwrap();
    assert_eq!(changed.state, PluginState::Disabled);
    assert!(changed.last_updated >= changed.date_installed);
    assert_eq!(plugin_log_file_name("weather"), "weather.logs");
}

#[test]
fn file_types_and_errors() {
    assert_eq!(FileType::Plugins.to_display(), "plugins");
    assert_eq!(FileType::from_text("bin"), Some(FileType::Bin));
    assert_eq!(FileType::from_text("templates"), Some(FileType::Templates));
    assert_eq!(FileType::from_text("Bin"), None);
    assert_eq!(AppError::PluginNotFound("no".to_string()).status_and_message(), (404, "no".to_string()));
    assert_eq!(AppError::BinaryNotFound("b".to_string()).status_and_message().0, 404);
    assert_eq!(AppError::TemplateNotFound("t".to_string()).status_and_message().0, 404);
    assert_eq!(AppError::BadRequest("bad".to_string()).status_and_message(), (400, "bad".to_string()));
    assert_eq!(AppError::D1Error("d".to_string()).status_and_message().0, 500);
    assert_eq!(AppError::R2Error("r".to_string()).status_and_message().0, 500);
    assert_eq!(AppError::InternalError("i".to_string()).status_and_message(), (500, "i".to_string()));
}

#[test]
fn newest_plugin_version_is_chosen() {
    let keys = texts(&[
        "plugins/weather/1.0.0/plugin.zip",
        "plugins/weather/1.10.0/plugin.zip",
        "plugins/weather/1.2.0/manifest.toml",
        "plugins/weather/latest/plugin.zip",
        "plugins/news/9.0.0/plugin.zip",
    ]);
    assert_eq!(parse_latest_plugin_version("weather", &keys).unwrap(), "1.10.0");
    assert_eq!(parse_latest_plugin_version("news", &keys).unwrap(), "9.0.0");
    let err = parse_latest_plugin_version("sports", &keys).unwrap_err();
    assert_eq!(message(&err), "Failed to parse plugin version");
    let pre = texts(&["plugins/w/1.0.0-beta/plugin.zip", "plugins/w/1.0.0/plugin.zip", "plugins/w/0.9.9/x"]);
    assert_eq!(parse_latest_plugin_version("w", &pre).unwrap(), "1.0.0");
    let neighbours = texts(&["plugins/mem/1.0.0/plugin.zip", "plugins/memory/5.0.0/plugin.zip"]);
    assert_eq!(parse_latest_plugin_version("mem", &neighbours).unwrap(), "5.0.0");
    assert_eq!(parse_latest_plugin_version("memory", &neighbours).unwrap(), "5.0.0");
    let elsewhere = texts(&["templates/weather/2.0.0/x"]);
    assert!(parse_latest_plugin_version("weather", &elsewhere).is_err());
}

#[test]
fn newest_release_is_chosen() {
    let keys = texts(&["bin/0.1.0/jilebi.zip", "bin/0.3.0/jilebi.zip", "bin/0.2.5/jilebi.zip", "bin/readme"]);
    assert_eq!(latest_release_version(&keys).unwrap(), "0.3.0");
    let err = latest_release_version(&texts(&["bin/readme"])).unwrap_err();
    assert_eq!(message(&err), "Failed to parse release version");
}

#[test]
fn download_keys() {
    assert_eq!(plugin_base_name("weather.zip"), "weather");
    assert_eq!(plugin_base_name("weather"), "weather");
    assert_eq!(download_object_key(FileType::Plugins, "weather.zip", "1.0.0"), "plugins/weather/1.0.0/plugin.zip");
    assert_eq!(download_object_key(FileType::Bin, "jilebi-x86_64.zip", "0.3.0"), "bin/0.3.0/jilebi-x86_64.zip");
    assert_eq!(download_object_key(FileType::Templates, "javascript.zip", ""), "templates/javascript.zip");
    assert_eq!(manifest_object_key("weather", "1.0.0"), "plugins/weather/1.0.0/manifest.toml");
    assert_eq!(download_count_after(&vec![stat("weather.zip", 41), stat("weather.zip", 7)]), 42);
    assert_eq!(download_count_after(&Vec::new()), 1);
}

#[test]
fn listing_shows_each_plugin_with_its_downloads() {
    let keys = texts(&[
        "plugins/weather/1.0.0/plugin.zip",
        "plugins/news/0.1.0/plugin.zip",
        "plugins/weather/1.1.0/plugin.zip",
        "plugins/readme.md",
    ]);
    let stats = vec![stat("weather.zip", 3), stat("news.zip", 1), stat("weather.zip", 5)];
    let listing = plugin_listing(&keys, &stats).unwrap();
    assert_eq!(listing.len(), 2);
    assert_eq!(listing[0].name, "weather");
    assert_eq!(listing[0].version, "1.1.0");
    assert_eq!(listing[0].download_count, 5);
    assert_eq!(listing[1].name, "news");
    assert_eq!(listing[1].version, "0.1.0");
    assert_eq!(listing[1].download_count, 1);
    let no_version = texts(&["plugins/weather/latest/plugin.zip"]);
    let err = plugin_listing(&no_version, &stats).unwrap_err();
    assert_eq!(message(&err), "Failed to parse plugin version");
}

#[test]
fn plugin_page_adds_downloads() {
    let doc = parse_toml("name = \"weather\"\nversion = \"1.0.0\"\n").unwrap();
    let entries = manifest_with_downloads(doc, 12).unwrap();
    let downloads = entries.iter().find(|(k, _)| k == "downloads").unwrap();
    assert!(matches!(downloads.1, TomlValue::Int(12)));
    assert_eq!(entries.len(), 3);
    let again = manifest_with_downloads(TomlValue::Table(entries), 13).unwrap();
    assert_eq!(again.len(), 3);
    let err = manifest_with_downloads(TomlValue::Int(1), 1).unwrap_err();
    assert_eq!(message(&err), "could not parse to hashmap");
}

#[test]
fn file_types_read_back_from_their_names() {
    for t in [FileType::Plugins, FileType::Bin, FileType::Templates] {
        assert_eq!(FileType::from_text(&t.to_display()), Some(t));
    }
}

#[test]
fn download_reply_serves_or_refuses() {
    match download_reply(Some(Some("application/zip".to_string())), &vec![stat("weather.zip", 4)]) {
        DownloadReply::Serve { status, content_type, count } => {
            assert_eq!(status, 200);
            assert_eq!(content_type, "application/zip");
            assert_eq!(count, 5);
        }
        _ => panic!("expected the file to be served"),
    }
    match download_reply(Some(None), &vec![]) {
        DownloadReply::Serve { status, content_type, count } => {
            assert_eq!(status, 200);
            assert_eq!(content_type, "application/octet-stream");
            assert_eq!(count, 1);
        }
        _ => panic!("expected the file to be served"),
    }
    match download_reply(None, &vec![stat("weather.zip", 4)]) {
        DownloadReply::NotFound { status, body } => {
            assert_eq!(status, 404);
            assert_eq!(body, "File not found");
        }
        _ => panic!("expected not found"),
    }
}
