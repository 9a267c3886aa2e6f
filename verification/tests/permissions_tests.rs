use jilebi::permissions::{
    defaults_with_home, granted_from_answers, granted_from_free_form, permission_question, permissions_from_toml,
    set_default_permissions, DenialReason, JilebiPermissions, PermissionAnswer, PermissionInterview, PermissionKind,
    PermissionQuestion,
};
use jilebi::toml_doc::{parse_toml, TomlValue};

fn texts(v: &[&str]) -> Vec<String> {
    v.iter().map(|s| s.to_string()).collect()
}

fn sample() -> JilebiPermissions {
    JilebiPermissions {
        hosts: texts(&["https://api.example.com"]),
        urls: texts(&["https://other.example.org/data.json"]),
        read_files: texts(&["/etc/hosts"]),
        write_files: texts(&["/tmp/out.txt"]),
        read_dirs: texts(&["/home/user/docs"]),
        write_dirs: texts(&["/var/cache/plugin"]),
    }
}

#[test]
fn url_allowed_by_host_prefix_or_exact_url() {
    let p = sample();
    assert!(p.check_url("https://api.example.com/v1/items", "fetch").is_ok());
    assert!(p.check_url("https://other.example.org/data.json", "fetch").is_ok());
    assert!(p.check_url("https://api.example.com:8443/v1", "fetch").is_ok());
    let denied = p.check_url("https://other.example.org/else.json", "fetch").unwrap_err();
    assert_eq!(denied.access, "NETWORK_FETCH_DENIED: fetch");
    assert!(matches!(denied.reason, DenialReason::UrlNotDeclared));
    assert_eq!(
        denied.reason.message(),
        "The url is not allowed to be accessed by your plugin. Declare these permissions in your plugin manifest"
    );
}

#[test]
fn read_allowed_by_file_or_directory_prefix() {
    let p = sample();
    assert!(p.check_read(Some("/etc/hosts"), Some("readFile")).is_ok());
    assert!(p.check_read(Some("/home/user/docs/a.md"), Some("readFile")).is_ok());
    let denied = p.check_read(Some("/etc/passwd"), Some("readFile")).unwrap_err();
    assert_eq!(denied.access, "FILE_READ_DENIED: readFile");
    assert!(matches!(denied.reason, DenialReason::FileReadNotDeclared));
    let unnamed = p.check_read(None, None).unwrap_err();
    assert_eq!(unnamed.access, "FILE_READ_DENIED: ");
}

#[test]
fn write_allowed_by_file_or_directory_prefix() {
    let p = sample();
    assert!(p.check_write(Some("/tmp/out.txt"), Some("writeFile")).is_ok());
    assert!(p.check_write(Some("/var/cache/plugin/x"), Some("writeFile")).is_ok());
    let denied = p.check_write(Some("/etc/hosts"), Some("writeFile")).unwrap_err();
    assert_eq!(denied.access, "FILE_WRITE_DENIED writeFile");
    assert!(matches!(denied.reason, DenialReason::FileWriteNotDeclared));
    assert!(p.check_write_blind(Some("/etc/hosts"), "hidden", "api").is_err());
    assert!(p.check_write_partial(Some("/tmp/out.txt"), "api").is_ok());
    assert!(p.check_read_blind(Some("/etc/hosts"), "hidden", "api").is_ok());
}

#[test]
fn url_refused_for_a_look_alike_host() {
    let p = JilebiPermissions { hosts: texts(&["https://context7.com"]), ..JilebiPermissions::empty() };
    assert!(p.check_url("https://context7.com/api/v1", "fetch").is_ok());
    assert!(p.check_url("https://context7.com.evil.io/x", "fetch").is_err());
    assert!(p.check_url("https://context7.com@evil.io/x", "fetch").is_err());
    assert!(p.check_url("https://context7.com:1@evil.io/x", "fetch").is_err());
    assert!(p.check_url("https://context7.community/x", "fetch").is_err());
    assert!(p.check_url("http://context7.com/x", "fetch").is_err());
}

#[test]
fn open_needs_the_access_it_asks_for() {
    let p = sample();
    assert!(p.check_open(true, false, Some("/etc/hosts")));
    assert!(!p.check_open(false, true, Some("/etc/hosts")));
    assert!(!p.check_open(true, true, Some("/etc/hosts")));
    assert!(p.check_open(false, true, Some("/tmp/out.txt")));
    assert!(!p.check_open(true, false, Some("/tmp/out.txt")));
    assert!(p.check_open(false, true, Some("/var/cache/plugin/f")));
    assert!(p.check_open(true, false, Some("/home/user/docs/a.md")));
    assert!(p.check_open(false, false, Some("/etc/hosts")));
    assert!(!p.check_open(false, false, Some("/root/secret")));
    assert!(!p.check_open(true, false, Some("/root/secret")));
    assert!(!p.check_open(true, false, None));
    let only_read = JilebiPermissions { read_files: texts(&["/a.txt"]), ..JilebiPermissions::empty() };
    assert!(!only_read.check_open(false, true, Some("/a.txt")));
    let both = JilebiPermissions {
        read_files: texts(&["/a.txt"]),
        write_files: texts(&["/a.txt"]),
        ..JilebiPermissions::empty()
    };
    assert!(both.check_open(true, true, Some("/a.txt")));
}

#[test]
fn whole_file_system_needs_a_root_grant() {
    let p = sample();
    let read = p.check_read_all(Some("readDir")).unwrap_err();
    assert_eq!(read.access, "FILE_READ_DENIED: readDir");
    assert!(matches!(read.reason, DenialReason::FileReadNotDeclared));
    let write = p.check_write_all("api").unwrap_err();
    assert_eq!(write.access, "FILE_WRITE_DENIED api");
    assert!(matches!(write.reason, DenialReason::FileWriteNotDeclared));
    let root = JilebiPermissions {
        read_dirs: texts(&["/"]),
        write_dirs: texts(&["/"]),
        ..JilebiPermissions::empty()
    };
    assert!(root.check_read_all(None).is_ok());
    assert!(root.check_write_all("api").is_ok());
    let empty = JilebiPermissions::empty();
    assert!(empty.check_read_all(None).is_err());
    assert!(empty.check_write_all("api").is_err());
}

#[test]
fn host_needs_exact_declaration() {
    let p = JilebiPermissions { hosts: texts(&["example.com"]), ..JilebiPermissions::empty() };
    assert!(p.check_host("example.com", Some(443), "connect").is_ok());
    let denied = p.check_host("example.com.evil", None, "connect").unwrap_err();
    assert_eq!(denied.access, "NETWORK_FETCH_DENIED: connect");
    assert!(matches!(denied.reason, DenialReason::HostNotDeclared));
}

#[test]
fn always_refused_operations() {
    let p = sample();
    let sys = p.check_sys("osRelease").unwrap_err();
    assert_eq!(sys.access, "SYS_OP_DENIED: osRelease");
    assert_eq!(sys.reason.message(), "system calls are not allowed");
    let env = p.check_env("HOME").unwrap_err();
    assert_eq!(env.access, "ENV_READ_DENIED HOME");
    assert_eq!(env.reason.message(), "Environment variables cannot be read");
    let exec = p.check_exec().unwrap_err();
    assert_eq!(exec.access, "EXEC_DENIED");
    assert_eq!(exec.reason.message(), "Execution commands are not allowed");
    let vsock = p.check_vsock(3, 80, "connect").unwrap_err();
    assert_eq!(vsock.access, "VSOCK_DENIED");
    assert_eq!(vsock.reason.message(), "socket commands are not allowed");
    assert!(p.allow_hrtime());
}

#[test]
fn no_permissions_allow_nothing() {
    let p = JilebiPermissions::empty();
    assert!(p.check_url("https://a", "f").is_err());
    assert!(p.check_read(Some("/a"), None).is_err());
    assert!(p.check_write(Some("/a"), None).is_err());
    assert!(!p.check_open(true, false, Some("/a")));
    assert!(!p.check_open(false, false, Some("/a")));
    assert!(p.check_read_all(None).is_err());
    assert!(p.check_host("a", None, "f").is_err());
}

#[test]
fn more_permissions_allow_more() {
    let small = JilebiPermissions { read_dirs: texts(&["/data"]), ..JilebiPermissions::empty() };
    let big = JilebiPermissions { read_dirs: texts(&["/data", "/other"]), ..JilebiPermissions::empty() };
    assert!(small.check_read(Some("/data/x"), None).is_ok());
    assert!(big.check_read(Some("/data/x"), None).is_ok());
    assert!(small.check_read(Some("/other/x"), None).is_err());
    assert!(big.check_read(Some("/other/x"), None).is_ok());
}

#[test]
fn permissions_read_from_manifest_table() {
    let doc = parse_toml("hosts = [\"a.com\", \"b.com\"]\nread_dirs = [\"user_defined\"]\nother = 1\n").unwrap();
    let p = permissions_from_toml(&doc).unwrap();
    assert_eq!(p.hosts, texts(&["a.com", "b.com"]));
    assert_eq!(p.read_dirs, texts(&["user_defined"]));
    assert!(p.urls.is_empty());
    assert!(p.write_files.is_empty());
}

#[test]
fn permissions_hold_each_text_once() {
    let doc = parse_toml("hosts = [\"a.com\", \"b.com\", \"a.com\"]\nread_files = [\"/x\", \"/x\"]\n").unwrap();
    let p = permissions_from_toml(&doc).unwrap();
    assert_eq!(p.hosts, texts(&["a.com", "b.com"]));
    assert_eq!(p.read_files, texts(&["/x"]));
}

#[test]
fn permissions_table_with_bad_list_is_unreadable() {
    let doc = parse_toml("hosts = [1, 2]\n").unwrap();
    assert!(permissions_from_toml(&doc).is_none());
    assert!(permissions_from_toml(&TomlValue::Int(3)).is_none());
}

#[test]
fn permissions_read_from_array_by_position() {
    let doc = TomlValue::Array(vec![
        TomlValue::Array(vec![TomlValue::Str("h".to_string())]),
        TomlValue::Array(vec![TomlValue::Str("u".to_string())]),
    ]);
    let p = permissions_from_toml(&doc).unwrap();
    assert_eq!(p.hosts, texts(&["h"]));
    assert_eq!(p.urls, texts(&["u"]));
    assert!(p.read_files.is_empty());
}

#[test]
fn defaults_replace_user_defined_sets() {
    let requested = JilebiPermissions {
        hosts: texts(&["user_defined"]),
        urls: texts(&["https://x.org/a"]),
        read_files: texts(&["/f"]),
        write_files: texts(&["/g"]),
        read_dirs: texts(&["user_defined"]),
        write_dirs: texts(&["/w"]),
    };
    let d = defaults_with_home(&requested, "/home/me");
    assert_eq!(d.hosts, texts(&["*"]));
    assert_eq!(d.urls, texts(&["https://x.org/a"]));
    assert_eq!(d.read_dirs, texts(&["/home/me"]));
    assert_eq!(d.write_dirs, texts(&["/w"]));
    assert!(d.read_files.is_empty());
    assert!(d.write_files.is_empty());
}

#[test]
fn set_default_permissions_grants_every_url_when_left_to_user() {
    let requested = JilebiPermissions { urls: texts(&["user_defined"]), ..JilebiPermissions::empty() };
    let d = set_default_permissions(&requested).unwrap();
    assert_eq!(d.urls, texts(&["*"]));
    assert!(d.hosts.is_empty());
}

#[test]
fn questions_for_user_defined_and_declared_sets() {
    let q = permission_question(&PermissionKind::Hosts, "my-tool", &texts(&["user_defined"]));
    match q {
        PermissionQuestion::FreeForm(p) => {
            assert_eq!(p, "Enter hosts for my-tool, use a comma to separate multiple entries")
        }
        _ => panic!("expected a free-form question"),
    }
    let q = permission_question(&PermissionKind::Hosts, "my-tool", &texts(&["a.com"]));
    match q {
        PermissionQuestion::Confirm(items) => {
            assert_eq!(items.len(), 1);
            assert_eq!(items[0].0, "a.com");
            assert_eq!(items[0].1, "Allow my-tool to make requests to the host a.com?");
        }
        _ => panic!("expected a confirmation"),
    }
    let q = permission_question(&PermissionKind::ReadDirs, "my-tool", &texts(&["/d"]));
    match q {
        PermissionQuestion::Confirm(items) => {
            assert_eq!(items[0].1, "Allow /d to read from the directory my-tool?");
        }
        _ => panic!("expected a confirmation"),
    }
}

#[test]
fn granted_sets_from_answers() {
    assert_eq!(granted_from_free_form(" a.com , b.com,c"), texts(&["a.com", "b.com", "c"]));
    assert_eq!(granted_from_free_form("a.com, b.com ,a.com"), texts(&["a.com", "b.com"]));
    let asked = vec![
        ("x".to_string(), "q1".to_string()),
        ("y".to_string(), "q2".to_string()),
        ("z".to_string(), "q3".to_string()),
    ];
    assert_eq!(granted_from_answers(&asked, &vec![true, false, true]), texts(&["x", "z"]));
    let repeated = vec![("x".to_string(), "q1".to_string()), ("x".to_string(), "q2".to_string())];
    assert_eq!(granted_from_answers(&repeated, &vec![true, true]), texts(&["x"]));
}

#[test]
fn with_granted_replaces_one_set() {
    let p = sample();
    let q = p.with_granted(&PermissionKind::Urls, texts(&["u"]));
    assert_eq!(q.urls, texts(&["u"]));
    assert_eq!(q.hosts, texts(&["https://api.example.com"]));
    assert_eq!(q.requested(&PermissionKind::WriteDirs), &texts(&["/var/cache/plugin"]));
}

#[test]
fn interview_settles_each_set_in_order() {
    let requested = JilebiPermissions {
        hosts: texts(&["a.com", "b.com"]),
        read_dirs: texts(&["user_defined"]),
        ..JilebiPermissions::empty()
    };
    let mut interview = PermissionInterview::start("my-tool", requested);
    let mut kinds = Vec::new();
    while let Some((kind, question)) = interview.next_question() {
        kinds.push(format!("{:?}", kind));
        let answer = match question {
            PermissionQuestion::FreeForm(prompt) => {
                assert!(prompt.starts_with("Enter directories that the plugin is allowed to read from for my-tool"));
                PermissionAnswer::Typed("/data, /more".to_string())
            }
            PermissionQuestion::Confirm(items) => {
                PermissionAnswer::Confirmed(items.iter().map(|(text, _)| text == "b.com").collect())
            }
        };
        interview = interview.answer(answer);
    }
    assert_eq!(kinds, vec!["Hosts", "ReadDirs", "WriteDirs", "Urls", "ReadFiles", "WriteFiles"]);
    let granted = interview.finish();
    assert_eq!(granted.hosts, texts(&["b.com"]));
    assert_eq!(granted.read_dirs, texts(&["/data", "/more"]));
    assert!(granted.write_dirs.is_empty());
    assert!(granted.urls.is_empty());
}

#[test]
fn confirmations_grant_only_requested_texts() {
    let asked = vec![("a".to_string(), "q".to_string()), ("b".to_string(), "q".to_string())];
    let granted = granted_from_answers(&asked, &vec![true, true]);
    assert!(granted.iter().all(|g| g == "a" || g == "b"));
    assert_eq!(granted_from_answers(&asked, &vec![false, false]), Vec::<String>::new());
}
