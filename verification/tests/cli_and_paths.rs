use codex_auth::auth::IoError;
use codex_auth::cli::{parse_command, CliError, Command};
use codex_auth::storage::{
    accounts_dir, active_auth_path, has_json_extension, registry_path, resolve_codex_home_from,
    snapshot_path_for_key, snapshot_write_needed, StorageError,
};

fn args(list: &[&str]) -> Vec<String> {
    list.iter().map(|s| s.to_string()).collect()
}

#[test]
fn commands_are_read_from_arguments() {
    assert!(matches!(parse_command(&args(&[])), Ok(Command::Help)));
    assert!(matches!(parse_command(&args(&["-h"])), Ok(Command::Help)));
    assert!(matches!(parse_command(&args(&["help"])), Ok(Command::Help)));
    assert!(matches!(parse_command(&args(&["list"])), Ok(Command::List)));
    assert!(matches!(parse_command(&args(&["login"])), Ok(Command::Login { device_auth: false })));
    assert!(matches!(
        parse_command(&args(&["login", "--device-auth"])),
        Ok(Command::Login { device_auth: true })
    ));
    assert!(matches!(parse_command(&args(&["switch"])), Ok(Command::InteractiveSwitch)));
    assert!(matches!(parse_command(&args(&["switch", "2"])), Ok(Command::Switch(s)) if s == "2"));
    assert!(matches!(parse_command(&args(&["remove", "a@b.c"])), Ok(Command::Remove(s)) if s == "a@b.c"));
}

#[test]
fn unknown_commands_are_refused() {
    let remove = parse_command(&args(&["remove"])).unwrap_err();
    assert_eq!(remove.message(), "`remove` requires a row number or exact email");
    let unknown = parse_command(&args(&["frobnicate"])).unwrap_err();
    assert_eq!(unknown.message(), "unknown command `frobnicate`");
    let extra = parse_command(&args(&["list", "now"])).unwrap_err();
    assert_eq!(extra.message(), "unknown command `list`");
    let login = parse_command(&args(&["login", "--other"])).unwrap_err();
    assert_eq!(login.message(), "unknown command `login`");
    assert!(matches!(parse_command(&args(&["switch", "1", "2"])), Err(CliError::Message(_))));
}

#[test]
fn paths_sit_under_the_codex_home() {
    assert_eq!(active_auth_path("/home/u/.codex"), "/home/u/.codex/auth.json");
    assert_eq!(accounts_dir("/home/u/.codex/"), "/home/u/.codex/rust-codex-auth/accounts");
    assert_eq!(registry_path("home"), "home/rust-codex-auth/registry.json");
    assert_eq!(
        snapshot_path_for_key("/h", "user-1::acct-1"),
        "/h/rust-codex-auth/accounts/dXNlci0xOjphY2N0LTE.auth.json"
    );
}

#[test]
fn resolves_codex_home_in_expected_order() {
    let resolved = resolve_codex_home_from(
        Some("/tmp/custom".to_string()),
        Some("/tmp/home".to_string()),
        Some("/tmp/profile".to_string()),
        true,
    )
    .unwrap();

    assert_eq!(resolved, "/tmp/custom");
}

#[test]
fn falls_back_to_home_when_codex_home_is_absent() {
    let resolved = resolve_codex_home_from(None, Some("/tmp/t".to_string()), None, false).unwrap();

    assert_eq!(resolved, "/tmp/t/.codex");
}

#[test]
fn falls_back_to_userprofile_when_home_is_absent() {
    let resolved = resolve_codex_home_from(Some(String::new()), Some(String::new()), Some("C:/u".to_string()), false).unwrap();

    assert_eq!(resolved, "C:/u/.codex");
}

#[test]
fn codex_home_must_be_a_directory() {
    let err = resolve_codex_home_from(Some("/nope".to_string()), Some("/h".to_string()), None, false).unwrap_err();
    assert!(matches!(&err, StorageError::InvalidCodexHome(p) if p == "/nope"));
    assert_eq!(err.message(), "CODEX_HOME is not an existing directory: /nope");
    let none = resolve_codex_home_from(None, None, None, false).unwrap_err();
    assert!(matches!(none, StorageError::MissingHome));
}

#[test]
fn snapshot_write_is_due_where_the_copy_differs() {
    let missing = IoError { not_found: true, message: "gone".to_string() };
    assert_eq!(snapshot_write_needed(b"access-old", Err(missing)).unwrap(), true);
    assert_eq!(snapshot_write_needed(b"access-new", Ok(b"access-old".to_vec())).unwrap(), true);
    assert_eq!(snapshot_write_needed(b"access-new", Ok(b"access-new".to_vec())).unwrap(), false);
    let denied = IoError { not_found: false, message: "denied".to_string() };
    assert!(snapshot_write_needed(b"x", Err(denied)).is_err());
}

#[test]
fn snapshot_files_end_in_json() {
    assert!(has_json_extension("dXNlci0xOjphY2N0LTE.auth.json"));
    assert!(has_json_extension("a.json"));
    assert!(!has_json_extension(".json"));
    assert!(!has_json_extension("a.jsonl"));
    assert!(!has_json_extension("json"));
    assert!(!has_json_extension("a.json.bak"));
}
