//! The storage steps run against files kept in memory: each step reads and
//! writes the files the way the command-line program does, and hands the
//! bytes to the library.

use base64::engine::general_purpose::URL_SAFE_NO_PAD;
use base64::Engine;
use codex_auth::auth::{AuthInfo, IoError};
use codex_auth::registry::{adopt_active_key, bootstrap_registry, clear_active, upsert_account, Registry};
use codex_auth::storage::{
    accounts_dir, active_auth_path, active_info, active_key, has_json_extension, parse_file_contents,
    snapshot_from_file, snapshot_path_for_key, snapshot_write_needed, sort_snapshots, AccountSnapshot,
    StorageError,
};
use std::collections::BTreeMap;

const HOME: &str = "/codex-home";

/// Files by path.
struct Files(BTreeMap<String, Vec<u8>>);

impl Files {
    fn new() -> Files {
        Files(BTreeMap::new())
    }

    fn read(&self, path: &str) -> Result<Vec<u8>, IoError> {
        self.0.get(path).cloned().ok_or(IoError {
            not_found: true,
            message: "No such file or directory (os error 2)".to_string(),
        })
    }

    fn write(&mut self, path: &str, bytes: &[u8]) {
        self.0.insert(path.to_string(), bytes.to_vec());
    }

    fn remove(&mut self, path: &str) {
        self.0.remove(path);
    }
}

fn jwt(payload: String) -> String {
    let header = URL_SAFE_NO_PAD.encode(br#"{"alg":"none","typ":"JWT"}"#);
    let payload = URL_SAFE_NO_PAD.encode(payload.as_bytes());
    format!("{header}.{payload}.sig")
}

fn auth_bytes_with_token(email: &str, user_id: &str, account_id: &str, access_token: &str) -> Vec<u8> {
    let claims = format!(
        r#"{{"email":"{email}","https://api.openai.com/auth":{{"chatgpt_account_id":"{account_id}","chatgpt_user_id":"{user_id}","chatgpt_plan_type":"plus"}}}}"#
    );
    format!(
        r#"{{"tokens":{{"access_token":"{access_token}","account_id":"{account_id}","id_token":"{}"}}}}"#,
        jwt(claims)
    )
    .into_bytes()
}

fn write_active_auth(files: &mut Files, email: &str, user_id: &str, account_id: &str) {
    write_active_auth_with_token(files, email, user_id, account_id, &format!("access-{account_id}"));
}

fn write_active_auth_with_token(files: &mut Files, email: &str, user_id: &str, account_id: &str, access_token: &str) {
    files.write(&active_auth_path(HOME), &auth_bytes_with_token(email, user_id, account_id, access_token));
}

fn parse_file(files: &Files, path: &str) -> AuthInfo {
    parse_file_contents(files.read(path)).unwrap()
}

fn save_active_snapshot(files: &mut Files, info: &AuthInfo) -> String {
    let bytes = files.read(&active_auth_path(HOME)).unwrap();
    let destination = snapshot_path_for_key(HOME, &info.record_key());
    files.write(&destination, &bytes);
    destination
}

fn load_accounts(files: &Files) -> Vec<AccountSnapshot> {
    let dir = format!("{}/", accounts_dir(HOME));
    let mut accounts = Vec::new();
    for (path, bytes) in &files.0 {
        let Some(name) = path.strip_prefix(&dir) else {
            continue;
        };
        if name.contains('/') || !has_json_extension(name) {
            continue;
        }
        if let Ok(info) = parse_file_contents(Ok(bytes.clone())) {
            accounts.push(AccountSnapshot { info, path: path.clone() });
        }
    }
    sort_snapshots(accounts)
}

fn load_registry(files: &Files) -> Registry {
    let saved: Vec<AuthInfo> = load_accounts(files).into_iter().map(|account| account.info).collect();
    let active = active_info(files.read(&active_auth_path(HOME))).unwrap();
    bootstrap_registry(&saved, active)
}

fn sync_active_account(files: &mut Files, registry: &mut Registry) -> Result<bool, StorageError> {
    let Some(info) = active_info(files.read(&active_auth_path(HOME)))? else {
        return Ok(clear_active(registry));
    };
    let key = info.record_key();
    let mut changed = upsert_account(registry, &info);
    let source = files.read(&active_auth_path(HOME)).unwrap();
    let destination = snapshot_path_for_key(HOME, &key);
    let needed = snapshot_write_needed(&source, files.read(&destination)).map_err(StorageError::Io)?;
    if needed {
        files.write(&destination, &source);
    }
    changed |= needed;
    changed |= adopt_active_key(registry, key);
    Ok(changed)
}

fn load_snapshot_by_key(files: &Files, key: &str) -> AccountSnapshot {
    let path = snapshot_path_for_key(HOME, key);
    let file = files.read(&path);
    snapshot_from_file(path, file).unwrap()
}

fn activate_account(files: &mut Files, snapshot: &AccountSnapshot) {
    let bytes = files.read(&snapshot.path).unwrap();
    files.write(&active_auth_path(HOME), &bytes);
}

#[test]
fn saves_and_loads_snapshot_without_registry() {
    let mut files = Files::new();
    write_active_auth(&mut files, "user@example.com", "user-1", "acct-1");
    let info = parse_file(&files, &active_auth_path(HOME));

    let snapshot_path = save_active_snapshot(&mut files, &info);
    let accounts = load_accounts(&files);

    assert!(files.0.contains_key(&snapshot_path));
    assert_eq!(accounts.len(), 1);
    assert_eq!(accounts[0].info.record_key(), "user-1::acct-1");
}

#[test]
fn live_auth_names_the_active_key() {
    let mut files = Files::new();
    write_active_auth(&mut files, "user@example.com", "user-1", "acct-1");

    assert_eq!(active_key(files.read(&active_auth_path(HOME))).unwrap().as_deref(), Some("user-1::acct-1"));
}

#[test]
fn activating_snapshot_replaces_live_auth() {
    let mut files = Files::new();
    write_active_auth(&mut files, "first@example.com", "user-1", "acct-1");
    let first = parse_file(&files, &active_auth_path(HOME));
    save_active_snapshot(&mut files, &first);

    write_active_auth(&mut files, "second@example.com", "user-2", "acct-2");
    let second = parse_file(&files, &active_auth_path(HOME));
    save_active_snapshot(&mut files, &second);

    let accounts = load_accounts(&files);
    let first_snapshot = accounts.iter().find(|account| account.info.account_id == "acct-1").unwrap();
    activate_account(&mut files, first_snapshot);

    let active = parse_file(&files, &active_auth_path(HOME));
    assert_eq!(active.email, "first@example.com");
}

#[test]
fn sync_active_account_creates_and_refreshes_managed_snapshot() {
    let mut files = Files::new();
    write_active_auth_with_token(&mut files, "user@example.com", "user-1", "acct-1", "access-old");
    let mut registry = load_registry(&files);

    assert!(sync_active_account(&mut files, &mut registry).unwrap());
    assert_eq!(load_snapshot_by_key(&files, "user-1::acct-1").info.access_token, "access-old");

    write_active_auth_with_token(&mut files, "user@example.com", "user-1", "acct-1", "access-new");

    assert!(sync_active_account(&mut files, &mut registry).unwrap());
    assert_eq!(load_snapshot_by_key(&files, "user-1::acct-1").info.access_token, "access-new");
    assert!(!sync_active_account(&mut files, &mut registry).unwrap());
}

#[test]
fn sync_active_account_clears_active_state_without_live_auth() {
    let mut files = Files::new();
    write_active_auth(&mut files, "user@example.com", "user-1", "acct-1");
    let mut registry = load_registry(&files);
    files.remove(&active_auth_path(HOME));

    assert!(sync_active_account(&mut files, &mut registry).unwrap());
    assert!(registry.active_account_key.is_none());
    assert!(registry.active_account_activated_at_ms.is_none());
}
