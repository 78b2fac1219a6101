//! Where the tool keeps its files under the Codex home, and the decisions
//! made around reading and writing them.

use vstd::prelude::*;
use crate::auth::{parse_bytes, AuthError, AuthInfo, IoError};
use crate::encoding::{
    base64_url_encoded, encode_url_safe, lemma_base64_url_alphabet, lemma_base64_url_encoded_injective,
};
use vstd::utf8::encode_utf8;
use crate::order::{sort_by_key, sorted_by_key, AccountOrder};
use crate::text::{chars_of, push_str, string_of};
use crate::json::json_document;

verus! {

/// The directory of this tool under the Codex home.
pub const APP_DIR: &'static str = "rust-codex-auth";

/// The directory of saved snapshots under `APP_DIR`.
pub const ACCOUNTS_DIR: &'static str = "accounts";

/// The registry file under `APP_DIR`.
pub const REGISTRY_FILE: &'static str = "registry.json";

/// `PathBuf::join` of a relative name on a Unix path: a `/` is put between
/// them unless the base is empty or already ends with one.
pub open spec fn join_path(base: Seq<char>, name: Seq<char>) -> Seq<char> {
    if base.len() == 0 || base.last() == '/' {
        base + name
    } else {
        base + seq!['/'] + name
    }
}

/// Joins a relative name to a path.
pub fn join(base: &str, name: &str) -> (res: String)
    ensures
        res@ == join_path(base@, name@),
{
    let mut out = chars_of(base);
    if out.len() > 0 && out[out.len() - 1] != '/' {
        out.push('/');
    }
    push_str(&mut out, name);
    string_of(&out)
}

/// The live `auth.json` of the Codex home.
pub fn active_auth_path(codex_home: &str) -> (res: String)
    ensures
        res@ == join_path(codex_home@, "auth.json"@),
{
    join(codex_home, "auth.json")
}

/// Where snapshots are saved.
pub fn accounts_dir(codex_home: &str) -> (res: String)
    ensures
        res@ == join_path(join_path(codex_home@, APP_DIR@), ACCOUNTS_DIR@),
{
    let app = join(codex_home, APP_DIR);
    join(app.as_str(), ACCOUNTS_DIR)
}

/// Where the registry is saved.
pub fn registry_path(codex_home: &str) -> (res: String)
    ensures
        res@ == join_path(join_path(codex_home@, APP_DIR@), REGISTRY_FILE@),
{
    let app = join(codex_home, APP_DIR);
    join(app.as_str(), REGISTRY_FILE)
}

/// The file name of the snapshot saved for a record key: the key in URL-safe
/// base64 without padding, then `.auth.json`.
pub open spec fn snapshot_name(key: Seq<char>) -> Seq<char> {
    base64_url_encoded(key) + ".auth.json"@
}

/// Distinct record keys have distinct snapshot file names, so no two
/// accounts share a snapshot file.
pub proof fn snapshot_names_are_distinct(k1: Seq<char>, k2: Seq<char>)
    requires
        k1 != k2,
    ensures
        snapshot_name(k1) != snapshot_name(k2),
{
    if snapshot_name(k1) == snapshot_name(k2) {
        let e1 = base64_url_encoded(k1);
        let e2 = base64_url_encoded(k2);
        let suffix = ".auth.json"@;
        assert(e1 =~= (e1 + suffix).take(e1.len() as int));
        assert(e2 =~= (e2 + suffix).take(e2.len() as int));
        lemma_base64_url_encoded_injective(k1, k2);
    }
}

/// A snapshot file name holds no path separator, so the snapshot of any key
/// lies directly in the accounts directory.
pub proof fn snapshot_name_has_no_separator(key: Seq<char>)
    ensures
        !snapshot_name(key).contains('/'),
        !snapshot_name(key).contains('\\'),
{
    let e = base64_url_encoded(key);
    let suffix = ".auth.json"@;
    reveal_strlit(".auth.json");
    lemma_base64_url_alphabet(encode_utf8(key));
    assert forall|i: int| 0 <= i < snapshot_name(key).len() implies snapshot_name(key)[i] != '/'
        && snapshot_name(key)[i] != '\\' by {
        if i < e.len() {
            assert(snapshot_name(key)[i] == e[i]);
        } else {
            assert(snapshot_name(key)[i] == suffix[i - e.len()]);
        }
    }
}

/// The snapshot file name of a record key: the key's URL-safe base64 text
/// and `.auth.json`.
pub fn snapshot_file_name_for_key(key: &str) -> (res: String)
    ensures
        res@ == snapshot_name(key@),
{
    let encoded = encode_url_safe(key);
    let mut out = chars_of(encoded.as_str());
    push_str(&mut out, ".auth.json");
    string_of(&out)
}

/// The snapshot file name of a login's record key.
pub fn snapshot_file_name(info: &AuthInfo) -> (res: String)
    ensures
        res@ == snapshot_name(crate::auth::record_key_text(info.user_id@, info.account_id@)),
{
    let key = info.record_key();
    snapshot_file_name_for_key(key.as_str())
}

/// The snapshot file of a record key under the Codex home.
pub fn snapshot_path_for_key(codex_home: &str, key: &str) -> (res: String)
    ensures
        res@ == join_path(
            join_path(join_path(codex_home@, APP_DIR@), ACCOUNTS_DIR@),
            snapshot_name(key@),
        ),
{
    let dir = accounts_dir(codex_home);
    let name = snapshot_file_name_for_key(key);
    join(dir.as_str(), name.as_str())
}

/// A saved login and the file it was read from.
#[derive(Debug)]
pub struct AccountSnapshot {
    pub info: AuthInfo,
    pub path: String,
}

impl AccountSnapshot {
    /// The record key of the saved login.
    pub fn key(&self) -> (res: String)
        ensures
            res@ == crate::auth::record_key_text(self.info.user_id@, self.info.account_id@),
    {
        self.info.record_key()
    }
}

impl AccountOrder for AccountSnapshot {
    open spec fn first_key(&self) -> Seq<char> {
        self.info.email@
    }

    open spec fn second_key(&self) -> Seq<char> {
        self.info.account_id@
    }

    fn first_text(&self) -> (res: &str) {
        self.info.email.as_str()
    }

    fn second_text(&self) -> (res: &str) {
        self.info.account_id.as_str()
    }
}

/// Why a storage operation failed.
#[derive(Debug)]
pub enum StorageError {
    Io(IoError),
    Auth(AuthError),
    Json(serde_json::Error),
    MissingHome,
    InvalidCodexHome(String),
}

/// The text of a storage error; `None` for a JSON error, whose text
/// `serde_json` gives.
pub open spec fn storage_error_text(e: StorageError) -> Option<Seq<char>> {
    match e {
        StorageError::Io(io) => Some(io.message@),
        StorageError::Auth(a) => crate::auth::auth_error_text(a),
        StorageError::Json(_) => None,
        StorageError::MissingHome => Some("could not resolve home directory"@),
        StorageError::InvalidCodexHome(p) => Some("CODEX_HOME is not an existing directory: "@ + p@),
    }
}

impl StorageError {
    /// The `Display` text of the error.
    pub fn message(&self) -> (res: String)
        ensures
            storage_error_text(*self) matches Some(t) ==> res@ == t,
    {
        match self {
            StorageError::Io(io) => io.message.clone(),
            StorageError::Auth(a) => a.message(),
            StorageError::Json(err) => crate::json::json_error_text(err),
            StorageError::MissingHome => "could not resolve home directory".to_owned(),
            StorageError::InvalidCodexHome(p) => {
                let mut out: Vec<char> = Vec::new();
                push_str(&mut out, "CODEX_HOME is not an existing directory: ");
                push_str(&mut out, p.as_str());
                string_of(&out)
            },
        }
    }
}

/// The outcome of reading and parsing an `auth.json`: the file's bytes
/// (or the read failure) turned into an identity (or an error).
pub open spec fn parsed_file(file: Result<Vec<u8>, IoError>, res: Result<AuthInfo, AuthError>) -> bool {
    match file {
        Err(e) => res == Err::<AuthInfo, AuthError>(AuthError::Io(e)),
        Ok(bytes) => (res matches Err(AuthError::Json(_)) <==> json_document(bytes@) is None) && (
        json_document(bytes@) matches Some(root) ==> crate::auth::auth_outcome(
            res,
            crate::auth::auth_from_document_spec(root),
        )),
    }
}

/// `parse_file` after the read: the identity in the file's bytes, or the
/// read failure as an `Io` error.
pub fn parse_file_contents(file: Result<Vec<u8>, IoError>) -> (res: Result<AuthInfo, AuthError>)
    ensures
        parsed_file(file, res),
{
    match file {
        Ok(bytes) => parse_bytes(&bytes),
        Err(e) => Err(AuthError::Io(e)),
    }
}

/// `active_info` after the read of the live `auth.json`: its login; `None`
/// where the file does not exist; any other failure as an `Auth` error.
pub fn active_info(file: Result<Vec<u8>, IoError>) -> (res: Result<Option<AuthInfo>, StorageError>)
    ensures
        file matches Err(e) && e.not_found ==> res is Ok && res->Ok_0 is None,
        file is Err && !file->Err_0.not_found ==> res == Err::<Option<AuthInfo>, StorageError>(
            StorageError::Auth(AuthError::Io(file->Err_0)),
        ),
        file is Ok ==> exists|r: Result<AuthInfo, AuthError>| parsed_file(file, r) && match r {
            Ok(info) => res == Ok::<Option<AuthInfo>, StorageError>(Some(info)),
            Err(e) => res == Err::<Option<AuthInfo>, StorageError>(StorageError::Auth(e)),
        },
{
    let not_found = match &file {
        Err(e) => e.not_found,
        Ok(_) => false,
    };
    if not_found {
        return Ok(None);
    }
    let parsed = parse_file_contents(file);
    match parsed {
        Ok(info) => Ok(Some(info)),
        Err(e) => Err(StorageError::Auth(e)),
    }
}

/// `active_key` after the read of the live `auth.json`: the record key of its
/// login; `None` where the file does not exist; any other failure as an
/// `Auth` error.
pub fn active_key(file: Result<Vec<u8>, IoError>) -> (res: Result<Option<String>, StorageError>)
    ensures
        file matches Err(e) && e.not_found ==> res is Ok && res->Ok_0 is None,
        file is Err && !file->Err_0.not_found ==> res == Err::<Option<String>, StorageError>(
            StorageError::Auth(AuthError::Io(file->Err_0)),
        ),
        file is Ok ==> exists|r: Result<AuthInfo, AuthError>| parsed_file(file, r) && match r {
            Ok(info) => res matches Ok(Some(k)) && k@ == crate::auth::record_key_text(
                info.user_id@,
                info.account_id@,
            ),
            Err(e) => res == Err::<Option<String>, StorageError>(StorageError::Auth(e)),
        },
{
    match active_info(file) {
        Ok(Some(info)) => Ok(Some(info.record_key())),
        Ok(None) => Ok(None),
        Err(e) => Err(e),
    }
}

/// `load_snapshot_by_key` after the read of the snapshot file at `path`.
pub fn snapshot_from_file(path: String, file: Result<Vec<u8>, IoError>) -> (res: Result<AccountSnapshot, StorageError>)
    ensures
        exists|r: Result<AuthInfo, AuthError>| parsed_file(file, r) && match r {
            Ok(info) => res matches Ok(s) && s.info == info && s.path == path,
            Err(e) => res == Err::<AccountSnapshot, StorageError>(StorageError::Auth(e)),
        },
{
    match parse_file_contents(file) {
        Ok(info) => Ok(AccountSnapshot { info, path }),
        Err(e) => Err(StorageError::Auth(e)),
    }
}

/// Whether the saved copy of the live `auth.json` is to be written, given
/// the live bytes and what reading the copy gave: where the copy is missing
/// or differs; another read failure is handed back.
pub open spec fn write_needed(live: Seq<u8>, saved: Result<Seq<u8>, IoError>) -> Result<bool, IoError> {
    match saved {
        Ok(bytes) => Ok(bytes != live),
        Err(e) => if e.not_found {
            Ok(true)
        } else {
            Err(e)
        },
    }
}

/// Syncing keeps the saved copy of a login current: the first sync writes
/// the missing copy; after the live file changes (a new token, say) the next
/// sync writes it again; a sync writes nothing only where the copy already
/// holds the live bytes. A copy holding the live bytes reads back as the live
/// login, token included.
pub proof fn sync_keeps_the_snapshot_current(
    first: Seq<u8>,
    second: Seq<u8>,
    missing: IoError,
    live_read: Result<AuthInfo, AuthError>,
    copy_read: Result<AuthInfo, AuthError>,
    live_file: Vec<u8>,
    copy_file: Vec<u8>,
)
    requires
        missing.not_found,
        first != second,
        live_file@ == copy_file@,
        parsed_file(Ok(live_file), live_read),
        parsed_file(Ok(copy_file), copy_read),
    ensures
        write_needed(first, Err(missing)) == Ok::<bool, IoError>(true),
        write_needed(second, Ok(first)) == Ok::<bool, IoError>(true),
        write_needed(second, Ok(second)) == Ok::<bool, IoError>(false),
        forall|saved: Seq<u8>|
            #[trigger] write_needed(second, Ok(saved)) == Ok::<bool, IoError>(false) ==> saved
                == second,
        live_read matches Ok(a) ==> (copy_read matches Ok(b) && a@ == b@),
{
}

/// Whether `sync_active_snapshot` writes the saved copy, after reading the
/// live bytes and the copy: a write is due where the copy is missing or
/// differs; another read failure is returned.
#[verifier::loop_isolation(false)]
pub fn snapshot_write_needed(live: &[u8], saved: Result<Vec<u8>, IoError>) -> (res: Result<bool, IoError>)
    ensures
        res == write_needed(
            live@,
            match saved {
                Ok(bytes) => Ok(bytes@),
                Err(e) => Err(e),
            },
        ),
{
    match saved {
        Ok(bytes) => {
            if bytes.len() != live.len() {
                return Ok(true);
            }
            let mut i: usize = 0;
            while i < live.len()
                invariant
                    i <= live.len() == bytes.len(),
                    forall|j: int| 0 <= j < i ==> bytes@[j] == live@[j],
                decreases live.len() - i,
            {
                if bytes[i] != live[i] {
                    return Ok(true);
                }
                i = i + 1;
            }
            assert(bytes@ =~= live@);
            Ok(false)
        },
        Err(e) => {
            if e.not_found {
                Ok(true)
            } else {
                Err(e)
            }
        },
    }
}

/// `Path::extension` of a file name is `json`: the text after its last `.`,
/// where that dot is not the first character.
pub open spec fn json_extension(name: Seq<char>) -> bool {
    exists|p: int|
        0 < p < name.len() && name[p] == '.' && (forall|q: int| p < q < name.len() ==> name[q]
            != '.') && name.subrange(p + 1, name.len() as int) == seq!['j', 's', 'o', 'n']
}

/// Whether a directory entry name is taken as a snapshot by `load_accounts`.
pub fn has_json_extension(name: &str) -> (res: bool)
    ensures
        res == json_extension(name@),
{
    let cs = chars_of(name);
    let n = cs.len();
    let mut p = n;
    while p > 0 && cs[p - 1] != '.'
        invariant
            p <= n == cs@.len(),
            cs@ == name@,
            forall|q: int| p <= q < n ==> cs@[q] != '.',
        decreases p,
    {
        p = p - 1;
    }
    if p <= 1 {
        proof {
            assert forall|d: int| 0 < d < name@.len() && name@[d] == '.' implies exists|q: int| d < q < name@.len() && name@[q] == '.' by {
                if p == 1 {
                    assert(d < n);
                    assert(cs@[0] == '.');
                }
            }
        }
        return false;
    }
    let dot = p - 1;
    let ok = n - p == 4 && cs[p] == 'j' && cs[p + 1] == 's' && cs[p + 2] == 'o' && cs[p + 3] == 'n';
    proof {
        let tail = name@.subrange(p as int, n as int);
        assert(cs@[dot as int] == '.');
        assert forall|d: int| 0 < d < name@.len() && name@[d] == '.' && (forall|q: int| d < q < name@.len() ==> name@[q] != '.') implies d == dot by {
            if d < dot {
                assert(name@[dot as int] == '.');
            }
        }
        if tail == seq!['j', 's', 'o', 'n'] {
            assert(tail.len() == 4);
            assert(tail[0] == cs@[p as int]);
            assert(tail[1] == cs@[p + 1]);
            assert(tail[2] == cs@[p + 2]);
            assert(tail[3] == cs@[p + 3]);
        }
        if ok {
            assert(tail =~= seq!['j', 's', 'o', 'n']);
            assert(0 < dot < name@.len() && name@[dot as int] == '.' && (forall|q: int| dot < q < name@.len() ==> name@[q] != '.') && name@.subrange(dot + 1, name@.len() as int) == seq!['j', 's', 'o', 'n']);
        }
    }
    ok
}

/// `load_accounts` after listing and reading the snapshot files: the logins
/// that were read, sorted by email and then workspace id.
pub fn sort_snapshots(accounts: Vec<AccountSnapshot>) -> (res: Vec<AccountSnapshot>)
    ensures
        res@ == sorted_by_key(accounts@),
{
    sort_by_key(accounts)
}

/// `resolve_codex_home_from`, given the values of `CODEX_HOME`, `HOME` and
/// `USERPROFILE` and whether `CODEX_HOME` names an existing directory: a
/// non-empty `CODEX_HOME` is taken as it is, and refused where it is not a
/// directory; otherwise `.codex` under the first non-empty of `HOME` and
/// `USERPROFILE`.
pub fn resolve_codex_home_from(
    codex_home: Option<String>,
    home: Option<String>,
    userprofile: Option<String>,
    codex_home_is_dir: bool,
) -> (res: Result<String, StorageError>)
    ensures
        codex_home is Some && codex_home->0@.len() > 0 && codex_home_is_dir ==> res
            == Ok::<String, StorageError>(codex_home->0),
        codex_home is Some && codex_home->0@.len() > 0 && !codex_home_is_dir ==> res
            == Err::<String, StorageError>(StorageError::InvalidCodexHome(codex_home->0)),
        !(codex_home matches Some(c) && c@.len() > 0) ==> {
            if home matches Some(h) && h@.len() > 0 {
                (res matches Ok(p) && p@ == join_path(home->0@, ".codex"@))
            } else if userprofile matches Some(u) && u@.len() > 0 {
                (res matches Ok(p) && p@ == join_path(userprofile->0@, ".codex"@))
            } else {
                res matches Err(StorageError::MissingHome)
            }
        },
{
    if let Some(value) = codex_home {
        if !value.as_str().is_empty() {
            if codex_home_is_dir {
                return Ok(value);
            }
            return Err(StorageError::InvalidCodexHome(value));
        }
    }
    if let Some(h) = home {
        if !h.as_str().is_empty() {
            return Ok(join(h.as_str(), ".codex"));
        }
    }
    if let Some(u) = userprofile {
        if !u.as_str().is_empty() {
            return Ok(join(u.as_str(), ".codex"));
        }
    }
    Err(StorageError::MissingHome)
}

} // verus!
