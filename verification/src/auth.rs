//! The identity held in a Codex `auth.json`: who is logged in, to which
//! workspace, and with which access token.

use vstd::prelude::*;
use crate::encoding::{base64_url, decode_url_safe, lemma_base64_url_injective};
use crate::json::{
    json_error_text,
    json_array, json_bool, json_document, json_get, json_is_object, json_str, parse_json, Json,
};
use crate::text::{chars_of, lowercase, lowercase_chars, push_str, string_of, trim, trim_chars};

verus! {

/// A failed file operation, as the library needs to know it.
#[derive(Debug)]
pub struct IoError {
    /// Whether the file or directory did not exist.
    pub not_found: bool,
    /// The operating system's description.
    pub message: String,
}

/// The identity of one login.
#[derive(Debug)]
pub struct AuthInfo {
    pub email: String,
    pub user_id: String,
    pub account_id: String,
    pub access_token: String,
    pub plan: Option<String>,
}

/// The identity of one login as text.
pub struct AuthView {
    pub email: Seq<char>,
    pub user_id: Seq<char>,
    pub account_id: Seq<char>,
    pub access_token: Seq<char>,
    pub plan: Option<Seq<char>>,
}

/// An optional string as optional text.
pub open spec fn opt_view(o: Option<String>) -> Option<Seq<char>> {
    match o {
        Some(s) => Some(s@),
        None => None,
    }
}

impl View for AuthInfo {
    type V = AuthView;

    open spec fn view(&self) -> AuthView {
        AuthView {
            email: self.email@,
            user_id: self.user_id@,
            account_id: self.account_id@,
            access_token: self.access_token@,
            plan: opt_view(self.plan),
        }
    }
}

/// The key under which a login is recorded: user id, `::`, workspace id.
pub open spec fn record_key_text(user_id: Seq<char>, account_id: Seq<char>) -> Seq<char> {
    user_id + seq![':', ':'] + account_id
}

impl AuthInfo {
    /// User id and workspace id joined by `::`.
    pub fn record_key(&self) -> (res: String)
        ensures
            res@ == record_key_text(self.user_id@, self.account_id@),
    {
        let mut out: Vec<char> = Vec::new();
        push_str(&mut out, self.user_id.as_str());
        out.push(':');
        out.push(':');
        push_str(&mut out, self.account_id.as_str());
        assert(out@ =~= record_key_text(self.user_id@, self.account_id@));
        string_of(&out)
    }

    /// A copy of the identity.
    pub fn duplicate(&self) -> (res: AuthInfo)
        ensures
            res@ == self@,
    {
        AuthInfo {
            email: self.email.clone(),
            user_id: self.user_id.clone(),
            account_id: self.account_id.clone(),
            access_token: self.access_token.clone(),
            plan: crate::text::copy_opt_string(&self.plan),
        }
    }
}

/// Why an `auth.json` was not read as a ChatGPT login.
#[derive(Debug)]
pub enum AuthError {
    Io(IoError),
    Json(serde_json::Error),
    ApiKeyUnsupported,
    MissingField(&'static str),
    InvalidJwt,
    AccountIdMismatch,
}

/// The text of an authentication error; `None` for a JSON error, whose text
/// `serde_json` gives.
pub open spec fn auth_error_text(e: AuthError) -> Option<Seq<char>> {
    match e {
        AuthError::Io(io) => Some(io.message@),
        AuthError::Json(_) => None,
        AuthError::ApiKeyUnsupported => Some("API-key auth is not supported; use ChatGPT OAuth login"@),
        AuthError::MissingField(field) => Some("auth.json is missing `"@ + field@ + "`"@),
        AuthError::InvalidJwt => Some("auth.json contains an invalid JWT"@),
        AuthError::AccountIdMismatch => Some("auth.json token account id does not match JWT account id"@),
    }
}

impl AuthError {
    /// The `Display` text of the error.
    pub fn message(&self) -> (res: String)
        ensures
            auth_error_text(*self) matches Some(t) ==> res@ == t,
    {
        match self {
            AuthError::Io(io) => io.message.clone(),
            AuthError::Json(err) => json_error_text(err),
            AuthError::ApiKeyUnsupported => "API-key auth is not supported; use ChatGPT OAuth login".to_owned(),
            AuthError::MissingField(field) => {
                let mut out: Vec<char> = Vec::new();
                push_str(&mut out, "auth.json is missing `");
                push_str(&mut out, field);
                push_str(&mut out, "`");
                string_of(&out)
            },
            AuthError::InvalidJwt => "auth.json contains an invalid JWT".to_owned(),
            AuthError::AccountIdMismatch => "auth.json token account id does not match JWT account id".to_owned(),
        }
    }
}

/// A string member with white space trimmed, where something is left.
pub open spec fn non_empty_text(v: Option<Json>) -> Option<Seq<char>> {
    match json_str(v) {
        Some(s) => if trim(s).len() > 0 {
            Some(trim(s))
        } else {
            None
        },
        None => None,
    }
}

/// The trimmed text of a string value, where it is not empty.
fn optional_non_empty_string(v: Option<&Json>) -> (res: Option<String>)
    ensures
        opt_view(res) == non_empty_text(match v {
            Some(j) => Some(*j),
            None => None,
        }),
{
    match v {
        Some(j) => match j.as_str() {
            Some(s) => {
                let cs = chars_of(s);
                let t = trim_chars(&cs);
                if t.len() > 0 {
                    Some(string_of(&t))
                } else {
                    None
                }
            },
            None => None,
        },
        None => None,
    }
}

/// The trimmed, non-empty string member, or the field reported missing.
fn required_string(v: Option<&Json>, field: &'static str) -> (res: Result<String, AuthError>)
    ensures
        ({
            let t = non_empty_text(
                match v {
                    Some(j) => Some(*j),
                    None => None,
                },
            );
            &&& t is Some <==> res is Ok
            &&& res matches Ok(s) ==> t == Some(s@)
            &&& res matches Err(e) ==> e == AuthError::MissingField(field)
        }),
{
    match optional_non_empty_string(v) {
        Some(s) => Ok(s),
        None => Err(AuthError::MissingField(field)),
    }
}

/// The pieces of a text cut at each `.`, as `str::split('.')` gives them.
pub open spec fn split_dots(s: Seq<char>) -> Seq<Seq<char>>
    decreases s.len(),
{
    if s.len() == 0 {
        seq![Seq::<char>::empty()]
    } else {
        let p = split_dots(s.drop_last());
        if s.last() == '.' {
            p.push(Seq::<char>::empty())
        } else {
            p.update(p.len() - 1, p.last().push(s.last()))
        }
    }
}

/// The payload segment of a JWT: the middle one of exactly three
/// dot-separated segments.
pub open spec fn jwt_payload(jwt: Seq<char>) -> Option<Seq<char>> {
    let parts = split_dots(jwt);
    if parts.len() == 3 {
        Some(parts[1])
    } else {
        None
    }
}

/// The middle segment of a three-segment JWT.
pub fn jwt_payload_segment(jwt: &[char]) -> (res: Option<Vec<char>>)
    ensures
        res matches Some(p) ==> jwt_payload(jwt@) == Some(p@),
        res is None ==> jwt_payload(jwt@) is None,
{
    let mut pieces: Vec<Vec<char>> = Vec::new();
    let mut current: Vec<char> = Vec::new();
    let mut i: usize = 0;
    while i < jwt.len()
        invariant
            i <= jwt.len(),
            split_dots(jwt@.take(i as int)) == pieces@.map_values(|p: Vec<char>| p@).push(
                current@,
            ),
        decreases jwt.len() - i,
    {
        let ghost before = pieces@.map_values(|p: Vec<char>| p@);
        assert(jwt@.take(i + 1).drop_last() =~= jwt@.take(i as int));
        if jwt[i] == '.' {
            let done = current;
            pieces.push(done);
            current = Vec::new();
            assert(pieces@.map_values(|p: Vec<char>| p@) =~= before.push(done@));
        } else {
            let ghost old_cur = current@;
            current.push(jwt[i]);
            assert(before.push(old_cur).update(before.len() as int, old_cur.push(jwt@[i as int]))
                =~= before.push(current@));
        }
        i = i + 1;
    }
    assert(jwt@.take(jwt.len() as int) =~= jwt@);
    if pieces.len() == 2 {
        let middle = pieces.pop().unwrap();
        assert(split_dots(jwt@)[1] == middle@);
        Some(middle)
    } else {
        None
    }
}


/// The first organization marked `is_default: true`.
pub open spec fn first_default_org(orgs: Seq<Json>) -> Option<Json>
    decreases orgs.len(),
{
    if orgs.len() == 0 {
        None
    } else if json_bool(json_get(Some(orgs[0]), "is_default"@)) == Some(true) {
        Some(orgs[0])
    } else {
        first_default_org(orgs.drop_first())
    }
}

/// The first non-empty organization id.
pub open spec fn first_org_id(orgs: Seq<Json>) -> Option<Seq<char>>
    decreases orgs.len(),
{
    if orgs.len() == 0 {
        None
    } else if non_empty_text(json_get(Some(orgs[0]), "id"@)) is Some {
        non_empty_text(json_get(Some(orgs[0]), "id"@))
    } else {
        first_org_id(orgs.drop_first())
    }
}

/// The workspace id taken from the organizations list: that of the default
/// organization, else the first organization that has one.
pub open spec fn default_org_id(v: Option<Json>) -> Option<Seq<char>> {
    match json_array(v) {
        None => None,
        Some(orgs) => {
            let from_default = match first_default_org(orgs) {
                Some(org) => non_empty_text(json_get(Some(org), "id"@)),
                None => None,
            };
            if from_default is Some {
                from_default
            } else {
                first_org_id(orgs)
            }
        },
    }
}

/// The workspace of the login's organizations: the default one, else the
/// first one with an id.
#[verifier::loop_isolation(false)]
fn default_organization_id(v: Option<&Json>) -> (res: Option<String>)
    ensures
        opt_view(res) == default_org_id(
            match v {
                Some(j) => Some(*j),
                None => None,
            },
        ),
{
    let orgs = match v {
        Some(Json::Array(items)) => items,
        _ => return None,
    };
    let mut i: usize = 0;
    assert(orgs@.skip(0) =~= orgs@);
    while i < orgs.len()
        invariant
            i <= orgs@.len(),
            first_default_org(orgs@) == first_default_org(orgs@.skip(i as int)),
        decreases orgs.len() - i,
    {
        assert(orgs@.skip(i as int).drop_first() =~= orgs@.skip(i + 1));
        assert(orgs@.skip(i as int)[0] == orgs@[i as int]);
        let is_default = match orgs[i].get("is_default") {
            Some(flag) => flag.as_bool(),
            None => None,
        };
        if is_default == Some(true) {
            assert(first_default_org(orgs@) == Some(orgs@[i as int]));
            let id = optional_non_empty_string(orgs[i].get("id"));
            if id.is_some() {
                return id;
            }
            break;
        }
        i = i + 1;
    }
    assert(i == orgs.len() ==> orgs@.skip(i as int).len() == 0);
    let mut k: usize = 0;
    while k < orgs.len()
        invariant
            k <= orgs@.len(),
            first_org_id(orgs@) == first_org_id(orgs@.skip(k as int)),
        decreases orgs.len() - k,
    {
        assert(orgs@.skip(k as int).drop_first() =~= orgs@.skip(k + 1));
        assert(orgs@.skip(k as int)[0] == orgs@[k as int]);
        let id = optional_non_empty_string(orgs[k].get("id"));
        if id.is_some() {
            return id;
        }
        k = k + 1;
    }
    assert(orgs@.skip(k as int).len() == 0);
    None
}

/// The claims of a JWT: the JSON document in its base64 payload segment.
pub open spec fn jwt_claims(jwt: Seq<char>) -> Option<Json> {
    match jwt_payload(jwt) {
        Some(p) => if exists|b: Seq<u8>| #[trigger] base64_url(b) == p {
            json_document(choose|b: Seq<u8>| #[trigger] base64_url(b) == p)
        } else {
            None
        },
        None => None,
    }
}

/// The claims of a JWT, `InvalidJwt` where the token has not three segments
/// or its payload is not base64 JSON.
fn decode_jwt_payload(jwt: &str) -> (res: Result<Json, AuthError>)
    ensures
        res matches Ok(c) ==> jwt_claims(jwt@) == Some(c),
        res matches Err(e) ==> jwt_claims(jwt@) is None && e == AuthError::InvalidJwt,
{
    let cs = chars_of(jwt);
    let payload = match jwt_payload_segment(&cs) {
        Some(p) => p,
        None => return Err(AuthError::InvalidJwt),
    };
    let text = string_of(&payload);
    let bytes = match decode_url_safe(text.as_str()) {
        Ok(b) => b,
        Err(_) => return Err(AuthError::InvalidJwt),
    };
    proof {
        let p = payload@;
        let c = choose|b: Seq<u8>| #[trigger] base64_url(b) == p;
        assert(base64_url(bytes@) == p);
        lemma_base64_url_injective(c, bytes@);
    }
    match parse_json(&bytes) {
        Ok(claims) => Ok(claims),
        Err(_) => Err(AuthError::InvalidJwt),
    }
}

/// What is read from the JWT claims, given the access token and the workspace
/// id of the `tokens` object.
pub open spec fn auth_from_claims_spec(
    access_token: Seq<char>,
    token_account_id: Option<Seq<char>>,
    claims: Json,
) -> Result<AuthView, AuthError> {
    let email = non_empty_text(json_get(Some(claims), "email"@));
    let auth = json_get(Some(claims), "https://api.openai.com/auth"@);
    let jwt_account_id = if non_empty_text(json_get(auth, "chatgpt_account_id"@)) is Some {
        non_empty_text(json_get(auth, "chatgpt_account_id"@))
    } else {
        default_org_id(json_get(auth, "organizations"@))
    };
    let user_id = if non_empty_text(json_get(auth, "chatgpt_user_id"@)) is Some {
        non_empty_text(json_get(auth, "chatgpt_user_id"@))
    } else {
        non_empty_text(json_get(auth, "user_id"@))
    };
    if email is None {
        Err(AuthError::MissingField("email"))
    } else if !json_is_object(auth) {
        Err(AuthError::MissingField("https://api.openai.com/auth"))
    } else if token_account_id is Some && jwt_account_id is Some && token_account_id
        != jwt_account_id {
        Err(AuthError::AccountIdMismatch)
    } else if token_account_id is None && jwt_account_id is None {
        Err(AuthError::MissingField("chatgpt_account_id"))
    } else if user_id is None {
        Err(AuthError::MissingField("chatgpt_user_id"))
    } else {
        Ok(
            AuthView {
                email: lowercase(email->0),
                user_id: user_id->0,
                account_id: if token_account_id is Some {
                    token_account_id->0
                } else {
                    jwt_account_id->0
                },
                access_token,
                plan: non_empty_text(json_get(auth, "chatgpt_plan_type"@)),
            },
        )
    }
}

/// The workspace id of a JWT is its `chatgpt_account_id` claim wherever that
/// is a non-empty string; the organizations list is read only in its absence.
/// So claims naming a workspace, with or without a `tokens.account_id` that
/// agrees, are read as that workspace and the claimed user, whatever the
/// organizations list holds.
pub proof fn account_claim_takes_precedence(
    access_token: Seq<char>,
    claims: Json,
    auth: Json,
    email: Seq<char>,
    account: Seq<char>,
    user: Seq<char>,
)
    requires
        non_empty_text(json_get(Some(claims), "email"@)) == Some(email),
        json_get(Some(claims), "https://api.openai.com/auth"@) == Some(auth),
        json_is_object(Some(auth)),
        non_empty_text(json_get(Some(auth), "chatgpt_account_id"@)) == Some(account),
        non_empty_text(json_get(Some(auth), "chatgpt_user_id"@)) == Some(user),
    ensures
        auth_from_claims_spec(access_token, Some(account), claims) matches Ok(v) && v.account_id
            == account && v.user_id == user && v.email == lowercase(email) && v.access_token
            == access_token,
        auth_from_claims_spec(access_token, None, claims) matches Ok(v) && v.account_id == account,
{
}

/// A `tokens.account_id` that differs from the workspace the claims name is
/// refused.
pub proof fn differing_token_workspace_is_refused(
    access_token: Seq<char>,
    token_account: Seq<char>,
    claims: Json,
    auth: Json,
    account: Seq<char>,
)
    requires
        non_empty_text(json_get(Some(claims), "email"@)) is Some,
        json_get(Some(claims), "https://api.openai.com/auth"@) == Some(auth),
        json_is_object(Some(auth)),
        non_empty_text(json_get(Some(auth), "chatgpt_account_id"@)) == Some(account),
        token_account != account,
    ensures
        auth_from_claims_spec(access_token, Some(token_account), claims) == Err::<AuthView, AuthError>(
            AuthError::AccountIdMismatch,
        ),
{
}

/// Whether a result agrees with an expected outcome: the same identity, or
/// the same error.
pub open spec fn auth_outcome(res: Result<AuthInfo, AuthError>, expected: Result<AuthView, AuthError>) -> bool {
    match res {
        Ok(info) => expected == Ok::<AuthView, AuthError>(info@),
        Err(e) => expected == Err::<AuthView, AuthError>(e),
    }
}

/// The identity read from decoded JWT claims, given the access token and the
/// workspace id found in the `tokens` object.
pub fn auth_from_claims(access_token: String, token_account_id: Option<String>, claims: &Json) -> (res: Result<AuthInfo, AuthError>)
    ensures
        auth_outcome(res, auth_from_claims_spec(access_token@, opt_view(token_account_id), *claims)),
{
    let email = match required_string(claims.get("email"), "email") {
        Ok(e) => e,
        Err(e) => return Err(e),
    };
    let email_chars = chars_of(email.as_str());
    let email = string_of(&lowercase_chars(&email_chars));
    let auth_claims = match claims.get("https://api.openai.com/auth") {
        Some(a) => a,
        None => return Err(AuthError::MissingField("https://api.openai.com/auth")),
    };
    if !auth_claims.is_object() {
        return Err(AuthError::MissingField("https://api.openai.com/auth"));
    }
    let jwt_account_id = match optional_non_empty_string(auth_claims.get("chatgpt_account_id")) {
        Some(a) => Some(a),
        None => default_organization_id(auth_claims.get("organizations")),
    };
    let account_id = match (token_account_id, jwt_account_id) {
        (Some(token), Some(jwt)) => {
            if !crate::text::same_text(token.as_str(), jwt.as_str()) {
                return Err(AuthError::AccountIdMismatch);
            }
            token
        },
        (Some(token), None) => token,
        (None, Some(jwt)) => jwt,
        (None, None) => return Err(AuthError::MissingField("chatgpt_account_id")),
    };
    let user_id = match optional_non_empty_string(auth_claims.get("chatgpt_user_id")) {
        Some(u) => u,
        None => match optional_non_empty_string(auth_claims.get("user_id")) {
            Some(u) => u,
            None => return Err(AuthError::MissingField("chatgpt_user_id")),
        },
    };
    let plan = optional_non_empty_string(auth_claims.get("chatgpt_plan_type"));
    Ok(AuthInfo { email, user_id, account_id, access_token, plan })
}

/// What is read from a parsed `auth.json` document.
pub open spec fn auth_from_document_spec(root: Json) -> Result<AuthView, AuthError> {
    let api_key = json_str(json_get(Some(root), "OPENAI_API_KEY"@));
    let tokens = json_get(Some(root), "tokens"@);
    let access_token = non_empty_text(json_get(tokens, "access_token"@));
    let id_token = non_empty_text(json_get(tokens, "id_token"@));
    if api_key matches Some(k) && trim(k).len() > 0 {
        Err(AuthError::ApiKeyUnsupported)
    } else if !json_is_object(tokens) {
        Err(AuthError::MissingField("tokens"))
    } else if access_token is None {
        Err(AuthError::MissingField("tokens.access_token"))
    } else if id_token is None {
        Err(AuthError::MissingField("tokens.id_token"))
    } else {
        match jwt_claims(id_token->0) {
            None => Err(AuthError::InvalidJwt),
            Some(claims) => auth_from_claims_spec(
                access_token->0,
                non_empty_text(json_get(tokens, "account_id"@)),
                claims,
            ),
        }
    }
}

/// The identity read from a parsed `auth.json` document.
pub fn auth_from_document(root: &Json) -> (res: Result<AuthInfo, AuthError>)
    ensures
        auth_outcome(res, auth_from_document_spec(*root)),
{
    let api_key = match root.get("OPENAI_API_KEY") {
        Some(v) => v.as_str(),
        None => None,
    };
    if let Some(k) = api_key {
        let kc = chars_of(k);
        if trim_chars(&kc).len() > 0 {
            return Err(AuthError::ApiKeyUnsupported);
        }
    }
    let tokens = match root.get("tokens") {
        Some(t) => t,
        None => return Err(AuthError::MissingField("tokens")),
    };
    if !tokens.is_object() {
        return Err(AuthError::MissingField("tokens"));
    }
    let access_token = match required_string(tokens.get("access_token"), "tokens.access_token") {
        Ok(a) => a,
        Err(e) => return Err(e),
    };
    let id_token = match required_string(tokens.get("id_token"), "tokens.id_token") {
        Ok(a) => a,
        Err(e) => return Err(e),
    };
    let token_account_id = optional_non_empty_string(tokens.get("account_id"));
    let claims = match decode_jwt_payload(id_token.as_str()) {
        Ok(c) => c,
        Err(e) => return Err(e),
    };
    auth_from_claims(access_token, token_account_id, &claims)
}

/// The identity in the bytes of an `auth.json`. A JSON error
/// comes exactly where the bytes are not a JSON document; otherwise the
/// outcome is that of `auth_from_document_spec`.
pub fn parse_bytes(bytes: &[u8]) -> (res: Result<AuthInfo, AuthError>)
    ensures
        res matches Err(AuthError::Json(_)) <==> json_document(bytes@) is None,
        json_document(bytes@) matches Some(root) ==> auth_outcome(res, auth_from_document_spec(root)),
{
    match parse_json(bytes) {
        Ok(root) => auth_from_document(&root),
        Err(e) => Err(AuthError::Json(e)),
    }
}

} // verus!
