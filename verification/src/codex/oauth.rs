//! Logging in to Codex: the URL to open, the tokens that come back, and what
//! an id token says of the account.
use vstd::prelude::*;

use crate::adapter::outgoing::{headers_view, push_header};
use crate::codex::sse_bridge::opt_text;
use crate::encode::{
    base64_bytes, base64_decode, base64_encode, base64_text, url_encode, url_encoded,
};
use crate::error::RefreshError;
use crate::json::{obj, parse_json_bytes, parsed_bytes, text, Json, JsonView};
use crate::random::{random_bytes, sha256, sha256_of};
use crate::text::{concat2, concat3, contains, join, joined, occurs, owned, split, split_on, texts};

verus! {

pub const CODEX_CLIENT_ID: &'static str = "app_EMoamEEZ73f0CkXaXp7hrann";

pub const REDIRECT_URI: &'static str = "http://localhost:1455/auth/callback";

pub const AUTHORIZE_URL: &'static str = "https://auth.openai.com/oauth/authorize";

pub const TOKEN_URL: &'static str = "https://auth.openai.com/oauth/token";

/// What a login asks for.
pub const SCOPE: &'static str = "openid profile email offline_access";

/// A secret that proves who began a login, and the digest that is shown before.
pub struct Pkce {
    pub verifier: String,
    pub challenge: String,
}

/// The digest that is shown for a verifier.
pub open spec fn challenge_of(verifier: Seq<char>) -> Seq<char> {
    base64_text(sha256(vstd::utf8::encode_utf8(verifier)))
}

/// The verifier that random bytes make, with its digest.
pub fn pkce_from(bytes: &Vec<u8>) -> (r: Pkce)
    ensures
        r.verifier@ == base64_text(bytes@),
        r.verifier@.len() == (4 * bytes@.len() + 2) / 3,
        r.challenge@ == challenge_of(r.verifier@),
{
    let verifier = base64_encode(bytes.as_slice());
    let digest = sha256_of(verifier.as_str().as_bytes());
    let challenge = base64_encode(digest.as_slice());
    Pkce { verifier, challenge }
}

/// A fresh verifier, the text of 32 random bytes, with its digest.
pub fn generate_pkce() -> (r: Pkce)
    ensures
        exists|b: Seq<u8>| b.len() == 32 && r.verifier@ == #[trigger] base64_text(b),
        r.verifier@.len() == 43,
        r.challenge@ == challenge_of(r.verifier@),
{
    let bytes = random_bytes();
    pkce_from(&bytes)
}

/// One parameter of a query.
pub open spec fn parameter(name: Seq<char>, value: Seq<char>) -> Seq<char> {
    name + "="@ + url_encoded(value)
}

fn push_parameter(v: &mut Vec<String>, name: &str, value: &str)
    ensures
        texts(final(v)@) == texts(old(v)@).push(parameter(name@, value@)),
{
    let p = concat3(name, "=", url_encode(value).as_str());
    v.push(p);
    assert(texts(v@) =~= texts(old(v)@).push(p@));
}

/// The URL that begins a login.
pub open spec fn authorize_url(state: Seq<char>, challenge: Seq<char>) -> Seq<char> {
    let query = seq![
        parameter("response_type"@, "code"@),
        parameter("client_id"@, CODEX_CLIENT_ID@),
        parameter("redirect_uri"@, REDIRECT_URI@),
        parameter("scope"@, SCOPE@),
        parameter("code_challenge"@, challenge),
        parameter("code_challenge_method"@, "S256"@),
        parameter("state"@, state),
        parameter("id_token_add_organizations"@, "true"@),
    ];
    AUTHORIZE_URL@ + "?"@ + joined(query, "&"@)
}

/// The URL that begins a login.
pub fn build_authorize_url(state: &str, challenge: &str) -> (r: String)
    ensures
        r@ == authorize_url(state@, challenge@),
{
    let mut query: Vec<String> = Vec::new();
    push_parameter(&mut query, "response_type", "code");
    push_parameter(&mut query, "client_id", CODEX_CLIENT_ID);
    push_parameter(&mut query, "redirect_uri", REDIRECT_URI);
    push_parameter(&mut query, "scope", SCOPE);
    push_parameter(&mut query, "code_challenge", challenge);
    push_parameter(&mut query, "code_challenge_method", "S256");
    push_parameter(&mut query, "state", state);
    push_parameter(&mut query, "id_token_add_organizations", "true");
    assert(texts(query@) =~= seq![
        parameter("response_type"@, "code"@),
        parameter("client_id"@, CODEX_CLIENT_ID@),
        parameter("redirect_uri"@, REDIRECT_URI@),
        parameter("scope"@, SCOPE@),
        parameter("code_challenge"@, challenge@),
        parameter("code_challenge_method"@, "S256"@),
        parameter("state"@, state@),
        parameter("id_token_add_organizations"@, "true"@),
    ]);
    concat3(AUTHORIZE_URL, "?", join(&query, "&").as_str())
}

/// The tokens that a login or a renewal brings.
pub struct TokenSet {
    pub access_token: String,
    pub refresh_token: Option<String>,
    pub id_token: Option<String>,
    pub expires_in: Option<i64>,
}

impl TokenSet {
    /// The tokens are those of a reply.
    pub open spec fn reads(self, j: JsonView) -> bool {
        &&& self.access_token@ == j.at("access_token"@).str_or_empty()
        &&& opt_text(self.refresh_token) == j.at("refresh_token"@).str()
        &&& opt_text(self.id_token) == j.at("id_token"@).str()
        &&& match self.expires_in {
            Some(n) => j.at("expires_in"@).int64() == Some(n as int),
            None => j.at("expires_in"@).int64() is None,
        }
    }
}

fn owned_str(j: &Json) -> (r: Option<String>)
    ensures
        opt_text(r) == j@.str(),
{
    match j.as_str() {
        Some(s) => Some(owned(s)),
        None => None,
    }
}

/// The tokens of a reply.
pub fn token_set(j: &Json) -> (r: TokenSet)
    ensures
        r.reads(j@),
{
    TokenSet {
        access_token: owned(j.at("access_token").str_or_empty()),
        refresh_token: owned_str(j.at("refresh_token")),
        id_token: owned_str(j.at("id_token")),
        expires_in: j.at("expires_in").as_i64(),
    }
}

/// The tokens of a reply's body. Where it is no JSON, the error says so in the
/// words given.
pub fn tokens_from(body: &[u8], unreadable: &str) -> (r: Result<TokenSet, RefreshError>)
    ensures
        match parsed_bytes(body@) {
            Ok(j) => r matches Ok(t) && t.reads(j),
            Err(e) => r matches Err(RefreshError::Transient(m)) && m@ == unreadable@ + ": "@ + e,
        },
{
    match parse_json_bytes(body) {
        Ok(j) => Ok(token_set(&j)),
        Err(e) => Err(RefreshError::Transient(concat3(unreadable, ": ", e.as_str()))),
    }
}

/// The error that a reply with a failure status means: the login is no longer
/// valid, or something that may pass.
pub fn token_failure(what: &str, body: &str) -> (r: RefreshError)
    ensures
        match r {
            RefreshError::InvalidGrant => occurs(body@, "invalid_grant"@),
            RefreshError::Transient(m) => !occurs(body@, "invalid_grant"@) && m@ == what@ + body@,
        },
{
    if contains(body, "invalid_grant") {
        RefreshError::InvalidGrant
    } else {
        RefreshError::Transient(concat2(what, body))
    }
}

/// The fields of the form that trades a code for tokens.
pub open spec fn exchange_fields(code: Seq<char>, verifier: Seq<char>) -> Seq<
    (Seq<char>, Seq<char>),
> {
    seq![
        ("grant_type"@, "authorization_code"@),
        ("code"@, code),
        ("redirect_uri"@, REDIRECT_URI@),
        ("client_id"@, CODEX_CLIENT_ID@),
        ("code_verifier"@, verifier),
    ]
}

/// The form that trades a code for tokens.
pub fn exchange_form(code: &str, verifier: &str) -> (r: Vec<(String, String)>)
    ensures
        headers_view(r@) == exchange_fields(code@, verifier@),
{
    let mut form: Vec<(String, String)> = Vec::new();
    push_header(&mut form, "grant_type", "authorization_code");
    push_header(&mut form, "code", code);
    push_header(&mut form, "redirect_uri", REDIRECT_URI);
    push_header(&mut form, "client_id", CODEX_CLIENT_ID);
    push_header(&mut form, "code_verifier", verifier);
    assert(headers_view(form@) =~= exchange_fields(code@, verifier@));
    form
}

/// The request that renews tokens.
pub fn refresh_body(refresh_token: &str) -> (r: Json)
    ensures
        r@ == obj().put("grant_type"@, text("refresh_token"@)).put(
            "refresh_token"@,
            text(refresh_token@),
        ).put("client_id"@, text(CODEX_CLIENT_ID@)).put("scope"@, text(SCOPE@)),
{
    Json::object().with("grant_type", Json::text("refresh_token")).with(
        "refresh_token",
        Json::text(refresh_token),
    ).with("client_id", Json::text(CODEX_CLIENT_ID)).with("scope", Json::text(SCOPE))
}

/// What an id token says of the account.
pub struct AccountClaims {
    pub chatgpt_account_id: Option<String>,
    pub workspace_id: Option<String>,
}

/// What `AccountClaims` stand for.
pub struct ClaimsView {
    pub account: Option<Seq<char>>,
    pub workspace: Option<Seq<char>>,
}

impl View for AccountClaims {
    type V = ClaimsView;

    open spec fn view(&self) -> ClaimsView {
        ClaimsView {
            account: opt_text(self.chatgpt_account_id),
            workspace: opt_text(self.workspace_id),
        }
    }
}

/// What the payload of an id token says of the account.
pub open spec fn claims_in(payload: JsonView) -> ClaimsView {
    let auth = payload.at("https://api.openai.com/auth"@);
    ClaimsView {
        account: auth.at("chatgpt_account_id"@).str(),
        workspace: auth.at("workspace_id"@).str(),
    }
}

/// What the payload of an id token says of the account.
pub fn account_claims(payload: &Json) -> (r: AccountClaims)
    ensures
        r@ == claims_in(payload@),
{
    let auth = payload.at("https://api.openai.com/auth");
    AccountClaims {
        chatgpt_account_id: owned_str(auth.at("chatgpt_account_id")),
        workspace_id: owned_str(auth.at("workspace_id")),
    }
}

/// What an id token says of the account; nothing where it cannot be read.
pub open spec fn token_claims(id_token: Seq<char>) -> ClaimsView {
    let none = ClaimsView { account: None, workspace: None };
    let parts = split_on(id_token, "."@);
    if parts.len() < 2 {
        none
    } else {
        match base64_bytes(parts[1]) {
            None => none,
            Some(bytes) => match parsed_bytes(bytes) {
                Ok(j) => claims_in(j),
                Err(_) => none,
            },
        }
    }
}

/// What an id token says of the account.
pub fn decode_account_claims(id_token: &str) -> (r: AccountClaims)
    ensures
        r@ == token_claims(id_token@),
{
    proof {
        reveal_strlit(".");
    }
    let parts = split(id_token, ".");
    assert(texts(parts@).len() == parts@.len());
    if parts.len() < 2 {
        return AccountClaims { chatgpt_account_id: None, workspace_id: None };
    }
    assert(split_on(id_token@, "."@)[1] == parts@[1]@);
    match base64_decode(parts[1].as_str()) {
        None => AccountClaims { chatgpt_account_id: None, workspace_id: None },
        Some(bytes) => match parse_json_bytes(bytes.as_slice()) {
            Ok(j) => account_claims(&j),
            Err(_) => AccountClaims { chatgpt_account_id: None, workspace_id: None },
        },
    }
}

/// What is kept of an account beside its tokens.
pub open spec fn claims_data(c: ClaimsView) -> JsonView {
    let with_account = match c.account {
        Some(a) => obj().put("chatgpt_account_id"@, text(a)),
        None => obj(),
    };
    match c.workspace {
        Some(w) => with_account.put("workspace_id"@, text(w)),
        None => with_account,
    }
}

/// What is kept of an account beside its tokens.
pub fn provider_data_for(claims: &AccountClaims) -> (r: Json)
    ensures
        r@ == claims_data(claims@),
{
    let mut out = Json::object();
    match &claims.chatgpt_account_id {
        Some(a) => {
            out = out.with("chatgpt_account_id", Json::text(a.as_str()));
        },
        None => {},
    }
    match &claims.workspace_id {
        Some(w) => {
            out = out.with("workspace_id", Json::text(w.as_str()));
        },
        None => {},
    }
    out
}

/// What is kept of an account that logged in with an id token.
pub fn provider_data_from_token(id_token: Option<&str>) -> (r: Json)
    ensures
        r@ == match id_token {
            Some(t) => claims_data(token_claims(t@)),
            None => obj(),
        },
{
    match id_token {
        Some(t) => provider_data_for(&decode_account_claims(t)),
        None => Json::object(),
    }
}

} // verus!
