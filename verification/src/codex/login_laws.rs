//! What a Codex login sends, what it reads of the reply, and what a renewal leaves.
use vstd::prelude::*;

use crate::codex::oauth::{
    authorize_url, challenge_of, claims_data, claims_in, exchange_fields, token_claims, ClaimsView,
    TokenSet,
};
use crate::codex::refresh::{due, ends_at, renewed, superseded};
use crate::codex::sse_bridge::opt_text;
use crate::encode::{base64_bytes, base64_text, url_encoded};
use crate::json::{parsed_bytes, JsonView};
use crate::model::CredentialsView;
use crate::random::sha256;
use crate::text::{joined, split_on};

verus! {

/// The words of claims differ.
proof fn lemma_words()
    ensures
        "chatgpt_account_id"@ != "workspace_id"@,
{
    reveal_strlit("chatgpt_account_id");
    reveal_strlit("workspace_id");
    assert("chatgpt_account_id"@.len() == 18);
    assert("workspace_id"@.len() == 12);
}

/// A parameter as it stands in a URL.
pub open spec fn pair(name: Seq<char>, value: Seq<char>) -> Seq<char> {
    name + "="@ + url_encoded(value)
}

/// The page that begins a login is told who asks, for what, where to come back to,
/// the challenge and the state.
pub proof fn law_login_page_knows_what_is_asked(state: Seq<char>, challenge: Seq<char>)
    ensures
        authorize_url(state, challenge) == "https://auth.openai.com/oauth/authorize"@ + "?"@ + joined(
            seq![
                pair("response_type"@, "code"@),
                pair("client_id"@, "app_EMoamEEZ73f0CkXaXp7hrann"@),
                pair("redirect_uri"@, "http://localhost:1455/auth/callback"@),
                pair("scope"@, "openid profile email offline_access"@),
                pair("code_challenge"@, challenge),
                pair("code_challenge_method"@, "S256"@),
                pair("state"@, state),
                pair("id_token_add_organizations"@, "true"@),
            ],
            "&"@,
        ),
{
}

/// The challenge is the digest of the verifier, in URL-safe base64.
pub proof fn law_challenge_is_a_digest(verifier: Seq<char>)
    ensures
        challenge_of(verifier) == base64_text(sha256(vstd::utf8::encode_utf8(verifier))),
{
}

/// A code is traded for tokens with the verifier that the challenge was made of, by
/// whoever asked for it, from where the login came back to.
pub proof fn law_codes_are_traded(code: Seq<char>, verifier: Seq<char>)
    ensures
        exchange_fields(code, verifier) == seq![
            ("grant_type"@, "authorization_code"@),
            ("code"@, code),
            ("redirect_uri"@, "http://localhost:1455/auth/callback"@),
            ("client_id"@, "app_EMoamEEZ73f0CkXaXp7hrann"@),
            ("code_verifier"@, verifier),
        ],
{
}

/// The tokens of a reply are those that it names.
pub proof fn law_tokens_are_read(t: TokenSet, j: JsonView)
    requires
        t.reads(j),
    ensures
        j.at("access_token"@) is Str ==> JsonView::Str(t.access_token@) == j.at("access_token"@),
        j.at("refresh_token"@) is Str ==> t.refresh_token is Some && JsonView::Str(
            t.refresh_token->0@,
        ) == j.at("refresh_token"@),
        !(j.at("refresh_token"@) is Str) ==> t.refresh_token is None,
        j.at("id_token"@) is Str ==> t.id_token is Some && JsonView::Str(t.id_token->0@) == j.at(
            "id_token"@,
        ),
        !(j.at("id_token"@) is Str) ==> t.id_token is None,
        j.at("expires_in"@) matches JsonView::Int(n) ==> i64::MIN <= n <= i64::MAX ==> t.expires_in
            is Some && t.expires_in->0 == n,
        !(j.at("expires_in"@) is Int) ==> t.expires_in is None,
{
}

/// The second part of an id token says which account and which workspace it is for;
/// one that cannot be read says nothing.
pub proof fn law_id_token_names_the_account(token: Seq<char>, bytes: Seq<u8>, j: JsonView)
    ensures
        ({
            let parts = split_on(token, "."@);
            let auth = j.at("https://api.openai.com/auth"@);
            &&& parts.len() < 2 ==> token_claims(token).account is None && token_claims(
                token,
            ).workspace is None
            &&& parts.len() >= 2 && base64_bytes(parts[1]) is None ==> token_claims(token).account
                is None
            &&& parts.len() >= 2 && base64_bytes(parts[1]) == Some(bytes) && parsed_bytes(bytes)
                == Ok::<JsonView, Seq<char>>(j) ==> token_claims(token).account == auth.at(
                "chatgpt_account_id"@,
            ).str() && token_claims(token).workspace == auth.at("workspace_id"@).str()
        }),
{
}

/// What is known of an account is kept under its name, and nothing else is.
pub proof fn law_account_is_kept(c: ClaimsView, key: Seq<char>)
    ensures
        c.account is Some ==> claims_data(c).at("chatgpt_account_id"@) == JsonView::Str(
            c.account->0,
        ),
        c.account is None ==> claims_data(c).field("chatgpt_account_id"@) is None,
        c.workspace is Some ==> claims_data(c).at("workspace_id"@) == JsonView::Str(c.workspace->0),
        c.workspace is None ==> claims_data(c).field("workspace_id"@) is None,
        key != "chatgpt_account_id"@ && key != "workspace_id"@ ==> claims_data(c).field(key) is None,
        claims_data(c) is Object,
{
    lemma_words();
}

/// Credentials are renewed five minutes before they end, and where nobody knows when
/// they do.
pub proof fn law_renewal_is_in_time(expires_at: i64, now: i64)
    ensures
        due(None, now),
        due(Some(expires_at), now) <==> now >= expires_at - 5 * 60 * 1_000_000,
{
}

/// A renewal takes the new access token and its end, takes what other tokens are
/// new, and keeps the others and what is known of the account; a key plays no part.
pub proof fn law_renewal_takes_what_is_new(c: CredentialsView, t: TokenSet, now: i64)
    ensures
        ({
            let r = renewed(c, t, now);
            &&& r.access_token == Some(t.access_token@)
            &&& t.refresh_token is Some ==> r.refresh_token == Some(t.refresh_token->0@)
            &&& t.refresh_token is None ==> r.refresh_token == c.refresh_token
            &&& t.id_token is Some ==> r.id_token == Some(t.id_token->0@)
            &&& t.id_token is None ==> r.id_token == c.id_token
            &&& t.expires_in is None ==> r.access_expires_at is None
            &&& t.expires_in matches Some(s) ==> i64::MIN <= now + 1_000_000 * s <= i64::MAX
                ==> r.access_expires_at is Some && r.access_expires_at->0 == now + 1_000_000 * s
            &&& r.provider_data == c.provider_data
            &&& r.api_key is None
        }),
{
}

/// Credentials were renewed by another exactly where those that are stored differ
/// from those at hand.
pub proof fn law_others_may_renew(stored: Seq<char>, at_hand: Option<Seq<char>>)
    ensures
        superseded(Some(stored), at_hand) <==> at_hand != Some(stored),
        !superseded(None, at_hand),
{
}

} // verus!
