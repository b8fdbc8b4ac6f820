//! What reaches a provider, over which way, and what of its answer reaches the
//! client.
use vstd::prelude::*;

use crate::adapter::codex::{codex_outgoing, session_id, RESPONSES_URL};
use crate::adapter::commandcode::{
    for_client, outgoing, pinned, transport_in, transport_url, without_slashes, Origin, Transport,
    GENERATE_URL, PROVIDER_CHAT_URL,
};
use crate::adapter::http::{http_request, translated};
use crate::adapter::outgoing::OutgoingView;
use crate::adapter::upstream_url::{
    bare_host, models_url, private_host, unbracketed_end, unbracketed_start, url_refusal, HostAddr,
    UrlParts,
};
use crate::codex::claude_message::{claude_reply, openai_reply};
use crate::codex::claude_request::{claude_request, openai_request};
use crate::codex::transform::codex_request;
use crate::commandcode::slug::project_slug;
use crate::commandcode::transform::envelope;
use crate::error::AppErrorView;
use crate::json::JsonView;
use crate::model::{CredentialsView, Provider, WireFormat};
use crate::text::{has_suffix, lowered, without_suffix};

verus! {

/// The words of requests differ.
proof fn lemma_words()
    ensures
        "model"@ != "params"@,
        "config"@ != "memory"@,
        "config"@ != "taste"@,
        "config"@ != "skills"@,
        "config"@ != "params"@,
        "config"@ != "threadId"@,
        "memory"@ != "taste"@,
        "memory"@ != "skills"@,
        "memory"@ != "params"@,
        "memory"@ != "threadId"@,
        "taste"@ != "skills"@,
        "taste"@ != "params"@,
        "taste"@ != "threadId"@,
        "skills"@ != "params"@,
        "skills"@ != "threadId"@,
        "params"@ != "threadId"@,
        "model"@ != "messages"@,
        "model"@ != "tools"@,
        "model"@ != "max_tokens"@,
        "model"@ != "temperature"@,
        "model"@ != "stream"@,
        "model"@ != "system"@,
        "messages"@ != "tools"@,
        "messages"@ != "max_tokens"@,
        "messages"@ != "temperature"@,
        "messages"@ != "stream"@,
        "messages"@ != "system"@,
        "tools"@ != "max_tokens"@,
        "tools"@ != "temperature"@,
        "tools"@ != "stream"@,
        "tools"@ != "system"@,
        "max_tokens"@ != "temperature"@,
        "max_tokens"@ != "stream"@,
        "max_tokens"@ != "system"@,
        "temperature"@ != "stream"@,
        "temperature"@ != "system"@,
        "stream"@ != "system"@,
{
    reveal_strlit("model");
    reveal_strlit("params");
    reveal_strlit("config");
    reveal_strlit("memory");
    reveal_strlit("taste");
    reveal_strlit("skills");
    reveal_strlit("threadId");
    reveal_strlit("messages");
    reveal_strlit("tools");
    reveal_strlit("max_tokens");
    reveal_strlit("temperature");
    reveal_strlit("stream");
    reveal_strlit("system");
    assert("model"@.len() == 5);
    assert("params"@.len() == 6);
    assert("config"@.len() == 6);
    assert("memory"@.len() == 6);
    assert("taste"@.len() == 5);
    assert("skills"@.len() == 6);
    assert("threadId"@.len() == 8);
    assert("messages"@.len() == 8);
    assert("tools"@.len() == 5);
    assert("max_tokens"@.len() == 10);
    assert("temperature"@.len() == 11);
    assert("stream"@.len() == 6);
    assert("system"@.len() == 6);
    assert("config"@[0] != "memory"@[0]);
    assert("config"@[0] != "skills"@[0]);
    assert("config"@[0] != "params"@[0]);
    assert("memory"@[0] != "skills"@[0]);
    assert("memory"@[0] != "params"@[0]);
    assert("skills"@[0] != "params"@[0]);
    assert("model"@[0] != "tools"@[0]);
    assert("stream"@[1] != "system"@[1]);
}

/// The body asks for this model, and for the rest what the other body asks for.
pub open spec fn asks_for(body: JsonView, model: Seq<char>, rest: JsonView) -> bool {
    &&& rest is Object ==> body.at("model"@) == JsonView::Str(model)
    &&& rest is Object ==> forall|k: Seq<char>|
        k != "model"@ ==> #[trigger] body.field(k) == rest.field(k)
    &&& !(rest is Object) ==> body == rest
}

// ---------------------------------------------------------------------------
// Providers with a key
// ---------------------------------------------------------------------------

/// A request goes to the provider's URL, signed with the key in the way of the
/// provider's wire format, and asks the provider's own model for what the client
/// asks, in the provider's wire format.
pub proof fn law_request_reaches_the_provider(
    provider: Provider,
    client: WireFormat,
    body: JsonView,
    key: Option<Seq<char>>,
)
    ensures
        ({
            let r = http_request(provider, client, body, key);
            &&& provider.base_url is None ==> r == Err::<OutgoingView, AppErrorView>(
                AppErrorView::Internal("passthrough provider missing base_url"@),
            )
            &&& provider.base_url is Some ==> r is Ok && {
                let o = r->Ok_0;
                let wire = provider.wire_format;
                let model = provider.upstream_model@;
                &&& o.url == provider.base_url->0@
                &&& wire == WireFormat::OpenAi ==> o.bearer == key && o.headers.len() == 0
                &&& wire == WireFormat::Anthropic ==> o.bearer is None
                &&& wire == WireFormat::Anthropic && key is None ==> o.headers.len() == 0
                &&& wire == WireFormat::Anthropic && key is Some ==> o.headers == seq![
                    ("x-api-key"@, key->0),
                    ("anthropic-version"@, "2023-06-01"@),
                ]
                &&& client == wire ==> asks_for(o.body, model, body)
                &&& client == WireFormat::Anthropic && wire == WireFormat::OpenAi ==> asks_for(
                    o.body,
                    model,
                    openai_request(body),
                )
                &&& client == WireFormat::OpenAi && wire == WireFormat::Anthropic ==> asks_for(
                    o.body,
                    model,
                    claude_request(body),
                )
            }
        }),
{
}

/// A whole answer reaches the client in the client's wire format.
pub proof fn law_answer_is_translated(answer: JsonView)
    ensures
        translated(WireFormat::Anthropic, answer) == claude_reply(answer),
        translated(WireFormat::OpenAi, answer) == openai_reply(answer),
        for_client(answer, WireFormat::Anthropic) == claude_reply(answer),
        for_client(answer, WireFormat::OpenAi) == answer,
{
}

// ---------------------------------------------------------------------------
// Codex
// ---------------------------------------------------------------------------

/// A request goes to Codex's own URL, signed with the login's token, names the
/// account where it is known, and asks the provider's own model for what the client
/// asks; without a token there is none.
pub proof fn law_request_reaches_codex(
    provider: Provider,
    client: WireFormat,
    body: JsonView,
    creds: CredentialsView,
    version: Seq<char>,
)
    ensures
        ({
            let r = codex_outgoing(provider, client, body, creds, version);
            let account = creds.provider_data.at("chatgpt_account_id"@).str_or_empty();
            let session = "1router-"@ + provider.id@ + "-"@ + provider.upstream_model@ + "-"@ + (
            match client {
                WireFormat::OpenAi => "openai"@,
                WireFormat::Anthropic => "anthropic"@,
            });
            let chat = match client {
                WireFormat::Anthropic => openai_request(body),
                WireFormat::OpenAi => body,
            };
            let base = seq![
                ("originator"@, "codex_cli_rs"@),
                ("User-Agent"@, "codex_cli_rs/"@ + version),
            ];
            &&& creds.access_token is None ==> r == Err::<OutgoingView, AppErrorView>(
                AppErrorView::Internal("codex provider missing access_token"@),
            )
            &&& creds.access_token is Some ==> r is Ok && {
                let o = r->Ok_0;
                &&& o.url == "https://chatgpt.com/backend-api/codex/responses"@
                &&& o.bearer == creds.access_token
                &&& account.len() == 0 ==> o.headers == base
                &&& account.len() > 0 ==> o.headers == base.push(("ChatGPT-Account-ID"@, account))
                &&& session_id(provider, client) == session
                &&& asks_for(o.body, provider.upstream_model@, codex_request(chat, session))
            }
        }),
{
}

// ---------------------------------------------------------------------------
// Command Code
// ---------------------------------------------------------------------------

/// An account that is pinned to the older transport uses it; any other uses the one
/// that was settled on, and the newer one where none was.
pub proof fn law_transport_is_chosen(
    creds: CredentialsView,
    m: Map<Seq<char>, Transport>,
    provider: Seq<char>,
)
    ensures
        pinned(creds) <==> creds.provider_data.at("generate_only"@) == JsonView::Bool(true),
        m.contains_key(provider) ==> transport_in(m, provider) == m[provider],
        !m.contains_key(provider) ==> transport_in(m, provider) == Transport::Provider,
{
}

proof fn lemma_slashes(s: Seq<char>)
    ensures
        ({
            let t = without_slashes(s);
            &&& t.len() <= s.len()
            &&& t == s.subrange(0, t.len() as int)
            &&& t.len() > 0 ==> t.last() != '/'
            &&& forall|i: int| t.len() <= i < s.len() ==> #[trigger] s[i] == '/'
        }),
    decreases s.len(),
{
    if s.len() > 0 && s.last() == '/' {
        let rest = s.drop_last();
        lemma_slashes(rest);
        let t = without_slashes(s);
        assert(t =~= s.subrange(0, t.len() as int));
        assert forall|i: int| t.len() <= i < s.len() implies #[trigger] s[i] == '/' by {
            if i < rest.len() {
                assert(rest[i] == s[i]);
            }
        }
    } else {
        assert(s.subrange(0, s.len() as int) =~= s);
    }
}

/// Each transport has its own URL; below another base it has its own path, behind
/// the base without the slashes that end it.
pub proof fn law_transports_have_their_urls(base: Seq<char>)
    ensures
        transport_url(Transport::Provider, None)
            == "https://api.commandcode.ai/provider/v1/chat/completions"@,
        transport_url(Transport::Generate, None) == "https://api.commandcode.ai/alpha/generate"@,
        ({
            let n = without_slashes(base).len() as int;
            let b = base.subrange(0, n);
            &&& 0 <= n <= base.len()
            &&& n > 0 ==> b.last() != '/'
            &&& forall|i: int| n <= i < base.len() ==> #[trigger] base[i] == '/'
            &&& transport_url(Transport::Provider, Some(base)) == b
                + "/provider/v1/chat/completions"@
            &&& transport_url(Transport::Generate, Some(base)) == b + "/alpha/generate"@
        }),
{
    lemma_slashes(base);
}

/// A request goes over its transport, signed with the login's token and with the
/// headers of the client that it stands for, and asks the provider's own model for
/// what the client asks; without a token there is none.
pub proof fn law_request_reaches_command_code(
    provider: Provider,
    client: WireFormat,
    body: JsonView,
    creds: CredentialsView,
    o: Origin,
)
    ensures
        ({
            let chat = match client {
                WireFormat::Anthropic => openai_request(body),
                WireFormat::OpenAi => body,
            };
            let base = crate::codex::sse_bridge::opt_text(o.base_url);
            let newer = outgoing(provider, client, body, creds, Transport::Provider, o);
            let older = outgoing(provider, client, body, creds, Transport::Generate, o);
            let headers = seq![
                ("x-command-code-version"@, "0.29.0"@),
                ("x-cli-environment"@, "production"@),
                ("x-project-slug"@, project_slug(o.working_dir@)),
                ("x-taste-learning"@, "true"@),
                ("x-co-flag"@, "false"@),
            ];
            let plain = envelope(
                chat,
                o.thread_id@,
                o.working_dir@,
                o.date@,
                o.environment@,
            );
            &&& creds.access_token is None ==> newer == Err::<OutgoingView, AppErrorView>(
                AppErrorView::Internal("commandcode provider missing access_token"@),
            ) && older == newer
            &&& creds.access_token is Some ==> newer is Ok && older is Ok && {
                &&& newer->Ok_0.bearer == creds.access_token
                &&& older->Ok_0.bearer == creds.access_token
                &&& newer->Ok_0.headers == headers
                &&& older->Ok_0.headers == headers
                &&& newer->Ok_0.url == transport_url(Transport::Provider, base)
                &&& older->Ok_0.url == transport_url(Transport::Generate, base)
                &&& chat is Object ==> asks_for(
                    newer->Ok_0.body,
                    provider.upstream_model@,
                    chat,
                )
                &&& asks_for(
                    older->Ok_0.body.at("params"@),
                    provider.upstream_model@,
                    plain.at("params"@),
                )
                &&& forall|k: Seq<char>|
                    k != "params"@ ==> #[trigger] older->Ok_0.body.field(k) == plain.field(k)
            }
        }),
{
    lemma_words();
}

// ---------------------------------------------------------------------------
// Upstreams
// ---------------------------------------------------------------------------

/// A host without brackets is bare; brackets around one make no difference.
pub proof fn law_brackets_make_no_difference(host: Seq<char>)
    requires
        host.len() > 0,
        host[0] != '[' && host[0] != ']',
        host.last() != '[' && host.last() != ']',
    ensures
        bare_host(host) == host,
        bare_host(seq!['['] + host + seq![']']) == host,
{
    let s = seq!['['] + host + seq![']'];
    let t = host + seq![']'];
    assert(s.drop_first() =~= t);
    assert(t[0] == host[0]);
    assert(unbracketed_start(t) == t);
    assert(unbracketed_start(s) == t);
    assert(t.drop_last() =~= host);
    assert(unbracketed_end(host) == host);
}

/// This machine lies in a private network under its own name, whatever the case,
/// and so do the addresses that are kept for private networks, for one machine or
/// link, for groups, and for none.
pub proof fn law_private_addresses(host: Seq<char>, a: u8, b: u8, c: u8, d: u8)
    ensures
        lowered(bare_host(host)) == "localhost"@ ==> private_host(host, HostAddr::Name),
        lowered(bare_host(host)) != "localhost"@ ==> {
            let private = private_host(host, HostAddr::V4(a, b, c, d));
            &&& !private_host(host, HostAddr::Name)
            &&& a == 127 || a == 10 || (a == 192 && b == 168) || (a == 169 && b == 254) ==> private
            &&& a == 172 && 16 <= b <= 31 ==> private
            &&& 224 <= a <= 239 ==> private
            &&& a == 0 && b == 0 && c == 0 && d == 0 ==> private
            &&& a == 255 && b == 255 && c == 255 && d == 255 ==> private
            &&& a != 127 && a != 10 && a != 0 && a != 255 && !(224 <= a <= 239) && !(a == 192 && b
                == 168) && !(a == 169 && b == 254) && !(a == 172 && 16 <= b <= 31) ==> !private
        },
{
}

/// The same holds of the newer addresses: those of one machine, of none, of groups,
/// of private networks and of one link.
pub proof fn law_private_addresses_v6(
    host: Seq<char>,
    first: u16,
    loopback: bool,
    unspecified: bool,
)
    requires
        lowered(bare_host(host)) != "localhost"@,
    ensures
        private_host(host, HostAddr::V6 { first, loopback, unspecified }) <==> loopback || unspecified
            || first >= 0xff00 || 0xfc00 <= first <= 0xfdff || 0xfe80 <= first <= 0xfebf,
{
}

/// Without leave only HTTPS to a public host is let through; with leave HTTP and
/// private hosts are, too. Other schemes, and URLs without a host, never are.
pub proof fn law_upstreams_are_checked(url: UrlParts, addr: HostAddr)
    ensures
        url_refusal(url, addr, false) is None <==> url.scheme == "https"@ && url.host is Some
            && !private_host(url.host->0, addr),
        url_refusal(url, addr, true) is None <==> (url.scheme == "https"@ || url.scheme == "http"@)
            && url.host is Some,
{
    reveal_strlit("https");
    reveal_strlit("http");
}

/// The models of a provider are listed in place of its endpoint.
pub proof fn law_models_stand_beside_the_endpoint(base: Seq<char>, sibling: Option<Seq<char>>)
    ensures
        models_url(base + "/chat/completions"@, sibling) == base + "/models"@,
        models_url(base + "/messages"@, sibling) == base + "/models"@,
        !has_suffix(base, "/chat/completions"@) && !has_suffix(base, "/messages"@) ==> models_url(
            base,
            sibling,
        ) == match sibling {
            Some(url) => url,
            None => base + "/models"@,
        },
{
    reveal_strlit("/chat/completions");
    reveal_strlit("/messages");
    let chat = "/chat/completions"@;
    let messages = "/messages"@;
    assert(chat.len() == 17 && messages.len() == 9);
    let s = base + chat;
    assert(s.subrange(s.len() - 17, s.len() as int) =~= chat);
    assert(s.subrange(0, s.len() - 17) =~= base);
    let t = base + messages;
    assert(t.subrange(t.len() - 9, t.len() as int) =~= messages);
    assert(t.subrange(0, t.len() - 9) =~= base);
    if has_suffix(t, chat) {
        let end = t.subrange(t.len() - 17, t.len() as int);
        assert(end[16] == chat[16]);
        assert(t.last() == end[16]);
        assert(t.last() == messages[8]);
        assert(end[15] == chat[15]);
        assert(t[t.len() - 2] == messages[7]);
        assert(chat[16] == 's' && messages[8] == 's' && chat[15] == 'n' && messages[7] == 'e');
    }
    assert(without_suffix(t, chat) is None);
}


// ---------------------------------------------------------------------------
// Whole answers
// ---------------------------------------------------------------------------

/// An answer whose events report an error is that error; any other is what the
/// events make, in the client's wire format.
pub proof fn law_whole_answers(
    codex_events: Seq<(Seq<char>, JsonView)>,
    events: Seq<JsonView>,
    model: Seq<char>,
    id: Seq<char>,
    client: WireFormat,
)
    ensures
        ({
            let whole = crate::codex::transform::completion(codex_events, model);
            let r = crate::adapter::codex::whole_answer(codex_events, model, client);
            match crate::codex::transform::first_error(codex_events) {
                Some(e) => r == Err::<JsonView, AppErrorView>(
                    AppErrorView::Upstream("codex embedded error: "@ + e),
                ),
                None => r == Ok::<JsonView, AppErrorView>(
                    if client == WireFormat::Anthropic {
                        claude_reply(whole)
                    } else {
                        whole
                    },
                ),
            }
        }),
        ({
            let whole = crate::commandcode::stream::completion(events, model, id);
            let r = crate::adapter::commandcode::whole_answer(events, model, id, client);
            match crate::commandcode::transform::first_error(events) {
                Some(e) => r == Err::<JsonView, AppErrorView>(
                    AppErrorView::Upstream("commandcode embedded error: "@ + e),
                ),
                None => r == Ok::<JsonView, AppErrorView>(
                    if client == WireFormat::Anthropic {
                        claude_reply(whole)
                    } else {
                        whole
                    },
                ),
            }
        }),
{
}


/// A request whose upstream is checked is the one that it would be otherwise, to the
/// URL as it was read; one whose upstream may not be asked is refused for the reason
/// that was found.
pub proof fn law_checked_requests(
    provider: Provider,
    body: JsonView,
    key: Option<Seq<char>>,
    addr: HostAddr,
    leave: bool,
    scheme: Seq<char>,
    host: Option<Seq<char>>,
    text: Seq<char>,
)
    requires
        provider.base_url is Some,
    ensures
        ({
            let plain = http_request(provider, provider.wire_format, body, key)->Ok_0;
            let r = crate::adapter::http::checked_request(provider, body, key, addr, leave);
            let read = crate::adapter::upstream_url::url_read(provider.base_url->0@);
            &&& read is None ==> r == Err::<OutgoingView, AppErrorView>(
                AppErrorView::Internal("invalid upstream URL"@),
            )
            &&& read == Some((scheme, host, text)) ==> match url_refusal(
                (UrlParts { scheme, host, text }),
                addr,
                leave,
            ) {
                Some(e) => r == Err::<OutgoingView, AppErrorView>(e),
                None => r is Ok && r->Ok_0.url == text && r->Ok_0.bearer == plain.bearer
                    && r->Ok_0.headers == plain.headers && r->Ok_0.body == plain.body,
            }
        }),
{
}

/// An upstream is refused for its scheme, for want of a host, or for lying in a
/// private network, in this order.
pub proof fn law_refusals_say_why(url: UrlParts, addr: HostAddr, leave: bool)
    ensures
        ({
            let scheme_ok = url.scheme == "https"@ || (url.scheme == "http"@ && leave);
            let r = url_refusal(url, addr, leave);
            &&& !scheme_ok ==> r == Some(
                AppErrorView::Internal("upstream URL must use https unless explicitly allowed"@),
            )
            &&& scheme_ok && url.host is None ==> r == Some(
                AppErrorView::Internal("upstream URL missing host"@),
            )
            &&& scheme_ok && url.host is Some && !leave && private_host(url.host->0, addr) ==> r
                == Some(AppErrorView::Internal("private-network upstream URL blocked"@))
        }),
{
}

/// A body that is no JSON is the client's fault, and is told why; a body in which no
/// model can be set is one that is neither an object nor null.
pub proof fn law_bad_bodies(e: Seq<char>, body: JsonView, client: WireFormat)
    ensures
        crate::adapter::http::invalid_body(e) == AppErrorView::BadRequest("invalid JSON body: "@ + e),
        crate::adapter::commandcode::takes_model(body, client) <==> client == WireFormat::Anthropic
            || body is Object || body == JsonView::Null,
{
}

/// The URL beside another is that one with an empty last segment taken away, the last
/// segment replaced and the query dropped.
pub proof fn law_sibling_urls(
    url: Seq<char>,
    segment: Seq<char>,
    tidied: Seq<char>,
    popped: Seq<char>,
    pushed: Seq<char>,
)
    requires
        crate::adapter::upstream_url::url_fits(url),
    ensures
        crate::adapter::upstream_url::url_tidied(url) is None
            ==> crate::adapter::upstream_url::sibling_url(url, segment)
            == crate::adapter::upstream_url::url_without_query(url),
        crate::adapter::upstream_url::url_tidied(url) == Some(tidied)
            && crate::adapter::upstream_url::url_fits(tidied)
            && crate::adapter::upstream_url::url_popped(tidied) == Some(popped)
            && crate::adapter::upstream_url::url_fits(popped)
            && crate::adapter::upstream_url::url_fits(segment)
            && crate::adapter::upstream_url::url_pushed(popped, segment) == Some(pushed)
            ==> crate::adapter::upstream_url::sibling_url(url, segment)
            == crate::adapter::upstream_url::url_without_query(pushed),
{
}

} // verus!
