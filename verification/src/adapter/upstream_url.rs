//! Which upstreams may be asked, and where a provider lists its models.
use vstd::prelude::*;

use crate::codex::sse_bridge::opt_text;
use crate::error::{AppError, AppErrorView};
use crate::text::{
    chars_of, concat2, lowercase, lowered, owned, same, string_of, strip_suffix, without_suffix,
};

verus! {

/// The host of an upstream: a name, or an address in its parts.
#[derive(Clone, Copy, Debug, PartialEq, Eq, Structural)]
pub enum HostAddr {
    Name,
    V4(u8, u8, u8, u8),
    /// An IPv6 address: its first group, whether it is `::1`, and whether it is
    /// `::`.
    V6 { first: u16, loopback: bool, unspecified: bool },
}

/// Not a bracket, as they stand around an IPv6 address.
pub open spec fn no_bracket(c: char) -> bool {
    c != '[' && c != ']'
}

/// A text without the brackets at its beginning.
pub open spec fn unbracketed_start(s: Seq<char>) -> Seq<char>
    decreases s.len(),
{
    if s.len() > 0 && !no_bracket(s[0]) {
        unbracketed_start(s.drop_first())
    } else {
        s
    }
}

/// A text without the brackets at its end.
pub open spec fn unbracketed_end(s: Seq<char>) -> Seq<char>
    decreases s.len(),
{
    if s.len() > 0 && !no_bracket(s.last()) {
        unbracketed_end(s.drop_last())
    } else {
        s
    }
}

/// A host without the brackets around it.
pub open spec fn bare_host(host: Seq<char>) -> Seq<char> {
    unbracketed_end(unbracketed_start(host))
}

/// A host without the brackets around it.
pub fn bare_host_of(host: &str) -> (r: String)
    ensures
        r@ == bare_host(host@),
{
    let v = chars_of(host);
    let mut from: usize = 0;
    assert(v@.subrange(0, v.len() as int) =~= v@);
    while from < v.len() && (v[from] == '[' || v[from] == ']')
        invariant
            from <= v.len(),
            unbracketed_start(v@) == unbracketed_start(v@.subrange(from as int, v.len() as int)),
        decreases v.len() - from,
    {
        assert(v@.subrange(from as int, v.len() as int).drop_first() =~= v@.subrange(
            from + 1,
            v.len() as int,
        ));
        from += 1;
    }
    let ghost rest = v@.subrange(from as int, v.len() as int);
    assert(unbracketed_start(v@) == rest);
    let mut to: usize = v.len();
    assert(rest.subrange(0, to - from) =~= rest);
    while to > from && (v[to - 1] == '[' || v[to - 1] == ']')
        invariant
            from <= to <= v.len(),
            rest == v@.subrange(from as int, v.len() as int),
            unbracketed_end(rest) == unbracketed_end(rest.subrange(0, to - from)),
        decreases to,
    {
        assert(rest.subrange(0, to - from).drop_last() =~= rest.subrange(0, to - from - 1));
        to -= 1;
    }
    assert(v@.subrange(from as int, to as int) =~= rest.subrange(0, to - from));
    string_of(&v, from, to)
}

/// The host lies on this machine or in a private network.
pub open spec fn private_host(host: Seq<char>, addr: HostAddr) -> bool {
    lowered(bare_host(host)) == "localhost"@ || match addr {
        HostAddr::Name => false,
        HostAddr::V4(a, b, c, d) => {
            ||| a == 127
            ||| a == 10
            ||| (a == 172 && 16 <= b <= 31)
            ||| (a == 192 && b == 168)
            ||| (a == 169 && b == 254)
            ||| (a == 0 && b == 0 && c == 0 && d == 0)
            ||| (a == 255 && b == 255 && c == 255 && d == 255)
            ||| 224 <= a <= 239
        },
        HostAddr::V6 { first, loopback, unspecified } => {
            ||| loopback
            ||| unspecified
            ||| 0xff00 <= first
            ||| 0xfc00 <= first <= 0xfdff
            ||| 0xfe80 <= first <= 0xfebf
        },
    }
}

/// Whether a host lies on this machine or in a private network, given the
/// address that it is without the brackets around it.
pub fn is_private_host(host: &str, addr: HostAddr) -> (r: bool)
    ensures
        r == private_host(host@, addr),
{
    let bare = bare_host_of(host);
    if same(lowercase(bare.as_str()).as_str(), "localhost") {
        return true;
    }
    match addr {
        HostAddr::Name => false,
        HostAddr::V4(a, b, c, d) => a == 127 || a == 10 || (a == 172 && 16 <= b && b <= 31) || (a
            == 192 && b == 168) || (a == 169 && b == 254) || (a == 0 && b == 0 && c == 0 && d == 0)
            || (a == 255 && b == 255 && c == 255 && d == 255) || (224 <= a && a <= 239),
        HostAddr::V6 { first, loopback, unspecified } => loopback || unspecified || 0xff00 <= first
            || (0xfc00 <= first && first <= 0xfdff) || (0xfe80 <= first && first <= 0xfebf),
    }
}

/// The parts of a URL that count here: its scheme, its host, and the whole of
/// it as it is sent.
pub struct UpstreamUrl {
    pub scheme: String,
    pub host: Option<String>,
    pub text: String,
}

/// What an `UpstreamUrl` stands for.
pub struct UrlParts {
    pub scheme: Seq<char>,
    pub host: Option<Seq<char>>,
    pub text: Seq<char>,
}

impl View for UpstreamUrl {
    type V = UrlParts;

    open spec fn view(&self) -> UrlParts {
        UrlParts { scheme: self.scheme@, host: opt_text(self.host), text: self.text@ }
    }
}

/// The scheme, the host and the text that `reqwest::Url` reads from a text;
/// none where it is no URL.
pub uninterp spec fn url_read(raw: Seq<char>) -> Option<(Seq<char>, Option<Seq<char>>, Seq<char>)>;

/// `reqwest::Url::parse`, and of its result `scheme`, `host_str` and the text.
/// All three are functions of the text given.
#[verifier::external_body]
fn read_url(raw: &str) -> (r: Option<(String, Option<String>, String)>)
    ensures
        match r {
            Some(p) => url_read(raw@) == Some((p.0@, opt_text(p.1), p.2@)),
            None => url_read(raw@) is None,
        },
{
    let url = reqwest::Url::parse(raw).ok()?;
    Some((url.scheme().to_string(), url.host_str().map(|h| h.to_string()), url.to_string()))
}

/// Reads the URL of an upstream.
pub fn parse_upstream_url(raw: &str) -> (r: Result<UpstreamUrl, AppError>)
    ensures
        match url_read(raw@) {
            Some((scheme, host, text)) => r matches Ok(u) && u@ == (UrlParts { scheme, host, text }),
            None => r matches Err(e) && e@ == AppErrorView::Internal("invalid upstream URL"@),
        },
{
    match read_url(raw) {
        Some((scheme, host, text)) => Ok(UpstreamUrl { scheme, host, text }),
        None => Err(AppError::Internal(owned("invalid upstream URL"))),
    }
}

/// Why an upstream may not be asked, where it may not: it is not reached over
/// HTTPS, or lies in a private network, and insecure ones are not allowed.
pub open spec fn url_refusal(url: UrlParts, addr: HostAddr, allow_insecure: bool) -> Option<
    AppErrorView,
> {
    let secure = url.scheme == "https"@ || (url.scheme == "http"@ && allow_insecure);
    if !secure {
        Some(AppErrorView::Internal("upstream URL must use https unless explicitly allowed"@))
    } else {
        match url.host {
            None => Some(AppErrorView::Internal("upstream URL missing host"@)),
            Some(h) => if !allow_insecure && private_host(h, addr) {
                Some(AppErrorView::Internal("private-network upstream URL blocked"@))
            } else {
                None
            },
        }
    }
}

/// Checks that an upstream may be asked. The address is that of the host
/// without the brackets around it.
pub fn validate_upstream_url(
    url: &UpstreamUrl,
    addr: HostAddr,
    allow_insecure_upstreams: bool,
) -> (r: Result<(), AppError>)
    ensures
        match r {
            Ok(_) => url_refusal(url@, addr, allow_insecure_upstreams) is None,
            Err(e) => url_refusal(url@, addr, allow_insecure_upstreams) == Some(e@),
        },
{
    let scheme = url.scheme.as_str();
    if !(same(scheme, "https") || (same(scheme, "http") && allow_insecure_upstreams)) {
        return Err(
            AppError::Internal(owned("upstream URL must use https unless explicitly allowed")),
        );
    }
    match &url.host {
        None => Err(AppError::Internal(owned("upstream URL missing host"))),
        Some(host) => {
            if !allow_insecure_upstreams && is_private_host(host.as_str(), addr) {
                return Err(AppError::Internal(owned("private-network upstream URL blocked")));
            }
            Ok(())
        },
    }
}

/// The longest text, in bytes of UTF-8, of which the path segments are changed.
/// `reqwest::Url` counts positions in 32 bits and cannot change a longer URL
/// than that. What it writes is at most three times as long as what it reads,
/// but for the host, which can grow more when it is put in ASCII.
pub const MAX_URL_BYTES: usize = 0x100_0000;

/// The text is short enough for its path segments to be changed.
pub open spec fn url_fits(s: Seq<char>) -> bool {
    vstd::utf8::encode_utf8(s).len() <= MAX_URL_BYTES
}

fn fits(s: &str) -> (r: bool)
    ensures
        r == url_fits(s@),
{
    s.as_bytes().len() <= MAX_URL_BYTES
}

/// The text of a URL once `reqwest::Url` has removed an empty last path segment;
/// none where the text is no URL or its path has no segments.
pub uninterp spec fn url_tidied(url: Seq<char>) -> Option<Seq<char>>;

/// `pop_if_empty` on the `path_segments_mut` of the `reqwest::Url` that a text
/// is, written again. The result is a function of the text.
#[verifier::external_body]
fn pop_if_empty(url: &str) -> (r: Option<String>)
    requires
        url_fits(url@),
    ensures
        opt_text(r) == url_tidied(url@),
{
    let mut parsed = reqwest::Url::parse(url).ok()?;
    parsed.path_segments_mut().ok()?.pop_if_empty();
    Some(parsed.to_string())
}

/// The text of a URL once `reqwest::Url` has removed the last path segment; none
/// where the text is no URL or its path has no segments.
pub uninterp spec fn url_popped(url: Seq<char>) -> Option<Seq<char>>;

/// `pop` on the `path_segments_mut` of the `reqwest::Url` that a text is,
/// written again. The result is a function of the text.
#[verifier::external_body]
fn pop_segment(url: &str) -> (r: Option<String>)
    requires
        url_fits(url@),
    ensures
        opt_text(r) == url_popped(url@),
{
    let mut parsed = reqwest::Url::parse(url).ok()?;
    parsed.path_segments_mut().ok()?.pop();
    Some(parsed.to_string())
}

/// The text of a URL once `reqwest::Url` has added a path segment; none where the
/// text is no URL or its path has no segments.
pub uninterp spec fn url_pushed(url: Seq<char>, segment: Seq<char>) -> Option<Seq<char>>;

/// `push` on the `path_segments_mut` of the `reqwest::Url` that a text is,
/// written again. The result is a function of both texts.
#[verifier::external_body]
fn push_segment(url: &str, segment: &str) -> (r: Option<String>)
    requires
        url_fits(url@),
        url_fits(segment@),
    ensures
        opt_text(r) == url_pushed(url@, segment@),
{
    let mut parsed = reqwest::Url::parse(url).ok()?;
    parsed.path_segments_mut().ok()?.push(segment);
    Some(parsed.to_string())
}

/// The text of a URL once `reqwest::Url` has dropped its query; none where the
/// text is no URL.
pub uninterp spec fn url_without_query(url: Seq<char>) -> Option<Seq<char>>;

/// `reqwest::Url::set_query` with no query on the URL that a text is, written
/// again. The result is a function of the text.
#[verifier::external_body]
fn drop_query(url: &str) -> (r: Option<String>)
    ensures
        opt_text(r) == url_without_query(url@),
{
    let mut parsed = reqwest::Url::parse(url).ok()?;
    parsed.set_query(None);
    Some(parsed.to_string())
}

/// A URL whose path segments were changed in turn, without its query; none where
/// one of the changes gave none or a text too long to go on with.
pub open spec fn sibling_of_tidied(tidied: Seq<char>, segment: Seq<char>) -> Option<Seq<char>> {
    if !url_fits(tidied) {
        None
    } else {
        match url_popped(tidied) {
            Some(popped) if url_fits(popped) && url_fits(segment) => match url_pushed(
                popped,
                segment,
            ) {
                Some(pushed) => url_without_query(pushed),
                None => None,
            },
            _ => None,
        }
    }
}

/// A URL with its last path segment, an empty one at the end left out of account,
/// replaced and its query dropped; none where the text is no URL or is too long.
/// Where its path has no segments, the path stays.
pub open spec fn sibling_url(url: Seq<char>, segment: Seq<char>) -> Option<Seq<char>> {
    if !url_fits(url) {
        None
    } else {
        match url_tidied(url) {
            Some(tidied) => sibling_of_tidied(tidied, segment),
            None => url_without_query(url),
        }
    }
}

/// A URL with its last path segment replaced and its query dropped.
fn sibling_url_of(url: &str, segment: &str) -> (r: Option<String>)
    ensures
        opt_text(r) == sibling_url(url@, segment@),
{
    if !fits(url) {
        return None;
    }
    match pop_if_empty(url) {
        None => drop_query(url),
        Some(tidied) => {
            if !fits(tidied.as_str()) {
                return None;
            }
            match pop_segment(tidied.as_str()) {
                None => None,
                Some(popped) => {
                    if !fits(popped.as_str()) || !fits(segment) {
                        return None;
                    }
                    match push_segment(popped.as_str(), segment) {
                        None => None,
                        Some(pushed) => drop_query(pushed.as_str()),
                    }
                },
            }
        },
    }
}

/// Where a provider lists its models, given the URL beside its own, where there
/// is one.
pub open spec fn models_url(base: Seq<char>, sibling: Option<Seq<char>>) -> Seq<char> {
    match without_suffix(base, "/chat/completions"@) {
        Some(prefix) => prefix + "/models"@,
        None => match without_suffix(base, "/messages"@) {
            Some(prefix) => prefix + "/models"@,
            None => match sibling {
                Some(url) => url,
                None => base + "/models"@,
            },
        },
    }
}

/// Where a provider lists its models, given the URL beside its own.
pub fn models_url_with(base_url: &str, sibling: Option<String>) -> (r: String)
    ensures
        r@ == models_url(base_url@, opt_text(sibling)),
{
    match strip_suffix(base_url, "/chat/completions") {
        Some(prefix) => concat2(prefix.as_str(), "/models"),
        None => match strip_suffix(base_url, "/messages") {
            Some(prefix) => concat2(prefix.as_str(), "/models"),
            None => match sibling {
                Some(url) => url,
                None => concat2(base_url, "/models"),
            },
        },
    }
}

/// Where a provider lists its models. The URL beside its own is asked for only
/// where the provider's URL ends in neither of the usual endpoints.
pub fn derive_models_url(base_url: &str) -> (r: String)
    ensures
        r@ == models_url(base_url@, sibling_url(base_url@, "models"@)),
{
    if strip_suffix(base_url, "/chat/completions").is_some() || strip_suffix(
        base_url,
        "/messages",
    ).is_some() {
        models_url_with(base_url, None)
    } else {
        models_url_with(base_url, sibling_url_of(base_url, "models"))
    }
}

} // verus!
