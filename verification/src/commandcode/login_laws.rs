//! What a login through the browser comes to, and what is read of what the browser
//! sends.
use vstd::prelude::*;

use crate::commandcode::browser_login::{
    announced, answer, authorize_url, callback_answer, cors_origin, head_end, head_ends_at,
    headers_of, number_or_zero, required_field, sanitized, ten_years_later, too_large,
    CallbackView, OutcomeView, ReplyView, MAX_BODY_BYTES,
};
use crate::encode::url_encoded;
use crate::json::JsonView;
use crate::text::{
    control, decimal, kept, lowered, occurs, split_once, trimmed, unsigned_value, white,
};
use crate::text_laws::{law_replacing, law_trimming};

verus! {

// ---------------------------------------------------------------------------
// The callback
// ---------------------------------------------------------------------------

/// The member is there with this text, but for the white space around it.
pub open spec fn gives(v: JsonView, name: Seq<char>, value: Seq<char>) -> bool {
    v.at(name) is Str && trimmed(v.at(name).str_or_empty()) == value && value.len() > 0
}

/// A callback that reports no error and has all its members ends the login with
/// what they say, and the browser is told so.
pub proof fn law_callback_is_taken(v: JsonView, c: CallbackView)
    requires
        v.field("error"@) is None,
        gives(v, "apiKey"@, c.api_key),
        gives(v, "state"@, c.state),
        gives(v, "userId"@, c.user_id),
        gives(v, "userName"@, c.user_name),
        gives(v, "keyName"@, c.key_name),
    ensures
        callback_answer(Some(v)).0 == 200,
        callback_answer(Some(v)).1 == "{\"success\":true}"@,
        callback_answer(Some(v)).2 == OutcomeView::Callback(c),
{
}

/// A callback that lacks a member, or has a blank one, ends nothing; nor does one
/// that is no JSON. Both are refused.
pub proof fn law_incomplete_callback_is_refused(v: JsonView, name: Seq<char>)
    requires
        v.field("error"@) is None,
        name == "apiKey"@ || name == "state"@ || name == "userId"@ || name == "userName"@ || name
            == "keyName"@,
        !(v.at(name) is Str) || trimmed(v.at(name).str_or_empty()).len() == 0,
    ensures
        callback_answer(Some(v)).0 == 400,
        callback_answer(Some(v)).2 is Continue,
        callback_answer(None).0 == 400,
        callback_answer(None).2 is Continue,
{
    assert(required_field(v, name) is None);
}

/// A callback that reports an error ends the login as denied, for the reason given:
/// in its own words, or in those of its message.
pub proof fn law_denial_is_told(v: JsonView)
    requires
        v.field("error"@) is Some,
    ensures
        ({
            let error = v.at("error"@);
            let (status, _, outcome) = callback_answer(Some(v));
            &&& status == 200
            &&& error is Str ==> outcome == OutcomeView::Denied(error.str_or_empty())
            &&& !(error is Str) && error.at("message"@) is Str ==> outcome == OutcomeView::Denied(
                error.at("message"@).str_or_empty(),
            )
            &&& !(error is Str) && !(error.at("message"@) is Str) ==> outcome
                == OutcomeView::Denied("authentication denied"@)
        }),
{
}

/// A request is answered by its method and its path: a question whether it may be
/// sent is allowed, another path is not found, another method is not allowed, and
/// a callback is answered as such. The connection stays open only for the question.
pub proof fn law_requests_are_answered(
    method: Seq<char>,
    path: Seq<char>,
    origin: Seq<char>,
    requested: Seq<char>,
    body: Option<JsonView>,
)
    ensures
        ({
            let (reply, outcome) = answer(method, path, origin, requested, body);
            let question = method == "OPTIONS"@ && path == "/callback"@;
            let callback = method == "POST"@ && path == "/callback"@;
            &&& question ==> reply.status == 204 && reply.body.len() == 0 && !reply.close && outcome
                is Continue
            &&& path != "/callback"@ ==> reply.status == 404 && reply.close && outcome is Continue
            &&& path == "/callback"@ && !question && !callback ==> reply.status == 405
                && reply.close && outcome is Continue
            &&& callback ==> reply.status == callback_answer(body).0 && reply.body
                == callback_answer(body).1 && outcome == callback_answer(body).2 && reply.close
            &&& reply.requested == requested
            &&& reply.origin == cors_origin(origin)
        }),
{
    reveal_strlit("OPTIONS");
    reveal_strlit("POST");
    reveal_strlit("");
    assert("OPTIONS"@.len() == 7 && "POST"@.len() == 4);
}

/// An answer is meant for the page that asked where that is one of Command Code's or
/// of a developer's own machine, and for the latter otherwise.
pub proof fn law_answers_are_for_known_pages(origin: Seq<char>)
    ensures
        origin == "https://commandcode.ai"@ || origin == "https://staging.commandcode.ai"@ || origin
            == "http://localhost:3000"@ ==> cors_origin(origin) == origin,
        origin != "https://commandcode.ai"@ && origin != "https://staging.commandcode.ai"@
            ==> cors_origin(origin) == "http://localhost:3000"@,
{
}

/// What goes out is a whole answer: its status, who may read it, how long its body
/// is in bytes, whether the connection stays open, and at its end the body.
pub proof fn law_answers_are_whole(r: ReplyView)
    ensures
        r.wire_text() == "HTTP/1.1 "@ + decimal(r.status as nat) + " "@
            + crate::commandcode::browser_login::reason(r.status)
            + "\r\ncontent-type: application/json\r\naccess-control-allow-origin: "@ + r.origin
            + "\r\naccess-control-allow-methods: POST, OPTIONS\r\naccess-control-allow-headers: "@
            + (if r.requested.len() == 0 {
            "Content-Type"@
        } else {
            r.requested
        }) + "\r\naccess-control-allow-private-network: true\r\ncontent-length: "@ + decimal(
            vstd::utf8::encode_utf8(r.body).len(),
        ) + "\r\nconnection: "@ + (if r.close {
            "close"@
        } else {
            "keep-alive"@
        }) + "\r\n\r\n"@ + r.body,
{
}

/// Every status that is answered goes with its words.
pub proof fn law_statuses_have_words()
    ensures
        crate::commandcode::browser_login::reason(200) == "OK"@,
        crate::commandcode::browser_login::reason(204) == "No Content"@,
        crate::commandcode::browser_login::reason(400) == "Bad Request"@,
        crate::commandcode::browser_login::reason(404) == "Not Found"@,
        crate::commandcode::browser_login::reason(405) == "Method Not Allowed"@,
        crate::commandcode::browser_login::reason(413) == "Payload Too Large"@,
{
}

// ---------------------------------------------------------------------------
// The head of a request
// ---------------------------------------------------------------------------

/// The line is a header with this name, in whatever case.
pub open spec fn is_header(line: Seq<char>, name: Seq<char>) -> bool {
    split_once(line, ":"@) matches Some(p) && lowered(trimmed(p.0)) == name
}

/// What stands behind the first colon of a line.
pub open spec fn header_value(line: Seq<char>) -> Seq<char> {
    trimmed((split_once(line, ":"@)->0).1)
}

/// Of several headers with one name the last counts.
pub proof fn law_last_header_counts(ls: Seq<Seq<char>>, k: int)
    requires
        0 <= k < ls.len(),
    ensures
        is_header(ls[k], "origin"@) && (forall|i: int|
            k < i < ls.len() ==> !is_header(#[trigger] ls[i], "origin"@)) ==> headers_of(ls).origin
            == header_value(ls[k]),
        is_header(ls[k], "access-control-request-headers"@) && (forall|i: int|
            k < i < ls.len() ==> !is_header(
                #[trigger] ls[i],
                "access-control-request-headers"@,
            )) ==> headers_of(ls).requested == header_value(ls[k]),
        is_header(ls[k], "content-length"@) && (forall|i: int|
            k < i < ls.len() ==> !is_header(#[trigger] ls[i], "content-length"@)) ==> headers_of(
            ls,
        ).length == number_or_zero(header_value(ls[k])),
    decreases ls.len(),
{
    reveal_strlit("origin");
    reveal_strlit("content-length");
    reveal_strlit("access-control-request-headers");
    assert("origin"@.len() == 6);
    assert("content-length"@.len() == 14);
    assert("access-control-request-headers"@.len() == 30);
    let rest = ls.drop_last();
    assert(ls[ls.len() - 1] == ls.last());
    if k < ls.len() - 1 {
        law_last_header_counts(rest, k);
        assert(rest[k] == ls[k]);
        assert forall|i: int| k < i < rest.len() implies rest[i] == ls[i] by {}
        lemma_none_behind(ls, k, "origin"@);
        lemma_none_behind(ls, k, "access-control-request-headers"@);
        lemma_none_behind(ls, k, "content-length"@);
    }
}

proof fn lemma_none_behind(ls: Seq<Seq<char>>, k: int, name: Seq<char>)
    requires
        ls.len() > 0,
    ensures
        (forall|i: int| k < i < ls.len() ==> !is_header(#[trigger] ls[i], name)) ==> (forall|i: int|
            k < i < ls.drop_last().len() && 0 <= i ==> !is_header(#[trigger] ls.drop_last()[i], name)),
{
    if forall|i: int| k < i < ls.len() ==> !is_header(#[trigger] ls[i], name) {
        assert forall|i: int| k < i < ls.drop_last().len() && 0 <= i implies !is_header(
            #[trigger] ls.drop_last()[i],
            name,
        ) by {
            assert(ls.drop_last()[i] == ls[i]);
        }
    }
}

/// Without headers nothing is known, and no body is announced. A number that cannot
/// be read announces none, either.
pub proof fn law_no_headers(s: Seq<char>)
    ensures
        headers_of(seq![]).origin.len() == 0,
        headers_of(seq![]).requested.len() == 0,
        headers_of(seq![]).length == 0,
        unsigned_value(s) is None ==> number_or_zero(s) == 0,
        unsigned_value(s) matches Some(n) ==> n <= u64::MAX ==> number_or_zero(s) == n,
        unsigned_value(s) matches Some(n) ==> n > u64::MAX ==> number_or_zero(s) == 0,
{
}

/// The head ends at the first blank line; without one it goes on.
pub proof fn law_head_ends_at_a_blank_line(bytes: Seq<u8>, i: int)
    requires
        0 <= i,
    ensures
        match head_end(bytes, i) {
            Some(k) => i <= k && k + 4 <= bytes.len() && bytes.subrange(k, k + 4) == seq![
                13u8,
                10u8,
                13u8,
                10u8,
            ] && forall|j: int| i <= j < k ==> !#[trigger] head_ends_at(bytes, j),
            None => forall|j: int| i <= j ==> !#[trigger] head_ends_at(bytes, j),
        },
    decreases bytes.len() - i,
{
    if i + 4 <= bytes.len() {
        if head_ends_at(bytes, i) {
            assert(bytes.subrange(i, i + 4) =~= seq![13u8, 10u8, 13u8, 10u8]);
        } else {
            law_head_ends_at_a_blank_line(bytes, i + 1);
        }
    }
}

/// Of a body no more counts than was announced, and more than ten kilobytes are too
/// many.
pub proof fn law_bodies_are_as_long_as_announced(body: Seq<u8>, length: u64, origin: Seq<char>)
    ensures
        body.len() <= length ==> announced(body, length) == body,
        body.len() > length ==> announced(body, length) == body.subrange(0, length as int),
        MAX_BODY_BYTES == 10 * 1024,
        too_large(origin).status == 413,
        too_large(origin).origin == origin,
        too_large(origin).requested.len() == 0,
        !too_large(origin).close,
{
    reveal_strlit("");
}

// ---------------------------------------------------------------------------
// Keys and times
// ---------------------------------------------------------------------------

/// A character of a key: neither white space nor a control character, nor a
/// bracket as it stands in a paste marker.
pub open spec fn key_char(c: char) -> bool {
    !white(c) && !control(c) && c != '['
}

/// A key of plain characters stays as it is, and what white space stands around it
/// goes away.
pub proof fn law_keys_are_kept(a: Seq<char>, key: Seq<char>, b: Seq<char>)
    requires
        key.len() > 0,
        forall|i: int| 0 <= i < key.len() ==> key_char(#[trigger] key[i]),
        forall|i: int| 0 <= i < a.len() ==> #[trigger] a[i] == ' ',
        forall|i: int| 0 <= i < b.len() ==> #[trigger] b[i] == ' ',
    ensures
        sanitized(a + key + b) == key,
{
    reveal_strlit("\x1b[200~");
    reveal_strlit("\x1b[201~");
    reveal_strlit("[200~");
    reveal_strlit("[201~");
    let s = a + key + b;
    assert("\x1b[200~"@[1] == '[' && "\x1b[201~"@[1] == '[');
    assert("[200~"@[0] == '[' && "[201~"@[0] == '[');
    assert forall|i: int| 0 <= i < s.len() implies #[trigger] s[i] != '[' && !control(s[i]) by {
        if i < a.len() {
            assert(s[i] == a[i]);
        } else if i < a.len() + key.len() {
            assert(s[i] == key[i - a.len()]);
        } else {
            assert(s[i] == b[i - a.len() - key.len()]);
        }
    }
    lemma_unmarked(s, "\x1b[200~"@, 1);
    lemma_unmarked(s, "\x1b[201~"@, 1);
    lemma_unmarked(s, "[200~"@, 0);
    lemma_unmarked(s, "[201~"@, 0);
    law_replacing(s, "\x1b[200~"@, ""@);
    law_replacing(s, "\x1b[201~"@, ""@);
    law_replacing(s, "[200~"@, ""@);
    law_replacing(s, "[201~"@, ""@);
    lemma_all_kept(s);
    law_trimming(a, key, b);
}

proof fn lemma_unmarked(s: Seq<char>, marker: Seq<char>, at: int)
    requires
        forall|i: int| 0 <= i < s.len() ==> #[trigger] s[i] != '[' && !control(s[i]),
        0 <= at < marker.len(),
        marker[at] == '[',
    ensures
        !occurs(s, marker),
{
    if occurs(s, marker) {
        let j = choose|j: int| crate::text::occurs_at(s, marker, j);
        assert(s.subrange(j, j + marker.len())[at] == '[');
        assert(s[j + at] == '[');
    }
}

proof fn lemma_all_kept(s: Seq<char>)
    requires
        forall|i: int| 0 <= i < s.len() ==> #[trigger] s[i] != '[' && !control(s[i]),
    ensures
        kept(s, |c: char| !control(c)) == s,
    decreases s.len(),
{
    if s.len() > 0 {
        let rest = s.drop_last();
        assert forall|i: int| 0 <= i < rest.len() implies #[trigger] rest[i] != '[' && !control(
            rest[i],
        ) by {
            assert(rest[i] == s[i]);
        }
        lemma_all_kept(rest);
        assert(s[s.len() - 1] == s.last());
        assert(rest.push(s.last()) =~= s);
    } else {
        assert(kept(s, |c: char| !control(c)) =~= s);
    }
}

/// Nothing of a key that was sanitized is a control character, and no white space
/// stands around it.
pub proof fn law_sanitized_keys_are_clean(input: Seq<char>, i: int)
    ensures
        sanitized(input).len() > 0 ==> !white(sanitized(input)[0]) && !white(
            sanitized(input).last(),
        ),
        0 <= i < sanitized(input).len() ==> !control(sanitized(input)[i]),
{
    let a = crate::text::replaced(input, "\x1b[200~"@, ""@);
    let b = crate::text::replaced(a, "\x1b[201~"@, ""@);
    let c = crate::text::replaced(b, "[200~"@, ""@);
    let d = crate::text::replaced(c, "[201~"@, ""@);
    let keep = |ch: char| !control(ch);
    let clean = kept(d, keep);
    crate::text_laws::law_trimmed(clean);
    lemma_kept_is_clean(d, keep);
    assert forall|k: int| 0 <= k < clean.len() implies !control(#[trigger] clean[k]) by {
        assert(keep(clean[k]));
    }
    if 0 <= i < sanitized(input).len() {
        lemma_trimmed_is_part(clean, i);
    }
}

proof fn lemma_kept_is_clean(s: Seq<char>, keep: spec_fn(char) -> bool)
    ensures
        forall|i: int| 0 <= i < kept(s, keep).len() ==> keep(#[trigger] kept(s, keep)[i]),
    decreases s.len(),
{
    if s.len() > 0 {
        let rest = kept(s.drop_last(), keep);
        lemma_kept_is_clean(s.drop_last(), keep);
        let all = kept(s, keep);
        assert forall|i: int| 0 <= i < all.len() implies keep(#[trigger] all[i]) by {
            if i < rest.len() {
                assert(all[i] == rest[i]);
            }
        }
    }
}

proof fn lemma_trimmed_is_part(s: Seq<char>, i: int)
    requires
        0 <= i < trimmed(s).len(),
        forall|k: int| 0 <= k < s.len() ==> !control(#[trigger] s[k]),
    ensures
        !control(trimmed(s)[i]),
{
    let t = crate::text::trimmed_start(s);
    lemma_start_is_part(s);
    lemma_end_is_part(t);
    assert(trimmed(s)[i] == t[i]);
}

proof fn lemma_start_is_part(s: Seq<char>)
    ensures
        forall|k: int|
            0 <= k < crate::text::trimmed_start(s).len() ==> s.contains(
                #[trigger] crate::text::trimmed_start(s)[k],
            ),
    decreases s.len(),
{
    let t = crate::text::trimmed_start(s);
    if s.len() > 0 && white(s[0]) {
        let rest = s.subrange(1, s.len() as int);
        lemma_start_is_part(rest);
        assert forall|k: int| 0 <= k < t.len() implies s.contains(#[trigger] t[k]) by {
            assert(t == crate::text::trimmed_start(rest));
            assert(rest.contains(crate::text::trimmed_start(rest)[k]));
            let j = choose|j: int| 0 <= j < rest.len() && rest[j] == t[k];
            assert(s[j + 1] == t[k]);
        }
    } else {
        assert forall|k: int| 0 <= k < t.len() implies s.contains(#[trigger] t[k]) by {
            assert(s[k] == t[k]);
        }
    }
}

proof fn lemma_end_is_part(s: Seq<char>)
    ensures
        crate::text::trimmed_end(s).len() <= s.len(),
        forall|k: int|
            0 <= k < crate::text::trimmed_end(s).len() ==> #[trigger] crate::text::trimmed_end(s)[k]
                == s[k],
    decreases s.len(),
{
    if s.len() > 0 && white(s.last()) {
        lemma_end_is_part(s.drop_last());
    }
}

/// The page that begins a login is told where to send the key and the state to send
/// with it.
pub proof fn law_login_page_knows_the_way(port: nat, state: Seq<char>)
    ensures
        authorize_url(port, state) == "https://commandcode.ai/studio/auth/cli?callback="@
            + url_encoded("http://localhost:"@ + decimal(port) + "/callback"@) + "&state="@
            + url_encoded(state),
{
}

/// A key from the browser is good for ten years.
pub proof fn law_keys_last_ten_years(now: int)
    ensures
        ten_years_later(now) == now + 10 * 365 * 24 * 3600 * 1_000_000,
{
}


/// The method and the path of a request are the first two words of its first line,
/// and its headers stand on the lines behind.
pub proof fn law_first_line_says_what_is_asked(
    head: crate::commandcode::browser_login::RequestHead,
    line: Seq<char>,
    rest: Seq<char>,
)
    requires
        head.reads(line.push('\n') + rest),
        forall|i: int| 0 <= i < line.len() ==> #[trigger] line[i] != '\n',
        crate::text::words(crate::text::without_cr(line)).len() >= 2,
    ensures
        head.method@ == crate::text::words(crate::text::without_cr(line))[0],
        head.path@ == crate::text::words(crate::text::without_cr(line))[1],
        head.origin@ == headers_of(crate::text::lines_of(rest)).origin,
        head.requested_headers@ == headers_of(crate::text::lines_of(rest)).requested,
        head.content_length as nat == headers_of(crate::text::lines_of(rest)).length,
{
    crate::text_laws::law_lines(line, rest);
    let ls = crate::text::lines_of(line.push('\n') + rest);
    assert(ls[0] == crate::text::without_cr(line));
    assert(ls.subrange(1, ls.len() as int) =~= crate::text::lines_of(rest));
}


/// A request that announces more than ten kilobytes is refused before its body is
/// read. Of any other, the rest of the body is waited for, and then it is answered.
pub proof fn law_bodies_are_waited_for(
    p: crate::commandcode::browser_login::Progress,
    head: crate::commandcode::browser_login::RequestHead,
    body: Seq<u8>,
)
    requires
        crate::commandcode::browser_login::head_progress(p, head, body),
    ensures
        ({
            let length = head.content_length;
            &&& length > 10240 ==> p is Finish && p->Finish_0@.status == 413
                && p->Finish_0@.body
                == "{\"success\":false,\"error\":\"request too large\"}"@
                && p->Finish_0@.origin == cors_origin(head.origin@) && p->Finish_1@ is Continue
            &&& length <= 10240 && body.len() < length ==> p is ReadBody && p->ReadBody_0
                + body.len() == length
            &&& length <= 10240 && body.len() >= length ==> p is Finish && (
                p->Finish_0@,
                p->Finish_1@,
            ) == answer(
                head.method@,
                head.path@,
                head.origin@,
                head.requested_headers@,
                crate::commandcode::browser_login::json_in(body.subrange(0, length as int)),
            )
        }),
{
    if body.len() == head.content_length {
        assert(body.subrange(0, body.len() as int) =~= body);
    }
}


/// A head goes no further than any blank line in it, be it the last that came in.
pub proof fn law_blank_lines_end_heads(bytes: Seq<u8>, i: int, j: int)
    requires
        0 <= i <= j,
        j + 4 <= bytes.len(),
        bytes.subrange(j, j + 4) == seq![13u8, 10u8, 13u8, 10u8],
    ensures
        head_end(bytes, i) is Some,
        head_end(bytes, i)->0 <= j,
{
    let end = bytes.subrange(j, j + 4);
    assert(end[0] == bytes[j] && end[1] == bytes[j + 1]);
    assert(end[2] == bytes[j + 2] && end[3] == bytes[j + 3]);
    assert(head_ends_at(bytes, j));
    law_head_ends_at_a_blank_line(bytes, i);
}

} // verus!
