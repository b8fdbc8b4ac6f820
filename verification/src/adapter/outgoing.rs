//! A request to a provider, ready to be sent.
use vstd::prelude::*;

use crate::codex::sse_bridge::opt_text;
use crate::json::{text, Json, JsonView};
use crate::text::owned;

verus! {

/// A POST request with a JSON body.
pub struct Outgoing {
    pub url: String,
    /// The token of the `authorization` header.
    pub bearer: Option<String>,
    pub headers: Vec<(String, String)>,
    pub body: Json,
}

/// What an `Outgoing` stands for.
pub struct OutgoingView {
    pub url: Seq<char>,
    pub bearer: Option<Seq<char>>,
    pub headers: Seq<(Seq<char>, Seq<char>)>,
    pub body: JsonView,
}

/// What headers stand for.
pub open spec fn headers_view(v: Seq<(String, String)>) -> Seq<(Seq<char>, Seq<char>)> {
    v.map_values(|p: (String, String)| (p.0@, p.1@))
}

impl View for Outgoing {
    type V = OutgoingView;

    open spec fn view(&self) -> OutgoingView {
        OutgoingView {
            url: self.url@,
            bearer: opt_text(self.bearer),
            headers: headers_view(self.headers@),
            body: self.body@,
        }
    }
}

/// Adds a header.
pub fn push_header(v: &mut Vec<(String, String)>, name: &str, value: &str)
    ensures
        headers_view(final(v)@) == headers_view(old(v)@).push((name@, value@)),
{
    v.push((owned(name), owned(value)));
    assert(headers_view(v@) =~= headers_view(old(v)@).push((name@, value@)));
}

/// A body that asks for this model; what is no object stays as it is.
pub open spec fn for_model(body: JsonView, model: Seq<char>) -> JsonView {
    if body is Object {
        body.put("model"@, text(model))
    } else {
        body
    }
}

/// A body that asks for this model.
pub fn with_model(body: Json, model: &str) -> (r: Json)
    ensures
        r@ == for_model(body@, model@),
{
    if body.is_object() {
        body.with("model", Json::text(model))
    } else {
        body
    }
}

} // verus!
