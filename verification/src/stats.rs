//! What the request log adds up to.
use vstd::prelude::*;

use crate::json::{obj, Json, JsonView};

verus! {

/// The counts of all logged requests.
pub open spec fn counts(total: int, successes: int) -> JsonView {
    obj().put("total"@, JsonView::Int(total)).put("successes"@, JsonView::Int(successes)).put(
        "failures"@,
        JsonView::Int(total - successes),
    )
}

/// The counts of all logged requests.
pub fn overall(total: i64, successes: i64) -> (r: Json)
    requires
        0 <= successes <= total,
    ensures
        r@ == counts(total as int, successes as int),
{
    Json::object().with("total", Json::signed(total)).with(
        "successes",
        Json::signed(successes),
    ).with("failures", Json::signed(total - successes))
}


/// The words of counts differ.
proof fn lemma_count_words()
    ensures
        "total"@ != "successes"@,
        "total"@ != "failures"@,
        "successes"@ != "failures"@,
{
    reveal_strlit("total");
    reveal_strlit("successes");
    reveal_strlit("failures");
    assert("total"@.len() == 5);
    assert("successes"@.len() == 9);
    assert("failures"@.len() == 8);
}

/// The counts are those of the log, and successes and failures add up to all.
pub proof fn law_counts_add_up(total: int, successes: int)
    ensures
        counts(total, successes).at("total"@) == JsonView::Int(total),
        counts(total, successes).at("successes"@) == JsonView::Int(successes),
        counts(total, successes).at("failures"@) == JsonView::Int(total - successes),
{
    lemma_count_words();
}

} // verus!
