//! What the setup makes of what it is told: names, priorities, pasted redirects
//! and the models to try.
use vstd::prelude::*;

use crate::commandcode::slug::hyphenated;
use crate::model::PoolMember;
use crate::onboarding::{
    check_next, failure, first_five, freed, freedom, highest, last_value, law_free_first_keeps_models,
    name_candidate, of_freedom, others, pasted_query, slug, Attempt, CheckEvent, CheckSeen,
    CheckStage, ProbeOutcome,
};
use crate::text::{
    ascii_alphanumeric, decimal, law_cut_at_the_first, lowered, occurs, split_once, texts, trimmed,
};

verus! {

// ---------------------------------------------------------------------------
// Priorities
// ---------------------------------------------------------------------------

/// The highest priority is that of some member and of no member below it; without
/// members it is zero.
pub proof fn law_highest_priority(existing: Seq<PoolMember>)
    ensures
        existing.len() == 0 ==> highest(existing) == 0,
        existing.len() > 0 ==> exists|i: int|
            0 <= i < existing.len() && (#[trigger] existing[i]).priority == highest(existing),
        forall|i: int|
            0 <= i < existing.len() ==> (#[trigger] existing[i]).priority <= highest(existing),
    decreases existing.len(),
{
    if existing.len() == 1 {
        assert(existing[0].priority == highest(existing));
    } else if existing.len() > 1 {
        let rest = existing.drop_last();
        law_highest_priority(rest);
        let i = choose|i: int| 0 <= i < rest.len() && (#[trigger] rest[i]).priority == highest(rest);
        assert(existing[i] == rest[i]);
        assert(existing[existing.len() - 1] == existing.last());
        assert forall|k: int| 0 <= k < existing.len() implies (#[trigger] existing[k]).priority
            <= highest(existing) by {
            if k < rest.len() {
                assert(rest[k] == existing[k]);
            }
        }
    }
}

// ---------------------------------------------------------------------------
// A pasted redirect
// ---------------------------------------------------------------------------

/// Of a pasted URL the query counts, that is all behind the first question mark;
/// without one, all of it does.
pub proof fn law_query_is_found(input: Seq<char>)
    ensures
        ({
            let t = trimmed(input);
            &&& !occurs(t, "?"@) ==> pasted_query(input) == t
            &&& occurs(t, "?"@) ==> exists|before: Seq<char>|
                t == before + "?"@ + pasted_query(input) && !occurs(before, "?"@)
        }),
{
    reveal_strlit("?");
    let t = trimmed(input);
    law_cut_at_the_first(t, "?"@);
    if let Some(p) = split_once(t, "?"@) {
        assert(t == p.0 + "?"@ + pasted_query(input) && !occurs(p.0, "?"@));
    }
}

/// The parameter has this name.
pub open spec fn is_named(pair: Seq<char>, name: Seq<char>) -> bool {
    split_once(pair, "="@) matches Some(p) && trimmed(p.0) == name
}

/// Of several parameters the last one of a name counts, with all that stands behind
/// its first equals sign; without one there is none.
pub proof fn law_last_parameter_counts(pairs: Seq<Seq<char>>, name: Seq<char>, k: int)
    ensures
        0 <= k < pairs.len() && is_named(pairs[k], name) && (forall|i: int|
            k < i < pairs.len() ==> !is_named(#[trigger] pairs[i], name)) ==> last_value(pairs, name)
            == Some((split_once(pairs[k], "="@)->0).1),
        (forall|i: int| 0 <= i < pairs.len() ==> !is_named(#[trigger] pairs[i], name))
            ==> last_value(pairs, name) is None,
    decreases pairs.len(),
{
    if pairs.len() > 0 {
        let rest = pairs.drop_last();
        law_last_parameter_counts(rest, name, k);
        assert(pairs[pairs.len() - 1] == pairs.last());
        assert forall|i: int| 0 <= i < rest.len() implies rest[i] == pairs[i] by {}
        if !is_named(pairs.last(), name) {
            if 0 <= k < pairs.len() && is_named(pairs[k], name) && (forall|i: int|
                k < i < pairs.len() ==> !is_named(#[trigger] pairs[i], name)) {
                assert(k < rest.len());
                assert forall|i: int| k < i < rest.len() implies !is_named(
                    #[trigger] rest[i],
                    name,
                ) by {
                    assert(rest[i] == pairs[i]);
                }
            }
            if forall|i: int| 0 <= i < pairs.len() ==> !is_named(#[trigger] pairs[i], name) {
                assert forall|i: int| 0 <= i < rest.len() implies !is_named(
                    #[trigger] rest[i],
                    name,
                ) by {
                    assert(rest[i] == pairs[i]);
                }
            }
        }
    }
}

// ---------------------------------------------------------------------------
// Names
// ---------------------------------------------------------------------------

/// No letter or digit is lost or moved on the way to a slug.
pub proof fn law_runs_keep_their_letters(s: Seq<char>)
    ensures
        hyphenated(s).filter(|c: char| ascii_alphanumeric(c)) == s.filter(
            |c: char| ascii_alphanumeric(c),
        ),
    decreases s.len(),
{
    reveal(Seq::filter);
    let keep = |c: char| ascii_alphanumeric(c);
    if s.len() > 0 {
        let before = hyphenated(s.drop_last());
        law_runs_keep_their_letters(s.drop_last());
        let c = s.last();
        if ascii_alphanumeric(c) {
            assert(before.push('-').drop_last() =~= before);
            assert(before.push('-').push(c).drop_last() =~= before.push('-'));
            assert(before.push(c).drop_last() =~= before);
            assert(!keep('-'));
            assert(before.push('-').filter(keep) =~= before.filter(keep));
        }
    } else {
        assert(hyphenated(s).filter(keep) =~= s.filter(keep));
    }
}

/// Whatever stands between two texts with letters or digits, one hyphen stands
/// between their slugs; what stands around them leaves nothing.
pub proof fn law_one_hyphen_between(a: Seq<char>, c: char, b: Seq<char>)
    requires
        !ascii_alphanumeric(c),
    ensures
        hyphenated(a).len() > 0 && hyphenated(b).len() > 0 ==> hyphenated(a.push(c) + b)
            == hyphenated(a).push('-') + hyphenated(b),
        hyphenated(a).len() == 0 ==> hyphenated(a.push(c) + b) == hyphenated(b),
        hyphenated(b).len() == 0 ==> hyphenated(a.push(c) + b) == hyphenated(a),
    decreases b.len(),
{
    let s = a.push(c) + b;
    if b.len() == 0 {
        assert(s =~= a.push(c));
        assert(a.push(c).drop_last() =~= a);
        assert(hyphenated(b) =~= seq![]);
        assert(hyphenated(a).len() == 0 ==> hyphenated(a) =~= seq![]);
    } else {
        let rest = b.drop_last();
        law_one_hyphen_between(a, c, rest);
        assert(s.drop_last() =~= a.push(c) + rest);
        assert(s.last() == b.last());
        if b.len() == 1 {
            assert(s[s.len() - 2] == c);
            assert(hyphenated(rest) =~= seq![]);
        } else {
            assert(s[s.len() - 2] == b[b.len() - 2]);
            lemma_run_goes_on(rest);
        }
        if ascii_alphanumeric(b.last()) {
            if hyphenated(a).len() > 0 {
                assert(hyphenated(s) =~= hyphenated(a).push('-') + hyphenated(b));
            } else {
                assert(hyphenated(s) =~= hyphenated(b));
            }
        }
    }
}

/// Behind a letter or digit there is a run.
proof fn lemma_run_goes_on(s: Seq<char>)
    requires
        s.len() > 0,
    ensures
        ascii_alphanumeric(s.last()) ==> hyphenated(s).len() > 0,
{
}

/// A text of letters and digits is its own run.
pub proof fn law_runs_stay(s: Seq<char>)
    requires
        forall|i: int| 0 <= i < s.len() ==> ascii_alphanumeric(#[trigger] s[i]),
    ensures
        hyphenated(s) == s,
        slug(s) == lowered(s),
    decreases s.len(),
{
    if s.len() > 0 {
        let rest = s.drop_last();
        assert forall|i: int| 0 <= i < rest.len() implies ascii_alphanumeric(
            #[trigger] rest[i],
        ) by {
            assert(rest[i] == s[i]);
        }
        law_runs_stay(rest);
        assert(ascii_alphanumeric(s[s.len() - 1]));
        if s.len() > 1 {
            assert(ascii_alphanumeric(s[s.len() - 2]));
        }
        assert(rest.push(s.last()) =~= s);
    } else {
        assert(hyphenated(s) =~= s);
    }
}

/// A label becomes an id by its runs of letters and digits, in lower case.
pub proof fn law_ids_are_lower_case(label: Seq<char>, i: int)
    requires
        0 <= i < slug(label).len(),
    ensures
        slug(label).len() == hyphenated(label).len(),
        !('A' <= slug(label)[i] <= 'Z'),
        !('A' <= hyphenated(label)[i] <= 'Z') ==> slug(label)[i] == hyphenated(label)[i],
        'A' <= hyphenated(label)[i] <= 'Z' ==> slug(label)[i] as u32 == hyphenated(label)[i] as u32
            + 32,
{
    crate::text_laws::law_lower_case(hyphenated(label), i);
}

/// The names to try are the base itself, then the base with a hyphen and a number
/// from two on.
pub proof fn law_names_are_numbered(base: Seq<char>, n: nat)
    ensures
        name_candidate(base, 0) == base,
        n > 0 ==> name_candidate(base, n) == base + "-"@ + decimal((n + 1) as nat),
{
}

// ---------------------------------------------------------------------------
// Models to try
// ---------------------------------------------------------------------------

/// The models of a group are those of it, in order.
proof fn lemma_group(models: Seq<Seq<char>>, group: int)
    ensures
        of_freedom(models, group) == models.filter(|m: Seq<char>| freedom(m) == group),
    decreases models.len(),
{
    reveal(Seq::filter);
    if models.len() > 0 {
        lemma_group(models.drop_last(), group);
    }
    assert(of_freedom(models, group) =~= models.filter(|m: Seq<char>| freedom(m) == group));
}

/// The model that needs no secret comes first, then come those that call themselves
/// free, in whatever case, and then the others; each group is in the order in which
/// it was listed.
pub proof fn law_free_models_come_first(models: Seq<Seq<char>>)
    ensures
        freed(models) == models.filter(|m: Seq<char>| m == "deepseek-v4-flash-free"@)
            + models.filter(
            |m: Seq<char>| m != "deepseek-v4-flash-free"@ && occurs(lowered(m), "free"@),
        ) + models.filter(
            |m: Seq<char>| m != "deepseek-v4-flash-free"@ && !occurs(lowered(m), "free"@),
        ),
{
    lemma_group(models, 0);
    lemma_group(models, 1);
    lemma_group(models, 2);
    lemma_same_filter(
        models,
        |m: Seq<char>| freedom(m) == 0,
        |m: Seq<char>| m == "deepseek-v4-flash-free"@,
    );
    lemma_same_filter(
        models,
        |m: Seq<char>| freedom(m) == 1,
        |m: Seq<char>| m != "deepseek-v4-flash-free"@ && occurs(lowered(m), "free"@),
    );
    lemma_same_filter(
        models,
        |m: Seq<char>| freedom(m) == 2,
        |m: Seq<char>| m != "deepseek-v4-flash-free"@ && !occurs(lowered(m), "free"@),
    );
}

proof fn lemma_same_filter(
    s: Seq<Seq<char>>,
    a: spec_fn(Seq<char>) -> bool,
    b: spec_fn(Seq<char>) -> bool,
)
    requires
        forall|m: Seq<char>| #[trigger] a(m) == b(m),
    ensures
        s.filter(a) == s.filter(b),
    decreases s.len(),
{
    reveal(Seq::filter);
    if s.len() > 0 {
        lemma_same_filter(s.drop_last(), a, b);
        assert(a(s.last()) == b(s.last()));
    }
}

/// In place of a model that does not work its list's others are tried, at most the
/// first five of them, the free ones first.
pub proof fn law_others_are_tried(models: Seq<Seq<char>>, typed: Seq<char>)
    ensures
        others(models, typed) == models.filter(|m: Seq<char>| m != typed),
        models.len() <= 5 ==> first_five(models) == models,
        models.len() > 5 ==> first_five(models) == models.subrange(0, 5),
    decreases models.len(),
{
    reveal(Seq::filter);
    if models.len() > 0 {
        law_others_are_tried(models.drop_last(), typed);
    }
    assert(others(models, typed) =~= models.filter(|m: Seq<char>| m != typed));
}

/// A model that works is used, whenever it is found; what the operator types is
/// used without the white space around it.
pub proof fn law_what_works_is_used(
    typed: Seq<char>,
    stage: CheckStage,
    found: String,
    answer: String,
)
    ensures
        check_next(typed, stage, CheckEvent::Probed(ProbeOutcome::Found(found))).1
            == CheckSeen::Use(found@),
        check_next(typed, stage, CheckEvent::Answered(answer)).1 == CheckSeen::Use(trimmed(answer@)),
{
}

/// Where what was typed does not work, the provider's list is fetched; where its
/// others do not work either, or there are none, the operator is asked.
pub proof fn law_failed_checks_move_on(
    typed: Seq<char>,
    stage: CheckStage,
    failures: Vec<(String, u16, String)>,
    listed: Vec<String>,
)
    ensures
        ({
            let failed = check_next(
                typed,
                stage,
                CheckEvent::Probed(ProbeOutcome::AllFailed(failures)),
            );
            let tried = first_five(freed(texts(listed@).filter(|m: Seq<char>| m != typed)));
            let next = check_next(typed, stage, CheckEvent::Listed(Some(listed)));
            &&& stage == CheckStage::Typed ==> failed == (CheckStage::Listing, CheckSeen::FetchList)
            &&& stage != CheckStage::Typed ==> failed == (CheckStage::Asking, CheckSeen::Ask)
            &&& tried.len() > 0 ==> next == (CheckStage::Others, CheckSeen::Probe(tried))
            &&& tried.len() == 0 ==> next == (CheckStage::Asking, CheckSeen::Ask)
            &&& check_next(typed, stage, CheckEvent::Listed(None)) == (
                CheckStage::Asking,
                CheckSeen::Ask,
            )
        }),
{
    law_others_are_tried(texts(listed@), typed);
    law_free_first_keeps_models(others(texts(listed@), typed));
}

/// A failure names its model, and the status and text of the answer, or no status
/// and the reason why there was none.
pub proof fn law_failures_are_told(model: Seq<char>, a: Attempt)
    ensures
        failure(model, a).0 == model,
        a matches Ok(p) ==> failure(model, a).1 == p.0 && failure(model, a).2 == p.1@,
        a matches Err(e) ==> failure(model, a).1 == 0 && failure(model, a).2 == e@,
{
}

} // verus!
