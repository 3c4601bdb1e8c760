//! Properties of the matching predicate and the result pipeline, stated and
//! proved once for all inputs.

use vstd::prelude::*;
use vstd::seq_lib::group_to_multiset_ensures;

use crate::criteria::spec_fold;
use crate::criteria::SearchCriteria;
use crate::criteria::SearchMode;
use crate::record::ToolRecord;
use crate::record::ToolSearchMatch;
use crate::schema::schema_text;
use crate::search::all_matches;
use crate::search::failures_of;
use crate::search::lemma_spec_sort_ensures;
use crate::search::match_le;
use crate::search::spec_limit;
use crate::search::spec_sort;
use crate::search::ProviderFailure;
use crate::search::ServerQueryResult;
use crate::text::lower_of;
use crate::text::spec_contains;

verus! {

/// A criteria with no exact-name target, no query, no keywords and no
/// minimum description length matches every tool.
pub proof fn lemma_match_all_matches(c: SearchCriteria, t: ToolRecord)
    requires
        c.name is None,
        c.query is None,
        c.keywords@.len() == 0,
        c.min_description_length is None,
    ensures
        c.spec_matches(t),
{
}

/// Case-insensitive substring matching holds exactly when the lowercase text
/// of some enabled fragment contains the lowercase query.
pub proof fn lemma_substring_case_insensitive(c: SearchCriteria, t: ToolRecord, q: String)
    requires
        c.mode == SearchMode::Substring,
        !c.case_sensitive,
        c.query == Some(q),
        c.name is None,
        c.min_description_length is None,
    ensures
        c.spec_matches(t) <==> {
            ||| c.fields.name && spec_contains(lower_of(t.name@), lower_of(q@))
            ||| c.fields.title && match t.title {
                Some(ti) => spec_contains(lower_of(ti@), lower_of(q@)),
                None => false,
            }
            ||| c.fields.description && match t.description {
                Some(d) => spec_contains(lower_of(d@), lower_of(q@)),
                None => false,
            }
            ||| c.fields.input_schema && schema_text(t.input_schema).len() > 0 && spec_contains(
                lower_of(schema_text(t.input_schema)),
                lower_of(q@),
            )
        },
{
}

/// Keyword matching of one text fragment is the conjunction of substring
/// containment of each keyword, each side folded for case.
pub proof fn lemma_keywords_conjunction(c: SearchCriteria, text: Seq<char>)
    requires
        c.mode == SearchMode::Keywords,
    ensures
        c.spec_text_matches(text) <==> forall|i: int|
            0 <= i < c.keywords@.len() ==> spec_contains(
                spec_fold(c.case_sensitive, text),
                spec_fold(c.case_sensitive, (#[trigger] c.keywords@[i])@),
            ),
{
}

/// Keyword matching does not depend on the order in which the keywords are
/// given.
pub proof fn lemma_keywords_order_irrelevant(
    c1: SearchCriteria,
    c2: SearchCriteria,
    t: ToolRecord,
)
    requires
        c1.mode == SearchMode::Keywords,
        c2.mode == SearchMode::Keywords,
        c1.keywords@.to_multiset() == c2.keywords@.to_multiset(),
        c1.name == c2.name,
        c1.query == c2.query,
        c1.fields == c2.fields,
        c1.case_sensitive == c2.case_sensitive,
        c1.min_description_length == c2.min_description_length,
    ensures
        c1.spec_matches(t) == c2.spec_matches(t),
{
    broadcast use group_to_multiset_ensures;

    assert(c1.keywords@.to_multiset().len() == c1.keywords@.len());
    assert(c2.keywords@.to_multiset().len() == c2.keywords@.len());
    assert(c1.keywords@.len() == c2.keywords@.len());
    assert forall|text: Seq<char>| c1.spec_text_matches(text) == c2.spec_text_matches(text) by {
        if c1.spec_text_matches(text) {
            assert forall|i: int| 0 <= i < c2.keywords@.len() implies spec_contains(
                spec_fold(c2.case_sensitive, text),
                spec_fold(c2.case_sensitive, (#[trigger] c2.keywords@[i])@),
            ) by {
                assert(c2.keywords@.contains(c2.keywords@[i]));
                assert(c1.keywords@.to_multiset().count(c2.keywords@[i]) > 0);
                assert(c1.keywords@.contains(c2.keywords@[i]));
                let j = choose|j: int|
                    0 <= j < c1.keywords@.len() && c1.keywords@[j] == c2.keywords@[i];
                assert(spec_contains(
                    spec_fold(c1.case_sensitive, text),
                    spec_fold(c1.case_sensitive, c1.keywords@[j]@),
                ));
            }
        }
        if c2.spec_text_matches(text) {
            assert forall|i: int| 0 <= i < c1.keywords@.len() implies spec_contains(
                spec_fold(c1.case_sensitive, text),
                spec_fold(c1.case_sensitive, (#[trigger] c1.keywords@[i])@),
            ) by {
                assert(c1.keywords@.contains(c1.keywords@[i]));
                assert(c2.keywords@.to_multiset().count(c1.keywords@[i]) > 0);
                assert(c2.keywords@.contains(c1.keywords@[i]));
                let j = choose|j: int|
                    0 <= j < c2.keywords@.len() && c2.keywords@[j] == c1.keywords@[i];
                assert(spec_contains(
                    spec_fold(c2.case_sensitive, text),
                    spec_fold(c2.case_sensitive, c2.keywords@[j]@),
                ));
            }
        }
    }
}

/// A server whose query failed contributes nothing to the match list, and
/// exactly one entry to the failure list.
pub proof fn lemma_failed_server_isolated(
    results: Seq<ServerQueryResult>,
    c: SearchCriteria,
    i: int,
)
    requires
        0 <= i < results.len(),
        results[i].outcome is Err,
    ensures
        all_matches(results, c) == all_matches(results.remove(i), c),
        failures_of(results).contains(
            ProviderFailure {
                server_name: results[i].server_name,
                error: results[i].outcome->Err_0,
            },
        ),
        failures_of(results).len() == failures_of(results.remove(i)).len() + 1,
    decreases i,
{
    if i == 0 {
        assert(results.remove(0) =~= results.drop_first());
        assert(all_matches(results, c) =~= all_matches(results.drop_first(), c));
        let entry = ProviderFailure {
            server_name: results[0].server_name,
            error: results[0].outcome->Err_0,
        };
        assert(failures_of(results) =~= seq![entry] + failures_of(results.drop_first()));
        assert(failures_of(results)[0] == entry);
    } else {
        lemma_failed_server_isolated(results.drop_first(), c, i - 1);
        assert(results.drop_first()[i - 1] == results[i]);
        assert(results.remove(i).drop_first() =~= results.drop_first().remove(i - 1));
        assert(results.remove(i)[0] == results[0]);
        let entry = ProviderFailure {
            server_name: results[i].server_name,
            error: results[i].outcome->Err_0,
        };
        assert(failures_of(results.drop_first()).contains(entry));
        let k = choose|k: int|
            0 <= k < failures_of(results.drop_first()).len() && failures_of(
                results.drop_first(),
            )[k] == entry;
        match results[0].outcome {
            Err(e) => {
                assert(failures_of(results) =~= seq![
                    ProviderFailure { server_name: results[0].server_name, error: e },
                ] + failures_of(results.drop_first()));
                assert(failures_of(results)[k + 1] == entry);
            },
            Ok(_) => {
                assert(failures_of(results) =~= failures_of(results.drop_first()));
                assert(failures_of(results)[k] == entry);
            },
        }
    }
}

/// Capping the sorted result list at one entry returns exactly its least
/// element, never an arbitrary match.
pub proof fn lemma_limit_one_is_least(order: crate::options::SortOrder, s: Seq<ToolSearchMatch>)
    requires
        s.len() > 0,
    ensures
        spec_limit(Some(1usize), spec_sort(order, s)) == seq![spec_sort(order, s)[0]],
        forall|k: int|
            0 <= k < s.len() ==> match_le(order, spec_sort(order, s)[0], #[trigger] spec_sort(
                order,
                s,
            )[k]),
{
    lemma_spec_sort_ensures(order, s);
    let sorted = spec_sort(order, s);
    if s.len() == 1 {
        assert(spec_limit(Some(1usize), sorted) == sorted);
        assert(sorted =~= seq![sorted[0]]);
    } else {
        assert(sorted.take(1) =~= seq![sorted[0]]);
    }
    assert forall|k: int| 0 <= k < s.len() implies match_le(order, sorted[0], #[trigger] sorted[k]) by {
        if k > 0 {
            assert(match_le(order, sorted[0], sorted[k]));
        } else {
            crate::search::lemma_match_le_total(order, sorted[0], sorted[0]);
        }
    }
}

} // verus!
