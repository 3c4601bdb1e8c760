//! Aggregation of per-server query outcomes into the final result set:
//! validation planning, match filtering, deterministic sorting and
//! truncation.

use vstd::prelude::*;
use vstd::seq_lib::group_to_multiset_ensures;

use crate::config::ServerConfig;
use crate::criteria::SearchCriteria;
use crate::error::ToolSearchError;
use crate::options::SearchOptions;
use crate::options::SortOrder;
use crate::record::ToolRecord;
use crate::record::ToolSearchMatch;
use crate::text::lex_le;
use crate::text::lemma_lex_le_antisymmetric;
use crate::text::lemma_lex_le_total;
use crate::text::lemma_lex_le_transitive;
use crate::text::str_eq;
use crate::text::str_le;

verus! {

/// The place of two matches in a sort order: by server name and then tool
/// name, by tool name and then server name, or no constraint at all.
pub open spec fn match_le(order: SortOrder, a: ToolSearchMatch, b: ToolSearchMatch) -> bool {
    match order {
        SortOrder::ServerThenTool => {
            if a.server_name@ == b.server_name@ {
                lex_le(a.tool.name@, b.tool.name@)
            } else {
                lex_le(a.server_name@, b.server_name@)
            }
        },
        SortOrder::ToolThenServer => {
            if a.tool.name@ == b.tool.name@ {
                lex_le(a.server_name@, b.server_name@)
            } else {
                lex_le(a.tool.name@, b.tool.name@)
            }
        },
        SortOrder::Unsorted => true,
    }
}

/// Two matches are always comparable.
pub proof fn lemma_match_le_total(order: SortOrder, a: ToolSearchMatch, b: ToolSearchMatch)
    ensures
        match_le(order, a, b) || match_le(order, b, a),
{
    lemma_lex_le_total(a.server_name@, b.server_name@);
    lemma_lex_le_total(a.tool.name@, b.tool.name@);
}

/// The order on matches is transitive.
pub proof fn lemma_match_le_transitive(
    order: SortOrder,
    a: ToolSearchMatch,
    b: ToolSearchMatch,
    c: ToolSearchMatch,
)
    requires
        match_le(order, a, b),
        match_le(order, b, c),
    ensures
        match_le(order, a, c),
{
    match order {
        SortOrder::ServerThenTool => {
            if a.server_name@ == b.server_name@ && b.server_name@ == c.server_name@ {
                lemma_lex_le_transitive(a.tool.name@, b.tool.name@, c.tool.name@);
            } else if a.server_name@ == b.server_name@ {
            } else if b.server_name@ == c.server_name@ {
            } else {
                lemma_lex_le_transitive(a.server_name@, b.server_name@, c.server_name@);
                if a.server_name@ == c.server_name@ {
                    lemma_lex_le_antisymmetric(b.server_name@, c.server_name@);
                }
            }
        },
        SortOrder::ToolThenServer => {
            if a.tool.name@ == b.tool.name@ && b.tool.name@ == c.tool.name@ {
                lemma_lex_le_transitive(a.server_name@, b.server_name@, c.server_name@);
            } else if a.tool.name@ == b.tool.name@ {
            } else if b.tool.name@ == c.tool.name@ {
            } else {
                lemma_lex_le_transitive(a.tool.name@, b.tool.name@, c.tool.name@);
                if a.tool.name@ == c.tool.name@ {
                    lemma_lex_le_antisymmetric(b.tool.name@, c.tool.name@);
                }
            }
        },
        SortOrder::Unsorted => {},
    }
}

/// `s` is ordered under `order`.
pub open spec fn sorted_by(order: SortOrder, s: Seq<ToolSearchMatch>) -> bool {
    forall|i: int, j: int| 0 <= i < j < s.len() ==> match_le(order, s[i], s[j])
}

/// Stable insertion of `x` into `s`: after every element it is not strictly
/// below.
pub open spec fn spec_insert(
    order: SortOrder,
    s: Seq<ToolSearchMatch>,
    x: ToolSearchMatch,
) -> Seq<ToolSearchMatch>
    decreases s.len(),
{
    if s.len() == 0 {
        seq![x]
    } else if match_le(order, s.last(), x) {
        s.push(x)
    } else {
        spec_insert(order, s.drop_last(), x).push(s.last())
    }
}

/// Stable insertion sort of `s` under `order`; under `Unsorted` it keeps `s`
/// as it is.
pub open spec fn spec_sort(order: SortOrder, s: Seq<ToolSearchMatch>) -> Seq<ToolSearchMatch>
    decreases s.len(),
{
    if s.len() == 0 {
        s
    } else {
        spec_insert(order, spec_sort(order, s.drop_last()), s.last())
    }
}

proof fn lemma_insert_multiset(order: SortOrder, s: Seq<ToolSearchMatch>, x: ToolSearchMatch)
    ensures
        spec_insert(order, s, x).len() == s.len() + 1,
        spec_insert(order, s, x).to_multiset() == s.push(x).to_multiset(),
    decreases s.len(),
{
    broadcast use group_to_multiset_ensures;

    if s.len() == 0 {
        assert(seq![x] =~= Seq::<ToolSearchMatch>::empty().push(x));
        assert(s =~= Seq::<ToolSearchMatch>::empty());
    } else if match_le(order, s.last(), x) {
    } else {
        lemma_insert_multiset(order, s.drop_last(), x);
        assert(spec_insert(order, s, x).to_multiset() =~= spec_insert(
            order,
            s.drop_last(),
            x,
        ).to_multiset().insert(s.last()));
        assert(s.drop_last().push(x).to_multiset().insert(s.last()) =~= s.drop_last().to_multiset()
            .insert(x).insert(s.last()));
        assert(s.drop_last().push(s.last()) =~= s);
        assert(s.to_multiset() =~= s.drop_last().to_multiset().insert(s.last()));
        assert(s.push(x).to_multiset() =~= s.to_multiset().insert(x));
    }
}

proof fn lemma_insert_sorted(order: SortOrder, s: Seq<ToolSearchMatch>, x: ToolSearchMatch)
    requires
        sorted_by(order, s),
    ensures
        sorted_by(order, spec_insert(order, s, x)),
        spec_insert(order, s, x).len() == s.len() + 1,
        spec_insert(order, s, x).to_multiset() == s.push(x).to_multiset(),
    decreases s.len(),
{
    broadcast use group_to_multiset_ensures;

    lemma_insert_multiset(order, s, x);
    if s.len() == 0 {
    } else if match_le(order, s.last(), x) {
        assert forall|i: int, j: int|
            0 <= i < j < s.push(x).len() implies match_le(order, s.push(x)[i], s.push(x)[j]) by {
            if j == s.len() {
                if i < s.len() - 1 {
                    assert(match_le(order, s[i], s[s.len() - 1]));
                    lemma_match_le_transitive(order, s[i], s[s.len() - 1], x);
                } else {
                    assert(s[i] == s.last());
                }
            }
        }
    } else {
        assert(sorted_by(order, s.drop_last())) by {
            assert(forall|i: int, j: int|
                0 <= i < j < s.drop_last().len() ==> s.drop_last()[i] == s[i] && s.drop_last()[j]
                    == s[j]);
        }
        lemma_insert_sorted(order, s.drop_last(), x);
        lemma_match_le_total(order, s.last(), x);
        let t = spec_insert(order, s.drop_last(), x);
        // every element of t is one of drop_last() or x, and each is below s.last()
        assert forall|k: int| 0 <= k < t.len() implies match_le(order, t[k], s.last()) by {
            assert(t.to_multiset().contains(t[k]));
            assert(s.drop_last().push(x).to_multiset().contains(t[k]));
            assert(s.drop_last().push(x).contains(t[k]));
            let m = choose|m: int|
                0 <= m < s.drop_last().push(x).len() && s.drop_last().push(x)[m] == t[k];
            if m < s.drop_last().len() {
                assert(s[m] == s.drop_last()[m]);
                assert(match_le(order, s[m], s[s.len() - 1]));
            } else {
                assert(t[k] == x);
            }
        }
        assert forall|i: int, j: int|
            0 <= i < j < t.push(s.last()).len() implies match_le(
            order,
            t.push(s.last())[i],
            t.push(s.last())[j],
        ) by {
            if j < t.len() {
                assert(match_le(order, t[i], t[j]));
            } else {
                assert(match_le(order, t[i], s.last()));
            }
        }
    }
}

/// The sorted form of a sequence of matches: ordered, and made of exactly the
/// same matches.
pub proof fn lemma_spec_sort_ensures(order: SortOrder, s: Seq<ToolSearchMatch>)
    ensures
        sorted_by(order, spec_sort(order, s)),
        spec_sort(order, s).len() == s.len(),
        spec_sort(order, s).to_multiset() == s.to_multiset(),
    decreases s.len(),
{
    broadcast use group_to_multiset_ensures;

    if s.len() > 0 {
        lemma_spec_sort_ensures(order, s.drop_last());
        lemma_insert_sorted(order, spec_sort(order, s.drop_last()), s.last());
        let t = spec_sort(order, s.drop_last());
        assert(spec_sort(order, s) == spec_insert(order, t, s.last()));
        assert(t.push(s.last()).to_multiset() =~= t.to_multiset().insert(s.last()));
        assert(s.drop_last().push(s.last()) =~= s);
        assert(s.to_multiset() =~= s.drop_last().to_multiset().insert(s.last()));
    }
}

/// With no order requested, sorting keeps the sequence exactly as it is.
pub proof fn lemma_spec_sort_unsorted(s: Seq<ToolSearchMatch>)
    ensures
        spec_sort(SortOrder::Unsorted, s) == s,
    decreases s.len(),
{
    if s.len() > 0 {
        lemma_spec_sort_unsorted(s.drop_last());
        assert(spec_sort(SortOrder::Unsorted, s.drop_last()) == s.drop_last());
        assert(spec_insert(SortOrder::Unsorted, s.drop_last(), s.last()) == s.drop_last().push(
            s.last(),
        ));
        assert(s.drop_last().push(s.last()) =~= s);
    }
}

fn match_le_exec(order: SortOrder, a: &ToolSearchMatch, b: &ToolSearchMatch) -> (r: bool)
    ensures
        r == match_le(order, *a, *b),
{
    match order {
        SortOrder::ServerThenTool => {
            if str_eq(a.server_name.as_str(), b.server_name.as_str()) {
                str_le(a.tool.name.as_str(), b.tool.name.as_str())
            } else {
                str_le(a.server_name.as_str(), b.server_name.as_str())
            }
        },
        SortOrder::ToolThenServer => {
            if str_eq(a.tool.name.as_str(), b.tool.name.as_str()) {
                str_le(a.server_name.as_str(), b.server_name.as_str())
            } else {
                str_le(a.tool.name.as_str(), b.tool.name.as_str())
            }
        },
        SortOrder::Unsorted => true,
    }
}

/// Inserting `x` just above the elements it is not strictly below puts it at
/// position `j`.
proof fn lemma_insert_position(
    order: SortOrder,
    s: Seq<ToolSearchMatch>,
    x: ToolSearchMatch,
    j: int,
)
    requires
        0 <= j <= s.len(),
        j > 0 ==> match_le(order, s[j - 1], x),
        forall|k: int| j <= k < s.len() ==> !match_le(order, #[trigger] s[k], x),
    ensures
        spec_insert(order, s, x) == s.take(j) + seq![x] + s.skip(j),
    decreases s.len(),
{
    if j == s.len() {
        if s.len() == 0 {
            assert(spec_insert(order, s, x) =~= s.take(j) + seq![x] + s.skip(j));
        } else {
            assert(match_le(order, s.last(), x));
            assert(s.push(x) =~= s.take(j) + seq![x] + s.skip(j));
        }
    } else {
        assert(!match_le(order, s[s.len() - 1], x));
        lemma_insert_position(order, s.drop_last(), x, j);
        assert(s.drop_last().take(j) =~= s.take(j));
        assert(s.drop_last().skip(j).push(s.last()) =~= s.skip(j));
        assert((s.drop_last().take(j) + seq![x] + s.drop_last().skip(j)).push(s.last()) =~= s.take(
            j,
        ) + seq![x] + s.skip(j));
    }
}

proof fn lemma_spec_sort_singleton(order: SortOrder, s: Seq<ToolSearchMatch>)
    requires
        s.len() == 1,
    ensures
        spec_sort(order, s) == s,
{
    assert(s.drop_last() =~= Seq::<ToolSearchMatch>::empty());
    assert(spec_sort(order, s.drop_last()) == s.drop_last());
    assert(spec_insert(order, s.drop_last(), s.last()) == seq![s.last()]);
    assert(seq![s.last()] =~= s);
}

/// Sort matches in place; the result is exactly the stable insertion sort of
/// the input.
#[verifier::loop_isolation(false)]
pub fn sort_matches(order: SortOrder, v: &mut Vec<ToolSearchMatch>)
    ensures
        final(v)@ == spec_sort(order, old(v)@),
{
    let ghost orig = old(v)@;
    if v.len() <= 1 {
        proof {
            if orig.len() == 1 {
                lemma_spec_sort_singleton(order, orig);
            }
        }
        return ;
    }
    proof {
        lemma_spec_sort_singleton(order, orig.take(1));
        assert(v@.take(1) =~= orig.take(1));
        assert(v@.skip(1) =~= orig.skip(1));
        lemma_spec_sort_ensures(order, orig.take(1));
    }
    let mut i: usize = 1;
    while i < v.len()
        invariant
            v@.len() == orig.len(),
            1 <= i <= orig.len(),
            v@.skip(i as int) == orig.skip(i as int),
            v@.take(i as int) == spec_sort(order, orig.take(i as int)),
            sorted_by(order, v@.take(i as int)),
        decreases orig.len() - i,
    {
        let ghost before = v@;
        let x = v.remove(i);
        proof {
            before.remove_ensures(i as int);
            assert(before.skip(i as int)[0] == orig.skip(i as int)[0]);
            assert(x == orig[i as int]);
            assert forall|k: int| 0 <= k < i implies v@[k] == before[k] by {}
            assert(v@.take(i as int) =~= before.take(i as int));
            assert forall|k: int| 0 <= k < v@.len() - i implies v@.skip(i as int)[k] == orig.skip(
                i + 1,
            )[k] by {
                assert(v@[i + k] == before[i + 1 + k]);
                assert(before.skip(i as int)[k + 1] == orig.skip(i as int)[k + 1]);
            }
            assert(v@.skip(i as int) =~= orig.skip(i + 1));
        }
        let ghost prefix = v@.take(i as int);
        let mut j: usize = i;
        while j > 0 && !match_le_exec(order, &v[j - 1], &x)
            invariant
                0 <= j <= i,
                forall|k: int| j <= k < i ==> !match_le(order, #[trigger] prefix[k], x),
            decreases j,
        {
            j -= 1;
        }
        proof {
            lemma_insert_position(order, prefix, x, j as int);
        }
        let ghost removed = v@;
        v.insert(j, x);
        proof {
            assert(v@.take(i + 1) =~= prefix.take(j as int) + seq![x] + prefix.skip(j as int));
            assert(orig.take(i + 1).drop_last() =~= orig.take(i as int));
            assert(orig.take(i + 1).last() == orig[i as int]);
            assert(v@.take(i + 1) == spec_sort(order, orig.take(i + 1)));
            lemma_spec_sort_ensures(order, orig.take(i + 1));
            assert(v@.skip(i + 1) =~= removed.skip(i as int));
        }
        i += 1;
    }
    proof {
        assert(orig.take(orig.len() as int) =~= orig);
        assert(v@.take(orig.len() as int) =~= v@);
    }
}

/// The settled outcome of querying one server: its tool list, or the failure
/// that ended the query.
#[derive(Debug)]
pub struct ServerQueryResult {
    /// Name of the queried server.
    pub server_name: String,
    /// The tools it listed, or the error met.
    pub outcome: Result<Vec<ToolRecord>, ToolSearchError>,
}

/// A failure talking to one server, kept aside when the search continues.
#[derive(Debug)]
pub struct ProviderFailure {
    /// Name of the server that failed.
    pub server_name: String,
    /// The error met.
    pub error: ToolSearchError,
}

/// What one search call returns: the ordered matches, and the per-server
/// failures that were tolerated along the way.
#[derive(Debug)]
pub struct SearchOutcome {
    /// The matching tools, ordered and truncated as the options ask.
    pub matches: Vec<ToolSearchMatch>,
    /// One entry for every server whose query failed.
    pub failures: Vec<ProviderFailure>,
}

/// The matches that one server's tools contribute, in listing order.
pub open spec fn matches_from_server(
    server: String,
    tools: Seq<ToolRecord>,
    c: SearchCriteria,
) -> Seq<ToolSearchMatch>
    decreases tools.len(),
{
    if tools.len() == 0 {
        Seq::empty()
    } else {
        (if c.spec_matches(tools[0]) {
            seq![ToolSearchMatch { server_name: server, tool: tools[0] }]
        } else {
            Seq::empty()
        }) + matches_from_server(server, tools.drop_first(), c)
    }
}

/// All matches contributed by the settled queries, in their order.
pub open spec fn all_matches(
    results: Seq<ServerQueryResult>,
    c: SearchCriteria,
) -> Seq<ToolSearchMatch>
    decreases results.len(),
{
    if results.len() == 0 {
        Seq::empty()
    } else {
        (match results[0].outcome {
            Ok(tools) => matches_from_server(results[0].server_name, tools@, c),
            Err(_) => Seq::empty(),
        }) + all_matches(results.drop_first(), c)
    }
}

/// One failure entry for every settled query that ended in an error, in order.
pub open spec fn failures_of(results: Seq<ServerQueryResult>) -> Seq<ProviderFailure>
    decreases results.len(),
{
    if results.len() == 0 {
        Seq::empty()
    } else {
        (match results[0].outcome {
            Err(e) => seq![ProviderFailure { server_name: results[0].server_name, error: e }],
            Ok(_) => Seq::empty(),
        }) + failures_of(results.drop_first())
    }
}

/// Whether any settled query ended in an error.
pub open spec fn has_failure(results: Seq<ServerQueryResult>) -> bool {
    exists|i: int| 0 <= i < results.len() && (#[trigger] results[i].outcome) is Err
}

/// The error of the first settled query that failed.
pub open spec fn first_failure(results: Seq<ServerQueryResult>) -> ToolSearchError
    recommends
        has_failure(results),
    decreases results.len(),
{
    if results.len() == 0 {
        arbitrary()
    } else {
        match results[0].outcome {
            Err(e) => e,
            Ok(_) => first_failure(results.drop_first()),
        }
    }
}

/// The result list capped at `max` entries, when a cap is set.
pub open spec fn spec_limit(max: Option<usize>, s: Seq<ToolSearchMatch>) -> Seq<ToolSearchMatch> {
    match max {
        Some(m) => if m < s.len() {
            s.take(m as int)
        } else {
            s
        },
        None => s,
    }
}

/// Decide which servers one search call will query: every valid one. The
/// first invalid descriptor aborts the call when failing servers are not
/// tolerated; otherwise invalid descriptors are merely skipped.
pub fn plan_queries(servers: &Vec<ServerConfig>, continue_on_error: bool) -> (r: Result<
    Vec<bool>,
    ToolSearchError,
>)
    ensures
        r is Ok <==> (continue_on_error || forall|i: int|
            0 <= i < servers@.len() ==> (#[trigger] servers@[i]).spec_valid()),
        r matches Ok(flags) ==> flags@.len() == servers@.len() && forall|i: int|
            0 <= i < servers@.len() ==> flags@[i] == (#[trigger] servers@[i]).spec_valid(),
        r matches Err(e) ==> !continue_on_error && exists|i: int|
            {
                &&& 0 <= i < servers@.len()
                &&& !(#[trigger] servers@[i]).spec_valid()
                &&& forall|j: int| 0 <= j < i ==> (#[trigger] servers@[j]).spec_valid()
                &&& (e matches ToolSearchError::Connection(m) && m@
                    == servers@[i].spec_validation_message())
            },
{
    let n = servers.len();
    let mut flags: Vec<bool> = Vec::new();
    let mut i: usize = 0;
    while i < n
        invariant
            n == servers@.len(),
            0 <= i <= n,
            flags@.len() == i,
            forall|k: int| 0 <= k < i ==> flags@[k] == (#[trigger] servers@[k]).spec_valid(),
            !continue_on_error ==> forall|k: int|
                0 <= k < i ==> (#[trigger] servers@[k]).spec_valid(),
        decreases n - i,
    {
        match servers[i].validate() {
            Ok(_) => {
                flags.push(true);
            },
            Err(m) => {
                if !continue_on_error {
                    return Err(ToolSearchError::Connection(m));
                }
                flags.push(false);
            },
        }
        i += 1;
    }
    Ok(flags)
}

/// Aggregate the settled per-server outcomes of one search call: filter every
/// listed tool through the criteria, then sort and truncate as the options
/// ask. When failing servers are not tolerated, the first failure fails the
/// whole call; otherwise each failure contributes one entry beside the
/// matches.
#[verifier::loop_isolation(false)]
pub fn search_from_results(
    results: Vec<ServerQueryResult>,
    criteria: &SearchCriteria,
    options: &SearchOptions,
) -> (r: Result<SearchOutcome, ToolSearchError>)
    requires
        criteria.wf(),
    ensures
        r is Ok <==> (options.continue_on_error || !has_failure(results@)),
        r matches Ok(out) ==> out.matches@ == spec_limit(
            options.max_results,
            spec_sort(options.sort_order, all_matches(results@, *criteria)),
        ) && out.failures@ == failures_of(results@),
        r matches Err(e) ==> e == first_failure(results@),
{
    let ghost orig = results@;
    let mut remaining = results;
    let mut matches: Vec<ToolSearchMatch> = Vec::new();
    let mut failures: Vec<ProviderFailure> = Vec::new();
    proof {
        assert(matches@ + all_matches(orig, *criteria) =~= all_matches(orig, *criteria));
        assert(failures@ + failures_of(orig) =~= failures_of(orig));
    }
    while remaining.len() > 0
        invariant
            matches@ + all_matches(remaining@, *criteria) == all_matches(orig, *criteria),
            failures@ + failures_of(remaining@) == failures_of(orig),
            has_failure(orig) == (failures@.len() > 0 || has_failure(remaining@)),
            !options.continue_on_error ==> failures@.len() == 0,
            !options.continue_on_error && has_failure(remaining@) ==> first_failure(remaining@)
                == first_failure(orig),
        decreases remaining@.len(),
    {
        let ghost before = remaining@;
        let sr = remaining.remove(0);
        proof {
            before.remove_ensures(0);
            assert(remaining@ =~= before.drop_first());
            assert(sr == before[0]);
            if before[0].outcome is Ok {
                assert(has_failure(before) == has_failure(before.drop_first())) by {
                    if has_failure(before) {
                        let i = choose|i: int|
                            0 <= i < before.len() && (#[trigger] before[i].outcome) is Err;
                        assert(before.drop_first()[i - 1].outcome is Err);
                    }
                    if has_failure(before.drop_first()) {
                        let i = choose|i: int|
                            0 <= i < before.drop_first().len() && (#[trigger] before.drop_first()[i].outcome) is Err;
                        assert(before[i + 1].outcome is Err);
                    }
                }
            } else {
                assert(has_failure(before)) by {
                    assert(before[0].outcome is Err);
                }
            }
        }
        match sr.outcome {
            Ok(tools) => {
                let mut tools = tools;
                let ghost server_matches = matches_from_server(sr.server_name, tools@, *criteria);
                let ghost done = matches@;
                while tools.len() > 0
                    invariant
                        criteria.wf(),
                        matches@ + matches_from_server(sr.server_name, tools@, *criteria) == done
                            + server_matches,
                    decreases tools@.len(),
                {
                    let ghost ts = tools@;
                    let t = tools.remove(0);
                    proof {
                        ts.remove_ensures(0);
                        assert(tools@ =~= ts.drop_first());
                        assert(t == ts[0]);
                    }
                    if criteria.matches(&t) {
                        let name = sr.server_name.clone();
                        matches.push(ToolSearchMatch { server_name: name, tool: t });
                    }
                }
                proof {
                    assert(matches_from_server(sr.server_name, tools@, *criteria)
                        =~= Seq::<ToolSearchMatch>::empty());
                    assert(matches@ =~= done + server_matches);
                    assert(matches@ + all_matches(remaining@, *criteria) =~= all_matches(
                        orig,
                        *criteria,
                    ));
                }
            },
            Err(e) => {
                if !options.continue_on_error {
                    return Err(e);
                }
                let name = sr.server_name;
                failures.push(ProviderFailure { server_name: name, error: e });
                proof {
                    assert(failures@ + failures_of(remaining@) =~= failures_of(orig));
                }
            },
        }
    }
    proof {
        assert(all_matches(remaining@, *criteria) =~= Seq::<ToolSearchMatch>::empty());
        assert(failures_of(remaining@) =~= Seq::<ProviderFailure>::empty());
        assert(matches@ =~= all_matches(orig, *criteria));
        assert(failures@ =~= failures_of(orig));
        assert(!has_failure(remaining@));
    }
    sort_matches(options.sort_order, &mut matches);
    match options.max_results {
        Some(m) => {
            matches.truncate(m);
        },
        None => {},
    }
    proof {
        assert(matches@ == spec_limit(
            options.max_results,
            spec_sort(options.sort_order, all_matches(orig, *criteria)),
        ));
    }
    Ok(SearchOutcome { matches, failures })
}

} // verus!
