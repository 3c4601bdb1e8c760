//! The search builder: collects servers, an optional free-form query or an
//! explicit keyword list, and options, and infers the matching criteria.
//! A query containing a regex metacharacter is treated as a pattern; one
//! containing commas as a comma-separated keyword list (segments trimmed,
//! empty segments dropped); anything else as a plain substring.

use vstd::prelude::*;
use vstd::string::*;

use crate::config::ServerConfig;
use crate::criteria::SearchCriteria;
use crate::criteria::SearchFields;
use crate::criteria::SearchMode;
use crate::options::SearchOptions;
use crate::options::SortOrder;

verus! {

/// The characters whose presence makes a query look like a regex pattern.
pub open spec fn is_regex_char(c: char) -> bool {
    c == '^' || c == '$' || c == '*' || c == '+' || c == '?' || c == '|' || c == '[' || c == '('
}

/// Whether a free-form query is taken for a regex pattern.
pub open spec fn spec_is_likely_regex(s: Seq<char>) -> bool {
    exists|i: int| 0 <= i < s.len() && is_regex_char(#[trigger] s[i])
}

/// Whether a free-form query is taken for a comma-separated keyword list.
pub open spec fn spec_has_comma(s: Seq<char>) -> bool {
    exists|i: int| 0 <= i < s.len() && #[trigger] s[i] == ','
}

/// The Unicode whitespace characters, as trimming removes them.
pub open spec fn is_space(c: char) -> bool {
    ||| c == ' '
    ||| c == '\t'
    ||| c == '\n'
    ||| c == '\r'
    ||| c == '\u{b}'
    ||| c == '\u{c}'
    ||| c == '\u{85}'
    ||| c == '\u{a0}'
    ||| c == '\u{1680}'
    ||| ('\u{2000}' as int <= c as int && c as int <= '\u{200a}' as int)
    ||| c == '\u{2028}'
    ||| c == '\u{2029}'
    ||| c == '\u{202f}'
    ||| c == '\u{205f}'
    ||| c == '\u{3000}'
}

pub open spec fn drop_leading_spaces(s: Seq<char>) -> Seq<char>
    decreases s.len(),
{
    if s.len() > 0 && is_space(s[0]) {
        drop_leading_spaces(s.drop_first())
    } else {
        s
    }
}

pub open spec fn drop_trailing_spaces(s: Seq<char>) -> Seq<char>
    decreases s.len(),
{
    if s.len() > 0 && is_space(s.last()) {
        drop_trailing_spaces(s.drop_last())
    } else {
        s
    }
}

/// A string with leading and trailing whitespace removed.
pub open spec fn spec_trim(s: Seq<char>) -> Seq<char> {
    drop_trailing_spaces(drop_leading_spaces(s))
}

/// The segments of `s` between commas, the text so far carried in `cur`.
pub open spec fn split_commas_acc(s: Seq<char>, cur: Seq<char>) -> Seq<Seq<char>>
    decreases s.len(),
{
    if s.len() == 0 {
        seq![cur]
    } else if s[0] == ',' {
        seq![cur] + split_commas_acc(s.drop_first(), Seq::empty())
    } else {
        split_commas_acc(s.drop_first(), cur.push(s[0]))
    }
}

/// The segments of `s` between commas.
pub open spec fn split_commas(s: Seq<char>) -> Seq<Seq<char>> {
    split_commas_acc(s, Seq::empty())
}

/// Each segment trimmed, empty ones dropped.
pub open spec fn keep_nonempty_trimmed(segs: Seq<Seq<char>>) -> Seq<Seq<char>>
    decreases segs.len(),
{
    if segs.len() == 0 {
        Seq::empty()
    } else {
        (if spec_trim(segs[0]).len() > 0 {
            seq![spec_trim(segs[0])]
        } else {
            Seq::empty()
        }) + keep_nonempty_trimmed(segs.drop_first())
    }
}

/// The keywords read out of a comma-separated query.
pub open spec fn keywords_of(s: Seq<char>) -> Seq<Seq<char>> {
    keep_nonempty_trimmed(split_commas(s))
}

fn is_space_exec(c: char) -> (r: bool)
    ensures
        r == is_space(c),
{
    let u = c as u32;
    c == ' ' || c == '\t' || c == '\n' || c == '\r' || c == '\u{b}' || c == '\u{c}' || c == '\u{85}'
        || c == '\u{a0}' || c == '\u{1680}' || (0x2000 <= u && u <= 0x200a) || c == '\u{2028}' || c
        == '\u{2029}' || c == '\u{202f}' || c == '\u{205f}' || c == '\u{3000}'
}

proof fn lemma_drop_leading(s: Seq<char>, i: int)
    requires
        0 <= i <= s.len(),
        forall|k: int| 0 <= k < i ==> is_space(#[trigger] s[k]),
        i < s.len() ==> !is_space(s[i]),
    ensures
        drop_leading_spaces(s) == s.skip(i),
    decreases i,
{
    if i == 0 {
        assert(s.skip(0) =~= s);
    } else {
        lemma_drop_leading(s.drop_first(), i - 1);
        assert(s.drop_first().skip(i - 1) =~= s.skip(i));
    }
}

proof fn lemma_drop_trailing(s: Seq<char>, e: int)
    requires
        0 <= e <= s.len(),
        forall|k: int| e <= k < s.len() ==> is_space(#[trigger] s[k]),
        e > 0 ==> !is_space(s[e - 1]),
    ensures
        drop_trailing_spaces(s) == s.take(e),
    decreases s.len() - e,
{
    if e == s.len() {
        if s.len() > 0 {
            assert(!is_space(s.last()));
        }
        assert(s.take(e) =~= s);
    } else {
        assert(is_space(s.last()));
        lemma_drop_trailing(s.drop_last(), e);
        assert(s.drop_last().take(e) =~= s.take(e));
    }
}

/// A copy of `s` with leading and trailing whitespace removed.
#[verifier::loop_isolation(false)]
fn trim_chars(s: &str) -> (r: String)
    ensures
        r@ == spec_trim(s@),
{
    let n = s.unicode_len();
    let mut start: usize = 0;
    while start < n && is_space_exec(s.get_char(start))
        invariant
            0 <= start <= n,
            forall|k: int| 0 <= k < start ==> is_space(#[trigger] s@[k]),
        decreases n - start,
    {
        start += 1;
    }
    proof {
        lemma_drop_leading(s@, start as int);
    }
    let mut end: usize = n;
    while end > start && is_space_exec(s.get_char(end - 1))
        invariant
            start <= end <= n,
            forall|k: int| end <= k < n ==> is_space(#[trigger] s@[k]),
        decreases end,
    {
        end -= 1;
    }
    proof {
        let tail = s@.skip(start as int);
        assert forall|k: int| end - start <= k < tail.len() implies is_space(
            #[trigger] tail[k],
        ) by {
            assert(tail[k] == s@[start + k]);
        }
        if end > start {
            assert(tail[end - start - 1] == s@[end - 1]);
        }
        lemma_drop_trailing(tail, end - start);
        assert(tail.take(end - start) =~= s@.subrange(start as int, end as int));
    }
    let out = s.substring_char(start, end);
    out.to_owned()
}

/// Split a free-form query on commas, trim each segment, drop the empty ones.
#[verifier::loop_isolation(false)]
pub fn split_keywords(q: &str) -> (r: Vec<String>)
    ensures
        r.deep_view() == keywords_of(q@),
{
    let n = q.unicode_len();
    let mut segments: Vec<String> = Vec::new();
    let mut seg_start: usize = 0;
    let mut i: usize = 0;
    proof {
        assert(q@.skip(0) =~= q@);
        assert(q@.subrange(0, 0) =~= Seq::<char>::empty());
        assert(segments.deep_view() =~= Seq::<Seq<char>>::empty());
        assert(segments.deep_view() + split_commas_acc(q@, Seq::empty()) =~= split_commas(q@));
    }
    while i < n
        invariant
            0 <= seg_start <= i <= n,
            n == q@.len(),
            segments.deep_view() + split_commas_acc(
                q@.skip(i as int),
                q@.subrange(seg_start as int, i as int),
            ) == split_commas(q@),
        decreases n - i,
    {
        let ghost pre = segments.deep_view();
        let ghost cur = q@.subrange(seg_start as int, i as int);
        proof {
            assert(q@.skip(i as int)[0] == q@[i as int]);
            assert(q@.skip(i as int).drop_first() =~= q@.skip(i + 1));
        }
        let c = q.get_char(i);
        if c == ',' {
            let seg = q.substring_char(seg_start, i);
            segments.push(seg.to_owned());
            seg_start = i + 1;
            proof {
                assert(segments.deep_view() =~= pre.push(cur));
                assert(pre.push(cur) + split_commas_acc(q@.skip(i + 1), Seq::empty()) =~= pre + (
                seq![cur] + split_commas_acc(q@.skip(i + 1), Seq::empty())));
                assert(q@.subrange(i + 1, i + 1) =~= Seq::<char>::empty());
            }
        } else {
            proof {
                assert(cur.push(q@[i as int]) =~= q@.subrange(seg_start as int, i + 1));
            }
        }
        i += 1;
    }
    let last = q.substring_char(seg_start, n);
    segments.push(last.to_owned());
    proof {
        assert(q@.skip(n as int) =~= Seq::<char>::empty());
        assert(segments.deep_view() =~= split_commas(q@));
    }
    let m = segments.len();
    let mut out: Vec<String> = Vec::new();
    let mut k: usize = 0;
    proof {
        assert(segments.deep_view().skip(0) =~= segments.deep_view());
        assert(out.deep_view() + keep_nonempty_trimmed(segments.deep_view()) =~= keywords_of(q@));
    }
    while k < m
        invariant
            0 <= k <= m,
            m == segments@.len(),
            segments.deep_view() == split_commas(q@),
            out.deep_view() + keep_nonempty_trimmed(segments.deep_view().skip(k as int))
                == keywords_of(q@),
        decreases m - k,
    {
        let ghost pre = out.deep_view();
        proof {
            assert(segments.deep_view().skip(k as int)[0] == segments.deep_view()[k as int]);
            assert(segments.deep_view().skip(k as int).drop_first() =~= segments.deep_view().skip(
                k + 1,
            ));
        }
        let t = trim_chars(segments[k].as_str());
        if !t.as_str().is_empty() {
            out.push(t);
            proof {
                assert(out.deep_view() =~= pre.push(spec_trim(segments.deep_view()[k as int])));
                assert(out.deep_view() + keep_nonempty_trimmed(
                    segments.deep_view().skip(k + 1),
                ) =~= keywords_of(q@));
            }
        }
        k += 1;
    }
    proof {
        assert(keep_nonempty_trimmed(segments.deep_view().skip(m as int)) =~= Seq::<
            Seq<char>,
        >::empty());
        assert(out.deep_view() =~= keywords_of(q@));
    }
    out
}

/// Check if a query string looks like a regex pattern.
pub fn is_likely_regex(query: &str) -> (r: bool)
    ensures
        r == spec_is_likely_regex(query@),
{
    let n = query.unicode_len();
    let mut i: usize = 0;
    while i < n
        invariant
            0 <= i <= n,
            n == query@.len(),
            forall|k: int| 0 <= k < i ==> !is_regex_char(#[trigger] query@[k]),
        decreases n - i,
    {
        let c = query.get_char(i);
        if c == '^' || c == '$' || c == '*' || c == '+' || c == '?' || c == '|' || c == '[' || c
            == '(' {
            return true;
        }
        i += 1;
    }
    false
}

fn has_comma(query: &str) -> (r: bool)
    ensures
        r == spec_has_comma(query@),
{
    let n = query.unicode_len();
    let mut i: usize = 0;
    while i < n
        invariant
            0 <= i <= n,
            n == query@.len(),
            forall|k: int| 0 <= k < i ==> #[trigger] query@[k] != ',',
        decreases n - i,
    {
        if query.get_char(i) == ',' {
            return true;
        }
        i += 1;
    }
    false
}

/// Simple search builder for intuitive tool searching.
pub struct SearchBuilder {
    /// The servers one search will query.
    pub servers: Vec<ServerConfig>,
    /// A free-form query, run through mode auto-detection.
    pub query: Option<String>,
    /// Explicit keywords; set, they override the query.
    pub keywords: Option<Vec<String>>,
    /// The options the search will run under.
    pub options: SearchOptions,
}

impl SearchBuilder {
    /// Create a new search builder with server configurations.
    pub fn new(servers: Vec<ServerConfig>) -> (r: Self)
        ensures
            r.servers == servers,
            r.query is None,
            r.keywords is None,
            r.options.timeout == Some(30u64),
            r.options.sort_order == SortOrder::ServerThenTool,
            r.options.continue_on_error,
            r.options.max_results is None,
    {
        SearchBuilder { servers, query: None, keywords: None, options: SearchOptions::default() }
    }

    /// Set the search query (auto-detects search mode).
    pub fn query(self, query: &str) -> (r: Self)
        ensures
            r.query matches Some(q) && q@ == query@,
            r.servers == self.servers,
            r.keywords == self.keywords,
            r.options == self.options,
    {
        SearchBuilder { query: Some(query.to_owned()), ..self }
    }

    /// Set keywords for keyword matching (all must be present).
    pub fn keywords(self, keywords: Vec<String>) -> (r: Self)
        ensures
            r.keywords == Some(keywords),
            r.query is None,
            r.servers == self.servers,
            r.options == self.options,
    {
        SearchBuilder { keywords: Some(keywords), query: None, ..self }
    }

    /// Set maximum number of results.
    pub fn limit(self, max: usize) -> (r: Self)
        ensures
            r.options.max_results == Some(max),
            r.options.timeout == self.options.timeout,
            r.options.sort_order == self.options.sort_order,
            r.options.continue_on_error == self.options.continue_on_error,
            r.servers == self.servers,
            r.query == self.query,
            r.keywords == self.keywords,
    {
        let options = SearchOptions { max_results: Some(max), ..self.options };
        SearchBuilder { options, ..self }
    }

    /// Set timeout in seconds.
    pub fn timeout(self, seconds: u64) -> (r: Self)
        ensures
            r.options.timeout == Some(seconds),
            r.options.max_results == self.options.max_results,
            r.options.sort_order == self.options.sort_order,
            r.options.continue_on_error == self.options.continue_on_error,
            r.servers == self.servers,
            r.query == self.query,
            r.keywords == self.keywords,
    {
        let options = SearchOptions { timeout: Some(seconds), ..self.options };
        SearchBuilder { options, ..self }
    }

    /// Sort results by tool name first, then server.
    pub fn sort_by_tool(self) -> (r: Self)
        ensures
            r.options.sort_order == SortOrder::ToolThenServer,
            r.options.timeout == self.options.timeout,
            r.options.max_results == self.options.max_results,
            r.options.continue_on_error == self.options.continue_on_error,
            r.servers == self.servers,
            r.query == self.query,
            r.keywords == self.keywords,
    {
        let options = SearchOptions { sort_order: SortOrder::ToolThenServer, ..self.options };
        SearchBuilder { options, ..self }
    }

    /// Sort results by server first, then tool (default).
    pub fn sort_by_server(self) -> (r: Self)
        ensures
            r.options.sort_order == SortOrder::ServerThenTool,
            r.options.timeout == self.options.timeout,
            r.options.max_results == self.options.max_results,
            r.options.continue_on_error == self.options.continue_on_error,
            r.servers == self.servers,
            r.query == self.query,
            r.keywords == self.keywords,
    {
        let options = SearchOptions { sort_order: SortOrder::ServerThenTool, ..self.options };
        SearchBuilder { options, ..self }
    }

    /// The criteria this builder stands for: explicit keywords force keyword
    /// mode; else the query is auto-detected as a regex pattern, a
    /// comma-separated keyword list, or a plain substring; with neither, the
    /// criteria matches everything.
    pub fn criteria(&self) -> (r: SearchCriteria)
        ensures
            r.name is None,
            !r.case_sensitive,
            r.min_description_length is None,
            r.fields == (SearchFields {
                name: true,
                title: true,
                description: true,
                input_schema: false,
            }),
            r.wf(),
            self.keywords matches Some(ks) ==> r.mode == SearchMode::Keywords && r.keywords@ == ks@
                && r.query is None,
            self.keywords is None ==> match self.query {
                Some(q) => {
                    &&& spec_is_likely_regex(q@) ==> r.mode == SearchMode::Regex && (r.query
                        matches Some(p) && p@ == q@) && r.keywords@.len() == 0
                    &&& !spec_is_likely_regex(q@) && spec_has_comma(q@) ==> r.mode
                        == SearchMode::Keywords && r.keywords.deep_view() == keywords_of(q@)
                        && r.query is None
                    &&& !spec_is_likely_regex(q@) && !spec_has_comma(q@) ==> r.mode
                        == SearchMode::Substring && (r.query matches Some(p) && p@ == q@)
                        && r.keywords@.len() == 0
                },
                None => r.mode == SearchMode::Substring && r.query is None && r.keywords@.len()
                    == 0,
            },
    {
        match &self.keywords {
            Some(ks) => {
                let copy = ks.clone();
                proof {
                    assert forall|i: int| 0 <= i < ks@.len() implies copy@[i] == ks@[i] by {
                        assert(vstd::pervasive::cloned::<String>(ks[i], copy[i]));
                    }
                    assert(copy@ =~= ks@);
                }
                SearchCriteria::with_keywords(copy)
            },
            None => match &self.query {
                Some(q) => {
                    if is_likely_regex(q.as_str()) {
                        SearchCriteria::with_regex(q.clone())
                    } else if has_comma(q.as_str()) {
                        SearchCriteria::with_keywords(split_keywords(q.as_str()))
                    } else {
                        SearchCriteria::with_query(q.clone())
                    }
                },
                None => SearchCriteria::match_all(),
            },
        }
    }
}

} // verus!
