//! The `branch` report: branch names joined with the summaries of their keys.
use vstd::prelude::*;
use vstd::string::*;
use crate::key::{extract_keys, first_key, opt_view};
use crate::query::{key_views, search_expression, search_expression_of};
use crate::response::{pair_views, response_summaries, summaries_from_response, JsonValue, ResponseError, SummaryMap};

verus! {

/// `l` without one trailing carriage return.
pub open spec fn strip_cr(l: Seq<char>) -> Seq<char> {
    if l.len() > 0 && l.last() == '\r' {
        l.drop_last()
    } else {
        l
    }
}

/// The lines of `s` from position `i`, `cur` being the part of the current
/// line read so far: a line ends at `\n` (and a `\r` before it goes too); a
/// last line without `\n` counts when it is not empty.
pub open spec fn lines_from(s: Seq<char>, i: int, cur: Seq<char>) -> Seq<Seq<char>>
    decreases s.len() - i,
{
    if i < 0 || i >= s.len() {
        if cur.len() == 0 {
            Seq::empty()
        } else {
            seq![cur]
        }
    } else if s[i] == '\n' {
        seq![strip_cr(cur)] + lines_from(s, i + 1, Seq::empty())
    } else {
        lines_from(s, i + 1, cur.push(s[i]))
    }
}

pub open spec fn lines_of(s: Seq<char>) -> Seq<Seq<char>> {
    lines_from(s, 0, Seq::empty())
}

pub open spec fn string_views(v: Seq<String>) -> Seq<Seq<char>> {
    v.map_values(|l: String| l@)
}

/// Splits the output of the branch listing into one name per line.
pub fn split_lines(text: &str) -> (r: Vec<String>)
    ensures
        string_views(r@) == lines_of(text@),
{
    let n = text.unicode_len();
    let mut r: Vec<String> = Vec::new();
    let mut start: usize = 0;
    let mut i: usize = 0;
    assert(text@.subrange(0, 0) =~= Seq::<char>::empty());
    assert(string_views(r@) + lines_of(text@) =~= lines_of(text@));
    while i < n
        invariant
            n == text@.len(),
            start <= i <= n,
            string_views(r@) + lines_from(text@, i as int, text@.subrange(start as int, i as int))
                == lines_of(text@),
        decreases n - i,
    {
        let c = text.get_char(i);
        let ghost cur = text@.subrange(start as int, i as int);
        if c == '\n' {
            let mut line = text.substring_char(start, i);
            if i > start && text.get_char(i - 1) == '\r' {
                line = text.substring_char(start, i - 1);
                assert(line@ == cur.drop_last());
            }
            let ghost before = string_views(r@);
            r.push(String::from_str(line));
            assert(string_views(r@) == before.push(strip_cr(cur)));
            assert(before + lines_from(text@, i as int, cur) == before.push(strip_cr(cur)) + lines_from(
                text@,
                i + 1,
                Seq::empty(),
            ));
            start = i + 1;
            assert(text@.subrange(start as int, i + 1) =~= Seq::<char>::empty());
        } else {
            assert(text@.subrange(start as int, i + 1) == cur.push(c));
        }
        i = i + 1;
    }
    if start < n {
        r.push(String::from_str(text.substring_char(start, n)));
    }
    proof {
        let cur = text@.subrange(start as int, n as int);
        if start >= n {
            assert(cur.len() == 0);
            assert(string_views(r@) + Seq::<Seq<char>>::empty() == string_views(r@));
        }
    }
    r
}

/// What the `branch` command does once the branch listing has run.
pub enum BranchPlan {
    /// The listing failed: its error output is passed on and nothing more is done.
    ForwardError,
    /// Ask the tracker for the summaries of `keys`, then report on `branches`.
    Query { branches: Vec<String>, keys: Vec<Option<String>>, path: String, params: Vec<(String, String)> },
}

/// The tracker's search path, below the base URL.
pub open spec fn search_path() -> Seq<char> {
    "/rest/api/2/search"@
}

/// The query of the search: the expression and the one field asked for.
pub open spec fn search_params(ks: Seq<Option<Seq<char>>>) -> Seq<(Seq<char>, Seq<char>)> {
    seq![("jql"@, search_expression_of(ks)), ("fields"@, "summary"@)]
}

/// Decides the `branch` command from the branch listing's exit status and
/// output: on failure nothing further happens, on success one search is made
/// for the keys of the listed branches.
pub fn plan_branch(listing_succeeded: bool, listing: &str) -> (r: BranchPlan)
    ensures
        !listing_succeeded <==> r is ForwardError,
        r matches BranchPlan::Query { branches, keys, path, params } ==> {
            &&& string_views(branches@) == lines_of(listing@)
            &&& keys@.len() == branches@.len()
            &&& forall|i: int| 0 <= i < keys@.len() ==> opt_view(#[trigger] keys@[i]) == first_key(branches@[i]@)
            &&& path@ == search_path()
            &&& pair_views(params@) == search_params(key_views(keys@))
        },
{
    if !listing_succeeded {
        return BranchPlan::ForwardError;
    }
    let branches = split_lines(listing);
    let keys = extract_keys(&branches);
    let expression = search_expression(&keys);
    let mut params: Vec<(String, String)> = Vec::new();
    params.push((String::from_str("jql"), expression));
    params.push((String::from_str("fields"), String::from_str("summary")));
    assert(pair_views(params@) =~= search_params(key_views(keys@)));
    BranchPlan::Query { branches, keys, path: String::from_str("/rest/api/2/search"), params }
}

/// One report line: the branch name, a space and a tab, then the summary.
pub open spec fn report_line(branch: Seq<char>, summary: Seq<char>) -> Seq<char> {
    branch + " \t"@ + summary
}

/// The summary shown for a key: none for no key.
pub open spec fn summary_of(k: Option<Seq<char>>, m: Map<Seq<char>, Seq<char>>) -> Seq<char> {
    match k {
        Some(k) => m[k],
        None => Seq::empty(),
    }
}

pub open spec fn covered(k: Option<Seq<char>>, m: Map<Seq<char>, Seq<char>>) -> bool {
    k matches Some(k) ==> m.contains_key(k)
}

/// The report on `bs`, whose keys are `ks`, given the summaries `m`.
pub open spec fn report_of(bs: Seq<Seq<char>>, ks: Seq<Option<Seq<char>>>, m: Map<Seq<char>, Seq<char>>) -> Seq<Seq<char>> {
    Seq::new(bs.len(), |i: int| report_line(bs[i], summary_of(ks[i], m)))
}

/// Why no report could be made.
#[derive(Debug, PartialEq, Eq)]
pub enum ReportError {
    /// The search response could not be read.
    Response(ResponseError),
    /// A branch's key has no summary in the response.
    MissingSummary(String),
}

/// The report lines, one per branch in listing order; a key with no summary
/// in `summaries` is an error, and the first such key is returned.
pub fn report_lines(branches: &Vec<String>, keys: &Vec<Option<String>>, summaries: &SummaryMap) -> (r: Result<
    Vec<String>,
    String,
>)
    requires
        keys@.len() == branches@.len(),
    ensures
        r is Ok <==> forall|i: int| 0 <= i < keys@.len() ==> covered(opt_view(#[trigger] keys@[i]), summaries@),
        r matches Ok(lines) ==> string_views(lines@) == report_of(string_views(branches@), key_views(keys@), summaries@),
        r matches Err(k) ==> exists|i: int|
            0 <= i < keys@.len() && opt_view(#[trigger] keys@[i]) == Some(k@) && !summaries@.contains_key(k@)
                && forall|j: int| 0 <= j < i ==> covered(opt_view(#[trigger] keys@[j]), summaries@),
{
    let mut lines: Vec<String> = Vec::new();
    let mut i: usize = 0;
    proof {
        reveal_strlit(" \t");
    }
    while i < branches.len()
        invariant
            keys@.len() == branches@.len(),
            i <= branches@.len(),
            lines@.len() == i,
            forall|j: int| 0 <= j < i ==> covered(opt_view(#[trigger] keys@[j]), summaries@),
            forall|j: int| 0 <= j < i ==> (#[trigger] lines@[j])@ == report_line(branches@[j]@, summary_of(opt_view(keys@[j]), summaries@)),
        decreases branches@.len() - i,
    {
        let summary = match &keys[i] {
            Some(k) => match summaries.get(k) {
                Some(s) => s,
                None => {
                    return Err(k.clone());
                },
            },
            None => String::new(),
        };
        let line = String::from_str(branches[i].as_str()).concat(" \t").concat(summary.as_str());
        lines.push(line);
        i = i + 1;
    }
    assert(string_views(lines@) =~= report_of(string_views(branches@), key_views(keys@), summaries@));
    Ok(lines)
}

/// The report of the `branch` command from the tracker's search response.
pub fn branch_report(branches: &Vec<String>, keys: &Vec<Option<String>>, response: &JsonValue) -> (r: Result<
    Vec<String>,
    ReportError,
>)
    requires
        keys@.len() == branches@.len(),
    ensures
        match response_summaries(*response) {
            Err(e) => r == Err::<Vec<String>, ReportError>(ReportError::Response(e)),
            Ok(m) => {
                &&& r is Ok <==> forall|i: int| 0 <= i < keys@.len() ==> covered(opt_view(#[trigger] keys@[i]), m)
                &&& r matches Ok(lines) ==> string_views(lines@) == report_of(string_views(branches@), key_views(keys@), m)
                &&& r matches Err(e) ==> e matches ReportError::MissingSummary(k) && exists|i: int|
                    0 <= i < keys@.len() && opt_view(#[trigger] keys@[i]) == Some(k@) && !m.contains_key(k@)
                        && forall|j: int| 0 <= j < i ==> covered(opt_view(#[trigger] keys@[j]), m)
            },
        },
{
    match summaries_from_response(response) {
        Err(e) => Err(ReportError::Response(e)),
        Ok(m) => match report_lines(branches, keys, &m) {
            Ok(lines) => Ok(lines),
            Err(k) => Err(ReportError::MissingSummary(k)),
        },
    }
}

} // verus!
