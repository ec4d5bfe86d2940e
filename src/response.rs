//! The tracker's search response, read into a mapping from issue key to
//! summary.
use vstd::prelude::*;
use vstd::string::*;
use crate::key::opt_view;

verus! {

/// A JSON value, holding what the search response is read for. Numbers are
/// kept as a bare marker: nothing here reads them.
pub enum JsonValue {
    Null,
    Bool(bool),
    Number,
    Text(String),
    Array(Vec<JsonValue>),
    Object(Vec<(String, JsonValue)>),
}

/// Why a search response could not be read.
#[derive(Debug, PartialEq, Eq, Clone, Copy)]
pub enum ResponseError {
    /// The response has no `issues` array.
    MissingIssues,
    /// The issue at this position lacks a `key` text or a `fields.summary` text.
    MalformedIssue(usize),
}

/// The value of the first member named `name` at or after position `j`.
pub open spec fn member_from(fs: Seq<(String, JsonValue)>, name: Seq<char>, j: int) -> Option<JsonValue>
    decreases fs.len() - j,
{
    if j < 0 || j >= fs.len() {
        None
    } else if fs[j].0@ == name {
        Some(fs[j].1)
    } else {
        member_from(fs, name, j + 1)
    }
}

/// The member `name` of an object; none for any other value.
pub open spec fn member(v: JsonValue, name: Seq<char>) -> Option<JsonValue> {
    match v {
        JsonValue::Object(fs) => member_from(fs@, name, 0),
        _ => None,
    }
}

pub open spec fn text_of(v: Option<JsonValue>) -> Option<Seq<char>> {
    match v {
        Some(JsonValue::Text(s)) => Some(s@),
        _ => None,
    }
}

/// The key and summary of one issue: `{"key": K, "fields": {"summary": S}}`.
pub open spec fn issue_entry(e: JsonValue) -> Option<(Seq<char>, Seq<char>)> {
    let k = text_of(member(e, "key"@));
    let s = match member(e, "fields"@) {
        Some(f) => text_of(member(f, "summary"@)),
        None => None,
    };
    if k is Some && s is Some {
        Some((k->0, s->0))
    } else {
        None
    }
}

pub open spec fn issues_of(v: JsonValue) -> Option<Seq<JsonValue>> {
    match member(v, "issues"@) {
        Some(JsonValue::Array(a)) => Some(a@),
        _ => None,
    }
}

/// The position of the first issue that is not well formed.
pub open spec fn first_malformed(es: Seq<JsonValue>, i: int) -> Option<int>
    decreases es.len() - i,
{
    if i < 0 || i >= es.len() {
        None
    } else if issue_entry(es[i]) is None {
        Some(i)
    } else {
        first_malformed(es, i + 1)
    }
}

/// The mapping that the (key, summary) pairs give, a later pair replacing an
/// earlier one with the same key.
pub open spec fn entries_map(ps: Seq<(Seq<char>, Seq<char>)>) -> Map<Seq<char>, Seq<char>>
    decreases ps.len(),
{
    if ps.len() == 0 {
        Map::empty()
    } else {
        entries_map(ps.drop_last()).insert(ps.last().0, ps.last().1)
    }
}

/// The summaries that a search response gives, or why it gives none.
pub open spec fn response_summaries(v: JsonValue) -> Result<Map<Seq<char>, Seq<char>>, ResponseError> {
    match issues_of(v) {
        None => Err(ResponseError::MissingIssues),
        Some(es) => match first_malformed(es, 0) {
            Some(i) => Err(ResponseError::MalformedIssue(i as usize)),
            None => Ok(entries_map(es.map_values(|e: JsonValue| issue_entry(e)->0))),
        },
    }
}

/// A mapping from issue key to summary text.
pub struct SummaryMap {
    entries: Vec<(String, String)>,
}

pub open spec fn pair_views(es: Seq<(String, String)>) -> Seq<(Seq<char>, Seq<char>)> {
    es.map_values(|p: (String, String)| (p.0@, p.1@))
}

impl View for SummaryMap {
    type V = Map<Seq<char>, Seq<char>>;

    closed spec fn view(&self) -> Map<Seq<char>, Seq<char>> {
        entries_map(pair_views(self.entries@))
    }
}

impl SummaryMap {
    pub fn new() -> (r: SummaryMap)
        ensures
            r@ == Map::<Seq<char>, Seq<char>>::empty(),
    {
        SummaryMap { entries: Vec::new() }
    }

    /// Sets the summary of `key`, replacing any earlier one.
    pub fn insert(&mut self, key: String, summary: String)
        ensures
            final(self)@ == old(self)@.insert(key@, summary@),
    {
        let ghost before = self.entries@;
        self.entries.push((key, summary));
        assert(pair_views(self.entries@).drop_last() == pair_views(before));
    }

    /// The summary of `key`, if it has one.
    pub fn get(&self, key: &String) -> (r: Option<String>)
        ensures
            r matches Some(s) ==> self@.contains_key(key@) && s@ == self@[key@],
            r is None ==> !self@.contains_key(key@),
    {
        let mut j: usize = self.entries.len();
        assert(pair_views(self.entries@).subrange(0, j as int) == pair_views(self.entries@));
        while j > 0
            invariant
                j <= self.entries@.len(),
                entries_map(pair_views(self.entries@)).get(key@) == entries_map(
                    pair_views(self.entries@).subrange(0, j as int),
                ).get(key@),
            decreases j,
        {
            let ghost pre = pair_views(self.entries@).subrange(0, j as int);
            assert(pre.drop_last() == pair_views(self.entries@).subrange(0, j - 1));
            if self.entries[j - 1].0.eq(key) {
                return Some(self.entries[j - 1].1.clone());
            }
            j = j - 1;
        }
        None
    }
}

/// The first member named `name` of an object.
pub fn find_member<'a>(v: &'a JsonValue, name: &String) -> (r: Option<&'a JsonValue>)
    ensures
        match r {
            Some(x) => member(*v, name@) == Some(*x),
            None => member(*v, name@) is None,
        },
{
    match v {
        JsonValue::Object(fs) => {
            assert(member(*v, name@) == member_from(fs@, name@, 0));
            let mut j: usize = 0;
            while j < fs.len()
                invariant
                    j <= fs@.len(),
                    member(*v, name@) == member_from(fs@, name@, j as int),
                decreases fs@.len() - j,
            {
                let e = &fs[j];
                if e.0.eq(name) {
                    assert(member_from(fs@, name@, j as int) == Some(e.1));
                    return Some(&e.1);
                }
                j = j + 1;
            }
            None
        },
        _ => None,
    }
}

fn text_exec(v: Option<&JsonValue>) -> (r: Option<String>)
    ensures
        match v {
            Some(x) => opt_view(r) == text_of(Some(*x)),
            None => r is None,
        },
{
    match v {
        Some(JsonValue::Text(s)) => Some(s.clone()),
        _ => None,
    }
}

/// The key and summary of one issue of the response.
pub fn read_issue(e: &JsonValue) -> (r: Option<(String, String)>)
    ensures
        match r {
            Some(p) => issue_entry(*e) == Some((p.0@, p.1@)),
            None => issue_entry(*e) is None,
        },
{
    let key = text_exec(find_member(e, &String::from_str("key")));
    let summary = match find_member(e, &String::from_str("fields")) {
        Some(f) => text_exec(find_member(f, &String::from_str("summary"))),
        None => None,
    };
    match (key, summary) {
        (Some(k), Some(s)) => Some((k, s)),
        _ => None,
    }
}

/// Reads a search response: `{"issues": [{"key": K, "fields": {"summary": S}}, ...]}`.
pub fn summaries_from_response(v: &JsonValue) -> (r: Result<SummaryMap, ResponseError>)
    ensures
        match (r, response_summaries(*v)) {
            (Ok(m), Ok(want)) => m@ == want,
            (Err(e), Err(want)) => e == want,
            _ => false,
        },
{
    let issues = match find_member(v, &String::from_str("issues")) {
        Some(JsonValue::Array(a)) => a,
        _ => {
            return Err(ResponseError::MissingIssues);
        },
    };
    let ghost es = issues@;
    let mut map = SummaryMap::new();
    let mut i: usize = 0;
    while i < issues.len()
        invariant
            issues_of(*v) == Some(es),
            es == issues@,
            i <= es.len(),
            first_malformed(es, 0) == first_malformed(es, i as int),
            map@ == entries_map(es.subrange(0, i as int).map_values(|e: JsonValue| issue_entry(e)->0)),
        decreases es.len() - i,
    {
        match read_issue(&issues[i]) {
            Some((k, s)) => {
                let ghost pre = es.subrange(0, i + 1).map_values(|e: JsonValue| issue_entry(e)->0);
                assert(pre.drop_last() == es.subrange(0, i as int).map_values(|e: JsonValue| issue_entry(e)->0));
                map.insert(k, s);
            },
            None => {
                return Err(ResponseError::MalformedIssue(i));
            },
        }
        i = i + 1;
    }
    assert(es.subrange(0, es.len() as int) == es);
    Ok(map)
}

} // verus!
