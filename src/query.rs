//! The tracker search: the expression that asks for every extracted key once.
use vstd::prelude::*;
use vstd::string::*;
use crate::key::opt_view;
use crate::response::pair_views;

verus! {

/// The distinct keys among `ks`, in the order in which each is first seen.
pub open spec fn distinct_keys(ks: Seq<Option<Seq<char>>>) -> Seq<Seq<char>>
    decreases ks.len(),
{
    if ks.len() == 0 {
        Seq::empty()
    } else {
        let prev = distinct_keys(ks.drop_last());
        match ks.last() {
            Some(k) => if prev.contains(k) {
                prev
            } else {
                prev.push(k)
            },
            None => prev,
        }
    }
}

/// The items of `xs`, separated by commas.
pub open spec fn join_commas(xs: Seq<Seq<char>>) -> Seq<char>
    decreases xs.len(),
{
    if xs.len() == 0 {
        Seq::empty()
    } else if xs.len() == 1 {
        xs[0]
    } else {
        join_commas(xs.drop_last()) + seq![','] + xs.last()
    }
}

pub open spec fn key_views(ks: Seq<Option<String>>) -> Seq<Option<Seq<char>>> {
    ks.map_values(|o: Option<String>| opt_view(o))
}

/// `key in (K1,K2,...)` over the distinct keys, in first-seen order.
pub open spec fn search_expression_of(ks: Seq<Option<Seq<char>>>) -> Seq<char> {
    "key in ("@ + join_commas(distinct_keys(ks)) + ")"@
}

/// The distinct keys among `keys`, in the order in which each is first seen.
pub fn distinct_keys_of(keys: &Vec<Option<String>>) -> (r: Vec<String>)
    ensures
        r@.map_values(|k: String| k@) == distinct_keys(key_views(keys@)),
{
    let mut r: Vec<String> = Vec::new();
    let mut i: usize = 0;
    while i < keys.len()
        invariant
            i <= keys@.len(),
            r@.map_values(|k: String| k@) == distinct_keys(key_views(keys@).subrange(0, i as int)),
        decreases keys@.len() - i,
    {
        let ghost before = r@.map_values(|k: String| k@);
        assert(key_views(keys@).subrange(0, i + 1).drop_last() == key_views(keys@).subrange(0, i as int));
        match &keys[i] {
            Some(k) => {
                let mut seen = false;
                let mut j: usize = 0;
                while j < r.len()
                    invariant
                        j <= r@.len(),
                        seen == exists|m: int| 0 <= m < j && r@[m]@ == k@,
                    decreases r@.len() - j,
                {
                    if r[j].eq(k) {
                        seen = true;
                    }
                    j = j + 1;
                }
                if seen {
                    proof {
                        let m = choose|m: int| 0 <= m < r@.len() && r@[m]@ == k@;
                        assert(before[m] == k@);
                    }
                } else {
                    proof {
                        assert forall|m: int| 0 <= m < before.len() implies before[m] != k@ by {
                            assert(before[m] == r@[m]@);
                        }
                    }
                    r.push(k.clone());
                    assert(r@.map_values(|k: String| k@) == before.push(k@));
                }
            },
            None => {},
        }
        i = i + 1;
    }
    assert(key_views(keys@).subrange(0, keys@.len() as int) == key_views(keys@));
    r
}

/// The search expression for the keys extracted from the branch names:
/// `key in (K1,K2,...)`, each distinct key once, in first-seen order.
pub fn search_expression(keys: &Vec<Option<String>>) -> (r: String)
    ensures
        r@ == search_expression_of(key_views(keys@)),
{
    let ks = distinct_keys_of(keys);
    let ghost kv = ks@.map_values(|k: String| k@);
    let mut r = String::from_str("key in (");
    let mut i: usize = 0;
    proof {
        reveal_strlit("key in (");
    }
    while i < ks.len()
        invariant
            i <= ks@.len(),
            kv == ks@.map_values(|k: String| k@),
            r@ == "key in ("@ + join_commas(kv.subrange(0, i as int)),
        decreases ks@.len() - i,
    {
        assert(kv.subrange(0, i + 1).drop_last() == kv.subrange(0, i as int));
        if i > 0 {
            r.append(",");
            proof {
                reveal_strlit(",");
            }
        }
        r.append(ks[i].as_str());
        proof {
            if i == 0 {
                assert(join_commas(kv.subrange(0, 1)) == kv[0]);
            }
            assert(("key in ("@ + join_commas(kv.subrange(0, i as int))) + seq![','] + kv[i as int]
                == "key in ("@ + (join_commas(kv.subrange(0, i as int)) + seq![','] + kv[i as int]));
        }
        assert(r@ == "key in ("@ + join_commas(kv.subrange(0, i + 1)));
        i = i + 1;
    }
    assert(kv.subrange(0, ks@.len() as int) == kv);
    r.append(")");
    r
}

/// The URL that `path` gives when resolved against the absolute URL `base`.
pub uninterp spec fn url_joined(base: Seq<char>, path: Seq<char>) -> Option<Seq<char>>;

/// The absolute URL `url` with the pairs `params` added to its query.
pub uninterp spec fn url_with_params(url: Seq<char>, params: Seq<(Seq<char>, Seq<char>)>) -> Option<Seq<char>>;

/// Relies on url::Url::parse and url::Url::join: the base is read as an
/// absolute URL and `path` resolved against it; none where either fails.
#[verifier::external_body]
fn join_url(base: &str, path: &str) -> (r: Option<String>)
    ensures
        opt_view(r) == url_joined(base@, path@),
{
    match url::Url::parse(base) {
        Ok(b) => match b.join(path) {
            Ok(u) => Some(u.into_string()),
            Err(_) => None,
        },
        Err(_) => None,
    }
}

/// Relies on url::Url::parse_with_params: the URL is read and each pair is
/// appended to its query, form-encoded; none where the URL does not parse.
#[verifier::external_body]
fn add_query_params(url: &str, params: &Vec<(String, String)>) -> (r: Option<String>)
    ensures
        opt_view(r) == url_with_params(url@, pair_views(params@)),
{
    match url::Url::parse_with_params(url, params.iter().map(|p| (p.0.as_str(), p.1.as_str()))) {
        Ok(u) => Some(u.into_string()),
        Err(_) => None,
    }
}

/// The URL of the search: `path` below the tracker's base URL, with `params`
/// as its query; none when the base URL is not a valid absolute URL.
pub fn search_url(base_url: &str, path: &str, params: &Vec<(String, String)>) -> (r: Option<String>)
    ensures
        opt_view(r) == match url_joined(base_url@, path@) {
            Some(u) => url_with_params(u, pair_views(params@)),
            None => None,
        },
{
    match join_url(base_url, path) {
        Some(u) => add_query_params(u.as_str(), params),
        None => None,
    }
}

} // verus!
