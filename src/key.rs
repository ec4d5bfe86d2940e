//! Issue keys: one or more uppercase ASCII letters, a hyphen, one or more
//! decimal digits (`PROJ-123`, `[A-Z]+-\d+`), found in branch names.
use vstd::prelude::*;

verus! {

pub open spec fn is_upper(c: char) -> bool {
    'A' <= c && c <= 'Z'
}

pub open spec fn in_range(c: char, lo: char, hi: char) -> bool {
    lo <= c && c <= hi
}

/// A decimal digit: a character of Unicode's general category `Nd`
/// (`\p{Nd}`), which is what `\d` matches.
pub open spec fn is_digit(c: char) -> bool {
    in_range(c, '\u{30}', '\u{39}')
        || in_range(c, '\u{660}', '\u{669}')
        || in_range(c, '\u{6f0}', '\u{6f9}')
        || in_range(c, '\u{7c0}', '\u{7c9}')
        || in_range(c, '\u{966}', '\u{96f}')
        || in_range(c, '\u{9e6}', '\u{9ef}')
        || in_range(c, '\u{a66}', '\u{a6f}')
        || in_range(c, '\u{ae6}', '\u{aef}')
        || in_range(c, '\u{b66}', '\u{b6f}')
        || in_range(c, '\u{be6}', '\u{bef}')
        || in_range(c, '\u{c66}', '\u{c6f}')
        || in_range(c, '\u{ce6}', '\u{cef}')
        || in_range(c, '\u{d66}', '\u{d6f}')
        || in_range(c, '\u{de6}', '\u{def}')
        || in_range(c, '\u{e50}', '\u{e59}')
        || in_range(c, '\u{ed0}', '\u{ed9}')
        || in_range(c, '\u{f20}', '\u{f29}')
        || in_range(c, '\u{1040}', '\u{1049}')
        || in_range(c, '\u{1090}', '\u{1099}')
        || in_range(c, '\u{17e0}', '\u{17e9}')
        || in_range(c, '\u{1810}', '\u{1819}')
        || in_range(c, '\u{1946}', '\u{194f}')
        || in_range(c, '\u{19d0}', '\u{19d9}')
        || in_range(c, '\u{1a80}', '\u{1a89}')
        || in_range(c, '\u{1a90}', '\u{1a99}')
        || in_range(c, '\u{1b50}', '\u{1b59}')
        || in_range(c, '\u{1bb0}', '\u{1bb9}')
        || in_range(c, '\u{1c40}', '\u{1c49}')
        || in_range(c, '\u{1c50}', '\u{1c59}')
        || in_range(c, '\u{a620}', '\u{a629}')
        || in_range(c, '\u{a8d0}', '\u{a8d9}')
        || in_range(c, '\u{a900}', '\u{a909}')
        || in_range(c, '\u{a9d0}', '\u{a9d9}')
        || in_range(c, '\u{a9f0}', '\u{a9f9}')
        || in_range(c, '\u{aa50}', '\u{aa59}')
        || in_range(c, '\u{abf0}', '\u{abf9}')
        || in_range(c, '\u{ff10}', '\u{ff19}')
        || in_range(c, '\u{104a0}', '\u{104a9}')
        || in_range(c, '\u{10d30}', '\u{10d39}')
        || in_range(c, '\u{10d40}', '\u{10d49}')
        || in_range(c, '\u{11066}', '\u{1106f}')
        || in_range(c, '\u{110f0}', '\u{110f9}')
        || in_range(c, '\u{11136}', '\u{1113f}')
        || in_range(c, '\u{111d0}', '\u{111d9}')
        || in_range(c, '\u{112f0}', '\u{112f9}')
        || in_range(c, '\u{11450}', '\u{11459}')
        || in_range(c, '\u{114d0}', '\u{114d9}')
        || in_range(c, '\u{11650}', '\u{11659}')
        || in_range(c, '\u{116c0}', '\u{116c9}')
        || in_range(c, '\u{116d0}', '\u{116e3}')
        || in_range(c, '\u{11730}', '\u{11739}')
        || in_range(c, '\u{118e0}', '\u{118e9}')
        || in_range(c, '\u{11950}', '\u{11959}')
        || in_range(c, '\u{11bf0}', '\u{11bf9}')
        || in_range(c, '\u{11c50}', '\u{11c59}')
        || in_range(c, '\u{11d50}', '\u{11d59}')
        || in_range(c, '\u{11da0}', '\u{11da9}')
        || in_range(c, '\u{11f50}', '\u{11f59}')
        || in_range(c, '\u{16130}', '\u{16139}')
        || in_range(c, '\u{16a60}', '\u{16a69}')
        || in_range(c, '\u{16ac0}', '\u{16ac9}')
        || in_range(c, '\u{16b50}', '\u{16b59}')
        || in_range(c, '\u{16d70}', '\u{16d79}')
        || in_range(c, '\u{1ccf0}', '\u{1ccf9}')
        || in_range(c, '\u{1d7ce}', '\u{1d7ff}')
        || in_range(c, '\u{1e140}', '\u{1e149}')
        || in_range(c, '\u{1e2f0}', '\u{1e2f9}')
        || in_range(c, '\u{1e4f0}', '\u{1e4f9}')
        || in_range(c, '\u{1e5f1}', '\u{1e5fa}')
        || in_range(c, '\u{1e950}', '\u{1e959}')
        || in_range(c, '\u{1fbf0}', '\u{1fbf9}')
}

/// `t` is an issue key as a whole: letters, a hyphen, digits.
pub open spec fn is_key(t: Seq<char>) -> bool {
    exists|h: int|
        0 < h < t.len() - 1 && t[h] == '-' && (forall|j: int| 0 <= j < h ==> is_upper(#[trigger] t[j]))
            && (forall|j: int| h < j < t.len() ==> is_digit(#[trigger] t[j]))
}

/// `s[i..j]` is an issue key.
pub open spec fn key_between(s: Seq<char>, i: int, j: int) -> bool {
    0 <= i < j <= s.len() && is_key(s.subrange(i, j))
}

/// The end of the run of uppercase letters that starts at `i`.
pub open spec fn upper_run_end(s: Seq<char>, i: int) -> int
    decreases s.len() - i,
{
    if 0 <= i < s.len() && is_upper(s[i]) {
        upper_run_end(s, i + 1)
    } else {
        i
    }
}

/// The end of the run of decimal digits that starts at `i`.
pub open spec fn digit_run_end(s: Seq<char>, i: int) -> int
    decreases s.len() - i,
{
    if 0 <= i < s.len() && is_digit(s[i]) {
        digit_run_end(s, i + 1)
    } else {
        i
    }
}

/// Some issue key starts at position `i` of `s`.
pub open spec fn key_starts_at(s: Seq<char>, i: int) -> bool {
    &&& 0 <= i < s.len()
    &&& is_upper(s[i])
    &&& upper_run_end(s, i) + 1 < s.len()
    &&& s[upper_run_end(s, i)] == '-'
    &&& is_digit(s[upper_run_end(s, i) + 1])
}

/// Where the longest issue key that starts at `i` ends.
pub open spec fn key_end(s: Seq<char>, i: int) -> int {
    digit_run_end(s, upper_run_end(s, i) + 1)
}

/// The leftmost, longest issue key at or after position `i`.
pub open spec fn first_key_from(s: Seq<char>, i: int) -> Option<Seq<char>>
    decreases s.len() - i,
{
    if i < 0 || i >= s.len() {
        None
    } else if key_starts_at(s, i) {
        Some(s.subrange(i, key_end(s, i)))
    } else {
        first_key_from(s, i + 1)
    }
}

/// The issue key that a branch name refers to: its leftmost, longest one.
pub open spec fn first_key(s: Seq<char>) -> Option<Seq<char>> {
    first_key_from(s, 0)
}

pub open spec fn opt_view(o: Option<String>) -> Option<Seq<char>> {
    match o {
        Some(k) => Some(k@),
        None => None,
    }
}

proof fn lemma_upper_run(s: Seq<char>, i: int)
    requires
        0 <= i <= s.len(),
    ensures
        i <= upper_run_end(s, i) <= s.len(),
        forall|j: int| i <= j < upper_run_end(s, i) ==> is_upper(#[trigger] s[j]),
        upper_run_end(s, i) == s.len() || !is_upper(s[upper_run_end(s, i)]),
    decreases s.len() - i,
{
    if i < s.len() && is_upper(s[i]) {
        lemma_upper_run(s, i + 1);
    }
}

proof fn lemma_digit_run(s: Seq<char>, i: int)
    requires
        0 <= i <= s.len(),
    ensures
        i <= digit_run_end(s, i) <= s.len(),
        forall|j: int| i <= j < digit_run_end(s, i) ==> is_digit(#[trigger] s[j]),
        digit_run_end(s, i) == s.len() || !is_digit(s[digit_run_end(s, i)]),
    decreases s.len() - i,
{
    if i < s.len() && is_digit(s[i]) {
        lemma_digit_run(s, i + 1);
    }
}

/// A key starts at `i` exactly when some key occupies `s[i..j]`, and the
/// longest such `j` is `key_end(s, i)`.
proof fn lemma_key_at(s: Seq<char>, i: int)
    requires
        0 <= i < s.len(),
    ensures
        key_starts_at(s, i) ==> key_between(s, i, key_end(s, i)),
        forall|j: int| #[trigger] key_between(s, i, j) ==> key_starts_at(s, i) && j <= key_end(s, i),
{
    lemma_upper_run(s, i);
    let e = upper_run_end(s, i);
    if key_starts_at(s, i) {
        lemma_digit_run(s, e + 1);
        let t = s.subrange(i, key_end(s, i));
        let h = e - i;
        assert forall|j: int| 0 <= j < h implies is_upper(#[trigger] t[j]) by {
            assert(t[j] == s[i + j]);
        }
        assert forall|j: int| h < j < t.len() implies is_digit(#[trigger] t[j]) by {
            assert(t[j] == s[i + j]);
        }
        assert(t[h] == s[e]);
    }
    assert forall|j: int| #[trigger] key_between(s, i, j) implies key_starts_at(s, i) && j <= key_end(s, i) by {
        let t = s.subrange(i, j);
        let h = choose|h: int|
            0 < h < t.len() - 1 && t[h] == '-' && (forall|k: int| 0 <= k < h ==> is_upper(#[trigger] t[k]))
                && (forall|k: int| h < k < t.len() ==> is_digit(#[trigger] t[k]));
        assert(t[0] == s[i]);
        assert(t[h] == s[i + h]);
        // the letters run up to the hyphen, and no further
        assert forall|k: int| i <= k < i + h implies is_upper(#[trigger] s[k]) by {
            assert(t[k - i] == s[k]);
        }
        if e < i + h {
            assert(t[e - i] == s[e]);
        }
        assert(e == i + h);
        assert(t[h + 1] == s[e + 1]);
        lemma_digit_run(s, e + 1);
        let d = digit_run_end(s, e + 1);
        if d < j {
            assert(t[d - i] == s[d]);
        }
    }
}

/// What `first_key_from` finds: the first position at or after `i` where a
/// key starts, with its longest key.
proof fn lemma_first_key_from(s: Seq<char>, i: int)
    requires
        0 <= i <= s.len(),
    ensures
        first_key_from(s, i) is None ==> forall|q: int| i <= q < s.len() ==> !key_starts_at(s, q),
        first_key_from(s, i) is Some ==> exists|p: int|
            #![trigger key_starts_at(s, p)]
            i <= p < s.len() && key_starts_at(s, p) && first_key_from(s, i) == Some(
                s.subrange(p, key_end(s, p)),
            ) && forall|q: int| i <= q < p ==> !key_starts_at(s, q),
    decreases s.len() - i,
{
    if i < s.len() && !key_starts_at(s, i) {
        lemma_first_key_from(s, i + 1);
    }
}

/// The extracted key is the leftmost substring that is an issue key, taken as
/// long as it goes; there is none exactly when no substring is an issue key.
pub proof fn lemma_first_key_is_leftmost_match(s: Seq<char>)
    ensures
        first_key(s) is None <==> !(exists|i: int, j: int| key_between(s, i, j)),
        first_key(s) is Some ==> exists|i: int|
            #![trigger key_between(s, i, i + first_key(s)->0.len())]
            key_between(s, i, i + first_key(s)->0.len()) && s.subrange(i, i + first_key(s)->0.len())
                == first_key(s)->0 && (forall|i2: int, j2: int| key_between(s, i2, j2) ==> i <= i2)
                && (forall|j2: int| key_between(s, i, j2) ==> j2 <= i + first_key(s)->0.len()),
{
    lemma_first_key_from(s, 0);
    assert forall|i2: int, j2: int| key_between(s, i2, j2) implies key_starts_at(s, i2) by {
        lemma_key_at(s, i2);
    }
    if first_key(s) is Some {
        let p = choose|p: int|
            #![trigger key_starts_at(s, p)]
            0 <= p < s.len() && key_starts_at(s, p) && first_key_from(s, 0) == Some(
                s.subrange(p, key_end(s, p)),
            ) && forall|q: int| 0 <= q < p ==> !key_starts_at(s, q);
        lemma_key_at(s, p);
        lemma_upper_run(s, p);
        lemma_digit_run(s, upper_run_end(s, p) + 1);
        let k = first_key(s)->0;
        assert(p + k.len() == key_end(s, p));
        assert(key_between(s, p, p + k.len()));
    }
}

/// Relies on regex::Regex::new and Regex::find: with the pattern
/// `[A-Z]+-\d+`, `find` reports the leftmost-first match, whose greedy
/// repetitions take the whole run of letters and of digits.
#[verifier::external_body]
fn regex_find(pattern: &str, hay: &str) -> (r: Option<String>)
    requires
        pattern@ == "[A-Z]+-\\d+"@,
    ensures
        opt_view(r) == first_key(hay@),
{
    match regex::Regex::new(pattern) {
        Ok(re) => re.find(hay).map(|m| m.as_str().to_string()),
        Err(_) => None,
    }
}

/// The issue key in a branch name, if any.
pub fn extract_key(branch: &str) -> (r: Option<String>)
    ensures
        opt_view(r) == first_key(branch@),
{
    regex_find("[A-Z]+-\\d+", branch)
}

/// The issue key of each branch name, in the same order.
pub fn extract_keys(branches: &Vec<String>) -> (r: Vec<Option<String>>)
    ensures
        r@.len() == branches@.len(),
        forall|i: int| 0 <= i < r@.len() ==> opt_view(#[trigger] r@[i]) == first_key(branches@[i]@),
{
    let mut r: Vec<Option<String>> = Vec::new();
    let mut i: usize = 0;
    while i < branches.len()
        invariant
            i <= branches@.len(),
            r@.len() == i,
            forall|k: int| 0 <= k < i ==> opt_view(#[trigger] r@[k]) == first_key(branches@[k]@),
        decreases branches@.len() - i,
    {
        r.push(extract_key(branches[i].as_str()));
        i = i + 1;
    }
    r
}

} // verus!
