//! The tracker credential and the text it is stored as: the token of HTTP
//! Basic authentication, base64 of `username:password`.
use vstd::prelude::*;
use vstd::string::*;
use crate::key::opt_view;

verus! {

/// A username and, optionally, a password.
#[derive(Debug, PartialEq, Eq)]
pub struct Credential {
    pub username: String,
    pub password: Option<String>,
}

/// The token that hyper's `Basic` scheme writes for the text `user:password`.
pub uninterp spec fn basic_token(text: Seq<char>) -> Seq<char>;

/// The text that hyper's `Basic` scheme decodes from a token, if it decodes.
pub uninterp spec fn basic_decoded(token: Seq<char>) -> Option<Seq<char>>;

/// The text that a credential is encoded from: `username:password`, with
/// nothing after the colon when there is no password.
pub open spec fn credential_text(username: Seq<char>, password: Option<Seq<char>>) -> Seq<char> {
    username + seq![':'] + match password {
        Some(p) => p,
        None => Seq::empty(),
    }
}

/// `t` up to its first colon.
pub open spec fn up_to_colon(t: Seq<char>) -> Seq<char>
    decreases t.len(),
{
    if t.len() == 0 {
        t
    } else if t[0] == ':' {
        Seq::empty()
    } else {
        seq![t[0]] + up_to_colon(t.drop_first())
    }
}

/// What follows the first colon of `t`, if it has one.
pub open spec fn after_colon(t: Seq<char>) -> Option<Seq<char>>
    decreases t.len(),
{
    if t.len() == 0 {
        None
    } else if t[0] == ':' {
        Some(t.drop_first())
    } else {
        after_colon(t.drop_first())
    }
}

/// The password read from decoded text: the part between the first colon and
/// the next one, none without a colon.
pub open spec fn password_of(t: Seq<char>) -> Option<Seq<char>> {
    match after_colon(t) {
        Some(rest) => Some(up_to_colon(rest)),
        None => None,
    }
}

/// A character of standard base64 text, padding included.
pub open spec fn is_base64_char(c: char) -> bool {
    ('A' <= c && c <= 'Z') || ('a' <= c && c <= 'z') || ('0' <= c && c <= '9') || c == '+' || c == '/' || c
        == '='
}

/// `t` is a token that decodes to `text`: non-empty standard base64.
pub open spec fn token_encodes(t: Seq<char>, text: Seq<char>) -> bool {
    &&& basic_decoded(t) == Some(text)
    &&& t.len() > 0
    &&& forall|i: int| 0 <= i < t.len() ==> is_base64_char(#[trigger] t[i])
}

/// Relies on hyper's `Authorization<Basic>` header formatting: it writes
/// `Basic `, then `Basic::fmt_scheme`'s token for `username:password`, which
/// is base64's `encode` (standard alphabet, padded, unwrapped) of the text's
/// bytes; `Basic::from_str` decodes such a token back to the text.
#[verifier::external_body]
#[allow(deprecated)]
fn basic_header_value(c: &Credential) -> (r: String)
    ensures
        r@ == "Basic "@ + basic_token(credential_text(c.username@, opt_view(c.password))),
        token_encodes(r@.subrange(6, r@.len() as int), credential_text(c.username@, opt_view(c.password))),
{
    let b = hyper::header::Basic { username: c.username.clone(), password: c.password.clone() };
    hyper::header::HeaderFormatter(&hyper::header::Authorization(b)).to_string()
}

/// Relies on `<hyper::header::Basic as FromStr>::from_str`: it fails only when
/// the token does not decode to text; the username is that text up to the
/// first colon, the password the next part after it.
#[verifier::external_body]
fn basic_from_token(token: &str) -> (r: Option<Credential>)
    ensures
        r is None <==> basic_decoded(token@) is None,
        r matches Some(c) ==> c.username@ == up_to_colon(basic_decoded(token@)->0) && opt_view(c.password)
            == password_of(basic_decoded(token@)->0),
{
    match <hyper::header::Basic as std::str::FromStr>::from_str(token) {
        Ok(b) => Some(Credential { username: b.username, password: b.password }),
        Err(_) => None,
    }
}

proof fn lemma_up_to_colon_free(t: Seq<char>)
    requires
        !t.contains(':'),
    ensures
        up_to_colon(t) == t,
    decreases t.len(),
{
    if t.len() > 0 {
        assert(!t.drop_first().contains(':')) by {
            if t.drop_first().contains(':') {
                let i = choose|i: int| 0 <= i < t.drop_first().len() && t.drop_first()[i] == ':';
                assert(t[i + 1] == ':');
            }
        }
        lemma_up_to_colon_free(t.drop_first());
        assert(t[0] != ':') by {
            if t[0] == ':' {
                assert(t.contains(':'));
            }
        }
        assert(seq![t[0]] + t.drop_first() == t);
    }
}

proof fn lemma_split_at_colon(u: Seq<char>, rest: Seq<char>)
    requires
        !u.contains(':'),
    ensures
        up_to_colon(u + seq![':'] + rest) == u,
        after_colon(u + seq![':'] + rest) == Some(rest),
    decreases u.len(),
{
    let t = u + seq![':'] + rest;
    if u.len() == 0 {
        assert(t[0] == ':');
        assert(t.drop_first() == rest);
    } else {
        assert(!u.drop_first().contains(':')) by {
            if u.drop_first().contains(':') {
                let i = choose|i: int| 0 <= i < u.drop_first().len() && u.drop_first()[i] == ':';
                assert(u[i + 1] == ':');
            }
        }
        assert(u[0] != ':') by {
            if u[0] == ':' {
                assert(u.contains(':'));
            }
        }
        lemma_split_at_colon(u.drop_first(), rest);
        assert(t.drop_first() == u.drop_first() + seq![':'] + rest);
        assert(t[0] == u[0]);
        assert(seq![u[0]] + u.drop_first() == u);
    }
}

/// Decoding the text of a credential whose username and password hold no
/// colon gives back that username and password.
pub proof fn lemma_credential_text_splits(username: Seq<char>, password: Seq<char>)
    requires
        !username.contains(':'),
        !password.contains(':'),
    ensures
        up_to_colon(credential_text(username, Some(password))) == username,
        password_of(credential_text(username, Some(password))) == Some(password),
{
    lemma_split_at_colon(username, password);
    lemma_up_to_colon_free(password);
}

impl Credential {
    /// The text that the credential is stored as.
    pub fn to_token(&self) -> (r: String)
        ensures
            r@ == basic_token(credential_text(self.username@, opt_view(self.password))),
            token_encodes(r@, credential_text(self.username@, opt_view(self.password))),
    {
        let header = basic_header_value(self);
        proof {
            reveal_strlit("Basic ");
        }
        let n = header.as_str().unicode_len();
        let token = header.as_str().substring_char(6, n);
        assert(header@.subrange(6, header@.len() as int) == token@);
        assert(token@ =~= basic_token(credential_text(self.username@, opt_view(self.password))));
        String::from_str(token)
    }

    /// The credential that a stored token stands for, if it decodes.
    pub fn from_token(token: &str) -> (r: Option<Credential>)
        ensures
            r is None <==> basic_decoded(token@) is None,
            r matches Some(c) ==> c.username@ == up_to_colon(basic_decoded(token@)->0) && opt_view(c.password)
                == password_of(basic_decoded(token@)->0),
    {
        basic_from_token(token)
    }
}

} // verus!
