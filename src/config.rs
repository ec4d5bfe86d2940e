//! The tool's configuration: the tracker's base URL and the credential, kept
//! in the version-control tool's global key-value store and asked for once
//! when missing.
use vstd::prelude::*;
use vstd::string::*;
use crate::credential::{
    basic_decoded, basic_token, credential_text, is_base64_char, lemma_credential_text_splits, password_of,
    token_encodes, up_to_colon, Credential,
};
use crate::key::opt_view;

verus! {

/// The whitespace that trimming removes (Unicode `White_Space`).
pub open spec fn is_space(c: char) -> bool {
    ('\u{9}' <= c && c <= '\u{d}') || c == ' ' || c == '\u{85}' || c == '\u{a0}' || c == '\u{1680}' || (
    '\u{2000}' <= c && c <= '\u{200a}') || c == '\u{2028}' || c == '\u{2029}' || c == '\u{202f}' || c
        == '\u{205f}' || c == '\u{3000}'
}

/// `s` without leading and trailing whitespace.
pub open spec fn trimmed(s: Seq<char>) -> Seq<char>
    decreases s.len(),
{
    if s.len() > 0 && is_space(s[0]) {
        trimmed(s.drop_first())
    } else if s.len() > 0 && is_space(s.last()) {
        trimmed(s.drop_last())
    } else {
        s
    }
}

fn is_space_exec(c: char) -> (r: bool)
    ensures
        r == is_space(c),
{
    ('\u{9}' <= c && c <= '\u{d}') || c == ' ' || c == '\u{85}' || c == '\u{a0}' || c == '\u{1680}' || (
    '\u{2000}' <= c && c <= '\u{200a}') || c == '\u{2028}' || c == '\u{2029}' || c == '\u{202f}' || c
        == '\u{205f}' || c == '\u{3000}'
}

/// `s` without leading and trailing whitespace.
pub fn trim(s: &str) -> (r: String)
    ensures
        r@ == trimmed(s@),
{
    let n = s.unicode_len();
    let mut a: usize = 0;
    assert(s@.subrange(0, n as int) == s@);
    while a < n && is_space_exec(s.get_char(a))
        invariant
            n == s@.len(),
            a <= n,
            trimmed(s@) == trimmed(s@.subrange(a as int, n as int)),
        decreases n - a,
    {
        assert(s@.subrange(a as int, n as int).drop_first() == s@.subrange(a + 1, n as int));
        a = a + 1;
    }
    let mut b: usize = n;
    while b > a && is_space_exec(s.get_char(b - 1))
        invariant
            n == s@.len(),
            a <= b <= n,
            a < n ==> !is_space(s@[a as int]),
            trimmed(s@) == trimmed(s@.subrange(a as int, b as int)),
        decreases b - a,
    {
        let ghost t = s@.subrange(a as int, b as int);
        assert(t[0] == s@[a as int]);
        assert(t.drop_last() == s@.subrange(a as int, b - 1));
        b = b - 1;
    }
    let r = s.substring_char(a, b);
    proof {
        let t = s@.subrange(a as int, b as int);
        if t.len() > 0 {
            assert(t[0] == s@[a as int]);
            assert(t.last() == s@[b - 1]);
        }
    }
    String::from_str(r)
}

/// What a read of the store gives: nothing when the read failed or printed
/// only whitespace, otherwise the printed value, trimmed.
pub open spec fn stored_of(success: bool, output: Seq<char>) -> Option<Seq<char>> {
    if !success || trimmed(output).len() == 0 {
        None
    } else {
        Some(trimmed(output))
    }
}

/// The value that a read of the store gives, from its exit status and output.
pub fn stored_value(success: bool, output: &str) -> (r: Option<String>)
    ensures
        opt_view(r) == stored_of(success, output@),
{
    if !success {
        return None;
    }
    let v = trim(output);
    if v.as_str().unicode_len() == 0 {
        None
    } else {
        Some(v)
    }
}

/// The outcome of reading one configuration value.
pub enum ConfigRead {
    /// The store holds this value.
    Found(String),
    /// The store holds none: ask the user, with this label.
    Prompt(String),
}

/// Reads a configuration value from what the store printed: the stored value
/// when there is one, else a prompt with the given label.
pub fn read_config_value(prompt: &str, success: bool, output: &str) -> (r: ConfigRead)
    ensures
        match stored_of(success, output@) {
            Some(v) => r matches ConfigRead::Found(x) && x@ == v,
            None => r matches ConfigRead::Prompt(l) && l@ == prompt@,
        },
{
    match stored_value(success, output) {
        Some(v) => ConfigRead::Found(v),
        None => ConfigRead::Prompt(String::from_str(prompt)),
    }
}

/// Whether `s` reads as an absolute URL.
pub uninterp spec fn url_parses(s: Seq<char>) -> bool;

/// Relies on url::Url::parse: whether the text reads as an absolute URL.
#[verifier::external_body]
fn parses_as_url(s: &str) -> (r: bool)
    ensures
        r == url_parses(s@),
{
    url::Url::parse(s).is_ok()
}

/// The store key of the tracker's base URL.
pub open spec fn url_key() -> Seq<char> {
    "com.spoqa.jira.url"@
}

/// The store key of the credential token.
pub open spec fn credential_key() -> Seq<char> {
    "com.spoqa.jira.credential"@
}

/// The resolved configuration.
#[derive(Debug, PartialEq, Eq)]
pub struct Config {
    pub base_url: String,
    pub credential: Credential,
}

/// Where the setup stands.
#[derive(Debug, PartialEq, Eq, Structural, Clone, Copy)]
pub enum Phase {
    LoadingUrl,
    AskingUrl,
    SavingUrl,
    LoadingCredential,
    AskingUsername,
    AskingPassword,
    SavingCredential,
    Finished,
}

/// What the caller reports back after doing the last action.
pub enum SetupEvent {
    /// A read of the store ran, with this exit status and output.
    Loaded { success: bool, output: String },
    /// The user answered a prompt with this line.
    Answered(String),
    /// A write to the store ran, and succeeded or not.
    Saved(bool),
}

/// Why the setup stopped.
#[derive(Debug, PartialEq, Eq, Clone, Copy)]
pub enum SetupError {
    /// A write to the store failed.
    SaveFailed,
    /// The tracker URL is not a valid absolute URL.
    InvalidUrl,
    /// The event does not answer the last action.
    UnexpectedEvent,
}

/// What the caller is to do next.
pub enum SetupAction {
    /// Read this key of the store.
    Load(String),
    /// Ask the user for the value with this label.
    Prompt(String),
    /// Write this value under this key of the store.
    Save(String, String),
    /// The configuration is complete.
    Ready(Config),
    /// Stop: the setup failed.
    Fail(SetupError),
}

/// What a setup holds, as plain values.
pub struct SetupModel {
    pub phase: Phase,
    pub url: Seq<char>,
    pub username: Seq<char>,
    pub credential: (Seq<char>, Option<Seq<char>>),
}

/// An action, as plain values.
pub enum ActionModel {
    Load(Seq<char>),
    Prompt(Seq<char>),
    Save(Seq<char>, Seq<char>),
    Ready(Seq<char>, (Seq<char>, Option<Seq<char>>)),
    Fail(SetupError),
}

pub open spec fn credential_model(c: Credential) -> (Seq<char>, Option<Seq<char>>) {
    (c.username@, opt_view(c.password))
}

pub open spec fn action_model(a: SetupAction) -> ActionModel {
    match a {
        SetupAction::Load(k) => ActionModel::Load(k@),
        SetupAction::Prompt(l) => ActionModel::Prompt(l@),
        SetupAction::Save(k, v) => ActionModel::Save(k@, v@),
        SetupAction::Ready(c) => ActionModel::Ready(c.base_url@, credential_model(c.credential)),
        SetupAction::Fail(e) => ActionModel::Fail(e),
    }
}

/// The credential that a stored token stands for, as plain values.
pub open spec fn token_credential(t: Seq<char>) -> Option<(Seq<char>, Option<Seq<char>>)> {
    match basic_decoded(t) {
        Some(text) => Some((up_to_colon(text), password_of(text))),
        None => None,
    }
}

/// One step of the setup: the state and action that follow the event.
pub open spec fn setup_next(m: SetupModel, e: SetupEvent) -> (SetupModel, ActionModel) {
    match (m.phase, e) {
        (Phase::LoadingUrl, SetupEvent::Loaded { success, output }) => match stored_of(success, output@) {
            Some(v) => if url_parses(v) {
                (SetupModel { phase: Phase::LoadingCredential, url: v, ..m }, ActionModel::Load(credential_key()))
            } else {
                (SetupModel { phase: Phase::Finished, url: v, ..m }, ActionModel::Fail(SetupError::InvalidUrl))
            },
            None => (SetupModel { phase: Phase::AskingUrl, ..m }, ActionModel::Prompt("JIRA URL"@)),
        },
        (Phase::AskingUrl, SetupEvent::Answered(line)) => (
            SetupModel { phase: Phase::SavingUrl, url: trimmed(line@), ..m },
            ActionModel::Save(url_key(), trimmed(line@)),
        ),
        (Phase::SavingUrl, SetupEvent::Saved(ok)) => if ok && url_parses(m.url) {
            (SetupModel { phase: Phase::LoadingCredential, ..m }, ActionModel::Load(credential_key()))
        } else if ok {
            (SetupModel { phase: Phase::Finished, ..m }, ActionModel::Fail(SetupError::InvalidUrl))
        } else {
            (SetupModel { phase: Phase::Finished, ..m }, ActionModel::Fail(SetupError::SaveFailed))
        },
        (Phase::LoadingCredential, SetupEvent::Loaded { success, output }) => match stored_of(success, output@) {
            Some(t) => match token_credential(t) {
                Some(c) => (
                    SetupModel { phase: Phase::Finished, credential: c, ..m },
                    ActionModel::Ready(m.url, c),
                ),
                None => (SetupModel { phase: Phase::AskingUsername, ..m }, ActionModel::Prompt("Username"@)),
            },
            None => (SetupModel { phase: Phase::AskingUsername, ..m }, ActionModel::Prompt("Username"@)),
        },
        (Phase::AskingUsername, SetupEvent::Answered(line)) => (
            SetupModel { phase: Phase::AskingPassword, username: trimmed(line@), ..m },
            ActionModel::Prompt("Password"@),
        ),
        (Phase::AskingPassword, SetupEvent::Answered(line)) => {
            let c = (m.username, Some(trimmed(line@)));
            (
                SetupModel { phase: Phase::SavingCredential, credential: c, ..m },
                ActionModel::Save(credential_key(), basic_token(credential_text(c.0, c.1))),
            )
        },
        (Phase::SavingCredential, SetupEvent::Saved(ok)) => if ok {
            (SetupModel { phase: Phase::Finished, ..m }, ActionModel::Ready(m.url, m.credential))
        } else {
            (SetupModel { phase: Phase::Finished, ..m }, ActionModel::Fail(SetupError::SaveFailed))
        },
        _ => (m, ActionModel::Fail(SetupError::UnexpectedEvent)),
    }
}

proof fn lemma_trimmed_edges(s: Seq<char>)
    ensures
        trimmed(s).len() > 0 ==> !is_space(trimmed(s)[0]) && !is_space(trimmed(s).last()),
    decreases s.len(),
{
    if s.len() > 0 && is_space(s[0]) {
        lemma_trimmed_edges(s.drop_first());
    } else if s.len() > 0 && is_space(s.last()) {
        lemma_trimmed_edges(s.drop_last());
    }
}

/// Text without whitespace is its own trimming.
proof fn lemma_trimmed_no_space(v: Seq<char>)
    requires
        forall|i: int| 0 <= i < v.len() ==> !is_space(#[trigger] v[i]),
    ensures
        trimmed(v) == v,
{
    if v.len() > 0 {
        assert(!is_space(v[0]));
        assert(!is_space(v[v.len() - 1]));
    }
}

/// Trimming twice is trimming once.
pub proof fn lemma_trimmed_twice(s: Seq<char>)
    ensures
        trimmed(trimmed(s)) == trimmed(s),
{
    lemma_trimmed_edges(s);
}

/// Once a setup has asked for the URL, the username and the password, and
/// saved the URL and the credential token, a later setup on the same store
/// asks nothing: it reads the URL, then the credential, and is ready with the
/// same URL and credential. The store may print a value with whitespace
/// around it. The URL must hold more than whitespace and be a valid absolute
/// URL (else the first setup fails), and the username and password must hold
/// no colon, which the stored form cannot tell apart. The token is the one
/// the first setup saved, of which `ConfigSetup::step` ensures
/// `token_encodes`.
pub proof fn lemma_saved_config_needs_no_prompt(
    m: SetupModel,
    url_answer: Seq<char>,
    username_answer: Seq<char>,
    password_answer: Seq<char>,
    e1: SetupEvent,
    e2: SetupEvent,
)
    requires
        initial_model(m),
        trimmed(url_answer).len() > 0,
        url_parses(trimmed(url_answer)),
        !trimmed(username_answer).contains(':'),
        !trimmed(password_answer).contains(':'),
        token_encodes(
            basic_token(credential_text(trimmed(username_answer), Some(trimmed(password_answer)))),
            credential_text(trimmed(username_answer), Some(trimmed(password_answer))),
        ),
        e1 matches SetupEvent::Loaded { success, output } && success && trimmed(output@) == trimmed(url_answer),
        e2 matches SetupEvent::Loaded { success, output } && success && trimmed(output@) == basic_token(
            credential_text(trimmed(username_answer), Some(trimmed(password_answer))),
        ),
    ensures
        setup_next(m, e1).1 == ActionModel::Load(credential_key()),
        setup_next(setup_next(m, e1).0, e2).1 == ActionModel::Ready(
            trimmed(url_answer),
            (trimmed(username_answer), Some(trimmed(password_answer))),
        ),
{
    let u = trimmed(username_answer);
    let p = trimmed(password_answer);
    let t = basic_token(credential_text(u, Some(p)));
    assert forall|i: int| 0 <= i < t.len() implies !is_space(#[trigger] t[i]) by {
        assert(is_base64_char(t[i]));
    }
    lemma_trimmed_no_space(t);
    lemma_trimmed_twice(url_answer);
    lemma_credential_text_splits(u, p);
}

/// The configuration setup, driven by its caller: it names an action, the
/// caller does it and reports the outcome as the next event.
pub struct ConfigSetup {
    phase: Phase,
    url: String,
    username: String,
    credential: Credential,
}

impl View for ConfigSetup {
    type V = SetupModel;

    closed spec fn view(&self) -> SetupModel {
        SetupModel {
            phase: self.phase,
            url: self.url@,
            username: self.username@,
            credential: credential_model(self.credential),
        }
    }
}

/// The setup before its first step.
pub open spec fn initial_model(m: SetupModel) -> bool {
    m.phase == Phase::LoadingUrl
}

fn copy_string(s: &String) -> (r: String)
    ensures
        r@ == s@,
{
    String::from_str(s.as_str())
}

fn copy_credential(c: &Credential) -> (r: Credential)
    ensures
        credential_model(r) == credential_model(*c),
{
    let password = match &c.password {
        Some(p) => Some(copy_string(p)),
        None => None,
    };
    Credential { username: copy_string(&c.username), password }
}

impl ConfigSetup {
    /// A new setup, and its first action: read the base URL.
    pub fn new() -> (r: (ConfigSetup, SetupAction))
        ensures
            initial_model(r.0@),
            action_model(r.1) == ActionModel::Load(url_key()),
    {
        let s = ConfigSetup {
            phase: Phase::LoadingUrl,
            url: String::new(),
            username: String::new(),
            credential: Credential { username: String::new(), password: None },
        };
        (s, SetupAction::Load(String::from_str("com.spoqa.jira.url")))
    }

    /// Takes the outcome of the last action and returns the next one.
    pub fn step(&mut self, event: SetupEvent) -> (r: SetupAction)
        ensures
            (final(self)@, action_model(r)) == setup_next(old(self)@, event),
            r matches SetupAction::Save(k, t) ==> (k@ == credential_key() ==> token_encodes(
                t@,
                credential_text(final(self)@.credential.0, final(self)@.credential.1),
            )),
    {
        let ghost e = event;
        match (self.phase, event) {
            (Phase::LoadingUrl, SetupEvent::Loaded { success, output }) => match read_config_value(
                "JIRA URL",
                success,
                output.as_str(),
            ) {
                ConfigRead::Found(v) => {
                    let valid = parses_as_url(v.as_str());
                    self.url = v;
                    if valid {
                        self.phase = Phase::LoadingCredential;
                        SetupAction::Load(String::from_str("com.spoqa.jira.credential"))
                    } else {
                        self.phase = Phase::Finished;
                        SetupAction::Fail(SetupError::InvalidUrl)
                    }
                },
                ConfigRead::Prompt(label) => {
                    self.phase = Phase::AskingUrl;
                    SetupAction::Prompt(label)
                },
            },
            (Phase::AskingUrl, SetupEvent::Answered(line)) => {
                let v = trim(line.as_str());
                self.url = copy_string(&v);
                self.phase = Phase::SavingUrl;
                proof {
                    reveal_strlit("com.spoqa.jira.url");
                    reveal_strlit("com.spoqa.jira.credential");
                    assert(url_key().len() != credential_key().len());
                }
                SetupAction::Save(String::from_str("com.spoqa.jira.url"), v)
            },
            (Phase::SavingUrl, SetupEvent::Saved(ok)) => {
                if ok && parses_as_url(self.url.as_str()) {
                    self.phase = Phase::LoadingCredential;
                    SetupAction::Load(String::from_str("com.spoqa.jira.credential"))
                } else if ok {
                    self.phase = Phase::Finished;
                    SetupAction::Fail(SetupError::InvalidUrl)
                } else {
                    self.phase = Phase::Finished;
                    SetupAction::Fail(SetupError::SaveFailed)
                }
            },
            (Phase::LoadingCredential, SetupEvent::Loaded { success, output }) => {
                let parsed = match stored_value(success, output.as_str()) {
                    Some(t) => Credential::from_token(t.as_str()),
                    None => None,
                };
                match parsed {
                    Some(c) => {
                        self.credential = copy_credential(&c);
                        self.phase = Phase::Finished;
                        SetupAction::Ready(Config { base_url: copy_string(&self.url), credential: c })
                    },
                    None => {
                        self.phase = Phase::AskingUsername;
                        SetupAction::Prompt(String::from_str("Username"))
                    },
                }
            },
            (Phase::AskingUsername, SetupEvent::Answered(line)) => {
                self.username = trim(line.as_str());
                self.phase = Phase::AskingPassword;
                SetupAction::Prompt(String::from_str("Password"))
            },
            (Phase::AskingPassword, SetupEvent::Answered(line)) => {
                let c = Credential { username: copy_string(&self.username), password: Some(trim(line.as_str())) };
                let token = c.to_token();
                self.credential = c;
                self.phase = Phase::SavingCredential;
                SetupAction::Save(String::from_str("com.spoqa.jira.credential"), token)
            },
            (Phase::SavingCredential, SetupEvent::Saved(ok)) => {
                self.phase = Phase::Finished;
                if ok {
                    SetupAction::Ready(
                        Config { base_url: copy_string(&self.url), credential: copy_credential(&self.credential) },
                    )
                } else {
                    SetupAction::Fail(SetupError::SaveFailed)
                }
            },
            _ => SetupAction::Fail(SetupError::UnexpectedEvent),
        }
    }
}

} // verus!
