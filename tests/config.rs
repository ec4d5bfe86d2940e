use std::collections::HashMap;

use git_jira::config::{stored_value, trim, Config, ConfigSetup, SetupAction, SetupError, SetupEvent};
use git_jira::credential::Credential;

#[test]
fn trim_removes_surrounding_whitespace() {
    assert_eq!(trim("  https://jira.example.com \n"), "https://jira.example.com");
    assert_eq!(trim("\t\u{3000}a b\u{a0}"), "a b");
    assert_eq!(trim(" \n "), "");
}

#[test]
fn stored_value_rules() {
    assert_eq!(stored_value(true, "https://x.test\n"), Some("https://x.test".to_string()));
    assert_eq!(stored_value(false, "https://x.test\n"), None);
    assert_eq!(stored_value(true, "  \n"), None);
}

#[test]
fn credential_token_is_basic_base64() {
    let c = Credential { username: "user".to_string(), password: Some("pass".to_string()) };
    assert_eq!(c.to_token(), "dXNlcjpwYXNz");
    let no_password = Credential { username: "user".to_string(), password: None };
    assert_eq!(no_password.to_token(), "dXNlcjo=");
}

#[test]
fn credential_from_token() {
    assert_eq!(
        Credential::from_token("dXNlcjpwYXNz"),
        Some(Credential { username: "user".to_string(), password: Some("pass".to_string()) })
    );
    assert_eq!(Credential::from_token("dXNlcg=="), Some(Credential { username: "user".to_string(), password: None }));
    assert_eq!(Credential::from_token("!!not base64!!"), None);
}

/// Runs one setup against an in-memory store, answering prompts from
/// `answers`; returns the configuration and the number of prompts.
fn run_setup(store: &mut HashMap<String, String>, answers: &[&str]) -> (Config, usize) {
    let (mut setup, mut action) = ConfigSetup::new();
    let mut prompts = 0;
    loop {
        let event = match action {
            SetupAction::Load(key) => match store.get(&key) {
                Some(v) => SetupEvent::Loaded { success: true, output: format!("{}\n", v) },
                None => SetupEvent::Loaded { success: false, output: String::new() },
            },
            SetupAction::Prompt(_) => {
                let answer = answers[prompts];
                prompts += 1;
                SetupEvent::Answered(format!("{}\n", answer))
            },
            SetupAction::Save(key, value) => {
                store.insert(key, value);
                SetupEvent::Saved(true)
            },
            SetupAction::Ready(config) => return (config, prompts),
            SetupAction::Fail(e) => panic!("setup failed: {:?}", e),
        };
        action = setup.step(event);
    }
}

#[test]
fn second_run_asks_nothing() {
    let mut store = HashMap::new();
    let (first, prompts) = run_setup(&mut store, &["https://jira.example.com ", "alice", "s3cret"]);
    assert_eq!(prompts, 3);
    assert_eq!(store.get("com.spoqa.jira.url"), Some(&"https://jira.example.com".to_string()));
    assert_eq!(store.get("com.spoqa.jira.credential"), Some(&"YWxpY2U6czNjcmV0".to_string()));
    let (second, prompts) = run_setup(&mut store, &[]);
    assert_eq!(prompts, 0);
    assert_eq!(first, second);
    assert_eq!(second.base_url, "https://jira.example.com");
    assert_eq!(second.credential, Credential { username: "alice".to_string(), password: Some("s3cret".to_string()) });
}

#[test]
fn unreadable_stored_credential_is_asked_again() {
    let mut store = HashMap::new();
    store.insert("com.spoqa.jira.url".to_string(), "https://t.test".to_string());
    store.insert("com.spoqa.jira.credential".to_string(), "%%%".to_string());
    let (config, prompts) = run_setup(&mut store, &["bob", "pw"]);
    assert_eq!(prompts, 2);
    assert_eq!(config.base_url, "https://t.test");
    assert_eq!(store.get("com.spoqa.jira.credential"), Some(&"Ym9iOnB3".to_string()));
}

#[test]
fn failed_save_stops_the_setup() {
    let (mut setup, _) = ConfigSetup::new();
    assert!(matches!(
        setup.step(SetupEvent::Loaded { success: false, output: String::new() }),
        SetupAction::Prompt(ref l) if l == "JIRA URL"
    ));
    assert!(matches!(setup.step(SetupEvent::Answered("u".to_string())), SetupAction::Save(_, _)));
    assert!(matches!(setup.step(SetupEvent::Saved(false)), SetupAction::Fail(SetupError::SaveFailed)));
}

#[test]
fn unexpected_event_is_refused() {
    let (mut setup, _) = ConfigSetup::new();
    assert!(matches!(setup.step(SetupEvent::Saved(true)), SetupAction::Fail(SetupError::UnexpectedEvent)));
}

#[test]
fn typed_url_that_does_not_parse_stops_before_the_credential() {
    let (mut setup, _) = ConfigSetup::new();
    setup.step(SetupEvent::Loaded { success: false, output: String::new() });
    assert!(matches!(
        setup.step(SetupEvent::Answered("jira.example.com\n".to_string())),
        SetupAction::Save(_, ref v) if v == "jira.example.com"
    ));
    assert!(matches!(setup.step(SetupEvent::Saved(true)), SetupAction::Fail(SetupError::InvalidUrl)));
}

#[test]
fn stored_url_that_does_not_parse_stops_before_the_credential() {
    let (mut setup, _) = ConfigSetup::new();
    assert!(matches!(
        setup.step(SetupEvent::Loaded { success: true, output: "not a url\n".to_string() }),
        SetupAction::Fail(SetupError::InvalidUrl)
    ));
}
