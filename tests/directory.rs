use nostratui::cli::{Command, Flags};
use nostratui::config::{Config, DEFAULT_LOOKBACK_SECS};
use nostratui::contacts::{contact_from_metadata, followed_identities, resolve_configured, Contact};

fn pair(a: &str, b: &str) -> (String, String) {
    (a.to_string(), b.to_string())
}

fn config(last_login: Option<u64>, contacts: Vec<(String, String)>) -> Config {
    Config { key: "k".to_string(), relays: vec!["wss://r".to_string()], contacts, last_login }
}

#[test]
fn configured_contacts_skip_unreadable_identities() {
    let entries = vec![pair("npub1", "Ann"), pair("garbage", "Bad"), pair("npub2", "Ben")];
    let (contacts, rejected) = resolve_configured(&entries, &vec![true, false, true]);
    let pairs: Vec<(String, String)> = contacts.iter().map(|c| c.to_string_tuple()).collect();
    assert_eq!(pairs, vec![pair("npub1", "Ann"), pair("npub2", "Ben")]);
    assert_eq!(rejected, vec!["garbage".to_string()]);
}

#[test]
fn metadata_name_is_used_when_present() {
    let c = contact_from_metadata("id1".to_string(), "fallback".to_string(), Some(r#"{"name":"alice","about":"x"}"#.to_string()));
    assert_eq!(c.identity, "id1");
    assert_eq!(c.name, "alice");
}

#[test]
fn identity_rendering_is_used_without_a_usable_name() {
    for metadata in [None, Some("not json".to_string()), Some(r#"{"about":"x"}"#.to_string()), Some(r#"{"name":7}"#.to_string()), Some("[1,2]".to_string())] {
        let c = contact_from_metadata("id2".to_string(), "npub-rendering".to_string(), metadata);
        assert_eq!(c.name, "npub-rendering");
    }
}

#[test]
fn followed_identities_are_the_identity_tags() {
    let tags = vec![
        vec!["p".to_string(), "k1".to_string()],
        vec!["e".to_string(), "note".to_string()],
        vec!["p".to_string(), "k2".to_string(), "wss://r".to_string(), "petname".to_string()],
    ];
    assert_eq!(followed_identities(&tags), vec!["k1".to_string(), "k2".to_string()]);
}

#[test]
fn checkpoint_defaults_to_seven_days_back() {
    assert_eq!(DEFAULT_LOOKBACK_SECS, 604_800);
    assert_eq!(config(Some(42), vec![]).checkpoint_at(1_000_000), 42);
    assert_eq!(config(None, vec![]).checkpoint_at(1_000_000), 1_000_000 - 604_800);
    assert_eq!(config(None, vec![]).checkpoint_at(5), 0);
    assert_eq!(config(Some(42), vec![]).get_last_login(), 42);
    let now_based = config(None, vec![]).get_last_login();
    assert!(now_based > 1_600_000_000);
}

#[test]
fn logins_are_recorded() {
    let mut c = config(None, vec![]);
    c.record_login(77);
    assert_eq!(c.last_login, Some(77));
    c.update_last_login();
    assert!(c.last_login.unwrap() > 1_600_000_000);
    assert_eq!(c.key, "k");
}

#[test]
fn discovered_contacts_are_kept_only_without_explicit_ones() {
    let found = vec![Contact { identity: "i1".to_string(), name: "n1".to_string() }];
    let mut empty = config(None, vec![]);
    empty.adopt_contacts(&found);
    assert_eq!(empty.contacts, vec![pair("i1", "n1")]);
    let mut explicit = config(None, vec![pair("i0", "n0")]);
    explicit.adopt_contacts(&found);
    assert_eq!(explicit.contacts, vec![pair("i0", "n0")]);
}

#[test]
fn flags_name_the_command() {
    let f = Flags { command: Some(Command::Post) };
    assert!(f.post() && !f.fetch() && !f.stream() && !f.contacts());
    let f = Flags { command: Some(Command::Fetch) };
    assert!(f.fetch() && !f.post());
    let f = Flags { command: Some(Command::Stream) };
    assert!(f.stream());
    let f = Flags { command: Some(Command::Contacts) };
    assert!(f.contacts());
    let f = Flags { command: None };
    assert!(!f.post() && !f.fetch() && !f.stream() && !f.contacts());
}
