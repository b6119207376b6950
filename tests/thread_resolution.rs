use nostratui::thread::{parse_tag, resolve_thread, thread_of_raw_tags, Marker, TagRef};

fn tag(parts: &[&str]) -> Vec<String> {
    parts.iter().map(|p| p.to_string()).collect()
}

#[test]
fn explicit_markers_give_root_and_reply() {
    let raw = vec![tag(&["e", "R", "", "root"]), tag(&["e", "P", "", "reply"])];
    let t = thread_of_raw_tags(&raw);
    assert_eq!(t.root_id.as_deref(), Some("R"));
    assert_eq!(t.reply_id.as_deref(), Some("P"));
    assert!(t.mentions.is_empty());
}

#[test]
fn two_unmarked_references_give_root_then_reply() {
    let raw = vec![tag(&["e", "A"]), tag(&["e", "B"])];
    let t = thread_of_raw_tags(&raw);
    assert_eq!(t.root_id.as_deref(), Some("A"));
    assert_eq!(t.reply_id.as_deref(), Some("B"));
    assert!(t.mentions.is_empty());
}

#[test]
fn one_unmarked_reference_is_the_parent() {
    let raw = vec![tag(&["e", "X", "wss://relay.example"])];
    let t = thread_of_raw_tags(&raw);
    assert_eq!(t.root_id, None);
    assert_eq!(t.reply_id.as_deref(), Some("X"));
}

#[test]
fn explicit_markers_take_precedence_over_position() {
    let raw = vec![
        tag(&["e", "A"]),
        tag(&["e", "R", "", "root"]),
        tag(&["e", "B"]),
    ];
    let t = thread_of_raw_tags(&raw);
    assert_eq!(t.root_id.as_deref(), Some("R"));
    assert_eq!(t.reply_id, None);
    assert_eq!(t.mentions, vec!["A".to_string(), "B".to_string()]);
}

#[test]
fn three_unmarked_references_put_the_middle_among_mentions() {
    let raw = vec![tag(&["e", "A"]), tag(&["e", "M"]), tag(&["e", "B"])];
    let t = thread_of_raw_tags(&raw);
    assert_eq!(t.root_id.as_deref(), Some("A"));
    assert_eq!(t.reply_id.as_deref(), Some("B"));
    assert_eq!(t.mentions, vec!["M".to_string()]);
}

#[test]
fn other_markers_are_mentions_and_do_not_trigger_position() {
    let raw = vec![tag(&["e", "Q", "", "mention"])];
    let t = thread_of_raw_tags(&raw);
    assert_eq!(t.root_id, None);
    assert_eq!(t.reply_id, None);
    assert_eq!(t.mentions, vec!["Q".to_string()]);
    let raw = vec![
        tag(&["e", "Q", "", "mention"]),
        tag(&["e", "P", "", "reply"]),
    ];
    let t = thread_of_raw_tags(&raw);
    assert_eq!(t.reply_id.as_deref(), Some("P"));
    assert_eq!(t.mentions, vec!["Q".to_string()]);
    let raw = vec![tag(&["e", "A"]), tag(&["e", "B", "", "mention"])];
    let t = thread_of_raw_tags(&raw);
    assert_eq!(t.root_id, None);
    assert_eq!(t.reply_id, None);
    assert_eq!(t.mentions, vec!["A".to_string(), "B".to_string()]);
}

#[test]
fn mention_with_participants_and_an_unknown_tag() {
    let raw = vec![
        tag(&["p", "K1"]),
        tag(&["t", "x"]),
        tag(&["e", "M", "", "mention"]),
        tag(&["p", "K2"]),
    ];
    let t = thread_of_raw_tags(&raw);
    assert_eq!(t.participants, vec!["K1".to_string(), "K2".to_string()]);
    assert_eq!(t.mentions, vec!["M".to_string()]);
    assert_eq!(t.root_id, None);
    assert_eq!(t.reply_id, None);
}

#[test]
fn identity_tags_are_participants_and_unknown_tags_are_ignored() {
    let raw = vec![
        tag(&["p", "alice"]),
        tag(&["t", "topic"]),
        tag(&["p"]),
        tag(&["p", "bob", "wss://relay"]),
        tag(&["e"]),
    ];
    let t = thread_of_raw_tags(&raw);
    assert_eq!(t.participants, vec!["alice".to_string(), "bob".to_string()]);
    assert_eq!(t.root_id, None);
    assert_eq!(t.reply_id, None);
    assert!(t.mentions.is_empty());
}

#[test]
fn no_tags_is_a_root_post() {
    let t = thread_of_raw_tags(&vec![]);
    assert_eq!(t.root_id, None);
    assert_eq!(t.reply_id, None);
    assert!(t.mentions.is_empty());
    assert!(t.participants.is_empty());
}

#[test]
fn last_marked_reference_wins() {
    let raw = vec![
        tag(&["e", "R1", "", "root"]),
        tag(&["e", "R2", "", "root"]),
    ];
    let t = thread_of_raw_tags(&raw);
    assert_eq!(t.root_id.as_deref(), Some("R2"));
}

#[test]
fn parse_tag_reads_kind_id_and_marker() {
    match parse_tag(&tag(&["e", "abc", "", "reply"])) {
        TagRef::Event { id, marker } => {
            assert_eq!(id, "abc");
            assert_eq!(marker, Some(Marker::Reply));
        }
        other => panic!("unexpected {:?}", other),
    }
    match parse_tag(&tag(&["e", "abc", "wss://r"])) {
        TagRef::Event { id, marker } => {
            assert_eq!(id, "abc");
            assert_eq!(marker, None);
        }
        other => panic!("unexpected {:?}", other),
    }
    match parse_tag(&tag(&["e", "abc", "", "mention"])) {
        TagRef::Event { marker, .. } => assert_eq!(marker, Some(Marker::Other)),
        other => panic!("unexpected {:?}", other),
    }
    assert!(matches!(parse_tag(&tag(&["p", "k"])), TagRef::Identity { .. }));
    assert!(matches!(parse_tag(&tag(&["ee", "k"])), TagRef::Unknown));
    assert!(matches!(parse_tag(&tag(&["e"])), TagRef::Unknown));
}

#[test]
fn resolve_thread_on_typed_tags() {
    let tags = vec![
        TagRef::Event { id: "R".to_string(), marker: Some(Marker::Root) },
        TagRef::Identity { id: "k".to_string() },
        TagRef::Unknown,
    ];
    let t = resolve_thread(&tags);
    assert_eq!(t.root_id.as_deref(), Some("R"));
    assert_eq!(t.reply_id, None);
    assert_eq!(t.participants, vec!["k".to_string()]);
}
