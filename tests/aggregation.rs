use nostratui::feed::{collect_posts, events_to_posts, post_from_event, thread_posts, ContactFetch, FetchOutcome, RawEvent};

fn event(id: &str, created_at: u64, tags: Vec<Vec<&str>>) -> RawEvent {
    RawEvent {
        id: id.to_string(),
        author: format!("key-{}", id),
        created_at,
        content: format!("body of {}", id),
        tags: tags
            .into_iter()
            .map(|t| t.into_iter().map(|s| s.to_string()).collect())
            .collect(),
    }
}

fn fetched(author: &str, events: Vec<RawEvent>) -> ContactFetch {
    ContactFetch { author: author.to_string(), outcome: FetchOutcome::Fetched(events) }
}

#[test]
fn a_timed_out_contact_is_left_out_and_the_rest_kept() {
    let fetches = vec![
        fetched("one", vec![event("a", 1, vec![]), event("b", 2, vec![])]),
        ContactFetch { author: "two".to_string(), outcome: FetchOutcome::TimedOut },
        fetched("three", vec![event("c", 3, vec![])]),
    ];
    let posts = collect_posts(fetches);
    let ids: Vec<&str> = posts.iter().map(|p| p.id.as_str()).collect();
    assert_eq!(ids, vec!["a", "b", "c"]);
    assert!(posts.iter().all(|p| p.user == "one" || p.user == "three"));
}

#[test]
fn a_failed_contact_is_left_out() {
    let fetches = vec![
        ContactFetch { author: "x".to_string(), outcome: FetchOutcome::Failed("unreachable".to_string()) },
        fetched("y", vec![event("q", 7, vec![])]),
    ];
    let posts = collect_posts(fetches);
    assert_eq!(posts.len(), 1);
    assert_eq!(posts[0].user, "y");
}

#[test]
fn every_contact_failing_gives_an_empty_batch() {
    let fetches = vec![
        ContactFetch { author: "x".to_string(), outcome: FetchOutcome::TimedOut },
        ContactFetch { author: "y".to_string(), outcome: FetchOutcome::Failed(String::new()) },
    ];
    assert!(collect_posts(fetches).is_empty());
    assert!(collect_posts(vec![]).is_empty());
}

#[test]
fn a_batch_holds_one_post_per_identifier() {
    let fetches = vec![
        fetched("one", vec![event("a", 1, vec![])]),
        fetched("two", vec![event("a", 1, vec![]), event("b", 2, vec![])]),
    ];
    let posts = collect_posts(fetches);
    let ids: Vec<&str> = posts.iter().map(|p| p.id.as_str()).collect();
    assert_eq!(ids, vec!["a", "b"]);
    assert_eq!(posts[0].user, "one");
}

#[test]
fn a_post_takes_its_author_from_the_contact_and_its_thread_from_tags() {
    let e = event("r1", 1_700_000_000, vec![vec!["e", "root1", "", "root"], vec!["e", "par", "", "reply"], vec!["p", "bob"]]);
    let p = post_from_event(e, &"Alice".to_string(), "label".to_string());
    assert_eq!(p.user, "Alice");
    assert_eq!(p.id, "r1");
    assert_eq!(p.timestamp, 1_700_000_000);
    assert_eq!(p.datetime, "label");
    assert_eq!(p.content, "body of r1");
    assert_eq!(p.root_id.as_deref(), Some("root1"));
    assert_eq!(p.reply_id.as_deref(), Some("par"));
    assert_eq!(p.participants, vec!["bob".to_string()]);
    assert!(p.is_thread_reply());
}

#[test]
fn events_become_posts_in_order_with_a_time_label() {
    let posts = events_to_posts(&"Carol".to_string(), vec![event("m", 1_700_000_000, vec![vec!["e", "x"]]), event("n", u64::MAX, vec![])]);
    assert_eq!(posts.len(), 2);
    assert_eq!(posts[0].id, "m");
    assert_eq!(posts[0].reply_id.as_deref(), Some("x"));
    assert!(!posts[0].datetime.is_empty());
    assert_eq!(posts[1].id, "n");
    assert_eq!(posts[1].datetime, "");
    assert!(posts.iter().all(|p| p.user == "Carol"));
}

#[test]
fn thread_posts_come_oldest_first_under_their_authors() {
    let events = vec![
        event("c", 30, vec![vec!["e", "a", "", "root"], vec!["e", "b", "", "reply"]]),
        event("a", 10, vec![]),
        event("b", 20, vec![vec!["e", "a", "", "root"]]),
        event("b2", 20, vec![vec!["e", "a", "", "root"]]),
    ];
    let posts = thread_posts(events);
    let ids: Vec<&str> = posts.iter().map(|p| p.id.as_str()).collect();
    assert_eq!(ids, vec!["a", "b", "b2", "c"]);
    assert_eq!(posts[0].user, "key-a");
    assert!(posts[0].is_root());
    assert_eq!(posts[1].root_id.as_deref(), Some("a"));
    assert!(posts[3].is_thread_reply());
    assert!(thread_posts(vec![]).is_empty());
    let dup = thread_posts(vec![event("z", 5, vec![]), event("z", 5, vec![])]);
    assert_eq!(dup.len(), 2);
}
