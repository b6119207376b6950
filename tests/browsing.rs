use nostratui::post::Post;
use nostratui::session::{reply_tags, reply_target, Action, Browser, KeyInput};

fn post(id: &str, timestamp: u64) -> Post {
    Post {
        user: "u".to_string(),
        timestamp,
        datetime: String::new(),
        content: String::new(),
        id: id.to_string(),
        root_id: None,
        reply_id: None,
        mentions: vec![],
        participants: vec![],
    }
}

fn ids(b: &Browser) -> Vec<String> {
    b.feed.items().iter().map(|p| p.id.clone()).collect()
}

#[test]
fn browser_starts_newest_first() {
    let b = Browser::new(vec![post("old", 1), post("new", 5), post("mid", 3)]);
    assert_eq!(ids(&b), vec!["new", "mid", "old"]);
    assert_eq!(b.feed.selected(), Some(0));
    assert!(!b.refreshing);
}

#[test]
fn a_second_refresh_is_refused_while_one_runs() {
    let mut b = Browser::new(vec![post("a", 1)]);
    assert!(matches!(b.handle_key(KeyInput::Refresh), Action::StartRefresh));
    assert!(b.refreshing);
    assert!(matches!(b.handle_key(KeyInput::Refresh), Action::Ignore));
    b.refresh_delivered(vec![]);
    assert!(!b.refreshing);
    assert!(matches!(b.handle_key(KeyInput::Refresh), Action::StartRefresh));
}

#[test]
fn delivered_posts_join_without_duplicates_newest_first() {
    let mut b = Browser::new(vec![post("a", 2), post("b", 1)]);
    b.handle_key(KeyInput::Refresh);
    b.refresh_delivered(vec![post("c", 3), post("a", 2), post("d", 0), post("c", 3)]);
    assert_eq!(ids(&b), vec!["c", "a", "b", "d"]);
    assert_eq!(b.feed.selected(), Some(0));
}

#[test]
fn a_delivery_keeps_the_selected_index() {
    let mut b = Browser::new(vec![post("a", 3), post("b", 2), post("c", 1)]);
    b.handle_key(KeyInput::Down);
    b.handle_key(KeyInput::Refresh);
    b.refresh_delivered(vec![post("d", 9), post("e", 0)]);
    assert_eq!(ids(&b), vec!["d", "a", "b", "c", "e"]);
    assert_eq!(b.feed.selected(), Some(1));
    let mut empty = Browser::new(vec![]);
    empty.refresh_delivered(vec![post("x", 1)]);
    assert_eq!(empty.feed.selected(), Some(0));
}

#[test]
fn keys_move_the_selection() {
    let mut b = Browser::new((0..30).map(|i| post(&format!("p{}", i), 100 - i)).collect());
    assert!(matches!(b.handle_key(KeyInput::Down), Action::Redraw));
    assert_eq!(b.feed.selected(), Some(1));
    b.handle_key(KeyInput::PageDown);
    assert_eq!(b.feed.selected(), Some(11));
    b.handle_key(KeyInput::Bottom);
    assert_eq!(b.feed.selected(), Some(29));
    b.handle_key(KeyInput::PageUp);
    assert_eq!(b.feed.selected(), Some(19));
    b.handle_key(KeyInput::Top);
    assert_eq!(b.feed.selected(), Some(0));
    b.handle_key(KeyInput::Up);
    assert_eq!(b.feed.selected(), Some(0));
    assert!(matches!(b.handle_key(KeyInput::Quit), Action::Exit));
    assert!(matches!(b.handle_key(KeyInput::Other), Action::Ignore));
    assert!(matches!(b.handle_key(KeyInput::Compose), Action::Compose));
}

#[test]
fn reply_names_the_thread_root_and_the_selected_post() {
    let mut threaded = post("child", 5);
    threaded.root_id = Some("top".to_string());
    let mut b = Browser::new(vec![threaded, post("lone", 1)]);
    match b.handle_key(KeyInput::Reply) {
        Action::ComposeReply { root_id, reply_id } => {
            assert_eq!(root_id, "top");
            assert_eq!(reply_id, "child");
        }
        other => panic!("unexpected {:?}", other),
    }
    b.handle_key(KeyInput::Down);
    match b.handle_key(KeyInput::Reply) {
        Action::ComposeReply { root_id, reply_id } => {
            assert_eq!(root_id, "lone");
            assert_eq!(reply_id, "lone");
        }
        other => panic!("unexpected {:?}", other),
    }
    let mut empty = Browser::new(vec![]);
    assert!(matches!(empty.handle_key(KeyInput::Reply), Action::Ignore));
}

#[test]
fn reply_target_and_tags() {
    let p = post("solo", 1);
    assert_eq!(reply_target(&p), ("solo".to_string(), "solo".to_string()));
    let tags = reply_tags(&"r".to_string(), &"p".to_string());
    assert_eq!(tags, vec![vec!["e", "r", "", "root"], vec!["e", "p", "", "reply"]]);
    let tags = reply_tags(&"r".to_string(), &"r".to_string());
    assert_eq!(tags, vec![vec!["e", "r", "", "root"]]);
}

#[test]
fn reply_tags_read_back_as_the_same_thread() {
    let tags = reply_tags(&"r".to_string(), &"p".to_string());
    let t = nostratui::thread::thread_of_raw_tags(&tags);
    assert_eq!(t.root_id.as_deref(), Some("r"));
    assert_eq!(t.reply_id.as_deref(), Some("p"));
}
