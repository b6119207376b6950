use nostratui::cache::{contains_id, is_cache_empty, merge_posts, snapshot_from, CacheRead};
use nostratui::post::Post;

fn post(id: &str, timestamp: u64) -> Post {
    Post {
        user: "alice".to_string(),
        timestamp,
        datetime: String::new(),
        content: format!("note {}", id),
        id: id.to_string(),
        root_id: None,
        reply_id: None,
        mentions: vec![],
        participants: vec![],
    }
}

fn ids(posts: &[Post]) -> Vec<String> {
    posts.iter().map(|p| p.id.clone()).collect()
}

#[test]
fn two_overlapping_batches_merge_to_their_union() {
    let mut cache = Vec::new();
    merge_posts(&mut cache, vec![post("a", 1), post("b", 2)]);
    merge_posts(&mut cache, vec![post("b", 2), post("c", 3), post("c", 3)]);
    assert_eq!(ids(&cache), vec!["a", "b", "c"]);
}

#[test]
fn merging_a_batch_twice_changes_nothing() {
    let mut once = Vec::new();
    merge_posts(&mut once, vec![post("x", 1), post("y", 2)]);
    let mut twice = Vec::new();
    merge_posts(&mut twice, vec![post("x", 1), post("y", 2)]);
    merge_posts(&mut twice, vec![post("x", 1), post("y", 2)]);
    assert_eq!(ids(&once), ids(&twice));
}

#[test]
fn first_insertion_wins() {
    let mut cache = vec![post("a", 1)];
    let mut newer = post("a", 9);
    newer.content = "changed".to_string();
    merge_posts(&mut cache, vec![newer]);
    assert_eq!(cache.len(), 1);
    assert_eq!(cache[0].content, "note a");
    assert_eq!(cache[0].timestamp, 1);
}

#[test]
fn root_and_reply_then_root_again() {
    let mut cache = snapshot_from(CacheRead::Missing);
    assert!(is_cache_empty(&cache));
    let a1 = post("a1", 10);
    let mut a2 = post("a2", 20);
    a2.reply_id = Some("a1".to_string());
    merge_posts(&mut cache, vec![a1, a2]);
    assert_eq!(ids(&cache), vec!["a1", "a2"]);
    assert!(cache[0].is_root());
    assert!(cache[1].is_reply());
    merge_posts(&mut cache, vec![post("a1", 10)]);
    assert_eq!(ids(&cache), vec!["a1", "a2"]);
    assert!(!is_cache_empty(&cache));
}

#[test]
fn missing_or_corrupt_cache_is_empty() {
    assert!(snapshot_from(CacheRead::Missing).is_empty());
    assert!(snapshot_from(CacheRead::Corrupt).is_empty());
    let parsed = snapshot_from(CacheRead::Parsed(vec![post("k", 1)]));
    assert_eq!(ids(&parsed), vec!["k"]);
}

#[test]
fn contains_id_finds_only_present_ids() {
    let cache = vec![post("a", 1), post("b", 2)];
    assert!(contains_id(&cache, &"b".to_string()));
    assert!(!contains_id(&cache, &"c".to_string()));
    assert!(!contains_id(&vec![], &"a".to_string()));
}

#[test]
fn post_thread_roles() {
    let mut p = post("p", 1);
    assert!(p.is_root() && !p.is_reply() && !p.is_thread_reply());
    p.reply_id = Some("q".to_string());
    assert!(!p.is_root() && p.is_reply() && !p.is_thread_reply());
    p.root_id = Some("r".to_string());
    assert!(p.is_thread_reply());
    p.reply_id = None;
    assert!(!p.is_root() && !p.is_reply() && !p.is_thread_reply());
}
