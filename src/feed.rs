use vstd::prelude::*;
use chrono::TimeZone;
use crate::cache::{
    has_id, ids, lemma_merged_concat, lemma_merged_ids, lemma_merged_records, lemma_merged_unique,
    merge_posts, merged, unique_ids,
};
use crate::list::{keys_ascending, oldest_first, rearranges, StatefulList};
use crate::post::Post;
use crate::text::opt_text;
use crate::text::texts;
use crate::thread::{raw_tag_models, thread_of_raw_tags, thread_mentions, thread_reply, thread_root, identities};

verus! {

/// Seconds within which one contact's fetch must complete.
pub const FETCH_TIMEOUT_SECS: u64 = 10;

/// Seconds that the event source itself is given; looser than the fetch's
/// own bound, which is the one that binds.
pub const SOURCE_TIMEOUT_SECS: u64 = 30;

/// A note as the event source delivers it.
pub struct RawEvent {
    /// The note's identifier, in hexadecimal.
    pub id: String,
    /// The author's identity, in hexadecimal.
    pub author: String,
    pub created_at: u64,
    pub content: String,
    /// Each tag as its kind followed by its values.
    pub tags: Vec<Vec<String>>,
}

/// How one contact's fetch ended.
pub enum FetchOutcome {
    Fetched(Vec<RawEvent>),
    TimedOut,
    Failed(String),
}

/// The fetch made for one contact.
pub struct ContactFetch {
    /// The contact's display name, which its posts are attributed to.
    pub author: String,
    pub outcome: FetchOutcome,
}

/// `p` is the post for note `e` written by `author`.
pub open spec fn describes(p: Post, e: RawEvent, author: Seq<char>) -> bool {
    let tags = raw_tag_models(e.tags@);
    &&& p.id@ == e.id@
    &&& p.user@ == author
    &&& p.timestamp == e.created_at
    &&& p.content@ == e.content@
    &&& opt_text(p.root_id) == thread_root(tags)
    &&& opt_text(p.reply_id) == thread_reply(tags)
    &&& texts(p.mentions@) == thread_mentions(tags)
    &&& texts(p.participants@) == identities(tags)
}

/// The notes that a fetch brought, each with its author.
pub open spec fn notes_of(f: ContactFetch) -> Seq<(RawEvent, Seq<char>)> {
    match f.outcome {
        FetchOutcome::Fetched(events) => events@.map_values(|e: RawEvent| (e, f.author@)),
        _ => Seq::empty(),
    }
}

/// The notes that all the fetches brought, in order.
pub open spec fn fetched_notes(fetches: Seq<ContactFetch>) -> Seq<(RawEvent, Seq<char>)>
    decreases fetches.len(),
{
    if fetches.len() == 0 {
        Seq::empty()
    } else {
        fetched_notes(fetches.drop_last()) + notes_of(fetches.last())
    }
}

/// `posts` are the posts for `notes`, one for one.
pub open spec fn posts_for(posts: Seq<Post>, notes: Seq<(RawEvent, Seq<char>)>) -> bool {
    &&& posts.len() == notes.len()
    &&& forall|j: int| 0 <= j < notes.len() ==> describes(#[trigger] posts[j], notes[j].0, notes[j].1)
}

/// Relies on chrono: `Utc.timestamp_opt` places the instant (`single` is
/// `None` out of chrono's range), `DateTime<Local>::from` moves it to the
/// machine's time zone and `format` renders it. The result depends on that
/// time zone, so nothing is stated of it; chrono panics here only when the
/// machine's time zone data cannot be used, whatever `secs` is.
#[verifier::external_body]
fn local_time_label(secs: i64) -> (r: Option<String>) {
    match chrono::Utc.timestamp_opt(secs, 0).single() {
        Some(t) => Some(chrono::DateTime::<chrono::Local>::from(t).format("%H:%M %h-%d-%Y").to_string()),
        None => None,
    }
}

/// The post for note `event` by `author`, shown with `datetime`: its thread
/// relationships come from the note's tags, its author from the contact.
pub fn post_from_event(event: RawEvent, author: &String, datetime: String) -> (p: Post)
    ensures
        describes(p, event, author@),
        p.datetime@ == datetime@,
{
    let thread = thread_of_raw_tags(&event.tags);
    Post {
        user: author.clone(),
        timestamp: event.created_at,
        datetime,
        content: event.content,
        id: event.id,
        root_id: thread.root_id,
        reply_id: thread.reply_id,
        mentions: thread.mentions,
        participants: thread.participants,
    }
}

/// The author a converted note is attributed to: `author` when given, else
/// the note's own author.
pub open spec fn attributed(e: RawEvent, author: Option<&String>) -> Seq<char> {
    match author {
        Some(a) => a@,
        None => e.author@,
    }
}

/// The posts for `events`, in order, each attributed as `author` says and
/// shown with its creation time in local time (empty where it cannot be
/// shown).
fn convert_events(events: Vec<RawEvent>, author: Option<&String>) -> (r: Vec<Post>)
    ensures
        r@.len() == events@.len(),
        forall|j: int|
            0 <= j < events@.len() ==> describes(#[trigger] r@[j], events@[j], attributed(events@[j], author)),
{
    let ghost all = events@;
    let n = events.len();
    let mut rest = events;
    let mut r: Vec<Post> = Vec::new();
    while rest.len() > 0
        invariant
            n == all.len(),
            r@.len() + rest@.len() == n,
            rest@ == all.subrange(r@.len() as int, n as int),
            forall|j: int| 0 <= j < r@.len() ==> describes(#[trigger] r@[j], all[j], attributed(all[j], author)),
        decreases rest@.len(),
    {
        let event = rest.remove(0);
        assert(event == all[r@.len() as int]);
        assert(rest@ =~= all.subrange(r@.len() as int + 1, n as int));
        let label = if event.created_at <= i64::MAX as u64 {
            local_time_label(event.created_at as i64)
        } else {
            None
        };
        let datetime = match label {
            Some(s) => s,
            None => String::new(),
        };
        let name = match author {
            Some(a) => a.clone(),
            None => event.author.clone(),
        };
        let post = post_from_event(event, &name, datetime);
        r.push(post);
    }
    r
}

/// The posts for the notes that one contact's fetch brought, in order, each
/// with its creation time in local time (empty where it cannot be shown).
pub fn events_to_posts(author: &String, events: Vec<RawEvent>) -> (r: Vec<Post>)
    ensures
        r@.len() == events@.len(),
        forall|j: int| 0 <= j < events@.len() ==> describes(#[trigger] r@[j], events@[j], author@),
{
    convert_events(events, Some(author))
}

/// The posts of one refresh: the union, one post per identifier, of the
/// notes of every contact whose fetch succeeded. A contact whose fetch timed
/// out or failed adds nothing and stops nothing.
pub fn collect_posts(fetches: Vec<ContactFetch>) -> (r: Vec<Post>)
    ensures
        exists|converted: Seq<Post>|
            posts_for(converted, fetched_notes(fetches@)) && r@ == merged(
                Seq::empty(),
                converted,
            ),
{
    let ghost all = fetches@;
    let n = fetches.len();
    let mut rest = fetches;
    let mut batch: Vec<Post> = Vec::new();
    let ghost mut converted: Seq<Post> = Seq::empty();
    let mut k: usize = 0;
    while rest.len() > 0
        invariant
            n == all.len(),
            k + rest@.len() == n,
            rest@ == all.subrange(k as int, n as int),
            posts_for(converted, fetched_notes(all.subrange(0, k as int))),
            batch@ == merged(Seq::empty(), converted),
        decreases rest@.len(),
    {
        let fetch = rest.remove(0);
        assert(fetch == all[k as int]);
        assert(rest@ =~= all.subrange(k + 1, n as int));
        assert(all.subrange(0, k + 1).drop_last() =~= all.subrange(0, k as int));
        let ghost done = fetched_notes(all.subrange(0, k as int));
        let ContactFetch { author, outcome } = fetch;
        match outcome {
            FetchOutcome::Fetched(events) => {
                let ghost evs = events@;
                let posts = events_to_posts(&author, events);
                proof {
                    lemma_merged_concat(Seq::empty(), converted, posts@);
                    let notes = evs.map_values(|e: RawEvent| (e, author@));
                    assert(fetched_notes(all.subrange(0, k + 1)) == done + notes);
                    assert forall|j: int| 0 <= j < (done + notes).len() implies describes(
                        #[trigger] (converted + posts@)[j],
                        (done + notes)[j].0,
                        (done + notes)[j].1,
                    ) by {
                        if j >= done.len() {
                            assert(notes[j - done.len()] == (evs[j - done.len()], author@));
                        }
                    }
                    converted = converted + posts@;
                }
                merge_posts(&mut batch, posts);
            },
            _ => {
                assert(fetched_notes(all.subrange(0, k + 1)) =~= done);
            },
        }
        k = k + 1;
    }
    assert(all.subrange(0, n as int) =~= all);
    batch
}

/// Each note with its own author.
pub open spec fn self_authored(events: Seq<RawEvent>) -> Seq<(RawEvent, Seq<char>)> {
    events.map_values(|e: RawEvent| (e, e.author@))
}

/// The posts of a thread, oldest first (notes of the same second keep their
/// order), each attributed to its author's identity.
pub fn thread_posts(events: Vec<RawEvent>) -> (r: Vec<Post>)
    ensures
        exists|converted: Seq<Post>|
            posts_for(converted, self_authored(events@)) && oldest_first(converted, r@),
{
    let ghost all = events@;
    let posts = convert_events(events, None);
    let ghost converted = posts@;
    assert(posts_for(converted, self_authored(all)));
    let mut list = StatefulList::with_items(posts);
    let time = |p: &Post| -> (k: u64)
        ensures
            k == p.timestamp,
        { p.timestamp };
    list.sort_by(time);
    let ghost (ks, perm) = choose|ks: Seq<u64>, perm: Seq<int>|
        {
            &&& keys_ascending(list@.0, time, ks)
            &&& rearranges(converted, list@.0, perm)
            &&& forall|i: int, j: int| 0 <= i < j < ks.len() && ks[i] == ks[j] ==> perm[i] < perm[j]
        };
    assert forall|i: int, j: int|
        0 <= i < j < list@.0.len() implies #[trigger] list@.0[i].timestamp
        <= #[trigger] list@.0[j].timestamp by {
        assert(time.ensures((&list@.0[i],), ks[i]));
        assert(time.ensures((&list@.0[j],), ks[j]));
    }
    assert forall|i: int, j: int|
        0 <= i < j < list@.0.len() && list@.0[i].timestamp == list@.0[j].timestamp implies perm[i]
        < perm[j] by {
        assert(time.ensures((&list@.0[i],), ks[i]));
        assert(time.ensures((&list@.0[j],), ks[j]));
    }
    assert(oldest_first(converted, list@.0));
    list.into_items()
}

/// A refresh yields one post per identifier: each post is the post of a note
/// that a successful fetch brought, and every such note has its identifier
/// among the posts.
pub proof fn lemma_batch_is_union(converted: Seq<Post>, notes: Seq<(RawEvent, Seq<char>)>)
    requires
        posts_for(converted, notes),
    ensures
        unique_ids(merged(Seq::empty(), converted)),
        forall|k: int|
            0 <= k < merged(Seq::empty(), converted).len() ==> exists|j: int|
                0 <= j < notes.len() && describes(
                    #[trigger] merged(Seq::empty(), converted)[k],
                    notes[j].0,
                    notes[j].1,
                ),
        forall|j: int| 0 <= j < notes.len() ==> has_id(merged(Seq::empty(), converted), #[trigger] notes[j].0.id@),
{
    let batch = merged(Seq::<Post>::empty(), converted);
    lemma_merged_unique(Seq::empty(), converted);
    lemma_merged_ids(Seq::empty(), converted);
    assert forall|k: int| 0 <= k < batch.len() implies exists|j: int|
        0 <= j < notes.len() && describes(#[trigger] batch[k], notes[j].0, notes[j].1) by {
        lemma_merged_records(Seq::empty(), converted, k);
        let j = choose|j: int| 0 <= j < converted.len() && converted[j] == batch[k];
        assert(describes(converted[j], notes[j].0, notes[j].1));
    }
    assert forall|j: int| 0 <= j < notes.len() implies has_id(batch, #[trigger] notes[j].0.id@) by {
        assert(describes(converted[j], notes[j].0, notes[j].1));
        assert(has_id(converted, converted[j].id@));
        assert(ids(converted).contains(notes[j].0.id@));
        assert(ids(batch).contains(notes[j].0.id@));
    }
}

/// A contact whose fetch did not succeed contributes no note: the notes of a
/// refresh are those of the other contacts.
pub proof fn lemma_failed_fetch_adds_nothing(fetches: Seq<ContactFetch>, k: int)
    requires
        0 <= k < fetches.len(),
        !(fetches[k].outcome is Fetched),
    ensures
        fetched_notes(fetches) == fetched_notes(fetches.remove(k)),
    decreases fetches.len(),
{
    let last = fetches.len() - 1;
    if k == last {
        assert(fetches.remove(k) =~= fetches.drop_last());
        assert(notes_of(fetches.last()) =~= Seq::<(RawEvent, Seq<char>)>::empty());
        assert(fetched_notes(fetches) =~= fetched_notes(fetches.drop_last()));
    } else {
        lemma_failed_fetch_adds_nothing(fetches.drop_last(), k);
        assert(fetches.remove(k).drop_last() =~= fetches.drop_last().remove(k));
        assert(fetches.remove(k).last() == fetches.last());
    }
}

} // verus!
