use vstd::prelude::*;
use crate::cache::{has_id, merged, contains_id};
use crate::list::{
    clamped, newest_first, next_selection, previous_selection, sort_newest_first, StatefulList,
};
use crate::post::Post;
use crate::text::texts;
use crate::thread::{
    any_marked, event_kind, last_marked, raw_tag_models, reply_marker, marker_of, root_marker, tag_model,
    thread_reply, thread_root, Marker, TagModel,
};

verus! {

/// How many items a page jump moves the selection by.
pub const PAGE_STEP: i16 = 10;

/// A key press, as the browsing loop reads it.
#[derive(Debug, Clone, Copy, PartialEq, Eq, Structural)]
pub enum KeyInput {
    Quit,
    Down,
    Up,
    PageDown,
    PageUp,
    Top,
    Bottom,
    Refresh,
    Compose,
    Reply,
    Other,
}

/// What the browsing loop must do after a key press.
#[derive(Debug)]
pub enum Action {
    /// Leave the loop.
    Exit,
    /// Draw the feed again.
    Redraw,
    /// Fetch new posts in the background and deliver them when done.
    StartRefresh,
    /// Compose a new note.
    Compose,
    /// Compose a reply to the note `reply_id` of the thread `root_id`.
    ComposeReply { root_id: String, reply_id: String },
    /// Nothing to do.
    Ignore,
}

/// The browsing state: the feed on display and whether a refresh is under
/// way. At most one refresh runs at a time.
pub struct Browser {
    pub feed: StatefulList<Post>,
    pub refreshing: bool,
}

/// The thread and parent that a reply to `p` names: the root of `p`'s thread
/// (or `p` itself when it starts one) and `p`.
pub open spec fn reply_target_of(p: Post) -> (Seq<char>, Seq<char>) {
    match p.root_id {
        Some(root) => (root@, p.id@),
        None => (p.id@, p.id@),
    }
}

/// The thread and parent that a reply to `post` names.
pub fn reply_target(post: &Post) -> (r: (String, String))
    ensures
        (r.0@, r.1@) == reply_target_of(*post),
{
    let root = match &post.root_id {
        Some(root) => root.clone(),
        None => post.id.clone(),
    };
    (root, post.id.clone())
}

/// The raw tags of a reply: a `root` reference, then a `reply` reference
/// when the parent is not the root itself.
pub open spec fn reply_tag_texts(root: Seq<char>, parent: Seq<char>) -> Seq<Seq<Seq<char>>> {
    let root_tag = seq![event_kind(), root, Seq::empty(), root_marker()];
    let reply_tag = seq![event_kind(), parent, Seq::empty(), reply_marker()];
    if parent == root {
        seq![root_tag]
    } else {
        seq![root_tag, reply_tag]
    }
}

fn text_of(s: &str) -> (r: String)
    ensures
        r@ == s@,
{
    s.to_string()
}

fn event_tag(id: &String, marker: &str) -> (r: Vec<String>)
    ensures
        texts(r@) == seq![event_kind(), id@, Seq::empty(), marker@],
{
    proof {
        reveal_strlit("e");
        reveal_strlit("");
        assert("e"@ =~= event_kind());
        assert(""@ =~= Seq::<char>::empty());
    }
    let mut tag: Vec<String> = Vec::new();
    tag.push(text_of("e"));
    tag.push(id.clone());
    tag.push(text_of(""));
    tag.push(text_of(marker));
    assert(texts(tag@) =~= seq![event_kind(), id@, Seq::empty(), marker@]);
    tag
}

/// The tags that attach a reply to note `reply_id` of thread `root_id`.
pub fn reply_tags(root_id: &String, reply_id: &String) -> (r: Vec<Vec<String>>)
    ensures
        r@.map_values(|t: Vec<String>| texts(t@)) == reply_tag_texts(root_id@, reply_id@),
{
    proof {
        reveal_strlit("root");
        reveal_strlit("reply");
        assert("root"@ =~= root_marker());
        assert("reply"@ =~= reply_marker());
    }
    let mut tags: Vec<Vec<String>> = Vec::new();
    tags.push(event_tag(root_id, "root"));
    if *reply_id != *root_id {
        tags.push(event_tag(reply_id, "reply"));
    }
    assert(tags@.map_values(|t: Vec<String>| texts(t@)) =~= reply_tag_texts(root_id@, reply_id@));
    tags
}

/// The tags of a reply read back as the thread they were made for: its root,
/// and its parent unless the parent is the root.
pub proof fn lemma_reply_tags_round_trip(raw: Seq<Vec<String>>, root: Seq<char>, parent: Seq<char>)
    requires
        raw.map_values(|t: Vec<String>| texts(t@)) == reply_tag_texts(root, parent),
    ensures
        thread_root(raw_tag_models(raw)) == Some(root),
        thread_reply(raw_tag_models(raw)) == (if parent == root { None } else { Some(parent) }),
{
    let ms = raw_tag_models(raw);
    let tx = raw.map_values(|t: Vec<String>| texts(t@));
    let expected = reply_tag_texts(root, parent);
    assert(root_marker() != reply_marker()) by {
        assert(root_marker()[1] != reply_marker()[1]);
    }
    assert(raw.len() == expected.len());
    assert(ms[0] == tag_model(tx[0]));
    assert(tx[0] == expected[0]);
    assert(marker_of(tx[0]) == Some(Marker::Root));
    if parent != root {
        assert(ms[1] == tag_model(tx[1]));
        assert(tx[1] == expected[1]);
        assert(marker_of(tx[1]) == Some(Marker::Reply));
        assert(ms.drop_last().drop_last() =~= Seq::<TagModel>::empty());
        assert(ms.drop_last().last() == ms[0]);
        assert(ms[0] == TagModel::Event(root, Some(Marker::Root)));
        assert(ms[1] == TagModel::Event(parent, Some(Marker::Reply)));
        assert(any_marked(ms));
        assert(last_marked(ms.drop_last(), Marker::Root) == Some(root));
        assert(last_marked(ms, Marker::Root) == Some(root));
        assert(last_marked(ms, Marker::Reply) == Some(parent));
    } else {
        assert(ms.drop_last() =~= Seq::<TagModel>::empty());
        assert(ms[0] == TagModel::Event(root, Some(Marker::Root)));
        assert(any_marked(ms));
        assert(last_marked(ms.drop_last(), Marker::Reply) == None::<Seq<char>>);
        assert(last_marked(ms, Marker::Reply) == None::<Seq<char>>);
    }
}

proof fn lemma_has_id_concat(a: Seq<Post>, b: Seq<Post>, id: Seq<char>)
    ensures
        has_id(a + b, id) <==> (has_id(a, id) || has_id(b, id)),
{
    if has_id(a + b, id) {
        let i = choose|i: int| 0 <= i < (a + b).len() && (#[trigger] (a + b)[i]).id@ == id;
        if i >= a.len() {
            assert(b[i - a.len()] == (a + b)[i]);
        }
    }
    if has_id(a, id) {
        let i = choose|i: int| 0 <= i < a.len() && (#[trigger] a[i]).id@ == id;
        assert((a + b)[i] == a[i]);
    }
    if has_id(b, id) {
        let i = choose|i: int| 0 <= i < b.len() && (#[trigger] b[i]).id@ == id;
        assert((a + b)[a.len() + i] == b[i]);
    }
}

impl Browser {
    pub open spec fn wf(&self) -> bool {
        self.feed.wf()
    }

    /// A browser over `posts`, newest first, with the newest selected.
    pub fn new(posts: Vec<Post>) -> (r: Browser)
        ensures
            r.wf(),
            !r.refreshing,
            r.feed@.0.to_multiset() == posts@.to_multiset(),
            r.feed@.1 == clamped(posts@.len(), 0),
            newest_first(posts@, r.feed@.0),
    {
        let mut feed = StatefulList::with_items(posts);
        sort_newest_first(&mut feed);
        Browser { feed, refreshing: false }
    }

    /// Takes the posts that a refresh delivered: those whose identifier the
    /// feed lacks join it, the feed is ordered newest first again, and a new
    /// refresh may start. The selected index stays as it was.
    pub fn refresh_delivered(&mut self, new_posts: Vec<Post>)
        requires
            old(self).wf(),
        ensures
            final(self).wf(),
            !final(self).refreshing,
            final(self).feed@.0.to_multiset() == merged(old(self).feed@.0, new_posts@).to_multiset(),
            newest_first(merged(old(self).feed@.0, new_posts@), final(self).feed@.0),
            final(self).feed@.1 == match old(self).feed@.1 {
                Some(i) => Some(i),
                None => clamped(final(self).feed@.0.len(), 0),
            },
    {
        let ghost shown = self.feed@.0;
        let ghost all = new_posts@;
        let n = new_posts.len();
        let mut rest = new_posts;
        let mut fresh: Vec<Post> = Vec::new();
        let mut k: usize = 0;
        while rest.len() > 0
            invariant
                self.feed.wf(),
                self.feed@.0 == shown,
                n == all.len(),
                k + rest@.len() == n,
                rest@ == all.subrange(k as int, n as int),
                shown + fresh@ == merged(shown, all.subrange(0, k as int)),
            decreases rest@.len(),
        {
            let post = rest.remove(0);
            assert(all.subrange(0, k + 1).drop_last() =~= all.subrange(0, k as int));
            assert(rest@ =~= all.subrange(k + 1, n as int));
            proof {
                lemma_has_id_concat(shown, fresh@, post.id@);
            }
            if !contains_id(self.feed.items(), &post.id) && !contains_id(&fresh, &post.id) {
                fresh.push(post);
                assert(shown + fresh@ =~= (shown + fresh@.drop_last()).push(post));
            }
            k = k + 1;
        }
        assert(all.subrange(0, n as int) =~= all);
        self.feed.add_items(fresh);
        sort_newest_first(&mut self.feed);
        self.refreshing = false;
    }

    /// Decides what a key press does: moves the selection, starts a refresh
    /// unless one is under way, or asks for a note or a reply to compose.
    pub fn handle_key(&mut self, key: KeyInput) -> (a: Action)
        requires
            old(self).wf(),
        ensures
            final(self).wf(),
            final(self).feed@.0 == old(self).feed@.0,
            final(self).refreshing == (old(self).refreshing || key == KeyInput::Refresh),
            final(self).feed@.1 == match key {
                KeyInput::Down => next_selection(old(self).feed@.0.len(), old(self).feed@.1),
                KeyInput::Up => previous_selection(old(self).feed@.0.len(), old(self).feed@.1),
                KeyInput::PageDown => match old(self).feed@.1 {
                    Some(i) => clamped(old(self).feed@.0.len(), i + PAGE_STEP),
                    None => None,
                },
                KeyInput::PageUp => match old(self).feed@.1 {
                    Some(i) => clamped(old(self).feed@.0.len(), i - PAGE_STEP),
                    None => None,
                },
                KeyInput::Top => clamped(old(self).feed@.0.len(), 0),
                KeyInput::Bottom => clamped(old(self).feed@.0.len(), old(self).feed@.0.len() - 1),
                _ => old(self).feed@.1,
            },
            match key {
                KeyInput::Quit => a is Exit,
                KeyInput::Refresh => if old(self).refreshing {
                    a is Ignore
                } else {
                    a is StartRefresh
                },
                KeyInput::Compose => a is Compose,
                KeyInput::Reply => match old(self).feed@.1 {
                    Some(i) => match a {
                        Action::ComposeReply { root_id, reply_id } => (root_id@, reply_id@)
                            == reply_target_of(old(self).feed@.0[i as int]),
                        _ => false,
                    },
                    None => a is Ignore,
                },
                KeyInput::Other => a is Ignore,
                _ => a is Redraw,
            },
    {
        match key {
            KeyInput::Quit => Action::Exit,
            KeyInput::Down => {
                self.feed.next();
                Action::Redraw
            },
            KeyInput::Up => {
                self.feed.previous();
                Action::Redraw
            },
            KeyInput::PageDown => {
                self.feed.jump_down(PAGE_STEP);
                Action::Redraw
            },
            KeyInput::PageUp => {
                self.feed.jump_up(PAGE_STEP);
                Action::Redraw
            },
            KeyInput::Top => {
                self.feed.first();
                Action::Redraw
            },
            KeyInput::Bottom => {
                self.feed.last();
                Action::Redraw
            },
            KeyInput::Refresh => {
                if self.refreshing {
                    Action::Ignore
                } else {
                    self.refreshing = true;
                    Action::StartRefresh
                }
            },
            KeyInput::Compose => Action::Compose,
            KeyInput::Reply => match self.feed.selected_item() {
                Some(post) => {
                    let (root_id, reply_id) = reply_target(post);
                    Action::ComposeReply { root_id, reply_id }
                },
                None => Action::Ignore,
            },
            KeyInput::Other => Action::Ignore,
        }
    }
}

} // verus!
