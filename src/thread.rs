use vstd::prelude::*;
use crate::text::{texts, opt_text, equals_word, copy_strings};

verus! {

/// The marker an event reference carries: the role it claims in its
/// thread, or some other marker (such as `mention`).
#[derive(Debug, Clone, Copy, PartialEq, Eq, Structural)]
pub enum Marker {
    Root,
    Reply,
    Other,
}

/// One relational tag of a note, read once from its raw strings.
#[derive(Debug, Clone)]
pub enum TagRef {
    /// A reference to another note, with the marker it carries, if any.
    Event { id: String, marker: Option<Marker> },
    /// A reference to an identity taking part in the conversation.
    Identity { id: String },
    /// Any other kind of tag; it plays no part in threading.
    Unknown,
}

/// The mathematical value of a tag.
pub enum TagModel {
    Event(Seq<char>, Option<Marker>),
    Identity(Seq<char>),
    Unknown,
}

impl View for TagRef {
    type V = TagModel;

    open spec fn view(&self) -> TagModel {
        match self {
            TagRef::Event { id, marker } => TagModel::Event(id@, *marker),
            TagRef::Identity { id } => TagModel::Identity(id@),
            TagRef::Unknown => TagModel::Unknown,
        }
    }
}

pub open spec fn tag_models(tags: Seq<TagRef>) -> Seq<TagModel> {
    tags.map_values(|t: TagRef| t@)
}

pub open spec fn event_kind() -> Seq<char> {
    seq!['e']
}

pub open spec fn identity_kind() -> Seq<char> {
    seq!['p']
}

pub open spec fn root_marker() -> Seq<char> {
    seq!['r', 'o', 'o', 't']
}

pub open spec fn reply_marker() -> Seq<char> {
    seq!['r', 'e', 'p', 'l', 'y']
}

/// The marker of an event tag: its fourth string, when it has one.
pub open spec fn marker_of(raw: Seq<Seq<char>>) -> Option<Marker> {
    if raw.len() < 4 {
        None
    } else if raw[3] == root_marker() {
        Some(Marker::Root)
    } else if raw[3] == reply_marker() {
        Some(Marker::Reply)
    } else {
        Some(Marker::Other)
    }
}

/// What a raw tag means: `["e", id, relay, marker]` (relay and marker
/// optional) refers to a note, `["p", id, ..]` to an identity.
pub open spec fn tag_model(raw: Seq<Seq<char>>) -> TagModel {
    if raw.len() >= 2 && raw[0] == event_kind() {
        TagModel::Event(raw[1], marker_of(raw))
    } else if raw.len() >= 2 && raw[0] == identity_kind() {
        TagModel::Identity(raw[1])
    } else {
        TagModel::Unknown
    }
}

pub open spec fn marks(t: TagModel, marker: Marker) -> bool {
    match t {
        TagModel::Event(_, Some(m)) => m == marker,
        _ => false,
    }
}

/// An event reference that carries a marker, whichever it is.
pub open spec fn is_marked(t: TagModel) -> bool {
    match t {
        TagModel::Event(_, Some(_)) => true,
        _ => false,
    }
}

/// An event reference that claims neither the root nor the parent.
pub open spec fn is_plain_ref(t: TagModel) -> bool {
    match t {
        TagModel::Event(_, None) => true,
        TagModel::Event(_, Some(Marker::Other)) => true,
        _ => false,
    }
}

pub open spec fn is_identity(t: TagModel) -> bool {
    match t {
        TagModel::Identity(_) => true,
        _ => false,
    }
}

pub open spec fn target(t: TagModel) -> Seq<char> {
    match t {
        TagModel::Event(id, _) => id,
        TagModel::Identity(id) => id,
        TagModel::Unknown => Seq::empty(),
    }
}

/// Whether some event reference carries a marker.
pub open spec fn any_marked(tags: Seq<TagModel>) -> bool
    decreases tags.len(),
{
    if tags.len() == 0 {
        false
    } else {
        is_marked(tags.last()) || any_marked(tags.drop_last())
    }
}

/// The target of the last event reference marked with `role`.
pub open spec fn last_marked(tags: Seq<TagModel>, role: Marker) -> Option<Seq<char>>
    decreases tags.len(),
{
    if tags.len() == 0 {
        None
    } else if marks(tags.last(), role) {
        Some(target(tags.last()))
    } else {
        last_marked(tags.drop_last(), role)
    }
}

/// The targets of the event references marked neither `root` nor `reply`,
/// in order. Without any marker, these are all the event references.
pub open spec fn plain_refs(tags: Seq<TagModel>) -> Seq<Seq<char>>
    decreases tags.len(),
{
    if tags.len() == 0 {
        Seq::empty()
    } else if is_plain_ref(tags.last()) {
        plain_refs(tags.drop_last()).push(target(tags.last()))
    } else {
        plain_refs(tags.drop_last())
    }
}

/// The targets of the identity references, in order.
pub open spec fn identities(tags: Seq<TagModel>) -> Seq<Seq<char>>
    decreases tags.len(),
{
    if tags.len() == 0 {
        Seq::empty()
    } else if is_identity(tags.last()) {
        identities(tags.drop_last()).push(target(tags.last()))
    } else {
        identities(tags.drop_last())
    }
}

/// The root of the thread. Markers decide when any reference carries one;
/// otherwise, by position, the first of two or more references is the root.
pub open spec fn thread_root(tags: Seq<TagModel>) -> Option<Seq<char>> {
    if any_marked(tags) {
        last_marked(tags, Marker::Root)
    } else if plain_refs(tags).len() >= 2 {
        Some(plain_refs(tags)[0])
    } else {
        None
    }
}

/// The parent replied to. Markers decide when any reference carries one;
/// otherwise, by position, the last reference is the parent.
pub open spec fn thread_reply(tags: Seq<TagModel>) -> Option<Seq<char>> {
    if any_marked(tags) {
        last_marked(tags, Marker::Reply)
    } else if plain_refs(tags).len() >= 1 {
        Some(plain_refs(tags).last())
    } else {
        None
    }
}

/// The references that are neither root nor parent.
pub open spec fn thread_mentions(tags: Seq<TagModel>) -> Seq<Seq<char>> {
    let u = plain_refs(tags);
    if any_marked(tags) {
        u
    } else if u.len() >= 2 {
        u.subrange(1, u.len() - 1)
    } else {
        Seq::empty()
    }
}

/// The thread relationships of one note.
#[derive(Debug, Clone)]
pub struct Thread {
    pub root_id: Option<String>,
    pub reply_id: Option<String>,
    pub mentions: Vec<String>,
    pub participants: Vec<String>,
}

/// `t` holds what the tags say of the thread.
pub open spec fn resolves(t: Thread, tags: Seq<TagModel>) -> bool {
    &&& opt_text(t.root_id) == thread_root(tags)
    &&& opt_text(t.reply_id) == thread_reply(tags)
    &&& texts(t.mentions@) == thread_mentions(tags)
    &&& texts(t.participants@) == identities(tags)
}

proof fn lemma_last_marked_single(tags: Seq<TagModel>, role: Marker, x: Seq<char>)
    requires
        exists|i: int| 0 <= i < tags.len() && marks(#[trigger] tags[i], role),
        forall|i: int| 0 <= i < tags.len() && marks(#[trigger] tags[i], role) ==> target(tags[i]) == x,
    ensures
        last_marked(tags, role) == Some(x),
        any_marked(tags),
    decreases tags.len(),
{
    let n = tags.len();
    if marks(tags.last(), role) {
        assert(target(tags[n - 1]) == x);
        assert(is_marked(tags.last()));
    } else {
        let i = choose|i: int| 0 <= i < tags.len() && marks(#[trigger] tags[i], role);
        let d = tags.drop_last();
        assert(d[i] == tags[i]);
        assert forall|j: int| 0 <= j < d.len() && marks(#[trigger] d[j], role) implies target(d[j])
            == x by {
            assert(d[j] == tags[j]);
        }
        lemma_last_marked_single(d, role, x);
    }
}

/// A note whose root-marked references all name `r` and whose reply-marked
/// references all name `p`, with at least one of each, has root `r` and
/// parent `p`, whatever its other tags.
pub proof fn lemma_explicit_roles(tags: Seq<TagModel>, r: Seq<char>, p: Seq<char>)
    requires
        exists|i: int| 0 <= i < tags.len() && marks(#[trigger] tags[i], Marker::Root),
        exists|i: int| 0 <= i < tags.len() && marks(#[trigger] tags[i], Marker::Reply),
        forall|i: int|
            0 <= i < tags.len() && marks(#[trigger] tags[i], Marker::Root) ==> target(tags[i]) == r,
        forall|i: int|
            0 <= i < tags.len() && marks(#[trigger] tags[i], Marker::Reply) ==> target(tags[i]) == p,
    ensures
        thread_root(tags) == Some(r),
        thread_reply(tags) == Some(p),
{
    lemma_last_marked_single(tags, Marker::Root, r);
    lemma_last_marked_single(tags, Marker::Reply, p);
}

/// Without markers, two references `[a, b]` make `a` the root and `b`
/// the parent, and a single reference `[x]` is the parent of a note with no
/// root.
pub proof fn lemma_positional_roles(tags: Seq<TagModel>)
    requires
        !any_marked(tags),
    ensures
        plain_refs(tags).len() == 2 ==> thread_root(tags) == Some(plain_refs(tags)[0])
            && thread_reply(tags) == Some(plain_refs(tags)[1]) && thread_mentions(tags).len()
            == 0,
        plain_refs(tags).len() == 1 ==> thread_root(tags) == None::<Seq<char>>
            && thread_reply(tags) == Some(plain_refs(tags)[0]),
{
}

/// Reads one raw tag (a kind, then its values).
pub fn parse_tag(raw: &Vec<String>) -> (t: TagRef)
    ensures
        t@ == tag_model(texts(raw@)),
{
    proof {
        reveal_strlit("e");
        reveal_strlit("p");
        reveal_strlit("root");
        reveal_strlit("reply");
        assert("e"@ =~= event_kind());
        assert("p"@ =~= identity_kind());
        assert("root"@ =~= root_marker());
        assert("reply"@ =~= reply_marker());
    }
    let ghost r = texts(raw@);
    if raw.len() < 2 {
        return TagRef::Unknown;
    }
    if equals_word(&raw[0], "e") {
        let marker = if raw.len() < 4 {
            None
        } else if equals_word(&raw[3], "root") {
            Some(Marker::Root)
        } else if equals_word(&raw[3], "reply") {
            Some(Marker::Reply)
        } else {
            Some(Marker::Other)
        };
        assert(marker == marker_of(r));
        TagRef::Event { id: raw[1].clone(), marker }
    } else if equals_word(&raw[0], "p") {
        TagRef::Identity { id: raw[1].clone() }
    } else {
        TagRef::Unknown
    }
}

/// Reads every raw tag of a note, in order.
pub fn parse_tags(raw: &Vec<Vec<String>>) -> (tags: Vec<TagRef>)
    ensures
        tags@.len() == raw@.len(),
        forall|i: int| 0 <= i < raw@.len() ==> #[trigger] tags@[i]@ == tag_model(texts(raw@[i]@)),
{
    let mut tags: Vec<TagRef> = Vec::new();
    let mut i: usize = 0;
    while i < raw.len()
        invariant
            i <= raw@.len(),
            tags@.len() == i,
            forall|j: int| 0 <= j < i ==> #[trigger] tags@[j]@ == tag_model(texts(raw@[j]@)),
        decreases raw@.len() - i,
    {
        let t = parse_tag(&raw[i]);
        tags.push(t);
        i = i + 1;
    }
    tags
}

/// Derives the thread relationships of a note from its tags.
///
/// When some event reference carries a marker, the markers decide: those
/// marked `root` or `reply` give the root and the parent (the last of each
/// wins; earlier ones are dropped), and every other event reference, with
/// another marker (such as `mention`) or none, is a mention.
/// When no reference carries a marker, the positional convention
/// applies: a lone reference is the parent; of two or more, the first is the
/// root, the last the parent, and those between are mentions. Identity
/// references are the participants; other tags are ignored.
pub fn resolve_thread(tags: &Vec<TagRef>) -> (t: Thread)
    ensures
        resolves(t, tag_models(tags@)),
{
    let ghost ms = tag_models(tags@);
    let mut root: Option<String> = None;
    let mut reply: Option<String> = None;
    let mut marked = false;
    let mut plain: Vec<String> = Vec::new();
    let mut participants: Vec<String> = Vec::new();
    let mut i: usize = 0;
    while i < tags.len()
        invariant
            i <= tags@.len(),
            ms == tag_models(tags@),
            marked == any_marked(ms.subrange(0, i as int)),
            opt_text(root) == last_marked(ms.subrange(0, i as int), Marker::Root),
            opt_text(reply) == last_marked(ms.subrange(0, i as int), Marker::Reply),
            texts(plain@) == plain_refs(ms.subrange(0, i as int)),
            texts(participants@) == identities(ms.subrange(0, i as int)),
        decreases tags@.len() - i,
    {
        let ghost before = ms.subrange(0, i as int);
        let ghost after = ms.subrange(0, i + 1);
        assert(after.drop_last() =~= before);
        assert(after.last() == tags@[i as int]@);
        match &tags[i] {
            TagRef::Event { id, marker } => {
                match marker {
                    Some(Marker::Root) => {
                        root = Some(id.clone());
                        marked = true;
                    },
                    Some(Marker::Reply) => {
                        reply = Some(id.clone());
                        marked = true;
                    },
                    Some(Marker::Other) => {
                        plain.push(id.clone());
                        marked = true;
                        assert(texts(plain@) =~= texts(plain@).drop_last().push(id@));
                    },
                    None => {
                        plain.push(id.clone());
                        assert(texts(plain@) =~= texts(plain@).drop_last().push(id@));
                    },
                }
            },
            TagRef::Identity { id } => {
                participants.push(id.clone());
                assert(texts(participants@) =~= texts(participants@).drop_last().push(id@));
            },
            TagRef::Unknown => {},
        }
        i = i + 1;
    }
    assert(ms.subrange(0, tags@.len() as int) =~= ms);
    let n = plain.len();
    if marked {
        Thread { root_id: root, reply_id: reply, mentions: plain, participants }
    } else if n == 0 {
        assert(texts(plain@) =~= Seq::<Seq<char>>::empty());
        Thread { root_id: None, reply_id: None, mentions: plain, participants }
    } else if n == 1 {
        let parent = plain[0].clone();
        assert(texts(plain@)[0] == parent@);
        let none: Vec<String> = Vec::new();
        assert(texts(none@) =~= Seq::<Seq<char>>::empty());
        Thread { root_id: None, reply_id: Some(parent), mentions: none, participants }
    } else {
        let first = plain[0].clone();
        let last = plain[n - 1].clone();
        assert(texts(plain@)[0] == first@);
        assert(texts(plain@)[n - 1] == last@);
        let between = copy_strings(&plain, 1, n - 1);
        Thread { root_id: Some(first), reply_id: Some(last), mentions: between, participants }
    }
}

/// The meaning of each raw tag of a note.
pub open spec fn raw_tag_models(raw: Seq<Vec<String>>) -> Seq<TagModel> {
    raw.map_values(|r: Vec<String>| tag_model(texts(r@)))
}

/// The thread relationships that a note's raw tags describe.
pub fn thread_of_raw_tags(raw: &Vec<Vec<String>>) -> (t: Thread)
    ensures
        resolves(t, raw_tag_models(raw@)),
{
    let tags = parse_tags(raw);
    assert(tag_models(tags@) =~= raw_tag_models(raw@));
    resolve_thread(&tags)
}

} // verus!
