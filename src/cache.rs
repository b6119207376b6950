use vstd::prelude::*;
use crate::post::Post;

verus! {

/// Whether some post of `s` has the identifier `id`.
pub open spec fn has_id(s: Seq<Post>, id: Seq<char>) -> bool {
    exists|i: int| 0 <= i < s.len() && (#[trigger] s[i]).id@ == id
}

/// The identifiers of the posts of `s`.
pub open spec fn ids(s: Seq<Post>) -> Set<Seq<char>> {
    Set::new(|id: Seq<char>| has_id(s, id))
}

/// No two posts of `s` share an identifier.
pub open spec fn unique_ids(s: Seq<Post>) -> bool {
    forall|i: int, j: int| 0 <= i < j < s.len() ==> (#[trigger] s[i]).id@ != (#[trigger] s[j]).id@
}

/// `snapshot` after each post of `incoming`, in order, was added unless a
/// post with its identifier was already there.
pub open spec fn merged(snapshot: Seq<Post>, incoming: Seq<Post>) -> Seq<Post>
    decreases incoming.len(),
{
    if incoming.len() == 0 {
        snapshot
    } else {
        let before = merged(snapshot, incoming.drop_last());
        if has_id(before, incoming.last().id@) {
            before
        } else {
            before.push(incoming.last())
        }
    }
}

proof fn lemma_ids_push(s: Seq<Post>, x: Post)
    ensures
        ids(s.push(x)) == ids(s).insert(x.id@),
{
    let t = s.push(x);
    assert forall|id: Seq<char>| has_id(t, id) <==> (has_id(s, id) || x.id@ == id) by {
        if has_id(t, id) {
            let i = choose|i: int| 0 <= i < t.len() && (#[trigger] t[i]).id@ == id;
            if i < s.len() {
                assert(s[i] == t[i]);
            }
        }
        if has_id(s, id) {
            let i = choose|i: int| 0 <= i < s.len() && (#[trigger] s[i]).id@ == id;
            assert(t[i] == s[i]);
        }
        if x.id@ == id {
            assert(t[s.len() as int] == x);
        }
    }
    assert(ids(t) =~= ids(s).insert(x.id@));
}

proof fn lemma_ids_last(b: Seq<Post>)
    requires
        b.len() > 0,
    ensures
        ids(b) == ids(b.drop_last()).insert(b.last().id@),
{
    assert(b =~= b.drop_last().push(b.last()));
    lemma_ids_push(b.drop_last(), b.last());
}

/// Merging keeps exactly the identifiers of the snapshot and of the batch.
pub proof fn lemma_merged_ids(snapshot: Seq<Post>, incoming: Seq<Post>)
    ensures
        ids(merged(snapshot, incoming)) == ids(snapshot).union(ids(incoming)),
    decreases incoming.len(),
{
    if incoming.len() == 0 {
        assert(ids(incoming) =~= Set::<Seq<char>>::empty());
        assert(ids(snapshot).union(ids(incoming)) =~= ids(snapshot));
    } else {
        let before = merged(snapshot, incoming.drop_last());
        let x = incoming.last();
        lemma_merged_ids(snapshot, incoming.drop_last());
        lemma_ids_last(incoming);
        if has_id(before, x.id@) {
            assert(ids(before).contains(x.id@));
            assert(ids(before) =~= ids(snapshot).union(ids(incoming)));
        } else {
            lemma_ids_push(before, x);
            assert(ids(before.push(x)) =~= ids(snapshot).union(ids(incoming)));
        }
    }
}

/// Merging never makes two posts share an identifier.
pub proof fn lemma_merged_unique(snapshot: Seq<Post>, incoming: Seq<Post>)
    requires
        unique_ids(snapshot),
    ensures
        unique_ids(merged(snapshot, incoming)),
    decreases incoming.len(),
{
    if incoming.len() > 0 {
        let before = merged(snapshot, incoming.drop_last());
        let x = incoming.last();
        lemma_merged_unique(snapshot, incoming.drop_last());
        if !has_id(before, x.id@) {
            let t = before.push(x);
            assert forall|i: int, j: int| 0 <= i < j < t.len() implies (#[trigger] t[i]).id@
                != (#[trigger] t[j]).id@ by {
                assert(t[i] == before[i]);
                if j < before.len() {
                    assert(t[j] == before[j]);
                }
            }
        }
    }
}

/// Every post of a merge is a post of the snapshot or of the batch.
pub proof fn lemma_merged_records(snapshot: Seq<Post>, incoming: Seq<Post>, k: int)
    requires
        0 <= k < merged(snapshot, incoming).len(),
    ensures
        snapshot.contains(merged(snapshot, incoming)[k]) || incoming.contains(
            merged(snapshot, incoming)[k],
        ),
    decreases incoming.len(),
{
    if incoming.len() > 0 {
        let before = merged(snapshot, incoming.drop_last());
        let x = incoming.last();
        if k < before.len() {
            lemma_merged_records(snapshot, incoming.drop_last(), k);
            if incoming.drop_last().contains(before[k]) {
                let i = choose|i: int| 0 <= i < incoming.drop_last().len()
                    && incoming.drop_last()[i] == before[k];
                assert(incoming[i] == before[k]);
            }
        } else {
            assert(incoming[incoming.len() - 1] == x);
        }
    }
}

/// A batch whose identifiers are all present already changes nothing.
pub proof fn lemma_merged_absorbed(snapshot: Seq<Post>, incoming: Seq<Post>)
    requires
        ids(incoming).subset_of(ids(snapshot)),
    ensures
        merged(snapshot, incoming) == snapshot,
    decreases incoming.len(),
{
    if incoming.len() > 0 {
        lemma_ids_last(incoming);
        assert(ids(incoming.drop_last()).subset_of(ids(snapshot)));
        lemma_merged_absorbed(snapshot, incoming.drop_last());
        assert(ids(incoming).contains(incoming.last().id@));
    }
}

/// Merging the same batch a second time leaves the snapshot as the first
/// merge left it.
pub proof fn lemma_merge_idempotent(snapshot: Seq<Post>, incoming: Seq<Post>)
    ensures
        merged(merged(snapshot, incoming), incoming) == merged(snapshot, incoming),
{
    lemma_merged_ids(snapshot, incoming);
    lemma_merged_absorbed(merged(snapshot, incoming), incoming);
}

/// Two merges in a row, of batches that may share identifiers, leave one
/// post for each identifier of the snapshot or of either batch, and no post
/// that came from elsewhere.
pub proof fn lemma_merge_twice_is_union(snapshot: Seq<Post>, first: Seq<Post>, second: Seq<Post>)
    requires
        unique_ids(snapshot),
    ensures
        unique_ids(merged(merged(snapshot, first), second)),
        ids(merged(merged(snapshot, first), second)) == ids(snapshot).union(ids(first)).union(
            ids(second),
        ),
        forall|k: int|
            0 <= k < merged(merged(snapshot, first), second).len() ==> {
                let p = #[trigger] merged(merged(snapshot, first), second)[k];
                snapshot.contains(p) || first.contains(p) || second.contains(p)
            },
{
    let once = merged(snapshot, first);
    let twice = merged(once, second);
    lemma_merged_unique(snapshot, first);
    lemma_merged_unique(once, second);
    lemma_merged_ids(snapshot, first);
    lemma_merged_ids(once, second);
    assert forall|k: int| 0 <= k < twice.len() implies {
        let p = #[trigger] twice[k];
        snapshot.contains(p) || first.contains(p) || second.contains(p)
    } by {
        lemma_merged_records(once, second, k);
        if once.contains(twice[k]) {
            let j = choose|j: int| 0 <= j < once.len() && once[j] == twice[k];
            lemma_merged_records(snapshot, first, j);
        }
    }
}

/// Merging two batches one after the other is merging them joined.
pub proof fn lemma_merged_concat(snapshot: Seq<Post>, a: Seq<Post>, b: Seq<Post>)
    ensures
        merged(merged(snapshot, a), b) == merged(snapshot, a + b),
    decreases b.len(),
{
    if b.len() == 0 {
        assert(a + b =~= a);
    } else {
        lemma_merged_concat(snapshot, a, b.drop_last());
        assert((a + b).drop_last() =~= a + b.drop_last());
        assert((a + b).last() == b.last());
    }
}

/// Whether a post of `posts` has the identifier of `id`.
pub fn contains_id(posts: &Vec<Post>, id: &String) -> (r: bool)
    ensures
        r == has_id(posts@, id@),
{
    let mut i: usize = 0;
    while i < posts.len()
        invariant
            i <= posts@.len(),
            forall|j: int| 0 <= j < i ==> (#[trigger] posts@[j]).id@ != id@,
        decreases posts@.len() - i,
    {
        if posts[i].id == *id {
            return true;
        }
        i = i + 1;
    }
    false
}

/// Adds to `snapshot` each post of `new_posts` whose identifier it does not
/// hold yet, in order; nothing already there is removed or changed.
pub fn merge_posts(snapshot: &mut Vec<Post>, new_posts: Vec<Post>)
    ensures
        final(snapshot)@ == merged(old(snapshot)@, new_posts@),
{
    let ghost start = old(snapshot)@;
    let ghost all = new_posts@;
    let mut rest = new_posts;
    let mut k: usize = 0;
    let n = rest.len();
    while rest.len() > 0
        invariant
            n == all.len(),
            k + rest@.len() == n,
            rest@ == all.subrange(k as int, n as int),
            snapshot@ == merged(start, all.subrange(0, k as int)),
        decreases rest@.len(),
    {
        let post = rest.remove(0);
        assert(all.subrange(0, k + 1).drop_last() =~= all.subrange(0, k as int));
        assert(rest@ =~= all.subrange(k + 1, n as int));
        if !contains_id(snapshot, &post.id) {
            snapshot.push(post);
        }
        k = k + 1;
    }
    assert(all.subrange(0, n as int) =~= all);
}

/// Whether a loaded snapshot holds no post.
pub fn is_cache_empty(snapshot: &Vec<Post>) -> (r: bool)
    ensures
        r == (snapshot@.len() == 0),
{
    snapshot.len() == 0
}

/// What reading the cache file gave.
pub enum CacheRead {
    /// The file does not exist.
    Missing,
    /// The file held a well-formed list of posts.
    Parsed(Vec<Post>),
    /// The file could not be read or parsed.
    Corrupt,
}

/// The snapshot that a read of the cache yields: a missing or corrupt file
/// is an empty cache, never an error.
pub fn snapshot_from(read: CacheRead) -> (r: Vec<Post>)
    ensures
        match read {
            CacheRead::Parsed(posts) => r@ == posts@,
            _ => r@.len() == 0,
        },
{
    match read {
        CacheRead::Parsed(posts) => posts,
        _ => Vec::new(),
    }
}

} // verus!
