use vstd::prelude::*;
use vstd::multiset::Multiset;
use vstd::multiset::group_multiset_axioms;
use vstd::seq_lib::{to_multiset_contains, to_multiset_insert, to_multiset_len, to_multiset_remove};
use crate::post::Post;

verus! {

/// A selection is valid for a list of `len` items: an index into the items,
/// absent exactly when there are none.
pub open spec fn valid_selection(len: nat, sel: Option<usize>) -> bool {
    match sel {
        Some(i) => i < len,
        None => len == 0,
    }
}

/// The selection that a list of `len` items has after moving to `target`,
/// held within `[0, len - 1]`.
pub open spec fn clamped(len: nat, target: int) -> Option<usize> {
    if len == 0 {
        None
    } else if target < 0 {
        Some(0)
    } else if target >= len {
        Some((len - 1) as usize)
    } else {
        Some(target as usize)
    }
}

/// The selection after one step down: the next item, or the last one kept.
pub open spec fn next_selection(len: nat, sel: Option<usize>) -> Option<usize> {
    match sel {
        Some(i) => clamped(len, i + 1),
        None => clamped(len, 0),
    }
}

/// The selection after one step up: the previous item, or the first kept.
pub open spec fn previous_selection(len: nat, sel: Option<usize>) -> Option<usize> {
    match sel {
        Some(i) => clamped(len, i - 1),
        None => clamped(len, 0),
    }
}

/// The selection after `k` steps down.
pub open spec fn after_nexts(len: nat, sel: Option<usize>, k: nat) -> Option<usize>
    decreases k,
{
    if k == 0 {
        sel
    } else {
        next_selection(len, after_nexts(len, sel, (k - 1) as nat))
    }
}

/// `key` can be called on every item.
pub open spec fn key_is_total<T, F: Fn(&T) -> u64>(key: F) -> bool {
    forall|t: &T| #[trigger] key.requires((t,))
}

/// `ks` are keys that `key` returned for the items of `s`, in ascending order.
pub open spec fn keys_ascending<T, F: Fn(&T) -> u64>(s: Seq<T>, key: F, ks: Seq<u64>) -> bool {
    &&& ks.len() == s.len()
    &&& forall|i: int| 0 <= i < s.len() ==> key.ensures((&s[i],), #[trigger] ks[i])
    &&& forall|i: int, j: int| 0 <= i < j < ks.len() ==> ks[i] <= ks[j]
}

/// `to` holds the items of `from` rearranged: item `i` of `to` is item
/// `perm[i]` of `from`, and no item of `from` is used twice.
pub open spec fn rearranges<T>(from: Seq<T>, to: Seq<T>, perm: Seq<int>) -> bool {
    &&& to.len() == from.len()
    &&& perm.len() == to.len()
    &&& forall|i: int| 0 <= i < to.len() ==> 0 <= #[trigger] perm[i] < from.len() && to[i] == from[perm[i]]
    &&& forall|i: int, j: int| 0 <= i < j < perm.len() ==> perm[i] != perm[j]
}

/// `to` is `from` in ascending order of the keys that `key` gives, items
/// with equal keys in the order they had in `from`.
pub open spec fn stably_sorted<T, F: Fn(&T) -> u64>(from: Seq<T>, to: Seq<T>, key: F) -> bool {
    exists|ks: Seq<u64>, perm: Seq<int>|
        {
            &&& keys_ascending(to, key, ks)
            &&& rearranges(from, to, perm)
            &&& forall|i: int, j: int| 0 <= i < j < ks.len() && ks[i] == ks[j] ==> perm[i] < perm[j]
        }
}

/// An ordered collection with a selected item, as a display browses it.
pub struct StatefulList<T> {
    items: Vec<T>,
    selected: Option<usize>,
}

impl<T> View for StatefulList<T> {
    type V = (Seq<T>, Option<usize>);

    closed spec fn view(&self) -> (Seq<T>, Option<usize>) {
        (self.items@, self.selected)
    }
}

impl<T> StatefulList<T> {
    /// The selection is a valid index into the items.
    pub open spec fn wf(&self) -> bool {
        valid_selection(self@.0.len(), self@.1)
    }

    /// A list of `items`, with the first one selected if there is one.
    pub fn with_items(items: Vec<T>) -> (r: StatefulList<T>)
        ensures
            r.wf(),
            r@.0 == items@,
            r@.1 == clamped(items@.len(), 0),
    {
        let selected = if items.len() > 0 {
            Some(0)
        } else {
            None
        };
        StatefulList { items, selected }
    }

    pub fn items(&self) -> (r: &Vec<T>)
        ensures
            r@ == self@.0,
    {
        &self.items
    }

    pub fn selected(&self) -> (r: Option<usize>)
        ensures
            r == self@.1,
    {
        self.selected
    }

    /// The items, giving up the list.
    pub fn into_items(self) -> (r: Vec<T>)
        ensures
            r@ == self@.0,
    {
        self.items
    }

    /// The selected item, if any.
    pub fn selected_item(&self) -> (r: Option<&T>)
        requires
            self.wf(),
        ensures
            match self@.1 {
                Some(i) => r == Some(&self@.0[i as int]),
                None => r.is_none(),
            },
    {
        match self.selected {
            Some(i) => Some(&self.items[i]),
            None => None,
        }
    }

    /// Appends `new_items`. The selected index stays as it was; a list that
    /// was empty selects its first item.
    pub fn add_items(&mut self, new_items: Vec<T>)
        requires
            old(self).wf(),
        ensures
            final(self).wf(),
            final(self)@.0 == old(self)@.0 + new_items@,
            final(self)@.1 == match old(self)@.1 {
                Some(i) => Some(i),
                None => clamped(new_items@.len(), 0),
            },
    {
        let mut more = new_items;
        self.items.append(&mut more);
        if self.selected.is_none() && self.items.len() > 0 {
            self.selected = Some(0);
        }
    }

    /// Moves the selection one item down, staying on the last item.
    pub fn next(&mut self)
        requires
            old(self).wf(),
        ensures
            final(self).wf(),
            final(self)@.0 == old(self)@.0,
            final(self)@.1 == next_selection(old(self)@.0.len(), old(self)@.1),
    {
        let len = self.items.len();
        if len == 0 {
            self.selected = None;
        } else {
            match self.selected {
                Some(i) => {
                    if i + 1 < len {
                        self.selected = Some(i + 1);
                    }
                },
                None => {
                    self.selected = Some(0);
                },
            }
        }
    }

    /// Moves the selection one item up, staying on the first item.
    pub fn previous(&mut self)
        requires
            old(self).wf(),
        ensures
            final(self).wf(),
            final(self)@.0 == old(self)@.0,
            final(self)@.1 == previous_selection(old(self)@.0.len(), old(self)@.1),
    {
        let len = self.items.len();
        if len == 0 {
            self.selected = None;
        } else {
            match self.selected {
                Some(i) => {
                    if i > 0 {
                        self.selected = Some(i - 1);
                    }
                },
                None => {
                    self.selected = Some(0);
                },
            }
        }
    }

    /// Selects the first item.
    pub fn first(&mut self)
        requires
            old(self).wf(),
        ensures
            final(self).wf(),
            final(self)@.0 == old(self)@.0,
            final(self)@.1 == clamped(old(self)@.0.len(), 0),
    {
        self.selected = if self.items.len() > 0 {
            Some(0)
        } else {
            None
        };
    }

    /// Selects the last item.
    pub fn last(&mut self)
        requires
            old(self).wf(),
        ensures
            final(self).wf(),
            final(self)@.0 == old(self)@.0,
            final(self)@.1 == clamped(old(self)@.0.len(), old(self)@.0.len() - 1),
    {
        let len = self.items.len();
        self.selected = if len > 0 {
            Some(len - 1)
        } else {
            None
        };
    }

    /// Moves the selection `offset` items up, stopping at the first item.
    pub fn jump_up(&mut self, offset: i16)
        requires
            old(self).wf(),
        ensures
            final(self).wf(),
            final(self)@.0 == old(self)@.0,
            final(self)@.1 == match old(self)@.1 {
                Some(i) => clamped(old(self)@.0.len(), i - offset),
                None => None,
            },
    {
        if let Some(i) = self.selected {
            self.selected = Some(Self::moved(i, self.items.len(), -(offset as i32)));
        }
    }

    /// Moves the selection `offset` items down, stopping at the last item.
    pub fn jump_down(&mut self, offset: i16)
        requires
            old(self).wf(),
        ensures
            final(self).wf(),
            final(self)@.0 == old(self)@.0,
            final(self)@.1 == match old(self)@.1 {
                Some(i) => clamped(old(self)@.0.len(), i + offset),
                None => None,
            },
    {
        if let Some(i) = self.selected {
            self.selected = Some(Self::moved(i, self.items.len(), offset as i32));
        }
    }

    /// The index `delta` away from `i`, held within `[0, len - 1]`.
    fn moved(i: usize, len: usize, delta: i32) -> (r: usize)
        requires
            i < len,
        ensures
            Some(r) == clamped(len as nat, i + delta),
    {
        if delta >= 0 {
            let d = delta as usize;
            if d >= len - i {
                len - 1
            } else {
                i + d
            }
        } else {
            let d = (-(delta as i64)) as usize;
            if d > i {
                0
            } else {
                i - d
            }
        }
    }

    /// Orders the items by ascending `key`, keeping the order of items with
    /// equal keys. The selected index stays as it was: it now designates
    /// whichever item the new order put there.
    pub fn sort_by<F: Fn(&T) -> u64>(&mut self, key: F)
        requires
            old(self).wf(),
            key_is_total(key),
        ensures
            final(self).wf(),
            final(self)@.1 == old(self)@.1,
            final(self)@.0.to_multiset() == old(self)@.0.to_multiset(),
            stably_sorted(old(self)@.0, final(self)@.0, key),
    {
        broadcast use to_multiset_insert, to_multiset_remove, to_multiset_len, to_multiset_contains,
            group_multiset_axioms;

        let mut taken: Vec<T> = Vec::new();
        std::mem::swap(&mut self.items, &mut taken);
        let ghost all = taken@;
        let mut out: Vec<T> = Vec::new();
        let mut keys: Vec<u64> = Vec::new();
        let ghost mut perm: Seq<int> = Seq::empty();
        let n = taken.len();
        while taken.len() > 0
            invariant
                key_is_total(key),
                n == all.len(),
                out@.len() + taken@.len() == n,
                taken@ == all.subrange(out@.len() as int, n as int),
                perm.len() == out@.len(),
                forall|i: int|
                    0 <= i < out@.len() ==> 0 <= #[trigger] perm[i] < out@.len() && out@[i] == all[perm[i]],
                forall|i: int, j: int| 0 <= i < j < perm.len() ==> perm[i] != perm[j],
                forall|i: int, j: int|
                    0 <= i < j < keys@.len() && keys@[i] == keys@[j] ==> perm[i] < perm[j],
                out@.len() == keys@.len(),
                forall|i: int| 0 <= i < out@.len() ==> key.ensures((&out@[i],), #[trigger] keys@[i]),
                forall|i: int, j: int| 0 <= i < j < keys@.len() ==> keys@[i] <= keys@[j],
                out@.to_multiset().add(taken@.to_multiset()) == all.to_multiset(),
            decreases taken@.len(),
        {
            let ghost t0 = taken@;
            let ghost o0 = out@;
            let ghost k0 = keys@;
            let ghost p0 = perm;
            let ghost m = out@.len() as int;
            let x = taken.remove(0);
            assert(x == all[m]);
            assert(taken@ =~= all.subrange(m + 1, n as int));
            assert(t0.contains(x)) by {
                assert(t0[0] == x);
            }
            proof {
                to_multiset_remove(t0, 0);
                to_multiset_contains(t0, x);
            }
            let k = key(&x);
            let mut pos: usize = 0;
            while pos < keys.len() && keys[pos] <= k
                invariant
                    pos <= keys@.len(),
                    forall|j: int| 0 <= j < pos ==> keys@[j] <= k,
                decreases keys@.len() - pos,
            {
                pos = pos + 1;
            }
            out.insert(pos, x);
            proof {
                to_multiset_insert(o0, pos as int, x);
            }
            keys.insert(pos, k);
            assert(out@.to_multiset().add(taken@.to_multiset()) =~= all.to_multiset());
            proof {
                let q = pos as int;
                perm = p0.insert(q, m);
                assert forall|i: int| 0 <= i < out@.len() implies 0 <= #[trigger] perm[i] < out@.len()
                    && out@[i] == all[perm[i]] by {
                    if i > q {
                        assert(perm[i] == p0[i - 1]);
                        assert(out@[i] == o0[i - 1]);
                    } else if i < q {
                        assert(perm[i] == p0[i]);
                        assert(out@[i] == o0[i]);
                    }
                }
                assert forall|i: int, j: int| 0 <= i < j < perm.len() implies perm[i] != perm[j] by {
                    let pi = if i < q { p0[i] } else if i == q { m } else { p0[i - 1] };
                    let pj = if j < q { p0[j] } else if j == q { m } else { p0[j - 1] };
                    assert(perm[i] == pi);
                    assert(perm[j] == pj);
                    if i != q && j != q {
                        let a = if i < q { i } else { i - 1 };
                        let b = if j < q { j } else { j - 1 };
                        assert(a < b);
                        assert(p0[a] != p0[b]);
                    } else if i == q {
                        assert(0 <= p0[j - 1] < m);
                    } else {
                        assert(0 <= p0[i] < m);
                    }
                }
                assert forall|i: int, j: int|
                    0 <= i < j < keys@.len() && keys@[i] == keys@[j] implies perm[i] < perm[j] by {
                    if i != q && j != q {
                        let a = if i < q { i } else { i - 1 };
                        let b = if j < q { j } else { j - 1 };
                        assert(keys@[i] == k0[a]);
                        assert(keys@[j] == k0[b]);
                        assert(perm[i] == p0[a]);
                        assert(perm[j] == p0[b]);
                    } else if i == q {
                        assert(keys@[j] == k0[j - 1]);
                        assert(k0[j - 1] > k);
                    } else {
                        assert(perm[j] == m);
                        assert(perm[i] == p0[i]);
                        assert(0 <= p0[i] < m);
                    }
                }
            }
        }
        assert(taken@.to_multiset() =~= Multiset::empty());
        assert(out@.to_multiset() =~= all.to_multiset());
        assert(out@.len() == all.len()) by {
            assert(out@.to_multiset().len() == all.to_multiset().len());
        }
        self.items = out;
        assert(keys_ascending(self@.0, key, keys@));
        assert(rearranges(all, self@.0, perm));
    }
}

/// `to` is `from` ordered from the newest post to the oldest, posts written
/// in the same second in the order they had in `from`.
pub open spec fn newest_first(from: Seq<Post>, to: Seq<Post>) -> bool {
    &&& forall|i: int, j: int|
        0 <= i < j < to.len() ==> #[trigger] to[i].timestamp >= #[trigger] to[j].timestamp
    &&& exists|perm: Seq<int>|
        {
            &&& rearranges(from, to, perm)
            &&& forall|i: int, j: int|
                0 <= i < j < to.len() && to[i].timestamp == to[j].timestamp ==> perm[i] < perm[j]
        }
}

/// `to` is `from` ordered from the oldest post to the newest, posts written
/// in the same second in the order they had in `from`.
pub open spec fn oldest_first(from: Seq<Post>, to: Seq<Post>) -> bool {
    &&& forall|i: int, j: int|
        0 <= i < j < to.len() ==> #[trigger] to[i].timestamp <= #[trigger] to[j].timestamp
    &&& exists|perm: Seq<int>|
        {
            &&& rearranges(from, to, perm)
            &&& forall|i: int, j: int|
                0 <= i < j < to.len() && to[i].timestamp == to[j].timestamp ==> perm[i] < perm[j]
        }
}

/// Orders a feed from the newest post to the oldest, keeping the order of
/// posts written in the same second.
pub fn sort_newest_first(list: &mut StatefulList<Post>)
    requires
        old(list).wf(),
    ensures
        final(list).wf(),
        final(list)@.1 == old(list)@.1,
        final(list)@.0.to_multiset() == old(list)@.0.to_multiset(),
        newest_first(old(list)@.0, final(list)@.0),
{
    let ghost before = list@.0;
    let age = |p: &Post| -> (k: u64)
        ensures
            k == u64::MAX - p.timestamp,
        { u64::MAX - p.timestamp };
    list.sort_by(age);
    let ghost after = list@.0;
    let ghost (ks, perm) = choose|ks: Seq<u64>, perm: Seq<int>|
        {
            &&& keys_ascending(after, age, ks)
            &&& rearranges(before, after, perm)
            &&& forall|i: int, j: int| 0 <= i < j < ks.len() && ks[i] == ks[j] ==> perm[i] < perm[j]
        };
    assert forall|i: int, j: int|
        0 <= i < j < after.len() implies #[trigger] after[i].timestamp
        >= #[trigger] after[j].timestamp by {
        assert(age.ensures((&after[i],), ks[i]));
        assert(age.ensures((&after[j],), ks[j]));
    }
    assert forall|i: int, j: int|
        0 <= i < j < after.len() && after[i].timestamp == after[j].timestamp implies perm[i]
        < perm[j] by {
        assert(age.ensures((&after[i],), ks[i]));
        assert(age.ensures((&after[j],), ks[j]));
    }
}

/// From the first item, `k` steps down select item `min(k, len - 1)`: the
/// selection stops on the last item and never passes it.
pub proof fn lemma_nexts_stop_at_last(len: usize, k: nat)
    requires
        len >= 1,
    ensures
        after_nexts(len as nat, Some(0), k) == Some(if k < len { k as usize } else { (len - 1) as usize }),
    decreases k,
{
    if k > 0 {
        lemma_nexts_stop_at_last(len, (k - 1) as nat);
    }
}

/// From the first item a step up stays there; on an empty list a step in
/// either direction keeps the selection absent.
pub proof fn lemma_steps_at_edges(len: nat)
    ensures
        len >= 1 ==> previous_selection(len, Some(0)) == Some(0usize),
        len == 0 ==> next_selection(len, None) == None::<usize> && previous_selection(len, None)
            == None::<usize>,
{
}

} // verus!
