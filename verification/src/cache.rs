//! A small association map for the client's caches.
//!
//! Keys are short lists of already case-folded strings (one part for the
//! identity and match caches, two for the rating cache). The map is kept
//! as a vector of entries with pairwise distinct keys and is abstracted
//! as a `Map` from key views to value views.

use vstd::prelude::*;
use crate::text::str_eq;

verus! {

pub struct CacheMap<V> {
    entries: Vec<(Vec<String>, V)>,
}

/// Pairwise distinct keys, so each key names at most one entry.
spec fn distinct_keys<V>(s: Seq<(Vec<String>, V)>) -> bool {
    forall|i: int, j: int|
        0 <= i < j < s.len() ==> #[trigger] s[i].0.deep_view() != #[trigger] s[j].0.deep_view()
}

/// The map an entry list denotes, later entries winning.
spec fn entries_map<V: DeepView>(s: Seq<(Vec<String>, V)>) -> Map<Seq<Seq<char>>, V::V>
    decreases s.len(),
{
    if s.len() == 0 {
        Map::empty()
    } else {
        entries_map(s.drop_last()).insert(s.last().0.deep_view(), s.last().1.deep_view())
    }
}

impl<V: DeepView> View for CacheMap<V> {
    type V = Map<Seq<Seq<char>>, V::V>;

    closed spec fn view(&self) -> Map<Seq<Seq<char>>, V::V> {
        entries_map(self.entries@)
    }
}

proof fn lemma_absent_key<V: DeepView>(s: Seq<(Vec<String>, V)>, k: Seq<Seq<char>>)
    requires
        forall|i: int| 0 <= i < s.len() ==> #[trigger] s[i].0.deep_view() != k,
    ensures
        !entries_map(s).contains_key(k),
    decreases s.len(),
{
    if s.len() > 0 {
        assert(s.last() == s[s.len() - 1]);
        assert(forall|i: int|
            0 <= i < s.drop_last().len() ==> #[trigger] s.drop_last()[i].0.deep_view() != k);
        lemma_absent_key(s.drop_last(), k);
    }
}

proof fn lemma_present_key<V: DeepView>(s: Seq<(Vec<String>, V)>, i: int)
    requires
        distinct_keys(s),
        0 <= i < s.len(),
    ensures
        entries_map(s).contains_key(s[i].0.deep_view()),
        entries_map(s)[s[i].0.deep_view()] == s[i].1.deep_view(),
    decreases s.len(),
{
    assert(s.last() == s[s.len() - 1]);
    if i == s.len() - 1 {
    } else {
        assert(forall|a: int, b: int|
            0 <= a < b < s.drop_last().len() ==> #[trigger] s.drop_last()[a].0.deep_view()
                != #[trigger] s.drop_last()[b].0.deep_view());
        lemma_present_key(s.drop_last(), i);
        assert(s[i].0.deep_view() != s.last().0.deep_view());
    }
}

proof fn lemma_remove_entry<V: DeepView>(s: Seq<(Vec<String>, V)>, i: int)
    requires
        distinct_keys(s),
        0 <= i < s.len(),
    ensures
        entries_map(s.remove(i)) == entries_map(s).remove(s[i].0.deep_view()),
    decreases s.len(),
{
    let k = s[i].0.deep_view();
    assert(s.last() == s[s.len() - 1]);
    if i == s.len() - 1 {
        assert(s.remove(i) =~= s.drop_last());
        assert(forall|a: int|
            0 <= a < s.drop_last().len() ==> #[trigger] s.drop_last()[a].0.deep_view() != k);
        lemma_absent_key(s.drop_last(), k);
        assert(entries_map(s.drop_last()).insert(k, s.last().1.deep_view()).remove(k)
            =~= entries_map(s.drop_last()));
    } else {
        let t = s.drop_last();
        assert(forall|a: int, b: int|
            0 <= a < b < t.len() ==> #[trigger] t[a].0.deep_view() != #[trigger] t[
                b
            ].0.deep_view());
        lemma_remove_entry(t, i);
        assert(s.remove(i).drop_last() =~= t.remove(i));
        assert(s.remove(i).last() == s.last());
        assert(k != s.last().0.deep_view());
        assert(entries_map(t).remove(k).insert(
            s.last().0.deep_view(),
            s.last().1.deep_view(),
        ) =~= entries_map(t).insert(s.last().0.deep_view(), s.last().1.deep_view()).remove(k));
    }
}

/// Element-wise equality of two keys.
fn key_eq(a: &Vec<String>, b: &Vec<String>) -> (r: bool)
    ensures
        r == (a.deep_view() == b.deep_view()),
{
    if a.len() != b.len() {
        assert(a.deep_view().len() != b.deep_view().len());
        return false;
    }
    let mut i: usize = 0;
    while i < a.len()
        invariant
            a@.len() == b@.len(),
            i <= a@.len(),
            forall|k: int| 0 <= k < i ==> a.deep_view()[k] == b.deep_view()[k],
        decreases a@.len() - i,
    {
        if !str_eq(a[i].as_str(), b[i].as_str()) {
            assert(a.deep_view()[i as int] != b.deep_view()[i as int]);
            return false;
        }
        i = i + 1;
    }
    assert(a.deep_view() =~= b.deep_view());
    true
}

impl<V: DeepView> CacheMap<V> {
    pub closed spec fn wf(&self) -> bool {
        distinct_keys(self.entries@)
    }

    pub fn new() -> (r: Self)
        ensures
            r.wf(),
            r@ == Map::<Seq<Seq<char>>, V::V>::empty(),
    {
        let entries: Vec<(Vec<String>, V)> = Vec::new();
        CacheMap { entries }
    }

    /// The entry stored under `key`, if any.
    pub fn get(&self, key: &Vec<String>) -> (r: Option<&V>)
        requires
            self.wf(),
        ensures
            match r {
                Option::Some(v) => self@.contains_key(key.deep_view()) && v.deep_view()
                    == self@[key.deep_view()],
                Option::None => !self@.contains_key(key.deep_view()),
            },
    {
        let mut i: usize = 0;
        while i < self.entries.len()
            invariant
                self.wf(),
                i <= self.entries@.len(),
                forall|k: int|
                    0 <= k < i ==> #[trigger] self.entries@[k].0.deep_view() != key.deep_view(),
            decreases self.entries@.len() - i,
        {
            if key_eq(&self.entries[i].0, key) {
                proof {
                    lemma_present_key(self.entries@, i as int);
                }
                return Some(&self.entries[i].1);
            }
            i = i + 1;
        }
        proof {
            lemma_absent_key(self.entries@, key.deep_view());
        }
        None
    }

    /// Drops whatever is stored under `key`.
    pub fn take_out(&mut self, key: &Vec<String>)
        requires
            old(self).wf(),
        ensures
            final(self).wf(),
            final(self)@ == old(self)@.remove(key.deep_view()),
    {
        let n = self.entries.len();
        let mut i: usize = 0;
        while i < n
            invariant
                self == old(self),
                n == self.entries@.len(),
                i <= n,
                old(self).wf(),
                forall|k: int|
                    0 <= k < i ==> #[trigger] self.entries@[k].0.deep_view() != key.deep_view(),
            decreases n - i,
        {
            if key_eq(&self.entries[i].0, key) {
                proof {
                    lemma_remove_entry(self.entries@, i as int);
                    lemma_present_key(self.entries@, i as int);
                }
                let ghost pre = self.entries@;
                self.entries.remove(i);
                proof {
                    assert(self.entries@ =~= pre.remove(i as int));
                    assert forall|a: int, b: int|
                        0 <= a < b < self.entries@.len() implies #[trigger] self.entries@[
                        a
                    ].0.deep_view() != #[trigger] self.entries@[b].0.deep_view() by {
                        let a0 = if a < i { a } else { a + 1 };
                        let b0 = if b < i { b } else { b + 1 };
                        assert(self.entries@[a] == pre[a0]);
                        assert(self.entries@[b] == pre[b0]);
                    }
                }
                return ;
            }
            i = i + 1;
        }
        proof {
            lemma_absent_key(self.entries@, key.deep_view());
            assert(old(self)@.remove(key.deep_view()) =~= old(self)@);
        }
    }

    /// Stores `v` under `key`, replacing any previous entry.
    pub fn put(&mut self, key: Vec<String>, v: V)
        requires
            old(self).wf(),
        ensures
            final(self).wf(),
            final(self)@ == old(self)@.insert(key.deep_view(), v.deep_view()),
    {
        self.take_out(&key);
        let ghost mid = self.entries@;
        let ghost kd = key.deep_view();
        proof {
            lemma_absent_from_map(mid, kd);
        }
        self.entries.push((key, v));
        proof {
            assert(self.entries@.drop_last() =~= mid);
            assert(self.entries@.last() == (self.entries@[mid.len() as int]));
            assert forall|a: int, b: int|
                0 <= a < b < self.entries@.len() implies #[trigger] self.entries@[
                a
            ].0.deep_view() != #[trigger] self.entries@[b].0.deep_view() by {
                if b == self.entries@.len() - 1 {
                    assert(self.entries@[a] == mid[a]);
                } else {
                    assert(self.entries@[a] == mid[a]);
                    assert(self.entries@[b] == mid[b]);
                }
            }
            assert(old(self)@.remove(kd).insert(kd, v.deep_view()) =~= old(self)@.insert(
                kd,
                v.deep_view(),
            ));
        }
    }
}

/// If the map lacks `k`, no entry carries `k`.
proof fn lemma_absent_from_map<V: DeepView>(s: Seq<(Vec<String>, V)>, k: Seq<Seq<char>>)
    requires
        distinct_keys(s),
        !entries_map(s).contains_key(k),
    ensures
        forall|i: int| 0 <= i < s.len() ==> #[trigger] s[i].0.deep_view() != k,
{
    assert forall|i: int| 0 <= i < s.len() implies #[trigger] s[i].0.deep_view() != k by {
        if s[i].0.deep_view() == k {
            lemma_present_key(s, i);
        }
    }
}

} // verus!
