//! A map keyed by address strings, stored as an association list with unique
//! keys. Its view is the mathematical map from key characters to values.

use vstd::prelude::*;
use vstd::string::*;

verus! {

/// The value stored under a key: the first (and, with unique keys, only)
/// entry whose key has the given characters.
pub open spec fn spec_get<V>(s: Seq<(String, V)>, k: Seq<char>) -> Option<V>
    decreases s.len(),
{
    if s.len() == 0 {
        None
    } else if s[0].0@ == k {
        Some(s[0].1)
    } else {
        spec_get(s.drop_first(), k)
    }
}

proof fn lemma_spec_get_at<V>(s: Seq<(String, V)>, k: Seq<char>, i: int)
    requires
        0 <= i < s.len(),
        s[i].0@ == k,
        forall|j: int| 0 <= j < i ==> s[j].0@ != k,
    ensures
        spec_get(s, k) == Some(s[i].1),
    decreases i,
{
    if i > 0 {
        lemma_spec_get_at(s.drop_first(), k, i - 1);
    }
}

proof fn lemma_spec_get_none<V>(s: Seq<(String, V)>, k: Seq<char>)
    requires
        forall|j: int| 0 <= j < s.len() ==> s[j].0@ != k,
    ensures
        spec_get(s, k) is None,
    decreases s.len(),
{
    if s.len() > 0 {
        lemma_spec_get_none(s.drop_first(), k);
    }
}

proof fn lemma_spec_get_update_other<V>(s: Seq<(String, V)>, i: int, e: (String, V), k: Seq<char>)
    requires
        0 <= i < s.len(),
        s[i].0@ != k,
        e.0@ != k,
    ensures
        spec_get(s.update(i, e), k) == spec_get(s, k),
    decreases i,
{
    if i == 0 {
        assert(s.update(0, e).drop_first() =~= s.drop_first());
    } else {
        lemma_spec_get_update_other(s.drop_first(), i - 1, e, k);
        assert(s.update(i, e).drop_first() =~= s.drop_first().update(i - 1, e));
    }
}

proof fn lemma_spec_get_push<V>(s: Seq<(String, V)>, e: (String, V), k: Seq<char>)
    ensures
        spec_get(s.push(e), k) == if spec_get(s, k) is Some {
            spec_get(s, k)
        } else if k == e.0@ {
            Some(e.1)
        } else {
            None::<V>
        },
    decreases s.len(),
{
    if s.len() == 0 {
        assert(s.push(e)[0] == e);
        assert(s.push(e).drop_first() =~= Seq::<(String, V)>::empty());
        assert(spec_get(Seq::<(String, V)>::empty(), k) is None);
    } else {
        lemma_spec_get_push(s.drop_first(), e, k);
        assert(s.push(e)[0] == s[0]);
        assert(s.push(e).drop_first() =~= s.drop_first().push(e));
    }
}

/// A table from address strings to values, with no key stored twice.
pub struct Table<V> {
    entries: Vec<(String, V)>,
}

impl<V> View for Table<V> {
    type V = Map<Seq<char>, V>;

    closed spec fn view(&self) -> Map<Seq<char>, V> {
        Map::new(
            |k: Seq<char>| spec_get(self.entries@, k) is Some,
            |k: Seq<char>| spec_get(self.entries@, k)->Some_0,
        )
    }
}

impl<V> Table<V> {
    /// No two entries share a key.
    pub closed spec fn wf(&self) -> bool {
        forall|i: int, j: int|
            0 <= i < j < self.entries@.len() ==> (#[trigger] self.entries@[i]).0@
                != (#[trigger] self.entries@[j]).0@
    }

    /// The stored entries, in insertion order.
    pub closed spec fn entries_seq(&self) -> Seq<(String, V)> {
        self.entries@
    }

    pub fn new() -> (r: Table<V>)
        ensures
            r@ == Map::<Seq<char>, V>::empty(),
            r.entries_seq().len() == 0,
            r.wf(),
    {
        let r = Table { entries: Vec::new() };
        proof {
            assert(r@ =~= Map::<Seq<char>, V>::empty());
        }
        r
    }

    pub fn len(&self) -> (r: usize)
        ensures
            r == self.entries_seq().len(),
    {
        self.entries.len()
    }

    /// The entry at a position, for walking the table in stored order.
    pub fn entry_at(&self, i: usize) -> (r: &(String, V))
        requires
            self.wf(),
            i < self.entries_seq().len(),
        ensures
            *r == self.entries_seq()[i as int],
            self@.contains_key(self.entries_seq()[i as int].0@),
            self@[self.entries_seq()[i as int].0@] == self.entries_seq()[i as int].1,
    {
        proof {
            lemma_spec_get_at(self.entries@, self.entries@[i as int].0@, i as int);
        }
        &self.entries[i]
    }

    pub fn get(&self, k: &String) -> (r: Option<&V>)
        ensures
            r is Some <==> self@.contains_key(k@),
            r matches Some(v) ==> *v == self@[k@],
    {
        let n = self.entries.len();
        let mut i: usize = 0;
        while i < n
            invariant
                n == self.entries@.len(),
                0 <= i <= n,
                forall|j: int| 0 <= j < i ==> self.entries@[j].0@ != k@,
            decreases n - i,
        {
            if self.entries[i].0.eq(k) {
                proof {
                    lemma_spec_get_at(self.entries@, k@, i as int);
                }
                return Some(&self.entries[i].1);
            }
            i += 1;
        }
        proof {
            lemma_spec_get_none(self.entries@, k@);
        }
        None
    }

    pub fn contains_key(&self, k: &String) -> (r: bool)
        ensures
            r == self@.contains_key(k@),
    {
        self.get(k).is_some()
    }

    /// Stores a value under a key, replacing any value already there.
    pub fn insert(&mut self, k: String, v: V)
        requires
            old(self).wf(),
        ensures
            final(self).wf(),
            final(self)@ == old(self)@.insert(k@, v),
            final(self).entries_seq().len() <= old(self).entries_seq().len() + 1,
    {
        let ghost key = k@;
        let ghost gval = v;
        let n = self.entries.len();
        let mut i: usize = 0;
        while i < n
            invariant
                n == self.entries@.len(),
                0 <= i <= n,
                old(self).wf(),
                self.entries@ == old(self).entries@,
                k@ == key,
                v == gval,
                forall|j: int| 0 <= j < i ==> self.entries@[j].0@ != k@,
            decreases n - i,
        {
            if self.entries[i].0.eq(&k) {
                let ghost olds = self.entries@;
                self.entries[i] = (k, v);
                proof {
                    let news = self.entries@;
                    assert(news =~= olds.update(i as int, news[i as int]));
                    assert(news[i as int].0@ == key);
                    assert(news[i as int].1 == gval);
                    assert(forall|j: int| 0 <= j < news.len() ==> news[j].0@ == olds[j].0@);
                    assert forall|a: int, b: int| 0 <= a < b < news.len() implies news[a].0@
                        != news[b].0@ by {
                        assert(news[a].0@ == olds[a].0@);
                        assert(news[b].0@ == olds[b].0@);
                        assert(old(self).entries@[a].0@ != old(self).entries@[b].0@);
                    }
                    lemma_spec_get_at(news, key, i as int);
                    assert forall|k2: Seq<char>| k2 != key implies spec_get(news, k2) == spec_get(
                        olds,
                        k2,
                    ) by {
                        lemma_spec_get_update_other(olds, i as int, news[i as int], k2);
                    }
                    assert(final(self)@ =~= old(self)@.insert(key, news[i as int].1));
                }
                return ;
            }
            i += 1;
        }
        let ghost olds = self.entries@;
        self.entries.push((k, v));
        proof {
            let news = self.entries@;
            lemma_spec_get_none(olds, key);
            assert forall|k2: Seq<char>| true implies spec_get(news, k2) == (if k2 == key {
                Some(news.last().1)
            } else {
                spec_get(olds, k2)
            }) by {
                lemma_spec_get_push(olds, news.last(), k2);
                if k2 != key && spec_get(olds, k2) is None {
                    assert(spec_get(news, k2) is None);
                }
            }
            assert(final(self)@ =~= old(self)@.insert(key, news.last().1));
        }
    }
}

} // verus!
