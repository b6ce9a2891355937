use vstd::prelude::*;

verus! {

/// The mathematical map described by an association sequence: later entries
/// for a key shadow earlier ones (well-formed maps hold each key once, so
/// nothing is shadowed).
pub open spec fn seq_to_map<V>(s: Seq<(Seq<char>, V)>) -> Map<Seq<char>, V>
    decreases s.len(),
{
    if s.len() == 0 {
        Map::empty()
    } else {
        seq_to_map(s.drop_last()).insert(s.last().0, s.last().1)
    }
}

proof fn lemma_seq_to_map_absent<V>(s: Seq<(Seq<char>, V)>, k: Seq<char>)
    requires
        forall|i: int| 0 <= i < s.len() ==> s[i].0 != k,
    ensures
        !seq_to_map(s).contains_key(k),
    decreases s.len(),
{
    if s.len() > 0 {
        lemma_seq_to_map_absent(s.drop_last(), k);
    }
}

proof fn lemma_seq_to_map_at<V>(s: Seq<(Seq<char>, V)>, i: int)
    requires
        0 <= i < s.len(),
        forall|j: int| i < j < s.len() ==> s[j].0 != s[i].0,
    ensures
        seq_to_map(s).contains_key(s[i].0),
        seq_to_map(s)[s[i].0] == s[i].1,
    decreases s.len(),
{
    if i == s.len() - 1 {
    } else {
        assert(s.drop_last()[i] == s[i]);
        lemma_seq_to_map_at(s.drop_last(), i);
    }
}

/// An association list from canonical string keys to values, holding each key
/// at most once; every map the aggregate owns is of this shape.
pub struct StrMap<V> {
    entries: Vec<(String, V)>,
}

impl<V> View for StrMap<V> {
    type V = Map<Seq<char>, V>;

    open spec fn view(&self) -> Map<Seq<char>, V> {
        seq_to_map(self.kv())
    }
}

impl<V> StrMap<V> {
    /// The key/value pairs in their native iteration order, with keys as
    /// character sequences.
    pub closed spec fn kv(self) -> Seq<(Seq<char>, V)> {
        self.entries@.map_values(|e: (String, V)| (e.0@, e.1))
    }

    /// Each key occurs at most once.
    pub open spec fn wf(self) -> bool {
        forall|i: int, j: int| 0 <= i < j < self.kv().len() ==> self.kv()[i].0 != self.kv()[j].0
    }

    /// Every pair of the iteration order is an entry of the map.
    pub proof fn lemma_kv_view(self, i: int)
        requires
            self.wf(),
            0 <= i < self.kv().len(),
        ensures
            self@.contains_key(self.kv()[i].0),
            self@[self.kv()[i].0] == self.kv()[i].1,
    {
        lemma_seq_to_map_at(self.kv(), i);
    }

    /// Every entry of the map appears in the iteration order.
    pub proof fn lemma_view_kv(self, k: Seq<char>)
        requires
            self.wf(),
            self@.contains_key(k),
        ensures
            exists|i: int|
                0 <= i < self.kv().len() && self.kv()[i].0 == k && self.kv()[i].1 == self@[k],
    {
        if forall|i: int| 0 <= i < self.kv().len() ==> self.kv()[i].0 != k {
            lemma_seq_to_map_absent(self.kv(), k);
            assert(false);
        }
        let i = choose|i: int| 0 <= i < self.kv().len() && self.kv()[i].0 == k;
        self.lemma_kv_view(i);
    }

    pub fn new() -> (r: Self)
        ensures
            r.wf(),
            r.kv() == Seq::<(Seq<char>, V)>::empty(),
            r@ == Map::<Seq<char>, V>::empty(),
    {
        let r = StrMap { entries: Vec::new() };
        proof {
            assert(r.kv() =~= Seq::<(Seq<char>, V)>::empty());
        }
        r
    }

    pub fn len(&self) -> (r: usize)
        ensures
            r == self.kv().len(),
    {
        self.entries.len()
    }

    pub fn entry_at<'a>(&'a self, i: usize) -> (r: (&'a String, &'a V))
        requires
            i < self.kv().len(),
        ensures
            r.0@ == self.kv()[i as int].0,
            *r.1 == self.kv()[i as int].1,
    {
        (&self.entries[i].0, &self.entries[i].1)
    }

    pub fn get<'a>(&'a self, key: &String) -> (r: Option<&'a V>)
        requires
            self.wf(),
        ensures
            (match r {
                Some(v) => self@.contains_key(key@) && *v == self@[key@],
                None => !self@.contains_key(key@),
            }),
    {
        let n = self.entries.len();
        let mut i: usize = 0;
        while i < n
            invariant
                self.wf(),
                n == self.kv().len(),
                i <= n,
                forall|j: int| 0 <= j < i ==> self.kv()[j].0 != key@,
            decreases n - i,
        {
            if self.entries[i].0 == *key {
                proof {
                    self.lemma_kv_view(i as int);
                }
                return Some(&self.entries[i].1);
            }
            i = i + 1;
        }
        proof {
            lemma_seq_to_map_absent(self.kv(), key@);
        }
        None
    }

    pub fn contains_key(&self, key: &String) -> (r: bool)
        requires
            self.wf(),
        ensures
            r == self@.contains_key(key@),
    {
        self.get(key).is_some()
    }

    pub fn insert(&mut self, key: String, value: V)
        requires
            old(self).wf(),
        ensures
            final(self).wf(),
            final(self)@ == old(self)@.insert(key@, value),
            (if old(self)@.contains_key(key@) {
                final(self).kv().len() == old(self).kv().len() && forall|i: int|
                    0 <= i < old(self).kv().len() ==> final(self).kv()[i] == (if old(self).kv()[i].0
                        == key@ {
                        (key@, value)
                    } else {
                        old(self).kv()[i]
                    })
            } else {
                final(self).kv() == old(self).kv().push((key@, value))
            }),
    {
        let n = self.entries.len();
        let mut i: usize = 0;
        while i < n
            invariant
                self == old(self),
                self.wf(),
                n == self.kv().len(),
                i <= n,
                forall|j: int| 0 <= j < i ==> self.kv()[j].0 != key@,
            decreases n - i,
        {
            if self.entries[i].0 == *(&key) {
                proof {
                    self.lemma_kv_view(i as int);
                }
                let ghost old_kv = self.kv();
                self.entries[i] = (key, value);
                proof {
                    assert(self.kv() =~= old_kv.update(i as int, (old_kv[i as int].0, value)));
                    lemma_seq_to_map_update(old_kv, i as int, value);
                }
                return ;
            }
            i = i + 1;
        }
        proof {
            lemma_seq_to_map_absent(self.kv(), key@);
        }
        let ghost old_kv = self.kv();
        let ghost kview = key@;
        self.entries.push((key, value));
        proof {
            assert(self.kv() =~= old_kv.push((kview, value)));
            assert(self.kv().drop_last() =~= old_kv);
        }
    }

    pub fn remove(&mut self, key: &String)
        requires
            old(self).wf(),
        ensures
            final(self).wf(),
            final(self)@ == old(self)@.remove(key@),
            (if old(self)@.contains_key(key@) {
                exists|i: int|
                    0 <= i < old(self).kv().len() && old(self).kv()[i].0 == key@
                        && final(self).kv() == old(self).kv().remove(i)
            } else {
                final(self).kv() == old(self).kv()
            }),
    {
        let n = self.entries.len();
        let mut i: usize = 0;
        while i < n
            invariant
                self == old(self),
                self.wf(),
                n == self.kv().len(),
                i <= n,
                forall|j: int| 0 <= j < i ==> self.kv()[j].0 != key@,
            decreases n - i,
        {
            if self.entries[i].0 == *key {
                proof {
                    self.lemma_kv_view(i as int);
                }
                let ghost old_kv = self.kv();
                let _ = self.entries.remove(i);
                proof {
                    assert(self.kv() =~= old_kv.remove(i as int));
                    lemma_seq_to_map_removed(old_kv, i as int);
                    assert forall|a: int, b: int|
                        0 <= a < b < self.kv().len() implies self.kv()[a].0 != self.kv()[b].0 by {
                        if a < i as int {
                            assert(self.kv()[a] == old_kv[a]);
                        } else {
                            assert(self.kv()[a] == old_kv[a + 1]);
                        }
                        if b < i as int {
                            assert(self.kv()[b] == old_kv[b]);
                        } else {
                            assert(self.kv()[b] == old_kv[b + 1]);
                        }
                    }
                }
                return ;
            }
            i = i + 1;
        }
        proof {
            lemma_seq_to_map_absent(self.kv(), key@);
            assert(old(self)@.remove(key@) =~= old(self)@);
        }
    }
}

proof fn lemma_seq_to_map_update<V>(s: Seq<(Seq<char>, V)>, i: int, v: V)
    requires
        0 <= i < s.len(),
        forall|a: int, b: int| 0 <= a < b < s.len() ==> s[a].0 != s[b].0,
    ensures
        seq_to_map(s.update(i, (s[i].0, v))) == seq_to_map(s).insert(s[i].0, v),
    decreases s.len(),
{
    let t = s.update(i, (s[i].0, v));
    if i == s.len() - 1 {
        assert(t.drop_last() =~= s.drop_last());
        assert(t.last() == (s[i].0, v));
        assert(seq_to_map(t) =~= seq_to_map(s).insert(s[i].0, v));
    } else {
        assert(t.drop_last() =~= s.drop_last().update(i, (s[i].0, v)));
        assert(s.drop_last()[i] == s[i]);
        lemma_seq_to_map_update(s.drop_last(), i, v);
        assert(t.last() == s.last());
        assert(s[i].0 != s.last().0);
        assert(seq_to_map(t) =~= seq_to_map(s).insert(s[i].0, v));
    }
}

proof fn lemma_seq_to_map_removed<V>(s: Seq<(Seq<char>, V)>, i: int)
    requires
        0 <= i < s.len(),
        forall|a: int, b: int| 0 <= a < b < s.len() ==> s[a].0 != s[b].0,
    ensures
        seq_to_map(s.remove(i)) == seq_to_map(s).remove(s[i].0),
    decreases s.len(),
{
    let t = s.remove(i);
    if i == s.len() - 1 {
        assert(t =~= s.drop_last());
        assert forall|j: int| 0 <= j < s.drop_last().len() implies s.drop_last()[j].0 != s[i].0 by {
            assert(s.drop_last()[j] == s[j]);
        }
        lemma_seq_to_map_absent(s.drop_last(), s[i].0);
        assert(seq_to_map(s.remove(i)) =~= seq_to_map(s).remove(s[i].0));
    } else {
        assert(t.drop_last() =~= s.drop_last().remove(i));
        assert(s.drop_last()[i] == s[i]);
        lemma_seq_to_map_removed(s.drop_last(), i);
        assert(t.last() == s.last());
        assert(s[i].0 != s.last().0);
        assert(seq_to_map(s.remove(i)) =~= seq_to_map(s).remove(s[i].0));
    }
}

} // verus!
