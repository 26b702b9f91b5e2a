//! A map keyed by strings that keeps its keys in increasing order, as
//! `BTreeMap<String, V>` iterates them.
use vstd::prelude::*;

use crate::text::string_of;

verus! {

/// Lexicographic order on character sequences, which is the order of
/// `String` (UTF-8 preserves the order of code points).
pub open spec fn lex_lt(a: Seq<char>, b: Seq<char>) -> bool
    decreases a.len(),
{
    if a.len() == 0 {
        b.len() > 0
    } else if b.len() == 0 {
        false
    } else if a[0] < b[0] {
        true
    } else if a[0] == b[0] {
        lex_lt(a.drop_first(), b.drop_first())
    } else {
        false
    }
}

pub proof fn lemma_lex_irreflexive(a: Seq<char>)
    ensures
        !lex_lt(a, a),
    decreases a.len(),
{
    if a.len() > 0 {
        lemma_lex_irreflexive(a.drop_first());
    }
}

pub proof fn lemma_lex_transitive(a: Seq<char>, b: Seq<char>, c: Seq<char>)
    requires
        lex_lt(a, b),
        lex_lt(b, c),
    ensures
        lex_lt(a, c),
    decreases a.len(),
{
    if a.len() > 0 && b.len() > 0 && c.len() > 0 && a[0] == b[0] && b[0] == c[0] {
        lemma_lex_transitive(a.drop_first(), b.drop_first(), c.drop_first());
    }
}

pub proof fn lemma_lex_total(a: Seq<char>, b: Seq<char>)
    ensures
        lex_lt(a, b) || lex_lt(b, a) || a == b,
    decreases a.len(),
{
    if a.len() > 0 && b.len() > 0 && a[0] == b[0] {
        lemma_lex_total(a.drop_first(), b.drop_first());
        if a.drop_first() == b.drop_first() {
            assert(a =~= seq![a[0]] + a.drop_first());
            assert(b =~= seq![b[0]] + b.drop_first());
        }
    } else if a.len() == 0 && b.len() == 0 {
        assert(a =~= b);
    }
}

pub proof fn lemma_lex_asymmetric(a: Seq<char>, b: Seq<char>)
    requires
        lex_lt(a, b),
    ensures
        !lex_lt(b, a),
{
    if lex_lt(b, a) {
        lemma_lex_transitive(a, b, a);
        lemma_lex_irreflexive(a);
    }
}

/// Whether `a` comes strictly before `b`.
pub fn lex_lt_exec(a: &Vec<char>, b: &Vec<char>) -> (r: bool)
    ensures
        r == lex_lt(a@, b@),
{
    let mut i: usize = 0;
    assert(a@.skip(0) == a@);
    assert(b@.skip(0) == b@);
    while i < a.len() && i < b.len() && a[i] == b[i]
        invariant
            i <= a@.len(),
            i <= b@.len(),
            lex_lt(a@, b@) == lex_lt(a@.skip(i as int), b@.skip(i as int)),
        decreases a@.len() - i,
    {
        assert(a@.skip(i as int).drop_first() == a@.skip(i + 1));
        assert(b@.skip(i as int).drop_first() == b@.skip(i + 1));
        i = i + 1;
    }
    if i == a.len() {
        i < b.len()
    } else if i == b.len() {
        false
    } else {
        a[i] < b[i]
    }
}

/// Keys strictly increasing.
pub open spec fn sorted_keys(ks: Seq<Seq<char>>) -> bool {
    forall|i: int, j: int| 0 <= i < j < ks.len() ==> lex_lt(ks[i], ks[j])
}

/// Two strictly increasing key sequences with the same members are equal:
/// a set of keys has one listing in name order.
pub proof fn lemma_sorted_keys_unique(a: Seq<Seq<char>>, b: Seq<Seq<char>>)
    requires
        sorted_keys(a),
        sorted_keys(b),
        forall|k: Seq<char>| a.contains(k) <==> b.contains(k),
    ensures
        a == b,
    decreases a.len(),
{
    if a.len() == 0 {
        if b.len() > 0 {
            assert(b.contains(b[0]));
        }
        assert(a =~= b);
    } else {
        assert(a.contains(a[0]));
        if b.len() == 0 {
            assert(false);
        } else {
            assert(b.contains(b[0]));
            let j = b.index_of(a[0]);
            let i = a.index_of(b[0]);
            if j > 0 {
                assert(lex_lt(b[0], b[j]));
                if i > 0 {
                    assert(lex_lt(a[0], a[i]));
                    lemma_lex_asymmetric(a[0], a[i]);
                } else {
                    lemma_lex_irreflexive(a[0]);
                }
            }
            assert(b[0] == a[0]);
            let a1 = a.drop_first();
            let b1 = b.drop_first();
            assert forall|k: Seq<char>| a1.contains(k) <==> b1.contains(k) by {
                if a1.contains(k) {
                    let p = a1.index_of(k);
                    assert(a[p + 1] == k);
                    assert(lex_lt(a[0], a[p + 1]));
                    lemma_lex_irreflexive(k);
                    assert(a.contains(k));
                    let q = b.index_of(k);
                    assert(q != 0);
                    assert(b1[q - 1] == k);
                }
                if b1.contains(k) {
                    let p = b1.index_of(k);
                    assert(b[p + 1] == k);
                    assert(lex_lt(b[0], b[p + 1]));
                    lemma_lex_irreflexive(k);
                    assert(b.contains(k));
                    let q = a.index_of(k);
                    assert(q != 0);
                    assert(a1[q - 1] == k);
                }
            }
            assert(sorted_keys(a1)) by {
                assert forall|x: int, y: int| 0 <= x < y < a1.len() implies lex_lt(a1[x], a1[y]) by {
                    assert(a1[x] == a[x + 1] && a1[y] == a[y + 1]);
                }
            }
            assert(sorted_keys(b1)) by {
                assert forall|x: int, y: int| 0 <= x < y < b1.len() implies lex_lt(b1[x], b1[y]) by {
                    assert(b1[x] == b[x + 1] && b1[y] == b[y + 1]);
                }
            }
            lemma_sorted_keys_unique(a1, b1);
            assert(a =~= seq![a[0]] + a1);
            assert(b =~= seq![b[0]] + b1);
        }
    }
}

#[derive(Debug)]
pub struct StrMap<V> {
    entries: Vec<(Vec<char>, V)>,
}

impl<V> StrMap<V> {
    /// The keys, in increasing order.
    pub closed spec fn keys(&self) -> Seq<Seq<char>> {
        self.entries@.map_values(|e: (Vec<char>, V)| e.0@)
    }

    /// The values, in the order of their keys.
    pub closed spec fn values(&self) -> Seq<V> {
        self.entries@.map_values(|e: (Vec<char>, V)| e.1)
    }

    /// The map from keys to values.
    pub open spec fn view(&self) -> Map<Seq<char>, V> {
        Map::new(
            |k: Seq<char>| self.keys().contains(k),
            |k: Seq<char>| self.values()[self.keys().index_of(k)],
        )
    }

    pub open spec fn wf(&self) -> bool {
        &&& sorted_keys(self.keys())
        &&& self.keys().len() == self.values().len()
    }

    /// The value under `k`, if any.
    pub open spec fn lookup(&self, k: Seq<char>) -> Option<V> {
        if self@.dom().contains(k) {
            Some(self@[k])
        } else {
            None
        }
    }

    /// Each key sits at exactly one position, and the view maps it to the
    /// value at that position.
    pub proof fn lemma_positions(&self)
        requires
            self.wf(),
        ensures
            forall|i: int|
                0 <= i < self.keys().len() ==> #[trigger] self@.dom().contains(self.keys()[i])
                    && self@[self.keys()[i]] == self.values()[i],
            forall|k: Seq<char>| #[trigger] self@.dom().contains(k) <==> self.keys().contains(k),
    {
        assert forall|i: int| 0 <= i < self.keys().len() implies #[trigger] self@.dom().contains(
            self.keys()[i],
        ) && self@[self.keys()[i]] == self.values()[i] by {
            let k = self.keys()[i];
            assert(self.keys().contains(k));
            let j = self.keys().index_of(k);
            if j != i {
                if j < i {
                    assert(lex_lt(self.keys()[j], self.keys()[i]));
                } else {
                    assert(lex_lt(self.keys()[i], self.keys()[j]));
                }
                lemma_lex_irreflexive(k);
            }
        }
    }

    pub fn new() -> (m: Self)
        ensures
            m.wf(),
            m.keys() == Seq::<Seq<char>>::empty(),
            m@ == Map::<Seq<char>, V>::empty(),
    {
        let m = StrMap { entries: Vec::new() };
        assert(m.keys() =~= Seq::<Seq<char>>::empty());
        assert(m@ =~= Map::<Seq<char>, V>::empty());
        m
    }

    pub fn len(&self) -> (n: usize)
        ensures
            n == self.keys().len(),
    {
        self.entries.len()
    }

    /// Whether the keys are strictly increasing.
    pub fn is_wf(&self) -> (b: bool)
        ensures
            b == self.wf(),
    {
        let n = self.entries.len();
        let ghost ks = self.keys();
        assert(ks.len() == self.values().len());
        let mut i: usize = 1;
        while i < n
            invariant
                n == ks.len(),
                ks == self.keys(),
                1 <= i,
                i <= n || n == 0,
                forall|a: int, b: int| 0 <= a < b < i && b < n ==> lex_lt(#[trigger] ks[a], #[trigger] ks[b]),
            decreases n - i,
        {
            assert(self.entries@[i - 1].0@ == ks[i - 1]);
            assert(self.entries@[i as int].0@ == ks[i as int]);
            if !lex_lt_exec(&self.entries[i - 1].0, &self.entries[i].0) {
                return false;
            }
            assert forall|a: int, b: int| 0 <= a < b < i + 1 && b < n implies lex_lt(
                #[trigger] ks[a],
                #[trigger] ks[b],
            ) by {
                if b == i && a < i - 1 {
                    lemma_lex_transitive(ks[a], ks[i - 1], ks[b]);
                }
            }
            i = i + 1;
        }
        true
    }

    /// The position where `k` is or would be inserted.
    fn position(&self, k: &Vec<char>) -> (r: (usize, bool))
        requires
            self.wf(),
        ensures
            r.0 <= self.keys().len(),
            forall|j: int| 0 <= j < r.0 ==> lex_lt(#[trigger] self.keys()[j], k@),
            r.1 ==> r.0 < self.keys().len() && self.keys()[r.0 as int] == k@,
            !r.1 ==> forall|j: int|
                r.0 <= j < self.keys().len() ==> lex_lt(k@, #[trigger] self.keys()[j]),
    {
        let n = self.entries.len();
        let mut i: usize = 0;
        while i < n
            invariant
                n == self.keys().len(),
                self.wf(),
                i <= n,
                forall|j: int| 0 <= j < i ==> lex_lt(#[trigger] self.keys()[j], k@),
            decreases n - i,
        {
            let key = &self.entries[i].0;
            assert(key@ == self.keys()[i as int]);
            if !lex_lt_exec(key, k) {
                proof {
                    lemma_lex_total(key@, k@);
                }
                if crate::text::eq_chars(key, k) {
                    return (i, true);
                }
                assert forall|j: int| i <= j < self.keys().len() implies lex_lt(
                    k@,
                    #[trigger] self.keys()[j],
                ) by {
                    if j > i {
                        lemma_lex_transitive(k@, self.keys()[i as int], self.keys()[j]);
                    }
                }
                return (i, false);
            }
            i = i + 1;
        }
        (n, false)
    }

    /// The value under `k`.
    pub fn get(&self, k: &Vec<char>) -> (r: Option<&V>)
        requires
            self.wf(),
        ensures
            match r {
                Some(x) => self.lookup(k@) == Some(*x),
                None => self.lookup(k@) is None,
            },
    {
        proof {
            self.lemma_positions();
        }
        let (i, found) = self.position(k);
        if found {
            Some(&self.entries[i].1)
        } else {
            assert(!self.keys().contains(k@)) by {
                if self.keys().contains(k@) {
                    let j = self.keys().index_of(k@);
                    if j < i {
                        assert(lex_lt(self.keys()[j], k@));
                    } else {
                        assert(lex_lt(k@, self.keys()[j]));
                    }
                    lemma_lex_irreflexive(k@);
                }
            }
            None
        }
    }

    /// The value under the key given as a string slice.
    pub fn get_str(&self, k: &str) -> (r: Option<&V>)
        requires
            self.wf(),
        ensures
            match r {
                Some(x) => self.lookup(k@) == Some(*x),
                None => self.lookup(k@) is None,
            },
    {
        let kv = crate::text::chars_of(k);
        self.get(&kv)
    }

    /// Sets the value under `k`.
    pub fn insert(&mut self, k: Vec<char>, v: V)
        requires
            old(self).wf(),
        ensures
            final(self).wf(),
            final(self)@ == old(self)@.insert(k@, v),
    {
        proof {
            self.lemma_positions();
        }
        let ghost kk = k@;
        let (i, found) = self.position(&k);
        let ghost old_keys = self.keys();
        let ghost old_vals = self.values();
        if found {
            self.entries.set(i, (k, v));
            assert(self.keys() =~= old_keys.update(i as int, kk));
            assert(self.keys() =~= old_keys);
        } else {
            self.entries.insert(i, (k, v));
            assert(self.keys() =~= old_keys.insert(i as int, kk));
        }
        assert(sorted_keys(self.keys())) by {
            assert forall|a: int, b: int| 0 <= a < b < self.keys().len() implies lex_lt(
                self.keys()[a],
                self.keys()[b],
            ) by {
                if !found {
                    if a < i && b == i {
                    } else if a == i && b > i {
                        assert(self.keys()[b] == old_keys[b - 1]);
                    } else if a < i && b > i {
                        assert(self.keys()[b] == old_keys[b - 1]);
                    } else if a > i {
                        assert(self.keys()[a] == old_keys[a - 1]);
                        assert(self.keys()[b] == old_keys[b - 1]);
                    }
                }
            }
        }
        proof {
            self.lemma_positions();
        }
        assert(self@ =~= old(self)@.insert(kk, v)) by {
            assert forall|key: Seq<char>| #[trigger] self@.dom().contains(key) <==> old(
                self,
            )@.insert(kk, v).dom().contains(key) by {
                if self.keys().contains(key) {
                    let p = self.keys().index_of(key);
                    if key != kk {
                        if found {
                            assert(old_keys[p] == key);
                        } else if p < i {
                            assert(old_keys[p] == key);
                        } else {
                            assert(old_keys[p - 1] == key);
                        }
                    }
                }
                if key != kk && old_keys.contains(key) {
                    let p = old_keys.index_of(key);
                    if found || p < i {
                        assert(self.keys()[p] == key);
                    } else {
                        assert(self.keys()[p + 1] == key);
                    }
                }
                if key == kk {
                    assert(self.keys()[i as int] == kk);
                }
            }
            assert forall|key: Seq<char>| #[trigger] self@.dom().contains(key) implies self@[key]
                == old(self)@.insert(kk, v)[key] by {
                let p = self.keys().index_of(key);
                if key == kk {
                    assert(self.keys()[i as int] == kk);
                    assert(self.values()[i as int] == v);
                } else {
                    if found || p < i {
                        assert(old_keys[p] == key);
                        assert(self.values()[p] == old_vals[p]);
                    } else {
                        assert(old_keys[p - 1] == key);
                        assert(self.values()[p] == old_vals[p - 1]);
                    }
                }
            }
        }
    }

    /// Removes the entry under `k`, handing back its value.
    pub fn remove(&mut self, k: &Vec<char>) -> (r: Option<V>)
        requires
            old(self).wf(),
        ensures
            final(self).wf(),
            final(self)@ == old(self)@.remove(k@),
            r == old(self).lookup(k@),
    {
        proof {
            self.lemma_positions();
        }
        let (i, found) = self.position(k);
        let ghost old_keys = self.keys();
        let ghost old_vals = self.values();
        if !found {
            assert(!old_keys.contains(k@)) by {
                if old_keys.contains(k@) {
                    let j = old_keys.index_of(k@);
                    if j < i {
                        assert(lex_lt(old_keys[j], k@));
                    } else {
                        assert(lex_lt(k@, old_keys[j]));
                    }
                    lemma_lex_irreflexive(k@);
                }
            }
            assert(self@ =~= old(self)@.remove(k@));
            return None;
        }
        let e = self.entries.remove(i);
        assert(self.keys() =~= old_keys.remove(i as int));
        assert(self.values() =~= old_vals.remove(i as int));
        assert(sorted_keys(self.keys())) by {
            assert forall|a: int, b: int| 0 <= a < b < self.keys().len() implies lex_lt(
                self.keys()[a],
                self.keys()[b],
            ) by {
                let oa = if a < i { a } else { a + 1 };
                let ob = if b < i { b } else { b + 1 };
                assert(self.keys()[a] == old_keys[oa]);
                assert(self.keys()[b] == old_keys[ob]);
            }
        }
        proof {
            self.lemma_positions();
        }
        assert(self@ =~= old(self)@.remove(k@)) by {
            assert forall|key: Seq<char>| #[trigger] self@.dom().contains(key) <==> old(
                self,
            )@.remove(k@).dom().contains(key) by {
                if self.keys().contains(key) {
                    let p = self.keys().index_of(key);
                    let op = if p < i { p } else { p + 1 };
                    assert(old_keys[op] == key);
                    if key == k@ {
                        lemma_lex_irreflexive(key);
                        if op < i {
                            assert(lex_lt(old_keys[op], old_keys[i as int]));
                        } else {
                            assert(lex_lt(old_keys[i as int], old_keys[op]));
                        }
                    }
                }
                if key != k@ && old_keys.contains(key) {
                    let p = old_keys.index_of(key);
                    if p < i {
                        assert(self.keys()[p] == key);
                    } else {
                        assert(p != i);
                        assert(self.keys()[p - 1] == key);
                    }
                }
            }
            assert forall|key: Seq<char>| #[trigger] self@.dom().contains(key) implies self@[key]
                == old(self)@.remove(k@)[key] by {
                let p = self.keys().index_of(key);
                let op = if p < i { p } else { p + 1 };
                assert(old_keys[op] == key);
                assert(self.values()[p] == old_vals[op]);
            }
        }
        Some(e.1)
    }

    /// The key at position `i` (keys in increasing order).
    pub fn key_at(&self, i: usize) -> (k: String)
        requires
            i < self.keys().len(),
        ensures
            k@ == self.keys()[i as int],
    {
        string_of(&self.entries[i].0)
    }

    /// The value at position `i`.
    pub fn value_at(&self, i: usize) -> (v: &V)
        requires
            i < self.keys().len(),
        ensures
            *v == self.values()[i as int],
    {
        &self.entries[i].1
    }

    /// The values, in increasing order of their keys.
    pub fn into_values(self) -> (out: Vec<V>)
        ensures
            out@ == self.values(),
    {
        let mut entries = self.entries;
        let ghost all = entries@;
        let mut out: Vec<V> = Vec::new();
        let n = entries.len();
        let mut rev: Vec<V> = Vec::new();
        while entries.len() > 0
            invariant
                entries@ == all.take(entries@.len() as int),
                entries@.len() <= all.len(),
                rev@.len() == all.len() - entries@.len(),
                forall|j: int|
                    0 <= j < rev@.len() ==> #[trigger] rev@[j] == all[all.len() - 1 - j].1,
            decreases entries@.len(),
        {
            let e = entries.pop().unwrap();
            rev.push(e.1);
            assert(entries@ =~= all.take(entries@.len() as int));
        }
        while rev.len() > 0
            invariant
                out@.len() + rev@.len() == all.len(),
                forall|j: int| 0 <= j < rev@.len() ==> #[trigger] rev@[j] == all[all.len() - 1 - j].1,
                forall|j: int| 0 <= j < out@.len() ==> #[trigger] out@[j] == all[j].1,
            decreases rev@.len(),
        {
            let x = rev.pop().unwrap();
            out.push(x);
        }
        assert(out@ =~= self.values());
        out
    }
}

} // verus!
