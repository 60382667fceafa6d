//! An insertion-ordered map from text keys to lists of text values, with
//! unique keys: the store behind headers and query parameters.

use vstd::prelude::*;
use crate::text::{same, texts_view};

verus! {

/// One key with its values.
#[derive(Clone, Debug)]
pub struct MultiEntry {
    pub key: String,
    pub values: Vec<String>,
}

/// Keys with lists of values; each key occurs once.
#[derive(Clone, Debug)]
pub struct MultiMap {
    pub entries: Vec<MultiEntry>,
}

/// Whether no key occurs twice among the entries.
pub open spec fn keys_unique(es: Seq<MultiEntry>) -> bool {
    forall|i: int, j: int| 0 <= i < j < es.len() ==> es[i].key@ != es[j].key@
}

/// The map that the entries stand for.
pub open spec fn entries_map(es: Seq<MultiEntry>) -> Map<Seq<char>, Seq<Seq<char>>>
    decreases es.len(),
{
    if es.len() == 0 {
        Map::empty()
    } else {
        entries_map(es.drop_last()).insert(es.last().key@, texts_view(es.last().values@))
    }
}

/// An entry's key is in the map, with that entry's values.
pub proof fn lemma_entry_in_map(es: Seq<MultiEntry>, i: int)
    requires
        keys_unique(es),
        0 <= i < es.len(),
    ensures
        entries_map(es).contains_key(es[i].key@),
        entries_map(es)[es[i].key@] == texts_view(es[i].values@),
    decreases es.len(),
{
    if i < es.len() - 1 {
        lemma_entry_in_map(es.drop_last(), i);
    }
}

/// A key that no entry has is not in the map.
pub proof fn lemma_absent_key(es: Seq<MultiEntry>, k: Seq<char>)
    requires
        forall|i: int| 0 <= i < es.len() ==> es[i].key@ != k,
    ensures
        !entries_map(es).contains_key(k),
    decreases es.len(),
{
    if es.len() > 0 {
        lemma_absent_key(es.drop_last(), k);
    }
}

/// The map is finite, with one key per entry.
pub proof fn lemma_map_size(es: Seq<MultiEntry>)
    requires
        keys_unique(es),
    ensures
        entries_map(es).dom().finite(),
        entries_map(es).dom().len() == es.len(),
    decreases es.len(),
{
    if es.len() > 0 {
        lemma_map_size(es.drop_last());
        lemma_absent_key(es.drop_last(), es.last().key@);
    }
}

/// Taking out one entry takes its key out of the map.
pub proof fn lemma_remove_entry(es: Seq<MultiEntry>, i: int)
    requires
        keys_unique(es),
        0 <= i < es.len(),
    ensures
        keys_unique(es.remove(i)),
        entries_map(es.remove(i)) == entries_map(es).remove(es[i].key@),
    decreases es.len(),
{
    let r = es.remove(i);
    assert(keys_unique(r)) by {
        assert forall|a: int, b: int| 0 <= a < b < r.len() implies r[a].key@ != r[b].key@ by {
            let a2 = if a < i { a } else { a + 1 };
            let b2 = if b < i { b } else { b + 1 };
            assert(r[a] == es[a2]);
            assert(r[b] == es[b2]);
        }
    }
    if i == es.len() - 1 {
        assert(r =~= es.drop_last());
        lemma_absent_key(es.drop_last(), es.last().key@);
        assert(entries_map(r) =~= entries_map(es).remove(es[i].key@));
    } else {
        let d = es.drop_last();
        lemma_remove_entry(d, i);
        assert(r.drop_last() =~= d.remove(i));
        assert(r.last() == es.last());
        assert(entries_map(r) =~= entries_map(es).remove(es[i].key@));
    }
}

impl MultiMap {
    /// The map of keys to values.
    pub open spec fn view(&self) -> Map<Seq<char>, Seq<Seq<char>>> {
        entries_map(self.entries@)
    }

    /// Keys are unique.
    pub open spec fn wf(&self) -> bool {
        keys_unique(self.entries@)
    }

    /// An empty map.
    pub fn new() -> (r: Self)
        ensures
            r.wf(),
            r@ == Map::<Seq<char>, Seq<Seq<char>>>::empty(),
    {
        MultiMap { entries: Vec::new() }
    }

    /// The position of the entry with key `k`, if any.
    pub fn position(&self, k: &str) -> (r: Option<usize>)
        requires
            self.wf(),
        ensures
            match r {
                Some(i) => i < self.entries@.len() && self.entries@[i as int].key@ == k@,
                None => forall|i: int| 0 <= i < self.entries@.len() ==> self.entries@[i].key@ != k@,
            },
            r is Some <==> self@.contains_key(k@),
    {
        let mut i: usize = 0;
        while i < self.entries.len()
            invariant
                self.wf(),
                i <= self.entries@.len(),
                forall|j: int| 0 <= j < i ==> self.entries@[j].key@ != k@,
            decreases self.entries@.len() - i,
        {
            if same(self.entries[i].key.as_str(), k) {
                proof { lemma_entry_in_map(self.entries@, i as int); }
                return Some(i);
            }
            i = i + 1;
        }
        proof { lemma_absent_key(self.entries@, k@); }
        None
    }

    /// The values under `k`, or an empty list.
    pub fn get_list(&self, k: &str) -> (r: Vec<String>)
        requires
            self.wf(),
        ensures
            texts_view(r@) == if self@.contains_key(k@) { self@[k@] } else { Seq::empty() },
    {
        match self.position(k) {
            Some(i) => {
                proof { lemma_entry_in_map(self.entries@, i as int); }
                self.entries[i].values.clone()
            },
            None => {
                let r: Vec<String> = Vec::new();
                assert(texts_view(r@) =~= Seq::empty());
                r
            },
        }
    }

    /// The first value under `k`.
    pub fn get(&self, k: &str) -> (r: Option<String>)
        requires
            self.wf(),
        ensures
            match r {
                Some(v) => self@.contains_key(k@) && self@[k@].len() > 0 && v@ == self@[k@][0],
                None => !self@.contains_key(k@) || self@[k@].len() == 0,
            },
    {
        match self.position(k) {
            Some(i) => {
                proof { lemma_entry_in_map(self.entries@, i as int); }
                if self.entries[i].values.len() > 0 {
                    Some(self.entries[i].values[0].clone())
                } else {
                    None
                }
            },
            None => None,
        }
    }

    /// Whether `k` is present.
    pub fn contains(&self, k: &str) -> (r: bool)
        requires
            self.wf(),
        ensures
            r == self@.contains_key(k@),
    {
        self.position(k).is_some()
    }

    /// Takes `k` out, giving back its values if it was present.
    pub fn remove(&mut self, k: &str) -> (r: Option<Vec<String>>)
        requires
            old(self).wf(),
        ensures
            final(self).wf(),
            final(self)@ == old(self)@.remove(k@),
            match r {
                Some(v) => old(self)@.contains_key(k@) && texts_view(v@) == old(self)@[k@],
                None => !old(self)@.contains_key(k@),
            },
    {
        match self.position(k) {
            Some(i) => {
                proof {
                    lemma_entry_in_map(self.entries@, i as int);
                    lemma_remove_entry(self.entries@, i as int);
                }
                let e = self.entries.remove(i);
                Some(e.values)
            },
            None => {
                assert(self@.remove(k@) =~= self@);
                None
            },
        }
    }

    /// Puts `k` with exactly the values `vs`, replacing what it had.
    pub fn set_list(&mut self, k: &str, vs: Vec<String>)
        requires
            old(self).wf(),
        ensures
            final(self).wf(),
            final(self)@ == old(self)@.insert(k@, texts_view(vs@)),
    {
        let _ = self.remove(k);
        let ghost mid = self.entries@;
        self.entries.push(MultiEntry { key: String::from_str(k), values: vs });
        proof {
            assert forall|i: int| 0 <= i < mid.len() implies mid[i].key@ != k@ by {
                lemma_entry_in_map(mid, i);
            }
            lemma_absent_key(mid, k@);
            assert(self.entries@.drop_last() =~= mid);
            assert forall|i: int, j: int| 0 <= i < j < self.entries@.len()
                implies self.entries@[i].key@ != self.entries@[j].key@ by {
                assert(self.entries@[i] == mid[i]);
            }
            assert(self@ =~= old(self)@.insert(k@, texts_view(vs@)));
        }
    }

    /// Puts `k` with the single value `v`, replacing what it had.
    pub fn set(&mut self, k: &str, v: &str)
        requires
            old(self).wf(),
        ensures
            final(self).wf(),
            final(self)@ == old(self)@.insert(k@, seq![v@]),
    {
        let mut vs: Vec<String> = Vec::new();
        vs.push(String::from_str(v));
        assert(texts_view(vs@) =~= seq![v@]);
        self.set_list(k, vs);
    }

    /// Appends `v` to the values of `k`, adding `k` when absent.
    pub fn add(&mut self, k: &str, v: &str)
        requires
            old(self).wf(),
        ensures
            final(self).wf(),
            final(self)@ == old(self)@.insert(
                k@,
                if old(self)@.contains_key(k@) { old(self)@[k@].push(v@) } else { seq![v@] },
            ),
    {
        let mut vs = self.get_list(k);
        let ghost before = vs@;
        vs.push(String::from_str(v));
        assert(texts_view(vs@) =~= texts_view(before).push(v@));
        self.set_list(k, vs);
    }

    /// The keys, in the order in which they were last set.
    pub fn keys(&self) -> (r: Vec<String>)
        requires
            self.wf(),
        ensures
            r@.len() == self.entries@.len(),
            forall|i: int| 0 <= i < r@.len() ==> self@.contains_key(#[trigger] r@[i]@),
            forall|k: Seq<char>| self@.contains_key(k) ==> exists|i: int| 0 <= i < r@.len() && r@[i]@ == k,
    {
        let mut out: Vec<String> = Vec::new();
        let mut i: usize = 0;
        while i < self.entries.len()
            invariant
                self.wf(),
                i <= self.entries@.len(),
                out@.len() == i,
                forall|j: int| 0 <= j < i ==> out@[j]@ == self.entries@[j].key@,
            decreases self.entries@.len() - i,
        {
            out.push(self.entries[i].key.clone());
            i = i + 1;
        }
        proof {
            assert forall|j: int| 0 <= j < out@.len() implies self@.contains_key(#[trigger] out@[j]@) by {
                lemma_entry_in_map(self.entries@, j);
            }
            assert forall|k: Seq<char>| self@.contains_key(k) implies exists|j: int| 0 <= j < out@.len() && out@[j]@ == k by {
                if forall|j: int| 0 <= j < self.entries@.len() ==> self.entries@[j].key@ != k {
                    lemma_absent_key(self.entries@, k);
                }
                let j = choose|j: int| 0 <= j < self.entries@.len() && !(self.entries@[j].key@ != k);
                assert(out@[j]@ == k);
            }
        }
        out
    }

    /// The number of keys.
    pub fn len(&self) -> (r: usize)
        requires
            self.wf(),
        ensures
            r == self@.dom().len(),
    {
        proof { lemma_map_size(self.entries@); }
        self.entries.len()
    }

    /// Whether there is no key.
    pub fn is_empty(&self) -> (r: bool)
        requires
            self.wf(),
        ensures
            r == (self@.dom().len() == 0),
    {
        proof { lemma_map_size(self.entries@); }
        self.entries.len() == 0
    }

    /// Takes out every key.
    pub fn clear(&mut self)
        ensures
            final(self).wf(),
            final(self)@ == Map::<Seq<char>, Seq<Seq<char>>>::empty(),
    {
        self.entries = Vec::new();
    }
}


/// Two entry lists with the same keys and values, position by position,
/// stand for the same map.
pub proof fn lemma_same_entries(a: Seq<MultiEntry>, b: Seq<MultiEntry>)
    requires
        a.len() == b.len(),
        forall|i: int| 0 <= i < a.len() ==> (#[trigger] a[i]).key@ == b[i].key@
            && texts_view(a[i].values@) == texts_view(b[i].values@),
    ensures
        entries_map(a) == entries_map(b),
        keys_unique(a) ==> keys_unique(b),
    decreases a.len(),
{
    if a.len() > 0 {
        lemma_same_entries(a.drop_last(), b.drop_last());
        assert(a.last() == a[a.len() - 1]);
    }
    if keys_unique(a) {
        assert forall|i: int, j: int| 0 <= i < j < b.len() implies b[i].key@ != b[j].key@ by {
            assert(a[i].key@ == b[i].key@);
            assert(a[j].key@ == b[j].key@);
        }
    }
}

/// A copy of a list of texts.
pub fn clone_texts(v: &Vec<String>) -> (r: Vec<String>)
    ensures
        r@ == v@,
{
    let mut out: Vec<String> = Vec::new();
    let mut i: usize = 0;
    while i < v.len()
        invariant
            i <= v@.len(),
            out@ == v@.take(i as int),
        decreases v@.len() - i,
    {
        out.push(v[i].clone());
        i = i + 1;
        assert(out@ =~= v@.take(i as int));
    }
    assert(v@.take(v@.len() as int) =~= v@);
    out
}

impl MultiMap {
    /// A copy of the map.
    pub fn clone_map(&self) -> (r: Self)
        requires
            self.wf(),
        ensures
            r.wf(),
            r@ == self@,
    {
        let mut out: Vec<MultiEntry> = Vec::new();
        let mut i: usize = 0;
        while i < self.entries.len()
            invariant
                i <= self.entries@.len(),
                out@.len() == i,
                forall|j: int| 0 <= j < i ==> (#[trigger] out@[j]).key@ == self.entries@[j].key@
                    && texts_view(out@[j].values@) == texts_view(self.entries@[j].values@),
            decreases self.entries@.len() - i,
        {
            let e = &self.entries[i];
            out.push(MultiEntry { key: e.key.clone(), values: clone_texts(&e.values) });
            i = i + 1;
        }
        proof { lemma_same_entries(self.entries@, out@); }
        MultiMap { entries: out }
    }
}


impl MultiMap {
    /// Whether no key occurs twice.
    pub fn check_wf(&self) -> (r: bool)
        ensures
            r == self.wf(),
    {
        let n = self.entries.len();
        let mut i: usize = 0;
        while i < n
            invariant
                n == self.entries@.len(),
                i <= n,
                forall|a: int, b: int| 0 <= a < b < n && a < i ==> self.entries@[a].key@ != self.entries@[b].key@,
            decreases n - i,
        {
            let mut j: usize = i + 1;
            while j < n
                invariant
                    n == self.entries@.len(),
                    i < n,
                    i + 1 <= j <= n,
                    forall|a: int, b: int| 0 <= a < b < n && a < i ==> self.entries@[a].key@ != self.entries@[b].key@,
                    forall|b: int| i < b < j ==> self.entries@[i as int].key@ != self.entries@[b].key@,
                decreases n - j,
            {
                if same(self.entries[i].key.as_str(), self.entries[j].key.as_str()) {
                    return false;
                }
                j = j + 1;
            }
            i = i + 1;
        }
        true
    }
}

} // verus!
