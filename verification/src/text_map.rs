//! A map keyed by text, kept as a list of entries with distinct keys.

use crate::text::same;
use vstd::prelude::*;

verus! {

/// A map from text to `V`.
pub struct TextMap<V> {
    entries: Vec<(String, V)>,
}

spec fn keys_of<V>(entries: Seq<(String, V)>) -> Seq<Seq<char>> {
    Seq::new(entries.len(), |i: int| entries[i].0@)
}

spec fn distinct<V>(entries: Seq<(String, V)>) -> bool {
    forall|i: int, j: int|
        0 <= i < j < entries.len() ==> #[trigger] entries[i].0@ != #[trigger] entries[j].0@
}

spec fn map_of<V>(entries: Seq<(String, V)>) -> Map<Seq<char>, V> {
    Map::new(
        |k: Seq<char>| exists|i: int| 0 <= i < entries.len() && #[trigger] entries[i].0@ == k,
        |k: Seq<char>| entries[choose|i: int| 0 <= i < entries.len() && #[trigger] entries[i].0@ == k].1,
    )
}

impl<V> View for TextMap<V> {
    type V = Map<Seq<char>, V>;

    closed spec fn view(&self) -> Map<Seq<char>, V> {
        map_of(self.entries@)
    }
}

impl<V: DeepView> DeepView for TextMap<V> {
    type V = Map<Seq<char>, V::V>;

    open spec fn deep_view(&self) -> Map<Seq<char>, V::V> {
        self@.map_values(|v: V| v.deep_view())
    }
}

proof fn lemma_entry<V>(entries: Seq<(String, V)>, i: int)
    requires
        distinct(entries),
        0 <= i < entries.len(),
    ensures
        map_of(entries).contains_key(entries[i].0@),
        map_of(entries)[entries[i].0@] == entries[i].1,
{
    let k = entries[i].0@;
    let j = choose|j: int| 0 <= j < entries.len() && #[trigger] entries[j].0@ == k;
    assert(i == j);
}

proof fn lemma_size<V>(entries: Seq<(String, V)>)
    requires
        distinct(entries),
    ensures
        map_of(entries).dom().finite(),
        map_of(entries).dom().len() == entries.len(),
{
    let keys = keys_of(entries);
    assert(keys.no_duplicates());
    keys.unique_seq_to_set();
    assert(keys.to_set() =~= map_of(entries).dom()) by {
        assert forall|k: Seq<char>| keys.to_set().contains(k) implies map_of(
            entries,
        ).dom().contains(k) by {
            let i = choose|i: int| 0 <= i < keys.len() && keys[i] == k;
            assert(entries[i].0@ == k);
        }
        assert forall|k: Seq<char>| map_of(entries).dom().contains(k) implies keys.to_set().contains(
            k,
        ) by {
            let i = choose|i: int| 0 <= i < entries.len() && #[trigger] entries[i].0@ == k;
            assert(keys[i] == k);
        }
    }
}

impl<V> TextMap<V> {
    #[verifier::type_invariant]
    spec fn distinct_keys(self) -> bool {
        distinct(self.entries@)
    }

    /// The map with no entry.
    pub fn new() -> (r: Self)
        ensures
            r@ == Map::<Seq<char>, V>::empty(),
    {
        let r = TextMap { entries: Vec::new() };
        assert(r@ =~= Map::<Seq<char>, V>::empty());
        r
    }

    /// How many keys the map holds.
    pub fn len(&self) -> (n: usize)
        ensures
            self@.dom().finite(),
            n == self@.dom().len(),
    {
        proof {
            use_type_invariant(self);
            lemma_size(self.entries@);
        }
        self.entries.len()
    }

    fn position(&self, key: &str) -> (r: Option<usize>)
        ensures
            match r {
                Some(i) => i < self.entries@.len() && self.entries@[i as int].0@ == key@,
                None => !self@.contains_key(key@),
            },
    {
        let mut i: usize = 0;
        while i < self.entries.len()
            invariant
                0 <= i <= self.entries@.len(),
                forall|j: int| 0 <= j < i ==> #[trigger] self.entries@[j].0@ != key@,
            decreases self.entries@.len() - i,
        {
            if same(self.entries[i].0.as_str(), key) {
                return Some(i);
            }
            i = i + 1;
        }
        None
    }

    /// The value under `key`.
    pub fn get(&self, key: &str) -> (r: Option<&V>)
        ensures
            match r {
                Some(v) => self@.contains_key(key@) && *v == self@[key@],
                None => !self@.contains_key(key@),
            },
    {
        proof {
            use_type_invariant(self);
        }
        match self.position(key) {
            Some(i) => {
                proof {
                    lemma_entry(self.entries@, i as int);
                }
                Some(&self.entries[i].1)
            },
            None => None,
        }
    }

    /// Whether the map holds `key`.
    pub fn contains_key(&self, key: &str) -> (r: bool)
        ensures
            r == self@.contains_key(key@),
    {
        self.get(key).is_some()
    }

    /// Takes `key` and its value out of the map.
    pub fn remove(&mut self, key: &str) -> (r: Option<V>)
        ensures
            final(self)@ == old(self)@.remove(key@),
            match r {
                Some(v) => old(self)@.contains_key(key@) && v == old(self)@[key@],
                None => !old(self)@.contains_key(key@),
            },
    {
        proof {
            use_type_invariant(&*self);
        }
        match self.position(key) {
            Some(at) => {
                let ghost before = self.entries@;
                let mut entries: Vec<(String, V)> = Vec::new();
                std::mem::swap(&mut entries, &mut self.entries);
                let (_, value) = entries.remove(at);
                proof {
                    lemma_entry(before, at as int);
                    lemma_removed(before, at as int);
                }
                self.entries = entries;
                Some(value)
            },
            None => {
                assert(self@.remove(key@) =~= self@);
                None
            },
        }
    }

    /// Puts `value` under `key`, in the place of what stood there.
    pub fn insert(&mut self, key: String, value: V)
        ensures
            final(self)@ == old(self)@.insert(key@, value),
    {
        let ghost whole = self@;
        let _ = self.remove(key.as_str());
        proof {
            use_type_invariant(&*self);
        }
        let ghost before = self.entries@;
        assert(!self@.contains_key(key@));
        assert forall|i: int| 0 <= i < before.len() implies #[trigger] before[i].0@ != key@ by {
            lemma_entry(before, i);
        }
        let mut entries: Vec<(String, V)> = Vec::new();
        std::mem::swap(&mut entries, &mut self.entries);
        let ghost k = key@;
        entries.push((key, value));
        proof {
            lemma_pushed(before, entries@[before.len() as int]);
        }
        self.entries = entries;
        assert(whole.remove(k).insert(k, value) =~= whole.insert(k, value));
    }

    /// The keys of the map, each once.
    pub fn keys(&self) -> (r: Vec<String>)
        ensures
            r.deep_view().no_duplicates(),
            r.deep_view().to_set() == self@.dom(),
    {
        proof {
            use_type_invariant(self);
        }
        let mut out: Vec<String> = Vec::new();
        let mut i: usize = 0;
        while i < self.entries.len()
            invariant
                0 <= i <= self.entries@.len(),
                out.deep_view() == keys_of(self.entries@).take(i as int),
            decreases self.entries@.len() - i,
        {
            let ghost before = out.deep_view();
            out.push(self.entries[i].0.clone());
            assert(out.deep_view() =~= before.push(self.entries@[i as int].0@));
            assert(out.deep_view() =~= keys_of(self.entries@).take(i + 1));
            i = i + 1;
        }
        let ghost keys = keys_of(self.entries@);
        assert(keys.take(keys.len() as int) == keys);
        assert(keys.to_set() =~= self@.dom()) by {
            assert forall|k: Seq<char>| self@.dom().contains(k) implies keys.to_set().contains(
                k,
            ) by {
                let j = choose|j: int|
                    0 <= j < self.entries@.len() && #[trigger] self.entries@[j].0@ == k;
                assert(keys[j] == k);
            }
            assert forall|k: Seq<char>| keys.to_set().contains(k) implies self@.dom().contains(
                k,
            ) by {
                let j = choose|j: int| 0 <= j < keys.len() && keys[j] == k;
                assert(self.entries@[j].0@ == k);
            }
        }
        out
    }
}

proof fn lemma_removed<V>(entries: Seq<(String, V)>, at: int)
    requires
        distinct(entries),
        0 <= at < entries.len(),
    ensures
        distinct(entries.remove(at)),
        map_of(entries.remove(at)) == map_of(entries).remove(entries[at].0@),
{
    let rest = entries.remove(at);
    let key = entries[at].0@;
    let old_index = |i: int|
        if i < at {
            i
        } else {
            i + 1
        };
    assert forall|i: int| 0 <= i < rest.len() implies #[trigger] rest[i] == entries[old_index(
        i,
    )] by {}
    assert(distinct(rest));
    let a = map_of(rest);
    let b = map_of(entries).remove(key);
    assert forall|k: Seq<char>| a.contains_key(k) == b.contains_key(k) by {
        if a.contains_key(k) {
            let i = choose|i: int| 0 <= i < rest.len() && #[trigger] rest[i].0@ == k;
            assert(entries[old_index(i)].0@ == k);
        }
        if b.contains_key(k) {
            let i = choose|i: int| 0 <= i < entries.len() && #[trigger] entries[i].0@ == k;
            assert(i != at);
            let j = if i < at {
                i
            } else {
                i - 1
            };
            assert(rest[j].0@ == k);
        }
    }
    assert forall|k: Seq<char>| #[trigger] a.contains_key(k) implies a[k] == b[k] by {
        let i = choose|i: int| 0 <= i < rest.len() && #[trigger] rest[i].0@ == k;
        lemma_entry(rest, i);
        lemma_entry(entries, old_index(i));
    }
    assert(a =~= b);
}

proof fn lemma_pushed<V>(entries: Seq<(String, V)>, last: (String, V))
    requires
        distinct(entries),
        forall|i: int| 0 <= i < entries.len() ==> #[trigger] entries[i].0@ != last.0@,
    ensures
        distinct(entries.push(last)),
        map_of(entries.push(last)) == map_of(entries).insert(last.0@, last.1),
{
    let more = entries.push(last);
    assert(distinct(more));
    let a = map_of(more);
    let b = map_of(entries).insert(last.0@, last.1);
    assert forall|k: Seq<char>| a.contains_key(k) == b.contains_key(k) by {
        if a.contains_key(k) {
            let i = choose|i: int| 0 <= i < more.len() && #[trigger] more[i].0@ == k;
            if i < entries.len() {
                assert(entries[i].0@ == k);
            }
        }
        if b.contains_key(k) {
            if k == last.0@ {
                assert(more[entries.len() as int].0@ == k);
            } else {
                let i = choose|i: int| 0 <= i < entries.len() && #[trigger] entries[i].0@ == k;
                assert(more[i].0@ == k);
            }
        }
    }
    assert forall|k: Seq<char>| #[trigger] a.contains_key(k) implies a[k] == b[k] by {
        let i = choose|i: int| 0 <= i < more.len() && #[trigger] more[i].0@ == k;
        lemma_entry(more, i);
        if i < entries.len() {
            lemma_entry(entries, i);
        }
    }
    assert(a =~= b);
}

/// The deep view of a map with one entry more.
pub proof fn deep_insert<V: DeepView>(m: Map<Seq<char>, V>, k: Seq<char>, v: V)
    ensures
        m.insert(k, v).map_values(|v: V| v.deep_view()) == m.map_values(
            |v: V| v.deep_view(),
        ).insert(k, v.deep_view()),
{
    assert(m.insert(k, v).map_values(|v: V| v.deep_view()) =~= m.map_values(
        |v: V| v.deep_view(),
    ).insert(k, v.deep_view()));
}

/// The deep view of a map with one entry less.
pub proof fn deep_remove<V: DeepView>(m: Map<Seq<char>, V>, k: Seq<char>)
    ensures
        m.remove(k).map_values(|v: V| v.deep_view()) == m.map_values(
            |v: V| v.deep_view(),
        ).remove(k),
{
    assert(m.remove(k).map_values(|v: V| v.deep_view()) =~= m.map_values(
        |v: V| v.deep_view(),
    ).remove(k));
}

} // verus!
