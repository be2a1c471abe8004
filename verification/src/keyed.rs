//! Sets and maps keyed by text.

use vstd::prelude::*;

use crate::text::{same, texts};

verus! {

/// A set of strings, kept in the order in which they came.
pub struct StringSet {
    items: Vec<String>,
}

impl View for StringSet {
    type V = Set<Seq<char>>;

    closed spec fn view(&self) -> Set<Seq<char>> {
        texts(self.items@).to_set()
    }
}

impl StringSet {
    #[verifier::type_invariant]
    spec fn distinct(self) -> bool {
        texts(self.items@).no_duplicates()
    }

    /// The empty set.
    pub fn new() -> (r: Self)
        ensures
            r@ == Set::<Seq<char>>::empty(),
    {
        let items: Vec<String> = Vec::new();
        assert(texts(items@) =~= Seq::<Seq<char>>::empty());
        let r = StringSet { items };
        assert(r@ =~= Set::<Seq<char>>::empty());
        r
    }

    /// The position of a member.
    fn position(&self, key: &str) -> (r: Option<usize>)
        ensures
            r matches Some(i) ==> i < self.items@.len() && self.items@[i as int]@ == key@,
            r is None ==> !self@.contains(key@),
            r is Some ==> self@.contains(key@),
    {
        let mut i: usize = 0;
        while i < self.items.len()
            invariant
                i <= self.items@.len(),
                forall|j: int| 0 <= j < i ==> (#[trigger] self.items@[j])@ != key@,
            decreases self.items@.len() - i,
        {
            if same(self.items[i].as_str(), key) {
                assert(texts(self.items@)[i as int] == key@);
                return Some(i);
            }
            i += 1;
        }
        assert forall|j: int| 0 <= j < texts(self.items@).len() implies texts(self.items@)[j]
            != key@ by {
            assert(self.items@[j]@ != key@);
        }
        None
    }

    /// Whether the set holds the string.
    pub fn contains(&self, key: &str) -> (r: bool)
        ensures
            r == self@.contains(key@),
    {
        self.position(key).is_some()
    }

    /// Adds a string.
    pub fn insert(&mut self, key: String)
        ensures
            final(self)@ == old(self)@.insert(key@),
    {
        proof {
            use_type_invariant(&*self);
        }
        if self.contains(key.as_str()) {
            assert(self@.insert(key@) =~= self@);
            return;
        }
        let ghost before = texts(self.items@);
        let mut items: Vec<String> = Vec::new();
        std::mem::swap(&mut items, &mut self.items);
        items.push(key);
        proof {
            assert(texts(items@) =~= before.push(key@));
            assert(!before.contains(key@));
            assert(before.push(key@).to_set() =~= before.to_set().insert(key@)) by {
                before.lemma_push_to_set_commute(key@);
            }
        }
        self.items = items;
    }

    /// Takes a string out, and says whether it was there.
    pub fn remove(&mut self, key: &str) -> (r: bool)
        ensures
            r == old(self)@.contains(key@),
            final(self)@ == old(self)@.remove(key@),
    {
        proof {
            use_type_invariant(&*self);
        }
        let found: Option<usize> = self.position(key);
        match found {
            None => {
                assert(self@.remove(key@) =~= self@);
                false
            },
            Some(i) => {
                let ghost before = texts(self.items@);
                let mut items: Vec<String> = Vec::new();
                std::mem::swap(&mut items, &mut self.items);
                items.remove(i);
                proof {
                    assert(texts(items@) =~= before.remove(i as int));
                    lemma_remove_from_set(before, i as int);
                }
                self.items = items;
                true
            },
        }
    }

    /// Empties the set.
    pub fn clear(&mut self)
        ensures
            final(self)@ == Set::<Seq<char>>::empty(),
    {
        let items: Vec<String> = Vec::new();
        assert(texts(items@) =~= Seq::<Seq<char>>::empty());
        self.items = items;
        assert(self@ =~= Set::<Seq<char>>::empty());
    }

    /// How many strings the set holds.
    pub fn len(&self) -> (r: usize)
        ensures
            r == self@.len(),
            self@.finite(),
    {
        proof {
            use_type_invariant(&*self);
            texts(self.items@).unique_seq_to_set();
            vstd::seq_lib::seq_to_set_is_finite(texts(self.items@));
        }
        self.items.len()
    }

    /// Whether the set is empty.
    pub fn is_empty(&self) -> (r: bool)
        ensures
            r == (self@ == Set::<Seq<char>>::empty()),
    {
        if self.items.len() == 0 {
            assert(self@ =~= Set::<Seq<char>>::empty());
            true
        } else {
            assert(texts(self.items@)[0] == self.items@[0]@);
            assert(self@.contains(self.items@[0]@));
            false
        }
    }

    /// The members, each once.
    pub fn members(&self) -> (r: Vec<String>)
        ensures
            texts(r@).no_duplicates(),
            texts(r@).to_set() == self@,
    {
        proof {
            use_type_invariant(&*self);
        }
        crate::text::clone_strings(&self.items)
    }

}

/// Taking one element out of a sequence without repetition takes it out of the set.
proof fn lemma_remove_from_set<A>(s: Seq<A>, i: int)
    requires
        s.no_duplicates(),
        0 <= i < s.len(),
    ensures
        s.remove(i).no_duplicates(),
        s.remove(i).to_set() == s.to_set().remove(s[i]),
{
    let t = s.remove(i);
    assert forall|x: A| t.to_set().contains(x) == s.to_set().remove(s[i]).contains(x) by {
        if t.contains(x) {
            let k = choose|k: int| 0 <= k < t.len() && t[k] == x;
            if k < i {
                assert(s[k] == x);
            } else {
                assert(s[k + 1] == x);
            }
        }
        if s.contains(x) && x != s[i] {
            let k = choose|k: int| 0 <= k < s.len() && s[k] == x;
            if k < i {
                assert(t[k] == x);
            } else {
                assert(t[k - 1] == x);
            }
        }
    }
    assert(t.to_set() =~= s.to_set().remove(s[i]));
}

/// The keys of a list of entries.
pub open spec fn keys_of<V>(entries: Seq<(String, V)>) -> Seq<Seq<char>> {
    entries.map_values(|e: (String, V)| e.0@)
}

/// A map from strings to values.
pub struct StringMap<V> {
    entries: Vec<(String, V)>,
}

impl<V> View for StringMap<V> {
    type V = Map<Seq<char>, V>;

    closed spec fn view(&self) -> Map<Seq<char>, V> {
        entries_map(self.entries@)
    }
}

/// The map that a list of entries with distinct keys stands for.
spec fn entries_map<V>(entries: Seq<(String, V)>) -> Map<Seq<char>, V> {
    Map::new(
        |k: Seq<char>| keys_of(entries).contains(k),
        |k: Seq<char>| entries[keys_of(entries).index_of(k)].1,
    )
}

proof fn lemma_entry<V>(entries: Seq<(String, V)>, i: int)
    requires
        keys_of(entries).no_duplicates(),
        0 <= i < entries.len(),
    ensures
        entries_map(entries).dom().contains(entries[i].0@),
        entries_map(entries)[entries[i].0@] == entries[i].1,
{
    let keys = keys_of(entries);
    assert(keys[i] == entries[i].0@);
    assert(keys.contains(entries[i].0@));
    let k = keys.index_of(entries[i].0@);
    assert(keys[k] == keys[i]);
}

impl<V> StringMap<V> {
    #[verifier::type_invariant]
    spec fn distinct(self) -> bool {
        keys_of(self.entries@).no_duplicates()
    }

    /// The empty map.
    pub fn new() -> (r: Self)
        ensures
            r@ == Map::<Seq<char>, V>::empty(),
    {
        let entries: Vec<(String, V)> = Vec::new();
        assert(keys_of(entries@) =~= Seq::<Seq<char>>::empty());
        let r = StringMap { entries };
        assert(r@ =~= Map::<Seq<char>, V>::empty());
        r
    }

    /// The position of a key.
    fn position(&self, key: &str) -> (r: Option<usize>)
        ensures
            r matches Some(i) ==> i < self.entries@.len() && self.entries@[i as int].0@ == key@
                && self@.dom().contains(key@) && self@[key@] == self.entries@[i as int].1,
            r is None ==> !self@.dom().contains(key@),
    {
        proof {
            use_type_invariant(self);
        }
        let mut i: usize = 0;
        while i < self.entries.len()
            invariant
                keys_of(self.entries@).no_duplicates(),
                i <= self.entries@.len(),
                forall|j: int| 0 <= j < i ==> (#[trigger] self.entries@[j]).0@ != key@,
            decreases self.entries@.len() - i,
        {
            if same(self.entries[i].0.as_str(), key) {
                proof {
                    lemma_entry(self.entries@, i as int);
                }
                return Some(i);
            }
            i += 1;
        }
        assert forall|j: int| 0 <= j < keys_of(self.entries@).len() implies keys_of(
            self.entries@,
        )[j] != key@ by {
            assert(self.entries@[j].0@ != key@);
        }
        None
    }

    /// Whether the map has the key.
    pub fn contains_key(&self, key: &str) -> (r: bool)
        ensures
            r == self@.dom().contains(key@),
    {
        self.position(key).is_some()
    }

    /// The value of a key.
    pub fn get(&self, key: &str) -> (r: Option<&V>)
        ensures
            r is Some <==> self@.dom().contains(key@),
            r matches Some(v) ==> *v == self@[key@],
    {
        match self.position(key) {
            Some(i) => Some(&self.entries[i].1),
            None => None,
        }
    }

    /// Gives the key a value, in place of the one it had.
    pub fn insert(&mut self, key: String, value: V)
        ensures
            final(self)@ == old(self)@.insert(key@, value),
    {
        proof {
            use_type_invariant(&*self);
        }
        let found: Option<usize> = self.position(key.as_str());
        let ghost before = self.entries@;
        let mut entries: Vec<(String, V)> = Vec::new();
        std::mem::swap(&mut entries, &mut self.entries);
        match found {
            Some(i) => {
                entries.set(i, (key, value));
                proof {
                    assert(keys_of(entries@) =~= keys_of(before));
                    lemma_entries_set(before, i as int, key, value);
                }
            },
            None => {
                entries.push((key, value));
                proof {
                    assert(keys_of(entries@) =~= keys_of(before).push(key@));
                    assert(!keys_of(before).contains(key@));
                    lemma_entries_push(before, key, value);
                }
            },
        }
        self.entries = entries;
    }

    /// Takes a key out.
    pub fn remove(&mut self, key: &str)
        ensures
            final(self)@ == old(self)@.remove(key@),
    {
        proof {
            use_type_invariant(&*self);
        }
        let found: Option<usize> = self.position(key);
        match found {
            None => {
                assert(self@.remove(key@) =~= self@);
            },
            Some(i) => {
                let ghost before = self.entries@;
                let mut entries: Vec<(String, V)> = Vec::new();
                std::mem::swap(&mut entries, &mut self.entries);
                entries.remove(i);
                proof {
                    assert(keys_of(entries@) =~= keys_of(before).remove(i as int));
                    lemma_remove_from_set(keys_of(before), i as int);
                    lemma_entries_remove(before, i as int);
                }
                self.entries = entries;
            },
        }
    }

    /// Empties the map.
    pub fn clear(&mut self)
        ensures
            final(self)@ == Map::<Seq<char>, V>::empty(),
    {
        let entries: Vec<(String, V)> = Vec::new();
        assert(keys_of(entries@) =~= Seq::<Seq<char>>::empty());
        self.entries = entries;
        assert(self@ =~= Map::<Seq<char>, V>::empty());
    }

    /// How many keys the map has.
    pub fn len(&self) -> (r: usize)
        ensures
            r == self@.dom().len(),
            self@.dom().finite(),
    {
        proof {
            use_type_invariant(self);
            keys_of(self.entries@).unique_seq_to_set();
            vstd::seq_lib::seq_to_set_is_finite(keys_of(self.entries@));
            assert(self@.dom() =~= keys_of(self.entries@).to_set());
        }
        self.entries.len()
    }

    /// Whether the map has no key.
    pub fn is_empty(&self) -> (r: bool)
        ensures
            r == (self@ == Map::<Seq<char>, V>::empty()),
    {
        if self.entries.len() == 0 {
            assert(self@ =~= Map::<Seq<char>, V>::empty());
            true
        } else {
            assert(keys_of(self.entries@)[0] == self.entries@[0].0@);
            assert(self@.dom().contains(self.entries@[0].0@));
            false
        }
    }

    /// The keys, each once.
    pub fn keys(&self) -> (r: Vec<String>)
        ensures
            texts(r@).no_duplicates(),
            texts(r@).to_set() == self@.dom(),
    {
        proof {
            use_type_invariant(self);
        }
        let mut r: Vec<String> = Vec::new();
        let mut i: usize = 0;
        while i < self.entries.len()
            invariant
                i <= self.entries@.len(),
                texts(r@) == keys_of(self.entries@.take(i as int)),
            decreases self.entries@.len() - i,
        {
            let key: String = self.entries[i].0.clone();
            proof {
                crate::text::lemma_texts_push(r@, key);
                assert(keys_of(self.entries@.take(i + 1)) =~= keys_of(
                    self.entries@.take(i as int),
                ).push(key@));
            }
            r.push(key);
            i += 1;
        }
        proof {
            assert(self.entries@.take(i as int) =~= self.entries@);
            assert(texts(r@).to_set() =~= self@.dom());
        }
        r
    }
}

proof fn lemma_entries_set<V>(entries: Seq<(String, V)>, i: int, key: String, value: V)
    requires
        keys_of(entries).no_duplicates(),
        0 <= i < entries.len(),
        entries[i].0@ == key@,
    ensures
        entries_map(entries.update(i, (key, value))) == entries_map(entries).insert(key@, value),
{
    let new = entries.update(i, (key, value));
    assert(keys_of(new) =~= keys_of(entries));
    lemma_entry(new, i);
    lemma_entry(entries, i);
    assert(entries_map(new) =~= entries_map(entries).insert(key@, value)) by {
        assert forall|k: Seq<char>| #[trigger] keys_of(entries).contains(k) && k != key@ implies
            entries_map(new)[k] == entries_map(entries)[k] by {
            let j = keys_of(entries).index_of(k);
            assert(keys_of(entries)[j] == k);
            assert(new[j] == entries[j]);
        }
    }
}

proof fn lemma_entries_push<V>(entries: Seq<(String, V)>, key: String, value: V)
    requires
        keys_of(entries).no_duplicates(),
        !keys_of(entries).contains(key@),
    ensures
        entries_map(entries.push((key, value))) == entries_map(entries).insert(key@, value),
        keys_of(entries.push((key, value))).no_duplicates(),
{
    let new = entries.push((key, value));
    assert(keys_of(new) =~= keys_of(entries).push(key@));
    lemma_entry(new, entries.len() as int);
    assert forall|k: Seq<char>| keys_of(new).contains(k) == (keys_of(entries).contains(k) || k
        == key@) by {
        if keys_of(entries).contains(k) {
            let j = keys_of(entries).index_of(k);
            assert(keys_of(new)[j] == k);
        }
        if k == key@ {
            assert(keys_of(new)[entries.len() as int] == k);
        }
    }
    assert(entries_map(new) =~= entries_map(entries).insert(key@, value)) by {
        assert forall|k: Seq<char>| #[trigger] keys_of(entries).contains(k) && k != key@ implies
            entries_map(new)[k] == entries_map(entries)[k] by {
            let j = keys_of(entries).index_of(k);
            assert(new[j] == entries[j]);
            lemma_entry(new, j);
        }
    }
}

proof fn lemma_entries_remove<V>(entries: Seq<(String, V)>, i: int)
    requires
        keys_of(entries).no_duplicates(),
        0 <= i < entries.len(),
    ensures
        entries_map(entries.remove(i)) == entries_map(entries).remove(entries[i].0@),
{
    let new = entries.remove(i);
    assert(keys_of(new) =~= keys_of(entries).remove(i));
    lemma_remove_from_set(keys_of(entries), i);
    assert forall|k: Seq<char>| keys_of(new).contains(k) == (keys_of(entries).contains(k) && k
        != entries[i].0@) by {
        assert(keys_of(new).to_set().contains(k) == keys_of(entries).to_set().remove(
            keys_of(entries)[i],
        ).contains(k));
    }
    assert(entries_map(new) =~= entries_map(entries).remove(entries[i].0@)) by {
        assert forall|k: Seq<char>| #[trigger] keys_of(new).contains(k) implies entries_map(new)[k]
            == entries_map(entries)[k] by {
            let j = keys_of(new).index_of(k);
            let o = if j < i { j } else { j + 1 };
            assert(new[j] == entries[o]);
            lemma_entry(new, j);
            lemma_entry(entries, o);
        }
    }
}

} // verus!
