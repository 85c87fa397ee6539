//! A map and a set keyed by text, kept in the order in which the keys first came in.
use vstd::prelude::*;

use crate::text::{same, views};

verus! {

/// No key occurs twice.
pub open spec fn distinct_keys<V>(items: Seq<(Seq<char>, V)>) -> bool {
    forall|i: int, j: int| 0 <= i < j < items.len() ==> items[i].0 != items[j].0
}

/// The place of a key among the items, or their number where it is absent.
pub open spec fn place<V>(items: Seq<(Seq<char>, V)>, key: Seq<char>) -> int
    decreases items.len(),
{
    if items.len() == 0 || items[0].0 == key {
        0
    } else {
        1 + place(items.drop_first(), key)
    }
}

/// The map that the items make up.
pub open spec fn map_of<V>(items: Seq<(Seq<char>, V)>) -> Map<Seq<char>, V> {
    Map::new(
        |k: Seq<char>| 0 <= place(items, k) < items.len(),
        |k: Seq<char>| items[place(items, k)].1,
    )
}

/// [`place`] is where the key is first found.
pub proof fn lemma_place<V>(items: Seq<(Seq<char>, V)>, key: Seq<char>)
    ensures
        0 <= place(items, key) <= items.len(),
        place(items, key) < items.len() ==> items[place(items, key)].0 == key,
        forall|j: int| 0 <= j < place(items, key) ==> items[j].0 != key,
    decreases items.len(),
{
    if items.len() > 0 && items[0].0 != key {
        let t = items.drop_first();
        lemma_place(t, key);
        assert forall|j: int| 0 <= j < place(items, key) implies items[j].0 != key by {
            if j > 0 {
                assert(t[j - 1] == items[j]);
            }
        }
    }
}

/// An index that holds the key with none before it is its place.
pub proof fn lemma_is_place<V>(items: Seq<(Seq<char>, V)>, key: Seq<char>, k: int)
    requires
        0 <= k <= items.len(),
        k < items.len() ==> items[k].0 == key,
        forall|j: int| 0 <= j < k ==> items[j].0 != key,
    ensures
        place(items, key) == k,
{
    lemma_place(items, key);
}

/// A map from texts to values.
pub struct StringMap<V> {
    entries: Vec<(String, V)>,
}

impl<V> View for StringMap<V> {
    type V = Map<Seq<char>, V>;

    open spec fn view(&self) -> Map<Seq<char>, V> {
        map_of(self.items())
    }
}

impl<V> StringMap<V> {
    /// The keys with their values, in the order in which the keys came in.
    pub closed spec fn items(&self) -> Seq<(Seq<char>, V)> {
        self.entries@.map_values(|e: (String, V)| (e.0@, e.1))
    }

    #[verifier::type_invariant]
    spec fn no_key_twice(&self) -> bool {
        distinct_keys(self.items())
    }

    /// The empty map.
    pub fn new() -> (r: Self)
        ensures
            r.items() == Seq::<(Seq<char>, V)>::empty(),
            r@ == Map::<Seq<char>, V>::empty(),
    {
        let r = StringMap { entries: Vec::new() };
        assert(r.items() =~= Seq::<(Seq<char>, V)>::empty());
        assert(map_of(r.items()) =~= Map::<Seq<char>, V>::empty());
        r
    }

    /// How many keys the map holds.
    pub fn len(&self) -> (r: usize)
        ensures
            r == self.items().len(),
            distinct_keys(self.items()),
    {
        proof {
            use_type_invariant(self);
        }
        self.entries.len()
    }

    /// The key and the value at a place.
    pub fn item(&self, i: usize) -> (r: (&String, &V))
        requires
            i < self.items().len(),
        ensures
            (r.0@, *r.1) == self.items()[i as int],
    {
        let e = &self.entries[i];
        (&e.0, &e.1)
    }

    fn locate(&self, key: &str) -> (r: usize)
        ensures
            r == place(self.items(), key@),
            r <= self.entries@.len(),
    {
        let n: usize = self.entries.len();
        let mut i: usize = 0;
        while i < n
            invariant
                n == self.entries@.len(),
                i <= n,
                forall|j: int| 0 <= j < i ==> self.items()[j].0 != key@,
            decreases n - i,
        {
            if same(self.entries[i].0.as_str(), key) {
                proof {
                    lemma_is_place(self.items(), key@, i as int);
                }
                return i;
            }
            i += 1;
        }
        proof {
            lemma_is_place(self.items(), key@, n as int);
        }
        n
    }

    /// The value under a key.
    pub fn get(&self, key: &str) -> (r: Option<&V>)
        ensures
            match r {
                Some(v) => self@.contains_key(key@) && *v == self@[key@],
                None => !self@.contains_key(key@),
            },
    {
        let i = self.locate(key);
        if i < self.entries.len() {
            Some(&self.entries[i].1)
        } else {
            None
        }
    }

    /// Whether the map holds a key.
    pub fn contains_key(&self, key: &str) -> (r: bool)
        ensures
            r == self@.contains_key(key@),
    {
        self.get(key).is_some()
    }

    /// Puts a value under a key, in place of one that is there.
    pub fn insert(&mut self, key: String, value: V)
        ensures
            final(self)@ == old(self)@.insert(key@, value),
    {
        let i = self.locate(key.as_str());
        let ghost before = self.items();
        let ghost k = key@;
        proof {
            use_type_invariant(&*self);
            lemma_place(before, k);
        }
        if i < self.entries.len() {
            let mut entries: Vec<(String, V)> = Vec::new();
            core::mem::swap(&mut self.entries, &mut entries);
            entries.set(i, (key, value));
            let ghost after = entries@.map_values(|e: (String, V)| (e.0@, e.1));
            assert(after =~= before.update(i as int, (k, value)));
            proof {
                lemma_update(before, k, value);
            }
            self.entries = entries;
            assert(self.items() == after);
        } else {
            let mut entries: Vec<(String, V)> = Vec::new();
            core::mem::swap(&mut self.entries, &mut entries);
            entries.push((key, value));
            let ghost after = entries@.map_values(|e: (String, V)| (e.0@, e.1));
            assert(after =~= before.push((k, value)));
            proof {
                lemma_push(before, k, value);
            }
            self.entries = entries;
            assert(self.items() == after);
        }
    }

    /// Takes a key out, with its value.
    pub fn remove(&mut self, key: &str)
        ensures
            final(self)@ == old(self)@.remove(key@),
    {
        let i = self.locate(key);
        let ghost before = self.items();
        proof {
            use_type_invariant(&*self);
            lemma_place(before, key@);
            lemma_remove(before, key@);
        }
        if i < self.entries.len() {
            let mut entries: Vec<(String, V)> = Vec::new();
            core::mem::swap(&mut self.entries, &mut entries);
            let gone = entries.remove(i);
            let ghost after = entries@.map_values(|e: (String, V)| (e.0@, e.1));
            assert(after =~= before.remove(i as int));
            self.entries = entries;
            assert(self.items() == after);
        }
    }
}

/// A new value at a key's place.
proof fn lemma_update<V>(items: Seq<(Seq<char>, V)>, key: Seq<char>, value: V)
    requires
        distinct_keys(items),
        place(items, key) < items.len(),
    ensures
        distinct_keys(items.update(place(items, key), (key, value))),
        map_of(items.update(place(items, key), (key, value))) == map_of(items).insert(key, value),
{
    lemma_place(items, key);
    let at = place(items, key);
    let after = items.update(at, (key, value));
    assert forall|k: Seq<char>| #[trigger] place(after, k) == place(items, k) && 0 <= place(
        items,
        k,
    ) && (k != key && place(items, k) < items.len() ==> after[place(items, k)] == items[place(
        items,
        k,
    )]) by {
        lemma_place(items, k);
        lemma_is_place(after, k, place(items, k));
    }
    assert(map_of(after) =~= map_of(items).insert(key, value));
}

/// A new key behind the others.
proof fn lemma_push<V>(items: Seq<(Seq<char>, V)>, key: Seq<char>, value: V)
    requires
        distinct_keys(items),
        place(items, key) == items.len(),
    ensures
        distinct_keys(items.push((key, value))),
        map_of(items.push((key, value))) == map_of(items).insert(key, value),
{
    lemma_place(items, key);
    let after = items.push((key, value));
    lemma_is_place(after, key, items.len() as int);
    assert forall|k: Seq<char>| k != key implies (0 <= #[trigger] place(after, k) < after.len()
        <==> 0 <= place(items, k) < items.len()) && (place(items, k) < items.len() ==> place(
        after,
        k,
    ) == place(items, k)) by {
        lemma_place(items, k);
        if place(items, k) < items.len() {
            lemma_is_place(after, k, place(items, k));
        } else {
            lemma_is_place(after, k, after.len() as int);
        }
    }
    assert(map_of(after) =~= map_of(items).insert(key, value));
}

/// A key taken out.
proof fn lemma_remove<V>(items: Seq<(Seq<char>, V)>, key: Seq<char>)
    requires
        distinct_keys(items),
    ensures
        place(items, key) < items.len() ==> distinct_keys(items.remove(place(items, key)))
            && map_of(items.remove(place(items, key))) == map_of(items).remove(key),
        place(items, key) == items.len() ==> map_of(items) == map_of(items).remove(key),
{
    lemma_place(items, key);
    let at = place(items, key);
    if at < items.len() {
        let after = items.remove(at);
        lemma_is_place(after, key, after.len() as int);
        assert forall|k: Seq<char>| k != key implies (0 <= #[trigger] place(after, k) < after.len()
            <==> 0 <= place(items, k) < items.len()) && (place(items, k) < items.len()
            ==> after[place(after, k)] == items[place(items, k)]) by {
            lemma_place(items, k);
            let p = place(items, k);
            if p < at {
                lemma_is_place(after, k, p);
            } else if p < items.len() {
                assert(after[p - 1] == items[p]);
                lemma_is_place(after, k, p - 1);
            } else {
                lemma_is_place(after, k, after.len() as int);
            }
        }
        assert(map_of(after) =~= map_of(items).remove(key));
    } else {
        assert(map_of(items) =~= map_of(items).remove(key));
    }
}

/// Some texts without the first of them that is not `key`; there are two at least, and none twice.
pub open spec fn without_oldest_but(items: Seq<Seq<char>>, key: Seq<char>) -> Seq<Seq<char>> {
    if items[0] == key {
        items.remove(1)
    } else {
        items.remove(0)
    }
}

/// A set of texts.
pub struct StringSet {
    entries: Vec<String>,
}

impl View for StringSet {
    type V = Set<Seq<char>>;

    open spec fn view(&self) -> Set<Seq<char>> {
        self.items().to_set()
    }
}

impl StringSet {
    /// The members, in the order in which they came in.
    pub closed spec fn items(&self) -> Seq<Seq<char>> {
        views(self.entries@)
    }

    #[verifier::type_invariant]
    spec fn no_member_twice(&self) -> bool {
        self.items().no_duplicates()
    }

    /// The empty set.
    pub fn new() -> (r: Self)
        ensures
            r.items() == Seq::<Seq<char>>::empty(),
            r@ == Set::<Seq<char>>::empty(),
    {
        let r = StringSet { entries: Vec::new() };
        assert(r.items() =~= Seq::<Seq<char>>::empty());
        assert(r.items().to_set() =~= Set::<Seq<char>>::empty());
        r
    }

    /// How many members the set has.
    pub fn len(&self) -> (r: usize)
        ensures
            r == self.items().len(),
            self.items().no_duplicates(),
    {
        proof {
            use_type_invariant(self);
        }
        self.entries.len()
    }

    /// The member at a place.
    pub fn item(&self, i: usize) -> (r: &String)
        requires
            i < self.items().len(),
        ensures
            r@ == self.items()[i as int],
    {
        &self.entries[i]
    }

    /// Whether a text is a member.
    pub fn contains(&self, key: &str) -> (r: bool)
        ensures
            r == self.items().contains(key@),
            r == self@.contains(key@),
    {
        let n: usize = self.entries.len();
        let mut i: usize = 0;
        while i < n
            invariant
                n == self.entries@.len(),
                i <= n,
                forall|j: int| 0 <= j < i ==> self.items()[j] != key@,
            decreases n - i,
        {
            if same(self.entries[i].as_str(), key) {
                assert(self.items()[i as int] == key@);
                return true;
            }
            i += 1;
        }
        false
    }

    /// Makes a text a member; a new one comes behind the others.
    pub fn insert(&mut self, key: String)
        ensures
            final(self).items() == if old(self).items().contains(key@) {
                old(self).items()
            } else {
                old(self).items().push(key@)
            },
            final(self)@ == old(self)@.insert(key@),
    {
        proof {
            use_type_invariant(&*self);
        }
        let ghost before = self.items();
        let ghost k = key@;
        if self.contains(key.as_str()) {
            assert(before.to_set() =~= before.to_set().insert(k));
            return;
        }
        let mut entries: Vec<String> = Vec::new();
        core::mem::swap(&mut self.entries, &mut entries);
        entries.push(key);
        assert(views(entries@) =~= before.push(k));
        assert(before.push(k).to_set() =~= before.to_set().insert(k)) by {
            assert forall|x: Seq<char>| before.to_set().insert(k).contains(x) implies before.push(
                k,
            ).contains(x) by {
                if x == k {
                    assert(before.push(k)[before.len() as int] == x);
                } else {
                    let i = choose|i: int| 0 <= i < before.len() && before[i] == x;
                    assert(before.push(k)[i] == x);
                }
            }
        }
        self.entries = entries;
    }

    /// Takes out the member that has been there longest, but for one that is to stay.
    pub fn drop_oldest_but(&mut self, key: &str)
        requires
            old(self).items().len() > 1,
        ensures
            final(self).items() == without_oldest_but(old(self).items(), key@),
    {
        proof {
            use_type_invariant(&*self);
        }
        let ghost before = self.items();
        let mut entries: Vec<String> = Vec::new();
        core::mem::swap(&mut self.entries, &mut entries);
        let at: usize = if same(entries[0].as_str(), key) {
            1
        } else {
            0
        };
        let gone = entries.remove(at);
        assert(views(entries@) =~= without_oldest_but(before, key@));
        self.entries = entries;
    }
}

} // verus!
