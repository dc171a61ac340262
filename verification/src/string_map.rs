//! A key-unique map from strings to values, kept as a list of entries in
//! which no key occurs twice. Annotations, metric samples and series labels
//! are all held in it.

use vstd::prelude::*;

verus! {

/// The keys of a list of entries, in order.
pub open spec fn entry_keys<V>(entries: Seq<(String, V)>) -> Seq<Seq<char>> {
    Seq::new(entries.len(), |i: int| entries[i].0@)
}

/// The map that a list of entries with distinct keys stands for.
pub open spec fn entries_map<V>(entries: Seq<(String, V)>) -> Map<Seq<char>, V> {
    Map::new(
        |k: Seq<char>| entry_keys(entries).contains(k),
        |k: Seq<char>| entries[entry_keys(entries).index_of(k)].1,
    )
}

/// A list of pairs as the mathematical pairs it holds.
pub open spec fn pairs_view<V>(pairs: Seq<(String, V)>) -> Seq<(Seq<char>, V)> {
    Seq::new(pairs.len(), |i: int| (pairs[i].0@, pairs[i].1))
}

/// `base` after inserting each pair in turn, from the first to the last: a
/// pair overwrites the value its key had and leaves every other key alone.
pub open spec fn merge_pairs<V>(base: Map<Seq<char>, V>, pairs: Seq<(Seq<char>, V)>) -> Map<
    Seq<char>,
    V,
>
    decreases pairs.len(),
{
    if pairs.len() == 0 {
        base
    } else {
        merge_pairs(base, pairs.drop_last()).insert(pairs.last().0, pairs.last().1)
    }
}

/// The text of every value of a map from texts to strings.
pub open spec fn texts(map: Map<Seq<char>, String>) -> Map<Seq<char>, Seq<char>> {
    map.map_values(|value: String| value@)
}

/// Merging one list and then another is merging the two lists written one
/// after the other: merging is a fold over the pairs, from left to right.
pub proof fn lemma_merge_concat<V>(
    base: Map<Seq<char>, V>,
    first: Seq<(Seq<char>, V)>,
    second: Seq<(Seq<char>, V)>,
)
    ensures
        merge_pairs(merge_pairs(base, first), second) == merge_pairs(base, first + second),
    decreases second.len(),
{
    if second.len() == 0 {
        assert(first + second =~= first);
    } else {
        lemma_merge_concat(base, first, second.drop_last());
        assert((first + second).drop_last() =~= first + second.drop_last());
        assert((first + second).last() == second.last());
    }
}

/// Merging drops no key, and a key that no pair names keeps its value.
pub proof fn lemma_merge_keeps<V>(
    base: Map<Seq<char>, V>,
    pairs: Seq<(Seq<char>, V)>,
    key: Seq<char>,
)
    ensures
        base.contains_key(key) ==> merge_pairs(base, pairs).contains_key(key),
        (forall|i: int| 0 <= i < pairs.len() ==> (#[trigger] pairs[i]).0 != key) ==> {
            &&& merge_pairs(base, pairs).contains_key(key) == base.contains_key(key)
            &&& base.contains_key(key) ==> merge_pairs(base, pairs)[key] == base[key]
        },
    decreases pairs.len(),
{
    if pairs.len() > 0 {
        let front = pairs.drop_last();
        lemma_merge_keeps(base, front, key);
        if forall|i: int| 0 <= i < pairs.len() ==> (#[trigger] pairs[i]).0 != key {
            assert forall|i: int| 0 <= i < front.len() implies (#[trigger] front[i]).0
                != key by {
                assert(front[i] == pairs[i]);
            }
            assert(pairs[pairs.len() - 1].0 != key);
        }
    }
}

/// After a merge, a key that some pair names holds the value of the last
/// pair that names it.
pub proof fn lemma_merge_last_wins<V>(
    base: Map<Seq<char>, V>,
    pairs: Seq<(Seq<char>, V)>,
    at: int,
)
    requires
        0 <= at < pairs.len(),
        forall|i: int| at < i < pairs.len() ==> (#[trigger] pairs[i]).0 != pairs[at].0,
    ensures
        merge_pairs(base, pairs).contains_key(pairs[at].0),
        merge_pairs(base, pairs)[pairs[at].0] == pairs[at].1,
    decreases pairs.len(),
{
    if at < pairs.len() - 1 {
        let front = pairs.drop_last();
        assert forall|i: int| at < i < front.len() implies (#[trigger] front[i]).0
            != front[at].0 by {
            assert(front[i] == pairs[i]);
        }
        lemma_merge_last_wins(base, front, at);
        assert(pairs[pairs.len() - 1].0 != pairs[at].0);
    }
}

/// A map from strings to values of type `V`.
#[derive(Debug)]
pub struct StringMap<V> {
    entries: Vec<(String, V)>,
}

impl<V> View for StringMap<V> {
    type V = Map<Seq<char>, V>;

    closed spec fn view(&self) -> Map<Seq<char>, V> {
        entries_map(self.entries@)
    }
}

/// In a list with distinct keys, the entry at `i` is what the map holds for
/// its key, and the map holds no other keys than those of the list.
proof fn lemma_entries_map<V>(entries: Seq<(String, V)>)
    requires
        entry_keys(entries).no_duplicates(),
    ensures
        forall|i: int|
            0 <= i < entries.len() ==> entries_map(entries).contains_key(
                #[trigger] entries[i].0@,
            ) && entries_map(entries)[entries[i].0@] == entries[i].1,
        forall|k: Seq<char>| #[trigger]
            entries_map(entries).contains_key(k) ==> exists|i: int|
                0 <= i < entries.len() && #[trigger] entries[i].0@ == k,
        entries_map(entries).dom().finite(),
        entries_map(entries).len() == entries.len(),
{
    let keys = entry_keys(entries);
    let map = entries_map(entries);
    assert forall|i: int| 0 <= i < entries.len() implies map.contains_key(
        #[trigger] entries[i].0@,
    ) && map[entries[i].0@] == entries[i].1 by {
        assert(keys[i] == entries[i].0@);
        assert(keys.contains(entries[i].0@));
        let j = keys.index_of(entries[i].0@);
        assert(keys[j] == keys[i]);
    }
    assert forall|k: Seq<char>| #[trigger] map.contains_key(k) implies exists|i: int|
        0 <= i < entries.len() && #[trigger] entries[i].0@ == k by {
        let j = keys.index_of(k);
        assert(keys[j] == k);
        assert(entries[j].0@ == k);
    }
    assert(map.dom() =~= keys.to_set());
    keys.unique_seq_to_set();
    vstd::seq_lib::seq_to_set_is_finite(keys);
}

/// Appending an entry with a new key inserts it into the map.
proof fn lemma_entries_push<V>(entries: Seq<(String, V)>, key: String, value: V)
    requires
        entry_keys(entries).no_duplicates(),
        !entries_map(entries).contains_key(key@),
    ensures
        entry_keys(entries.push((key, value))).no_duplicates(),
        entries_map(entries.push((key, value))) == entries_map(entries).insert(key@, value),
{
    let longer = entries.push((key, value));
    lemma_entries_map(entries);
    assert(entry_keys(longer) =~= entry_keys(entries).push(key@));
    assert forall|i: int, j: int|
        0 <= i < longer.len() && 0 <= j < longer.len() && i != j implies entry_keys(longer)[i]
        != entry_keys(longer)[j] by {
        if i < entries.len() && j < entries.len() {
            assert(entry_keys(entries)[i] != entry_keys(entries)[j]);
        } else if i < entries.len() {
            assert(entries_map(entries).contains_key(entries[i].0@));
        } else {
            assert(entries_map(entries).contains_key(entries[j].0@));
        }
    }
    lemma_entries_map(longer);
    let grown = entries_map(longer);
    let wanted = entries_map(entries).insert(key@, value);
    assert forall|k: Seq<char>| grown.contains_key(k) <==> wanted.contains_key(k) by {
        if grown.contains_key(k) {
            let i = choose|i: int| 0 <= i < longer.len() && #[trigger] longer[i].0@ == k;
            if i < entries.len() {
                assert(entries[i].0@ == k);
            }
        }
        if wanted.contains_key(k) && k != key@ {
            let i = choose|i: int| 0 <= i < entries.len() && #[trigger] entries[i].0@ == k;
            assert(longer[i].0@ == k);
        }
        if k == key@ {
            assert(longer[entries.len() as int].0@ == k);
        }
    }
    assert forall|k: Seq<char>| grown.contains_key(k) implies grown[k] == wanted[k] by {
        let i = choose|i: int| 0 <= i < longer.len() && #[trigger] longer[i].0@ == k;
        if i < entries.len() {
            assert(entries[i].0@ == k);
            assert(longer[i] == entries[i]);
        } else {
            assert(longer[i] == (key, value));
        }
    }
    assert(grown =~= wanted);
}

/// Taking the entry at `at` out of the list removes its key from the map.
proof fn lemma_entries_remove<V>(entries: Seq<(String, V)>, at: int)
    requires
        entry_keys(entries).no_duplicates(),
        0 <= at < entries.len(),
    ensures
        entry_keys(entries.remove(at)).no_duplicates(),
        entries_map(entries.remove(at)) == entries_map(entries).remove(entries[at].0@),
{
    let shorter = entries.remove(at);
    let key = entries[at].0@;
    assert forall|i: int, j: int|
        0 <= i < shorter.len() && 0 <= j < shorter.len() && i != j implies entry_keys(shorter)[i]
        != entry_keys(shorter)[j] by {
        let a = if i < at { i } else { i + 1 };
        let b = if j < at { j } else { j + 1 };
        assert(entry_keys(entries)[a] != entry_keys(entries)[b]);
    }
    lemma_entries_map(entries);
    lemma_entries_map(shorter);
    let shrunk = entries_map(shorter);
    let wanted = entries_map(entries).remove(key);
    assert forall|k: Seq<char>| shrunk.contains_key(k) <==> wanted.contains_key(k) by {
        if shrunk.contains_key(k) {
            let i = choose|i: int| 0 <= i < shorter.len() && #[trigger] shorter[i].0@ == k;
            let a = if i < at { i } else { i + 1 };
            assert(entries[a].0@ == k);
            assert(entry_keys(entries)[a] != entry_keys(entries)[at]);
        }
        if wanted.contains_key(k) {
            let a = choose|a: int| 0 <= a < entries.len() && #[trigger] entries[a].0@ == k;
            let i = if a < at { a } else { a - 1 };
            assert(shorter[i].0@ == k);
        }
    }
    assert forall|k: Seq<char>| shrunk.contains_key(k) implies shrunk[k] == wanted[k] by {
        let i = choose|i: int| 0 <= i < shorter.len() && #[trigger] shorter[i].0@ == k;
        let a = if i < at { i } else { i + 1 };
        assert(entries[a].0@ == k);
        assert(shorter[i] == entries[a]);
    }
    assert(shrunk =~= wanted);
}

/// A list of entries with distinct keys stands for the map that merging
/// its pairs into the empty map gives.
pub proof fn lemma_entries_are_merged<V>(entries: Seq<(String, V)>)
    requires
        entry_keys(entries).no_duplicates(),
    ensures
        entries_map(entries) == merge_pairs(Map::<Seq<char>, V>::empty(), pairs_view(entries)),
    decreases entries.len(),
{
    if entries.len() == 0 {
        assert(entries_map(entries) =~= Map::<Seq<char>, V>::empty());
    } else {
        let front = entries.drop_last();
        let last = entries.last();
        assert forall|i: int, j: int|
            0 <= i < front.len() && 0 <= j < front.len() && i != j implies entry_keys(front)[i]
            != entry_keys(front)[j] by {
            assert(entry_keys(entries)[i] != entry_keys(entries)[j]);
        }
        lemma_entries_are_merged(front);
        lemma_entries_map(front);
        if entries_map(front).contains_key(last.0@) {
            let i = choose|i: int| 0 <= i < front.len() && #[trigger] front[i].0@ == last.0@;
            assert(entry_keys(entries)[i] == entry_keys(entries)[entries.len() - 1]);
        }
        lemma_entries_push(front, last.0, last.1);
        assert(front.push((last.0, last.1)) =~= entries);
        assert(pairs_view(entries).drop_last() =~= pairs_view(front));
        assert(pairs_view(entries).last() == (last.0@, last.1));
    }
}

impl<V> StringMap<V> {
    /// No key occurs twice among the entries.
    #[verifier::type_invariant]
    spec fn distinct_keys(self) -> bool {
        entry_keys(self.entries@).no_duplicates()
    }

    /// The empty map.
    pub fn new() -> (map: Self)
        ensures
            map@ == Map::<Seq<char>, V>::empty(),
    {
        StringMap { entries: Vec::new() }
    }

    /// The number of keys.
    pub fn len(&self) -> (count: usize)
        ensures
            self@.dom().finite(),
            count == self@.len(),
    {
        proof {
            use_type_invariant(self);
            lemma_entries_map(self.entries@);
        }
        self.entries.len()
    }

    /// Where `key` stands among the entries, if it is there.
    fn position(&self, key: &String) -> (found: Option<usize>)
        ensures
            match found {
                Some(at) => at < self.entries@.len() && self.entries@[at as int].0@ == key@,
                None => !self@.contains_key(key@),
            },
    {
        let mut i: usize = 0;
        while i < self.entries.len()
            invariant
                i <= self.entries@.len(),
                forall|j: int| 0 <= j < i ==> (#[trigger] self.entries@[j]).0@ != key@,
            decreases self.entries@.len() - i,
        {
            if self.entries[i].0 == *key {
                return Some(i);
            }
            i += 1;
        }
        proof {
            use_type_invariant(self);
            lemma_entries_map(self.entries@);
        }
        None
    }

    /// Whether the map holds `key`.
    pub fn contains_key(&self, key: &str) -> (held: bool)
        ensures
            held == self@.contains_key(key@),
    {
        let key: String = key.to_owned();
        proof {
            use_type_invariant(self);
            lemma_entries_map(self.entries@);
        }
        self.position(&key).is_some()
    }

    /// The value held for `key`, if any.
    pub fn get(&self, key: &str) -> (value: Option<&V>)
        ensures
            match value {
                Some(held) => self@.contains_key(key@) && *held == self@[key@],
                None => !self@.contains_key(key@),
            },
    {
        let key: String = key.to_owned();
        proof {
            use_type_invariant(self);
            lemma_entries_map(self.entries@);
        }
        match self.position(&key) {
            Some(at) => Some(&self.entries[at].1),
            None => None,
        }
    }

    /// Sets the value of `key`, whether or not the map held it, and hands
    /// back the value it held before.
    pub fn insert(&mut self, key: String, value: V) -> (previous: Option<V>)
        ensures
            final(self)@ == old(self)@.insert(key@, value),
            match previous {
                Some(held) => old(self)@.contains_key(key@) && held == old(self)@[key@],
                None => !old(self)@.contains_key(key@),
            },
    {
        proof {
            use_type_invariant(&*self);
            lemma_entries_map(self.entries@);
        }
        let ghost before = self.entries@;
        let found: Option<usize> = self.position(&key);
        let mut entries: Vec<(String, V)> = Vec::new();
        assert(entry_keys(entries@) =~= Seq::<Seq<char>>::empty());
        core::mem::swap(&mut self.entries, &mut entries);
        let previous: Option<V> = match found {
            Some(at) => {
                proof {
                    lemma_entries_remove(before, at as int);
                    lemma_entries_push(before.remove(at as int), key, value);
                }
                let taken: (String, V) = entries.remove(at);
                entries.push((key, value));
                assert(entries_map(entries@) =~= entries_map(before).insert(key@, value));
                Some(taken.1)
            },
            None => {
                proof {
                    lemma_entries_push(before, key, value);
                }
                entries.push((key, value));
                None
            },
        };
        core::mem::swap(&mut self.entries, &mut entries);
        previous
    }

    /// Inserts each pair in turn, from the first to the last.
    pub fn extend(&mut self, pairs: Vec<(String, V)>)
        ensures
            final(self)@ == merge_pairs(old(self)@, pairs_view(pairs@)),
    {
        let ghost all = pairs@;
        assert(pairs_view(all).take(0) =~= Seq::<(Seq<char>, V)>::empty());
        for pair in rest: pairs
            invariant
                rest.seq() == all,
                self@ == merge_pairs(old(self)@, pairs_view(all).take(rest.index() as int)),
        {
            proof {
                let done = rest.index() as int;
                assert(pair == all[done]);
                let next = pairs_view(all).take(done + 1);
                assert(next.drop_last() =~= pairs_view(all).take(done));
                assert(next.last() == (pair.0@, pair.1));
            }
            self.insert(pair.0, pair.1);
        }
        assert(pairs_view(all).take(all.len() as int) =~= pairs_view(all));
    }

    /// The map that holds each pair of the list; of two pairs with one key
    /// the later one stays.
    pub fn from_pairs(pairs: Vec<(String, V)>) -> (map: Self)
        ensures
            map@ == merge_pairs(Map::<Seq<char>, V>::empty(), pairs_view(pairs@)),
    {
        let mut map: StringMap<V> = StringMap::new();
        map.extend(pairs);
        map
    }

    /// The entries of the map as a list: one pair for each key, in no
    /// particular order.
    pub fn into_pairs(self) -> (pairs: Vec<(String, V)>)
        ensures
            entry_keys(pairs@).no_duplicates(),
            entries_map(pairs@) == self@,
            merge_pairs(Map::<Seq<char>, V>::empty(), pairs_view(pairs@)) == self@,
            pairs@.len() == self@.len(),
    {
        proof {
            use_type_invariant(&self);
            lemma_entries_map(self.entries@);
            lemma_entries_are_merged(self.entries@);
        }
        self.entries
    }

    /// The keys of the map, each once, in no particular order.
    pub fn keys(&self) -> (keys: Vec<String>)
        ensures
            keys.deep_view().no_duplicates(),
            keys.deep_view().to_set() == self@.dom(),
    {
        proof {
            use_type_invariant(self);
            lemma_entries_map(self.entries@);
        }
        let mut keys: Vec<String> = Vec::new();
        let mut i: usize = 0;
        while i < self.entries.len()
            invariant
                i <= self.entries@.len(),
                keys.deep_view() == entry_keys(self.entries@).take(i as int),
            decreases self.entries@.len() - i,
        {
            let ghost before = keys.deep_view();
            keys.push(self.entries[i].0.clone());
            assert(keys.deep_view() =~= before.push(self.entries@[i as int].0@));
            assert(entry_keys(self.entries@).take(i + 1) =~= entry_keys(self.entries@).take(
                i as int,
            ).push(self.entries@[i as int].0@));
            i += 1;
        }
        assert(entry_keys(self.entries@).take(i as int) =~= entry_keys(self.entries@));
        assert(self@.dom() =~= entry_keys(self.entries@).to_set());
        keys
    }
}

impl StringMap<String> {
    /// A copy of the map.
    pub fn snapshot(&self) -> (copy: Self)
        ensures
            copy@ == self@,
    {
        proof {
            use_type_invariant(self);
        }
        let mut entries: Vec<(String, String)> = Vec::new();
        let mut i: usize = 0;
        while i < self.entries.len()
            invariant
                i <= self.entries@.len(),
                entries@ == self.entries@.take(i as int),
            decreases self.entries@.len() - i,
        {
            let key: String = self.entries[i].0.clone();
            let value: String = self.entries[i].1.clone();
            entries.push((key, value));
            assert(entries@ =~= self.entries@.take(i + 1));
            i += 1;
        }
        assert(self.entries@.take(i as int) =~= self.entries@);
        StringMap { entries }
    }
}

} // verus!
