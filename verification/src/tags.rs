//! Tags: key and value pairs, and the two ways of reading a list of them.
//!
//! A list of pairs may hold a key more than once. Read as a mapping, the last
//! pair of a key gives its value; looked up pair by pair, the first one does.
//! A `TagMap` is a list in which no key occurs twice, so that both readings
//! agree on it.

use crate::text::same_text;
use vstd::prelude::*;

verus! {

/// One tag: a key and its value.
#[derive(Debug, Clone)]
pub struct KvPair {
    pub key: String,
    pub value: String,
}

impl View for KvPair {
    type V = (Seq<char>, Seq<char>);

    open spec fn view(&self) -> (Seq<char>, Seq<char>) {
        (self.key@, self.value@)
    }
}

/// The views of a sequence of tags.
pub open spec fn pair_views(pairs: Seq<KvPair>) -> Seq<(Seq<char>, Seq<char>)> {
    pairs.map_values(|p: KvPair| p@)
}

/// The view of an optional string.
pub open spec fn option_text(value: Option<String>) -> Option<Seq<char>> {
    match value {
        Some(s) => Some(s@),
        None => None,
    }
}

/// Some pair of `pairs` has the key `key`.
pub open spec fn has_key(pairs: Seq<(Seq<char>, Seq<char>)>, key: Seq<char>) -> bool {
    exists|i: int| 0 <= i < pairs.len() && pairs[i].0 == key
}

/// `at` is the index of the first pair with the key `key`.
pub open spec fn is_first_with_key(
    pairs: Seq<(Seq<char>, Seq<char>)>,
    key: Seq<char>,
    at: int,
) -> bool {
    &&& 0 <= at < pairs.len()
    &&& pairs[at].0 == key
    &&& forall|j: int| 0 <= j < at ==> pairs[j].0 != key
}

/// `at` is the index of the last pair with the key `key`.
pub open spec fn is_last_with_key(
    pairs: Seq<(Seq<char>, Seq<char>)>,
    key: Seq<char>,
    at: int,
) -> bool {
    &&& 0 <= at < pairs.len()
    &&& pairs[at].0 == key
    &&& forall|j: int| at < j < pairs.len() ==> pairs[j].0 != key
}

/// The value of the first pair with the key `key`, if there is one.
pub open spec fn first_value(pairs: Seq<(Seq<char>, Seq<char>)>, key: Seq<char>) -> Option<
    Seq<char>,
> {
    if has_key(pairs, key) {
        Some(pairs[choose|at: int| is_first_with_key(pairs, key, at)].1)
    } else {
        None
    }
}

/// The value of the last pair with the key `key`, if there is one.
pub open spec fn last_value(pairs: Seq<(Seq<char>, Seq<char>)>, key: Seq<char>) -> Option<
    Seq<char>,
> {
    if has_key(pairs, key) {
        Some(pairs[choose|at: int| is_last_with_key(pairs, key, at)].1)
    } else {
        None
    }
}

/// The pairs read as a mapping: every key that occurs, with the value of its
/// last pair.
pub open spec fn mapping_of(pairs: Seq<(Seq<char>, Seq<char>)>) -> Map<Seq<char>, Seq<char>> {
    Map::new(|key: Seq<char>| has_key(pairs, key), |key: Seq<char>| last_value(pairs, key)->0)
}

/// No key occurs in two pairs.
pub open spec fn distinct_keys(pairs: Seq<(Seq<char>, Seq<char>)>) -> bool {
    forall|i: int, j: int| 0 <= i < j < pairs.len() ==> pairs[i].0 != pairs[j].0
}

/// The pairs after the value of `key` was set to `value`: the pair of that
/// key, if there is one, keeps its place and gets the new value; otherwise a
/// new pair is added at the end.
pub open spec fn with_value(
    pairs: Seq<(Seq<char>, Seq<char>)>,
    key: Seq<char>,
    value: Seq<char>,
) -> Seq<(Seq<char>, Seq<char>)> {
    if has_key(pairs, key) {
        pairs.update(choose|at: int| is_first_with_key(pairs, key, at), (key, value))
    } else {
        pairs.push((key, value))
    }
}

/// A key that occurs at `at` has a first pair.
pub proof fn lemma_first_with_key_exists(
    pairs: Seq<(Seq<char>, Seq<char>)>,
    key: Seq<char>,
    at: int,
)
    requires
        0 <= at < pairs.len(),
        pairs[at].0 == key,
    ensures
        exists|first: int| is_first_with_key(pairs, key, first),
    decreases at,
{
    if exists|j: int| 0 <= j < at && pairs[j].0 == key {
        let j = choose|j: int| 0 <= j < at && pairs[j].0 == key;
        lemma_first_with_key_exists(pairs, key, j);
    } else {
        assert(is_first_with_key(pairs, key, at));
    }
}

/// A key that occurs at `at` has a last pair.
pub proof fn lemma_last_with_key_exists(
    pairs: Seq<(Seq<char>, Seq<char>)>,
    key: Seq<char>,
    at: int,
)
    requires
        0 <= at < pairs.len(),
        pairs[at].0 == key,
    ensures
        exists|last: int| is_last_with_key(pairs, key, last),
    decreases pairs.len() - at,
{
    if exists|j: int| at < j < pairs.len() && pairs[j].0 == key {
        let j = choose|j: int| at < j < pairs.len() && pairs[j].0 == key;
        lemma_last_with_key_exists(pairs, key, j);
    } else {
        assert(is_last_with_key(pairs, key, at));
    }
}

/// Looking a key up gives the value of the first pair that has it, however
/// many pairs with that key follow.
pub proof fn lemma_lookup_keeps_first(pairs: Seq<(Seq<char>, Seq<char>)>, at: int)
    requires
        is_first_with_key(pairs, pairs[at].0, at),
    ensures
        first_value(pairs, pairs[at].0) == Some(pairs[at].1),
{
    let key = pairs[at].0;
    let chosen = choose|k: int| is_first_with_key(pairs, key, k);
    assert(chosen == at);
}

/// The mapping gives a key the value of the last pair that has it, however
/// many pairs with that key come before.
pub proof fn lemma_mapping_keeps_last(pairs: Seq<(Seq<char>, Seq<char>)>, at: int)
    requires
        is_last_with_key(pairs, pairs[at].0, at),
    ensures
        mapping_of(pairs).contains_key(pairs[at].0),
        mapping_of(pairs)[pairs[at].0] == pairs[at].1,
{
    let key = pairs[at].0;
    let chosen = choose|k: int| is_last_with_key(pairs, key, k);
    assert(chosen == at);
}

/// Adding a pair at the end sets its key, in the mapping, to its value.
pub proof fn lemma_mapping_of_push(
    pairs: Seq<(Seq<char>, Seq<char>)>,
    key: Seq<char>,
    value: Seq<char>,
)
    ensures
        mapping_of(pairs.push((key, value))) == mapping_of(pairs).insert(key, value),
{
    let longer = pairs.push((key, value));
    assert forall|k: Seq<char>| has_key(longer, k) <==> (k == key || has_key(pairs, k)) by {
        if has_key(pairs, k) {
            let i = choose|i: int| 0 <= i < pairs.len() && pairs[i].0 == k;
            assert(longer[i].0 == k);
        }
        if k == key {
            assert(longer[pairs.len() as int].0 == k);
        }
        if has_key(longer, k) && k != key {
            let i = choose|i: int| 0 <= i < longer.len() && longer[i].0 == k;
            assert(pairs[i].0 == k);
        }
    }
    assert forall|k: Seq<char>| has_key(longer, k) implies last_value(longer, k)->0 == (if k
        == key {
        value
    } else {
        last_value(pairs, k)->0
    }) by {
        let i = choose|i: int| 0 <= i < longer.len() && longer[i].0 == k;
        lemma_last_with_key_exists(longer, k, i);
        let last = choose|at: int| is_last_with_key(longer, k, at);
        if k == key {
            assert(longer[pairs.len() as int].0 == k);
            assert(last == pairs.len());
        } else {
            let j = choose|j: int| 0 <= j < pairs.len() && pairs[j].0 == k;
            lemma_last_with_key_exists(pairs, k, j);
            let shorter_last = choose|at: int| is_last_with_key(pairs, k, at);
            assert(is_last_with_key(longer, k, shorter_last));
            assert(last == shorter_last);
        }
    }
    assert(mapping_of(longer) =~= mapping_of(pairs).insert(key, value));
}

/// Setting a key in pairs with distinct keys keeps the keys distinct and
/// sets that key, in the mapping, to the new value.
pub proof fn lemma_with_value(
    pairs: Seq<(Seq<char>, Seq<char>)>,
    key: Seq<char>,
    value: Seq<char>,
)
    requires
        distinct_keys(pairs),
    ensures
        distinct_keys(with_value(pairs, key, value)),
        mapping_of(with_value(pairs, key, value)) == mapping_of(pairs).insert(key, value),
{
    let after = with_value(pairs, key, value);
    if has_key(pairs, key) {
        let i = choose|i: int| 0 <= i < pairs.len() && pairs[i].0 == key;
        lemma_first_with_key_exists(pairs, key, i);
        let at = choose|at: int| is_first_with_key(pairs, key, at);
        assert(after == pairs.update(at, (key, value)));
        assert forall|k: Seq<char>| has_key(after, k) <==> has_key(pairs, k) by {
            if has_key(pairs, k) {
                let i = choose|i: int| 0 <= i < pairs.len() && pairs[i].0 == k;
                assert(after[i].0 == k);
            }
            if has_key(after, k) {
                let i = choose|i: int| 0 <= i < after.len() && after[i].0 == k;
                assert(pairs[i].0 == k);
            }
        }
        assert forall|k: Seq<char>| has_key(after, k) implies last_value(after, k)->0 == (if k
            == key {
            value
        } else {
            last_value(pairs, k)->0
        }) by {
            let i = choose|i: int| 0 <= i < after.len() && after[i].0 == k;
            lemma_last_with_key_exists(after, k, i);
            let last = choose|p: int| is_last_with_key(after, k, p);
            assert(pairs[last].0 == k);
            lemma_last_with_key_exists(pairs, k, last);
            let before = choose|p: int| is_last_with_key(pairs, k, p);
            assert(before == last);
            if k == key {
                assert(last == at);
            }
        }
        assert(mapping_of(after) =~= mapping_of(pairs).insert(key, value));
    } else {
        lemma_mapping_of_push(pairs, key, value);
    }
}

/// Pairs with distinct keys give a mapping with as many keys as there are
/// pairs.
pub proof fn lemma_mapping_size(pairs: Seq<(Seq<char>, Seq<char>)>)
    requires
        distinct_keys(pairs),
    ensures
        mapping_of(pairs).dom().finite(),
        mapping_of(pairs).dom().len() == pairs.len(),
    decreases pairs.len(),
{
    if pairs.len() == 0 {
        assert(mapping_of(pairs).dom() =~= Set::<Seq<char>>::empty());
    } else {
        let shorter = pairs.drop_last();
        let (key, value) = pairs.last();
        lemma_mapping_size(shorter);
        assert(pairs =~= shorter.push((key, value)));
        lemma_mapping_of_push(shorter, key, value);
        assert(!mapping_of(shorter).dom().contains(key)) by {
            if has_key(shorter, key) {
                let i = choose|i: int| 0 <= i < shorter.len() && shorter[i].0 == key;
                assert(pairs[i].0 == pairs[pairs.len() - 1].0);
            }
        }
        assert(mapping_of(pairs).dom() =~= mapping_of(shorter).dom().insert(key));
    }
}

/// The index of the first pair with the key `key`, if there is one.
pub fn find_first(pairs: &Vec<KvPair>, key: &str) -> (r: Option<usize>)
    ensures
        match r {
            Some(at) => is_first_with_key(pair_views(pairs@), key@, at as int),
            None => !has_key(pair_views(pairs@), key@),
        },
{
    let mut i: usize = 0;
    while i < pairs.len()
        invariant
            i <= pairs.len(),
            forall|j: int| 0 <= j < i ==> pair_views(pairs@)[j].0 != key@,
        decreases pairs.len() - i,
    {
        if same_text(pairs[i].key.as_str(), key) {
            return Some(i);
        }
        i += 1;
    }
    None
}

/// A mapping from tag keys to values, with its entries in a fixed order.
pub struct TagMap {
    entries: Vec<KvPair>,
}

impl View for TagMap {
    type V = Map<Seq<char>, Seq<char>>;

    /// The keys of the entries, each with its value.
    open spec fn view(&self) -> Map<Seq<char>, Seq<char>> {
        mapping_of(self.entries())
    }
}

impl TagMap {
    #[verifier::type_invariant]
    spec fn no_key_twice(&self) -> bool {
        distinct_keys(pair_views(self.entries@))
    }

    /// The entries in their order, by their views.
    pub closed spec fn entries(&self) -> Seq<(Seq<char>, Seq<char>)> {
        pair_views(self.entries@)
    }

    /// A mapping without entries.
    pub fn new() -> (map: TagMap)
        ensures
            map.entries() == Seq::<(Seq<char>, Seq<char>)>::empty(),
            map@ == Map::<Seq<char>, Seq<char>>::empty(),
    {
        let map = TagMap { entries: Vec::new() };
        assert(map.entries() =~= Seq::empty());
        assert(map@ =~= Map::empty());
        map
    }

    /// The number of entries, which is the number of keys of the mapping.
    pub fn len(&self) -> (n: usize)
        ensures
            n == self.entries().len(),
            self@.dom().finite(),
            n == self@.dom().len(),
    {
        proof {
            use_type_invariant(self);
            lemma_mapping_size(self.entries());
        }
        self.entries.len()
    }

    /// The entries in their order. No key occurs in two of them.
    pub fn pairs(&self) -> (pairs: &Vec<KvPair>)
        ensures
            pair_views(pairs@) == self.entries(),
            distinct_keys(self.entries()),
    {
        proof {
            use_type_invariant(self);
        }
        &self.entries
    }

    /// The value of `key`, if the mapping has that key.
    pub fn get(&self, key: &str) -> (value: Option<&String>)
        ensures
            match value {
                Some(v) => self@.contains_key(key@) && self@[key@] == v@,
                None => !self@.contains_key(key@),
            },
            (match value {
                Some(v) => Some(v@),
                None => None,
            }) == first_value(self.entries(), key@),
    {
        proof {
            use_type_invariant(self);
        }
        match find_first(&self.entries, key) {
            Some(at) => {
                proof {
                    let pairs = self.entries();
                    assert(is_last_with_key(pairs, pairs[at as int].0, at as int));
                    lemma_mapping_keeps_last(pairs, at as int);
                    lemma_lookup_keeps_first(pairs, at as int);
                }
                Some(&self.entries[at].value)
            },
            None => None,
        }
    }

    /// The mapping with the value of `key` set. An entry with that key keeps
    /// its place; a new key is entered after all others.
    pub fn with_tag(self, key: String, value: String) -> (map: TagMap)
        ensures
            map.entries() == with_value(self.entries(), key@, value@),
            map@ == self@.insert(key@, value@),
    {
        proof {
            use_type_invariant(&self);
            lemma_with_value(self.entries(), key@, value@);
        }
        let ghost before = self.entries();
        let mut entries = self.entries;
        match find_first(&entries, key.as_str()) {
            Some(at) => {
                proof {
                    let chosen = choose|k: int| is_first_with_key(before, key@, k);
                    assert(chosen == at);
                }
                entries[at] = KvPair { key, value };
                assert(pair_views(entries@) =~= before.update(at as int, (key@, value@)));
            },
            None => {
                entries.push(KvPair { key, value });
                assert(pair_views(entries@) =~= before.push((key@, value@)));
            },
        }
        TagMap { entries }
    }
}

} // verus!
