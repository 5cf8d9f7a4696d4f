//! Sets of texts and maps keyed by text, both kept in the order of the texts.

use vstd::prelude::*;

use crate::order;
use crate::order::text_comes_before;
use crate::text;
use crate::text::same_text;

verus! {

/// Where a text belongs in an ascending list: the first place whose text does
/// not come before it.
fn place_of(items: &Vec<String>, item: &str) -> (p: usize)
    requires
        order::ascending(text::texts(items@)),
    ensures
        p <= items@.len(),
        forall|i: int| 0 <= i < p ==> order::text_before(#[trigger] text::texts(items@)[i], item@),
        forall|i: int|
            p <= i < items@.len() ==> !order::text_before(#[trigger] text::texts(items@)[i], item@),
{
    let mut p: usize = 0;
    while p < items.len() && text_comes_before(items[p].as_str(), item)
        invariant
            p <= items@.len(),
            forall|i: int|
                0 <= i < p ==> order::text_before(#[trigger] text::texts(items@)[i], item@),
        decreases items@.len() - p,
    {
        p = p + 1;
    }
    proof {
        let list = text::texts(items@);
        assert forall|i: int| p <= i < items@.len() implies !order::text_before(
            #[trigger] list[i],
            item@,
        ) by {
            if i > p && order::text_before(list[i], item@) {
                order::lemma_text_before(list[p as int], list[i], item@);
            }
        }
    }
    p
}

/// A new text at its place keeps a list ascending.
proof fn lemma_insert_ascending(list: Seq<Seq<char>>, p: int, item: Seq<char>)
    requires
        order::ascending(list),
        0 <= p <= list.len(),
        forall|i: int| 0 <= i < p ==> order::text_before(#[trigger] list[i], item),
        forall|i: int| p <= i < list.len() ==> !order::text_before(#[trigger] list[i], item),
        p < list.len() ==> list[p] != item,
    ensures
        order::ascending(list.insert(p, item)),
        !list.contains(item),
{
    assert forall|i: int| p <= i < list.len() implies order::text_before(item, #[trigger] list[i])
        && list[i] != item by {
        order::lemma_text_before(item, list[p], list[i]);
        order::lemma_text_before(item, list[i], list[i]);
    }
    assert forall|i: int| 0 <= i < list.len() implies list[i] != item by {
        if i < p {
            order::lemma_text_before(list[i], item, item);
        }
    }
    let longer = list.insert(p, item);
    assert forall|i: int, j: int| 0 <= i < j < longer.len() implies order::text_before(
        #[trigger] longer[i],
        #[trigger] longer[j],
    ) by {
        if j < p {
            assert(longer[i] == list[i] && longer[j] == list[j]);
        } else if j == p {
            assert(longer[i] == list[i]);
        } else {
            assert(longer[j] == list[j - 1]);
            if i < p {
                assert(longer[i] == list[i]);
            } else if i > p {
                assert(longer[i] == list[i - 1]);
            }
        }
    }
}

/// The texts of an ascending list differ from one another.
pub proof fn lemma_ascending_distinct(list: Seq<Seq<char>>)
    requires
        order::ascending(list),
    ensures
        list.no_duplicates(),
{
    assert forall|i: int, j: int| 0 <= i < list.len() && 0 <= j < list.len() && i != j implies list[i]
        != list[j] by {
        order::lemma_text_before(list[i], list[j], list[j]);
        order::lemma_text_before(list[j], list[i], list[i]);
    }
}

// ---------------------------------------------------------------------------
// Sets
// ---------------------------------------------------------------------------

/// A set of texts. The view lists them in ascending order.
#[derive(Debug, PartialEq, Eq)]
pub struct StrSet {
    items: Vec<String>,
}

impl View for StrSet {
    type V = Seq<Seq<char>>;

    closed spec fn view(&self) -> Seq<Seq<char>> {
        text::texts(self.items@)
    }
}

impl StrSet {
    #[verifier::type_invariant]
    pub closed spec fn well_formed(&self) -> bool {
        order::ascending(text::texts(self.items@))
    }

    pub fn new() -> (s: Self)
        ensures
            s@ == Seq::<Seq<char>>::empty(),
    {
        let items: Vec<String> = Vec::new();
        assert(text::texts(items@) =~= Seq::<Seq<char>>::empty());
        StrSet { items }
    }

    pub fn len(&self) -> (n: usize)
        ensures
            n == self@.len(),
    {
        self.items.len()
    }

    pub fn is_empty(&self) -> (r: bool)
        ensures
            r == (self@.len() == 0),
    {
        self.items.len() == 0
    }

    pub fn contains(&self, item: &str) -> (r: bool)
        ensures
            r == self@.contains(item@),
    {
        let mut i: usize = 0;
        while i < self.items.len()
            invariant
                i <= self.items@.len(),
                forall|j: int| 0 <= j < i ==> self@[j] != item@,
            decreases self.items@.len() - i,
        {
            if same_text(self.items[i].as_str(), item) {
                assert(self@[i as int] == item@);
                return true;
            }
            i = i + 1;
        }
        false
    }

    /// The texts of the set, in ascending order.
    pub fn items(&self) -> (r: &Vec<String>)
        ensures
            text::texts(r@) == self@,
            order::ascending(self@),
    {
        proof {
            use_type_invariant(self);
        }
        &self.items
    }

    /// Adds a text, and says whether it is new.
    pub fn insert(&mut self, item: String) -> (fresh: bool)
        ensures
            fresh == !old(self)@.contains(item@),
            final(self)@.to_set() == old(self)@.to_set().insert(item@),
            final(self)@.len() == old(self)@.len() + (if fresh {
                1nat
            } else {
                0nat
            }),
            order::ascending(final(self)@),
    {
        proof {
            use_type_invariant(&*self);
        }
        let mut taken: StrSet = StrSet::new();
        std::mem::swap(&mut taken, self);
        let StrSet { mut items } = taken;
        let ghost list = text::texts(items@);
        let p: usize = place_of(&items, item.as_str());
        if p < items.len() && same_text(items[p].as_str(), item.as_str()) {
            proof {
                assert(list[p as int] == item@);
                assert(list.to_set().insert(item@) =~= list.to_set());
            }
            *self = StrSet { items };
            return false;
        }
        proof {
            lemma_insert_ascending(list, p as int, item@);
        }
        items.insert(p, item);
        proof {
            assert(text::texts(items@) =~= list.insert(p as int, item@));
            let longer = text::texts(items@);
            assert forall|t: Seq<char>| longer.contains(t) == (list.contains(t) || t == item@) by {
                if list.contains(t) {
                    let i = choose|i: int| 0 <= i < list.len() && list[i] == t;
                    if i < p {
                        assert(longer[i] == t);
                    } else {
                        assert(longer[i + 1] == t);
                    }
                }
                assert(longer[p as int] == item@);
                if longer.contains(t) {
                    let i = choose|i: int| 0 <= i < longer.len() && longer[i] == t;
                    if i < p {
                        assert(list[i] == t);
                    } else if i > p {
                        assert(list[i - 1] == t);
                    }
                }
            }
            assert(longer.to_set() =~= list.to_set().insert(item@));
        }
        *self = StrSet { items };
        true
    }

    /// Adds every text of a list.
    pub fn extend(&mut self, list: &[String])
        ensures
            final(self)@.to_set() == old(self)@.to_set() + text::texts(list@).to_set(),
            order::ascending(final(self)@),
    {
        proof {
            use_type_invariant(&*self);
            assert(text::texts(list@).take(0).to_set() =~= Set::<Seq<char>>::empty());
            assert(self@.to_set() + Set::<Seq<char>>::empty() =~= self@.to_set());
        }
        let mut i: usize = 0;
        while i < list.len()
            invariant
                i <= list.len(),
                self@.to_set() == old(self)@.to_set() + text::texts(list@).take(
                    i as int,
                ).to_set(),
                order::ascending(self@),
            decreases list.len() - i,
        {
            let _ = self.insert(list[i].clone());
            proof {
                let all = text::texts(list@);
                lemma_take_to_set(all, i as int);
                assert(self@.to_set() =~= old(self)@.to_set() + all.take(i + 1).to_set());
            }
            i = i + 1;
        }
        assert(text::texts(list@).take(i as int) =~= text::texts(list@));
    }
}

/// One more element of a sequence is one more element of its set.
pub proof fn lemma_take_to_set<A>(s: Seq<A>, i: int)
    requires
        0 <= i < s.len(),
    ensures
        s.take(i + 1).to_set() == s.take(i).to_set().insert(s[i]),
{
    let longer = s.take(i + 1);
    let shorter = s.take(i);
    assert forall|x: A| longer.contains(x) == (shorter.contains(x) || x == s[i]) by {
        if shorter.contains(x) {
            let j = choose|j: int| 0 <= j < shorter.len() && shorter[j] == x;
            assert(longer[j] == x);
        }
        assert(longer[i] == s[i]);
        if longer.contains(x) {
            let j = choose|j: int| 0 <= j < longer.len() && longer[j] == x;
            if j < i {
                assert(shorter[j] == x);
            }
        }
    }
    assert(longer.to_set() =~= shorter.to_set().insert(s[i]));
}

// ---------------------------------------------------------------------------
// Maps
// ---------------------------------------------------------------------------

/// A map from texts to values. The view is the map; `keys` lists its keys in
/// ascending order.
#[derive(Debug)]
pub struct StrMap<V> {
    keys: Vec<String>,
    values: Vec<V>,
}

impl<V> View for StrMap<V> {
    type V = Map<Seq<char>, V>;

    closed spec fn view(&self) -> Map<Seq<char>, V> {
        map_of(text::texts(self.keys@), self.values@)
    }
}

/// The map that gives each key the value at its place.
spec fn map_of<V>(keys: Seq<Seq<char>>, values: Seq<V>) -> Map<Seq<char>, V> {
    Map::new(|k: Seq<char>| keys.contains(k), |k: Seq<char>| values[keys.index_of(k)])
}

proof fn lemma_map_of_at<V>(keys: Seq<Seq<char>>, values: Seq<V>, i: int)
    requires
        order::ascending(keys),
        0 <= i < keys.len(),
    ensures
        map_of(keys, values).contains_key(keys[i]),
        map_of(keys, values)[keys[i]] == values[i],
{
    lemma_ascending_distinct(keys);
    assert(keys.contains(keys[i]));
    assert(keys.index_of(keys[i]) == i);
}

impl<V> StrMap<V> {
    #[verifier::type_invariant]
    pub closed spec fn well_formed(&self) -> bool {
        &&& self.keys@.len() == self.values@.len()
        &&& order::ascending(text::texts(self.keys@))
    }

    /// The keys, in ascending order.
    pub closed spec fn keys(&self) -> Seq<Seq<char>> {
        text::texts(self.keys@)
    }

    pub fn new() -> (m: Self)
        ensures
            m@ == Map::<Seq<char>, V>::empty(),
            m.keys() == Seq::<Seq<char>>::empty(),
    {
        let keys: Vec<String> = Vec::new();
        let values: Vec<V> = Vec::new();
        assert(text::texts(keys@) =~= Seq::<Seq<char>>::empty());
        assert(map_of(text::texts(keys@), values@) =~= Map::<Seq<char>, V>::empty());
        StrMap { keys, values }
    }

    pub fn len(&self) -> (n: usize)
        ensures
            n == self.keys().len(),
    {
        self.keys.len()
    }

    pub fn is_empty(&self) -> (r: bool)
        ensures
            r == (self.keys().len() == 0),
            r ==> self@ == Map::<Seq<char>, V>::empty(),
    {
        proof {
            if self.keys@.len() == 0 {
                assert(self@ =~= Map::<Seq<char>, V>::empty());
            }
        }
        self.keys.len() == 0
    }

    /// The keys, in ascending order.
    pub fn key_list(&self) -> (r: &Vec<String>)
        ensures
            text::texts(r@) == self.keys(),
            order::ascending(self.keys()),
            forall|k: Seq<char>| self@.contains_key(k) == #[trigger] self.keys().contains(k),
    {
        proof {
            use_type_invariant(self);
        }
        &self.keys
    }

    /// The value at a place in the order of the keys.
    pub fn value_at(&self, i: usize) -> (v: &V)
        requires
            i < self.keys().len(),
        ensures
            self@.contains_key(self.keys()[i as int]),
            *v == self@[self.keys()[i as int]],
    {
        proof {
            use_type_invariant(self);
            lemma_map_of_at(text::texts(self.keys@), self.values@, i as int);
        }
        &self.values[i]
    }

    pub fn get(&self, key: &str) -> (r: Option<&V>)
        ensures
            match r {
                Some(v) => self@.contains_key(key@) && *v == self@[key@],
                None => !self@.contains_key(key@),
            },
    {
        proof {
            use_type_invariant(self);
        }
        let mut i: usize = 0;
        while i < self.keys.len()
            invariant
                i <= self.keys@.len(),
                self.keys@.len() == self.values@.len(),
                order::ascending(text::texts(self.keys@)),
                forall|j: int| 0 <= j < i ==> text::texts(self.keys@)[j] != key@,
            decreases self.keys@.len() - i,
        {
            if same_text(self.keys[i].as_str(), key) {
                proof {
                    assert(text::texts(self.keys@)[i as int] == key@);
                    lemma_map_of_at(text::texts(self.keys@), self.values@, i as int);
                }
                return Some(&self.values[i]);
            }
            i = i + 1;
        }
        None
    }

    /// Gives a key a value, and returns the value that it had.
    pub fn insert(&mut self, key: String, value: V) -> (earlier: Option<V>)
        ensures
            final(self)@ == old(self)@.insert(key@, value),
            match earlier {
                Some(v) => old(self)@.contains_key(key@) && v == old(self)@[key@],
                None => !old(self)@.contains_key(key@),
            },
            order::ascending(final(self).keys()),
            final(self).keys().to_set() == old(self).keys().to_set().insert(key@),
    {
        proof {
            use_type_invariant(&*self);
        }
        let mut taken: StrMap<V> = StrMap::new();
        std::mem::swap(&mut taken, self);
        let StrMap { mut keys, mut values } = taken;
        let ghost old_keys = text::texts(keys@);
        let ghost old_values = values@;
        let ghost old_map = map_of(old_keys, old_values);
        let p: usize = place_of(&keys, key.as_str());
        if p < keys.len() && same_text(keys[p].as_str(), key.as_str()) {
            proof {
                assert(old_keys[p as int] == key@);
                lemma_map_of_at(old_keys, old_values, p as int);
                assert(old_keys.to_set().insert(key@) =~= old_keys.to_set());
            }
            let earlier: V = values.remove(p);
            values.insert(p, value);
            proof {
                assert(values@ =~= old_values.update(p as int, value));
                let new_map = map_of(old_keys, values@);
                assert forall|k: Seq<char>| old_keys.contains(k) implies #[trigger] new_map[k]
                    == old_map.insert(key@, value)[k] by {
                    let i = choose|i: int| 0 <= i < old_keys.len() && old_keys[i] == k;
                    lemma_map_of_at(old_keys, old_values, i);
                    lemma_map_of_at(old_keys, values@, i);
                    lemma_ascending_distinct(old_keys);
                }
                assert(new_map =~= old_map.insert(key@, value));
            }
            *self = StrMap { keys, values };
            return Some(earlier);
        }
        proof {
            lemma_insert_ascending(old_keys, p as int, key@);
        }
        let ghost key_text = key@;
        keys.insert(p, key);
        values.insert(p, value);
        proof {
            let new_keys = text::texts(keys@);
            assert(new_keys =~= old_keys.insert(p as int, key_text));
            let new_map = map_of(new_keys, values@);
            assert forall|k: Seq<char>| #[trigger] new_keys.contains(k) == (old_keys.contains(k) || k
                == key_text) by {
                assert(new_keys[p as int] == key_text);
                if old_keys.contains(k) {
                    let i = choose|i: int| 0 <= i < old_keys.len() && old_keys[i] == k;
                    assert(new_keys[if i < p { i } else { i + 1 }] == k);
                }
                if new_keys.contains(k) {
                    let i = choose|i: int| 0 <= i < new_keys.len() && new_keys[i] == k;
                    if i < p {
                        assert(old_keys[i] == k);
                    } else if i > p {
                        assert(old_keys[i - 1] == k);
                    }
                }
            }
            assert forall|k: Seq<char>| new_keys.contains(k) implies #[trigger] new_map[k]
                == old_map.insert(key_text, value)[k] by {
                lemma_map_of_at(new_keys, values@, p as int);
                if k != key_text {
                    assert(old_keys.contains(k));
                    let i = choose|i: int| 0 <= i < old_keys.len() && old_keys[i] == k;
                    lemma_map_of_at(old_keys, old_values, i);
                    lemma_map_of_at(new_keys, values@, if i < p { i } else { i + 1 });
                }
            }
            assert(new_map =~= old_map.insert(key_text, value));
            assert(new_keys.to_set() =~= old_keys.to_set().insert(key_text));
        }
        *self = StrMap { keys, values };
        None
    }
}

} // verus!
