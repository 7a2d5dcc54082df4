//! A string-to-string map: environment variables, HTTP headers, profile
//! tables.

use vstd::prelude::*;
use crate::strings::{str_eq, strings_view};
use crate::order::{insert_sorted_text, sorted_by, text_order};

verus! {

/// The keys of a list of entries, as text.
pub open spec fn entry_keys(e: Seq<(String, String)>) -> Seq<Seq<char>> {
    Seq::new(e.len(), |i: int| e[i].0@)
}

/// The map obtained by inserting the entries in order (a later entry for a
/// key replaces an earlier one).
pub open spec fn map_of(e: Seq<(String, String)>) -> Map<Seq<char>, Seq<char>>
    decreases e.len(),
{
    if e.len() == 0 {
        Map::empty()
    } else {
        map_of(e.drop_last()).insert(e.last().0@, e.last().1@)
    }
}

/// No key occurs twice.
pub open spec fn unique_keys(e: Seq<(String, String)>) -> bool {
    forall|i: int, j: int|
        0 <= i < e.len() && 0 <= j < e.len() && i != j ==> #[trigger] e[i].0@ != #[trigger] e[j].0@
}

proof fn lemma_map_of_dom(e: Seq<(String, String)>)
    ensures
        map_of(e).dom() == entry_keys(e).to_set(),
    decreases e.len(),
{
    if e.len() > 0 {
        lemma_map_of_dom(e.drop_last());
        let k = entry_keys(e);
        let k0 = entry_keys(e.drop_last());
        assert(k0 =~= k.drop_last());
        assert forall|x: Seq<char>| map_of(e).dom().contains(x) <==> k.to_set().contains(x) by {
            if k.to_set().contains(x) {
                let i = choose|i: int| 0 <= i < k.len() && k[i] == x;
                if i < e.len() - 1 {
                    assert(k0[i] == x);
                }
            }
            if map_of(e).dom().contains(x) && x != e.last().0@ {
                assert(k0.contains(x));
                let i = choose|i: int| 0 <= i < k0.len() && k0[i] == x;
                assert(k[i] == x);
            }
            if x == e.last().0@ {
                assert(k[e.len() - 1] == x);
            }
        }
        assert(map_of(e).dom() =~= k.to_set());
    }
}

proof fn lemma_map_of_index(e: Seq<(String, String)>, i: int)
    requires
        unique_keys(e),
        0 <= i < e.len(),
    ensures
        map_of(e).dom().contains(e[i].0@),
        map_of(e)[e[i].0@] == e[i].1@,
    decreases e.len(),
{
    let init = e.drop_last();
    if i < e.len() - 1 {
        assert(unique_keys(init)) by {
            assert forall|a: int, b: int|
                0 <= a < init.len() && 0 <= b < init.len() && a != b implies #[trigger] init[a].0@
                != #[trigger] init[b].0@ by {
                assert(init[a] == e[a] && init[b] == e[b]);
            }
        }
        lemma_map_of_index(init, i);
        assert(init[i] == e[i]);
        assert(e[i].0@ != e[e.len() - 1].0@);
    }
}

/// A map from text keys to text values (`HashMap<String, String>`).
#[derive(Debug)]
pub struct EnvMap {
    entries: Vec<(String, String)>,
}

impl Clone for EnvMap {
    fn clone(&self) -> (r: Self)
        ensures
            r@ == self@,
    {
        self.copy()
    }
}

impl View for EnvMap {
    type V = Map<Seq<char>, Seq<char>>;

    closed spec fn view(&self) -> Map<Seq<char>, Seq<char>> {
        map_of(self.entries@)
    }
}

impl EnvMap {
    #[verifier::type_invariant]
    closed spec fn keys_unique(self) -> bool {
        unique_keys(self.entries@)
    }

    /// The map has finitely many keys.
    pub proof fn lemma_finite(&self)
        ensures
            self@.dom().finite(),
    {
        lemma_map_of_dom(self.entries@);
        entry_keys(self.entries@).lemma_cardinality_of_set();
        vstd::seq_lib::seq_to_set_is_finite(entry_keys(self.entries@));
    }

    /// An empty map.
    pub fn new() -> (m: Self)
        ensures
            m@ == Map::<Seq<char>, Seq<char>>::empty(),
    {
        EnvMap { entries: Vec::new() }
    }

    fn find(&self, key: &str) -> (r: Option<usize>)
        ensures
            match r {
                Some(j) => j < self.entries@.len() && self.entries@[j as int].0@ == key@,
                None => forall|i: int|
                    0 <= i < self.entries@.len() ==> self.entries@[i].0@ != key@,
            },
    {
        let mut i: usize = 0;
        while i < self.entries.len()
            invariant
                i <= self.entries@.len(),
                forall|j: int| 0 <= j < i ==> self.entries@[j].0@ != key@,
            decreases self.entries@.len() - i,
        {
            if str_eq(self.entries[i].0.as_str(), key) {
                return Some(i);
            }
            i = i + 1;
        }
        None
    }

    /// The value stored for `key`, if any.
    pub fn get(&self, key: &str) -> (r: Option<String>)
        ensures
            match r {
                Some(v) => self@.dom().contains(key@) && self@[key@] == v@,
                None => !self@.dom().contains(key@),
            },
    {
        proof {
            use_type_invariant(self);
            lemma_map_of_dom(self.entries@);
        }
        match self.find(key) {
            Some(j) => {
                proof {
                    lemma_map_of_index(self.entries@, j as int);
                }
                Some(self.entries[j].1.clone())
            },
            None => {
                proof {
                    if entry_keys(self.entries@).to_set().contains(key@) {
                        let i = choose|i: int|
                            0 <= i < entry_keys(self.entries@).len() && entry_keys(
                                self.entries@,
                            )[i] == key@;
                        assert(self.entries@[i].0@ == key@);
                    }
                }
                None
            },
        }
    }

    /// Whether `key` has a value.
    pub fn contains_key(&self, key: &str) -> (r: bool)
        ensures
            r == self@.dom().contains(key@),
    {
        self.get(key).is_some()
    }

    /// Number of keys.
    pub fn len(&self) -> (n: usize)
        ensures
            n == self@.dom().len(),
    {
        proof {
            use_type_invariant(self);
            lemma_map_of_dom(self.entries@);
            let k = entry_keys(self.entries@);
            assert(k.no_duplicates()) by {
                assert forall|i: int, j: int|
                    0 <= i < k.len() && 0 <= j < k.len() && i != j implies k[i] != k[j] by {
                    assert(self.entries@[i].0@ != self.entries@[j].0@);
                }
            }
            k.unique_seq_to_set();
        }
        self.entries.len()
    }

    /// Sets `key` to `value`, replacing any earlier value.
    pub fn insert(&mut self, key: String, value: String)
        ensures
            final(self)@ == old(self)@.insert(key@, value@),
    {
        proof {
            use_type_invariant(&*self);
        }
        let ghost old_e = self.entries@;
        let found = self.find(key.as_str());
        match found {
            Some(j) => {
                let ghost k = key@;
                let ghost v = value@;
                let mut entries: Vec<(String, String)> = Vec::new();
                std::mem::swap(&mut entries, &mut self.entries);
                entries.set(j, (key, value));
                let ghost new_e = entries@;
                proof {
                    assert(unique_keys(new_e)) by {
                        assert forall|a: int, b: int|
                            0 <= a < new_e.len() && 0 <= b < new_e.len() && a != b implies #[trigger] new_e[a].0@
                            != #[trigger] new_e[b].0@ by {
                            if a != j && b != j {
                                assert(new_e[a] == old_e[a] && new_e[b] == old_e[b]);
                            } else if a == j {
                                assert(new_e[b] == old_e[b]);
                                assert(old_e[j as int].0@ != old_e[b].0@);
                            } else {
                                assert(new_e[a] == old_e[a]);
                                assert(old_e[j as int].0@ != old_e[a].0@);
                            }
                        }
                    }
                    lemma_map_of_dom(old_e);
                    lemma_map_of_dom(new_e);
                    let target = map_of(old_e).insert(k, v);
                    assert forall|x: Seq<char>| map_of(new_e).dom().contains(x) <==> target.dom().contains(x) by {
                        if entry_keys(new_e).to_set().contains(x) {
                            let i = choose|i: int| 0 <= i < new_e.len() && entry_keys(new_e)[i] == x;
                            if i != j {
                                assert(entry_keys(old_e)[i] == x);
                            }
                        }
                        if entry_keys(old_e).to_set().contains(x) {
                            let i = choose|i: int| 0 <= i < old_e.len() && entry_keys(old_e)[i] == x;
                            if i != j {
                                assert(entry_keys(new_e)[i] == x);
                            } else {
                                assert(entry_keys(new_e)[j as int] == k);
                            }
                        }
                        if x == k {
                            assert(entry_keys(new_e)[j as int] == k);
                        }
                    }
                    assert forall|x: Seq<char>| #[trigger] map_of(new_e).dom().contains(x) implies map_of(new_e)[x] == target[x] by {
                        let i = choose|i: int| 0 <= i < new_e.len() && entry_keys(new_e)[i] == x;
                        lemma_map_of_index(new_e, i);
                        if i != j {
                            lemma_map_of_index(old_e, i);
                            assert(old_e[i] == new_e[i]);
                        }
                    }
                    assert(map_of(new_e) =~= target);
                }
                self.entries = entries;
            },
            None => {
                let ghost k = key@;
                let mut entries: Vec<(String, String)> = Vec::new();
                std::mem::swap(&mut entries, &mut self.entries);
                entries.push((key, value));
                proof {
                    let e = entries@;
                    assert(e.drop_last() =~= old_e);
                    assert(unique_keys(e)) by {
                        assert forall|a: int, b: int|
                            0 <= a < e.len() && 0 <= b < e.len() && a != b implies #[trigger] e[a].0@
                            != #[trigger] e[b].0@ by {
                            if a < old_e.len() && b < old_e.len() {
                                assert(e[a] == old_e[a] && e[b] == old_e[b]);
                            } else if a < old_e.len() {
                                assert(e[a] == old_e[a]);
                            } else {
                                assert(e[b] == old_e[b]);
                            }
                        }
                    }
                }
                self.entries = entries;
            },
        }
    }

    /// Every entry of `other` inserted, `other` winning on shared keys
    /// (`HashMap::extend`).
    pub fn extend(&mut self, other: &EnvMap)
        ensures
            final(self)@ == old(self)@.union_prefer_right(other@),
    {
        proof {
            use_type_invariant(other);
        }
        let mut i: usize = 0;
        let ghost start = self@;
        proof {
            assert(other.entries@.take(0) =~= Seq::<(String, String)>::empty());
            assert(start.union_prefer_right(Map::empty()) =~= start);
        }
        while i < other.entries.len()
            invariant
                i <= other.entries@.len(),
                self@ == start.union_prefer_right(map_of(other.entries@.take(i as int))),
            decreases other.entries@.len() - i,
        {
            let k = other.entries[i].0.clone();
            let v = other.entries[i].1.clone();
            let ghost t = other.entries@.take(i + 1);
            proof {
                assert(t.drop_last() =~= other.entries@.take(i as int));
                assert(t.last() == other.entries@[i as int]);
            }
            self.insert(k, v);
            proof {
                assert(self@ =~= start.union_prefer_right(map_of(t)));
            }
            i = i + 1;
        }
        proof {
            assert(other.entries@.take(other.entries@.len() as int) =~= other.entries@);
        }
    }

    /// A map holding `pairs` inserted in order.
    pub fn from_pairs(pairs: Vec<(String, String)>) -> (m: Self)
        ensures
            m@ == map_of(pairs@),
    {
        let mut m = EnvMap::new();
        let mut i: usize = 0;
        assert(pairs@.take(0) =~= Seq::<(String, String)>::empty());
        while i < pairs.len()
            invariant
                i <= pairs@.len(),
                m@ == map_of(pairs@.take(i as int)),
            decreases pairs@.len() - i,
        {
            let ghost t = pairs@.take(i + 1);
            assert(t.drop_last() =~= pairs@.take(i as int));
            assert(t.last() == pairs@[i as int]);
            m.insert(pairs[i].0.clone(), pairs[i].1.clone());
            i = i + 1;
        }
        assert(pairs@.take(pairs@.len() as int) =~= pairs@);
        m
    }

    /// The entries, each key once.
    pub fn to_pairs(&self) -> (r: Vec<(String, String)>)
        ensures
            map_of(r@) == self@,
            unique_keys(r@),
    {
        proof {
            use_type_invariant(self);
        }
        let mut r: Vec<(String, String)> = Vec::new();
        let mut i: usize = 0;
        while i < self.entries.len()
            invariant
                i <= self.entries@.len(),
                unique_keys(self.entries@),
                r@.len() == i,
                forall|j: int| 0 <= j < i ==> #[trigger] r@[j].0@ == self.entries@[j].0@ && r@[j].1@
                    == self.entries@[j].1@,
            decreases self.entries@.len() - i,
        {
            r.push((self.entries[i].0.clone(), self.entries[i].1.clone()));
            i = i + 1;
        }
        proof {
            lemma_same_view_map_of(r@, self.entries@);
        }
        r
    }

    /// Copy of the map.
    /// The keys in text order (the order of a `BTreeMap<String, _>`).
    pub fn sorted_keys(&self) -> (r: Vec<String>)
        ensures
            sorted_by(strings_view(r@), text_order()),
            strings_view(r@).to_set() == self@.dom(),
    {
        let pairs = self.to_pairs();
        proof {
            lemma_map_of_dom(pairs@);
        }
        let ghost keys = entry_keys(pairs@);
        let mut r: Vec<String> = Vec::new();
        proof {
            assert(strings_view(r@).to_set() =~= keys.take(0).to_set());
        }
        let mut i: usize = 0;
        while i < pairs.len()
            invariant
                i <= pairs@.len(),
                keys == entry_keys(pairs@),
                sorted_by(strings_view(r@), text_order()),
                strings_view(r@).to_set() == keys.take(i as int).to_set(),
            decreases pairs@.len() - i,
        {
            insert_sorted_text(&mut r, pairs[i].0.clone());
            proof {
                assert(keys.take(i + 1) =~= keys.take(i as int).push(keys[i as int]));
                keys.take(i as int).lemma_push_to_set_commute(keys[i as int]);
            }
            i = i + 1;
        }
        assert(keys.take(pairs@.len() as int) =~= keys);
        r
    }

    pub fn copy(&self) -> (r: Self)
        ensures
            r@ == self@,
    {
        let pairs = self.to_pairs();
        EnvMap::from_pairs(pairs)
    }
}

proof fn lemma_same_view_map_of(a: Seq<(String, String)>, b: Seq<(String, String)>)
    requires
        a.len() == b.len(),
        forall|j: int| 0 <= j < a.len() ==> #[trigger] a[j].0@ == b[j].0@ && a[j].1@ == b[j].1@,
    ensures
        map_of(a) == map_of(b),
        unique_keys(b) ==> unique_keys(a),
    decreases a.len(),
{
    if a.len() > 0 {
        lemma_same_view_map_of(a.drop_last(), b.drop_last());
        assert(a.last().0@ == b.last().0@);
    }
    if unique_keys(b) {
        assert forall|i: int, j: int|
            0 <= i < a.len() && 0 <= j < a.len() && i != j implies #[trigger] a[i].0@ != #[trigger] a[j].0@ by {
            assert(a[i].0@ == b[i].0@ && a[j].0@ == b[j].0@);
        }
    }
}

} // verus!
