//! Maps from names to values that are walked in the order of the names.

use crate::text::{
    text_before, text_order, text_order_is_irreflexive, text_order_is_total,
    text_order_is_transitive, TextOrder,
};
use vstd::prelude::*;

verus! {

/// A name with its value.
#[derive(Debug)]
pub struct NamedEntry<V> {
    pub name: String,
    pub value: V,
}

/// A map from names to values. No name occurs twice, and the names stand in order.
#[derive(Debug)]
pub struct NamedMap<V> {
    entries: Vec<NamedEntry<V>>,
}

/// Names that stand in order, each once.
pub open spec fn in_order(names: Seq<Seq<char>>) -> bool {
    forall|i: int, j: int|
        #![trigger names[i], names[j]]
        0 <= i < j < names.len() ==> text_before(names[i], names[j])
}

/// Whether `names` are the names of a map, in order.
pub open spec fn ordered_names<V>(map: Map<Seq<char>, V>, names: Seq<Seq<char>>) -> bool {
    &&& in_order(names)
    &&& forall|k: Seq<char>| #[trigger] map.contains_key(k) <==> names.contains(k)
}

/// The names of a map in order.
pub open spec fn name_order<V>(map: Map<Seq<char>, V>) -> Seq<Seq<char>> {
    choose|names: Seq<Seq<char>>| ordered_names(map, names)
}

/// The names of a map can stand in order in one way only.
pub proof fn order_is_unique<V>(map: Map<Seq<char>, V>, a: Seq<Seq<char>>, b: Seq<Seq<char>>)
    requires
        ordered_names(map, a),
        ordered_names(map, b),
    ensures
        a == b,
        name_order(map) == a,
    decreases a.len(),
{
    lemma_same_order(a, b, |k: Seq<char>| map.contains_key(k));
    let c = name_order(map);
    lemma_same_order(a, c, |k: Seq<char>| map.contains_key(k));
}

proof fn lemma_same_order(a: Seq<Seq<char>>, b: Seq<Seq<char>>, member: spec_fn(Seq<char>) -> bool)
    requires
        in_order(a),
        in_order(b),
        forall|k: Seq<char>| #[trigger] member(k) <==> a.contains(k),
        forall|k: Seq<char>| #[trigger] member(k) <==> b.contains(k),
    ensures
        a == b,
    decreases a.len(),
{
    names_in_order_are_distinct(a);
    names_in_order_are_distinct(b);
    if a.len() == 0 {
        if b.len() > 0 {
            assert(b.contains(b[0]));
            assert(member(b[0]));
            assert(a.contains(b[0]));
        }
        assert(a =~= b);
    } else {
        let x = a.last();
        assert(a.contains(x));
        assert(member(x));
        assert(b.contains(x));
        let y = b.last();
        assert(b.contains(y));
        assert(member(y));
        assert(a.contains(y));
        let i = choose|i: int| 0 <= i < b.len() && b[i] == x;
        let j = choose|j: int| 0 <= j < a.len() && a[j] == y;
        if x != y {
            assert(text_before(b[i], b[b.len() - 1]));
            assert(text_before(a[j], a[a.len() - 1]));
            text_order_is_transitive(x, y, x);
            text_order_is_irreflexive(x);
        }
        let a1 = a.drop_last();
        let b1 = b.drop_last();
        let rest = |k: Seq<char>| member(k) && k != x;
        assert forall|k: Seq<char>| #[trigger] rest(k) <==> a1.contains(k) by {
            assert(member(k) <==> a.contains(k));
            if a.contains(k) && k != x {
                let n = choose|n: int| 0 <= n < a.len() && a[n] == k;
                assert(a1[n] == k);
            }
            if a1.contains(k) {
                let n = choose|n: int| 0 <= n < a1.len() && a1[n] == k;
                assert(a[n] == k);
                assert(a[n] != a[a.len() - 1]);
            }
        }
        assert forall|k: Seq<char>| #[trigger] rest(k) <==> b1.contains(k) by {
            assert(member(k) <==> b.contains(k));
            if b.contains(k) && k != x {
                let n = choose|n: int| 0 <= n < b.len() && b[n] == k;
                assert(b1[n] == k);
            }
            if b1.contains(k) {
                let n = choose|n: int| 0 <= n < b1.len() && b1[n] == k;
                assert(b[n] == k);
                assert(b[n] != b[b.len() - 1]);
            }
        }
        assert(in_order(a1)) by {
            assert forall|m: int, n: int|
                #![trigger a1[m], a1[n]]
                0 <= m < n < a1.len() implies text_before(a1[m], a1[n]) by {
                assert(text_before(a[m], a[n]));
            }
        }
        assert(in_order(b1)) by {
            assert forall|m: int, n: int|
                #![trigger b1[m], b1[n]]
                0 <= m < n < b1.len() implies text_before(b1[m], b1[n]) by {
                assert(text_before(b[m], b[n]));
            }
        }
        lemma_same_order(a1, b1, rest);
        assert(a =~= a1.push(x));
        assert(b =~= b1.push(y));
    }
}

/// Names that stand in order are distinct.
pub proof fn names_in_order_are_distinct(names: Seq<Seq<char>>)
    requires
        in_order(names),
    ensures
        names.no_duplicates(),
{
    assert forall|i: int, j: int| 0 <= i < names.len() && 0 <= j < names.len() && i != j implies
        names[i] != names[j] by {
        text_order_is_irreflexive(names[i]);
        if i < j {
            assert(text_before(names[i], names[j]));
        } else {
            assert(text_before(names[j], names[i]));
        }
    }
}

/// Names in order with one more in its place.
spec fn placed(names: Seq<Seq<char>>, name: Seq<char>) -> Seq<Seq<char>>
    decreases names.len(),
{
    if names.len() == 0 || text_before(names.last(), name) {
        names.push(name)
    } else {
        placed(names.drop_last(), name).push(names.last())
    }
}

proof fn lemma_placed(names: Seq<Seq<char>>, name: Seq<char>)
    requires
        in_order(names),
        !names.contains(name),
    ensures
        in_order(placed(names, name)),
        forall|k: Seq<char>| #[trigger]
            placed(names, name).contains(k) <==> names.contains(k) || k == name,
    decreases names.len(),
{
    let out = placed(names, name);
    if names.len() == 0 || text_before(names.last(), name) {
        assert forall|i: int, j: int|
            #![trigger out[i], out[j]]
            0 <= i < j < out.len() implies text_before(out[i], out[j]) by {
            if j == names.len() {
                if i < names.len() - 1 {
                    assert(text_before(names[i], names[names.len() - 1]));
                    text_order_is_transitive(names[i], names.last(), name);
                }
            } else {
                assert(text_before(names[i], names[j]));
            }
        }
        assert forall|k: Seq<char>| #[trigger]
            out.contains(k) <==> names.contains(k) || k == name by {
            if names.contains(k) {
                let i = choose|i: int| 0 <= i < names.len() && names[i] == k;
                assert(out[i] == k);
            }
            if k == name {
                assert(out[names.len() as int] == k);
            }
        }
    } else {
        let front = names.drop_last();
        let last = names.last();
        assert(names[names.len() - 1] == last);
        text_order_is_total(last, name);
        assert(in_order(front)) by {
            assert forall|i: int, j: int|
                #![trigger front[i], front[j]]
                0 <= i < j < front.len() implies text_before(front[i], front[j]) by {
                assert(text_before(names[i], names[j]));
            }
        }
        assert(!front.contains(name)) by {
            if front.contains(name) {
                let i = choose|i: int| 0 <= i < front.len() && front[i] == name;
                assert(names[i] == name);
            }
        }
        lemma_placed(front, name);
        let inner = placed(front, name);
        assert(out =~= inner.push(last));
        assert forall|i: int, j: int|
            #![trigger out[i], out[j]]
            0 <= i < j < out.len() implies text_before(out[i], out[j]) by {
            if j == inner.len() {
                assert(inner.contains(inner[i]));
                if front.contains(inner[i]) {
                    let k = choose|k: int| 0 <= k < front.len() && front[k] == inner[i];
                    assert(text_before(names[k], names[names.len() - 1]));
                }
            } else {
                assert(text_before(inner[i], inner[j]));
            }
        }
        assert forall|k: Seq<char>| #[trigger]
            out.contains(k) <==> names.contains(k) || k == name by {
            assert(inner.contains(k) <==> front.contains(k) || k == name);
            if names.contains(k) {
                let i = choose|i: int| 0 <= i < names.len() && names[i] == k;
                if i < front.len() {
                    assert(front[i] == k);
                } else {
                    assert(out[inner.len() as int] == k);
                }
            }
            if inner.contains(k) {
                let i = choose|i: int| 0 <= i < inner.len() && inner[i] == k;
                assert(out[i] == k);
            }
            if front.contains(k) {
                let i = choose|i: int| 0 <= i < front.len() && front[i] == k;
                assert(names[i] == k);
            }
            if out.contains(k) {
                let i = choose|i: int| 0 <= i < out.len() && out[i] == k;
                if i < inner.len() {
                    assert(inner[i] == k);
                }
            }
        }
    }
}

/// The names of a finite map can be put in order.
pub proof fn names_can_be_ordered<V>(map: Map<Seq<char>, V>)
    requires
        map.dom().finite(),
    ensures
        ordered_names(map, name_order(map)),
    decreases map.dom().len(),
{
    if map.dom().len() == 0 {
        let names = Seq::<Seq<char>>::empty();
        assert forall|k: Seq<char>| #[trigger] map.contains_key(k) <==> names.contains(k) by {
            if map.contains_key(k) {
                assert(map.dom().contains(k));
            }
        }
        assert(ordered_names(map, names));
    } else {
        let key = map.dom().choose();
        let rest = map.remove(key);
        assert(map.dom().contains(key));
        names_can_be_ordered(rest);
        let names = name_order(rest);
        assert(!rest.contains_key(key));
        lemma_placed(names, key);
        let all = placed(names, key);
        assert forall|k: Seq<char>| #[trigger] map.contains_key(k) <==> all.contains(k) by {
            assert(rest.contains_key(k) <==> names.contains(k));
        }
        assert(ordered_names(map, all));
    }
}

impl<V> NamedMap<V> {
    spec fn entry_names(entries: Seq<NamedEntry<V>>) -> Seq<Seq<char>> {
        entries.map_values(|e: NamedEntry<V>| e.name@)
    }

    spec fn entry_map(entries: Seq<NamedEntry<V>>) -> Map<Seq<char>, V>
        decreases entries.len(),
    {
        if entries.len() == 0 {
            Map::empty()
        } else {
            Self::entry_map(entries.drop_last()).insert(entries.last().name@, entries.last().value)
        }
    }

    #[verifier::type_invariant]
    spec fn sorted(self) -> bool {
        in_order(Self::entry_names(self.entries@))
    }

    /// The names in order.
    pub closed spec fn names(self) -> Seq<Seq<char>> {
        Self::entry_names(self.entries@)
    }

    proof fn lemma_entry_map(entries: Seq<NamedEntry<V>>)
        requires
            in_order(Self::entry_names(entries)),
        ensures
            forall|k: Seq<char>| #[trigger]
                Self::entry_map(entries).contains_key(k) <==> Self::entry_names(entries).contains(k),
            forall|i: int|
                0 <= i < entries.len() ==> Self::entry_map(entries)[#[trigger] entries[i].name@]
                    == entries[i].value,
        decreases entries.len(),
    {
        let names = Self::entry_names(entries);
        names_in_order_are_distinct(names);
        if entries.len() > 0 {
            let front = entries.drop_last();
            let front_names = Self::entry_names(front);
            assert(front_names =~= names.drop_last());
            assert(in_order(front_names)) by {
                assert forall|i: int, j: int|
                    #![trigger front_names[i], front_names[j]]
                    0 <= i < j < front_names.len() implies text_before(
                    front_names[i],
                    front_names[j],
                ) by {
                    assert(front_names[i] == names[i] && front_names[j] == names[j]);
                }
            }
            Self::lemma_entry_map(front);
            assert forall|k: Seq<char>| #[trigger]
                Self::entry_map(entries).contains_key(k) <==> names.contains(k) by {
                assert(Self::entry_map(front).contains_key(k) <==> front_names.contains(k));
                if names.contains(k) {
                    let i = choose|i: int| 0 <= i < names.len() && names[i] == k;
                    if i < front.len() {
                        assert(front_names[i] == k);
                    }
                }
                if front_names.contains(k) {
                    let i = choose|i: int| 0 <= i < front_names.len() && front_names[i] == k;
                    assert(names[i] == k);
                }
                if k == entries.last().name@ {
                    assert(names[entries.len() - 1] == k);
                }
            }
            assert forall|i: int| 0 <= i < entries.len() implies Self::entry_map(
                entries,
            )[#[trigger] entries[i].name@] == entries[i].value by {
                assert(names[i] == entries[i].name@);
                assert(names[entries.len() - 1] == entries.last().name@);
                if i < entries.len() - 1 {
                    assert(front[i] == entries[i]);
                    assert(names[i] != names[entries.len() - 1]);
                }
            }
        }
    }
}

impl<V> View for NamedMap<V> {
    type V = Map<Seq<char>, V>;

    closed spec fn view(&self) -> Map<Seq<char>, V> {
        NamedMap::<V>::entry_map(self.entries@)
    }
}

impl<V: DeepView> DeepView for NamedMap<V> {
    type V = Map<Seq<char>, V::V>;

    open spec fn deep_view(&self) -> Map<Seq<char>, V::V> {
        self@.map_values(|v: V| v.deep_view())
    }
}

impl<V> NamedMap<V> {
    /// A map without names.
    pub fn new() -> (r: Self)
        ensures
            r@ == Map::<Seq<char>, V>::empty(),
            r.names().len() == 0,
    {
        NamedMap { entries: Vec::new() }
    }

    /// How many names the map has.
    pub fn len(&self) -> (r: usize)
        ensures
            r == self.names().len(),
            ordered_names(self@, self.names()),
            self.names() == name_order(self@),
    {
        proof {
            use_type_invariant(self);
            Self::lemma_entry_map(self.entries@);
            order_is_unique(self@, self.names(), self.names());
        }
        self.entries.len()
    }

    /// The name at a place in the order.
    pub fn name_at(&self, i: usize) -> (r: &String)
        requires
            i < self.names().len(),
        ensures
            r@ == self.names()[i as int],
            self@.contains_key(r@),
            ordered_names(self@, self.names()),
    {
        proof {
            use_type_invariant(self);
            Self::lemma_entry_map(self.entries@);
            assert(self.names()[i as int] == self.entries@[i as int].name@);
        }
        &self.entries[i].name
    }

    /// The value at a place in the order.
    pub fn value_at(&self, i: usize) -> (r: &V)
        requires
            i < self.names().len(),
        ensures
            *r == self@[self.names()[i as int]],
            self@.contains_key(self.names()[i as int]),
            ordered_names(self@, self.names()),
    {
        proof {
            use_type_invariant(self);
            Self::lemma_entry_map(self.entries@);
            assert(self.names()[i as int] == self.entries@[i as int].name@);
        }
        &self.entries[i].value
    }

    fn place(entries: &Vec<NamedEntry<V>>, name: &str) -> (r: (usize, bool))
        requires
            in_order(Self::entry_names(entries@)),
        ensures
            r.0 <= entries@.len(),
            r.1 ==> r.0 < entries@.len() && entries@[r.0 as int].name@ == name@,
            forall|i: int| 0 <= i < r.0 ==> text_before((#[trigger] entries@[i]).name@, name@),
            !r.1 ==> forall|i: int|
                r.0 <= i < entries@.len() ==> text_before(name@, (#[trigger] entries@[i]).name@),
    {
        let mut i: usize = 0;
        while i < entries.len()
            invariant
                in_order(Self::entry_names(entries@)),
                i <= entries@.len(),
                forall|j: int| 0 <= j < i ==> text_before((#[trigger] entries@[j]).name@, name@),
            decreases entries@.len() - i,
        {
            match text_order(entries[i].name.as_str(), name) {
                TextOrder::Before => {},
                TextOrder::Same => {
                    return (i, true);
                },
                TextOrder::After => {
                    proof {
                        let names = Self::entry_names(entries@);
                        assert forall|j: int| i <= j < entries@.len() implies text_before(
                            name@,
                            (#[trigger] entries@[j]).name@,
                        ) by {
                            assert(names[i as int] == entries@[i as int].name@);
                            assert(names[j] == entries@[j].name@);
                            if j > i {
                                text_order_is_transitive(name@, names[i as int], names[j]);
                            }
                        }
                    }
                    return (i, false);
                },
            }
            i = i + 1;
        }
        (i, false)
    }

    /// The value of a name, where the map has it.
    pub fn get(&self, name: &str) -> (r: Option<&V>)
        ensures
            match r {
                Some(v) => self@.contains_key(name@) && self@[name@] == *v,
                None => !self@.contains_key(name@),
            },
    {
        proof {
            use_type_invariant(self);
            Self::lemma_entry_map(self.entries@);
        }
        let (i, found) = Self::place(&self.entries, name);
        let ghost names = Self::entry_names(self.entries@);
        if found {
            proof {
                assert(names[i as int] == name@);
            }
            Some(&self.entries[i].value)
        } else {
            proof {
                if names.contains(name@) {
                    let j = choose|j: int| 0 <= j < names.len() && names[j] == name@;
                    text_order_is_irreflexive(name@);
                    assert(names[j] == self.entries@[j].name@);
                }
            }
            None
        }
    }

    /// Whether the map has a name.
    pub fn contains_key(&self, name: &str) -> (r: bool)
        ensures
            r == self@.contains_key(name@),
    {
        self.get(name).is_some()
    }

    /// Gives a name a value, in place of any that it had.
    pub fn insert(&mut self, name: String, value: V)
        ensures
            final(self)@ == old(self)@.insert(name@, value),
    {
        proof {
            use_type_invariant(&*self);
        }
        let mut entries: Vec<NamedEntry<V>> = Vec::new();
        std::mem::swap(&mut entries, &mut self.entries);
        let ghost before = entries@;
        let ghost key = name@;
        let (i, found) = Self::place(&entries, name.as_str());
        let entry = NamedEntry { name, value };
        let ghost e = entry;
        if found {
            entries.set(i, entry);
        } else {
            entries.insert(i, entry);
        }
        proof {
            let after = entries@;
            let old_names = Self::entry_names(before);
            let new_names = Self::entry_names(after);
            assert(forall|a: int|
                0 <= a < before.len() ==> old_names[a] == (#[trigger] before[a]).name@);
            assert(forall|a: int|
                0 <= a < after.len() ==> new_names[a] == (#[trigger] after[a]).name@);
            if found {
                assert(new_names =~= old_names);
            } else {
                assert(after =~= before.insert(i as int, e));
                assert forall|a: int, b: int|
                    #![trigger new_names[a], new_names[b]]
                    0 <= a < b < new_names.len() implies text_before(
                    new_names[a],
                    new_names[b],
                ) by {
                    let pa = if a < i {
                        a
                    } else {
                        a - 1
                    };
                    let pb = if b < i {
                        b
                    } else {
                        b - 1
                    };
                    if a != i {
                        assert(new_names[a] == old_names[pa]);
                        assert(before[pa].name@ == old_names[pa]);
                    }
                    if b != i {
                        assert(new_names[b] == old_names[pb]);
                        assert(before[pb].name@ == old_names[pb]);
                    }
                }
            }
            Self::lemma_entry_map(before);
            Self::lemma_entry_map(after);
            let m0 = Self::entry_map(before);
            let m1 = Self::entry_map(after);
            assert(after[i as int] == e);
            assert(new_names[i as int] == key);
            names_in_order_are_distinct(new_names);
            assert forall|k: Seq<char>| #[trigger]
                m1.contains_key(k) <==> m0.insert(key, e.value).contains_key(k) by {
                if new_names.contains(k) && k != key {
                    let a = choose|a: int| 0 <= a < new_names.len() && new_names[a] == k;
                    let pa = if found || a < i {
                        a
                    } else {
                        a - 1
                    };
                    assert(old_names[pa] == k);
                }
                if old_names.contains(k) {
                    let a = choose|a: int| 0 <= a < old_names.len() && old_names[a] == k;
                    let na = if found || a < i {
                        a
                    } else {
                        a + 1
                    };
                    assert(new_names[na] == k);
                }
            }
            assert forall|k: Seq<char>| #[trigger] m1.contains_key(k) implies m1[k] == m0.insert(
                key,
                e.value,
            )[k] by {
                let a = choose|a: int| 0 <= a < new_names.len() && new_names[a] == k;
                assert(after[a].name@ == k);
                if a != i {
                    assert(new_names[a] != new_names[i as int]);
                    let pa = if found || a < i {
                        a
                    } else {
                        a - 1
                    };
                    assert(before[pa] == after[a]);
                    assert(before[pa].name@ == k);
                }
            }
            assert(m1 =~= m0.insert(key, e.value));
        }
        self.entries = entries;
    }

    /// Takes a name and its value out of the map.
    pub fn remove(&mut self, name: &str) -> (r: Option<V>)
        ensures
            final(self)@ == old(self)@.remove(name@),
            match r {
                Some(v) => old(self)@.contains_key(name@) && old(self)@[name@] == v,
                None => !old(self)@.contains_key(name@),
            },
    {
        proof {
            use_type_invariant(&*self);
        }
        let mut entries: Vec<NamedEntry<V>> = Vec::new();
        std::mem::swap(&mut entries, &mut self.entries);
        let ghost before = entries@;
        let ghost old_names = Self::entry_names(before);
        let (i, found) = Self::place(&entries, name);
        proof {
            Self::lemma_entry_map(before);
            assert(forall|a: int|
                0 <= a < before.len() ==> old_names[a] == (#[trigger] before[a]).name@);
        }
        if !found {
            self.entries = entries;
            proof {
                if old_names.contains(name@) {
                    let j = choose|j: int| 0 <= j < old_names.len() && old_names[j] == name@;
                    text_order_is_irreflexive(name@);
                    assert(old_names[j] == before[j].name@);
                }
                assert(Self::entry_map(before) =~= Self::entry_map(before).remove(name@));
            }
            return None;
        }
        let taken = entries.remove(i);
        proof {
            let after = entries@;
            let new_names = Self::entry_names(after);
            assert(after =~= before.remove(i as int));
            assert(forall|a: int|
                0 <= a < after.len() ==> new_names[a] == (#[trigger] after[a]).name@);
            assert(forall|a: int|
                0 <= a < new_names.len() ==> #[trigger] new_names[a] == old_names[if a < i {
                    a
                } else {
                    a + 1
                }]);
            assert(in_order(new_names));
            Self::lemma_entry_map(after);
            names_in_order_are_distinct(old_names);
            let m0 = Self::entry_map(before);
            let m1 = Self::entry_map(after);
            assert(old_names[i as int] == name@);
            assert forall|k: Seq<char>| #[trigger]
                m1.contains_key(k) <==> m0.remove(name@).contains_key(k) by {
                if new_names.contains(k) {
                    let a = choose|a: int| 0 <= a < new_names.len() && new_names[a] == k;
                    let pa = if a < i {
                        a
                    } else {
                        a + 1
                    };
                    assert(old_names[pa] == k);
                    assert(old_names[pa] != old_names[i as int]);
                }
                if old_names.contains(k) && k != name@ {
                    let a = choose|a: int| 0 <= a < old_names.len() && old_names[a] == k;
                    let na = if a < i {
                        a
                    } else {
                        a - 1
                    };
                    assert(new_names[na] == k);
                }
            }
            assert forall|k: Seq<char>| #[trigger] m1.contains_key(k) implies m1[k] == m0.remove(
                name@,
            )[k] by {
                let a = choose|a: int| 0 <= a < new_names.len() && new_names[a] == k;
                let pa = if a < i {
                    a
                } else {
                    a + 1
                };
                assert(after[a].name@ == k);
                assert(before[pa] == after[a]);
                assert(before[pa].name@ == k);
            }
            assert(m1 =~= m0.remove(name@));
            assert(before[i as int].name@ == name@);
        }
        self.entries = entries;
        Some(taken.value)
    }
}

} // verus!
