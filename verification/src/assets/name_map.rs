//! A map from names to values that can be walked.

use vstd::prelude::*;

verus! {

/// What a list of name and value pairs says as a map: for a name that occurs
/// twice, the later pair counts.
pub open spec fn pairs_to_map<V>(pairs: Seq<(Seq<char>, V)>) -> Map<Seq<char>, V>
    decreases pairs.len(),
{
    if pairs.len() == 0 {
        Map::empty()
    } else {
        pairs_to_map(pairs.drop_last()).insert(pairs.last().0, pairs.last().1)
    }
}

/// No name occurs twice.
pub open spec fn names_are_distinct<V>(pairs: Seq<(Seq<char>, V)>) -> bool {
    forall|i: int, j: int| 0 <= i < j < pairs.len() ==> #[trigger] pairs[i].0 != #[trigger] pairs[j].0
}

/// The pairs of executable entries, names taken by their characters.
pub open spec fn entry_pairs<V>(entries: Seq<(String, V)>) -> Seq<(Seq<char>, V)> {
    entries.map_values(|entry: (String, V)| (entry.0@, entry.1))
}

/// A map from names to values. Each name occurs once.
pub struct NameMap<V> {
    entries: Vec<(String, V)>,
}

impl<V> View for NameMap<V> {
    type V = Map<Seq<char>, V>;

    open spec fn view(&self) -> Map<Seq<char>, V> {
        pairs_to_map(self.walk())
    }
}

proof fn lemma_map_holds_each_pair<V>(pairs: Seq<(Seq<char>, V)>)
    requires
        names_are_distinct(pairs),
    ensures
        forall|i: int| #![trigger pairs[i]]
            0 <= i < pairs.len() ==> pairs_to_map(pairs).contains_pair(pairs[i].0, pairs[i].1),
    decreases pairs.len(),
{
    if pairs.len() > 0 {
        let before = pairs.drop_last();
        assert(forall|i: int| 0 <= i < before.len() ==> before[i] == pairs[i]);
        lemma_map_holds_each_pair(before);
        assert forall|i: int| #![trigger pairs[i]]
            0 <= i < pairs.len() implies pairs_to_map(pairs).contains_pair(
            pairs[i].0,
            pairs[i].1,
        ) by {
            if i < before.len() {
                assert(before[i] == pairs[i]);
                assert(pairs[i].0 != pairs[pairs.len() - 1].0);
            }
        }
    }
}

proof fn lemma_map_names_come_from_pairs<V>(pairs: Seq<(Seq<char>, V)>, name: Seq<char>)
    requires
        forall|i: int| 0 <= i < pairs.len() ==> (#[trigger] pairs[i]).0 != name,
    ensures
        !pairs_to_map(pairs).contains_key(name),
    decreases pairs.len(),
{
    if pairs.len() > 0 {
        let before = pairs.drop_last();
        assert(forall|i: int| 0 <= i < before.len() ==> before[i] == pairs[i]);
        lemma_map_names_come_from_pairs(before, name);
        assert(pairs[pairs.len() - 1].0 != name);
    }
}

proof fn lemma_update_is_insert<V>(pairs: Seq<(Seq<char>, V)>, at: int, value: V)
    requires
        names_are_distinct(pairs),
        0 <= at < pairs.len(),
    ensures
        pairs_to_map(pairs.update(at, (pairs[at].0, value))) == pairs_to_map(pairs).insert(
            pairs[at].0,
            value,
        ),
    decreases pairs.len(),
{
    let before = pairs.drop_last();
    let updated = pairs.update(at, (pairs[at].0, value));
    if at < before.len() {
        assert(names_are_distinct(before)) by {
            assert(forall|i: int| 0 <= i < before.len() ==> before[i] == pairs[i]);
        }
        lemma_update_is_insert(before, at, value);
        assert(updated.drop_last() =~= before.update(at, (before[at].0, value)));
        assert(pairs[at].0 != pairs[pairs.len() - 1].0);
    } else {
        assert(updated.drop_last() =~= before);
    }
    assert(pairs_to_map(updated) =~= pairs_to_map(pairs).insert(pairs[at].0, value));
}

impl<V> NameMap<V> {
    /// The entries in the order in which they are walked.
    pub closed spec fn walk(&self) -> Seq<(Seq<char>, V)> {
        entry_pairs(self.entries@)
    }

    #[verifier::type_invariant]
    spec fn inv(self) -> bool {
        names_are_distinct(self.walk())
    }

    /// A map without entries.
    pub fn new() -> (map: Self)
        ensures
            map@ == Map::<Seq<char>, V>::empty(),
            map.walk() == Seq::<(Seq<char>, V)>::empty(),
    {
        let map = NameMap { entries: Vec::new() };
        assert(map.walk() =~= Seq::<(Seq<char>, V)>::empty());
        map
    }

    /// The map that a list of pairs describes; of two pairs with one name the
    /// later counts. A list of distinct names is walked in its own order.
    pub fn from_entries(entries: Vec<(String, V)>) -> (map: Self)
        ensures
            map@ == pairs_to_map(entry_pairs(entries@)),
            names_are_distinct(map.walk()),
            names_are_distinct(entry_pairs(entries@)) ==> map.walk() == entry_pairs(entries@),
    {
        let mut map = NameMap::new();
        let ghost all = entries@;
        proof {
            assert(entry_pairs(all.take(0)) =~= Seq::<(Seq<char>, V)>::empty());
        }
        for entry in walked: entries
            invariant
                walked.seq() == all,
                map@ == pairs_to_map(entry_pairs(all.take(walked.index()))),
                names_are_distinct(entry_pairs(all)) ==> map.walk() == entry_pairs(
                    all.take(walked.index()),
                ),
        {
            proof {
                let grown = entry_pairs(all.take(walked.index() + 1));
                assert(grown.drop_last() =~= entry_pairs(all.take(walked.index())));
                assert(grown.last() == (entry.0@, entry.1));
            }
            let ghost before = map.walk();
            map.insert(entry.0, entry.1);
            proof {
                if names_are_distinct(entry_pairs(all)) {
                    let here = walked.index();
                    assert(entry_pairs(all)[here].0 == entry.0@);
                    assert forall|at: int| 0 <= at < before.len() implies (
                    #[trigger] before[at]).0 != entry.0@ by {
                        assert(before[at] == entry_pairs(all)[at]);
                    }
                    assert(map.walk() =~= entry_pairs(all.take(here + 1)));
                }
            }
        }
        proof {
            assert(all.take(all.len() as int) =~= all);
            use_type_invariant(&map);
        }
        map
    }

    /// How many entries the map has. The walk shows each name once.
    pub fn len(&self) -> (count: usize)
        ensures
            count == self.walk().len(),
            names_are_distinct(self.walk()),
    {
        proof {
            use_type_invariant(self);
        }
        self.entries.len()
    }

    /// The entry at a place of the walk.
    pub fn entry(&self, at: usize) -> (entry: (&String, &V))
        requires
            at < self.walk().len(),
        ensures
            (entry.0@, *entry.1) == self.walk()[at as int],
    {
        let entry = &self.entries[at];
        (&entry.0, &entry.1)
    }

    /// Where `name` stands in the walk.
    fn position(&self, name: &str) -> (at: Option<usize>)
        ensures
            match at {
                Some(at) => at < self.walk().len() && self.walk()[at as int].0 == name@,
                None => forall|i: int|
                    0 <= i < self.walk().len() ==> (#[trigger] self.walk()[i]).0 != name@,
            },
    {
        let wanted = name.to_owned();
        let mut at: usize = 0;
        while at < self.entries.len()
            invariant
                at <= self.entries.len(),
                wanted@ == name@,
                forall|i: int| 0 <= i < at ==> (#[trigger] self.walk()[i]).0 != name@,
            decreases self.entries.len() - at,
        {
            if self.entries[at].0 == wanted {
                return Some(at);
            }
            at = at + 1;
        }
        None
    }

    /// The value under `name`.
    pub fn get(&self, name: &str) -> (value: Option<&V>)
        ensures
            match value {
                Some(value) => self@.contains_pair(name@, *value),
                None => !self@.contains_key(name@),
            },
    {
        proof {
            use_type_invariant(self);
            lemma_map_holds_each_pair(self.walk());
        }
        match self.position(name) {
            Some(at) => {
                assert(self.walk()[at as int].1 == self.entries@[at as int].1);
                Some(&self.entries[at].1)
            },
            None => {
                proof {
                    lemma_map_names_come_from_pairs(self.walk(), name@);
                }
                None
            },
        }
    }

    /// Puts `value` under `name`, in place of what was there. A new name is
    /// walked last.
    pub fn insert(&mut self, name: String, value: V)
        ensures
            final(self)@ == old(self)@.insert(name@, value),
            (exists|at: int|
                0 <= at < old(self).walk().len() && (#[trigger] old(self).walk()[at]).0 == name@
                    && final(self).walk() == old(self).walk().update(at, (name@, value))) || (
            final(self).walk() == old(self).walk().push((name@, value)) && !old(
                self,
            )@.contains_key(name@)),
    {
        proof {
            use_type_invariant(&*self);
        }
        let found = self.position(name.as_str());
        let mut entries: Vec<(String, V)> = Vec::new();
        let ghost before = self.walk();
        std::mem::swap(&mut entries, &mut self.entries);
        match found {
            Some(at) => {
                entries.set(at, (name, value));
                proof {
                    assert(before[at as int].0 == name@);
                    assert(entry_pairs(entries@) =~= before.update(at as int, (name@, value)));
                    lemma_update_is_insert(before, at as int, value);
                }
            },
            None => {
                entries.push((name, value));
                proof {
                    lemma_map_names_come_from_pairs(before, name@);
                    assert(entry_pairs(entries@) =~= before.push((name@, value)));
                    assert(entry_pairs(entries@).drop_last() =~= before);
                }
            },
        }
        self.entries = entries;
    }
}

proof fn lemma_last_pair_counts<V>(pairs: Seq<(Seq<char>, V)>, at: int)
    requires
        0 <= at < pairs.len(),
        forall|i: int| at < i < pairs.len() ==> (#[trigger] pairs[i]).0 != pairs[at].0,
    ensures
        pairs_to_map(pairs).contains_pair(pairs[at].0, pairs[at].1),
    decreases pairs.len(),
{
    let before = pairs.drop_last();
    assert(forall|i: int| 0 <= i < before.len() ==> before[i] == pairs[i]);
    if at < before.len() {
        lemma_last_pair_counts(before, at);
        assert(pairs[pairs.len() - 1].0 != pairs[at].0);
    }
}

/// A map made from a list of pairs has under a name what the last pair with
/// that name holds, and nothing under a name that no pair has.
pub proof fn law_last_entry_of_a_name_counts<V>(
    entries: Vec<(String, V)>,
    map: NameMap<V>,
    name: &str,
    value: Option<&V>,
)
    requires
        call_ensures(NameMap::<V>::from_entries, (entries,), map),
        call_ensures(NameMap::<V>::get, (&map, name), value),
    ensures
        forall|at: int|
            0 <= at < entries@.len() && (#[trigger] entries@[at]).0@ == name@ && (forall|later: int|
                at < later < entries@.len() ==> (#[trigger] entries@[later]).0@ != name@) ==> value
                == Some(&entries@[at].1),
        value is None <==> forall|at: int|
            0 <= at < entries@.len() ==> (#[trigger] entries@[at]).0@ != name@,
{
    let pairs = entry_pairs(entries@);
    assert(forall|i: int|
        0 <= i < pairs.len() ==> #[trigger] pairs[i] == (entries@[i].0@, entries@[i].1));
    assert forall|at: int|
        0 <= at < entries@.len() && (#[trigger] entries@[at]).0@ == name@ && (forall|later: int|
            at < later < entries@.len() ==> (#[trigger] entries@[later]).0@
                != name@) implies value == Some(&entries@[at].1) by {
        assert(pairs[at].0 == name@);
        assert forall|i: int| at < i < pairs.len() implies (#[trigger] pairs[i]).0
            != pairs[at].0 by {
            assert(entries@[i].0@ != name@);
        }
        lemma_last_pair_counts(pairs, at);
    }
    if forall|at: int| 0 <= at < entries@.len() ==> (#[trigger] entries@[at]).0@ != name@ {
        assert forall|i: int| 0 <= i < pairs.len() implies (#[trigger] pairs[i]).0 != name@ by {
            assert(entries@[i].0@ != name@);
        }
        lemma_map_names_come_from_pairs(pairs, name@);
    } else {
        lemma_named_pairs_are_in_the_map(pairs, name@);
        let at = choose|at: int|
            0 <= at < entries@.len() && (#[trigger] entries@[at]).0@ == name@;
        assert(pairs[at].0 == name@);
    }
}

proof fn lemma_named_pairs_are_in_the_map<V>(pairs: Seq<(Seq<char>, V)>, name: Seq<char>)
    ensures
        (exists|i: int| 0 <= i < pairs.len() && (#[trigger] pairs[i]).0 == name)
            ==> pairs_to_map(pairs).contains_key(name),
    decreases pairs.len(),
{
    if pairs.len() > 0 {
        let before = pairs.drop_last();
        lemma_named_pairs_are_in_the_map(before, name);
        if exists|i: int| 0 <= i < pairs.len() && (#[trigger] pairs[i]).0 == name {
            let i = choose|i: int| 0 <= i < pairs.len() && (#[trigger] pairs[i]).0 == name;
            if i < before.len() {
                assert(before[i].0 == name);
            }
        }
    }
}

proof fn lemma_map_has_a_name_for_each_pair<V>(pairs: Seq<(Seq<char>, V)>)
    requires
        names_are_distinct(pairs),
    ensures
        pairs_to_map(pairs).dom().finite(),
        pairs_to_map(pairs).dom().len() == pairs.len(),
    decreases pairs.len(),
{
    if pairs.len() > 0 {
        let before = pairs.drop_last();
        assert(forall|i: int| 0 <= i < before.len() ==> before[i] == pairs[i]);
        lemma_map_has_a_name_for_each_pair(before);
        assert forall|i: int| 0 <= i < before.len() implies (#[trigger] before[i]).0
            != pairs.last().0 by {
            assert(pairs[i].0 != pairs[pairs.len() - 1].0);
        }
        lemma_map_names_come_from_pairs(before, pairs.last().0);
        assert(pairs_to_map(pairs).dom() =~= pairs_to_map(before).dom().insert(pairs.last().0));
    }
}

/// Walking a map shows each of its names once, with its value: there are as
/// many places as names, what stands at a place is found under its name, and
/// different places have different names.
pub proof fn law_walk_shows_each_name_once<V>(
    map: NameMap<V>,
    count: usize,
    i: usize,
    j: usize,
    entry: (&String, &V),
    other: (&String, &V),
    name: &str,
    value: Option<&V>,
)
    requires
        call_ensures(NameMap::<V>::len, (&map,), count),
        i < count,
        j < count,
        call_ensures(NameMap::<V>::entry, (&map, i), entry),
        call_ensures(NameMap::<V>::entry, (&map, j), other),
        call_ensures(NameMap::<V>::get, (&map, name), value),
    ensures
        count == map@.dom().len(),
        call_requires(NameMap::<V>::entry, (&map, i)),
        i != j ==> entry.0@ != other.0@,
        name@ == entry.0@ ==> value == Some(entry.1),
{
    let walk = map.walk();
    lemma_map_has_a_name_for_each_pair(walk);
    lemma_map_holds_each_pair(walk);
    assert(walk[i as int] == (entry.0@, *entry.1));
    assert(walk[j as int] == (other.0@, *other.1));
}

/// A name that a map has a value under is met on the walk.
pub proof fn law_each_name_is_walked<V>(
    map: NameMap<V>,
    count: usize,
    name: &str,
    value: &V,
)
    requires
        call_ensures(NameMap::<V>::len, (&map,), count),
        call_ensures(NameMap::<V>::get, (&map, name), Some(value)),
    ensures
        exists|at: int| 0 <= at < count && #[trigger] map.walk()[at] == (name@, *value),
{
    let walk = map.walk();
    lemma_map_holds_each_pair(walk);
    if forall|i: int| 0 <= i < walk.len() ==> (#[trigger] walk[i]).0 != name@ {
        lemma_map_names_come_from_pairs(walk, name@);
    }
    let at = choose|i: int| 0 <= i < walk.len() && (#[trigger] walk[i]).0 == name@;
    assert(walk[at] == (name@, *value));
}

/// Entries with distinct names are walked as they were listed, and an empty
/// map has no place and no name.
pub proof fn law_listed_entries_keep_their_order<V>(
    entries: Vec<(String, V)>,
    map: NameMap<V>,
    count: usize,
    at: usize,
    entry: (&String, &V),
    empty: NameMap<V>,
    none: usize,
    name: &str,
    value: Option<&V>,
)
    requires
        forall|i: int, j: int|
            0 <= i < j < entries@.len() ==> (#[trigger] entries@[i]).0@ != (
            #[trigger] entries@[j]).0@,
        call_ensures(NameMap::<V>::from_entries, (entries,), map),
        call_ensures(NameMap::<V>::len, (&map,), count),
        at < entries@.len(),
        call_ensures(NameMap::<V>::entry, (&map, at), entry),
        call_ensures(NameMap::<V>::new, (), empty),
        call_ensures(NameMap::<V>::len, (&empty,), none),
        call_ensures(NameMap::<V>::get, (&empty, name), value),
    ensures
        count == entries@.len(),
        entry.0@ == entries@[at as int].0@,
        *entry.1 == entries@[at as int].1,
        none == 0,
        value is None,
{
    let pairs = entry_pairs(entries@);
    assert(forall|i: int|
        0 <= i < pairs.len() ==> #[trigger] pairs[i] == (entries@[i].0@, entries@[i].1));
    assert(names_are_distinct(pairs)) by {
        assert forall|i: int, j: int| 0 <= i < j < pairs.len() implies #[trigger] pairs[i].0
            != #[trigger] pairs[j].0 by {
            assert(entries@[i].0@ != entries@[j].0@);
        }
    }
}

} // verus!
