//! The registry of named installation paths: a mapping from a name to a
//! path, in which a name stands at most once.

use vstd::prelude::*;
use vstd::string::*;

verus! {

/// The texts of a sequence of (name, path) pairs.
pub open spec fn pair_texts(pairs: Seq<(String, String)>) -> Seq<(Seq<char>, Seq<char>)> {
    Seq::new(pairs.len(), |i: int| (pairs[i].0@, pairs[i].1@))
}

/// The mapping that results from adding the pairs one after another to an
/// empty one: of two pairs with the same name, the later one stays.
pub open spec fn map_of(pairs: Seq<(Seq<char>, Seq<char>)>) -> Map<Seq<char>, Seq<char>>
    decreases pairs.len(),
{
    if pairs.len() == 0 {
        Map::empty()
    } else {
        map_of(pairs.drop_last()).insert(pairs.last().0, pairs.last().1)
    }
}

/// Some pair has the name.
pub open spec fn has_name(pairs: Seq<(Seq<char>, Seq<char>)>, name: Seq<char>) -> bool {
    exists|i: int| 0 <= i < pairs.len() && (#[trigger] pairs[i]).0 == name
}

/// No two pairs have the same name.
pub open spec fn distinct_names(pairs: Seq<(Seq<char>, Seq<char>)>) -> bool {
    forall|i: int, j: int|
        0 <= i < j < pairs.len() ==> (#[trigger] pairs[i]).0 != (#[trigger] pairs[j]).0
}

/// The pairs list the mapping: each name of the mapping stands in exactly one
/// pair, with its path, and no pair stands for anything else.
pub open spec fn lists(pairs: Seq<(Seq<char>, Seq<char>)>, entries: Map<Seq<char>, Seq<char>>) -> bool {
    &&& distinct_names(pairs)
    &&& forall|i: int|
        0 <= i < pairs.len() ==> entries.contains_pair((#[trigger] pairs[i]).0, pairs[i].1)
    &&& forall|name: Seq<char>| #[trigger] entries.contains_key(name) ==> has_name(pairs, name)
}

/// The path that a mapping holds for a name, if any.
pub open spec fn lookup(entries: Map<Seq<char>, Seq<char>>, name: Seq<char>) -> Option<Seq<char>> {
    if entries.contains_key(name) {
        Some(entries[name])
    } else {
        None
    }
}

/// The text of a path that was looked up.
pub open spec fn found_text(found: Option<&String>) -> Option<Seq<char>> {
    match found {
        Some(path) => Some(path@),
        None => None,
    }
}

/// The names of `map_of` are the names of the pairs.
pub proof fn lemma_map_of_names(pairs: Seq<(Seq<char>, Seq<char>)>, name: Seq<char>)
    ensures
        map_of(pairs).contains_key(name) <==> has_name(pairs, name),
    decreases pairs.len(),
{
    if pairs.len() > 0 {
        let front = pairs.drop_last();
        lemma_map_of_names(front, name);
        if has_name(front, name) {
            let i = choose|i: int| 0 <= i < front.len() && (#[trigger] front[i]).0 == name;
            assert(pairs[i].0 == name);
        }
        if has_name(pairs, name) {
            let i = choose|i: int| 0 <= i < pairs.len() && (#[trigger] pairs[i]).0 == name;
            if i < front.len() {
                assert(front[i].0 == name);
            }
        }
        if pairs.last().0 == name {
            assert(pairs[pairs.len() - 1].0 == name);
        }
    }
}

/// Where no name stands twice, `map_of` holds each pair as it is.
pub proof fn lemma_map_of_pair(pairs: Seq<(Seq<char>, Seq<char>)>, i: int)
    requires
        distinct_names(pairs),
        0 <= i < pairs.len(),
    ensures
        map_of(pairs).contains_pair(pairs[i].0, pairs[i].1),
    decreases pairs.len(),
{
    let front = pairs.drop_last();
    if i < pairs.len() - 1 {
        assert forall|a: int, b: int| 0 <= a < b < front.len() implies (#[trigger] front[a]).0 != (
        #[trigger] front[b]).0 by {
            assert(front[a] == pairs[a] && front[b] == pairs[b]);
        }
        lemma_map_of_pair(front, i);
        assert(front[i] == pairs[i]);
        assert(pairs[i].0 != pairs[pairs.len() - 1].0);
    }
}

/// `map_of` has finitely many names; where no name stands twice, as many as
/// there are pairs.
pub proof fn lemma_map_of_len(pairs: Seq<(Seq<char>, Seq<char>)>)
    ensures
        map_of(pairs).dom().finite(),
        distinct_names(pairs) ==> map_of(pairs).len() == pairs.len(),
    decreases pairs.len(),
{
    if pairs.len() > 0 {
        let front = pairs.drop_last();
        lemma_map_of_len(front);
        if distinct_names(pairs) {
            assert forall|a: int, b: int| 0 <= a < b < front.len() implies (#[trigger] front[a]).0
                != (#[trigger] front[b]).0 by {
                assert(front[a] == pairs[a] && front[b] == pairs[b]);
            }
            lemma_map_of_names(front, pairs.last().0);
            if has_name(front, pairs.last().0) {
                let i = choose|i: int|
                    0 <= i < front.len() && (#[trigger] front[i]).0 == pairs.last().0;
                assert(front[i] == pairs[i]);
                assert(pairs[i].0 != pairs[pairs.len() - 1].0);
            }
        }
    }
}

/// A listing of a mapping, added pair by pair to an empty mapping, gives the
/// mapping back.
pub proof fn lemma_listing_round_trip(
    pairs: Seq<(Seq<char>, Seq<char>)>,
    entries: Map<Seq<char>, Seq<char>>,
)
    requires
        lists(pairs, entries),
    ensures
        map_of(pairs) == entries,
{
    let built = map_of(pairs);
    assert forall|name: Seq<char>| built.contains_key(name) <==> entries.contains_key(
        name,
    ) by {
        lemma_map_of_names(pairs, name);
        if has_name(pairs, name) {
            let i = choose|i: int| 0 <= i < pairs.len() && (#[trigger] pairs[i]).0 == name;
            assert(entries.contains_pair(pairs[i].0, pairs[i].1));
        }
    }
    assert forall|name: Seq<char>| #[trigger] built.contains_key(name) implies built[name]
        == entries[name] by {
        lemma_map_of_names(pairs, name);
        let i = choose|i: int| 0 <= i < pairs.len() && (#[trigger] pairs[i]).0 == name;
        lemma_map_of_pair(pairs, i);
        assert(entries.contains_pair(pairs[i].0, pairs[i].1));
    }
    assert(built =~= entries);
}

/// Where no name stands twice, the pairs list what `map_of` makes of them.
pub proof fn lemma_distinct_lists(pairs: Seq<(Seq<char>, Seq<char>)>)
    requires
        distinct_names(pairs),
    ensures
        lists(pairs, map_of(pairs)),
{
    assert forall|i: int| 0 <= i < pairs.len() implies map_of(pairs).contains_pair(
        (#[trigger] pairs[i]).0,
        pairs[i].1,
    ) by {
        lemma_map_of_pair(pairs, i);
    }
    assert forall|name: Seq<char>| #[trigger] map_of(pairs).contains_key(name) implies has_name(
        pairs,
        name,
    ) by {
        lemma_map_of_names(pairs, name);
    }
}

/// Adding the same name and path a second time changes nothing, and every
/// listing of the result holds the name exactly once, with that path.
pub proof fn lemma_add_idempotent(
    entries: Map<Seq<char>, Seq<char>>,
    name: Seq<char>,
    path: Seq<char>,
    listing: Seq<(Seq<char>, Seq<char>)>,
)
    requires
        lists(listing, entries.insert(name, path).insert(name, path)),
    ensures
        entries.insert(name, path).insert(name, path) == entries.insert(name, path),
        exists|i: int|
            0 <= i < listing.len() && #[trigger] listing[i] == (name, path) && forall|j: int|
                0 <= j < listing.len() && (#[trigger] listing[j]).0 == name ==> j == i,
{
    let twice = entries.insert(name, path).insert(name, path);
    assert(twice =~= entries.insert(name, path));
    assert(twice.contains_key(name));
    let i = choose|i: int| 0 <= i < listing.len() && (#[trigger] listing[i]).0 == name;
    assert(twice.contains_pair(listing[i].0, listing[i].1));
    assert(listing[i] == (name, path));
    assert forall|j: int| 0 <= j < listing.len() && (#[trigger] listing[j]).0 == name implies j
        == i by {
        if j < i {
            assert(listing[j].0 != listing[i].0);
        } else if i < j {
            assert(listing[i].0 != listing[j].0);
        }
    }
}

/// Once a name is removed, looking it up finds nothing.
pub proof fn lemma_remove_then_lookup(entries: Map<Seq<char>, Seq<char>>, name: Seq<char>)
    ensures
        lookup(entries.remove(name), name) is None,
{
}

/// Both listings hold the same pairs.
pub open spec fn same_pairs(
    first: Seq<(Seq<char>, Seq<char>)>,
    second: Seq<(Seq<char>, Seq<char>)>,
) -> bool {
    forall|pair: (Seq<char>, Seq<char>)| first.contains(pair) <==> second.contains(pair)
}

/// Writing a registry out as a listing, reading that listing back in and
/// writing the result out again gives the pairs of the first listing.
pub proof fn lemma_listing_survives_reload(
    entries: Map<Seq<char>, Seq<char>>,
    first: Seq<(Seq<char>, Seq<char>)>,
    second: Seq<(Seq<char>, Seq<char>)>,
)
    requires
        lists(first, entries),
        lists(second, map_of(first)),
    ensures
        map_of(first) == entries,
        same_pairs(first, second),
{
    lemma_listing_round_trip(first, entries);
    assert forall|pair: (Seq<char>, Seq<char>)| first.contains(pair) <==> second.contains(
        pair,
    ) by {
        if first.contains(pair) {
            let i = choose|i: int| 0 <= i < first.len() && first[i] == pair;
            assert(entries.contains_pair(first[i].0, first[i].1));
            let j = choose|j: int| 0 <= j < second.len() && (#[trigger] second[j]).0 == pair.0;
            assert(entries.contains_pair(second[j].0, second[j].1));
            assert(second[j] == pair);
        }
        if second.contains(pair) {
            let j = choose|j: int| 0 <= j < second.len() && second[j] == pair;
            assert(entries.contains_pair(second[j].0, second[j].1));
            let i = choose|i: int| 0 <= i < first.len() && (#[trigger] first[i]).0 == pair.0;
            assert(entries.contains_pair(first[i].0, first[i].1));
            assert(first[i] == pair);
        }
    }
}

/// What was found where the registry is kept.
#[derive(Debug, PartialEq, Eq)]
pub enum Stored {
    /// Nothing is kept there yet.
    Absent,
    /// What is kept there does not read as a registry.
    Malformed,
    /// The pairs that are kept there.
    Entries(Vec<(String, String)>),
}

/// The mapping that a registry restored from `stored` holds.
pub open spec fn restored(stored: Stored) -> Map<Seq<char>, Seq<char>> {
    match stored {
        Stored::Absent => Map::empty(),
        Stored::Malformed => Map::empty(),
        Stored::Entries(pairs) => map_of(pair_texts(pairs@)),
    }
}

/// A registry of named installation paths.
pub struct Registry {
    entries: Vec<(String, String)>,
}

impl View for Registry {
    type V = Map<Seq<char>, Seq<char>>;

    /// The mapping from each name to its path.
    closed spec fn view(&self) -> Map<Seq<char>, Seq<char>> {
        map_of(pair_texts(self.entries@))
    }
}

impl Registry {
    #[verifier::type_invariant]
    spec fn names_are_distinct(&self) -> bool {
        distinct_names(pair_texts(self.entries@))
    }

    /// A registry without entries.
    pub fn new() -> (registry: Registry)
        ensures
            registry@ == Map::<Seq<char>, Seq<char>>::empty(),
    {
        let registry = Registry { entries: Vec::new() };
        proof {
            assert(pair_texts(registry.entries@) =~= Seq::empty());
        }
        registry
    }

    /// Where the name stands among the entries.
    fn position(&self, name: &str) -> (at: Option<usize>)
        ensures
            match at {
                Some(i) => i < self.entries.len() && self.entries@[i as int].0@ == name@,
                None => !has_name(pair_texts(self.entries@), name@),
            },
    {
        let key = name.to_owned();
        let mut i: usize = 0;
        while i < self.entries.len()
            invariant
                i <= self.entries.len(),
                key@ == name@,
                forall|k: int| 0 <= k < i ==> self.entries@[k].0@ != name@,
            decreases self.entries.len() - i,
        {
            if self.entries[i].0 == key {
                return Some(i);
            }
            i += 1;
        }
        proof {
            let pairs = pair_texts(self.entries@);
            if has_name(pairs, name@) {
                let k = choose|k: int| 0 <= k < pairs.len() && (#[trigger] pairs[k]).0 == name@;
                assert(self.entries@[k].0@ != name@);
            }
        }
        None
    }

    /// Sets the path of `name`, whether or not the name had one.
    pub fn add(&mut self, name: &str, path: &str)
        ensures
            final(self)@ == old(self)@.insert(name@, path@),
    {
        proof {
            use_type_invariant(&*self);
        }
        let ghost before = pair_texts(self.entries@);
        let at = self.position(name);
        let pair = (name.to_owned(), path.to_owned());
        let mut entries: Vec<(String, String)> = Vec::new();
        core::mem::swap(&mut self.entries, &mut entries);
        match at {
            Some(i) => {
                proof {
                    lemma_overwrite(before, i as int, path@);
                    assert(pair_texts(entries@.update(i as int, pair)) =~= before.update(
                        i as int,
                        (name@, path@),
                    ));
                }
                entries.set(i, pair);
            },
            None => {
                proof {
                    let after = before.push((name@, path@));
                    assert(pair_texts(entries@.push(pair)) =~= after);
                    assert(after.drop_last() =~= before);
                    assert forall|a: int, b: int| 0 <= a < b < after.len() implies (
                    #[trigger] after[a]).0 != (#[trigger] after[b]).0 by {
                        if b < before.len() {
                            assert(before[a].0 != before[b].0);
                        } else {
                            assert(before[a].0 != name@);
                        }
                    }
                }
                entries.push(pair);
            },
        }
        self.entries = entries;
    }

    /// Removes the entry of `name` and says whether there was one.
    pub fn remove(&mut self, name: &str) -> (existed: bool)
        ensures
            existed == old(self)@.contains_key(name@),
            final(self)@ == old(self)@.remove(name@),
    {
        proof {
            use_type_invariant(&*self);
        }
        let ghost before = pair_texts(self.entries@);
        proof {
            lemma_map_of_names(before, name@);
        }
        match self.position(name) {
            Some(i) => {
                proof {
                    lemma_take_out(before, i as int);
                    assert(pair_texts(self.entries@.remove(i as int)) =~= before.remove(i as int));
                    assert(before[i as int].0 == name@);
                }
                let mut entries: Vec<(String, String)> = Vec::new();
                core::mem::swap(&mut self.entries, &mut entries);
                entries.remove(i);
                self.entries = entries;
                true
            },
            None => {
                proof {
                    assert(map_of(before).remove(name@) =~= map_of(before));
                }
                false
            },
        }
    }

    /// The path of `name`, if the registry has one.
    pub fn get(&self, name: &str) -> (found: Option<&String>)
        ensures
            found_text(found) == lookup(self@, name@),
    {
        proof {
            use_type_invariant(self);
            lemma_map_of_names(pair_texts(self.entries@), name@);
        }
        match self.position(name) {
            Some(i) => {
                proof {
                    lemma_map_of_pair(pair_texts(self.entries@), i as int);
                }
                Some(&self.entries[i].1)
            },
            None => None,
        }
    }

    /// The number of entries.
    pub fn len(&self) -> (n: usize)
        ensures
            self@.dom().finite(),
            n == self@.len(),
    {
        proof {
            use_type_invariant(self);
            lemma_map_of_len(pair_texts(self.entries@));
        }
        self.entries.len()
    }

    /// Whether the registry has no entry.
    pub fn is_empty(&self) -> (empty: bool)
        ensures
            empty == (self@ == Map::<Seq<char>, Seq<char>>::empty()),
    {
        proof {
            use_type_invariant(self);
            let pairs = pair_texts(self.entries@);
            if pairs.len() > 0 {
                lemma_map_of_names(pairs, pairs[0].0);
            } else {
                assert(self@ =~= Map::<Seq<char>, Seq<char>>::empty());
            }
        }
        self.entries.len() == 0
    }

    /// The entries as (name, path) pairs, each name once, in no order that a
    /// caller may rely on.
    pub fn entries(&self) -> (out: Vec<(String, String)>)
        ensures
            lists(pair_texts(out@), self@),
    {
        proof {
            use_type_invariant(self);
            lemma_distinct_lists(pair_texts(self.entries@));
        }
        let mut out: Vec<(String, String)> = Vec::new();
        let mut i: usize = 0;
        while i < self.entries.len()
            invariant
                i <= self.entries.len(),
                out@.len() == i,
                forall|k: int|
                    0 <= k < i ==> (#[trigger] out@[k]).0@ == self.entries@[k].0@ && out@[k].1@
                        == self.entries@[k].1@,
            decreases self.entries.len() - i,
        {
            let name = self.entries[i].0.clone();
            let path = self.entries[i].1.clone();
            out.push((name, path));
            i += 1;
        }
        proof {
            assert(pair_texts(out@) =~= pair_texts(self.entries@));
        }
        out
    }

    /// The registry as it was found: empty where nothing was kept, and empty
    /// too where what was kept does not read as a registry.
    pub fn restore(stored: &Stored) -> (registry: Registry)
        ensures
            registry@ == restored(*stored),
    {
        match stored {
            Stored::Absent => Registry::new(),
            Stored::Malformed => Registry::new(),
            Stored::Entries(pairs) => Registry::from_entries(pairs),
        }
    }

    /// The registry that results from adding the pairs one after another to
    /// an empty one.
    pub fn from_entries(pairs: &Vec<(String, String)>) -> (registry: Registry)
        ensures
            registry@ == map_of(pair_texts(pairs@)),
    {
        let mut registry = Registry::new();
        let mut i: usize = 0;
        proof {
            assert(pair_texts(pairs@).take(0) =~= Seq::empty());
        }
        while i < pairs.len()
            invariant
                i <= pairs.len(),
                registry@ == map_of(pair_texts(pairs@).take(i as int)),
            decreases pairs.len() - i,
        {
            proof {
                assert(pair_texts(pairs@).take(i + 1).drop_last() =~= pair_texts(pairs@).take(
                    i as int,
                ));
            }
            registry.add(pairs[i].0.as_str(), pairs[i].1.as_str());
            i += 1;
        }
        proof {
            assert(pair_texts(pairs@).take(pairs.len() as int) =~= pair_texts(pairs@));
        }
        registry
    }
}

/// Overwriting the path of a pair sets the path of its name.
proof fn lemma_overwrite(pairs: Seq<(Seq<char>, Seq<char>)>, i: int, path: Seq<char>)
    requires
        distinct_names(pairs),
        0 <= i < pairs.len(),
    ensures
        distinct_names(pairs.update(i, (pairs[i].0, path))),
        map_of(pairs.update(i, (pairs[i].0, path))) == map_of(pairs).insert(pairs[i].0, path),
{
    let after = pairs.update(i, (pairs[i].0, path));
    assert forall|a: int, b: int| 0 <= a < b < after.len() implies (#[trigger] after[a]).0 != (
    #[trigger] after[b]).0 by {
        assert(pairs[a].0 != pairs[b].0);
    }
    let wanted = map_of(pairs).insert(pairs[i].0, path);
    assert forall|name: Seq<char>| map_of(after).contains_key(name) <==> wanted.contains_key(
        name,
    ) by {
        lemma_map_of_names(after, name);
        lemma_map_of_names(pairs, name);
        if has_name(after, name) {
            let k = choose|k: int| 0 <= k < after.len() && (#[trigger] after[k]).0 == name;
            assert(pairs[k].0 == name);
        }
        if has_name(pairs, name) {
            let k = choose|k: int| 0 <= k < pairs.len() && (#[trigger] pairs[k]).0 == name;
            assert(after[k].0 == name);
        }
        if name == pairs[i].0 {
            assert(after[i].0 == name);
        }
    }
    assert forall|name: Seq<char>| #[trigger] map_of(after).contains_key(name) implies map_of(
        after,
    )[name] == wanted[name] by {
        lemma_map_of_names(after, name);
        let k = choose|k: int| 0 <= k < after.len() && (#[trigger] after[k]).0 == name;
        lemma_map_of_pair(after, k);
        if k != i {
            lemma_map_of_pair(pairs, k);
            assert(after[k] == pairs[k]);
            if k < i {
                assert(pairs[k].0 != pairs[i].0);
            } else {
                assert(pairs[i].0 != pairs[k].0);
            }
        }
    }
    assert(map_of(after) =~= wanted);
}

/// Taking a pair out removes its name.
proof fn lemma_take_out(pairs: Seq<(Seq<char>, Seq<char>)>, i: int)
    requires
        distinct_names(pairs),
        0 <= i < pairs.len(),
    ensures
        distinct_names(pairs.remove(i)),
        map_of(pairs.remove(i)) == map_of(pairs).remove(pairs[i].0),
{
    let after = pairs.remove(i);
    assert forall|a: int, b: int| 0 <= a < b < after.len() implies (#[trigger] after[a]).0 != (
    #[trigger] after[b]).0 by {
        let a0 = if a < i { a } else { a + 1 };
        let b0 = if b < i { b } else { b + 1 };
        assert(after[a] == pairs[a0] && after[b] == pairs[b0]);
        assert(pairs[a0].0 != pairs[b0].0);
    }
    let wanted = map_of(pairs).remove(pairs[i].0);
    assert forall|name: Seq<char>| map_of(after).contains_key(name) <==> wanted.contains_key(
        name,
    ) by {
        lemma_map_of_names(after, name);
        lemma_map_of_names(pairs, name);
        if has_name(after, name) {
            let k = choose|k: int| 0 <= k < after.len() && (#[trigger] after[k]).0 == name;
            let k0 = if k < i { k } else { k + 1 };
            assert(after[k] == pairs[k0]);
            assert(pairs[k0].0 == name);
            if k0 < i {
                assert(pairs[k0].0 != pairs[i].0);
            } else {
                assert(pairs[i].0 != pairs[k0].0);
            }
        }
        if has_name(pairs, name) && name != pairs[i].0 {
            let k = choose|k: int| 0 <= k < pairs.len() && (#[trigger] pairs[k]).0 == name;
            let k1 = if k < i { k } else { k - 1 };
            assert(after[k1] == pairs[k]);
            assert(after[k1].0 == name);
        }
    }
    assert forall|name: Seq<char>| #[trigger] map_of(after).contains_key(name) implies map_of(
        after,
    )[name] == wanted[name] by {
        lemma_map_of_names(after, name);
        let k = choose|k: int| 0 <= k < after.len() && (#[trigger] after[k]).0 == name;
        let k0 = if k < i { k } else { k + 1 };
        assert(after[k] == pairs[k0]);
        lemma_map_of_pair(after, k);
        lemma_map_of_pair(pairs, k0);
    }
    assert(map_of(after) =~= wanted);
}

} // verus!
