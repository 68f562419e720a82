//! A map from texts to values.
//!
//! The maps of the connector are small: the headers of one request, the
//! requests that run at one time. Their entries stand in a vector, no name
//! twice.

use crate::text::same_text;
use vstd::prelude::*;

verus! {

/// A map from texts to values.
pub struct TextMap<V> {
    entries: Vec<(String, V)>,
}

/// The value of the first entry of that name.
pub closed spec fn lookup<V>(entries: Seq<(String, V)>, name: Seq<char>) -> Option<V>
    decreases entries.len(),
{
    if entries.len() == 0 {
        None
    } else if entries[0].0@ == name {
        Some(entries[0].1)
    } else {
        lookup(entries.drop_first(), name)
    }
}

/// The names of entries.
spec fn names<V>(entries: Seq<(String, V)>) -> Seq<Seq<char>> {
    entries.map_values(|entry: (String, V)| entry.0@)
}

impl<V> View for TextMap<V> {
    type V = Map<Seq<char>, V>;

    closed spec fn view(&self) -> Map<Seq<char>, V> {
        Map::new(
            |name: Seq<char>| lookup(self.entries@, name) is Some,
            |name: Seq<char>| lookup(self.entries@, name)->0,
        )
    }
}

/// [`lookup`] finds the first entry of a name.
proof fn lookup_first<V>(entries: Seq<(String, V)>, name: Seq<char>, i: int)
    requires
        0 <= i <= entries.len(),
        forall|j: int| 0 <= j < i ==> (#[trigger] entries[j]).0@ != name,
    ensures
        i == entries.len() ==> lookup(entries, name) is None,
        i < entries.len() && entries[i].0@ == name ==> lookup(entries, name) == Some(entries[i].1),
    decreases entries.len(),
{
    if i > 0 {
        let rest = entries.drop_first();
        assert(entries[0].0@ != name);
        assert forall|j: int| 0 <= j < i - 1 implies (#[trigger] rest[j]).0@ != name by {
            assert(rest[j] == entries[j + 1]);
        }
        lookup_first(rest, name, i - 1);
        if i < entries.len() {
            assert(rest[i - 1] == entries[i]);
        }
    }
}

/// What [`lookup`] finds comes from an entry of that name.
proof fn lookup_found<V>(entries: Seq<(String, V)>, name: Seq<char>) -> (i: int)
    ensures
        match lookup(entries, name) {
            Some(value) => {
                &&& 0 <= i < entries.len()
                &&& entries[i].0@ == name
                &&& entries[i].1 == value
                &&& forall|j: int| 0 <= j < i ==> (#[trigger] entries[j]).0@ != name
            },
            None => forall|j: int| 0 <= j < entries.len() ==> (#[trigger] entries[j]).0@ != name,
        },
    decreases entries.len(),
{
    if entries.len() == 0 {
        0
    } else if entries[0].0@ == name {
        0
    } else {
        let rest = entries.drop_first();
        let i = lookup_found(rest, name);
        assert forall|j: int| 0 < j < entries.len() implies #[trigger] entries[j] == rest[j
            - 1] by {}
        i + 1
    }
}

impl<V> TextMap<V> {
    /// No name stands twice.
    pub closed spec fn wf(&self) -> bool {
        names(self.entries@).no_duplicates()
    }

    /// A map without entries.
    pub fn new() -> (map: Self)
        ensures
            map.wf(),
            map@ == Map::<Seq<char>, V>::empty(),
    {
        let map = TextMap { entries: Vec::new() };
        assert(map@ =~= Map::empty());
        map
    }

    /// Where the entry of that name stands.
    fn position(&self, name: &str) -> (at: Option<usize>)
        ensures
            match at {
                Some(i) => {
                    &&& i < self.entries@.len()
                    &&& self.entries@[i as int].0@ == name@
                    &&& forall|j: int| 0 <= j < i ==> (#[trigger] self.entries@[j]).0@ != name@
                },
                None => forall|j: int|
                    0 <= j < self.entries@.len() ==> (#[trigger] self.entries@[j]).0@ != name@,
            },
    {
        for i in 0..self.entries.len()
            invariant
                forall|j: int| 0 <= j < i ==> (#[trigger] self.entries@[j]).0@ != name@,
        {
            if same_text(self.entries[i].0.as_str(), name) {
                return Some(i);
            }
        }
        None
    }

    /// The value of that name.
    pub fn get(&self, name: &str) -> (value: Option<&V>)
        ensures
            match value {
                Some(value) => self@.dom().contains(name@) && self@[name@] == *value,
                None => !self@.dom().contains(name@),
            },
    {
        match self.position(name) {
            Some(i) => {
                proof {
                    lookup_first(self.entries@, name@, i as int);
                }
                Some(&self.entries[i].1)
            },
            None => {
                proof {
                    lookup_first(self.entries@, name@, self.entries@.len() as int);
                }
                None
            },
        }
    }

    /// Whether there is an entry of that name.
    pub fn contains_key(&self, name: &str) -> (r: bool)
        ensures
            r == self@.dom().contains(name@),
    {
        self.get(name).is_some()
    }

    /// Sets the value of a name.
    pub fn insert(&mut self, name: String, value: V)
        requires
            old(self).wf(),
        ensures
            final(self).wf(),
            final(self)@ == old(self)@.insert(name@, value),
    {
        let ghost before = self.entries@;
        match self.position(name.as_str()) {
            Some(i) => {
                proof {
                    lookup_replaced(before, i as int, name, value);
                }
                self.entries.set(i, (name, value));
                assert(names(self.entries@) =~= names(before));
            },
            None => {
                proof {
                    lookup_added(before, name, value);
                }
                self.entries.push((name, value));
                assert(names(self.entries@) =~= names(before).push(name@));
                assert forall|k: int| 0 <= k < before.len() implies names(before)[k] != name@ by {
                    assert(before[k].0@ != name@);
                }
            },
        }
        assert(self@ =~= old(self)@.insert(name@, value));
    }

    /// Takes the entry of a name out.
    pub fn remove(&mut self, name: &str) -> (value: Option<V>)
        requires
            old(self).wf(),
        ensures
            final(self).wf(),
            final(self)@ == old(self)@.remove(name@),
            match value {
                Some(value) => old(self)@.dom().contains(name@) && old(self)@[name@] == value,
                None => !old(self)@.dom().contains(name@),
            },
    {
        let ghost before = self.entries@;
        match self.position(name) {
            Some(i) => {
                proof {
                    lookup_first(before, name@, i as int);
                    lookup_removed(before, i as int);
                }
                let (_, value) = self.entries.remove(i);
                assert(names(self.entries@) =~= names(before).remove(i as int));
                assert(self@ =~= old(self)@.remove(name@));
                Some(value)
            },
            None => {
                proof {
                    lookup_first(before, name@, before.len() as int);
                }
                assert(self@ =~= old(self)@.remove(name@));
                None
            },
        }
    }

    /// The names, in the order in which they were added.
    pub closed spec fn keys(&self) -> Seq<Seq<char>> {
        names(self.entries@)
    }

    /// The names are those of the map, each once.
    proof fn keys_are_the_domain(&self)
        requires
            self.wf(),
        ensures
            self.keys().no_duplicates(),
            self.keys().to_set() == self@.dom(),
            self@.dom().finite(),
            self@.dom().len() == self.keys().len(),
    {
        let keys = self.keys();
        assert(self@.dom() =~= keys.to_set()) by {
            assert forall|key: Seq<char>| #[trigger] self@.dom().contains(key)
                == keys.to_set().contains(key) by {
                let i = lookup_found(self.entries@, key);
                if lookup(self.entries@, key) is Some {
                    assert(keys[i] == key);
                } else if keys.contains(key) {
                    let k = choose|k: int| 0 <= k < keys.len() && keys[k] == key;
                    assert(self.entries@[k].0@ == key);
                }
            }
        }
        keys.unique_seq_to_set();
    }

    /// How many entries there are.
    pub fn len(&self) -> (n: usize)
        requires
            self.wf(),
        ensures
            self@.dom().finite(),
            n == self@.dom().len(),
    {
        proof {
            self.keys_are_the_domain();
        }
        self.entries.len()
    }

    /// The values, one for each name.
    pub fn values(&self) -> (values: Vec<&V>)
        requires
            self.wf(),
        ensures
            self.keys().no_duplicates(),
            self.keys().to_set() == self@.dom(),
            values@.len() == self.keys().len(),
            forall|i: int|
                0 <= i < values@.len() ==> *(#[trigger] values@[i]) == self@[self.keys()[i]],
    {
        let mut values: Vec<&V> = Vec::new();
        for i in 0..self.entries.len()
            invariant
                self.wf(),
                values@.len() == i,
                forall|j: int|
                    0 <= j < i ==> *(#[trigger] values@[j]) == self@[self.keys()[j]],
        {
            proof {
                let keys = self.keys();
                let name = keys[i as int];
                assert forall|j: int| 0 <= j < i implies (#[trigger] self.entries@[j]).0@
                    != name by {
                    assert(keys[j] != keys[i as int]);
                }
                lookup_first(self.entries@, name, i as int);
            }
            values.push(&self.entries[i].1);
        }
        proof {
            self.keys_are_the_domain();
        }
        values
    }
}

/// What is found once the value of the first entry of a name is replaced.
proof fn lookup_replaced<V>(entries: Seq<(String, V)>, i: int, name: String, value: V)
    requires
        0 <= i < entries.len(),
        entries[i].0@ == name@,
        forall|j: int| 0 <= j < i ==> (#[trigger] entries[j]).0@ != name@,
    ensures
        forall|key: Seq<char>| #[trigger]
            lookup(entries.update(i, (name, value)), key) == if key == name@ {
                Some(value)
            } else {
                lookup(entries, key)
            },
{
    let now = entries.update(i, (name, value));
    assert forall|key: Seq<char>| #[trigger] lookup(now, key) == if key == name@ {
        Some(value)
    } else {
        lookup(entries, key)
    } by {
        if key == name@ {
            lookup_first(now, key, i);
        } else {
            let k = lookup_found(entries, key);
            if lookup(entries, key) is Some {
                lookup_first(now, key, k);
            } else {
                lookup_first(now, key, now.len() as int);
            }
        }
    }
}

/// What is found once an entry of a new name is added.
proof fn lookup_added<V>(entries: Seq<(String, V)>, name: String, value: V)
    requires
        forall|j: int| 0 <= j < entries.len() ==> (#[trigger] entries[j]).0@ != name@,
    ensures
        forall|key: Seq<char>| #[trigger]
            lookup(entries.push((name, value)), key) == if key == name@ {
                Some(value)
            } else {
                lookup(entries, key)
            },
{
    let now = entries.push((name, value));
    assert forall|key: Seq<char>| #[trigger] lookup(now, key) == if key == name@ {
        Some(value)
    } else {
        lookup(entries, key)
    } by {
        if key == name@ {
            lookup_first(now, key, entries.len() as int);
        } else {
            let k = lookup_found(entries, key);
            if lookup(entries, key) is Some {
                lookup_first(now, key, k);
            } else {
                lookup_first(now, key, now.len() as int);
            }
        }
    }
}

/// What is found once an entry is taken out.
proof fn lookup_removed<V>(entries: Seq<(String, V)>, i: int)
    requires
        0 <= i < entries.len(),
        names(entries).no_duplicates(),
    ensures
        forall|key: Seq<char>| #[trigger]
            lookup(entries.remove(i), key) == if key == entries[i].0@ {
                None
            } else {
                lookup(entries, key)
            },
{
    let now = entries.remove(i);
    let name = entries[i].0@;
    assert forall|j: int| 0 <= j < now.len() implies (#[trigger] now[j]).0@ != name by {
        let k = if j < i {
            j
        } else {
            j + 1
        };
        assert(now[j] == entries[k]);
        assert(names(entries)[k] != names(entries)[i]);
    }
    assert forall|key: Seq<char>| #[trigger] lookup(now, key) == if key == name {
        None
    } else {
        lookup(entries, key)
    } by {
        if key == name {
            lookup_first(now, key, now.len() as int);
        } else {
            let k = lookup_found(entries, key);
            if lookup(entries, key) is Some {
                let m = if k < i {
                    k
                } else {
                    k - 1
                };
                assert(now[m] == entries[k]);
                assert forall|j: int| 0 <= j < m implies (#[trigger] now[j]).0@ != key by {
                    assert(now[j] == entries[if j < i { j } else { j + 1 }]);
                }
                lookup_first(now, key, m);
            } else {
                assert forall|j: int| 0 <= j < now.len() implies (#[trigger] now[j]).0@ != key by {
                    assert(now[j] == entries[if j < i { j } else { j + 1 }]);
                }
                lookup_first(now, key, now.len() as int);
            }
        }
    }
}

} // verus!
