//! A lookup table with text keys.
use crate::text::same_text;
use vstd::prelude::*;

verus! {

/// A table from text to values in which no key stands twice.
pub struct Table<V> {
    entries: Vec<(String, V)>,
}

impl<V> View for Table<V> {
    type V = Map<Seq<char>, V>;

    closed spec fn view(&self) -> Map<Seq<char>, V> {
        Map::new(
            |key: Seq<char>| exists|i: int| holds_key(self.entries@, key, i),
            |key: Seq<char>| self.entries@[choose|i: int| holds_key(self.entries@, key, i)].1,
        )
    }
}

/// The entry at `i` has the key `key`.
spec fn holds_key<V>(entries: Seq<(String, V)>, key: Seq<char>, i: int) -> bool {
    0 <= i < entries.len() && entries[i].0@ == key
}

/// No two entries share a key.
spec fn keys_differ<V>(entries: Seq<(String, V)>) -> bool {
    forall|i: int, j: int|
        0 <= i < entries.len() && 0 <= j < entries.len() && i != j ==> (#[trigger] entries[i]).0@
            != (#[trigger] entries[j]).0@
}

impl<V> Table<V> {
    #[verifier::type_invariant]
    spec fn well_formed(self) -> bool {
        keys_differ(self.entries@)
    }

    /// A table without entries.
    pub fn new() -> (table: Self)
        ensures
            table@ == Map::<Seq<char>, V>::empty(),
    {
        let table = Table { entries: Vec::new() };
        assert(table@ =~= Map::<Seq<char>, V>::empty());
        table
    }

    /// The position of `key` among the entries.
    fn position(&self, key: &str) -> (found: Option<usize>)
        ensures
            match found {
                Some(at) => holds_key(self.entries@, key@, at as int),
                None => forall|i: int| !holds_key(self.entries@, key@, i),
            },
    {
        let mut i: usize = 0;
        while i < self.entries.len()
            invariant
                i <= self.entries@.len(),
                forall|j: int| 0 <= j < i ==> !holds_key(self.entries@, key@, j),
            decreases self.entries@.len() - i,
        {
            if same_text(self.entries[i].0.as_str(), key) {
                return Some(i);
            }
            i = i + 1;
        }
        None
    }

    /// The value of `key`, where the table has one.
    pub fn get(&self, key: &str) -> (value: Option<&V>)
        ensures
            value is Some <==> self@.contains_key(key@),
            value matches Some(value) ==> *value == self@[key@],
    {
        match self.position(key) {
            Some(at) => {
                proof {
                    use_type_invariant(self);
                    assert(holds_key(self.entries@, key@, at as int));
                    let chosen = choose|i: int| holds_key(self.entries@, key@, i);
                    assert(chosen == at);
                }
                Some(&self.entries[at].1)
            },
            None => None,
        }
    }

    /// Whether the table has no entry.
    pub fn is_empty(&self) -> (empty: bool)
        ensures
            empty == (self@ == Map::<Seq<char>, V>::empty()),
    {
        proof {
            if self.entries@.len() == 0 {
                assert(self@ =~= Map::<Seq<char>, V>::empty());
            } else {
                assert(holds_key(self.entries@, self.entries@[0].0@, 0));
                assert(self@.contains_key(self.entries@[0].0@));
            }
        }
        self.entries.len() == 0
    }

    /// Gives `key` the value `value`, in place of an earlier value where there is one.
    pub fn insert(&mut self, key: String, value: V)
        ensures
            final(self)@ == old(self)@.insert(key@, value),
    {
        proof {
            use_type_invariant(&*self);
        }
        let ghost before = self.entries@;
        let ghost old_view = self@;
        let ghost key_text = key@;
        let at = self.position(key.as_str());
        let mut entries: Vec<(String, V)> = Vec::new();
        std::mem::swap(&mut entries, &mut self.entries);
        match at {
            Some(at) => {
                entries.set(at, (key, value));
            },
            None => {
                entries.push((key, value));
            },
        }
        proof {
            let target: int = match at {
                Some(at) => at as int,
                None => before.len() as int,
            };
            assert(entries@[target].0@ == key_text && entries@[target].1 == value);
            assert forall|i: int, j: int|
                0 <= i < entries@.len() && 0 <= j < entries@.len() && i != j implies (
            #[trigger] entries@[i]).0@ != (#[trigger] entries@[j]).0@ by {
                if i < before.len() {
                    assert(i != target ==> !holds_key(before, key_text, i) || at is Some);
                    assert(entries@[i].0@ == before[i].0@);
                }
                if j < before.len() {
                    assert(j != target ==> !holds_key(before, key_text, j) || at is Some);
                    assert(entries@[j].0@ == before[j].0@);
                }
            }
            assert(keys_differ(entries@));
        }
        self.entries = entries;
        proof {
            let new_view = self@;
            let target: int = match at {
                Some(at) => at as int,
                None => before.len() as int,
            };
            assert forall|k: Seq<char>| #[trigger]
                new_view.contains_key(k) == old_view.insert(key_text, value).contains_key(k) by {
                if k == key_text {
                    assert(holds_key(entries@, k, target));
                } else {
                    assert forall|i: int| #[trigger]
                        holds_key(entries@, k, i) == holds_key(before, k, i) by {
                        if i == target && at is Some {
                            assert(holds_key(before, key_text, i));
                        }
                    }
                    if new_view.contains_key(k) {
                        let i = choose|i: int| holds_key(entries@, k, i);
                        assert(holds_key(before, k, i));
                    }
                    if old_view.contains_key(k) {
                        let i = choose|i: int| holds_key(before, k, i);
                        assert(holds_key(entries@, k, i));
                    }
                }
            }
            assert forall|k: Seq<char>| new_view.contains_key(k) implies #[trigger] new_view[k]
                == old_view.insert(key_text, value)[k] by {
                let i = choose|i: int| holds_key(entries@, k, i);
                assert(holds_key(entries@, k, i));
                if k == key_text {
                    assert(holds_key(entries@, k, target));
                    assert(i == target);
                } else {
                    assert(i != target);
                    assert(holds_key(before, k, i));
                    let j = choose|j: int| holds_key(before, k, j);
                    assert(holds_key(before, k, j));
                    assert(i == j);
                }
            }
            assert(new_view =~= old_view.insert(key_text, value));
        }
    }
}

} // verus!
