//! A map that is kept as a list of keys and values.

use vstd::prelude::*;

verus! {

/// A map from integers to values of any type.  It hands out exclusive references
/// to its values, and keeps them in the order in which their keys first came.
pub struct KeyedList<A> {
    pub entries: Vec<(usize, A)>,
}

/// The first position at or after `from` at which `list` holds an entry for `key`;
/// the list's length if there is none.
pub open spec fn key_position<A>(list: Seq<(usize, A)>, key: usize, from: int) -> int
    decreases list.len() - from,
{
    if from < 0 || from >= list.len() {
        list.len() as int
    } else if list[from].0 == key {
        from
    } else {
        key_position(list, key, from + 1)
    }
}

/// What a list of keys and values says of each key: its first entry counts.
pub open spec fn map_of<A>(list: Seq<(usize, A)>) -> Map<usize, A> {
    Map::new(
        |key: usize| key_position(list, key, 0) < list.len(),
        |key: usize| list[key_position(list, key, 0)].1,
    )
}

impl<A> View for KeyedList<A> {
    type V = Map<usize, A>;

    open spec fn view(&self) -> Map<usize, A> {
        map_of(self.entries@)
    }
}

/// [`key_position`] finds the first match.
proof fn lemma_key_position<A>(list: Seq<(usize, A)>, key: usize, from: int)
    requires
        0 <= from <= list.len(),
    ensures
        from <= key_position(list, key, from) <= list.len(),
        key_position(list, key, from) < list.len() ==> list[key_position(list, key, from)].0 == key,
    decreases list.len() - from,
{
    if from < list.len() && list[from].0 != key {
        lemma_key_position(list, key, from + 1);
    }
}

/// Lists with the same keys have them in the same places.
proof fn lemma_same_keys<A>(a: Seq<(usize, A)>, b: Seq<(usize, A)>, key: usize, from: int)
    requires
        0 <= from <= a.len(),
        a.len() == b.len(),
        forall|i: int| 0 <= i < a.len() ==> (#[trigger] a[i]).0 == b[i].0,
    ensures
        key_position(a, key, from) == key_position(b, key, from),
    decreases a.len() - from,
{
    if from < a.len() {
        assert(a[from].0 == b[from].0);
        lemma_same_keys(a, b, key, from + 1);
    }
}

/// Where a key is in a list that has grown by one entry.
proof fn lemma_pushed_key<A>(list: Seq<(usize, A)>, entry: (usize, A), key: usize, from: int)
    requires
        0 <= from <= list.len(),
    ensures
        key_position(list.push(entry), key, from) == if key_position(list, key, from)
            < list.len() {
            key_position(list, key, from)
        } else if entry.0 == key {
            list.len() as int
        } else {
            (list.len() + 1) as int
        },
    decreases list.len() - from,
{
    if from < list.len() {
        lemma_key_position(list, key, from);
        assert(list.push(entry)[from] == list[from]);
        lemma_pushed_key(list, entry, key, from + 1);
    } else {
        assert(list.push(entry)[from] == entry);
        assert(key_position(list.push(entry), key, from + 1) == list.len() + 1);
    }
}

/// Changing the value of an entry changes what the list says of its key.
proof fn lemma_updated<A>(list: Seq<(usize, A)>, key: usize, value: A)
    requires
        key_position(list, key, 0) < list.len(),
    ensures
        map_of(list.update(key_position(list, key, 0), (key, value))) == map_of(list).insert(
            key,
            value,
        ),
{
    let at = key_position(list, key, 0);
    let changed = list.update(at, (key, value));
    lemma_key_position(list, key, 0);
    assert forall|k: usize| #[trigger] key_position(changed, k, 0) == key_position(list, k, 0) by {
        lemma_same_keys(list, changed, k, 0);
    }
    assert forall|k: usize| map_of(list).insert(key, value).contains_key(k) implies #[trigger] map_of(
        changed,
    )[k] == map_of(list).insert(key, value)[k] by {
        lemma_key_position(list, k, 0);
    }
    assert(map_of(changed) =~= map_of(list).insert(key, value));
}

/// Appending an entry adds it to what the list says, unless the list says
/// something of its key already.
proof fn lemma_appended<A>(list: Seq<(usize, A)>, key: usize, value: A)
    ensures
        map_of(list.push((key, value))) == if map_of(list).contains_key(key) {
            map_of(list)
        } else {
            map_of(list).insert(key, value)
        },
{
    let changed = list.push((key, value));
    assert forall|k: usize| #[trigger] key_position(changed, k, 0) == if key_position(list, k, 0)
        < list.len() {
        key_position(list, k, 0)
    } else if k == key {
        list.len() as int
    } else {
        (list.len() + 1) as int
    } by {
        lemma_pushed_key(list, (key, value), k, 0);
    }
    assert forall|k: usize| map_of(list).contains_key(k) implies #[trigger] map_of(changed)[k]
        == map_of(list)[k] by {
        lemma_key_position(list, k, 0);
    }
    lemma_key_position(list, key, 0);
    if map_of(list).contains_key(key) {
        assert(map_of(changed) =~= map_of(list));
    } else {
        assert(map_of(changed) =~= map_of(list).insert(key, value));
    }
}

/// The value of the entry at position `at`, to be changed.
fn value_mut<A>(list: &mut Vec<(usize, A)>, at: usize) -> (res: &mut A)
    requires
        at < old(list)@.len(),
    ensures
        *res == old(list)@[at as int].1,
        final(list)@ == old(list)@.update(at as int, (old(list)@[at as int].0, *final(res))),
{
    &mut list[at].1
}

impl<A> KeyedList<A> {
    /// An empty map.
    pub fn new() -> (res: Self)
        ensures
            res@ == Map::<usize, A>::empty(),
    {
        KeyedList { entries: Vec::new() }
    }

    /// The position of the entry for `key`, or the number of entries.
    fn position(&self, key: usize) -> (res: usize)
        ensures
            res == key_position(self.entries@, key, 0),
            res <= self.entries@.len(),
            res < self.entries@.len() <==> self@.contains_key(key),
    {
        let mut i: usize = 0;
        while i < self.entries.len()
            invariant
                i <= self.entries@.len(),
                key_position(self.entries@, key, 0) == key_position(self.entries@, key, i as int),
            decreases self.entries@.len() - i,
        {
            if self.entries[i].0 == key {
                return i;
            }
            i = i + 1;
        }
        i
    }

    /// Whether there is a value for `key`.
    pub fn contains(&self, key: usize) -> (res: bool)
        ensures
            res == self@.contains_key(key),
    {
        self.position(key) < self.entries.len()
    }

    /// The value for `key`.
    pub fn get(&self, key: usize) -> (res: Option<&A>)
        ensures
            match res {
                Some(value) => self@.contains_key(key) && *value == self@[key],
                None => !self@.contains_key(key),
            },
    {
        let at: usize = self.position(key);
        if at < self.entries.len() {
            Some(&self.entries[at].1)
        } else {
            None
        }
    }

    /// The value for `key`, to be changed.
    pub fn get_mut(&mut self, key: usize) -> (res: Option<&mut A>)
        ensures
            match res {
                Some(value) => {
                    &&& old(self)@.contains_key(key)
                    &&& *value == old(self)@[key]
                    &&& final(self)@ == old(self)@.insert(key, *final(value))
                },
                None => !old(self)@.contains_key(key) && final(self)@ == old(self)@,
            },
    {
        let at: usize = self.position(key);
        if at < self.entries.len() {
            proof {
                let list = self.entries@;
                lemma_key_position(list, key, 0);
                assert forall|value: A| #[trigger]
                    map_of(list.update(at as int, (key, value))) == map_of(list).insert(
                        key,
                        value,
                    ) by {
                    lemma_updated(list, key, value);
                }
            }
            Some(value_mut(&mut self.entries, at))
        } else {
            None
        }
    }

    /// Sets the value for `key`.  Returns the one that was there.
    pub fn insert(&mut self, key: usize, value: A) -> (res: Option<A>)
        ensures
            final(self)@ == old(self)@.insert(key, value),
            res == (if old(self)@.contains_key(key) {
                Some(old(self)@[key])
            } else {
                None
            }),
    {
        let at: usize = self.position(key);
        let ghost list = self.entries@;
        proof {
            lemma_key_position(list, key, 0);
        }
        if at < self.entries.len() {
            let (_, before) = self.entries.remove(at);
            self.entries.insert(at, (key, value));
            proof {
                assert(self.entries@ =~= list.update(at as int, (key, value)));
                lemma_updated(list, key, value);
            }
            Some(before)
        } else {
            self.entries.push((key, value));
            proof {
                lemma_appended(list, key, value);
            }
            None
        }
    }

    /// Removes the value for `key`.
    pub fn remove(&mut self, key: usize)
        ensures
            final(self)@ == old(self)@.remove(key),
    {
        let ghost all = self.entries@;
        let mut kept: Vec<(usize, A)> = Vec::new();
        let mut i: Ghost<int> = Ghost(0);
        assert(map_of(kept@) =~= map_of(all.subrange(0, 0)).remove(key));
        while self.entries.len() > 0
            invariant
                0 <= i@ <= all.len(),
                self.entries@ == all.subrange(i@, all.len() as int),
                map_of(kept@) == map_of(all.subrange(0, i@)).remove(key),
            decreases self.entries@.len(),
        {
            let (k, value) = self.entries.remove(0);
            proof {
                assert((k, value) == all[i@]);
                assert(all.subrange(0, i@ + 1) =~= all.subrange(0, i@).push((k, value)));
                lemma_appended(all.subrange(0, i@), k, value);
                lemma_appended(kept@, k, value);
                i@ = i@ + 1;
            }
            let ghost before = kept@;
            if k != key {
                kept.push((k, value));
            }
            assert(map_of(kept@) =~= map_of(all.subrange(0, i@)).remove(key));
            assert(self.entries@ =~= all.subrange(i@, all.len() as int));
        }
        assert(all.subrange(0, i@) =~= all);
        self.entries = kept;
    }
}

} // verus!
