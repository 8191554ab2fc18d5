use vstd::prelude::*;

verus! {

/// A key of a [`Table`]: a plain value that can be told apart from another
/// at run time.
pub trait Key: Copy {
    /// Whether `self` and `other` are the same key.
    fn same(&self, other: &Self) -> (r: bool)
        ensures
            r == (*self == *other),
    ;
}

/// The first place at which `item` stands in `list`, if it stands in it.
pub fn position_of<K: Key>(list: &Vec<K>, item: &K) -> (found: Option<usize>)
    ensures
        match found {
            Some(i) => {
                &&& i < list@.len()
                &&& list@[i as int] == *item
                &&& forall|j: int| 0 <= j < i ==> list@[j] != *item
            },
            None => !list@.contains(*item),
        },
{
    let mut i: usize = 0;
    while i < list.len()
        invariant
            i <= list@.len(),
            forall|j: int| 0 <= j < i ==> list@[j] != *item,
        decreases list@.len() - i,
    {
        if list[i].same(item) {
            return Some(i);
        }
        i = i + 1;
    }
    None
}

/// Whether no item stands in `list` twice.
pub fn has_no_duplicates<K: Key>(list: &Vec<K>) -> (distinct: bool)
    ensures
        distinct == list@.no_duplicates(),
{
    let mut i: usize = 0;
    while i < list.len()
        invariant
            i <= list@.len(),
            forall|a: int, b: int| 0 <= a < b < i ==> list@[a] != list@[b],
        decreases list@.len() - i,
    {
        let mut j: usize = 0;
        while j < i
            invariant
                j <= i,
                i < list@.len(),
                forall|a: int| 0 <= a < j ==> list@[a] != list@[i as int],
            decreases i - j,
        {
            if list[j].same(&list[i]) {
                return false;
            }
            j = j + 1;
        }
        i = i + 1;
    }
    assert forall|a: int, b: int|
        0 <= a < list@.len() && 0 <= b < list@.len() && a != b implies list@[a] != list@[b] by {
        if a < b {
            assert(list@[a] != list@[b]);
        } else {
            assert(list@[b] != list@[a]);
        }
    }
    true
}

/// A finite map from keys to values, kept as two rows of equal length in
/// which no key occurs twice. Its meaning is the map from each key to the
/// view of its value.
pub struct Table<K, V> {
    keys: Vec<K>,
    values: Vec<V>,
}

/// The map that pairs `keys[i]` with the view of `values[i]`.
pub open spec fn pairing<K, V: View>(keys: Seq<K>, values: Seq<V>) -> Map<K, V::V> {
    Map::new(|k: K| keys.contains(k), |k: K| values[keys.index_of(k)]@)
}

/// In a row without repetitions each key is found at its own place.
pub proof fn lemma_pairing_at<K, V: View>(keys: Seq<K>, values: Seq<V>, i: int)
    requires
        keys.no_duplicates(),
        0 <= i < keys.len(),
    ensures
        pairing(keys, values).contains_key(keys[i]),
        keys.index_of(keys[i]) == i,
        pairing(keys, values)[keys[i]] == values[i]@,
{
    let j = keys.index_of(keys[i]);
    assert(0 <= j < keys.len() && keys[j] == keys[i]);
}

/// Replacing the value in one row gives that row's key the new value and
/// leaves every other key as it was.
pub proof fn lemma_pairing_update<K, V: View>(keys: Seq<K>, values: Seq<V>, i: int, value: V)
    requires
        keys.no_duplicates(),
        keys.len() == values.len(),
        0 <= i < keys.len(),
    ensures
        pairing(keys, values.update(i, value)) == pairing(keys, values).insert(keys[i], value@),
{
    let updated = values.update(i, value);
    assert forall|k: K| keys.contains(k) implies #[trigger] pairing(keys, updated)[k] == pairing(
        keys,
        values,
    ).insert(keys[i], value@)[k] by {
        let j = keys.index_of(k);
        lemma_pairing_at(keys, values, j);
        lemma_pairing_at(keys, updated, j);
    }
    assert(keys.contains(keys[i]));
    assert(pairing(keys, updated) =~= pairing(keys, values).insert(keys[i], value@));
}

/// A new row for a key that has none gives that key the value and leaves
/// every other key as it was.
pub proof fn lemma_pairing_push<K, V: View>(keys: Seq<K>, values: Seq<V>, key: K, value: V)
    requires
        keys.no_duplicates(),
        keys.len() == values.len(),
        !keys.contains(key),
    ensures
        keys.push(key).no_duplicates(),
        pairing(keys.push(key), values.push(value)) == pairing(keys, values).insert(key, value@),
{
    let n = keys.len() as int;
    let keys1 = keys.push(key);
    let values1 = values.push(value);
    assert forall|a: int, b: int|
        0 <= a < keys1.len() && 0 <= b < keys1.len() && a != b implies keys1[a] != keys1[b] by {
        if a < n && b < n {
            assert(keys[a] != keys[b]);
        } else if a < n {
            assert(keys.contains(keys[a]));
        } else {
            assert(keys.contains(keys[b]));
        }
    }
    assert forall|k: K| keys1.contains(k) <==> (k == key || keys.contains(k)) by {
        if keys.contains(k) {
            let j = keys.index_of(k);
            assert(keys1[j] == k);
        }
        if k == key {
            assert(keys1[n] == k);
        }
    }
    assert forall|k: K| keys1.contains(k) implies #[trigger] pairing(keys1, values1)[k] == pairing(
        keys,
        values,
    ).insert(key, value@)[k] by {
        let j = keys1.index_of(k);
        lemma_pairing_at(keys1, values1, j);
        if j < n {
            lemma_pairing_at(keys, values, j);
        }
    }
    assert(pairing(keys1, values1) =~= pairing(keys, values).insert(key, value@));
}

/// The list that `key` has in `lists`; the empty list if it has none.
pub open spec fn list_of<K, T>(lists: Map<K, Seq<T>>, key: K) -> Seq<T> {
    if lists.contains_key(key) {
        lists[key]
    } else {
        Seq::empty()
    }
}

impl<K: Key, V: View> View for Table<K, V> {
    type V = Map<K, V::V>;

    closed spec fn view(&self) -> Map<K, V::V> {
        pairing(self.keys@, self.values@)
    }
}

impl<K: Key, V: View> Table<K, V> {
    /// The rows have one length and no key occurs twice.
    pub closed spec fn wf(&self) -> bool {
        &&& self.keys@.len() == self.values@.len()
        &&& self.keys@.no_duplicates()
    }

    /// The keys of the table, in the order of its rows: a key stands
    /// where it first got a value.
    pub closed spec fn keys(&self) -> Seq<K> {
        self.keys@
    }

    /// The keys of a table are those that have a value, each once.
    pub proof fn lemma_keys(&self)
        requires
            self.wf(),
        ensures
            self.keys().no_duplicates(),
            forall|k: K| #[trigger] self@.contains_key(k) ==> self.keys().contains(k),
            forall|i: int|
                0 <= i < self.keys().len() ==> self@.contains_key(#[trigger] self.keys()[i]),
    {
        assert forall|i: int| 0 <= i < self.keys().len() implies self@.contains_key(
            #[trigger] self.keys()[i],
        ) by {
            lemma_pairing_at(self.keys@, self.values@, i);
        }
    }

    /// The table whose rows pair `keys[i]` with `values[i]`, if the two are
    /// of one length and no key occurs twice.
    pub fn from_rows(keys: Vec<K>, values: Vec<V>) -> (table: Option<Self>)
        ensures
            match table {
                Some(table) => {
                    &&& table.wf()
                    &&& table.keys() == keys@
                    &&& table@ == pairing(keys@, values@)
                },
                None => keys@.len() != values@.len() || !keys@.no_duplicates(),
            },
    {
        if keys.len() != values.len() || !has_no_duplicates(&keys) {
            return None;
        }
        Some(Table { keys, values })
    }

    /// The rows of the table: its keys, and the value of each at the same
    /// place.
    pub fn into_rows(self) -> (rows: (Vec<K>, Vec<V>))
        requires
            self.wf(),
        ensures
            rows.0@ == self.keys(),
            rows.0@.len() == rows.1@.len(),
            rows.0@.no_duplicates(),
            pairing(rows.0@, rows.1@) == self@,
    {
        (self.keys, self.values)
    }

    /// The number of keys.
    pub fn len(&self) -> (n: usize)
        ensures
            n == self.keys().len(),
    {
        self.keys.len()
    }

    /// The key of row `i`.
    pub fn key_at(&self, i: usize) -> (key: K)
        requires
            self.wf(),
            i < self.keys().len(),
        ensures
            key == self.keys()[i as int],
            self@.contains_key(key),
    {
        proof {
            lemma_pairing_at(self.keys@, self.values@, i as int);
        }
        self.keys[i]
    }

    /// The value of the key of row `i`.
    pub fn value_at(&self, i: usize) -> (value: &V)
        requires
            self.wf(),
            i < self.keys().len(),
        ensures
            self@.contains_key(self.keys()[i as int]),
            value@ == self@[self.keys()[i as int]],
    {
        proof {
            lemma_pairing_at(self.keys@, self.values@, i as int);
        }
        &self.values[i]
    }

    /// The empty table.
    pub fn new() -> (table: Self)
        ensures
            table.wf(),
            table@ == Map::<K, V::V>::empty(),
    {
        let table = Table { keys: Vec::new(), values: Vec::new() };
        assert(table@ =~= Map::<K, V::V>::empty());
        table
    }

    /// The row in which `key` stands, if it stands in one.
    fn position(&self, key: &K) -> (found: Option<usize>)
        ensures
            match found {
                Some(i) => i < self.keys@.len() && self.keys@[i as int] == *key,
                None => !self.keys@.contains(*key),
            },
    {
        position_of(&self.keys, key)
    }

    /// Whether `key` has a value.
    pub fn contains(&self, key: &K) -> (found: bool)
        requires
            self.wf(),
        ensures
            found == self@.contains_key(*key),
    {
        self.position(key).is_some()
    }

    /// The value of `key`, if it has one.
    pub fn get(&self, key: &K) -> (found: Option<&V>)
        requires
            self.wf(),
        ensures
            match found {
                Some(value) => self@.contains_key(*key) && value@ == self@[*key],
                None => !self@.contains_key(*key),
            },
    {
        match self.position(key) {
            Some(i) => {
                proof {
                    lemma_pairing_at(self.keys@, self.values@, i as int);
                }
                Some(&self.values[i])
            },
            None => None,
        }
    }

    /// Gives `key` the value `value`, in place of the one it had, if any.
    pub fn insert(&mut self, key: K, value: V)
        requires
            old(self).wf(),
        ensures
            final(self).wf(),
            final(self)@ == old(self)@.insert(key, value@),
    {
        match self.position(&key) {
            Some(i) => {
                proof {
                    lemma_pairing_update(self.keys@, self.values@, i as int, value);
                }
                self.values.set(i, value);
            },
            None => {
                proof {
                    lemma_pairing_push(self.keys@, self.values@, key, value);
                }
                self.keys.push(key);
                self.values.push(value);
            },
        }
    }
}

impl<K: Key, T> Table<K, Vec<T>> {
    /// Puts `item` at the end of the list of `key`; a key without a list
    /// gets the list of `item` alone.
    pub fn append(&mut self, key: K, item: T)
        requires
            old(self).wf(),
        ensures
            final(self).wf(),
            final(self)@ == old(self)@.insert(key, list_of(old(self)@, key).push(item)),
    {
        match self.position(&key) {
            Some(i) => {
                proof {
                    lemma_pairing_at(self.keys@, self.values@, i as int);
                }
                let ghost values0 = self.values@;
                let mut list = self.values.remove(i);
                list.push(item);
                proof {
                    lemma_pairing_update(self.keys@, values0, i as int, list);
                    assert(values0.remove(i as int).insert(i as int, list) =~= values0.update(
                        i as int,
                        list,
                    ));
                }
                self.values.insert(i, list);
            },
            None => {
                let mut list: Vec<T> = Vec::new();
                list.push(item);
                proof {
                    lemma_pairing_push(self.keys@, self.values@, key, list);
                    assert(list@ =~= Seq::<T>::empty().push(item));
                }
                self.keys.push(key);
                self.values.push(list);
            },
        }
    }
}

} // verus!
