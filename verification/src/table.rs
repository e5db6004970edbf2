//! A keyed table that remembers the order in which its keys arrived.

use vstd::prelude::*;

verus! {

/// `fnv::FnvHasher`, the hasher of the index. Nothing is said of what is
/// inside it.
#[verifier::external_type_specification]
#[verifier::external_body]
pub struct ExFnvHasher(fnv::FnvHasher);

/// `std::hash::BuildHasherDefault`, which makes the hashers of the index.
/// Nothing is said of what is inside it.
#[verifier::reject_recursive_types(H)]
#[verifier::external_type_specification]
#[verifier::external_body]
pub struct ExBuildHasherDefault<H>(std::hash::BuildHasherDefault<H>);

/// `fnv::FnvHashMap::default`: a map that holds nothing.
#[verifier::external_body]
fn index_new() -> (m: fnv::FnvHashMap<u64, usize>)
    ensures
        m@ =~= Map::empty(),
{
    fnv::FnvHashMap::default()
}

/// `HashMap::get` on an `fnv::FnvHashMap`: the position stored under `key`,
/// if the map holds the key.
#[verifier::external_body]
fn index_get(m: &fnv::FnvHashMap<u64, usize>, key: u64) -> (r: Option<usize>)
    ensures
        r == (if m@.contains_key(key) { Some(m@[key]) } else { None::<usize> }),
{
    m.get(&key).copied()
}

/// `HashMap::insert` on an `fnv::FnvHashMap`: afterwards the map holds `value`
/// under `key` and is otherwise unchanged.
#[verifier::external_body]
fn index_insert(m: &mut fnv::FnvHashMap<u64, usize>, key: u64, value: usize)
    ensures
        final(m)@ == old(m)@.insert(key, value),
{
    m.insert(key, value);
}

/// A table of values keyed by `u64`, iterated in the order in which the keys
/// were first inserted.
///
/// Lookup by key goes through an FNV hash map from key to position; the keys
/// and values themselves are kept in arrival order, so that walking the table
/// gives the same sequence on every run.
pub struct Table<V> {
    index: fnv::FnvHashMap<u64, usize>,
    keys: Vec<u64>,
    values: Vec<V>,
}

/// True if no key occurs twice in `keys`.
pub open spec fn distinct(keys: Seq<u64>) -> bool {
    forall|i: int, j: int| 0 <= i < j < keys.len() ==> keys[i] != keys[j]
}

impl<V> Table<V> {
    /// The keys in arrival order.
    pub closed spec fn keys(&self) -> Seq<u64> {
        self.keys@
    }

    /// The values, `values()[i]` belonging to `keys()[i]`.
    pub closed spec fn values(&self) -> Seq<V> {
        self.values@
    }

    /// The table as a map from key to value.
    pub open spec fn view(&self) -> Map<u64, V> {
        Map::new(
            |k: u64| self.keys().contains(k),
            |k: u64| self.values()[self.keys().index_of(k)],
        )
    }

    /// The index agrees with the keys: it maps every key to its position, and
    /// holds nothing else.
    pub closed spec fn wf(&self) -> bool {
        &&& self.keys@.len() == self.values@.len()
        &&& forall|k: u64|
            self.index@.contains_key(k) ==> 0 <= #[trigger] self.index@[k] < self.keys@.len()
                && self.keys@[self.index@[k] as int] == k
        &&& forall|i: int|
            0 <= i < self.keys@.len() ==> self.index@.contains_key(#[trigger] self.keys@[i])
                && self.index@[self.keys@[i]] == i
    }

    /// In a well-formed table keys and values pair up and no key occurs twice.
    pub proof fn lemma_shape(&self)
        requires
            self.wf(),
        ensures
            self.keys().len() == self.values().len(),
            distinct(self.keys()),
    {
    }

    /// An empty table.
    pub fn new() -> (t: Self)
        ensures
            t.wf(),
            t.keys() == Seq::<u64>::empty(),
            t.values() == Seq::<V>::empty(),
    {
        Table { index: index_new(), keys: Vec::new(), values: Vec::new() }
    }

    /// The number of keys.
    pub fn len(&self) -> (n: usize)
        requires
            self.wf(),
        ensures
            n == self.keys().len(),
            n == self.values().len(),
            distinct(self.keys()),
    {
        self.keys.len()
    }

    /// The position of `key` in arrival order, `None` if the table does not
    /// hold it.
    pub fn position(&self, key: u64) -> (r: Option<usize>)
        requires
            self.wf(),
        ensures
            match r {
                Some(i) => i < self.keys().len() && self.keys()[i as int] == key,
                None => !self.keys().contains(key),
            },
    {
        let r = index_get(&self.index, key);
        proof {
            if r is None && self.keys@.contains(key) {
                let i = choose|i: int| 0 <= i < self.keys@.len() && self.keys@[i] == key;
                assert(self.index@.contains_key(self.keys@[i]));
            }
        }
        r
    }

    /// The key at position `i`.
    pub fn key_at(&self, i: usize) -> (k: u64)
        requires
            self.wf(),
            i < self.keys().len(),
        ensures
            k == self.keys()[i as int],
    {
        self.keys[i]
    }

    /// The value at position `i`.
    pub fn value_at(&self, i: usize) -> (v: &V)
        requires
            self.wf(),
            i < self.values().len(),
        ensures
            *v == self.values()[i as int],
    {
        &self.values[i]
    }

    /// Replaces the value at position `i`.
    pub fn set(&mut self, i: usize, value: V)
        requires
            old(self).wf(),
            i < old(self).values().len(),
        ensures
            final(self).wf(),
            final(self).keys() == old(self).keys(),
            final(self).values() == old(self).values().update(i as int, value),
    {
        self.values.set(i, value);
    }

    /// The value at position `i`, for changing it in place.
    pub fn value_mut(&mut self, i: usize) -> (v: &mut V)
        requires
            old(self).wf(),
            i < old(self).values().len(),
        ensures
            *v == old(self).values()[i as int],
            final(self).wf(),
            final(self).keys() == old(self).keys(),
            final(self).values() == old(self).values().update(i as int, *final(v)),
    {
        &mut self.values[i]
    }

    /// Appends `value` under `key`, which the table must not hold yet, and
    /// returns its position.
    pub fn push(&mut self, key: u64, value: V) -> (i: usize)
        requires
            old(self).wf(),
            !old(self).keys().contains(key),
        ensures
            final(self).wf(),
            i == old(self).keys().len(),
            final(self).keys() == old(self).keys().push(key),
            final(self).values() == old(self).values().push(value),
    {
        let i: usize = self.keys.len();
        index_insert(&mut self.index, key, i);
        self.keys.push(key);
        self.values.push(value);
        i
    }
}

} // verus!
