//! Sequential interning: a map from string keys to dense integer identifiers.
use vstd::prelude::*;
use vstd::set_lib::{lemma_int_range, lemma_len_subset, lemma_subset_equality, set_int_range};

verus! {

/// The type of index identifiers.
pub type Id = i32;

/// The abstract content of an index: each key's text and its identifier.
pub type KeyMap = Map<Seq<char>, Id>;

/// The hash table behind an index: a hashbrown map from keys to identifiers.
///
/// hashbrown's map is generic over an allocator whose trait it does not
/// export, so the map is held here opaquely; `table_entries` names what it
/// holds and the methods below state what each hashbrown call does to that.
#[verifier::external_body]
pub struct KeyTable {
    map: hashbrown::HashMap<String, Id>,
}

/// What a key table holds: the text of each key, mapped to its identifier.
pub uninterp spec fn table_entries(t: KeyTable) -> KeyMap;

/// `rows` lists the entries of `m`: every entry once, in no particular order.
pub open spec fn lists_entries(rows: Seq<(Id, String)>, m: KeyMap) -> bool {
    &&& rows.len() == m.len()
    &&& forall|i: int|
        0 <= i < rows.len() ==> #[trigger] m.contains_key(rows[i].1@) && m[rows[i].1@]
            == rows[i].0
    &&& forall|i: int, j: int| 0 <= i < j < rows.len() ==> rows[i].1@ != rows[j].1@
    &&& forall|k: Seq<char>| #[trigger]
        m.contains_key(k) ==> exists|i: int| 0 <= i < rows.len() && rows[i].1@ == k
}

impl KeyTable {
    /// Relies on hashbrown's `HashMap::new`: a new map is empty.
    #[verifier::external_body]
    fn new() -> (table: KeyTable)
        ensures
            table_entries(table) == KeyMap::empty(),
    {
        KeyTable { map: hashbrown::HashMap::new() }
    }

    /// Relies on hashbrown's `HashMap::len`: the number of entries.
    #[verifier::external_body]
    fn len(&self) -> (n: usize)
        ensures
            n == table_entries(*self).len(),
    {
        self.map.len()
    }

    /// Relies on hashbrown's `HashMap::get`, which looks a `String` key up by
    /// its borrowed `str`: the identifier stored under the key, if any.
    #[verifier::external_body]
    fn get(&self, key: &str) -> (r: Option<Id>)
        ensures
            r == (if table_entries(*self).contains_key(key@) {
                Some(table_entries(*self)[key@])
            } else {
                None
            }),
    {
        self.map.get(key).copied()
    }

    /// Relies on hashbrown's `HashMap::insert`: the key maps to the identifier
    /// afterwards, and every other entry stays as it was.
    #[verifier::external_body]
    fn insert(&mut self, key: String, id: Id)
        ensures
            table_entries(*final(self)) == table_entries(*old(self)).insert(key@, id),
    {
        self.map.insert(key, id);
    }

    /// Relies on hashbrown's `HashMap::iter`: it visits each entry exactly once,
    /// in an order that the map does not promise.
    #[verifier::external_body]
    fn entries(&self) -> (rows: Vec<(Id, String)>)
        ensures
            lists_entries(rows@, table_entries(*self)),
    {
        self.map.iter().map(|(k, v)| (*v, k.clone())).collect()
    }
}

/// Identifiers are dense: the keys are numbered `1..=len` without gaps or repeats.
pub open spec fn dense_ids(m: KeyMap) -> bool {
    &&& m.dom().finite()
    &&& m.len() <= Id::MAX
    &&& forall|k: Seq<char>| #[trigger] m.contains_key(k) ==> 1 <= m[k] <= m.len()
    &&& forall|k1: Seq<char>, k2: Seq<char>|
        #[trigger] m.contains_key(k1) && #[trigger] m.contains_key(k2) && m[k1] == m[k2] ==> k1
            == k2
    &&& forall|i: int| 1 <= i <= m.len() ==> #[trigger] holds_id(m, i)
}

/// Some key of `m` carries the identifier `i`.
pub open spec fn holds_id(m: KeyMap, i: int) -> bool {
    exists|k: Seq<char>| m.contains_key(k) && m[k] == i
}

/// One interning step: the map afterwards and the identifier returned.
pub open spec fn intern_step(m: KeyMap, key: Seq<char>) -> (KeyMap, Id) {
    if m.contains_key(key) {
        (m, m[key])
    } else {
        (m.insert(key, (m.len() + 1) as Id), (m.len() + 1) as Id)
    }
}

/// The map that interning `keys` one after another into an empty index builds.
pub open spec fn interned(keys: Seq<Seq<char>>) -> KeyMap
    decreases keys.len(),
{
    if keys.len() == 0 {
        Map::empty()
    } else {
        intern_step(interned(keys.drop_last()), keys.last()).0
    }
}

/// Index identifiers for string keys, numbered from 1 in first-seen order.
pub struct IdIndex {
    map: KeyTable,
}

impl View for IdIndex {
    type V = KeyMap;

    closed spec fn view(&self) -> KeyMap {
        table_entries(self.map)
    }
}

/// Why a list of rows does not make an index.
#[derive(Debug, PartialEq, Eq, Clone, Copy)]
pub enum IndexError {
    /// The row's identifier lies outside `1..=rows`.
    IdOutOfRange(usize),
    /// The row repeats the key of an earlier row.
    DuplicateKey(usize),
    /// The row repeats the identifier of an earlier row.
    DuplicateId(usize),
}

/// The first `n` rows carry distinct keys and distinct identifiers in `1..=rows.len()`.
pub open spec fn rows_ok_upto(rows: Seq<(Id, String)>, n: int) -> bool {
    &&& forall|i: int| 0 <= i < n ==> 1 <= #[trigger] rows[i].0 <= rows.len()
    &&& forall|i: int, j: int| 0 <= i < j < n ==> rows[i].1@ != rows[j].1@
    &&& forall|i: int, j: int| 0 <= i < j < n ==> rows[i].0 != rows[j].0
}

/// The rows describe an index: keys and identifiers are both one to one.
pub open spec fn rows_valid(rows: Seq<(Id, String)>) -> bool {
    rows_ok_upto(rows, rows.len() as int)
}

/// The map that the rows describe, a later row winning over an earlier one.
pub open spec fn rows_map(rows: Seq<(Id, String)>) -> KeyMap
    decreases rows.len(),
{
    if rows.len() == 0 {
        Map::empty()
    } else {
        rows_map(rows.drop_last()).insert(rows.last().1@, rows.last().0)
    }
}

/// The error that loading `rows` reports at row `i`, or `None` if row `i` is fine.
pub open spec fn row_error(rows: Seq<(Id, String)>, i: int) -> Option<IndexError> {
    if !(1 <= rows[i].0 <= rows.len()) {
        Some(IndexError::IdOutOfRange(i as usize))
    } else if exists|j: int| 0 <= j < i && rows[j].1@ == rows[i].1@ {
        Some(IndexError::DuplicateKey(i as usize))
    } else if exists|j: int| 0 <= j < i && rows[j].0 == rows[i].0 {
        Some(IndexError::DuplicateId(i as usize))
    } else {
        None
    }
}

/// `n` distinct values in `1..=n` take every value of `1..=n`.
proof fn lemma_distinct_ids_cover(ids: Seq<int>, n: int)
    requires
        ids.len() == n,
        ids.no_duplicates(),
        forall|j: int| 0 <= j < n ==> 1 <= #[trigger] ids[j] <= n,
    ensures
        forall|v: int| 1 <= v <= n ==> #[trigger] ids.contains(v),
{
    ids.unique_seq_to_set();
    lemma_int_range(1, n + 1);
    assert(ids.to_set().subset_of(set_int_range(1, n + 1)));
    lemma_subset_equality(ids.to_set(), set_int_range(1, n + 1));
    assert forall|v: int| 1 <= v <= n implies #[trigger] ids.contains(v) by {
        assert(set_int_range(1, n + 1).contains(v));
        assert(ids.to_set().contains(v));
    }
}

/// The map of rows whose first `n` entries are valid gives each of their keys
/// its own identifier, and has exactly `n` keys.
proof fn lemma_rows_map_prefix(rows: Seq<(Id, String)>, n: int)
    requires
        0 <= n <= rows.len(),
        rows_ok_upto(rows, n),
    ensures
        rows_map(rows.take(n)).dom().finite(),
        rows_map(rows.take(n)).len() == n,
        forall|k: Seq<char>| #[trigger]
            rows_map(rows.take(n)).contains_key(k) <==> exists|i: int|
                0 <= i < n && rows[i].1@ == k,
        forall|i: int| 0 <= i < n ==> #[trigger] rows_map(rows.take(n))[rows[i].1@] == rows[i].0,
    decreases n,
{
    let m = rows_map(rows.take(n));
    if n == 0 {
        assert(m == Map::<Seq<char>, Id>::empty());
    } else {
        lemma_rows_map_prefix(rows, n - 1);
        assert(rows.take(n).drop_last() == rows.take(n - 1));
        let prev = rows_map(rows.take(n - 1));
        assert(m == prev.insert(rows[n - 1].1@, rows[n - 1].0));
        assert(!prev.contains_key(rows[n - 1].1@));
        assert forall|k: Seq<char>| #[trigger]
            m.contains_key(k) <==> exists|i: int| 0 <= i < n && rows[i].1@ == k by {
            if m.contains_key(k) && k != rows[n - 1].1@ {
                let i = choose|i: int| 0 <= i < n - 1 && rows[i].1@ == k;
                assert(0 <= i < n && rows[i].1@ == k);
            }
            if exists|i: int| 0 <= i < n && rows[i].1@ == k {
                let i = choose|i: int| 0 <= i < n && rows[i].1@ == k;
                if i < n - 1 {
                    assert(prev.contains_key(k));
                }
            }
        }
        assert forall|i: int| 0 <= i < n implies #[trigger] m[rows[i].1@] == rows[i].0 by {
            if i < n - 1 {
                assert(rows[i].1@ != rows[n - 1].1@);
            }
        }
    }
}

/// The map of valid rows has dense identifiers.
proof fn lemma_valid_rows_dense(rows: Seq<(Id, String)>)
    requires
        rows_valid(rows),
    ensures
        dense_ids(rows_map(rows)),
        forall|k: Seq<char>| #[trigger]
            rows_map(rows).contains_key(k) <==> exists|i: int|
                0 <= i < rows.len() && rows[i].1@ == k,
        forall|i: int| 0 <= i < rows.len() ==> #[trigger] rows_map(rows)[rows[i].1@] == rows[i].0,
{
    let n = rows.len() as int;
    lemma_rows_map_prefix(rows, n);
    assert(rows.take(n) == rows);
    let m = rows_map(rows);
    let ids = Seq::new(n as nat, |j: int| rows[j].0 as int);
    assert forall|a: int, b: int| 0 <= a < ids.len() && 0 <= b < ids.len() && a != b implies ids[a]
        != ids[b] by {
        if a < b {
            assert(rows[a].0 != rows[b].0);
        } else {
            assert(rows[b].0 != rows[a].0);
        }
    }
    lemma_distinct_ids_cover(ids, n);
    ids.unique_seq_to_set();
    assert(ids.to_set().subset_of(set_int_range(1, Id::MAX + 1)));
    lemma_int_range(1, Id::MAX + 1);
    lemma_len_subset(ids.to_set(), set_int_range(1, Id::MAX + 1));
    assert forall|k: Seq<char>| #[trigger] m.contains_key(k) implies 1 <= m[k] <= m.len() by {
        let i = choose|i: int| 0 <= i < n && rows[i].1@ == k;
        assert(m[rows[i].1@] == rows[i].0);
    }
    assert forall|k1: Seq<char>, k2: Seq<char>|
        #[trigger] m.contains_key(k1) && #[trigger] m.contains_key(k2) && m[k1] == m[k2] implies k1
        == k2 by {
        let i1 = choose|i: int| 0 <= i < n && rows[i].1@ == k1;
        let i2 = choose|i: int| 0 <= i < n && rows[i].1@ == k2;
        assert(m[rows[i1].1@] == rows[i1].0);
        assert(m[rows[i2].1@] == rows[i2].0);
        if i1 < i2 {
            assert(rows[i1].0 != rows[i2].0);
        } else if i2 < i1 {
            assert(rows[i2].0 != rows[i1].0);
        }
    }
    assert forall|v: int| 1 <= v <= m.len() implies #[trigger] holds_id(m, v) by {
        assert(ids.contains(v));
        let j = choose|j: int| 0 <= j < ids.len() && ids[j] == v;
        assert(m.contains_key(rows[j].1@) && m[rows[j].1@] == v);
    }
}

/// Interning into an index with dense identifiers keeps them dense.
proof fn lemma_intern_step_dense(m: KeyMap, key: Seq<char>)
    requires
        dense_ids(m),
        m.contains_key(key) || m.len() < Id::MAX,
    ensures
        dense_ids(intern_step(m, key).0),
        intern_step(m, key).0.contains_key(key),
        intern_step(m, key).0[key] == intern_step(m, key).1,
{
    if !m.contains_key(key) {
        let m2 = m.insert(key, (m.len() + 1) as Id);
        assert(m2.len() == m.len() + 1);
        assert forall|i: int| 1 <= i <= m2.len() implies #[trigger] holds_id(m2, i) by {
            if i <= m.len() {
                assert(holds_id(m, i));
                let k = choose|k: Seq<char>| m.contains_key(k) && m[k] == i;
                assert(m2.contains_key(k) && m2[k] == i);
            } else {
                assert(m2.contains_key(key) && m2[key] == i);
            }
        }
    }
}

/// Interning a sequence of keys into an empty index gives every distinct key
/// its own identifier, numbers them densely from 1, keeps exactly the keys
/// seen, and interning a key seen before returns its identifier again and
/// leaves the index as it was.
pub proof fn lemma_interning_dense(keys: Seq<Seq<char>>)
    requires
        keys.len() < Id::MAX,
    ensures
        dense_ids(interned(keys)),
        interned(keys).dom() == keys.to_set(),
        forall|i: int|
            0 <= i < keys.len() ==> intern_step(interned(keys), #[trigger] keys[i]) == (
            interned(keys),
            interned(keys)[keys[i]],
        ),
    decreases keys.len(),
{
    let m = interned(keys);
    if keys.len() == 0 {
        assert(m.dom() =~= keys.to_set());
    } else {
        let prev_keys = keys.drop_last();
        lemma_interning_dense(prev_keys);
        let prev = interned(prev_keys);
        prev_keys.lemma_cardinality_of_set();
        assert(prev.len() <= prev_keys.len());
        lemma_intern_step_dense(prev, keys.last());
        assert forall|k: Seq<char>| m.dom().contains(k) <==> keys.to_set().contains(k) by {
            if keys.to_set().contains(k) {
                let i = choose|i: int| 0 <= i < keys.len() && keys[i] == k;
                if i < keys.len() - 1 {
                    assert(prev_keys[i] == k);
                    assert(prev_keys.to_set().contains(k));
                }
            }
            if m.dom().contains(k) && k != keys.last() {
                assert(prev_keys.to_set().contains(k));
                let i = choose|i: int| 0 <= i < prev_keys.len() && prev_keys[i] == k;
                assert(keys[i] == k);
            }
        }
        assert(m.dom() =~= keys.to_set());
    }
}

/// Listing the entries of an index and loading the list again gives back the
/// same identifier for every key.
pub proof fn lemma_rows_round_trip(m: KeyMap, rows: Seq<(Id, String)>)
    requires
        dense_ids(m),
        lists_entries(rows, m),
    ensures
        rows_valid(rows),
        rows_map(rows) == m,
{
    assert forall|i: int, j: int| 0 <= i < j < rows.len() implies rows[i].0 != rows[j].0 by {
        assert(m.contains_key(rows[i].1@));
        assert(m.contains_key(rows[j].1@));
    }
    assert forall|i: int| 0 <= i < rows.len() implies 1 <= #[trigger] rows[i].0 <= rows.len() by {
        assert(m.contains_key(rows[i].1@));
    }
    lemma_valid_rows_dense(rows);
    let r = rows_map(rows);
    assert forall|k: Seq<char>| r.contains_key(k) <==> m.contains_key(k) by {
        if m.contains_key(k) {
            let i = choose|i: int| 0 <= i < rows.len() && rows[i].1@ == k;
            assert(r.contains_key(rows[i].1@));
        }
        if r.contains_key(k) {
            let i = choose|i: int| 0 <= i < rows.len() && rows[i].1@ == k;
            assert(m.contains_key(rows[i].1@));
        }
    }
    assert forall|k: Seq<char>| r.contains_key(k) implies r[k] == m[k] by {
        let i = choose|i: int| 0 <= i < rows.len() && rows[i].1@ == k;
        assert(r[rows[i].1@] == rows[i].0);
        assert(m[rows[i].1@] == rows[i].0);
    }
    assert(r =~= m);
}

impl IdIndex {
    /// The index numbers its keys densely from 1.
    pub open spec fn wf(&self) -> bool {
        dense_ids(self@)
    }

    /// Create a new, empty index.
    pub fn new() -> (r: IdIndex)
        ensures
            r@ == KeyMap::empty(),
            r.wf(),
    {
        let map = KeyTable::new();
        proof {
            let m = table_entries(map);
            assert(m.dom() =~= Set::empty());
        }
        IdIndex { map }
    }

    /// The number of keys in the index.
    pub fn len(&self) -> (n: usize)
        ensures
            n == self@.len(),
    {
        self.map.len()
    }

    /// Get the identifier of a key, adding the key with the next identifier
    /// if it is new. The key is copied only when it is added.
    pub fn intern(&mut self, key: &str) -> (id: Id)
        requires
            old(self).wf(),
            old(self)@.contains_key(key@) || old(self)@.len() < Id::MAX,
        ensures
            final(self).wf(),
            (final(self)@, id) == intern_step(old(self)@, key@),
    {
        proof {
            lemma_intern_step_dense(self@, key@);
        }
        match self.map.get(key) {
            Some(id) => id,
            None => {
                let n = self.map.len();
                let id = (n + 1) as Id;
                self.map.insert(key.to_owned(), id);
                id
            },
        }
    }

    /// Get the identifier of a key, adding the key with the next identifier
    /// if it is new and taking ownership of it.
    pub fn intern_owned(&mut self, key: String) -> (id: Id)
        requires
            old(self).wf(),
            old(self)@.contains_key(key@) || old(self)@.len() < Id::MAX,
        ensures
            final(self).wf(),
            (final(self)@, id) == intern_step(old(self)@, key@),
    {
        proof {
            lemma_intern_step_dense(self@, key@);
        }
        match self.map.get(key.as_str()) {
            Some(id) => id,
            None => {
                let n = self.map.len();
                let id = (n + 1) as Id;
                self.map.insert(key, id);
                id
            },
        }
    }

    /// Look up the identifier of a key, if it is present.
    pub fn lookup(&self, key: &str) -> (r: Option<Id>)
        ensures
            r == (if self@.contains_key(key@) {
                Some(self@[key@])
            } else {
                None
            }),
    {
        self.map.get(key)
    }

    /// The (identifier, key) pairs of the index, each once, in no particular order.
    pub fn to_rows(&self) -> (rows: Vec<(Id, String)>)
        ensures
            lists_entries(rows@, self@),
    {
        self.map.entries()
    }

    /// The keys of the index, each once, in no particular order.
    pub fn keys(&self) -> (keys: Vec<String>)
        ensures
            keys@.len() == self@.len(),
            forall|i: int| 0 <= i < keys@.len() ==> #[trigger] self@.contains_key(keys@[i]@),
            forall|k: Seq<char>| #[trigger]
                self@.contains_key(k) ==> exists|i: int| 0 <= i < keys@.len() && keys@[i]@ == k,
    {
        let rows = self.map.entries();
        let mut keys: Vec<String> = Vec::new();
        for i in 0..rows.len()
            invariant
                lists_entries(rows@, self@),
                keys@.len() == i,
                forall|j: int| 0 <= j < i ==> #[trigger] keys@[j]@ == rows@[j].1@,
        {
            keys.push(rows[i].1.clone());
        }
        proof {
            assert forall|i: int| 0 <= i < keys@.len() implies #[trigger] self@.contains_key(
                keys@[i]@,
            ) by {
                assert(keys@[i]@ == rows@[i].1@);
            }
            assert forall|k: Seq<char>| #[trigger]
                self@.contains_key(k) implies exists|i: int|
                0 <= i < keys@.len() && keys@[i]@ == k by {
                let i = choose|i: int| 0 <= i < rows@.len() && rows@[i].1@ == k;
                assert(keys@[i]@ == k);
            }
        }
        keys
    }

    /// The keys in order of ascending identifier. Identifiers are dense, so
    /// each position receives exactly one key.
    pub fn key_vec(&self) -> (keys: Vec<String>)
        requires
            self.wf(),
        ensures
            keys@.len() == self@.len(),
            forall|i: int|
                0 <= i < keys@.len() ==> self@.contains_key(#[trigger] keys@[i]@) && self@[keys@[i]@]
                    == i + 1,
    {
        let rows = self.map.entries();
        let n = rows.len();
        let mut slots: Vec<Option<String>> = Vec::new();
        for i in 0..n
            invariant
                slots@.len() == i,
                forall|j: int| 0 <= j < i ==> slots@[j] is None,
        {
            slots.push(None);
        }
        for i in 0..n
            invariant
                n == rows@.len(),
                lists_entries(rows@, self@),
                dense_ids(self@),
                slots@.len() == n,
                forall|j: int| 0 <= j < i ==> #[trigger] slots@[rows@[j].0 - 1] == Some(rows@[j].1),
                forall|s: int|
                    0 <= s < n && #[trigger] slots@[s] is Some ==> self@.contains_key(
                        slots@[s]->0@,
                    ) && self@[slots@[s]->0@] == s + 1,
        {
            let id = rows[i].0;
            proof {
                assert(self@.contains_key(rows@[i as int].1@));
            }
            let slot = (id - 1) as usize;
            slots.set(slot, Some(rows[i].1.clone()));
            proof {
                assert forall|j: int| 0 <= j < i + 1 implies #[trigger] slots@[rows@[j].0 - 1] == Some(
                    rows@[j].1,
                ) by {
                    if j < i {
                        assert(self@.contains_key(rows@[j].1@));
                        assert(rows@[j].1@ != rows@[i as int].1@);
                    }
                }
            }
        }
        let mut keys: Vec<String> = Vec::new();
        for s in 0..n
            invariant
                n == rows@.len(),
                lists_entries(rows@, self@),
                dense_ids(self@),
                slots@.len() == n,
                forall|j: int| 0 <= j < n ==> #[trigger] slots@[rows@[j].0 - 1] == Some(rows@[j].1),
                forall|t: int|
                    0 <= t < n && #[trigger] slots@[t] is Some ==> self@.contains_key(
                        slots@[t]->0@,
                    ) && self@[slots@[t]->0@] == t + 1,
                keys@.len() == s,
                forall|t: int|
                    0 <= t < s ==> self@.contains_key(#[trigger] keys@[t]@) && self@[keys@[t]@] == t
                        + 1,
        {
            proof {
                assert(holds_id(self@, s + 1));
                let k = choose|k: Seq<char>| self@.contains_key(k) && self@[k] == s + 1;
                let j = choose|j: int| 0 <= j < rows@.len() && rows@[j].1@ == k;
                assert(self@[rows@[j].1@] == rows@[j].0);
                assert(slots@[rows@[j].0 - 1] == Some(rows@[j].1));
                assert(slots@[s as int] is Some);
            }
            match &slots[s] {
                Some(k) => keys.push(k.clone()),
                None => {},
            }
            proof {
                assert(keys@[s as int] == slots@[s as int]->0);
                assert(self@.contains_key(keys@[s as int]@));
                assert(self@[keys@[s as int]@] == s + 1);
            }
        }
        keys
    }

    /// Build an index from (identifier, key) rows, as read back from storage.
    ///
    /// The rows must give distinct keys distinct identifiers in `1..=rows.len()`;
    /// the first row that does not is reported.
    pub fn from_rows(rows: &[(Id, String)]) -> (r: Result<IdIndex, IndexError>)
        ensures
            match r {
                Ok(index) => rows_valid(rows@) && index@ == rows_map(rows@) && index.wf(),
                Err(e) => exists|i: int|
                    0 <= i < rows@.len() && rows_ok_upto(rows@, i) && row_error(rows@, i) == Some(
                        e,
                    ),
            },
            r is Ok <==> rows_valid(rows@),
    {
        let n = rows.len();
        let mut map = KeyTable::new();
        let mut taken: Vec<bool> = Vec::new();
        for i in 0..n
            invariant
                taken@.len() == i,
                forall|j: int| 0 <= j < i ==> !taken@[j],
        {
            taken.push(false);
        }
        proof {
            assert(rows@.take(0) =~= Seq::<(Id, String)>::empty());
            assert(table_entries(map) =~= rows_map(rows@.take(0)));
        }
        for i in 0..n
            invariant
                n == rows@.len(),
                taken@.len() == n,
                rows_ok_upto(rows@, i as int),
                table_entries(map) == rows_map(rows@.take(i as int)),
                forall|v: int|
                    0 <= v < n ==> (#[trigger] taken@[v] <==> exists|j: int|
                        0 <= j < i && rows@[j].0 == v + 1),
        {
            proof {
                lemma_rows_map_prefix(rows@, i as int);
            }
            let id = rows[i].0;
            if id < 1 || id as usize > n {
                proof {
                    assert(row_error(rows@, i as int) == Some(IndexError::IdOutOfRange(i)));
                }
                return Err(IndexError::IdOutOfRange(i));
            }
            if map.get(rows[i].1.as_str()).is_some() {
                proof {
                    let j = choose|j: int| 0 <= j < i && rows@[j].1@ == rows@[i as int].1@;
                    assert(row_error(rows@, i as int) == Some(IndexError::DuplicateKey(i)));
                }
                return Err(IndexError::DuplicateKey(i));
            }
            let slot = (id - 1) as usize;
            if taken[slot] {
                proof {
                    assert(row_error(rows@, i as int) == Some(IndexError::DuplicateId(i)));
                }
                return Err(IndexError::DuplicateId(i));
            }
            taken.set(slot, true);
            map.insert(rows[i].1.clone(), id);
            proof {
                assert(rows@.take(i + 1).drop_last() == rows@.take(i as int));
                assert forall|j: int| 0 <= j < i implies rows@[j].1@ != rows@[i as int].1@ by {
                    assert(table_entries(map).contains_key(rows@[j].1@));
                }
                assert forall|j: int| 0 <= j < i implies rows@[j].0 != rows@[i as int].0 by {
                    assert(taken@[rows@[j].0 - 1]);
                }
            }
        }
        proof {
            assert(rows@.take(n as int) == rows@);
            lemma_valid_rows_dense(rows@);
        }
        Ok(IdIndex { map })
    }
}

} // verus!
