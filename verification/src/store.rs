//! The in-memory store: named spaces, each a mapping from key strings to byte
//! values.
//!
//! Both levels are association lists with distinct keys; their views are the
//! finite maps they represent, and every operation is specified against those
//! maps. Writers work on a private copy and publish it whole, so a reader's
//! snapshot is never half-updated.

use vstd::pervasive::VecAdditionalExecFns;
use vstd::prelude::*;

use crate::hashed_key::HashedKey;

verus! {

/// The mathematical contents of one space.
pub type SpaceMapV = Map<Seq<char>, Seq<u8>>;

/// The mathematical contents of the whole store.
pub type StoreMapV = Map<Seq<char>, Map<Seq<char>, Seq<u8>>>;

/// One key/value pair inside a space.
#[derive(Debug, Clone)]
pub struct Entry {
    pub key: HashedKey,
    pub value: Vec<u8>,
}

/// The contents of one named space.
#[derive(Debug, Clone)]
pub struct SpaceData {
    entries: Vec<Entry>,
}

/// One named space of the store.
#[derive(Debug, Clone)]
pub struct SpaceEntry {
    pub name: String,
    pub data: SpaceData,
}

/// The whole store.
#[derive(Debug, Clone)]
pub struct Store {
    spaces: Vec<SpaceEntry>,
}

pub open spec fn space_map(s: Seq<Entry>) -> SpaceMapV
    decreases s.len(),
{
    if s.len() == 0 {
        Map::empty()
    } else {
        space_map(s.drop_last()).insert(s.last().key.key@, s.last().value@)
    }
}

pub open spec fn space_keys_distinct(s: Seq<Entry>) -> bool {
    forall|i: int, j: int|
        0 <= i < j < s.len() ==> s[i].key.key@ != s[j].key.key@
}

pub open spec fn store_map(s: Seq<SpaceEntry>) -> StoreMapV
    decreases s.len(),
{
    if s.len() == 0 {
        Map::empty()
    } else {
        store_map(s.drop_last()).insert(s.last().name@, s.last().data@)
    }
}

pub open spec fn space_names_distinct(s: Seq<SpaceEntry>) -> bool {
    forall|i: int, j: int|
        0 <= i < j < s.len() ==> s[i].name@ != s[j].name@
}

proof fn lemma_space_map_contains(s: Seq<Entry>, k: Seq<char>)
    ensures
        space_map(s).contains_key(k) <==> (exists|i: int|
            0 <= i < s.len() && s[i].key.key@ == k),
    decreases s.len(),
{
    if s.len() > 0 {
        lemma_space_map_contains(s.drop_last(), k);
        if s.last().key.key@ == k {
            assert(s[s.len() - 1].key.key@ == k);
        } else {
            if space_map(s).contains_key(k) {
                let i = choose|i: int|
                    0 <= i < s.drop_last().len() && s.drop_last()[i].key.key@ == k;
                assert(s[i].key.key@ == k);
            }
            if exists|i: int| 0 <= i < s.len() && s[i].key.key@ == k {
                let i = choose|i: int| 0 <= i < s.len() && s[i].key.key@ == k;
                assert(s.drop_last()[i].key.key@ == k);
            }
        }
    }
}

proof fn lemma_space_map_get(s: Seq<Entry>, i: int)
    requires
        space_keys_distinct(s),
        0 <= i < s.len(),
    ensures
        space_map(s).contains_key(s[i].key.key@),
        space_map(s)[s[i].key.key@] == s[i].value@,
    decreases s.len(),
{
    if i < s.len() - 1 {
        assert(space_keys_distinct(s.drop_last()));
        lemma_space_map_get(s.drop_last(), i);
        assert(s.last().key.key@ != s[i].key.key@);
    }
}

proof fn lemma_space_map_update(s: Seq<Entry>, i: int, e: Entry)
    requires
        space_keys_distinct(s),
        0 <= i < s.len(),
        e.key.key@ == s[i].key.key@,
    ensures
        space_map(s.update(i, e)) == space_map(s).insert(e.key.key@, e.value@),
    decreases s.len(),
{
    let t = s.update(i, e);
    if i == s.len() - 1 {
        assert(t.drop_last() =~= s.drop_last());
        assert(space_map(t) =~= space_map(s).insert(e.key.key@, e.value@));
    } else {
        assert(t.drop_last() =~= s.drop_last().update(i, e));
        assert(space_keys_distinct(s.drop_last()));
        lemma_space_map_update(s.drop_last(), i, e);
        assert(t.last() == s.last());
        assert(s[i].key.key@ != s.last().key.key@);
        assert(space_map(t) =~= space_map(s).insert(e.key.key@, e.value@));
    }
}

proof fn lemma_space_map_remove(s: Seq<Entry>, i: int)
    requires
        space_keys_distinct(s),
        0 <= i < s.len(),
    ensures
        space_map(s.remove(i)) == space_map(s).remove(s[i].key.key@),
    decreases s.len(),
{
    let k = s[i].key.key@;
    if i == s.len() - 1 {
        assert(s.remove(i) =~= s.drop_last());
        lemma_space_map_contains(s.drop_last(), k);
        assert forall|j: int| 0 <= j < s.drop_last().len() implies s.drop_last()[j].key.key@ != k by {
            assert(s[j].key.key@ != s[i].key.key@);
        }
        assert(!space_map(s.drop_last()).contains_key(k));
        assert(space_map(s.remove(i)) =~= space_map(s).remove(k));
    } else {
        assert(s.remove(i).drop_last() =~= s.drop_last().remove(i));
        assert(s.remove(i).last() == s.last());
        assert(space_keys_distinct(s.drop_last()));
        lemma_space_map_remove(s.drop_last(), i);
        assert(s.last().key.key@ != k);
        assert(space_map(s.remove(i)) =~= space_map(s).remove(k));
    }
}

proof fn lemma_space_map_push(s: Seq<Entry>, e: Entry)
    ensures
        space_map(s.push(e)) == space_map(s).insert(e.key.key@, e.value@),
{
    assert(s.push(e).drop_last() =~= s);
    assert(s.push(e).last() == e);
    assert(space_map(s.push(e)) =~= space_map(s).insert(e.key.key@, e.value@));
}

proof fn lemma_store_map_contains(s: Seq<SpaceEntry>, k: Seq<char>)
    ensures
        store_map(s).contains_key(k) <==> (exists|i: int| 0 <= i < s.len() && s[i].name@ == k),
    decreases s.len(),
{
    if s.len() > 0 {
        lemma_store_map_contains(s.drop_last(), k);
        if s.last().name@ == k {
            assert(s[s.len() - 1].name@ == k);
        } else {
            if store_map(s).contains_key(k) {
                let i = choose|i: int| 0 <= i < s.drop_last().len() && s.drop_last()[i].name@ == k;
                assert(s[i].name@ == k);
            }
            if exists|i: int| 0 <= i < s.len() && s[i].name@ == k {
                let i = choose|i: int| 0 <= i < s.len() && s[i].name@ == k;
                assert(s.drop_last()[i].name@ == k);
            }
        }
    }
}

proof fn lemma_store_map_get(s: Seq<SpaceEntry>, i: int)
    requires
        space_names_distinct(s),
        0 <= i < s.len(),
    ensures
        store_map(s).contains_key(s[i].name@),
        store_map(s)[s[i].name@] == s[i].data@,
    decreases s.len(),
{
    if i < s.len() - 1 {
        assert(space_names_distinct(s.drop_last()));
        lemma_store_map_get(s.drop_last(), i);
        assert(s.last().name@ != s[i].name@);
    }
}

proof fn lemma_store_map_update(s: Seq<SpaceEntry>, i: int, e: SpaceEntry)
    requires
        space_names_distinct(s),
        0 <= i < s.len(),
        e.name@ == s[i].name@,
    ensures
        store_map(s.update(i, e)) == store_map(s).insert(e.name@, e.data@),
    decreases s.len(),
{
    let t = s.update(i, e);
    if i == s.len() - 1 {
        assert(t.drop_last() =~= s.drop_last());
        assert(store_map(t) =~= store_map(s).insert(e.name@, e.data@));
    } else {
        assert(t.drop_last() =~= s.drop_last().update(i, e));
        assert(space_names_distinct(s.drop_last()));
        lemma_store_map_update(s.drop_last(), i, e);
        assert(t.last() == s.last());
        assert(s[i].name@ != s.last().name@);
        assert(store_map(t) =~= store_map(s).insert(e.name@, e.data@));
    }
}

proof fn lemma_store_map_remove(s: Seq<SpaceEntry>, i: int)
    requires
        space_names_distinct(s),
        0 <= i < s.len(),
    ensures
        store_map(s.remove(i)) == store_map(s).remove(s[i].name@),
    decreases s.len(),
{
    let k = s[i].name@;
    if i == s.len() - 1 {
        assert(s.remove(i) =~= s.drop_last());
        lemma_store_map_contains(s.drop_last(), k);
        assert forall|j: int| 0 <= j < s.drop_last().len() implies s.drop_last()[j].name@ != k by {
            assert(s[j].name@ != s[i].name@);
        }
        assert(!store_map(s.drop_last()).contains_key(k));
        assert(store_map(s.remove(i)) =~= store_map(s).remove(k));
    } else {
        assert(s.remove(i).drop_last() =~= s.drop_last().remove(i));
        assert(s.remove(i).last() == s.last());
        assert(space_names_distinct(s.drop_last()));
        lemma_store_map_remove(s.drop_last(), i);
        assert(s.last().name@ != k);
        assert(store_map(s.remove(i)) =~= store_map(s).remove(k));
    }
}

proof fn lemma_store_map_push(s: Seq<SpaceEntry>, e: SpaceEntry)
    ensures
        store_map(s.push(e)) == store_map(s).insert(e.name@, e.data@),
{
    assert(s.push(e).drop_last() =~= s);
    assert(s.push(e).last() == e);
    assert(store_map(s.push(e)) =~= store_map(s).insert(e.name@, e.data@));
}

impl View for SpaceData {
    type V = SpaceMapV;

    closed spec fn view(&self) -> SpaceMapV {
        space_map(self.entries@)
    }
}

impl SpaceData {
    /// Key strings are distinct, so the entry list denotes its map faithfully.
    pub closed spec fn wf(&self) -> bool {
        space_keys_distinct(self.entries@)
    }

    pub fn new() -> (r: SpaceData)
        ensures
            r@ == Map::<Seq<char>, Seq<u8>>::empty(),
            r.wf(),
    {
        SpaceData { entries: Vec::new() }
    }

    fn find(&self, key: &String) -> (r: Option<usize>)
        ensures
            match r {
                Some(i) => i < self.entries@.len() && self.entries@[i as int].key.key@ == key@,
                None => forall|i: int|
                    0 <= i < self.entries@.len() ==> self.entries@[i].key.key@ != key@,
            },
    {
        let mut i: usize = 0;
        while i < self.entries.len()
            invariant
                i <= self.entries@.len(),
                forall|j: int| 0 <= j < i ==> self.entries@[j].key.key@ != key@,
            decreases self.entries@.len() - i,
        {
            if self.entries[i].key.key == *key {
                return Some(i);
            }
            i = i + 1;
        }
        None
    }

    /// Look a key up; `None` exactly when the key is absent.
    pub fn get<'a>(&'a self, key: &String) -> (r: Option<&'a Vec<u8>>)
        requires
            self.wf(),
        ensures
            match r {
                Some(v) => self@.contains_key(key@) && v@ == self@[key@],
                None => !self@.contains_key(key@),
            },
    {
        proof {
            lemma_space_map_contains(self.entries@, key@);
        }
        match self.find(key) {
            Some(i) => {
                proof {
                    lemma_space_map_get(self.entries@, i as int);
                }
                Some(&self.entries[i].value)
            },
            None => None,
        }
    }

    /// Insert or overwrite one key.
    pub fn insert(&mut self, key: HashedKey, value: Vec<u8>)
        requires
            old(self).wf(),
        ensures
            final(self).wf(),
            final(self)@ == old(self)@.insert(key.key@, value@),
    {
        let ghost s0 = self.entries@;
        match self.find(&key.key) {
            Some(i) => {
                let ghost k = key.key@;
                self.entries.set(i, Entry { key, value });
                proof {
                    assert(self.entries@ == s0.update(i as int, self.entries@[i as int]));
                    lemma_space_map_update(s0, i as int, self.entries@[i as int]);
                    assert forall|a: int, b: int|
                        0 <= a < b < self.entries@.len() implies self.entries@[a].key.key@
                        != self.entries@[b].key.key@ by {
                        assert(s0[a].key.key@ != s0[b].key.key@);
                    }
                }
            },
            None => {
                let ghost k = key.key@;
                self.entries.push(Entry { key, value });
                proof {
                    lemma_space_map_push(s0, self.entries@.last());
                    assert forall|a: int, b: int|
                        0 <= a < b < self.entries@.len() implies self.entries@[a].key.key@
                        != self.entries@[b].key.key@ by {
                        if b < s0.len() {
                            assert(s0[a].key.key@ != s0[b].key.key@);
                        } else {
                            assert(s0[a].key.key@ != k);
                        }
                    }
                }
            },
        }
    }

    /// Remove one key; removing an absent key changes nothing.
    pub fn remove_key(&mut self, key: &String)
        requires
            old(self).wf(),
        ensures
            final(self).wf(),
            final(self)@ == old(self)@.remove(key@),
    {
        let ghost s0 = self.entries@;
        proof {
            lemma_space_map_contains(s0, key@);
        }
        match self.find(key) {
            Some(i) => {
                self.entries.remove(i);
                proof {
                    lemma_space_map_remove(s0, i as int);
                    assert forall|a: int, b: int|
                        0 <= a < b < self.entries@.len() implies self.entries@[a].key.key@
                        != self.entries@[b].key.key@ by {
                        let a0 = if a < i as int { a } else { a + 1 };
                        let b0 = if b < i as int { b } else { b + 1 };
                        assert(s0[a0].key.key@ != s0[b0].key.key@);
                    }
                }
            },
            None => {
                proof {
                    assert(!space_map(s0).contains_key(key@));
                    assert(self@ =~= old(self)@.remove(key@));
                }
            },
        }
    }

    /// The key strings now present, without duplicates, in unspecified order.
    pub fn key_strings(&self) -> (r: Vec<String>)
        requires
            self.wf(),
        ensures
            r.deep_view().no_duplicates(),
            forall|k: Seq<char>| #[trigger] r.deep_view().contains(k) <==> self@.contains_key(k),
    {
        let mut r: Vec<String> = Vec::new();
        let mut i: usize = 0;
        while i < self.entries.len()
            invariant
                self.wf(),
                i <= self.entries@.len(),
                r@.len() == i,
                forall|j: int| 0 <= j < i ==> r@[j]@ == self.entries@[j].key.key@,
            decreases self.entries@.len() - i,
        {
            let s = self.entries[i].key.key.clone();
            r.push(s);
            i = i + 1;
        }
        proof {
            assert(forall|j: int|
                0 <= j < r@.len() ==> #[trigger] r.deep_view()[j] == r@[j]@);
            assert forall|k: Seq<char>| #[trigger] r.deep_view().contains(k)
                <==> self@.contains_key(k) by {
                lemma_space_map_contains(self.entries@, k);
                if r.deep_view().contains(k) {
                    let j = choose|j: int| 0 <= j < r.deep_view().len() && r.deep_view()[j] == k;
                    assert(self.entries@[j].key.key@ == k);
                }
                if self@.contains_key(k) {
                    let j = choose|j: int|
                        0 <= j < self.entries@.len() && self.entries@[j].key.key@ == k;
                    assert(r.deep_view()[j] == k);
                }
            }
            assert forall|a: int, b: int|
                0 <= a < b < r.deep_view().len() implies r.deep_view()[a] != r.deep_view()[b] by {
                assert(self.entries@[a].key.key@ != self.entries@[b].key.key@);
            }
        }
        r
    }
}

impl View for Store {
    type V = StoreMapV;

    closed spec fn view(&self) -> StoreMapV {
        store_map(self.spaces@)
    }
}

impl Store {
    /// Space names are distinct and every space is itself well formed.
    pub closed spec fn wf(&self) -> bool {
        &&& space_names_distinct(self.spaces@)
        &&& forall|i: int| 0 <= i < self.spaces@.len() ==> (#[trigger] self.spaces@[i]).data.wf()
    }

    pub fn new() -> (r: Store)
        ensures
            r@ == Map::<Seq<char>, Map<Seq<char>, Seq<u8>>>::empty(),
            r.wf(),
    {
        Store { spaces: Vec::new() }
    }

    fn find(&self, name: &String) -> (r: Option<usize>)
        ensures
            match r {
                Some(i) => i < self.spaces@.len() && self.spaces@[i as int].name@ == name@,
                None => forall|i: int|
                    0 <= i < self.spaces@.len() ==> self.spaces@[i].name@ != name@,
            },
    {
        let mut i: usize = 0;
        while i < self.spaces.len()
            invariant
                i <= self.spaces@.len(),
                forall|j: int| 0 <= j < i ==> self.spaces@[j].name@ != name@,
            decreases self.spaces@.len() - i,
        {
            if self.spaces[i].name == *name {
                return Some(i);
            }
            i = i + 1;
        }
        None
    }

    /// Whether a space of this name exists.
    pub fn contains_space(&self, name: &String) -> (r: bool)
        ensures
            r == self@.contains_key(name@),
    {
        proof {
            lemma_store_map_contains(self.spaces@, name@);
        }
        self.find(name).is_some()
    }

    /// Look a space up; `None` exactly when it is absent.
    pub fn get_space<'a>(&'a self, name: &String) -> (r: Option<&'a SpaceData>)
        requires
            self.wf(),
        ensures
            match r {
                Some(d) => self@.contains_key(name@) && d@ == self@[name@] && d.wf(),
                None => !self@.contains_key(name@),
            },
    {
        proof {
            lemma_store_map_contains(self.spaces@, name@);
        }
        match self.find(name) {
            Some(i) => {
                proof {
                    lemma_store_map_get(self.spaces@, i as int);
                }
                Some(&self.spaces[i].data)
            },
            None => None,
        }
    }

    /// Insert a space, overwriting any space of the same name.
    pub fn insert_space(&mut self, name: String, data: SpaceData)
        requires
            old(self).wf(),
            data.wf(),
        ensures
            final(self).wf(),
            final(self)@ == old(self)@.insert(name@, data@),
    {
        let ghost s0 = self.spaces@;
        match self.find(&name) {
            Some(i) => {
                self.spaces.set(i, SpaceEntry { name, data });
                proof {
                    lemma_store_map_update(s0, i as int, self.spaces@[i as int]);
                    assert forall|a: int, b: int|
                        0 <= a < b < self.spaces@.len() implies self.spaces@[a].name@
                        != self.spaces@[b].name@ by {
                        assert(s0[a].name@ != s0[b].name@);
                    }
                }
            },
            None => {
                let ghost n = name@;
                self.spaces.push(SpaceEntry { name, data });
                proof {
                    lemma_store_map_push(s0, self.spaces@.last());
                    assert forall|a: int, b: int|
                        0 <= a < b < self.spaces@.len() implies self.spaces@[a].name@
                        != self.spaces@[b].name@ by {
                        if b < s0.len() {
                            assert(s0[a].name@ != s0[b].name@);
                        } else {
                            assert(s0[a].name@ != n);
                        }
                    }
                }
            },
        }
    }

    /// Remove a space; removing an absent space changes nothing.
    pub fn remove_space(&mut self, name: &String)
        requires
            old(self).wf(),
        ensures
            final(self).wf(),
            final(self)@ == old(self)@.remove(name@),
    {
        let ghost s0 = self.spaces@;
        proof {
            lemma_store_map_contains(s0, name@);
        }
        match self.find(name) {
            Some(i) => {
                self.spaces.remove(i);
                proof {
                    lemma_store_map_remove(s0, i as int);
                    assert forall|a: int, b: int|
                        0 <= a < b < self.spaces@.len() implies self.spaces@[a].name@
                        != self.spaces@[b].name@ by {
                        let a0 = if a < i as int { a } else { a + 1 };
                        let b0 = if b < i as int { b } else { b + 1 };
                        assert(s0[a0].name@ != s0[b0].name@);
                    }
                }
            },
            None => {
                proof {
                    assert(self@ =~= old(self)@.remove(name@));
                }
            },
        }
    }

    /// The map held by a space, or the empty map if the space is absent.
    pub open spec fn space_or_empty(m: StoreMapV, name: Seq<char>) -> SpaceMapV {
        if m.contains_key(name) {
            m[name]
        } else {
            Map::empty()
        }
    }

    /// Store a value under `space`/`key`, creating the space if it is absent.
    pub fn set_value(&mut self, space: String, key: HashedKey, value: Vec<u8>)
        requires
            old(self).wf(),
        ensures
            final(self).wf(),
            final(self)@ == old(self)@.insert(
                space@,
                Store::space_or_empty(old(self)@, space@).insert(key.key@, value@),
            ),
    {
        let ghost s0 = self.spaces@;
        proof {
            lemma_store_map_contains(s0, space@);
        }
        match self.find(&space) {
            Some(i) => {
                let mut se = self.spaces.remove(i);
                proof {
                    lemma_store_map_get(s0, i as int);
                }
                se.data.insert(key, value);
                self.spaces.insert(i, se);
                proof {
                    assert(self.spaces@ =~= s0.update(i as int, self.spaces@[i as int]));
                    lemma_store_map_update(s0, i as int, self.spaces@[i as int]);
                    assert forall|a: int, b: int|
                        0 <= a < b < self.spaces@.len() implies self.spaces@[a].name@
                        != self.spaces@[b].name@ by {
                        assert(s0[a].name@ != s0[b].name@);
                    }
                }
            },
            None => {
                let mut data = SpaceData::new();
                data.insert(key, value);
                let ghost n = space@;
                self.spaces.push(SpaceEntry { name: space, data });
                proof {
                    lemma_store_map_push(s0, self.spaces@.last());
                    assert(Store::space_or_empty(store_map(s0), n) =~= Map::<
                        Seq<char>,
                        Seq<u8>,
                    >::empty());
                    assert forall|a: int, b: int|
                        0 <= a < b < self.spaces@.len() implies self.spaces@[a].name@
                        != self.spaces@[b].name@ by {
                        if b < s0.len() {
                            assert(s0[a].name@ != s0[b].name@);
                        } else {
                            assert(s0[a].name@ != n);
                        }
                    }
                }
            },
        }
    }

    /// Remove `key` from `space` if the space exists; reports whether it did.
    /// Removing an absent key from an existing space changes nothing.
    pub fn delete_value(&mut self, space: &String, key: &String) -> (r: bool)
        requires
            old(self).wf(),
        ensures
            final(self).wf(),
            r == old(self)@.contains_key(space@),
            r ==> final(self)@ == old(self)@.insert(space@, old(self)@[space@].remove(key@)),
            !r ==> final(self)@ == old(self)@,
    {
        let ghost s0 = self.spaces@;
        proof {
            lemma_store_map_contains(s0, space@);
        }
        match self.find(space) {
            Some(i) => {
                let mut se = self.spaces.remove(i);
                proof {
                    lemma_store_map_get(s0, i as int);
                }
                se.data.remove_key(key);
                self.spaces.insert(i, se);
                proof {
                    assert(self.spaces@ =~= s0.update(i as int, self.spaces@[i as int]));
                    lemma_store_map_update(s0, i as int, self.spaces@[i as int]);
                    assert forall|a: int, b: int|
                        0 <= a < b < self.spaces@.len() implies self.spaces@[a].name@
                        != self.spaces@[b].name@ by {
                        assert(s0[a].name@ != s0[b].name@);
                    }
                }
                true
            },
            None => false,
        }
    }

    /// The space names now present, without duplicates, in unspecified order.
    pub fn space_names(&self) -> (r: Vec<String>)
        requires
            self.wf(),
        ensures
            r.deep_view().no_duplicates(),
            forall|k: Seq<char>| #[trigger] r.deep_view().contains(k) <==> self@.contains_key(k),
    {
        let mut r: Vec<String> = Vec::new();
        let mut i: usize = 0;
        while i < self.spaces.len()
            invariant
                self.wf(),
                i <= self.spaces@.len(),
                r@.len() == i,
                forall|j: int| 0 <= j < i ==> r@[j]@ == self.spaces@[j].name@,
            decreases self.spaces@.len() - i,
        {
            let s = self.spaces[i].name.clone();
            r.push(s);
            i = i + 1;
        }
        proof {
            assert(forall|j: int|
                0 <= j < r@.len() ==> #[trigger] r.deep_view()[j] == r@[j]@);
            assert forall|k: Seq<char>| #[trigger] r.deep_view().contains(k)
                <==> self@.contains_key(k) by {
                lemma_store_map_contains(self.spaces@, k);
                if r.deep_view().contains(k) {
                    let j = choose|j: int| 0 <= j < r.deep_view().len() && r.deep_view()[j] == k;
                    assert(self.spaces@[j].name@ == k);
                }
                if self@.contains_key(k) {
                    let j = choose|j: int|
                        0 <= j < self.spaces@.len() && self.spaces@[j].name@ == k;
                    assert(r.deep_view()[j] == k);
                }
            }
            assert forall|a: int, b: int|
                0 <= a < b < r.deep_view().len() implies r.deep_view()[a] != r.deep_view()[b] by {
                assert(self.spaces@[a].name@ != self.spaces@[b].name@);
            }
        }
        r
    }
}

} // verus!
