//! The attribute store: byte values under a token identifier and a byte key.

use ink_prelude::vec::Vec;
use vstd::prelude::*;

use crate::id::{bytes_equal, copy_bytes, Id, IdView};

verus! {

/// What an attribute is found by: the identifier that scopes it and its key.
pub type AttributeName = (IdView, Seq<u8>);

/// What a store with the contents `store` holds under `(id, key)`.
pub open spec fn lookup(store: Map<AttributeName, Seq<u8>>, id: IdView, key: Seq<u8>) -> Option<
    Seq<u8>,
> {
    if store.contains_key((id, key)) {
        Some(store[(id, key)])
    } else {
        None
    }
}

/// The contents of a store after `value` was put under `(id, key)`.
pub open spec fn stored(
    store: Map<AttributeName, Seq<u8>>,
    id: IdView,
    key: Seq<u8>,
    value: Seq<u8>,
) -> Map<AttributeName, Seq<u8>> {
    store.insert((id, key), value)
}

/// The bytes of an optional byte string.
pub open spec fn optional_bytes(v: Option<Vec<u8>>) -> Option<Seq<u8>> {
    match v {
        Some(b) => Some(b@),
        None => None,
    }
}

/// One stored attribute.
struct Attribute {
    id: Id,
    key: Vec<u8>,
    value: Vec<u8>,
}

impl Attribute {
    /// The identifier and key under which the attribute is stored.
    spec fn name(&self) -> AttributeName {
        (self.id@, self.key@)
    }
}

/// No two of the entries share a name.
spec fn distinct_names(entries: Seq<Attribute>) -> bool {
    forall|i: int, j: int|
        0 <= i < j < entries.len() ==> #[trigger] entries[i].name() != #[trigger] entries[j].name()
}

/// Byte values keyed by identifier and key. Its view is the map from names to
/// values; no name is stored twice.
pub struct AttributeStore {
    entries: Vec<Attribute>,
}

impl View for AttributeStore {
    type V = Map<AttributeName, Seq<u8>>;

    closed spec fn view(&self) -> Map<AttributeName, Seq<u8>> {
        Map::new(
            |n: AttributeName| self.holds(n),
            |n: AttributeName| self.entries@[self.position(n)].value@,
        )
    }
}

impl AttributeStore {
    /// Some entry is stored under `n`.
    spec fn holds(&self, n: AttributeName) -> bool {
        exists|i: int| 0 <= i < self.entries@.len() && #[trigger] self.entries@[i].name() == n
    }

    /// The place of an entry stored under `n`.
    spec fn position(&self, n: AttributeName) -> int {
        choose|i: int| 0 <= i < self.entries@.len() && #[trigger] self.entries@[i].name() == n
    }

    /// No two entries share a name.
    #[verifier::type_invariant]
    spec fn wf(&self) -> bool {
        distinct_names(self.entries@)
    }

    /// The entry at place `i` is what the view holds under its name.
    proof fn lemma_entry(&self, i: int)
        requires
            self.wf(),
            0 <= i < self.entries@.len(),
        ensures
            self@.contains_key(self.entries@[i].name()),
            self@[self.entries@[i].name()] == self.entries@[i].value@,
            self.position(self.entries@[i].name()) == i,
    {
        let n = self.entries@[i].name();
        assert(self.holds(n));
        let p = self.position(n);
        assert(0 <= p < self.entries@.len() && self.entries@[p].name() == n);
        if p < i {
            assert(self.entries@[p].name() != self.entries@[i].name());
        } else if i < p {
            assert(self.entries@[i].name() != self.entries@[p].name());
        }
    }

    /// A store without attributes.
    pub fn new() -> (s: AttributeStore)
        ensures
            s@ == Map::<AttributeName, Seq<u8>>::empty(),
    {
        let s = AttributeStore { entries: Vec::new() };
        assert(s@ =~= Map::<AttributeName, Seq<u8>>::empty());
        s
    }

    /// The place of the entry stored under `(id, key)`, if there is one.
    fn find(&self, id: &Id, key: &Vec<u8>) -> (r: Option<usize>)
        ensures
            match r {
                Some(i) => i < self.entries@.len() && self.entries@[i as int].name() == (id@, key@),
                None => !self@.contains_key((id@, key@)),
            },
    {
        let mut i: usize = 0;
        while i < self.entries.len()
            invariant
                i <= self.entries@.len(),
                forall|j: int| 0 <= j < i ==> (#[trigger] self.entries@[j].name()) != (id@, key@),
            decreases self.entries@.len() - i,
        {
            let e = &self.entries[i];
            if e.id.same(id) && bytes_equal(&e.key, key) {
                return Some(i);
            }
            i += 1;
        }
        None
    }

    /// Stores `value` under `(id, key)`, in place of what was stored there.
    /// Every other attribute stays as it was.
    pub fn set_attribute(&mut self, id: Id, key: Vec<u8>, value: Vec<u8>)
        ensures
            final(self)@ == stored(old(self)@, id@, key@, value@),
    {
        proof {
            use_type_invariant(&*self);
        }
        let ghost n = (id@, key@);
        let ghost before = *self;
        let found = self.find(&id, &key);
        let entry = Attribute { id, key, value };
        let mut entries: Vec<Attribute> = Vec::new();
        core::mem::swap(&mut self.entries, &mut entries);
        let ghost last = before.entries@.len() as int;
        match found {
            Some(i) => {
                entries.set(i, entry);
                assert(distinct_names(entries@)) by {
                    assert forall|a: int, b: int| 0 <= a < b < entries@.len() implies (
                    #[trigger] entries@[a].name()) != (#[trigger] entries@[b].name()) by {
                        assert(before.entries@[a].name() != before.entries@[b].name());
                    }
                }
            },
            None => {
                entries.push(entry);
                assert(distinct_names(entries@)) by {
                    assert forall|a: int, b: int| 0 <= a < b < entries@.len() implies (
                    #[trigger] entries@[a].name()) != (#[trigger] entries@[b].name()) by {
                        if b < last {
                            assert(before.entries@[a].name() != before.entries@[b].name());
                        } else {
                            assert(before.entries@[a].name() == entries@[a].name());
                            if entries@[a].name() == n {
                                assert(before.holds(n));
                            }
                        }
                    }
                }
            },
        }
        self.entries = entries;
        proof {
            let place = match found {
                Some(i) => i as int,
                None => last,
            };
            assert(self.entries@[place].name() == n);
            assert(self@ =~= before@.insert(n, value@)) by {
                assert forall|m: AttributeName| #[trigger]
                    self@.contains_key(m) == before@.insert(n, value@).contains_key(m) by {
                    if self.holds(m) {
                        let p = self.position(m);
                        if p < last {
                            assert(before.entries@[p].name() == m);
                        }
                    }
                    if before.holds(m) {
                        let p = before.position(m);
                        assert(self.entries@[p].name() == m);
                    }
                }
                assert forall|m: AttributeName| #[trigger] self@.contains_key(m) implies self@[m]
                    == before@.insert(n, value@)[m] by {
                    let p = self.position(m);
                    self.lemma_entry(p);
                    if p < last {
                        before.lemma_entry(p);
                    }
                    self.lemma_entry(place);
                }
            }
        }
    }

    /// The value stored under `(id, key)`, or nothing where none is.
    pub fn get_attribute(&self, id: &Id, key: &Vec<u8>) -> (r: Option<Vec<u8>>)
        ensures
            optional_bytes(r) == lookup(self@, id@, key@),
    {
        match self.find(id, key) {
            Some(i) => {
                proof {
                    use_type_invariant(self);
                    self.lemma_entry(i as int);
                }
                Some(copy_bytes(&self.entries[i].value))
            },
            None => None,
        }
    }
}

/// What was put under a name is what is found there afterwards.
pub proof fn lemma_get_after_set(
    store: Map<AttributeName, Seq<u8>>,
    id: IdView,
    key: Seq<u8>,
    value: Seq<u8>,
)
    ensures
        lookup(stored(store, id, key, value), id, key) == Some(value),
{
}

/// Putting a value under one name changes nothing that is found under
/// another, be it another identifier or another key.
pub proof fn lemma_set_keeps_others(
    store: Map<AttributeName, Seq<u8>>,
    id: IdView,
    key: Seq<u8>,
    value: Seq<u8>,
    other_id: IdView,
    other_key: Seq<u8>,
)
    requires
        (other_id, other_key) != (id, key),
    ensures
        lookup(stored(store, id, key, value), other_id, other_key) == lookup(
            store,
            other_id,
            other_key,
        ),
{
}

/// Nothing is found under a name under which nothing was ever put.
pub proof fn lemma_get_unset(id: IdView, key: Seq<u8>)
    ensures
        lookup(Map::<AttributeName, Seq<u8>>::empty(), id, key) == None::<Seq<u8>>,
{
}

} // verus!
