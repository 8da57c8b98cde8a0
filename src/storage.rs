use vstd::prelude::*;

verus! {

/// A fixed-size key that addresses a slot of contract storage.
pub struct Key(pub [u8; 32]);

impl View for Key {
    type V = Seq<u8>;

    open spec fn view(&self) -> Seq<u8> {
        self.0@
    }
}

/// The bytes that an optional byte vector holds.
pub open spec fn opt_bytes(o: Option<Vec<u8>>) -> Option<Seq<u8>> {
    match o {
        Some(v) => Some(v@),
        None => None,
    }
}

/// Whether two 32-byte strings are equal.
pub fn bytes32_eq(a: &[u8; 32], b: &[u8; 32]) -> (r: bool)
    ensures
        r == (a@ == b@),
{
    let mut i: usize = 0;
    while i < 32
        invariant
            0 <= i <= 32,
            a@.len() == 32,
            b@.len() == 32,
            forall|j: int| 0 <= j < i ==> a@[j] == b@[j],
        decreases 32 - i,
    {
        if a[i] != b[i] {
            return false;
        }
        i = i + 1;
    }
    assert(a@ =~= b@);
    true
}

/// A table from 32-byte keys to optional byte strings, one entry per key.
pub struct Table {
    entries: Vec<([u8; 32], Option<Vec<u8>>)>,
    model: Ghost<Map<Seq<u8>, Option<Seq<u8>>>>,
}

impl View for Table {
    type V = Map<Seq<u8>, Option<Seq<u8>>>;

    closed spec fn view(&self) -> Map<Seq<u8>, Option<Seq<u8>>> {
        self.model@
    }
}

impl Table {
    /// Each entry stands in the model, each key of the model has an entry, and
    /// no two entries share a key.
    pub closed spec fn wf(&self) -> bool {
        &&& forall|i: int|
            0 <= i < self.entries@.len() ==> {
                &&& self.model@.contains_key((#[trigger] self.entries@[i]).0@)
                &&& self.model@[self.entries@[i].0@] == opt_bytes(self.entries@[i].1)
            }
        &&& forall|k: Seq<u8>|
            #[trigger] self.model@.contains_key(k) ==> exists|i: int|
                0 <= i < self.entries@.len() && #[trigger] self.entries@[i].0@ == k
        &&& forall|i: int, j: int|
            0 <= i < self.entries@.len() && 0 <= j < self.entries@.len() && i != j
                ==> self.entries@[i].0@ != self.entries@[j].0@
    }

    /// The number of entries.
    pub closed spec fn len(&self) -> nat {
        self.entries@.len()
    }

    pub fn new() -> (r: Table)
        ensures
            r.wf(),
            r.len() == 0,
            r@ == Map::<Seq<u8>, Option<Seq<u8>>>::empty(),
    {
        Table { entries: Vec::new(), model: Ghost(Map::empty()) }
    }

    fn find(&self, key: &[u8; 32]) -> (r: Option<usize>)
        requires
            self.wf(),
        ensures
            match r {
                Some(i) => i < self.entries@.len() && self.entries@[i as int].0@ == key@,
                None => !self@.contains_key(key@),
            },
    {
        let mut i: usize = 0;
        while i < self.entries.len()
            invariant
                self.wf(),
                0 <= i <= self.entries@.len(),
                forall|j: int| 0 <= j < i ==> self.entries@[j].0@ != key@,
            decreases self.entries@.len() - i,
        {
            if bytes32_eq(&self.entries[i].0, key) {
                return Some(i);
            }
            i = i + 1;
        }
        None
    }

    /// The entry under `key`, if the table has one.
    pub fn get(&self, key: &[u8; 32]) -> (r: Option<&Option<Vec<u8>>>)
        requires
            self.wf(),
        ensures
            r is Some <==> self@.contains_key(key@),
            r is Some ==> opt_bytes(*r->0) == self@[key@],
    {
        match self.find(key) {
            Some(i) => {
                assert(self.entries@[i as int].0@ == key@);
                Some(&self.entries[i].1)
            },
            None => None,
        }
    }

    /// Sets the entry under `key` to `value`.
    pub fn put(&mut self, key: [u8; 32], value: Option<Vec<u8>>)
        requires
            old(self).wf(),
        ensures
            final(self).wf(),
            final(self)@ == old(self)@.insert(key@, opt_bytes(value)),
    {
        let ghost v = opt_bytes(value);
        match self.find(&key) {
            Some(i) => {
                self.entries.set(i, (key, value));
                self.model = Ghost(self.model@.insert(key@, v));
                assert forall|a: int, b: int|
                    0 <= a < self.entries@.len() && 0 <= b < self.entries@.len() && a != b
                        implies self.entries@[a].0@ != self.entries@[b].0@ by {
                    assert(old(self).entries@[a].0@ == self.entries@[a].0@);
                    assert(old(self).entries@[b].0@ == self.entries@[b].0@);
                }
                assert forall|j: int| 0 <= j < self.entries@.len() implies {
                    &&& self.model@.contains_key((#[trigger] self.entries@[j]).0@)
                    &&& self.model@[self.entries@[j].0@] == opt_bytes(self.entries@[j].1)
                } by {
                    if j != i {
                        assert(old(self).entries@[j] == self.entries@[j]);
                    }
                }
                assert forall|k: Seq<u8>| #[trigger] self.model@.contains_key(k) implies exists|j: int|
                    0 <= j < self.entries@.len() && #[trigger] self.entries@[j].0@ == k by {
                    if k != key@ {
                        let j = choose|j: int|
                            0 <= j < old(self).entries@.len() && #[trigger] old(self).entries@[j].0@ == k;
                        assert(self.entries@[j].0@ == k);
                    } else {
                        assert(self.entries@[i as int].0@ == k);
                    }
                }
            },
            None => {
                self.entries.push((key, value));
                self.model = Ghost(self.model@.insert(key@, v));
                let ghost n: int = self.entries@.len() - 1;
                assert forall|j: int| 0 <= j < n implies self.entries@[j].0@ != key@ by {
                    assert(old(self).entries@[j] == self.entries@[j]);
                    assert(old(self).model@.contains_key(old(self).entries@[j].0@));
                }
                assert forall|j: int| 0 <= j < self.entries@.len() implies {
                    &&& self.model@.contains_key((#[trigger] self.entries@[j]).0@)
                    &&& self.model@[self.entries@[j].0@] == opt_bytes(self.entries@[j].1)
                } by {
                    if j != n {
                        assert(old(self).entries@[j] == self.entries@[j]);
                    }
                }
                assert forall|a: int, b: int|
                    0 <= a < self.entries@.len() && 0 <= b < self.entries@.len() && a != b
                        implies self.entries@[a].0@ != self.entries@[b].0@ by {
                    if a != n && b != n {
                        assert(old(self).entries@[a] == self.entries@[a]);
                        assert(old(self).entries@[b] == self.entries@[b]);
                    }
                }
                assert forall|k: Seq<u8>| #[trigger] self.model@.contains_key(k) implies exists|j: int|
                    0 <= j < self.entries@.len() && #[trigger] self.entries@[j].0@ == k by {
                    if k != key@ {
                        let j = choose|j: int|
                            0 <= j < old(self).entries@.len() && #[trigger] old(self).entries@[j].0@ == k;
                        assert(self.entries@[j].0@ == k);
                    } else {
                        assert(self.entries@[n].0@ == k);
                    }
                }
            },
        }
    }

    /// Takes one entry out of the table, or returns `None` where it is empty.
    pub fn pop(&mut self) -> (r: Option<([u8; 32], Option<Vec<u8>>)>)
        requires
            old(self).wf(),
        ensures
            final(self).wf(),
            match r {
                None => old(self)@ == Map::<Seq<u8>, Option<Seq<u8>>>::empty() && final(self)@ == old(self)@,
                Some(e) => {
                    &&& final(self).len() + 1 == old(self).len()
                    &&& old(self)@.contains_key(e.0@)
                    &&& old(self)@[e.0@] == opt_bytes(e.1)
                    &&& final(self)@ == old(self)@.remove(e.0@)
                },
            },
    {
        match self.entries.pop() {
            None => {
                assert(self.model@ =~= Map::<Seq<u8>, Option<Seq<u8>>>::empty()) by {
                    assert forall|k: Seq<u8>| !self.model@.contains_key(k) by {
                        if self.model@.contains_key(k) {
                            let j = choose|j: int|
                                0 <= j < self.entries@.len() && #[trigger] self.entries@[j].0@ == k;
                        }
                    }
                }
                None
            },
            Some(e) => {
                let ghost n = self.entries@.len() as int;
                assert(old(self).entries@[n] == e);
                self.model = Ghost(self.model@.remove(e.0@));
                assert forall|i: int| 0 <= i < self.entries@.len() implies {
                    &&& self.model@.contains_key((#[trigger] self.entries@[i]).0@)
                    &&& self.model@[self.entries@[i].0@] == opt_bytes(self.entries@[i].1)
                } by {
                    assert(old(self).entries@[i] == self.entries@[i]);
                }
                assert forall|k: Seq<u8>| #[trigger] self.model@.contains_key(k) implies exists|j: int|
                    0 <= j < self.entries@.len() && #[trigger] self.entries@[j].0@ == k by {
                    let j = choose|j: int|
                        0 <= j < old(self).entries@.len() && #[trigger] old(self).entries@[j].0@ == k;
                    assert(j != n);
                    assert(self.entries@[j] == old(self).entries@[j]);
                }
                Some(e)
            },
        }
    }
}

} // verus!
