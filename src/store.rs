use vstd::prelude::*;

verus! {

/// Number of bytes in a public key.
pub const KEY_LEN: usize = 32;

/// A public key identifying the owner of a timestamp.
#[derive(Clone, Copy)]
pub struct PublicKey {
    pub bytes: [u8; 32],
}

impl PublicKey {
    pub open spec fn view(&self) -> Seq<u8> {
        self.bytes@
    }

    pub fn new(bytes: [u8; 32]) -> (r: PublicKey)
        ensures
            r@ == bytes@,
    {
        PublicKey { bytes }
    }

    /// Byte-wise comparison of two keys.
    pub fn same_as(&self, other: &PublicKey) -> (r: bool)
        ensures
            r == (self@ == other@),
    {
        let mut i: usize = 0;
        while i < KEY_LEN
            invariant
                0 <= i <= KEY_LEN,
                self@.len() == KEY_LEN,
                other@.len() == KEY_LEN,
                forall|j: int| 0 <= j < i ==> self@[j] == other@[j],
            decreases KEY_LEN - i,
        {
            if self.bytes[i] != other.bytes[i] {
                return false;
            }
            i = i + 1;
        }
        assert(self@ =~= other@);
        true
    }
}

/// The abstract content of a stored timestamp.
pub struct TimestampView {
    pub pub_key: Seq<u8>,
    pub name: Seq<char>,
    pub time: u32,
}

/// A persisted record: who, what label, and when (seconds since the Unix epoch).
pub struct Timestamp {
    pub pub_key: PublicKey,
    pub name: String,
    pub time: u32,
}

impl Timestamp {
    pub open spec fn view(&self) -> TimestampView {
        TimestampView { pub_key: self.pub_key@, name: self.name@, time: self.time }
    }

    pub fn new(pub_key: &PublicKey, name: &str, time: u32) -> (r: Timestamp)
        ensures
            r@ == (TimestampView { pub_key: pub_key@, name: name@, time }),
    {
        Timestamp { pub_key: *pub_key, name: name.to_owned(), time }
    }

    pub fn pub_key(&self) -> (r: &PublicKey)
        ensures
            r@ == self.pub_key@,
    {
        &self.pub_key
    }

    pub fn name(&self) -> (r: &str)
        ensures
            r@ == self.name@,
    {
        self.name.as_str()
    }

    pub fn time(&self) -> (r: u32)
        ensures
            r == self.time,
    {
        self.time
    }

    /// An independent copy of this record.
    pub fn duplicate(&self) -> (r: Timestamp)
        ensures
            r@ == self@,
    {
        Timestamp { pub_key: self.pub_key, name: self.name.clone(), time: self.time }
    }
}

/// The views of a sequence of records.
pub open spec fn views_of(s: Seq<Timestamp>) -> Seq<TimestampView> {
    s.map_values(|t: Timestamp| t@)
}

/// The key-to-record map that a sequence of records denotes; a later entry
/// for a key shadows an earlier one.
pub open spec fn map_of(s: Seq<TimestampView>) -> Map<Seq<u8>, TimestampView>
    decreases s.len(),
{
    if s.len() == 0 {
        Map::empty()
    } else {
        map_of(s.drop_last()).insert(s.last().pub_key, s.last())
    }
}

/// No two entries share a key.
pub open spec fn keys_unique(s: Seq<TimestampView>) -> bool {
    forall|i: int, j: int| 0 <= i < s.len() && 0 <= j < s.len() && i != j
        ==> s[i].pub_key != s[j].pub_key
}

pub proof fn lemma_map_of_entries(s: Seq<TimestampView>)
    requires
        keys_unique(s),
    ensures
        map_of(s).dom().finite(),
        map_of(s).dom().len() == s.len(),
        forall|i: int| 0 <= i < s.len() ==> #[trigger] map_of(s).contains_key(s[i].pub_key)
            && map_of(s)[s[i].pub_key] == s[i],
        forall|k: Seq<u8>| #[trigger] map_of(s).contains_key(k)
            ==> exists|i: int| 0 <= i < s.len() && s[i].pub_key == k,
    decreases s.len(),
{
    if s.len() > 0 {
        let p = s.drop_last();
        assert(keys_unique(p));
        lemma_map_of_entries(p);
        assert(!map_of(p).contains_key(s.last().pub_key)) by {
            if map_of(p).contains_key(s.last().pub_key) {
                let i = choose|i: int| 0 <= i < p.len() && p[i].pub_key == s.last().pub_key;
                assert(s[i] == p[i]);
            }
        }
        assert forall|i: int| 0 <= i < s.len() implies #[trigger] map_of(s).contains_key(
            s[i].pub_key,
        ) && map_of(s)[s[i].pub_key] == s[i] by {
            if i < s.len() - 1 {
                assert(s[i] == p[i]);
            }
        }
        assert forall|k: Seq<u8>| #[trigger] map_of(s).contains_key(k) implies exists|i: int|
            0 <= i < s.len() && s[i].pub_key == k by {
            if k != s.last().pub_key {
                let i = choose|i: int| 0 <= i < p.len() && p[i].pub_key == k;
                assert(s[i] == p[i]);
            } else {
                assert(s[s.len() - 1].pub_key == k);
            }
        }
    }
}

pub proof fn lemma_map_of_update(s: Seq<TimestampView>, i: int, v: TimestampView)
    requires
        keys_unique(s),
        0 <= i < s.len(),
        v.pub_key == s[i].pub_key,
    ensures
        keys_unique(s.update(i, v)),
        map_of(s.update(i, v)) == map_of(s).insert(v.pub_key, v),
    decreases s.len(),
{
    let u = s.update(i, v);
    if i == s.len() - 1 {
        assert(u.drop_last() =~= s.drop_last());
        assert(map_of(u) =~= map_of(s).insert(v.pub_key, v));
    } else {
        let p = s.drop_last();
        assert(keys_unique(p));
        lemma_map_of_update(p, i, v);
        assert(u.drop_last() =~= p.update(i, v));
        assert(s.last().pub_key != v.pub_key) by {
            assert(s[s.len() - 1].pub_key != s[i].pub_key);
        }
        assert(map_of(u) =~= map_of(s).insert(v.pub_key, v));
    }
}

/// A key-value index from public keys to timestamps, held as a vector of
/// records with pairwise distinct keys, in the order in which they were added.
pub struct TimestampMap {
    entries: Vec<Timestamp>,
}

impl TimestampMap {
    /// The stored records, in storage order.
    pub closed spec fn entries(&self) -> Seq<TimestampView> {
        views_of(self.entries@)
    }

    pub open spec fn wf(&self) -> bool {
        keys_unique(self.entries())
    }

    /// The map from keys to records.
    pub open spec fn view(&self) -> Map<Seq<u8>, TimestampView> {
        map_of(self.entries())
    }

    pub proof fn lemma_wf(&self)
        requires
            self.wf(),
        ensures
            self@.dom().finite(),
            self@.dom().len() == self.entries().len(),
            forall|i: int| 0 <= i < self.entries().len()
                ==> #[trigger] self@.contains_key(self.entries()[i].pub_key)
                && self@[self.entries()[i].pub_key] == self.entries()[i],
            forall|k: Seq<u8>| #[trigger] self@.contains_key(k)
                ==> exists|i: int| 0 <= i < self.entries().len() && self.entries()[i].pub_key == k,
    {
        let s = self.entries();
        lemma_map_of_entries(s);
        assert forall|i: int| 0 <= i < s.len() implies #[trigger] self@.contains_key(s[i].pub_key)
            && self@[s[i].pub_key] == s[i] by {
            assert(map_of(s).contains_key(s[i].pub_key));
        }
    }

    pub fn new() -> (r: TimestampMap)
        ensures
            r.wf(),
            r@ == Map::<Seq<u8>, TimestampView>::empty(),
            r.entries().len() == 0,
    {
        let r = TimestampMap { entries: Vec::new() };
        assert(r.entries() =~= Seq::<TimestampView>::empty());
        r
    }

    /// The position of the record stored under `key`, if any.
    fn find(&self, key: &PublicKey) -> (r: Option<usize>)
        requires
            self.wf(),
        ensures
            match r {
                Some(i) => i < self.entries().len() && self.entries()[i as int].pub_key == key@,
                None => !self@.contains_key(key@),
            },
    {
        proof {
            self.lemma_wf();
        }
        let mut i: usize = 0;
        while i < self.entries.len()
            invariant
                0 <= i <= self.entries@.len(),
                self.wf(),
                self.entries().len() == self.entries@.len(),
                forall|j: int| 0 <= j < i ==> self.entries()[j].pub_key != key@,
            decreases self.entries@.len() - i,
        {
            if self.entries[i].pub_key.same_as(key) {
                return Some(i);
            }
            i = i + 1;
        }
        proof {
            if self@.contains_key(key@) {
                let j = choose|j: int|
                    0 <= j < self.entries().len() && self.entries()[j].pub_key == key@;
                assert(self.entries()[j].pub_key == key@);
            }
        }
        None
    }

    /// Whether a record is stored under `key`.
    pub fn contains(&self, key: &PublicKey) -> (r: bool)
        requires
            self.wf(),
        ensures
            r == self@.contains_key(key@),
    {
        proof {
            self.lemma_wf();
        }
        match self.find(key) {
            Some(i) => {
                assert(self@.contains_key(self.entries()[i as int].pub_key));
                true
            },
            None => false,
        }
    }

    /// A copy of the record stored under `key`.
    pub fn get(&self, key: &PublicKey) -> (r: Option<Timestamp>)
        requires
            self.wf(),
        ensures
            match r {
                Some(t) => self@.contains_key(key@) && t@ == self@[key@],
                None => !self@.contains_key(key@),
            },
    {
        proof {
            self.lemma_wf();
        }
        match self.find(key) {
            Some(i) => {
                assert(self.entries()[i as int] == self.entries@[i as int]@);
                assert(self@.contains_key(self.entries()[i as int].pub_key));
                Some(self.entries[i].duplicate())
            },
            None => None,
        }
    }

    /// Stores `value` under `key`, replacing any record already there.
    pub fn put(&mut self, key: &PublicKey, value: Timestamp)
        requires
            old(self).wf(),
            value.pub_key@ == key@,
        ensures
            final(self).wf(),
            final(self)@ == old(self)@.insert(key@, value@),
    {
        match self.find(key) {
            Some(i) => {
                proof {
                    lemma_map_of_update(self.entries(), i as int, value@);
                }
                let ghost before = self.entries@;
                self.entries.set(i, value);
                assert(self.entries() =~= views_of(before).update(i as int, value@));
            },
            None => {
                proof {
                    self.lemma_wf();
                }
                let ghost before = self.entries();
                self.entries.push(value);
                assert(self.entries().drop_last() =~= before);
                assert(keys_unique(self.entries())) by {
                    assert forall|a: int, b: int|
                        0 <= a < self.entries().len() && 0 <= b < self.entries().len() && a
                            != b implies self.entries()[a].pub_key
                        != self.entries()[b].pub_key by {
                        if a < before.len() && b < before.len() {
                            assert(self.entries()[a] == before[a]);
                            assert(self.entries()[b] == before[b]);
                        } else if a < before.len() {
                            assert(self.entries()[a] == before[a]);
                            assert(old(self)@.contains_key(before[a].pub_key));
                        } else {
                            assert(self.entries()[b] == before[b]);
                            assert(old(self)@.contains_key(before[b].pub_key));
                        }
                    }
                }
            },
        }
    }

    /// Copies of all stored records, in storage order.
    pub fn values(&self) -> (r: Vec<Timestamp>)
        requires
            self.wf(),
        ensures
            views_of(r@) == self.entries(),
            r@.len() == self@.dom().len(),
    {
        proof {
            self.lemma_wf();
        }
        let mut r: Vec<Timestamp> = Vec::new();
        let mut i: usize = 0;
        while i < self.entries.len()
            invariant
                0 <= i <= self.entries@.len(),
                self.entries().len() == self.entries@.len(),
                views_of(r@) =~= self.entries().subrange(0, i as int),
            decreases self.entries@.len() - i,
        {
            let t = self.entries[i].duplicate();
            assert(self.entries()[i as int] == self.entries@[i as int]@);
            let ghost prev = r@;
            r.push(t);
            assert(views_of(r@) =~= views_of(prev).push(t@));
            assert(self.entries().subrange(0, i + 1) =~= self.entries().subrange(0, i as int).push(
                t@,
            ));
            i = i + 1;
        }
        assert(self.entries().subrange(0, i as int) =~= self.entries());
        r
    }

    /// Number of stored records.
    pub fn len(&self) -> (r: usize)
        requires
            self.wf(),
        ensures
            r == self@.dom().len(),
    {
        proof {
            self.lemma_wf();
        }
        self.entries.len()
    }

    /// An independent copy of the whole index.
    pub fn duplicate(&self) -> (r: TimestampMap)
        requires
            self.wf(),
        ensures
            r.wf(),
            r@ == self@,
            r.entries() == self.entries(),
    {
        let entries = self.values();
        TimestampMap { entries }
    }
}

} // verus!
