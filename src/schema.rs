use vstd::prelude::*;

use crate::store::{PublicKey, Timestamp, TimestampMap, TimestampView};

verus! {

/// Typed access to the service's single index, "timestamping.timestamps",
/// inside one view of the storage: a read-only snapshot or a fork that
/// stages writes.
pub struct TimestampingSchema {
    view: TimestampMap,
}

impl TimestampingSchema {
    /// The index this schema reads and writes.
    pub closed spec fn index(&self) -> TimestampMap {
        self.view
    }

    pub open spec fn wf(&self) -> bool {
        self.index().wf()
    }

    /// The records visible through this schema, by key.
    pub open spec fn view(&self) -> Map<Seq<u8>, TimestampView> {
        self.index()@
    }

    pub fn new(view: TimestampMap) -> (r: TimestampingSchema)
        requires
            view.wf(),
        ensures
            r.wf(),
            r.index() == view,
    {
        TimestampingSchema { view }
    }

    pub fn timestamps(&self) -> (r: &TimestampMap)
        ensures
            *r == self.index(),
    {
        &self.view
    }

    /// The record stored for `pub_key`, if there is one.
    pub fn timestamp(&self, pub_key: &PublicKey) -> (r: Option<Timestamp>)
        requires
            self.wf(),
        ensures
            match r {
                Some(t) => self@.contains_key(pub_key@) && t@ == self@[pub_key@],
                None => !self@.contains_key(pub_key@),
            },
    {
        self.view.get(pub_key)
    }

    pub fn timestamps_mut(&mut self) -> (r: &mut TimestampMap)
        ensures
            *r == old(self).index(),
            final(self).index() == *final(r),
    {
        &mut self.view
    }

    /// Gives back the index, with whatever this schema staged into it.
    pub fn into_index(self) -> (r: TimestampMap)
        ensures
            r == self.index(),
    {
        self.view
    }
}

/// The committed state of the service's storage. Readers take snapshots,
/// the block applier takes a fork, and a fork becomes visible only when it
/// is merged back as a whole.
pub struct Storage {
    committed: TimestampMap,
}

impl Storage {
    pub closed spec fn index(&self) -> TimestampMap {
        self.committed
    }

    pub open spec fn wf(&self) -> bool {
        self.index().wf()
    }

    /// The committed records, by key.
    pub open spec fn view(&self) -> Map<Seq<u8>, TimestampView> {
        self.index()@
    }

    /// Storage with no records.
    pub fn new() -> (r: Storage)
        ensures
            r.wf(),
            r@ == Map::<Seq<u8>, TimestampView>::empty(),
    {
        Storage { committed: TimestampMap::new() }
    }

    /// A read-only view of the state committed now. It is a copy: later
    /// merges do not reach it.
    pub fn snapshot(&self) -> (r: TimestampingSchema)
        requires
            self.wf(),
        ensures
            r.wf(),
            r@ == self@,
            r.index().entries() == self.index().entries(),
    {
        TimestampingSchema::new(self.committed.duplicate())
    }

    /// A private view that starts from the state committed now and stages
    /// writes until it is merged.
    pub fn fork(&self) -> (r: TimestampingSchema)
        requires
            self.wf(),
        ensures
            r.wf(),
            r@ == self@,
            r.index().entries() == self.index().entries(),
    {
        TimestampingSchema::new(self.committed.duplicate())
    }

    /// Publishes everything staged in `fork` at once.
    pub fn merge(&mut self, fork: TimestampingSchema)
        requires
            fork.wf(),
        ensures
            final(self).wf(),
            final(self)@ == fork@,
            final(self).index() == fork.index(),
    {
        self.committed = fork.into_index();
    }
}

} // verus!
