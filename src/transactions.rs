use vstd::prelude::*;

use crate::schema::TimestampingSchema;
use crate::store::{PublicKey, Timestamp, TimestampView};

verus! {

/// The abstract content of a transaction that creates a timestamp.
pub struct TxView {
    pub pub_key: Seq<u8>,
    pub name: Seq<char>,
}

/// Asks to record `name` for the signer `pub_key`.
pub struct TxCreateTimestamp {
    pub pub_key: PublicKey,
    pub name: String,
}

impl TxCreateTimestamp {
    pub open spec fn view(&self) -> TxView {
        TxView { pub_key: self.pub_key@, name: self.name@ }
    }

    pub fn new(pub_key: &PublicKey, name: &str) -> (r: TxCreateTimestamp)
        ensures
            r@ == (TxView { pub_key: pub_key@, name: name@ }),
    {
        TxCreateTimestamp { pub_key: *pub_key, name: name.to_owned() }
    }

    pub fn pub_key(&self) -> (r: &PublicKey)
        ensures
            r@ == self.pub_key@,
    {
        &self.pub_key
    }

    pub fn name(&self) -> (r: &str)
        ensures
            r@ == self.name@,
    {
        self.name.as_str()
    }

    /// Applies this (already validated) transaction to a fork at time `now`:
    /// the first record for a key sticks, later ones are absorbed.
    pub fn execute_at(&self, schema: &mut TimestampingSchema, now: u32) -> (created: bool)
        requires
            old(schema).wf(),
        ensures
            final(schema).wf(),
            final(schema)@ == execute_spec(old(schema)@, self@, now),
            created == !old(schema)@.contains_key(self@.pub_key),
    {
        if schema.timestamp(self.pub_key()).is_none() {
            let timestamp = Timestamp::new(self.pub_key(), self.name(), now);
            schema.timestamps_mut().put(self.pub_key(), timestamp);
            true
        } else {
            false
        }
    }

    /// Applies this (already validated) transaction to a fork, stamping a new
    /// record with the applying node's wall-clock time.
    pub fn execute(&self, schema: &mut TimestampingSchema)
        requires
            old(schema).wf(),
        ensures
            final(schema).wf(),
            exists|now: u32| final(schema)@ == execute_spec(old(schema)@, self@, now),
    {
        let now = seconds_to_u32(wall_clock_seconds());
        self.execute_at(schema, now);
    }
}

/// The transactions of the service.
pub enum TimestampingTransactions {
    CreateTimestamp(TxCreateTimestamp),
}

impl TimestampingTransactions {
    pub open spec fn view(&self) -> TxView {
        match self {
            TimestampingTransactions::CreateTimestamp(tx) => tx@,
        }
    }
}

/// What applying one transaction did.
#[derive(PartialEq, Eq, Structural, Debug, Clone, Copy)]
pub enum TxOutcome {
    /// The signature did not check: nothing was written.
    Rejected,
    /// A record for the key already existed: nothing was written.
    AlreadyRecorded,
    /// A new record was written.
    Created,
}

/// The record a transaction creates at time `now`.
pub open spec fn record_of(tx: TxView, now: u32) -> TimestampView {
    TimestampView { pub_key: tx.pub_key, name: tx.name, time: now }
}

/// The effect of executing a validated transaction at time `now`.
pub open spec fn execute_spec(
    m: Map<Seq<u8>, TimestampView>,
    tx: TxView,
    now: u32,
) -> Map<Seq<u8>, TimestampView> {
    if m.contains_key(tx.pub_key) {
        m
    } else {
        m.insert(tx.pub_key, record_of(tx, now))
    }
}

/// The effect of a transaction whose signature check gave `valid`.
pub open spec fn apply_spec(
    m: Map<Seq<u8>, TimestampView>,
    tx: TxView,
    valid: bool,
    now: u32,
) -> Map<Seq<u8>, TimestampView> {
    if valid {
        execute_spec(m, tx, now)
    } else {
        m
    }
}

/// One transaction as the block applier met it: its content, the verdict of
/// its signature check, and the applying node's clock.
pub struct Step {
    pub tx: TxView,
    pub valid: bool,
    pub now: u32,
}

/// The state after applying `steps` in order.
pub open spec fn apply_all(m: Map<Seq<u8>, TimestampView>, steps: Seq<Step>) -> Map<
    Seq<u8>,
    TimestampView,
>
    decreases steps.len(),
{
    if steps.len() == 0 {
        m
    } else {
        apply_all(apply_spec(m, steps[0].tx, steps[0].valid, steps[0].now), steps.drop_first())
    }
}

/// Relies on time::get_time: the current wall-clock time, whose `sec` field
/// counts seconds since 1970-01-01T00:00:00Z. Nothing is promised of its value.
#[verifier::external_body]
fn wall_clock_seconds() -> (r: i64) {
    time::get_time().sec
}

/// Seconds since the epoch as a `u32`, saturating at both ends.
pub fn seconds_to_u32(sec: i64) -> (r: u32)
    ensures
        sec < 0 ==> r == 0,
        0 <= sec <= u32::MAX ==> r == sec,
        sec > u32::MAX ==> r == u32::MAX,
{
    if sec < 0 {
        0
    } else if sec > u32::MAX as i64 {
        u32::MAX
    } else {
        sec as u32
    }
}

/// The deterministic state transition for one ordered transaction:
/// a transaction whose signature did not check changes nothing; a valid one
/// creates a record stamped `now` unless its key already has one.
pub fn apply(
    schema: &mut TimestampingSchema,
    tx: &TimestampingTransactions,
    signature_valid: bool,
    now: u32,
) -> (r: TxOutcome)
    requires
        old(schema).wf(),
    ensures
        final(schema).wf(),
        final(schema)@ == apply_spec(old(schema)@, tx@, signature_valid, now),
        r == (if !signature_valid {
            TxOutcome::Rejected
        } else if old(schema)@.contains_key(tx@.pub_key) {
            TxOutcome::AlreadyRecorded
        } else {
            TxOutcome::Created
        }),
{
    if !signature_valid {
        return TxOutcome::Rejected;
    }
    match tx {
        TimestampingTransactions::CreateTimestamp(t) => {
            if t.execute_at(schema, now) {
                TxOutcome::Created
            } else {
                TxOutcome::AlreadyRecorded
            }
        },
    }
}

/// First write wins: when two valid transactions for a key that has no
/// record are applied one after the other, the first one's record is the
/// only one for that key, and the second application changes nothing.
pub proof fn lemma_first_write_wins(
    m: Map<Seq<u8>, TimestampView>,
    first: TxView,
    second: TxView,
    t1: u32,
    t2: u32,
)
    requires
        first.pub_key == second.pub_key,
        !m.contains_key(first.pub_key),
    ensures
        apply_spec(apply_spec(m, first, true, t1), second, true, t2) == apply_spec(
            m,
            first,
            true,
            t1,
        ),
        apply_spec(m, first, true, t1) == m.insert(first.pub_key, record_of(first, t1)),
        apply_spec(m, first, true, t1)[first.pub_key].name == first.name,
        apply_spec(m, first, true, t1).dom() == m.dom().insert(first.pub_key),
{
}

/// Write once: once a key has a record, no sequence of transactions, valid
/// or not, changes or removes it.
pub proof fn lemma_write_once(m: Map<Seq<u8>, TimestampView>, steps: Seq<Step>, key: Seq<u8>)
    requires
        m.contains_key(key),
    ensures
        apply_all(m, steps).contains_key(key),
        apply_all(m, steps)[key] == m[key],
    decreases steps.len(),
{
    if steps.len() > 0 {
        let m1 = apply_spec(m, steps[0].tx, steps[0].valid, steps[0].now);
        assert(m1.contains_key(key) && m1[key] == m[key]);
        lemma_write_once(m1, steps.drop_first(), key);
    }
}

/// Signature gating: a key without a record gets none from any sequence of
/// transactions in which every transaction for that key failed its
/// signature check, however often it was submitted.
pub proof fn lemma_signature_gating(
    m: Map<Seq<u8>, TimestampView>,
    steps: Seq<Step>,
    key: Seq<u8>,
)
    requires
        !m.contains_key(key),
        forall|i: int| 0 <= i < steps.len() && #[trigger] steps[i].tx.pub_key == key
            ==> !steps[i].valid,
    ensures
        !apply_all(m, steps).contains_key(key),
    decreases steps.len(),
{
    if steps.len() > 0 {
        let m1 = apply_spec(m, steps[0].tx, steps[0].valid, steps[0].now);
        assert(!m1.contains_key(key));
        let rest = steps.drop_first();
        assert forall|i: int| 0 <= i < rest.len() && #[trigger] rest[i].tx.pub_key == key
            implies !rest[i].valid by {
            assert(rest[i] == steps[i + 1]);
        }
        lemma_signature_gating(m1, rest, key);
    }
}

/// Valid transactions whose keys are pairwise distinct and new to `m`.
pub open spec fn fresh_distinct_valid(m: Map<Seq<u8>, TimestampView>, steps: Seq<Step>) -> bool {
    &&& forall|i: int| 0 <= i < steps.len() ==> #[trigger] steps[i].valid
    &&& forall|i: int| 0 <= i < steps.len() ==> !m.contains_key(#[trigger] steps[i].tx.pub_key)
    &&& forall|i: int, j: int|
        0 <= i < steps.len() && 0 <= j < steps.len() && i != j ==> steps[i].tx.pub_key
            != steps[j].tx.pub_key
}

/// Applying valid transactions for distinct new keys adds exactly one record
/// per transaction, each holding its transaction's name.
pub proof fn lemma_apply_fresh(m: Map<Seq<u8>, TimestampView>, steps: Seq<Step>)
    requires
        m.dom().finite(),
        fresh_distinct_valid(m, steps),
    ensures
        apply_all(m, steps).dom().finite(),
        apply_all(m, steps).dom().len() == m.dom().len() + steps.len(),
        forall|i: int| 0 <= i < steps.len() ==> #[trigger] apply_all(m, steps).contains_key(
            steps[i].tx.pub_key,
        ) && apply_all(m, steps)[steps[i].tx.pub_key] == record_of(steps[i].tx, steps[i].now),
        forall|k: Seq<u8>| m.contains_key(k) ==> #[trigger] apply_all(m, steps).contains_key(k)
            && apply_all(m, steps)[k] == m[k],
    decreases steps.len(),
{
    if steps.len() > 0 {
        let s0 = steps[0];
        assert(s0.valid);
        assert(!m.contains_key(s0.tx.pub_key));
        let m1 = apply_spec(m, s0.tx, s0.valid, s0.now);
        assert(m1 == m.insert(s0.tx.pub_key, record_of(s0.tx, s0.now)));
        let rest = steps.drop_first();
        assert(fresh_distinct_valid(m1, rest)) by {
            assert forall|i: int| 0 <= i < rest.len() implies #[trigger] rest[i].valid by {
                assert(rest[i] == steps[i + 1]);
            }
            assert forall|i: int| 0 <= i < rest.len() implies !m1.contains_key(
                #[trigger] rest[i].tx.pub_key,
            ) by {
                assert(rest[i] == steps[i + 1]);
                assert(steps[i + 1].tx.pub_key != steps[0].tx.pub_key);
            }
            assert forall|i: int, j: int|
                0 <= i < rest.len() && 0 <= j < rest.len() && i != j implies rest[i].tx.pub_key
                != rest[j].tx.pub_key by {
                assert(rest[i] == steps[i + 1]);
                assert(rest[j] == steps[j + 1]);
            }
        }
        lemma_apply_fresh(m1, rest);
        let r = apply_all(m, steps);
        assert(r == apply_all(m1, rest));
        assert forall|i: int| 0 <= i < steps.len() implies #[trigger] r.contains_key(
            steps[i].tx.pub_key,
        ) && r[steps[i].tx.pub_key] == record_of(steps[i].tx, steps[i].now) by {
            if i > 0 {
                assert(rest[i - 1] == steps[i]);
            } else {
                assert(m1.contains_key(s0.tx.pub_key));
            }
        }
        assert forall|k: Seq<u8>| m.contains_key(k) implies #[trigger] r.contains_key(k)
            && r[k] == m[k] by {
            assert(m1.contains_key(k));
        }
    }
}

/// Round trip: starting from empty storage, applying N valid transactions
/// for N distinct keys leaves exactly N records, and the record for each key
/// holds the name that was submitted for it.
pub proof fn lemma_round_trip(steps: Seq<Step>)
    requires
        fresh_distinct_valid(Map::empty(), steps),
    ensures
        apply_all(Map::empty(), steps).dom().finite(),
        apply_all(Map::empty(), steps).dom().len() == steps.len(),
        forall|i: int| 0 <= i < steps.len() ==> #[trigger] apply_all(
            Map::empty(),
            steps,
        ).contains_key(steps[i].tx.pub_key) && apply_all(
            Map::empty(),
            steps,
        )[steps[i].tx.pub_key].name == steps[i].tx.name,
{
    lemma_apply_fresh(Map::empty(), steps);
    assert forall|i: int| 0 <= i < steps.len() implies #[trigger] apply_all(
        Map::empty(),
        steps,
    ).contains_key(steps[i].tx.pub_key) && apply_all(
        Map::empty(),
        steps,
    )[steps[i].tx.pub_key].name == steps[i].tx.name by {
        assert(apply_all(Map::empty(), steps).contains_key(steps[i].tx.pub_key));
    }
}

} // verus!
