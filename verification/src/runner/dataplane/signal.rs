//! [`SignalBridge`] — publish/subscribe over a host-owned signal store:
//! `publish` overwrites (last wins within a tick), `commit` hands the staged
//! frame over in one step, and readers see a pinned snapshot until re-pinned.

use crate::signal::{first_slot, zero_value, SignalId, SignalKind, SignalSchema, SignalSink, SignalValue};
use std::sync::Arc;
use vstd::prelude::*;

verus! {

/// A consumer's view of the committed signals, one value per slot.
pub struct SignalSnapshot {
    values: Vec<SignalValue>,
}

impl View for SignalSnapshot {
    type V = Seq<SignalValue>;

    closed spec fn view(&self) -> Seq<SignalValue> {
        self.values@
    }
}

impl SignalSnapshot {
    /// The value in slot `id`.
    pub fn get(&self, id: SignalId) -> (r: SignalValue)
        requires
            id.0 < self@.len(),
        ensures
            r == self@[id.0 as int],
    {
        self.values[id.0]
    }
}

/// The abstract state of a signal bridge.
pub struct SignalModel {
    /// Slot names of the schema.
    pub names: Seq<Seq<char>>,
    /// Slot kinds of the schema.
    pub kinds: Seq<SignalKind>,
    /// Values staged by `publish` since the bridge was made.
    pub staged: Seq<SignalValue>,
    /// The last committed frame.
    pub committed: Seq<SignalValue>,
    /// The pinned snapshot readers see.
    pub pinned: Seq<SignalValue>,
}

pub struct SignalBridge {
    schema: Arc<SignalSchema>,
    staged: Vec<SignalValue>,
    committed: Vec<SignalValue>,
    snap: SignalSnapshot,
}

impl View for SignalBridge {
    type V = SignalModel;

    closed spec fn view(&self) -> SignalModel {
        SignalModel {
            names: self.schema.names(),
            kinds: self.schema.kinds(),
            staged: self.staged@,
            committed: self.committed@,
            pinned: self.snap.values@,
        }
    }
}

fn copy_values(src: &Vec<SignalValue>, dst: &mut Vec<SignalValue>)
    ensures
        final(dst)@ == src@,
{
    dst.clear();
    let mut i: usize = 0;
    while i < src.len()
        invariant
            i <= src@.len(),
            dst@ == src@.subrange(0, i as int),
        decreases src@.len() - i,
    {
        dst.push(src[i]);
        i = i + 1;
        assert(dst@ =~= src@.subrange(0, i as int));
    }
    assert(src@.subrange(0, src@.len() as int) =~= src@);
}

impl SignalBridge {
    pub fn new(schema: Arc<SignalSchema>) -> (r: Self)
        ensures
            r@.names == schema.names(),
            r@.kinds == schema.kinds(),
            r@.staged == schema.kinds().map_values(|k: SignalKind| zero_value(k)),
            r@.committed == r@.staged,
            r@.pinned == r@.staged,
    {
        proof { schema.lemma_lengths(); }
        let staged = schema.zero_values();
        let committed = schema.zero_values();
        let values = schema.zero_values();
        SignalBridge { schema, staged, committed, snap: SignalSnapshot { values } }
    }

    /// Resolve a name to its slot, by the schema; stable for the session.
    pub fn subscribe(&self, name: &str) -> (r: Option<SignalId>)
        ensures
            r == (match first_slot(self@.names, name@) {
                Some(i) => Some(SignalId(i as usize)),
                None => None::<SignalId>,
            }),
    {
        self.schema.id(name)
    }

    /// How many slots the schema has.
    pub fn len(&self) -> (r: usize)
        ensures
            r == self@.names.len(),
    {
        self.schema.len()
    }

    /// Stage a value for slot `id`, overwriting any earlier staged value; an
    /// id past the staged frame is ignored.
    pub fn publish(&mut self, id: SignalId, value: SignalValue)
        ensures
            final(self)@ == (if id.0 < old(self)@.staged.len() {
                SignalModel { staged: old(self)@.staged.update(id.0 as int, value), ..old(self)@ }
            } else {
                old(self)@
            }),
    {
        if id.0 < self.staged.len() {
            self.staged.set(id.0, value);
        }
    }

    /// Commit the staged frame in one step (latest wins).
    pub fn commit(&mut self)
        ensures
            final(self)@ == (SignalModel { committed: old(self)@.staged, ..old(self)@ }),
    {
        copy_values(&self.staged, &mut self.committed);
    }

    /// Re-pin to the latest committed frame and return it.
    pub fn read_latest(&mut self) -> (r: &SignalSnapshot)
        ensures
            final(self)@ == (SignalModel { pinned: old(self)@.committed, ..old(self)@ }),
            r@ == old(self)@.committed,
    {
        copy_values(&self.committed, &mut self.snap.values);
        &self.snap
    }

    /// The pinned snapshot, without refreshing.
    pub fn snapshot(&self) -> (r: &SignalSnapshot)
        ensures
            r@ == self@.pinned,
    {
        &self.snap
    }

    /// Re-pin the snapshot to the latest committed frame (tick start).
    pub fn pin(&mut self)
        ensures
            final(self)@ == (SignalModel { pinned: old(self)@.committed, ..old(self)@ }),
    {
        copy_values(&self.committed, &mut self.snap.values);
    }
}

/// The bridge as a behavior tick's sink: staging publishes, committing
/// commits.
impl SignalSink for SignalBridge {
    fn stage(&mut self, id: SignalId, value: SignalValue)
        ensures
            final(self)@ == (if id.0 < old(self)@.staged.len() {
                SignalModel { staged: old(self)@.staged.update(id.0 as int, value), ..old(self)@ }
            } else {
                old(self)@
            }),
    {
        self.publish(id, value);
    }

    fn commit(&mut self)
        ensures
            final(self)@ == (SignalModel { committed: old(self)@.staged, ..old(self)@ }),
    {
        SignalBridge::commit(self);
    }
}

/// Within a tick the last publish to a slot wins: two publishes then a commit
/// leave the second value committed.
pub proof fn lemma_last_publish_wins(staged: Seq<SignalValue>, i: int, first: SignalValue, second: SignalValue)
    requires
        0 <= i < staged.len(),
    ensures
        staged.update(i, first).update(i, second) == staged.update(i, second),
{
    assert(staged.update(i, first).update(i, second) =~= staged.update(i, second));
}

/// A pinned snapshot stays consistent: publishing and committing change
/// nothing readers see until the next pin.
pub proof fn lemma_pinned_until_repinned(m: SignalModel, i: int, v: SignalValue)
    ensures
        ({
            let published = SignalModel { staged: m.staged.update(i, v), ..m };
            let committed = SignalModel { committed: published.staged, ..published };
            &&& committed.pinned == m.pinned
            &&& (SignalModel { pinned: committed.committed, ..committed }).pinned == m.staged.update(i, v)
        }),
{
}

} // verus!
