//! The native behavior bridge's plain-value state and decisions: the signal
//! names it resolved at start, whether a live instance exists, whether it has
//! faulted (for good), where each signal the library staged during a tick is
//! published, and which configuration values it can read as floats. Loading
//! the library and calling into it is the caller's (unsafe, foreign) work.

use crate::addon::schema::{ParamMap, ParamValue, ParamValueView};
use crate::signal::{SignalId, SignalSchema, SignalValue};
use crate::text::str_eq;
use vstd::prelude::*;

verus! {

/// Names and slots with each name taken as its characters.
pub open spec fn id_view(ids: Seq<(String, Option<SignalId>)>) -> Seq<(Seq<char>, Option<SignalId>)> {
    ids.map_values(|e: (String, Option<SignalId>)| (e.0@, e.1))
}

/// The id that the first entry named `name` of `ids` gives, if any.
pub open spec fn routed_id(ids: Seq<(Seq<char>, Option<SignalId>)>, name: Seq<char>) -> Option<SignalId>
    decreases ids.len(),
{
    if ids.len() == 0 {
        None
    } else if ids[0].0 == name {
        ids[0].1
    } else {
        routed_id(ids.drop_first(), name)
    }
}

/// The staged signals that resolve to a slot, in staging order, each with
/// the slot of the first entry of `ids` carrying its name.
pub open spec fn routed(staged: Seq<(String, SignalValue)>, ids: Seq<(Seq<char>, Option<SignalId>)>) -> Seq<(SignalId, SignalValue)>
    decreases staged.len(),
{
    if staged.len() == 0 {
        Seq::empty()
    } else {
        let rest = routed(staged.drop_last(), ids);
        match routed_id(ids, staged.last().0@) {
            Some(id) => rest.push((id, staged.last().1)),
            None => rest,
        }
    }
}

fn lookup(ids: &[(String, Option<SignalId>)], name: &str) -> (r: Option<SignalId>)
    ensures
        r == routed_id(id_view(ids@), name@),
{
    let ghost v = id_view(ids@);
    let mut i: usize = 0;
    assert(v.subrange(0, v.len() as int) =~= v);
    while i < ids.len()
        invariant
            i <= ids@.len(),
            v == id_view(ids@),
            routed_id(v, name@) == routed_id(v.subrange(i as int, v.len() as int), name@),
        decreases ids@.len() - i,
    {
        let ghost rest = v.subrange(i as int, v.len() as int);
        assert(rest[0] == v[i as int]);
        if str_eq(ids[i].0.as_str(), name) {
            return ids[i].1;
        }
        assert(rest.drop_first() =~= v.subrange(i + 1, v.len() as int));
        i = i + 1;
    }
    assert(v.subrange(i as int, v.len() as int) =~= Seq::<(Seq<char>, Option<SignalId>)>::empty());
    None
}

/// Resolve the signals a tick staged to the slots they publish to; a name
/// with no slot is dropped.
pub fn route_staged(staged: &[(String, SignalValue)], ids: &[(String, Option<SignalId>)]) -> (r: Vec<(SignalId, SignalValue)>)
    ensures
        r@ == routed(staged@, id_view(ids@)),
{
    let mut out: Vec<(SignalId, SignalValue)> = Vec::new();
    let mut i: usize = 0;
    while i < staged.len()
        invariant
            i <= staged@.len(),
            out@ == routed(staged@.subrange(0, i as int), id_view(ids@)),
        decreases staged@.len() - i,
    {
        let ghost pre = staged@.subrange(0, i as int);
        let ghost next = staged@.subrange(0, i + 1);
        assert(next.drop_last() =~= pre);
        match lookup(ids, staged[i].0.as_str()) {
            Some(id) => out.push((id, staged[i].1)),
            None => {},
        }
        i = i + 1;
    }
    assert(staged@.subrange(0, staged@.len() as int) =~= staged@);
    out
}

/// The value of `name` when it is a float parameter (an `f64` bit pattern).
pub fn f32_param_bits(values: &ParamMap, name: &str) -> (r: Option<u64>)
    ensures
        r == (if values.spec_map().contains_key(name@) {
            match values.spec_map()[name@] {
                ParamValueView::F32(b) => Some(b),
                _ => None::<u64>,
            }
        } else {
            None::<u64>
        }),
{
    match values.get(name) {
        Some(ParamValue::F32(b)) => Some(*b),
        _ => None,
    }
}

/// What the bridge knows apart from the library handles.
pub struct BridgeModel {
    /// Signal names and the slots they publish to, as resolved at start.
    pub ids: Seq<(Seq<char>, Option<SignalId>)>,
    /// An instance was created and not yet destroyed.
    pub live: bool,
    /// A load failure or a panic disabled the bridge.
    pub faulted: bool,
    /// The instance's configuration values.
    pub values: Map<Seq<char>, ParamValueView>,
}

/// The native behavior bridge's state: the resolved signal slots, its
/// configuration, and the live/faulted flags that gate every call into the
/// library.
pub struct NativeBridgeState {
    signal_ids: Vec<(String, Option<SignalId>)>,
    live: bool,
    faulted: bool,
    values: ParamMap,
}

impl View for NativeBridgeState {
    type V = BridgeModel;

    closed spec fn view(&self) -> BridgeModel {
        BridgeModel {
            ids: id_view(self.signal_ids@),
            live: self.live,
            faulted: self.faulted,
            values: self.values.spec_map(),
        }
    }
}

impl NativeBridgeState {
    /// Nothing resolved, nothing loaded, no fault.
    pub fn new(values: ParamMap) -> (r: Self)
        ensures
            r@.ids.len() == 0,
            !r@.live,
            !r@.faulted,
            r@.values == values.spec_map(),
    {
        let r = NativeBridgeState { signal_ids: Vec::new(), live: false, faulted: false, values };
        assert(r@.ids =~= Seq::<(Seq<char>, Option<SignalId>)>::empty());
        r
    }

    /// The signal names and slots resolved so far, in resolution order.
    pub fn signal_ids(&self) -> (r: &[(String, Option<SignalId>)])
        ensures
            id_view(r@) == self@.ids,
    {
        self.signal_ids.as_slice()
    }

    /// The configuration values.
    pub fn values(&self) -> (r: &ParamMap)
        ensures
            r.spec_map() == self@.values,
    {
        &self.values
    }

    /// Start, before loading: every slot of `schema` is appended, in slot
    /// order, under its own name.
    pub fn resolve(&mut self, schema: &SignalSchema)
        ensures
            final(self)@.ids.len() == old(self)@.ids.len() + schema.names().len(),
            final(self)@.ids.subrange(0, old(self)@.ids.len() as int) == old(self)@.ids,
            forall|i: int| 0 <= i < schema.names().len() ==>
                #[trigger] final(self)@.ids[old(self)@.ids.len() + i] == (schema.names()[i], Some(SignalId(i as usize))),
            final(self)@.live == old(self)@.live,
            final(self)@.faulted == old(self)@.faulted,
            final(self)@.values == old(self)@.values,
    {
        let entries = schema.entries();
        let ghost before = self@.ids;
        let mut i: usize = 0;
        while i < entries.len()
            invariant
                i <= entries@.len(),
                entries@.len() == schema.names().len(),
                forall|k: int| 0 <= k < entries@.len() ==> {
                    &&& (#[trigger] entries@[k]).0 == SignalId(k as usize)
                    &&& entries@[k].1@ == schema.names()[k]
                },
                self@.ids.len() == before.len() + i,
                self@.ids.subrange(0, before.len() as int) == before,
                forall|k: int| 0 <= k < i ==>
                    #[trigger] self@.ids[before.len() + k] == (schema.names()[k], Some(SignalId(k as usize))),
                self@.live == old(self)@.live,
                self@.faulted == old(self)@.faulted,
                self@.values == old(self)@.values,
            decreases entries@.len() - i,
        {
            let name = entries[i].1.clone();
            let id = entries[i].0;
            let ghost prev = self.signal_ids@;
            let ghost entry = (name@, Some(id));
            self.signal_ids.push((name, Some(id)));
            proof {
                let ids = self@.ids;
                assert(ids =~= id_view(prev).push(entry));
                assert(ids[before.len() + i] == entry);
                assert(ids.subrange(0, before.len() as int) =~= before);
                assert forall|k: int| 0 <= k < i + 1 implies
                    #[trigger] ids[before.len() + k] == (schema.names()[k], Some(SignalId(k as usize))) by {
                    if k == i {
                        assert(entries@[k] == entries@[i as int]);
                    }
                }
            }
            i = i + 1;
        }
    }

    /// Loading finished: a created instance is live; a failure or a panic
    /// faults the bridge.
    pub fn loaded(&mut self, created: bool)
        ensures
            final(self)@.live == (old(self)@.live || created),
            final(self)@.faulted == (old(self)@.faulted || !created),
            final(self)@.ids == old(self)@.ids,
            final(self)@.values == old(self)@.values,
    {
        if created {
            self.live = true;
        } else {
            self.faulted = true;
        }
    }

    /// Whether a tick calls into the library: only a live instance of an
    /// unfaulted bridge.
    pub fn may_update(&self) -> (r: bool)
        ensures
            r == (self@.live && !self@.faulted),
    {
        self.live && !self.faulted
    }

    /// A tick's call into the library came back. A panic faults the bridge
    /// and publishes nothing; otherwise the staged signals are routed to
    /// their slots.
    pub fn updated(&mut self, panicked: bool, staged: &[(String, SignalValue)]) -> (r: Vec<(SignalId, SignalValue)>)
        ensures
            panicked ==> r@.len() == 0 && final(self)@.faulted,
            !panicked ==> r@ == routed(staged@, old(self)@.ids) && final(self)@.faulted == old(self)@.faulted,
            final(self)@.live == old(self)@.live,
            final(self)@.ids == old(self)@.ids,
            final(self)@.values == old(self)@.values,
    {
        if panicked {
            self.faulted = true;
            return Vec::new();
        }
        route_staged(staged, self.signal_ids.as_slice())
    }

    /// Stop: whether a live instance is to be destroyed; afterwards none is
    /// live. A fault stays.
    pub fn stopped(&mut self) -> (destroy: bool)
        ensures
            destroy == old(self)@.live,
            !final(self)@.live,
            final(self)@.faulted == old(self)@.faulted,
            final(self)@.ids == old(self)@.ids,
            final(self)@.values == old(self)@.values,
    {
        let destroy = self.live;
        self.live = false;
        destroy
    }
}

} // verus!
