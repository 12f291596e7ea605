//! Signals: small fixed-size values that behaviors publish and filters
//! consume, addressed by slot ids resolved once from a schema by name.
//!
//! Float lanes are carried as their IEEE-754 bit patterns: the data plane
//! stores and hands them over unchanged and never computes with them.

use vstd::prelude::*;

verus! {

broadcast use vstd::string::to_string_from_display_ensures_for_str;

/// The shape of a signal slot.
#[derive(Debug, Clone, Copy, PartialEq, Eq, Structural)]
pub enum SignalKind {
    F32,
    Vec2,
    Vec3,
    Vec4,
    Bool,
    I32,
}

/// A resolved slot id: the index of the slot in its schema.
#[derive(Debug, Clone, Copy, PartialEq, Eq, Structural)]
pub struct SignalId(pub usize);

impl SignalId {
    pub fn index(&self) -> (r: usize)
        ensures r == self.0,
    {
        self.0
    }
}

/// One signal value; float lanes hold `f32` bit patterns.
#[derive(Debug, Clone, Copy, PartialEq, Eq, Structural)]
pub enum SignalValue {
    F32(u32),
    Vec2(u32, u32),
    Vec3(u32, u32, u32),
    Vec4(u32, u32, u32, u32),
    Bool(bool),
    I32(i32),
}

/// The all-zero value of a kind (every float lane `+0.0`).
pub open spec fn zero_value(kind: SignalKind) -> SignalValue {
    match kind {
        SignalKind::F32 => SignalValue::F32(0),
        SignalKind::Vec2 => SignalValue::Vec2(0, 0),
        SignalKind::Vec3 => SignalValue::Vec3(0, 0, 0),
        SignalKind::Vec4 => SignalValue::Vec4(0, 0, 0, 0),
        SignalKind::Bool => SignalValue::Bool(false),
        SignalKind::I32 => SignalValue::I32(0),
    }
}

fn zero_of(kind: SignalKind) -> (r: SignalValue)
    ensures r == zero_value(kind),
{
    match kind {
        SignalKind::F32 => SignalValue::F32(0),
        SignalKind::Vec2 => SignalValue::Vec2(0, 0),
        SignalKind::Vec3 => SignalValue::Vec3(0, 0, 0),
        SignalKind::Vec4 => SignalValue::Vec4(0, 0, 0, 0),
        SignalKind::Bool => SignalValue::Bool(false),
        SignalKind::I32 => SignalValue::I32(0),
    }
}

/// A declared signal: its name and kind.
#[derive(Debug, Clone)]
pub struct SignalSpec {
    pub name: String,
    pub kind: SignalKind,
}

/// Where a behavior tick's signals go: each is staged as it is published,
/// and the whole tick is committed at once. Implementations decide what
/// that means, so the trait promises nothing.
pub trait SignalSink {
    fn stage(&mut self, id: SignalId, value: SignalValue);

    fn commit(&mut self);
}

/// A signal a filter consumes: its name, its kind, and whether the filter
/// runs without it.
#[derive(Debug, Clone)]
pub struct SignalRef {
    pub name: String,
    pub kind: SignalKind,
    pub optional: bool,
}

/// The ordered slot table: slot `i` is the `i`-th declared signal.
pub struct SignalSchema {
    slots: Vec<SignalSpec>,
}

/// The first slot of `names` that holds `name`, if any.
pub open spec fn first_slot(names: Seq<Seq<char>>, name: Seq<char>) -> Option<int>
    decreases names.len(),
{
    if names.len() == 0 {
        None
    } else if names.last() == name {
        match first_slot(names.drop_last(), name) {
            Some(i) => Some(i),
            None => Some(names.len() - 1),
        }
    } else {
        first_slot(names.drop_last(), name)
    }
}

impl SignalSchema {
    /// The slot names, in slot order.
    pub closed spec fn names(&self) -> Seq<Seq<char>> {
        self.slots@.map_values(|s: SignalSpec| s.name@)
    }

    /// The slot kinds, in slot order.
    pub closed spec fn kinds(&self) -> Seq<SignalKind> {
        self.slots@.map_values(|s: SignalSpec| s.kind)
    }

    pub proof fn lemma_lengths(&self)
        ensures self.names().len() == self.kinds().len(),
    {
    }

    /// Build a schema from `(name, kind)` pairs in declaration order.
    pub fn from_pairs(pairs: &[(&str, SignalKind)]) -> (r: Self)
        ensures
            r.names() == pairs@.map_values(|p: (&str, SignalKind)| p.0@),
            r.kinds() == pairs@.map_values(|p: (&str, SignalKind)| p.1),
    {
        let mut slots: Vec<SignalSpec> = Vec::new();
        let mut i: usize = 0;
        while i < pairs.len()
            invariant
                i <= pairs@.len(),
                slots@.len() == i,
                forall|k: int| 0 <= k < i ==> (#[trigger] slots@[k]).name@ == pairs@[k].0@,
                forall|k: int| 0 <= k < i ==> (#[trigger] slots@[k]).kind == pairs@[k].1,
            decreases pairs@.len() - i,
        {
            let (name, kind) = pairs[i];
            let owned = name.to_string();
            assert(owned@ == pairs@[i as int].0@);
            slots.push(SignalSpec { name: owned, kind });
            assert(slots@[i as int].name@ == pairs@[i as int].0@);
            assert(slots@[i as int].kind == pairs@[i as int].1);
            i = i + 1;
        }
        let r = SignalSchema { slots };
        assert(r.names() =~= pairs@.map_values(|p: (&str, SignalKind)| p.0@));
        assert(r.kinds() =~= pairs@.map_values(|p: (&str, SignalKind)| p.1));
        r
    }

    /// Build a schema from declared signals, in declaration order.
    pub fn from_specs(specs: &[SignalSpec]) -> (r: Self)
        ensures
            r.names() == specs@.map_values(|s: SignalSpec| s.name@),
            r.kinds() == specs@.map_values(|s: SignalSpec| s.kind),
    {
        let mut slots: Vec<SignalSpec> = Vec::new();
        let mut i: usize = 0;
        while i < specs.len()
            invariant
                i <= specs@.len(),
                slots@.len() == i,
                forall|k: int| 0 <= k < i ==> (#[trigger] slots@[k]).name@ == specs@[k].name@ && slots@[k].kind == specs@[k].kind,
            decreases specs@.len() - i,
        {
            slots.push(SignalSpec { name: specs[i].name.clone(), kind: specs[i].kind });
            i = i + 1;
        }
        let r = SignalSchema { slots };
        assert(r.names() =~= specs@.map_values(|s: SignalSpec| s.name@));
        assert(r.kinds() =~= specs@.map_values(|s: SignalSpec| s.kind));
        r
    }

    /// Number of slots.
    pub fn len(&self) -> (r: usize)
        ensures r == self.names().len(),
    {
        self.slots.len()
    }

    /// Resolve a name to its (first) slot.
    pub fn id(&self, name: &str) -> (r: Option<SignalId>)
        ensures
            r == (match first_slot(self.names(), name@) {
                Some(i) => Some(SignalId(i as usize)),
                None => None::<SignalId>,
            }),
    {
        let mut i: usize = 0;
        while i < self.slots.len()
            invariant
                i <= self.slots@.len(),
                forall|k: int| 0 <= k < i ==> self.names()[k] != name@,
            decreases self.slots@.len() - i,
        {
            if crate::text::str_eq(self.slots[i].name.as_str(), name) {
                proof { lemma_first_slot_is(self.names(), name@, i as int); }
                return Some(SignalId(i));
            }
            i = i + 1;
        }
        proof { lemma_first_slot_none(self.names(), name@); }
        None
    }

    /// Every slot in order: its id, its name and its kind.
    pub fn entries(&self) -> (r: Vec<(SignalId, String, SignalKind)>)
        ensures
            r@.len() == self.names().len(),
            forall|i: int| 0 <= i < r@.len() ==> {
                &&& (#[trigger] r@[i]).0 == SignalId(i as usize)
                &&& r@[i].1@ == self.names()[i]
                &&& r@[i].2 == self.kinds()[i]
            },
    {
        let mut out: Vec<(SignalId, String, SignalKind)> = Vec::new();
        let mut i: usize = 0;
        while i < self.slots.len()
            invariant
                i <= self.slots@.len(),
                out@.len() == i,
                forall|k: int| 0 <= k < i ==> {
                    &&& (#[trigger] out@[k]).0 == SignalId(k as usize)
                    &&& out@[k].1@ == self.names()[k]
                    &&& out@[k].2 == self.kinds()[k]
                },
            decreases self.slots@.len() - i,
        {
            let name = self.slots[i].name.clone();
            out.push((SignalId(i), name, self.slots[i].kind));
            i = i + 1;
        }
        out
    }

    /// The all-zero value of every slot, in slot order.
    pub fn zero_values(&self) -> (r: Vec<SignalValue>)
        ensures
            r@ == self.kinds().map_values(|k: SignalKind| zero_value(k)),
    {
        let mut out: Vec<SignalValue> = Vec::new();
        let mut i: usize = 0;
        while i < self.slots.len()
            invariant
                i <= self.slots@.len(),
                out@.len() == i,
                forall|k: int| 0 <= k < i ==> #[trigger] out@[k] == zero_value(self.kinds()[k]),
            decreases self.slots@.len() - i,
        {
            out.push(zero_of(self.slots[i].kind));
            i = i + 1;
        }
        assert(out@ =~= self.kinds().map_values(|k: SignalKind| zero_value(k)));
        out
    }
}

proof fn lemma_first_slot_is(names: Seq<Seq<char>>, name: Seq<char>, i: int)
    requires
        0 <= i < names.len(),
        names[i] == name,
        forall|k: int| 0 <= k < i ==> names[k] != name,
    ensures
        first_slot(names, name) == Some(i),
    decreases names.len(),
{
    if i < names.len() - 1 {
        lemma_first_slot_is(names.drop_last(), name, i);
        if names.last() == name {
            assert(first_slot(names.drop_last(), name) == Some(i));
        }
    } else {
        lemma_first_slot_none(names.drop_last(), name);
    }
}

proof fn lemma_first_slot_none(names: Seq<Seq<char>>, name: Seq<char>)
    requires
        forall|k: int| 0 <= k < names.len() ==> names[k] != name,
    ensures
        first_slot(names, name) == None::<int>,
    decreases names.len(),
{
    if names.len() > 0 {
        lemma_first_slot_none(names.drop_last(), name);
    }
}

/// A found slot holds the name asked for, and is the earliest such slot.
pub proof fn lemma_first_slot_sound(names: Seq<Seq<char>>, name: Seq<char>)
    ensures
        first_slot(names, name) matches Some(i) ==> 0 <= i < names.len() && names[i] == name
            && forall|k: int| 0 <= k < i ==> names[k] != name,
        first_slot(names, name) is None ==> forall|k: int| 0 <= k < names.len() ==> names[k] != name,
    decreases names.len(),
{
    if names.len() > 0 {
        let prefix = names.drop_last();
        lemma_first_slot_sound(prefix, name);
        match first_slot(prefix, name) {
            Some(j) => {
                assert(first_slot(names, name) == Some(j));
                assert forall|k: int| 0 <= k < j implies names[k] != name by {
                    assert(prefix[k] == names[k]);
                }
            },
            None => {
                assert forall|k: int| 0 <= k < prefix.len() implies names[k] != name by {
                    assert(prefix[k] == names[k]);
                }
                if names.last() == name {
                    assert(first_slot(names, name) == Some(names.len() - 1));
                } else {
                    assert(first_slot(names, name) is None);
                }
            },
        }
    }
}

} // verus!
