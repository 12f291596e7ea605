//! The behavior scheduler: one deterministic pass per tick over the enabled
//! behaviors in a stable order, one commit of their signals per tick,
//! commands applied between ticks — and the structural reload, decided as a
//! minimal diff against the running set.
//!
//! The schema builder assigns slot ids in publish order, so adding a behavior
//! appends slots and leaves earlier ids fixed — which lets unchanged
//! behaviors keep running untouched. For each incoming behavior, in order:
//!
//! * **reuse in place** — the first unmatched live instance with the same id,
//!   when it has started and every signal the incoming behavior publishes
//!   resolves to the same slot under the old and the new schema: the instance
//!   and its loaded resources are kept, only its config is refreshed;
//! * **rebuild** — otherwise a fresh instance is built; a matched old
//!   instance (whose ids moved, or that never started) is stopped first.
//!
//! Old instances left unmatched are stopped when they had started. Reused
//! instances are never stopped.

use crate::addon::schema::{ParamMap, ParamSpec, ParamValue, ParamValueView};
use crate::behavior::node::{BehaviorCtx, BehaviorNode, BehaviorStartCtx, FrameView, Timing};
use crate::behavior::{BehaviorCommand, BehaviorInit, BehaviorStatsShared};
use crate::signal::{first_slot, lemma_first_slot_sound, SignalId, SignalSchema, SignalSink, SignalSpec, SignalValue};
use crate::time::{duration_at_least, duration_from_millis, instant_elapsed, instant_now, nanos_u64};
use std::collections::BTreeMap;
use std::sync::Arc;
use std::time::Instant;
use vstd::prelude::*;

verus! {

/// What the scheduler knows of one running instance.
pub struct SlotMeta {
    pub instance_id: String,
    pub started: bool,
}

/// What the scheduler knows of one incoming behavior.
pub struct InitMeta {
    pub instance_id: String,
    /// Names of the signals it publishes.
    pub publish: Vec<String>,
}

/// The decision for one incoming behavior.
#[derive(Debug, Clone, Copy, PartialEq, Eq, Structural)]
pub enum SlotPlan {
    /// Keep the running instance at this index of the old set.
    Reuse(usize),
    /// Build a fresh instance, after stopping the matched old one, if any.
    Rebuild { stop_old: Option<usize> },
}

/// The whole reload: one decision per incoming behavior, in order, and the
/// indices of the old instances to stop because they left the set.
pub struct ReloadPlan {
    pub slots: Vec<SlotPlan>,
    pub stop_leftover: Vec<usize>,
}

/// Every published name resolves to the same slot under both schemas.
pub open spec fn ids_stable(publish: Seq<String>, old_names: Seq<Seq<char>>, new_names: Seq<Seq<char>>) -> bool {
    forall|k: int| 0 <= k < publish.len() ==> first_slot(old_names, #[trigger] publish[k]@) == first_slot(new_names, publish[k]@)
}

/// The first old instance at or after `from` with `id` that is not yet
/// matched.
pub open spec fn first_unmatched(old: Seq<SlotMeta>, taken: Seq<bool>, id: Seq<char>, from: int) -> Option<int>
    decreases old.len() - from,
{
    if from < 0 || from >= old.len() {
        None
    } else if !taken[from] && old[from].instance_id@ == id {
        Some(from)
    } else {
        first_unmatched(old, taken, id, from + 1)
    }
}

/// One incoming behavior's decision, and the matched set after it.
pub open spec fn plan_step(
    old: Seq<SlotMeta>,
    taken: Seq<bool>,
    init: InitMeta,
    old_names: Seq<Seq<char>>,
    new_names: Seq<Seq<char>>,
) -> (Seq<bool>, SlotPlan) {
    match first_unmatched(old, taken, init.instance_id@, 0) {
        Some(j) => (
            taken.update(j, true),
            if old[j].started && ids_stable(init.publish@, old_names, new_names) {
                SlotPlan::Reuse(j as usize)
            } else {
                SlotPlan::Rebuild { stop_old: Some(j as usize) }
            },
        ),
        None => (taken, SlotPlan::Rebuild { stop_old: None }),
    }
}

/// The decisions for the first `n` incoming behaviors, and which old
/// instances they matched.
pub open spec fn plan_prefix(
    old: Seq<SlotMeta>,
    inits: Seq<InitMeta>,
    n: int,
    old_names: Seq<Seq<char>>,
    new_names: Seq<Seq<char>>,
) -> (Seq<bool>, Seq<SlotPlan>)
    decreases n,
{
    if n <= 0 {
        (Seq::new(old.len(), |i: int| false), Seq::empty())
    } else {
        let (taken, plans) = plan_prefix(old, inits, n - 1, old_names, new_names);
        let (taken2, p) = plan_step(old, taken, inits[n - 1], old_names, new_names);
        (taken2, plans.push(p))
    }
}

/// The old instances to stop because nothing matched them: the started
/// ones, in index order.
pub open spec fn leftovers(old: Seq<SlotMeta>, taken: Seq<bool>, upto: int) -> Seq<usize>
    decreases upto,
{
    if upto <= 0 {
        Seq::empty()
    } else {
        let before = leftovers(old, taken, upto - 1);
        if !taken[upto - 1] && old[upto - 1].started {
            before.push((upto - 1) as usize)
        } else {
            before
        }
    }
}

proof fn lemma_first_unmatched_range(old: Seq<SlotMeta>, taken: Seq<bool>, id: Seq<char>, from: int)
    ensures
        first_unmatched(old, taken, id, from) matches Some(j) ==> from <= j < old.len() && !taken[j]
            && old[j].instance_id@ == id,
    decreases old.len() - from,
{
    if 0 <= from < old.len() && !(!taken[from] && old[from].instance_id@ == id) {
        lemma_first_unmatched_range(old, taken, id, from + 1);
    }
}

proof fn lemma_plan_prefix_len(
    old: Seq<SlotMeta>,
    inits: Seq<InitMeta>,
    n: int,
    old_names: Seq<Seq<char>>,
    new_names: Seq<Seq<char>>,
)
    requires
        0 <= n,
    ensures
        plan_prefix(old, inits, n, old_names, new_names).0.len() == old.len(),
        plan_prefix(old, inits, n, old_names, new_names).1.len() == n,
    decreases n,
{
    if n > 0 {
        lemma_plan_prefix_len(old, inits, n - 1, old_names, new_names);
        let taken = plan_prefix(old, inits, n - 1, old_names, new_names).0;
        lemma_first_unmatched_range(old, taken, inits[n - 1].instance_id@, 0);
    }
}

/// Whether every published name of `init` resolves alike in both schemas.
fn publish_ids_stable(init: &InitMeta, old_schema: &SignalSchema, new_schema: &SignalSchema) -> (r: bool)
    ensures
        r == ids_stable(init.publish@, old_schema.names(), new_schema.names()),
{
    let lo = old_schema.len();
    let ln = new_schema.len();
    let mut k: usize = 0;
    while k < init.publish.len()
        invariant
            k <= init.publish@.len(),
            lo == old_schema.names().len(),
            ln == new_schema.names().len(),
            forall|i: int| 0 <= i < k ==> first_slot(old_schema.names(), #[trigger] init.publish@[i]@) == first_slot(
                new_schema.names(),
                init.publish@[i]@,
            ),
        decreases init.publish@.len() - k,
    {
        let name = init.publish[k].as_str();
        let a = old_schema.id(name);
        let b = new_schema.id(name);
        proof {
            lemma_first_slot_sound(old_schema.names(), name@);
            lemma_first_slot_sound(new_schema.names(), name@);
            assert(name@ == init.publish@[k as int]@);
        }
        if a != b {
            assert(first_slot(old_schema.names(), init.publish@[k as int]@) != first_slot(
                new_schema.names(),
                init.publish@[k as int]@,
            ));
            return false;
        }
        k = k + 1;
    }
    true
}

/// The first unmatched old instance with `id`.
fn find_unmatched(old: &[SlotMeta], taken: &Vec<bool>, id: &str) -> (r: Option<usize>)
    requires
        taken@.len() == old@.len(),
    ensures
        r matches Some(j) ==> j < old@.len() && first_unmatched(old@, taken@, id@, 0) == Some(j as int),
        r is None ==> first_unmatched(old@, taken@, id@, 0) is None,
{
    let mut j: usize = old.len();
    let mut found: Option<usize> = None;
    while j > 0
        invariant
            j <= old@.len(),
            taken@.len() == old@.len(),
            found matches Some(f) ==> f < old@.len() && first_unmatched(old@, taken@, id@, j as int) == Some(f as int),
            found is None ==> first_unmatched(old@, taken@, id@, j as int) is None,
        decreases j,
    {
        j = j - 1;
        if !taken[j] && crate::text::str_eq(old[j].instance_id.as_str(), id) {
            found = Some(j);
        }
    }
    found
}

/// Plan a structural reload of the running set `old` (under `old_schema`)
/// into `inits` (under `new_schema`).
pub fn plan_reload(
    old: &[SlotMeta],
    inits: &[InitMeta],
    old_schema: &SignalSchema,
    new_schema: &SignalSchema,
) -> (r: ReloadPlan)
    ensures
        r.slots@ == plan_prefix(old@, inits@, inits@.len() as int, old_schema.names(), new_schema.names()).1,
        r.stop_leftover@ == leftovers(
            old@,
            plan_prefix(old@, inits@, inits@.len() as int, old_schema.names(), new_schema.names()).0,
            old@.len() as int,
        ),
{
    let ghost on = old_schema.names();
    let ghost nn = new_schema.names();
    let mut taken: Vec<bool> = Vec::new();
    let mut k: usize = 0;
    while k < old.len()
        invariant
            k <= old@.len(),
            taken@.len() == k,
            forall|i: int| 0 <= i < k ==> !#[trigger] taken@[i],
        decreases old@.len() - k,
    {
        taken.push(false);
        k = k + 1;
    }
    assert(taken@ =~= Seq::new(old@.len(), |i: int| false));
    let mut slots: Vec<SlotPlan> = Vec::new();
    let mut i: usize = 0;
    while i < inits.len()
        invariant
            i <= inits@.len(),
            taken@ == plan_prefix(old@, inits@, i as int, on, nn).0,
            slots@ == plan_prefix(old@, inits@, i as int, on, nn).1,
            taken@.len() == old@.len(),
            on == old_schema.names(),
            nn == new_schema.names(),
        decreases inits@.len() - i,
    {
        let init = &inits[i];
        let plan = match find_unmatched(old, &taken, init.instance_id.as_str()) {
            Some(j) => {
                taken.set(j, true);
                if old[j].started && publish_ids_stable(init, old_schema, new_schema) {
                    SlotPlan::Reuse(j)
                } else {
                    SlotPlan::Rebuild { stop_old: Some(j) }
                }
            },
            None => SlotPlan::Rebuild { stop_old: None },
        };
        slots.push(plan);
        i = i + 1;
        proof {
            lemma_plan_prefix_len(old@, inits@, i as int, on, nn);
            assert(inits@[i - 1] == *init);
        }
    }
    let mut stop_leftover: Vec<usize> = Vec::new();
    let mut j: usize = 0;
    while j < old.len()
        invariant
            j <= old@.len(),
            taken@.len() == old@.len(),
            stop_leftover@ == leftovers(old@, taken@, j as int),
        decreases old@.len() - j,
    {
        if !taken[j] && old[j].started {
            stop_leftover.push(j);
        }
        j = j + 1;
    }
    ReloadPlan { slots, stop_leftover }
}

/// The old instance a decision concerns: the one reused, or the one stopped
/// before a rebuild.
pub open spec fn plan_target(p: SlotPlan) -> Option<usize> {
    match p {
        SlotPlan::Reuse(j) => Some(j),
        SlotPlan::Rebuild { stop_old } => stop_old,
    }
}

proof fn lemma_plan_targets(
    old: Seq<SlotMeta>,
    inits: Seq<InitMeta>,
    n: int,
    old_names: Seq<Seq<char>>,
    new_names: Seq<Seq<char>>,
)
    requires
        0 <= n <= inits.len(),
        old.len() <= usize::MAX,
    ensures
        ({
            let (taken, plans) = plan_prefix(old, inits, n, old_names, new_names);
            &&& taken.len() == old.len()
            &&& plans.len() == n
            &&& forall|i: int| #![trigger plans[i]] 0 <= i < n ==> (plan_target(plans[i]) matches Some(j) ==> {
                &&& j < old.len()
                &&& taken[j as int]
                &&& old[j as int].instance_id@ == inits[i].instance_id@
            })
            &&& forall|i: int, k: int| #![trigger plans[i], plans[k]] 0 <= i < n && 0 <= k < n && i != k
                && plan_target(plans[i]) is Some ==> plan_target(plans[i]) != plan_target(plans[k])
            &&& forall|i: int| #![trigger plans[i]] 0 <= i < n ==> (plans[i] matches SlotPlan::Reuse(j)
                ==> old[j as int].started)
        }),
    decreases n,
{
    lemma_plan_prefix_len(old, inits, n, old_names, new_names);
    if n > 0 {
        lemma_plan_targets(old, inits, n - 1, old_names, new_names);
        lemma_plan_prefix_len(old, inits, n - 1, old_names, new_names);
        let (taken, plans) = plan_prefix(old, inits, n - 1, old_names, new_names);
        let (taken2, plans2) = plan_prefix(old, inits, n, old_names, new_names);
        let init = inits[n - 1];
        let id = init.instance_id@;
        lemma_first_unmatched_range(old, taken, id, 0);
        let step = plan_step(old, taken, init, old_names, new_names);
        assert(taken2 == step.0 && plans2 == plans.push(step.1));
        let p = step.1;
        match first_unmatched(old, taken, id, 0) {
            Some(jj) => {
                assert(taken2 == taken.update(jj, true));
                assert(plan_target(p) == Some(jj as usize));
                assert((jj as usize) as int == jj);
                assert forall|i: int| #![trigger plans2[i]] 0 <= i < n implies (plan_target(plans2[i]) matches Some(j) ==> {
                    &&& j < old.len()
                    &&& taken2[j as int]
                    &&& old[j as int].instance_id@ == inits[i].instance_id@
                }) by {
                    if i < n - 1 {
                        assert(plans2[i] == plans[i]);
                    } else {
                        assert(plans2[i] == p);
                    }
                }
                assert forall|i: int, k: int| #![trigger plans2[i], plans2[k]] 0 <= i < n && 0 <= k < n && i != k
                    && plan_target(plans2[i]) is Some implies plan_target(plans2[i]) != plan_target(plans2[k]) by {
                    if i < n - 1 && k < n - 1 {
                        assert(plans2[i] == plans[i] && plans2[k] == plans[k]);
                    } else if i < n - 1 {
                        assert(plans2[i] == plans[i]);
                        assert(plans2[k] == p);
                        let a = plan_target(plans[i])->Some_0;
                        assert(taken[a as int]);
                    } else {
                        assert(plans2[k] == plans[k]);
                        assert(plans2[i] == p);
                        if plan_target(plans[k]) is Some {
                            let b = plan_target(plans[k])->Some_0;
                            assert(taken[b as int]);
                        }
                    }
                }
                assert forall|i: int| #![trigger plans2[i]] 0 <= i < n implies (plans2[i] matches SlotPlan::Reuse(j)
                    ==> old[j as int].started) by {
                    if i < n - 1 {
                        assert(plans2[i] == plans[i]);
                    } else {
                        assert(plans2[i] == p);
                    }
                }
            },
            None => {
                assert(taken2 == taken);
                assert(plan_target(p) is None);
                assert forall|i: int| #![trigger plans2[i]] 0 <= i < n implies (plan_target(plans2[i]) matches Some(j) ==> {
                    &&& j < old.len()
                    &&& taken2[j as int]
                    &&& old[j as int].instance_id@ == inits[i].instance_id@
                }) by {
                    if i < n - 1 {
                        assert(plans2[i] == plans[i]);
                    } else {
                        assert(plans2[i] == p);
                    }
                }
                assert forall|i: int, k: int| #![trigger plans2[i], plans2[k]] 0 <= i < n && 0 <= k < n && i != k
                    && plan_target(plans2[i]) is Some implies plan_target(plans2[i]) != plan_target(plans2[k]) by {
                    if i < n - 1 && k < n - 1 {
                        assert(plans2[i] == plans[i] && plans2[k] == plans[k]);
                    } else if i < n - 1 {
                        assert(plans2[k] == p);
                    } else {
                        assert(plans2[i] == p);
                    }
                }
                assert forall|i: int| #![trigger plans2[i]] 0 <= i < n implies (plans2[i] matches SlotPlan::Reuse(j)
                    ==> old[j as int].started) by {
                    if i < n - 1 {
                        assert(plans2[i] == plans[i]);
                    } else {
                        assert(plans2[i] == p);
                    }
                }
            },
        }
    }
}

proof fn lemma_leftovers(old: Seq<SlotMeta>, taken: Seq<bool>, upto: int)
    requires
        0 <= upto <= old.len(),
        old.len() <= usize::MAX,
        taken.len() == old.len(),
    ensures
        forall|m: int| #![trigger leftovers(old, taken, upto)[m]] 0 <= m < leftovers(old, taken, upto).len() ==> {
            let j = leftovers(old, taken, upto)[m] as int;
            &&& 0 <= j < upto
            &&& !taken[j]
            &&& old[j].started
        },
    decreases upto,
{
    if upto > 0 {
        lemma_leftovers(old, taken, upto - 1);
        let before = leftovers(old, taken, upto - 1);
        let all = leftovers(old, taken, upto);
        assert forall|m: int| #![trigger all[m]] 0 <= m < all.len() implies {
            let j = all[m] as int;
            &&& 0 <= j < upto
            &&& !taken[j]
            &&& old[j].started
        } by {
            if m < before.len() {
                assert(all[m] == before[m]);
            } else {
                assert(all[m] == (upto - 1) as usize);
            }
        }
    }
}

/// A reload never stops an instance it keeps: an instance reused for one
/// incoming behavior is matched by no other and is not among the leftovers
/// to stop; every instance it keeps had started and has the same id.
pub proof fn lemma_reused_instances_keep_running(
    old: Seq<SlotMeta>,
    inits: Seq<InitMeta>,
    old_names: Seq<Seq<char>>,
    new_names: Seq<Seq<char>>,
    i: int,
)
    requires
        0 <= i < inits.len(),
        old.len() <= usize::MAX,
        plan_prefix(old, inits, inits.len() as int, old_names, new_names).1[i] is Reuse,
    ensures
        ({
            let (taken, plans) = plan_prefix(old, inits, inits.len() as int, old_names, new_names);
            let j = plans[i]->Reuse_0;
            &&& j < old.len()
            &&& old[j as int].started
            &&& old[j as int].instance_id@ == inits[i].instance_id@
            &&& forall|k: int| 0 <= k < plans.len() && k != i ==> plan_target(#[trigger] plans[k]) != Some(j)
            &&& !leftovers(old, taken, old.len() as int).contains(j)
        }),
{
    let n = inits.len() as int;
    lemma_plan_targets(old, inits, n, old_names, new_names);
    let (taken, plans) = plan_prefix(old, inits, n, old_names, new_names);
    let j = plans[i]->Reuse_0;
    assert(plan_target(plans[i]) == Some(j));
    assert forall|k: int| 0 <= k < plans.len() && k != i implies plan_target(#[trigger] plans[k]) != Some(j) by {
        assert(plan_target(plans[i]) != plan_target(plans[k]));
    }
    lemma_leftovers(old, taken, old.len() as int);
    if leftovers(old, taken, old.len() as int).contains(j) {
        let m = choose|m: int| 0 <= m < leftovers(old, taken, old.len() as int).len()
            && leftovers(old, taken, old.len() as int)[m] == j;
        assert(!taken[j as int]);
    }
}

/// Per-tick update budget, in milliseconds: a tick whose updates take
/// longer is counted as over budget.
pub const UPDATE_BUDGET_MS: u64 = 8;

/// Scheduler tick period, in milliseconds (about 30 Hz).
pub const TICK_PERIOD_MS: u64 = 33;

/// One live behavior as the scheduler tracks it: its instance id, its
/// current configuration, and whether it is enabled and started.
pub struct SlotState {
    pub instance_id: String,
    pub values: ParamMap,
    pub enabled: bool,
    pub started: bool,
}

/// A slot with its id and configuration taken as values.
pub struct SlotView {
    pub id: Seq<char>,
    pub values: Map<Seq<char>, ParamValueView>,
    pub enabled: bool,
    pub started: bool,
}

pub open spec fn slot_view(s: SlotState) -> SlotView {
    SlotView { id: s.instance_id@, values: s.values.spec_map(), enabled: s.enabled, started: s.started }
}

/// The first slot with instance id `id`.
pub open spec fn first_with_id(slots: Seq<SlotView>, id: Seq<char>) -> Option<int> {
    if exists|j: int| 0 <= j < slots.len() && slots[j].id == id {
        Some(choose|j: int| 0 <= j < slots.len() && slots[j].id == id && forall|k: int| 0 <= k < j ==> slots[k].id != id)
    } else {
        None
    }
}

/// The slots after `cmd`: the first slot with the command's instance id is
/// changed, every other slot is left as it was; an unknown id changes nothing.
pub open spec fn after_command(slots: Seq<SlotView>, id: Seq<char>, change: spec_fn(SlotView) -> SlotView) -> Seq<SlotView> {
    match first_with_id(slots, id) {
        Some(j) => slots.update(j, change(slots[j])),
        None => slots,
    }
}

/// Two running sets that agree on every id and started flag.
pub open spec fn same_metas(a: Seq<SlotMeta>, b: Seq<SlotMeta>) -> bool {
    &&& a.len() == b.len()
    &&& forall|k: int| 0 <= k < a.len() ==> (#[trigger] a[k]).instance_id@ == b[k].instance_id@ && a[k].started == b[k].started
}

proof fn lemma_first_unmatched_congruent(a: Seq<SlotMeta>, b: Seq<SlotMeta>, taken: Seq<bool>, id: Seq<char>, from: int)
    requires
        same_metas(a, b),
    ensures
        first_unmatched(a, taken, id, from) == first_unmatched(b, taken, id, from),
    decreases a.len() - from,
{
    if 0 <= from < a.len() {
        assert(a[from].instance_id@ == b[from].instance_id@);
        lemma_first_unmatched_congruent(a, b, taken, id, from + 1);
    }
}

proof fn lemma_plan_congruent(
    a: Seq<SlotMeta>,
    b: Seq<SlotMeta>,
    inits: Seq<InitMeta>,
    n: int,
    old_names: Seq<Seq<char>>,
    new_names: Seq<Seq<char>>,
)
    requires
        same_metas(a, b),
    ensures
        plan_prefix(a, inits, n, old_names, new_names) == plan_prefix(b, inits, n, old_names, new_names),
    decreases n,
{
    if n > 0 {
        lemma_plan_congruent(a, b, inits, n - 1, old_names, new_names);
        let taken = plan_prefix(a, inits, n - 1, old_names, new_names).0;
        lemma_first_unmatched_congruent(a, b, taken, inits[n - 1].instance_id@, 0);
        lemma_first_unmatched_range(a, taken, inits[n - 1].instance_id@, 0);
        match first_unmatched(a, taken, inits[n - 1].instance_id@, 0) {
            Some(j) => {
                assert(a[j].started == b[j].started);
            },
            None => {},
        }
    } else {
        assert(Seq::new(a.len(), |i: int| false) =~= Seq::new(b.len(), |i: int| false));
    }
}

proof fn lemma_leftovers_congruent(a: Seq<SlotMeta>, b: Seq<SlotMeta>, taken: Seq<bool>, upto: int)
    requires
        same_metas(a, b),
        upto <= a.len(),
    ensures
        leftovers(a, taken, upto) == leftovers(b, taken, upto),
    decreases upto,
{
    if upto > 0 {
        assert(a[upto - 1].started == b[upto - 1].started);
        lemma_leftovers_congruent(a, b, taken, upto - 1);
    }
}

/// An incoming behavior of a reload: what the plan reads, and the
/// configuration it runs with.
pub struct IncomingSlot {
    pub meta: InitMeta,
    pub values: ParamMap,
    pub enabled: bool,
}

/// What the reload plan reads of the running slots.
pub open spec fn metas_of(slots: Seq<SlotState>) -> Seq<SlotMeta> {
    slots.map_values(|s: SlotState| SlotMeta { instance_id: s.instance_id, started: s.started })
}

fn slot_metas(slots: &[SlotState]) -> (r: Vec<SlotMeta>)
    ensures
        r@.len() == slots@.len(),
        forall|i: int| 0 <= i < r@.len() ==> (#[trigger] r@[i]).instance_id@ == slots@[i].instance_id@ && r@[i].started == slots@[i].started,
{
    let mut out: Vec<SlotMeta> = Vec::new();
    let mut i: usize = 0;
    while i < slots.len()
        invariant
            i <= slots@.len(),
            out@.len() == i,
            forall|k: int| 0 <= k < i ==> (#[trigger] out@[k]).instance_id@ == slots@[k].instance_id@ && out@[k].started == slots@[k].started,
        decreases slots@.len() - i,
    {
        out.push(SlotMeta { instance_id: slots[i].instance_id.clone(), started: slots[i].started });
        i = i + 1;
    }
    out
}

/// A reload of the running `slots` into `incoming`: the plan (as
/// [`plan_reload`] decides it), and the next slots, one per incoming
/// behavior in order, each with its own id and configuration, started
/// exactly when its running instance is reused.
pub fn reload_slots(
    slots: &[SlotState],
    incoming: Vec<IncomingSlot>,
    old_schema: &SignalSchema,
    new_schema: &SignalSchema,
) -> (r: (ReloadPlan, Vec<SlotState>))
    ensures
        ({
            &&& r.1@.len() == incoming@.len()
            &&& r.0.slots@.len() == incoming@.len()
            &&& forall|i: int| 0 <= i < incoming@.len() ==> #[trigger] slot_view(r.1@[i]) == (SlotView {
                id: incoming@[i].meta.instance_id@,
                values: incoming@[i].values.spec_map(),
                enabled: incoming@[i].enabled,
                started: r.0.slots@[i] is Reuse,
            })
        }),
        ({
            let (taken, plans) = plan_prefix(
                metas_of(slots@),
                incoming@.map_values(|x: IncomingSlot| x.meta),
                incoming@.len() as int,
                old_schema.names(),
                new_schema.names(),
            );
            &&& r.0.slots@ == plans
            &&& r.0.stop_leftover@ == leftovers(metas_of(slots@), taken, slots@.len() as int)
        }),
{
    let old_metas = slot_metas(slots);
    let ghost inc0 = incoming@;
    let mut incoming = incoming;
    let mut metas: Vec<InitMeta> = Vec::new();
    let mut configs: Vec<(ParamMap, bool)> = Vec::new();
    while incoming.len() > 0
        invariant
            metas@.len() == configs@.len(),
            metas@.len() + incoming@.len() == inc0.len(),
            incoming@ == inc0.subrange(metas@.len() as int, inc0.len() as int),
            forall|k: int| 0 <= k < metas@.len() ==> #[trigger] metas@[k] == inc0[k].meta,
            forall|k: int| 0 <= k < configs@.len() ==> (#[trigger] configs@[k]).0.spec_map() == inc0[k].values.spec_map() && configs@[k].1 == inc0[k].enabled,
        decreases incoming@.len(),
    {
        let x = incoming.remove(0);
        let IncomingSlot { meta, values, enabled } = x;
        metas.push(meta);
        configs.push((values, enabled));
    }
    assert(metas@ =~= inc0.map_values(|x: IncomingSlot| x.meta));
    let plan = plan_reload(old_metas.as_slice(), metas.as_slice(), old_schema, new_schema);
    proof {
        lemma_plan_prefix_len(old_metas@, metas@, metas@.len() as int, old_schema.names(), new_schema.names());
        assert(same_metas(old_metas@, metas_of(slots@)));
        lemma_plan_congruent(old_metas@, metas_of(slots@), metas@, metas@.len() as int, old_schema.names(), new_schema.names());
        let taken = plan_prefix(old_metas@, metas@, metas@.len() as int, old_schema.names(), new_schema.names()).0;
        lemma_leftovers_congruent(old_metas@, metas_of(slots@), taken, slots@.len() as int);
    }
    let mut next: Vec<SlotState> = Vec::new();
    let mut i: usize = 0;
    let n = metas.len();
    while configs.len() > 0
        invariant
            n == metas@.len(),
            metas@.len() == inc0.len(),
            plan.slots@.len() == n,
            i + configs@.len() == n,
            next@.len() == i,
            forall|k: int| 0 <= k < metas@.len() ==> #[trigger] metas@[k] == inc0[k].meta,
            forall|k: int| 0 <= k < configs@.len() ==> (#[trigger] configs@[k]).0.spec_map() == inc0[i + k].values.spec_map() && configs@[k].1 == inc0[i + k].enabled,
            forall|k: int| 0 <= k < i ==> #[trigger] slot_view(next@[k]) == (SlotView {
                id: inc0[k].meta.instance_id@,
                values: inc0[k].values.spec_map(),
                enabled: inc0[k].enabled,
                started: plan.slots@[k] is Reuse,
            }),
        decreases configs@.len(),
    {
        let ghost c0 = configs@;
        let (values, enabled) = configs.remove(0);
        proof {
            assert forall|k: int| 0 <= k < configs@.len() implies (#[trigger] configs@[k]).0.spec_map() == inc0[i + 1 + k].values.spec_map() && configs@[k].1 == inc0[i + 1 + k].enabled by {
                assert(configs@[k] == c0[k + 1]);
            }
            assert(c0[0].0.spec_map() == inc0[i as int].values.spec_map());
        }
        let started = match plan.slots[i] {
            SlotPlan::Reuse(_) => true,
            SlotPlan::Rebuild { .. } => false,
        };
        let id = metas[i].instance_id.clone();
        next.push(SlotState { instance_id: id, values, enabled, started });
        i = i + 1;
    }
    (plan, next)
}

/// A call the scheduler makes on a node or on its publisher, in the order it
/// makes them. A slot index names the slot list of that moment (for a
/// reload's stops, the list before the reload).
pub enum SchedulerCall {
    /// The node of this slot was started, with the schema and the slot's
    /// configuration.
    Start(usize),
    /// The node of this slot was updated with the slot's configuration, the
    /// tick's frame (when `framed`) and this timing.
    Update { slot: usize, framed: bool, timing: Timing },
    /// The node of this slot was stopped.
    Stop(usize),
    /// A value staged on the publisher.
    Stage(SignalId, SignalValue),
    /// The publisher committed.
    Commit,
}

/// The starts of the first `n` slots that have not started, in order.
pub open spec fn start_calls(slots: Seq<SlotView>, n: int) -> Seq<SchedulerCall>
    decreases n,
{
    if n <= 0 {
        Seq::empty()
    } else {
        start_calls(slots, n - 1) + if !slots[n - 1].started { seq![SchedulerCall::Start((n - 1) as usize)] } else { Seq::empty() }
    }
}

/// The stops of the first `n` slots that have started, in order.
pub open spec fn stop_calls(slots: Seq<SlotView>, n: int) -> Seq<SchedulerCall>
    decreases n,
{
    if n <= 0 {
        Seq::empty()
    } else {
        stop_calls(slots, n - 1) + if slots[n - 1].started { seq![SchedulerCall::Stop((n - 1) as usize)] } else { Seq::empty() }
    }
}

/// Staging each of `staged`, in order.
pub open spec fn stage_calls(staged: Seq<(SignalId, SignalValue)>) -> Seq<SchedulerCall> {
    staged.map_values(|p: (SignalId, SignalValue)| SchedulerCall::Stage(p.0, p.1))
}

/// One tick's node work over the first `n` slots: each enabled slot's node
/// is updated, and what it staged (`staged[i]`) goes to the publisher, in
/// slot order; a disabled slot is left alone.
pub open spec fn update_calls(
    slots: Seq<SlotView>,
    framed: bool,
    timing: Timing,
    staged: Seq<Seq<(SignalId, SignalValue)>>,
    n: int,
) -> Seq<SchedulerCall>
    decreases n,
{
    if n <= 0 {
        Seq::empty()
    } else {
        update_calls(slots, framed, timing, staged, n - 1) + if slots[n - 1].enabled {
            seq![SchedulerCall::Update { slot: (n - 1) as usize, framed, timing }] + stage_calls(staged[n - 1])
        } else {
            Seq::empty()
        }
    }
}

/// Whether an incoming behavior's meta reads as `b`: its id and the names
/// it publishes.
pub open spec fn meta_matches(m: InitMeta, b: BehaviorInit) -> bool {
    &&& m.instance_id@ == b.instance_id@
    &&& m.publish@.map_values(|s: String| s@) == b.publish@.map_values(|x: SignalSpec| x.name@)
}

/// The stops a reload makes while it builds its slots: for each of the
/// first `n` decisions that rebuilds over a matched old instance, that old
/// instance.
pub open spec fn rebuild_stop_calls(plans: Seq<SlotPlan>, n: int) -> Seq<SchedulerCall>
    decreases n,
{
    if n <= 0 {
        Seq::empty()
    } else {
        rebuild_stop_calls(plans, n - 1) + match plans[n - 1] {
            SlotPlan::Rebuild { stop_old: Some(j) } => seq![SchedulerCall::Stop(j)],
            _ => Seq::empty(),
        }
    }
}

/// Stopping each old instance in `gone`, in order.
pub open spec fn leftover_stop_calls(gone: Seq<usize>) -> Seq<SchedulerCall> {
    gone.map_values(|j: usize| SchedulerCall::Stop(j))
}

/// The starts a reload makes at its end: every new slot whose decision is
/// not to reuse a running instance, in order.
pub open spec fn rebuilt_start_calls(plans: Seq<SlotPlan>, n: int) -> Seq<SchedulerCall>
    decreases n,
{
    if n <= 0 {
        Seq::empty()
    } else {
        rebuilt_start_calls(plans, n - 1) + if plans[n - 1] is Reuse { Seq::empty() } else { seq![SchedulerCall::Start((n - 1) as usize)] }
    }
}

/// The calls a reload makes, given its plan: the stops of rebuilt old
/// instances, then of old instances that left the set, then the starts of
/// the new slots not reused.
pub open spec fn reload_calls(plans: Seq<SlotPlan>, gone: Seq<usize>) -> Seq<SchedulerCall> {
    rebuild_stop_calls(plans, plans.len() as int) + leftover_stop_calls(gone) + rebuilt_start_calls(plans, plans.len() as int)
}

proof fn lemma_rebuilt_starts(slots: Seq<SlotView>, plans: Seq<SlotPlan>, n: int)
    requires
        0 <= n <= slots.len(),
        n <= plans.len(),
        forall|k: int| 0 <= k < n ==> #[trigger] slots[k].started == (plans[k] is Reuse),
    ensures
        start_calls(slots, n) == rebuilt_start_calls(plans, n),
    decreases n,
{
    if n > 0 {
        lemma_rebuilt_starts(slots, plans, n - 1);
    }
}

proof fn lemma_leftovers_increasing(old: Seq<SlotMeta>, taken: Seq<bool>, upto: int)
    requires
        0 <= upto <= old.len(),
        old.len() <= usize::MAX,
    ensures
        forall|a: int, b: int| 0 <= a < b < leftovers(old, taken, upto).len()
            ==> #[trigger] leftovers(old, taken, upto)[a] < #[trigger] leftovers(old, taken, upto)[b],
        forall|a: int| 0 <= a < leftovers(old, taken, upto).len() ==> #[trigger] leftovers(old, taken, upto)[a] < upto,
    decreases upto,
{
    if upto > 0 {
        lemma_leftovers_increasing(old, taken, upto - 1);
        let before = leftovers(old, taken, upto - 1);
        let all = leftovers(old, taken, upto);
        assert forall|a: int| 0 <= a < all.len() implies #[trigger] all[a] < upto by {
            if a < before.len() {
                assert(all[a] == before[a]);
            }
        }
        assert forall|a: int, b: int| 0 <= a < b < all.len() implies #[trigger] all[a] < #[trigger] all[b] by {
            if b < before.len() {
                assert(all[a] == before[a] && all[b] == before[b]);
            } else {
                assert(all[a] == before[a]);
            }
        }
    }
}

/// The node work over the first `n` slots depends only on what the first `n`
/// slots staged.
proof fn lemma_update_calls_prefix(
    slots: Seq<SlotView>,
    framed: bool,
    timing: Timing,
    a: Seq<Seq<(SignalId, SignalValue)>>,
    b: Seq<Seq<(SignalId, SignalValue)>>,
    n: int,
)
    requires
        0 <= n <= a.len(),
        n <= b.len(),
        forall|k: int| 0 <= k < n ==> a[k] == b[k],
    ensures
        update_calls(slots, framed, timing, a, n) == update_calls(slots, framed, timing, b, n),
    decreases n,
{
    if n > 0 {
        lemma_update_calls_prefix(slots, framed, timing, a, b, n - 1);
    }
}

/// One live behavior: what the scheduler tracks of it, its node, and its
/// parameter declarations.
pub struct Slot {
    pub state: SlotState,
    pub node: Box<dyn BehaviorNode>,
    pub specs: BTreeMap<String, ParamSpec>,
}

impl Slot {
    /// A not-yet-started slot for a behavior.
    pub fn from_init(init: BehaviorInit) -> (r: Slot)
        ensures
            slot_view(r.state) == (SlotView {
                id: init.instance_id@,
                values: init.values.spec_map(),
                enabled: init.enabled,
                started: false,
            }),
    {
        Slot {
            state: SlotState { instance_id: init.instance_id, values: init.values, enabled: init.enabled, started: false },
            node: init.node,
            specs: init.specs,
        }
    }
}

/// A new behavior's node and declarations, waiting for its slot.
struct FreshNode {
    node: Box<dyn BehaviorNode>,
    specs: BTreeMap<String, ParamSpec>,
}

impl FreshNode {
    fn new(node: Box<dyn BehaviorNode>, specs: BTreeMap<String, ParamSpec>) -> (r: Self)
        ensures
            r.specs == specs,
    {
        FreshNode { node, specs }
    }
}

impl Slot {
    fn assemble(state: SlotState, node: Box<dyn BehaviorNode>, specs: BTreeMap<String, ParamSpec>) -> (r: Slot)
        ensures
            r.state == state,
    {
        Slot { state, node, specs }
    }
}

/// What the scheduler tracks of its slots.
pub open spec fn slot_states(slots: Seq<Slot>) -> Seq<SlotView> {
    slots.map_values(|s: Slot| slot_view(s.state))
}

/// The behavior thread's scheduler: it starts behaviors, runs the enabled
/// ones in a stable order once per tick, commits their signals once per
/// tick, and applies commands (hot parameter updates, enable/disable,
/// structural reloads) between ticks.
pub struct BehaviorScheduler<P: SignalSink> {
    slots: Vec<Slot>,
    publisher: P,
    schema: Arc<SignalSchema>,
    stats: Arc<BehaviorStatsShared>,
    published: u64,
    fps_window_start: Instant,
    fps_window_ticks: u32,
    calls: Ghost<Seq<SchedulerCall>>,
}

#[verifier::spinoff_prover]
fn slots_from_inits(inits: Vec<BehaviorInit>) -> (r: Vec<Slot>)
    ensures
        slot_states(r@) == inits@.map_values(|i: BehaviorInit| (SlotView {
            id: i.instance_id@,
            values: i.values.spec_map(),
            enabled: i.enabled,
            started: false,
        })),
{
    let ghost all = inits@;
    let mut inits = inits;
    let mut out: Vec<Slot> = Vec::new();
    while inits.len() > 0
        invariant
            out@.len() + inits@.len() == all.len(),
            inits@ == all.subrange(out@.len() as int, all.len() as int),
            forall|k: int| 0 <= k < out@.len() ==> #[trigger] slot_view(out@[k].state) == (SlotView {
                id: all[k].instance_id@,
                values: all[k].values.spec_map(),
                enabled: all[k].enabled,
                started: false,
            }),
        decreases inits@.len(),
    {
        let init = inits.remove(0);
        out.push(Slot::from_init(init));
    }
    assert(slot_states(out@) =~= all.map_values(|i: BehaviorInit| (SlotView {
        id: i.instance_id@,
        values: i.values.spec_map(),
        enabled: i.enabled,
        started: false,
    })));
    out
}

impl<P: SignalSink> BehaviorScheduler<P> {
    /// The slots, in run order.
    pub closed spec fn spec_slots(&self) -> Seq<SlotView> {
        slot_states(self.slots@)
    }

    /// The slot names of the current schema.
    pub closed spec fn spec_schema_names(&self) -> Seq<Seq<char>> {
        self.schema.names()
    }

    /// Ticks committed since the scheduler was made.
    pub closed spec fn spec_published(&self) -> u64 {
        self.published
    }

    /// Ticks in the current frames-per-second window.
    pub closed spec fn spec_window_ticks(&self) -> u32 {
        self.fps_window_ticks
    }

    /// The publisher the scheduler commits into.
    pub closed spec fn spec_publisher(&self) -> P {
        self.publisher
    }

    /// What the reload plan reads of the running slots.
    pub closed spec fn spec_metas(&self) -> Seq<SlotMeta> {
        metas_of(self.slots@.map_values(|s: Slot| s.state))
    }

    /// Every call made on the nodes and the publisher since the scheduler
    /// was made, in order.
    pub closed spec fn spec_calls(&self) -> Seq<SchedulerCall> {
        self.calls@
    }

    pub fn new(publisher: P, schema: Arc<SignalSchema>, initial: Vec<BehaviorInit>, stats: Arc<BehaviorStatsShared>) -> (r: Self)
        ensures
            r.spec_slots() == initial@.map_values(|i: BehaviorInit| (SlotView {
                id: i.instance_id@,
                values: i.values.spec_map(),
                enabled: i.enabled,
                started: false,
            })),
            r.spec_schema_names() == schema.names(),
            r.spec_published() == 0,
            r.spec_window_ticks() == 0,
            r.spec_publisher() == publisher,
            r.spec_calls() == Seq::<SchedulerCall>::empty(),
    {
        let slots = slots_from_inits(initial);
        BehaviorScheduler {
            slots,
            publisher,
            schema,
            stats,
            published: 0,
            fps_window_start: instant_now(),
            fps_window_ticks: 0,
            calls: Ghost(Seq::empty()),
        }
    }

    /// Ticks committed since the scheduler was made.
    pub fn published(&self) -> (r: u64)
        ensures
            r == self.spec_published(),
    {
        self.published
    }

    /// Ticks in the current frames-per-second window.
    pub fn window_ticks(&self) -> (r: u32)
        ensures
            r == self.spec_window_ticks(),
    {
        self.fps_window_ticks
    }

    /// The publisher the scheduler commits into.
    pub fn publisher(&self) -> (r: &P)
        ensures
            *r == self.spec_publisher(),
    {
        &self.publisher
    }

    /// Start every slot not started yet (with the schema and its
    /// configuration), in order; every slot is started afterwards.
    pub fn start_all(&mut self)
        ensures
            self_unchanged_but_slots(*old(self), *final(self)),
            final(self).spec_slots() == old(self).spec_slots().map_values(|s: SlotView| (SlotView { started: true, ..s })),
            final(self).spec_calls() == old(self).spec_calls() + start_calls(old(self).spec_slots(), old(self).spec_slots().len() as int),
    {
        let ghost v0 = self.spec_slots();
        let mut i: usize = 0;
        while i < self.slots.len()
            invariant
                i <= self.slots@.len(),
                self.slots@.len() == v0.len(),
                self_unchanged_but_slots(*old(self), *self),
                forall|k: int| 0 <= k < i ==> #[trigger] self.spec_slots()[k] == (SlotView { started: true, ..v0[k] }),
                forall|k: int| i <= k < v0.len() ==> #[trigger] self.spec_slots()[k] == v0[k],
                v0 == old(self).spec_slots(),
                self.spec_calls() == old(self).spec_calls() + start_calls(v0, i as int),
            decreases self.slots@.len() - i,
        {
            assert(self.spec_slots()[i as int] == v0[i as int]);
            if !self.slots[i].state.started {
                let ghost before = self.slots@;
                let mut slot = self.slots.remove(i);
                {
                    let mut ctx = BehaviorStartCtx::new(&*self.schema, &slot.state.values);
                    slot.node.start(&mut ctx);
                }
                proof { self.calls@ = self.calls@.push(SchedulerCall::Start(i)); }
                slot.state.started = true;
                self.slots.insert(i, slot);
                assert(self.spec_slots() =~= slot_states(before).update(i as int, (SlotView { started: true, ..v0[i as int] })));
            }
            i = i + 1;
        }
        assert(self.spec_slots() =~= v0.map_values(|s: SlotView| (SlotView { started: true, ..s })));
    }

    /// Stop every started slot, in order; no slot is started afterwards.
    pub fn stop_all(&mut self)
        ensures
            self_unchanged_but_slots(*old(self), *final(self)),
            final(self).spec_slots() == old(self).spec_slots().map_values(|s: SlotView| (SlotView { started: false, ..s })),
            final(self).spec_calls() == old(self).spec_calls() + stop_calls(old(self).spec_slots(), old(self).spec_slots().len() as int),
    {
        let ghost v0 = self.spec_slots();
        let mut i: usize = 0;
        while i < self.slots.len()
            invariant
                i <= self.slots@.len(),
                self.slots@.len() == v0.len(),
                self_unchanged_but_slots(*old(self), *self),
                forall|k: int| 0 <= k < i ==> #[trigger] self.spec_slots()[k] == (SlotView { started: false, ..v0[k] }),
                forall|k: int| i <= k < v0.len() ==> #[trigger] self.spec_slots()[k] == v0[k],
                v0 == old(self).spec_slots(),
                self.spec_calls() == old(self).spec_calls() + stop_calls(v0, i as int),
            decreases self.slots@.len() - i,
        {
            assert(self.spec_slots()[i as int] == v0[i as int]);
            if self.slots[i].state.started {
                let ghost before = self.slots@;
                let mut slot = self.slots.remove(i);
                slot.node.stop();
                proof { self.calls@ = self.calls@.push(SchedulerCall::Stop(i)); }
                slot.state.started = false;
                self.slots.insert(i, slot);
                assert(self.spec_slots() =~= slot_states(before).update(i as int, (SlotView { started: false, ..v0[i as int] })));
            }
            i = i + 1;
        }
        assert(self.spec_slots() =~= v0.map_values(|s: SlotView| (SlotView { started: false, ..s })));
    }
}

fn find_live(slots: &Vec<Slot>, id: &str) -> (r: Option<usize>)
    ensures
        r matches Some(j) ==> j < slots@.len() && first_with_id(slot_states(slots@), id@) == Some(j as int),
        r is None ==> first_with_id(slot_states(slots@), id@) is None,
{
    let ghost v = slot_states(slots@);
    let mut i: usize = 0;
    while i < slots.len()
        invariant
            i <= slots@.len(),
            v == slot_states(slots@),
            forall|k: int| 0 <= k < i ==> v[k].id != id@,
        decreases slots@.len() - i,
    {
        if crate::text::str_eq(slots[i].state.instance_id.as_str(), id) {
            assert(v[i as int].id == id@);
            let ghost j = choose|j: int| 0 <= j < v.len() && v[j].id == id@ && forall|k: int| 0 <= k < j ==> v[k].id != id@;
            assert(j == i) by {
                if j < i {
                    assert(v[j].id != id@);
                } else if j > i {
                    assert(v[i as int].id != id@);
                }
            }
            return Some(i);
        }
        i = i + 1;
    }
    None
}

/// A node held for a possible reuse.
fn held_node(node: Box<dyn BehaviorNode>) -> (r: Option<Box<dyn BehaviorNode>>)
    ensures
        r is Some,
{
    Some(node)
}

fn take_node(nodes: &mut Vec<Option<Box<dyn BehaviorNode>>>, j: usize) -> (r: Option<Box<dyn BehaviorNode>>)
    ensures
        final(nodes)@.len() == old(nodes)@.len(),
        j < old(nodes)@.len() ==> r == old(nodes)@[j as int]
            && final(nodes)@ == old(nodes)@.update(j as int, None),
        j >= old(nodes)@.len() ==> r is None && final(nodes)@ == old(nodes)@,
{
    if j < nodes.len() {
        let n = nodes.remove(j);
        nodes.insert(j, None);
        n
    } else {
        None
    }
}

fn signal_names(specs: &[SignalSpec]) -> (r: Vec<String>)
    ensures
        r@.map_values(|s: String| s@) == specs@.map_values(|s: SignalSpec| s.name@),
{
    let mut out: Vec<String> = Vec::new();
    let mut i: usize = 0;
    while i < specs.len()
        invariant
            i <= specs@.len(),
            out@.len() == i,
            forall|k: int| 0 <= k < i ==> (#[trigger] out@[k])@ == specs@[k].name@,
        decreases specs@.len() - i,
    {
        out.push(specs[i].name.clone());
        i = i + 1;
    }
    assert(out@.map_values(|s: String| s@) =~= specs@.map_values(|s: SignalSpec| s.name@));
    out
}

impl<P: SignalSink> BehaviorScheduler<P> {
    /// One tick: run the enabled slots in order with `frame` and `timing`,
    /// staging what they publish, then commit once; count the tick, record
    /// its update time and whether it ran over budget. Once the
    /// frames-per-second window has lasted a second, the window's tick count
    /// and length in nanoseconds are returned and a new window starts.
    pub fn tick(&mut self, frame: Option<FrameView<'_>>, timing: Timing) -> (r: Option<(u32, u64)>)
        requires
            old(self).spec_published() < u64::MAX,
            old(self).spec_window_ticks() < u32::MAX,
        ensures
            final(self).spec_slots() == old(self).spec_slots(),
            final(self).spec_schema_names() == old(self).spec_schema_names(),
            final(self).spec_published() == old(self).spec_published() + 1,
            match r {
                Some((ticks, _)) => ticks == old(self).spec_window_ticks() + 1 && final(self).spec_window_ticks() == 0,
                None => final(self).spec_window_ticks() == old(self).spec_window_ticks() + 1,
            },
            exists|staged: Seq<Seq<(SignalId, SignalValue)>>| {
                &&& staged.len() == old(self).spec_slots().len()
                &&& final(self).spec_calls() == old(self).spec_calls() + #[trigger] update_calls(
                    old(self).spec_slots(),
                    frame is Some,
                    timing,
                    staged,
                    old(self).spec_slots().len() as int,
                ) + seq![SchedulerCall::Commit]
            },
    {
        let ghost v0 = self.spec_slots();
        let ghost c0 = self.spec_calls();
        let ghost framed = frame is Some;
        let ghost mut all_staged: Seq<Seq<(SignalId, SignalValue)>> = Seq::empty();
        let update_start = instant_now();
        let mut i: usize = 0;
        while i < self.slots.len()
            invariant
                i <= self.slots@.len(),
                self.spec_slots() == v0,
                v0 == old(self).spec_slots(),
                c0 == old(self).spec_calls(),
                framed == (frame is Some),
                all_staged.len() == i,
                self.spec_calls() == c0 + update_calls(v0, framed, timing, all_staged, i as int),
                self.spec_schema_names() == old(self).spec_schema_names(),
                self.spec_published() == old(self).spec_published(),
                self.spec_window_ticks() == old(self).spec_window_ticks(),
            decreases self.slots@.len() - i,
        {
            assert(v0[i as int].enabled == self.slots@[i as int].state.enabled);
            if self.slots[i].state.enabled {
                let ghost before = self.slots@;
                let mut slot = self.slots.remove(i);
                let staged = {
                    let mut ctx = BehaviorCtx::new(frame, &slot.state.values, timing);
                    slot.node.update(&mut ctx);
                    ctx.into_staged()
                };
                self.slots.insert(i, slot);
                assert(self.spec_slots() =~= slot_states(before));
                proof { self.calls@ = self.calls@.push(SchedulerCall::Update { slot: i, framed, timing }); }
                let ghost base = self.calls@;
                let mut k: usize = 0;
                while k < staged.len()
                    invariant
                        k <= staged@.len(),
                        self.spec_slots() == v0,
                        self.calls@ == base + stage_calls(staged@.take(k as int)),
                        self.spec_schema_names() == old(self).spec_schema_names(),
                        self.spec_published() == old(self).spec_published(),
                        self.spec_window_ticks() == old(self).spec_window_ticks(),
                    decreases staged@.len() - k,
                {
                    let (id, value) = staged[k];
                    self.publisher.stage(id, value);
                    proof {
                        self.calls@ = self.calls@.push(SchedulerCall::Stage(id, value));
                        assert(stage_calls(staged@.take(k + 1)) =~= stage_calls(staged@.take(k as int)).push(SchedulerCall::Stage(id, value)));
                    }
                    k = k + 1;
                }
                proof {
                    assert(staged@.take(staged@.len() as int) =~= staged@);
                    let prev = all_staged;
                    all_staged = all_staged.push(staged@);
                    lemma_update_calls_prefix(v0, framed, timing, prev, all_staged, i as int);
                    let u = update_calls(v0, framed, timing, prev, i as int);
                    let tail = seq![SchedulerCall::Update { slot: i, framed, timing }] + stage_calls(staged@);
                    assert(all_staged[i as int] == staged@);
                    assert(update_calls(v0, framed, timing, all_staged, i + 1) == u + tail);
                    assert(self.calls@ =~= c0 + (u + tail));
                }
            } else {
                proof {
                    let prev = all_staged;
                    all_staged = all_staged.push(Seq::empty());
                    lemma_update_calls_prefix(v0, framed, timing, prev, all_staged, i as int);
                    let u = update_calls(v0, framed, timing, prev, i as int);
                    assert(update_calls(v0, framed, timing, all_staged, i + 1) == u + Seq::<SchedulerCall>::empty());
                    assert(self.calls@ =~= c0 + (u + Seq::<SchedulerCall>::empty()));
                }
            }
            i = i + 1;
        }
        let update_time = instant_elapsed(&update_start);
        self.publisher.commit();
        proof { self.calls@ = self.calls@.push(SchedulerCall::Commit); }
        self.published = self.published + 1;
        let budget = duration_from_millis(UPDATE_BUDGET_MS);
        let over_budget = !duration_at_least(&budget, &update_time);
        self.stats.record_tick(update_time, self.published, over_budget);
        self.fps_window_ticks = self.fps_window_ticks + 1;
        let window = instant_elapsed(&self.fps_window_start);
        if duration_at_least(&window, &duration_from_millis(1000)) {
            let sample = (self.fps_window_ticks, nanos_u64(&window));
            self.fps_window_ticks = 0;
            self.fps_window_start = instant_now();
            Some(sample)
        } else {
            None
        }
    }

    fn set_enabled(&mut self, instance_id: &str, enabled: bool)
        ensures
            final(self).spec_calls() == old(self).spec_calls(),
            self_unchanged_but_slots(*old(self), *final(self)),
            final(self).spec_slots() == after_command(old(self).spec_slots(), instance_id@, |s: SlotView| (SlotView { enabled, ..s })),
    {
        if let Some(j) = find_live(&self.slots, instance_id) {
            let ghost before = self.slots@;
            let mut slot = self.slots.remove(j);
            slot.state.enabled = enabled;
            self.slots.insert(j, slot);
            assert(self.spec_slots() =~= slot_states(before).update(j as int, (SlotView { enabled, ..slot_states(before)[j as int] })));
        }
    }

    fn set_param(&mut self, instance_id: &str, key: String, value: ParamValue)
        ensures
            final(self).spec_calls() == old(self).spec_calls(),
            self_unchanged_but_slots(*old(self), *final(self)),
            final(self).spec_slots() == after_command(
                old(self).spec_slots(),
                instance_id@,
                |s: SlotView| (SlotView { values: s.values.insert(key@, value@), ..s }),
            ),
    {
        if let Some(j) = find_live(&self.slots, instance_id) {
            let ghost before = self.slots@;
            let ghost kv = (key@, value@);
            let mut slot = self.slots.remove(j);
            slot.state.values.insert(key, value);
            self.slots.insert(j, slot);
            assert(self.spec_slots() =~= slot_states(before).update(
                j as int,
                (SlotView { values: slot_states(before)[j as int].values.insert(kv.0, kv.1), ..slot_states(before)[j as int] }),
            ));
        }
    }

    /// A structural reload as a minimal diff against the running set (see
    /// [`plan_reload`]): reused instances are kept running with the new
    /// configuration; rebuilt ones are stopped (when an old one matched) and
    /// replaced; instances that left the set are stopped if they had
    /// started. Then the new publisher and schema are taken and every slot
    /// not yet started is started.
    #[verifier::spinoff_prover]
    pub fn reload(&mut self, publisher: P, new_schema: Arc<SignalSchema>, behaviors: Vec<BehaviorInit>)
        ensures
            final(self).spec_slots() == behaviors@.map_values(|i: BehaviorInit| (SlotView {
                id: i.instance_id@,
                values: i.values.spec_map(),
                enabled: i.enabled,
                started: true,
            })),
            final(self).spec_schema_names() == new_schema.names(),
            final(self).spec_publisher() == publisher,
            final(self).spec_published() == old(self).spec_published(),
            final(self).spec_window_ticks() == old(self).spec_window_ticks(),
            exists|metas: Seq<InitMeta>| #![trigger plan_prefix(old(self).spec_metas(), metas, metas.len() as int, old(self).spec_schema_names(), new_schema.names())] {
                &&& metas.len() == behaviors@.len()
                &&& forall|k: int| 0 <= k < metas.len() ==> #[trigger] meta_matches(metas[k], behaviors@[k])
                &&& ({
                    let (taken, plans) = plan_prefix(
                        old(self).spec_metas(),
                        metas,
                        metas.len() as int,
                        old(self).spec_schema_names(),
                        new_schema.names(),
                    );
                    final(self).spec_calls() == old(self).spec_calls()
                        + reload_calls(plans, leftovers(old(self).spec_metas(), taken, old(self).spec_metas().len() as int))
                })
            },
    {
        let old_schema = self.schema.clone();
        let mut old_slots: Vec<Slot> = Vec::new();
        std::mem::swap(&mut old_slots, &mut self.slots);
        let ghost s0 = old_slots@;
        let ghost c0 = self.calls@;
        let mut old_states: Vec<SlotState> = Vec::new();
        let mut old_nodes: Vec<Option<Box<dyn BehaviorNode>>> = Vec::new();
        while old_slots.len() > 0
            invariant
                old_states@.len() + old_slots@.len() == s0.len(),
                old_slots@ == s0.subrange(old_states@.len() as int, s0.len() as int),
                old_nodes@.len() == old_states@.len(),
                forall|k: int| 0 <= k < old_states@.len() ==> #[trigger] old_states@[k] == s0[k].state,
                forall|k: int| 0 <= k < old_nodes@.len() ==> (#[trigger] old_nodes@[k]) is Some,
            decreases old_slots@.len(),
        {
            let slot = old_slots.remove(0);
            old_states.push(slot.state);
            let held = held_node(slot.node);
            old_nodes.push(held);
        }
        assert(old_states@ =~= s0.map_values(|s: Slot| s.state));
        assert(metas_of(old_states@) == old(self).spec_metas());
        let ghost all = behaviors@;
        let mut behaviors = behaviors;
        let mut incoming: Vec<IncomingSlot> = Vec::new();
        let mut fresh: Vec<FreshNode> = Vec::new();
        while behaviors.len() > 0
            invariant
                incoming@.len() == fresh@.len(),
                incoming@.len() + behaviors@.len() == all.len(),
                behaviors@ == all.subrange(incoming@.len() as int, all.len() as int),
                forall|k: int| 0 <= k < incoming@.len() ==> {
                    &&& (#[trigger] incoming@[k]).meta.instance_id@ == all[k].instance_id@
                    &&& incoming@[k].values.spec_map() == all[k].values.spec_map()
                    &&& incoming@[k].enabled == all[k].enabled
                    &&& meta_matches(incoming@[k].meta, all[k])
                },
            decreases behaviors@.len(),
        {
            let ghost b0 = behaviors@[0];
            let BehaviorInit { instance_id, node, publish, specs, values, enabled } = behaviors.remove(0);
            let names = signal_names(publish.as_slice());
            incoming.push(IncomingSlot { meta: InitMeta { instance_id, publish: names }, values, enabled });
            fresh.push(FreshNode::new(node, specs));
            assert(b0 == all[incoming@.len() - 1]);
        }
        let ghost inc = incoming@;
        let ghost metas = inc.map_values(|x: IncomingSlot| x.meta);
        let ghost old_metas = metas_of(old_states@);
        let old_count = old_states.len();
        let ghost old_len = old_count as int;
        let (plan, next_states) = reload_slots(old_states.as_slice(), incoming, &*old_schema, &*new_schema);
        let ghost plans = plan.slots@;
        let ghost taken = plan_prefix(old_metas, metas, metas.len() as int, old_schema.names(), new_schema.names()).0;
        proof {
            lemma_plan_targets(old_metas, metas, metas.len() as int, old_schema.names(), new_schema.names());
            lemma_leftovers(old_metas, taken, old_len);
            lemma_leftovers_increasing(old_metas, taken, old_len);
        }
        let n = next_states.len();
        let mut next_states = next_states;
        let mut next: Vec<Slot> = Vec::new();
        let mut i: usize = 0;
        while i < n
            invariant
                n == inc.len(),
                plans == plan.slots@,
                plan.slots@.len() == inc.len(),
                metas.len() == inc.len(),
                old_nodes@.len() == old_len,
                old_metas.len() == old_len,
                old_len <= usize::MAX,
                i + next_states@.len() == n,
                i + fresh@.len() == n,
                next@.len() == i,
                forall|k: int| 0 <= k < next_states@.len() ==> #[trigger] slot_view(next_states@[k]) == (SlotView {
                    id: inc[i + k].meta.instance_id@,
                    values: inc[i + k].values.spec_map(),
                    enabled: inc[i + k].enabled,
                    started: plan.slots@[i + k] is Reuse,
                }),
                forall|k: int| 0 <= k < i ==> #[trigger] slot_view(next@[k].state) == (SlotView {
                    id: inc[k].meta.instance_id@,
                    values: inc[k].values.spec_map(),
                    enabled: inc[k].enabled,
                    started: plan.slots@[k] is Reuse,
                }),
                forall|k: int| #![trigger plans[k]] 0 <= k < n ==> (plan_target(plans[k]) matches Some(j) ==> j < old_len),
                forall|a: int, b: int| #![trigger plans[a], plans[b]] 0 <= a < n && 0 <= b < n && a != b
                    && plan_target(plans[a]) is Some ==> plan_target(plans[a]) != plan_target(plans[b]),
                forall|j: int| 0 <= j < old_len ==> ((#[trigger] old_nodes@[j]) is Some
                    <==> !(exists|k: int| 0 <= k < i && #[trigger] plan_target(plans[k]) == Some(j as usize))),
                self.calls@ == c0 + rebuild_stop_calls(plans, i as int),
                self.spec_published() == old(self).spec_published(),
                self.spec_window_ticks() == old(self).spec_window_ticks(),
            decreases n - i,
        {
            let ghost ns0 = next_states@;
            let state = next_states.remove(0);
            assert(slot_view(state) == slot_view(ns0[0]));
            assert forall|k: int| 0 <= k < next_states@.len() implies #[trigger] slot_view(next_states@[k]) == (SlotView {
                id: inc[i + 1 + k].meta.instance_id@,
                values: inc[i + 1 + k].values.spec_map(),
                enabled: inc[i + 1 + k].enabled,
                started: plan.slots@[i + 1 + k] is Reuse,
            }) by {
                assert(next_states@[k] == ns0[k + 1]);
            }
            let ghost nodes0 = old_nodes@;
            proof {
                if let Some(j) = plan_target(plans[i as int]) {
                    assert(j < old_len);
                    if !(nodes0[j as int] is Some) {
                        let k = choose|k: int| 0 <= k < i && #[trigger] plan_target(plans[k]) == Some(j);
                        assert(plans[k] == plans[k]);
                        assert(false);
                    }
                }
            }
            let FreshNode { node: fresh_node, specs } = fresh.remove(0);
            let node = match plan.slots[i] {
                SlotPlan::Reuse(j) => match take_node(&mut old_nodes, j) {
                    Some(kept) => kept,
                    None => fresh_node,
                },
                SlotPlan::Rebuild { stop_old } => {
                    if let Some(j) = stop_old {
                        if let Some(mut stale) = take_node(&mut old_nodes, j) {
                            stale.stop();
                            proof { self.calls@ = self.calls@.push(SchedulerCall::Stop(j)); }
                        }
                    }
                    fresh_node
                },
            };
            proof {
                assert forall|j: int| 0 <= j < old_len implies ((#[trigger] old_nodes@[j]) is Some
                    <==> !(exists|k: int| 0 <= k < i + 1 && #[trigger] plan_target(plans[k]) == Some(j as usize))) by {
                    if plan_target(plans[i as int]) == Some(j as usize) {
                        assert(!(old_nodes@[j] is Some));
                    } else {
                        assert(old_nodes@[j] == nodes0[j]);
                        if exists|k: int| 0 <= k < i + 1 && #[trigger] plan_target(plans[k]) == Some(j as usize) {
                            let k = choose|k: int| 0 <= k < i + 1 && #[trigger] plan_target(plans[k]) == Some(j as usize);
                            assert(k < i);
                        }
                    }
                }
                assert(self.calls@ =~= c0 + rebuild_stop_calls(plans, i + 1));
            }
            let slot = Slot::assemble(state, node, specs);
            next.push(slot);
            i = i + 1;
        }
        let ghost gone = plan.stop_leftover@;
        let ghost mid_calls = self.calls@;
        let mut m: usize = 0;
        while m < plan.stop_leftover.len()
            invariant
                gone == plan.stop_leftover@,
                gone == leftovers(old_metas, taken, old_len),
                old_nodes@.len() == old_len,
                forall|a: int| 0 <= a < gone.len() ==> #[trigger] gone[a] < old_len,
                forall|a: int, b: int| 0 <= a < b < gone.len() ==> #[trigger] gone[a] < #[trigger] gone[b],
                forall|a: int| m <= a < gone.len() ==> (#[trigger] old_nodes@[gone[a] as int]) is Some,
                m <= gone.len(),
                self.calls@ == mid_calls + leftover_stop_calls(gone.take(m as int)),
                self.spec_published() == old(self).spec_published(),
                self.spec_window_ticks() == old(self).spec_window_ticks(),
            decreases plan.stop_leftover@.len() - m,
        {
            let ghost nodes0 = old_nodes@;
            let j = plan.stop_leftover[m];
            if let Some(mut gone_node) = take_node(&mut old_nodes, j) {
                gone_node.stop();
                proof { self.calls@ = self.calls@.push(SchedulerCall::Stop(j)); }
            }
            proof {
                assert forall|a: int| m + 1 <= a < gone.len() implies (#[trigger] old_nodes@[gone[a] as int]) is Some by {
                    assert(gone[m as int] < gone[a]);
                    assert(old_nodes@[gone[a] as int] == nodes0[gone[a] as int]);
                }
                assert(leftover_stop_calls(gone.take(m + 1)) =~= leftover_stop_calls(gone.take(m as int)).push(SchedulerCall::Stop(j)));
            }
            m = m + 1;
        }
        proof {
            assert(gone.take(gone.len() as int) =~= gone);
        }
        self.publisher = publisher;
        self.schema = new_schema;
        self.slots = next;
        let ghost mid = self.spec_slots();
        assert forall|k: int| 0 <= k < all.len() implies #[trigger] mid[k] == (SlotView {
            id: all[k].instance_id@,
            values: all[k].values.spec_map(),
            enabled: all[k].enabled,
            started: plan.slots@[k] is Reuse,
        }) by {
            assert(slot_view(self.slots@[k].state) == mid[k]);
        }
        self.start_all();
        proof {
            lemma_rebuilt_starts(mid, plans, n as int);
            assert forall|k: int| 0 <= k < metas.len() implies #[trigger] meta_matches(metas[k], all[k]) by {
                assert(metas[k] == inc[k].meta);
            }
        }
        assert(self.spec_slots() =~= all.map_values(|b: BehaviorInit| (SlotView {
            id: b.instance_id@,
            values: b.values.spec_map(),
            enabled: b.enabled,
            started: true,
        })));
        proof {
            assert(old_schema.names() == old(self).spec_schema_names());
            assert(c0 == old(self).spec_calls());
            assert(plans == plan_prefix(old_metas, metas, metas.len() as int, old_schema.names(), new_schema.names()).1);
            assert(self.calls@ =~= c0 + reload_calls(plans, gone));
            assert(metas.len() == all.len());
        }
    }
}

impl<P: SignalSink> BehaviorScheduler<P> {
    /// Apply one command between ticks: a reload, a hot parameter update,
    /// enabling or disabling the first slot with an instance id. Shutdown is
    /// the caller's (it ends the run loop) and changes nothing here.
    pub fn apply(&mut self, cmd: BehaviorCommand<P>)
        ensures
            match cmd {
                BehaviorCommand::Reload { publisher, schema, behaviors } => {
                    &&& final(self).spec_slots() == behaviors@.map_values(|i: BehaviorInit| (SlotView {
                        id: i.instance_id@,
                        values: i.values.spec_map(),
                        enabled: i.enabled,
                        started: true,
                    }))
                    &&& final(self).spec_schema_names() == schema.names()
                    &&& final(self).spec_publisher() == publisher
                    &&& final(self).spec_published() == old(self).spec_published()
                    &&& final(self).spec_window_ticks() == old(self).spec_window_ticks()
                    &&& exists|metas: Seq<InitMeta>| #![trigger plan_prefix(old(self).spec_metas(), metas, metas.len() as int, old(self).spec_schema_names(), schema.names())] {
                        &&& metas.len() == behaviors@.len()
                        &&& forall|k: int| 0 <= k < metas.len() ==> #[trigger] meta_matches(metas[k], behaviors@[k])
                        &&& ({
                            let (taken, plans) = plan_prefix(
                                old(self).spec_metas(),
                                metas,
                                metas.len() as int,
                                old(self).spec_schema_names(),
                                schema.names(),
                            );
                            final(self).spec_calls() == old(self).spec_calls()
                                + reload_calls(plans, leftovers(old(self).spec_metas(), taken, old(self).spec_metas().len() as int))
                        })
                    }
                },
                BehaviorCommand::SetParam { instance_id, key, value } => {
                    &&& final(self).spec_calls() == old(self).spec_calls()
                    &&& self_unchanged_but_slots(*old(self), *final(self))
                    &&& final(self).spec_slots() == after_command(
                        old(self).spec_slots(),
                        instance_id@,
                        |s: SlotView| (SlotView { values: s.values.insert(key@, value@), ..s }),
                    )
                },
                BehaviorCommand::Enable(id) => {
                    &&& final(self).spec_calls() == old(self).spec_calls()
                    &&& self_unchanged_but_slots(*old(self), *final(self))
                    &&& final(self).spec_slots() == after_command(old(self).spec_slots(), id@, |s: SlotView| (SlotView { enabled: true, ..s }))
                },
                BehaviorCommand::Disable(id) => {
                    &&& final(self).spec_calls() == old(self).spec_calls()
                    &&& self_unchanged_but_slots(*old(self), *final(self))
                    &&& final(self).spec_slots() == after_command(old(self).spec_slots(), id@, |s: SlotView| (SlotView { enabled: false, ..s }))
                },
                BehaviorCommand::Shutdown => {
                    &&& final(self).spec_calls() == old(self).spec_calls()
                    &&& self_unchanged_but_slots(*old(self), *final(self))
                    &&& final(self).spec_slots() == old(self).spec_slots()
                },
            },
    {
        match cmd {
            BehaviorCommand::Reload { publisher, schema, behaviors } => self.reload(publisher, schema, behaviors),
            BehaviorCommand::SetParam { instance_id, key, value } => self.set_param(instance_id.as_str(), key, value),
            BehaviorCommand::Enable(id) => self.set_enabled(id.as_str(), true),
            BehaviorCommand::Disable(id) => self.set_enabled(id.as_str(), false),
            BehaviorCommand::Shutdown => {},
        }
    }
}

/// Everything but the slots is as it was.
pub open spec fn self_unchanged_but_slots<P: SignalSink>(a: BehaviorScheduler<P>, b: BehaviorScheduler<P>) -> bool {
    &&& a.spec_schema_names() == b.spec_schema_names()
    &&& a.spec_published() == b.spec_published()
    &&& a.spec_window_ticks() == b.spec_window_ticks()
    &&& a.spec_publisher() == b.spec_publisher()
}

} // verus!
