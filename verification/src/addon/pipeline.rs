//! One entry of a pipeline configuration (an instance of an addon with its
//! configuration values and whether it is enabled), and the questions the
//! engine asks of a pipeline before uninstalling an addon.

use crate::addon::schema::ParamMap;
use vstd::prelude::*;

verus! {

/// A configured addon instance.
#[derive(Clone)]
pub struct NodeConfig {
    pub instance_id: String,
    /// The addon id the instance runs.
    pub addon: String,
    pub enabled: bool,
    pub config: ParamMap,
}

/// Whether any node of `pipeline` runs `addon_id`.
pub fn addon_in_use(pipeline: &[NodeConfig], addon_id: &str) -> (r: bool)
    ensures
        r == exists|k: int| 0 <= k < pipeline@.len() && #[trigger] pipeline@[k].addon@ == addon_id@,
{
    let mut i: usize = 0;
    while i < pipeline.len()
        invariant
            i <= pipeline@.len(),
            forall|k: int| 0 <= k < i ==> #[trigger] pipeline@[k].addon@ != addon_id@,
        decreases pipeline@.len() - i,
    {
        if crate::text::str_eq(pipeline[i].addon.as_str(), addon_id) {
            return true;
        }
        i = i + 1;
    }
    false
}

/// The nodes of `pipeline` that do not run `addon_id`, in order.
pub open spec fn without_addon(pipeline: Seq<NodeConfig>, addon_id: Seq<char>) -> Seq<NodeConfig>
    decreases pipeline.len(),
{
    if pipeline.len() == 0 {
        Seq::empty()
    } else {
        let before = without_addon(pipeline.drop_last(), addon_id);
        if pipeline.last().addon@ == addon_id { before } else { before.push(pipeline.last()) }
    }
}

/// Drop every node that runs `addon_id`, keeping the others in order (so
/// uninstalling an addon never leaves a node that references it).
pub fn remove_addon_nodes(pipeline: &mut Vec<NodeConfig>, addon_id: &str)
    ensures
        final(pipeline)@ == without_addon(old(pipeline)@, addon_id@),
{
    let ghost all = pipeline@;
    let mut rest: Vec<NodeConfig> = Vec::new();
    std::mem::swap(&mut rest, pipeline);
    let mut i: usize = 0;
    let n = rest.len();
    while rest.len() > 0
        invariant
            i + rest@.len() == n,
            n == all.len(),
            rest@ == all.subrange(i as int, n as int),
            pipeline@ == without_addon(all.subrange(0, i as int), addon_id@),
        decreases rest@.len(),
    {
        let node = rest.remove(0);
        assert(all.subrange(0, i + 1).drop_last() =~= all.subrange(0, i as int));
        assert(node == all[i as int]);
        if !crate::text::str_eq(node.addon.as_str(), addon_id) {
            pipeline.push(node);
        }
        i = i + 1;
        assert(rest@ =~= all.subrange(i as int, n as int));
    }
    assert(all.subrange(0, n as int) =~= all);
}

/// After an addon's nodes are dropped, no node runs it, and every node that
/// did not run it is still there.
pub proof fn lemma_without_addon_unused(pipeline: Seq<NodeConfig>, addon_id: Seq<char>)
    ensures
        forall|k: int| 0 <= k < without_addon(pipeline, addon_id).len() ==> #[trigger] without_addon(pipeline, addon_id)[k].addon@ != addon_id,
        forall|k: int| 0 <= k < pipeline.len() && pipeline[k].addon@ != addon_id ==> without_addon(pipeline, addon_id).contains(#[trigger] pipeline[k]),
    decreases pipeline.len(),
{
    if pipeline.len() > 0 {
        let p = pipeline.drop_last();
        lemma_without_addon_unused(p, addon_id);
        let w = without_addon(pipeline, addon_id);
        let wp = without_addon(p, addon_id);
        assert forall|k: int| 0 <= k < pipeline.len() && pipeline[k].addon@ != addon_id implies w.contains(#[trigger] pipeline[k]) by {
            if k < pipeline.len() - 1 {
                assert(p[k] == pipeline[k]);
                let j = choose|j: int| 0 <= j < wp.len() && wp[j] == p[k];
                assert(w[j] == wp[j]);
            } else {
                assert(w[w.len() - 1] == pipeline[k]);
            }
        }
    }
}

} // verus!
