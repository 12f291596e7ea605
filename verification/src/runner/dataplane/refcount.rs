//! The reference counting of host resources over a history of requests and
//! releases.

use super::resource::{owner_of, release_step, request_step, resource_model_ok, ResourceModel};
use vstd::prelude::*;

verus! {

/// `n` requests of `id`, one after another.
pub open spec fn request_times(m: ResourceModel, id: Seq<char>, n: nat) -> ResourceModel
    decreases n,
{
    if n == 0 { m } else { request_step(request_times(m, id, (n - 1) as nat), id).0 }
}

/// `n` releases of handle `h`, one after another.
pub open spec fn release_times(m: ResourceModel, h: u32, n: nat) -> ResourceModel
    decreases n,
{
    if n == 0 { m } else { release_step(release_times(m, h, (n - 1) as nat), h) }
}

proof fn lemma_request_times(m: ResourceModel, id: Seq<char>, i: nat)
    requires
        !m.live.contains_key(id),
        m.next < u32::MAX,
        1 <= i < u32::MAX,
    ensures
        request_times(m, id, i).live == m.live.insert(id, (m.next, i as u32)),
        request_times(m, id, i).next == m.next + 1,
    decreases i,
{
    if i > 1 {
        lemma_request_times(m, id, (i - 1) as nat);
        assert(m.live.insert(id, (m.next, (i - 1) as u32)).insert(id, (m.next, i as u32)) =~= m.live.insert(id, (m.next, i as u32)));
    } else {
        assert(request_times(m, id, 0) == m);
    }
}

proof fn lemma_release_times(m: ResourceModel, id: Seq<char>, n: nat, j: nat)
    requires
        resource_model_ok(m),
        !m.live.contains_key(id),
        m.next < u32::MAX,
        1 <= n < u32::MAX,
        j <= n,
    ensures
        j < n ==> release_times(request_times(m, id, n), m.next, j).live == m.live.insert(id, (m.next, (n - j) as u32)),
        j == n ==> release_times(request_times(m, id, n), m.next, j).live == m.live,
    decreases j,
{
    let h = m.next;
    lemma_request_times(m, id, n);
    if j > 0 {
        lemma_release_times(m, id, n, (j - 1) as nat);
        let c = (n - (j - 1)) as u32;
        let before = release_times(request_times(m, id, n), h, (j - 1) as nat);
        assert(before.live == m.live.insert(id, (h, c)));
        assert forall|k: Seq<char>| before.live.contains_key(k) && before.live[k].0 == h implies k == id by {
            if k != id {
                assert(m.live.contains_key(k));
            }
        }
        assert(before.live.contains_key(id) && before.live[id].0 == h);
        assert(owner_of(before.live, h) == Some(id));
        if j == n {
            assert(before.live.remove(id) =~= m.live);
        } else {
            assert(m.live.insert(id, (h, c)).insert(id, (h, (c - 1) as u32)) =~= m.live.insert(id, (h, (n - j) as u32)));
        }
    }
}

/// References balance over a history: after `n` requests of an id not yet
/// live, it is live under one fresh handle with `n` references; after `j`
/// releases of that handle it keeps `n - j` while any remain, and after the
/// `n`-th release it is gone and every other entry is as it was.
pub proof fn lemma_references_balance(m: ResourceModel, id: Seq<char>, n: nat, j: nat)
    requires
        resource_model_ok(m),
        !m.live.contains_key(id),
        m.next < u32::MAX,
        1 <= n < u32::MAX,
        j <= n,
    ensures
        request_times(m, id, n).live[id] == (m.next, n as u32),
        j < n ==> release_times(request_times(m, id, n), m.next, j).live[id] == (m.next, (n - j) as u32),
        release_times(request_times(m, id, n), m.next, n).live == m.live,
{
    lemma_request_times(m, id, n);
    lemma_release_times(m, id, n, j);
    lemma_release_times(m, id, n, n);
}

} // verus!
