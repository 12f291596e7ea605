//! [`ResourceBridge`] — opaque, refcounted resource handles shared by id.
//!
//! * the addon only ever holds an opaque [`ResourceHandle`];
//! * the same id returns the same handle while live (refcounted);
//! * `release` is idempotent: an unknown or already-freed handle is a no-op;
//! * a reload bumps the epoch and invalidates every handle.

use crate::runner::host::ResourceHandle;
use vstd::prelude::*;

verus! {

/// The abstract state of a resource bridge: the next handle number, the
/// reload epoch, and for each live id its handle number and refcount.
pub struct ResourceModel {
    pub next: u32,
    pub epoch: u32,
    pub live: Map<Seq<char>, (u32, u32)>,
}

/// No two live ids share a handle.
pub open spec fn handles_distinct(live: Map<Seq<char>, (u32, u32)>) -> bool {
    forall|a: Seq<char>, b: Seq<char>|
        #![trigger live[a], live[b]]
        live.contains_key(a) && live.contains_key(b) && a != b ==> live[a].0 != live[b].0
}

/// The well-formed models: handles are distinct, issued (non-zero and below
/// `next`), and every live entry holds at least one reference.
pub open spec fn resource_model_ok(m: ResourceModel) -> bool {
    &&& handles_distinct(m.live)
    &&& forall|k: Seq<char>| #[trigger] m.live.contains_key(k) ==> 1 <= m.live[k].0 < m.next && m.live[k].1 >= 1
}

/// The live id that owns handle number `h`, if any.
pub open spec fn owner_of(live: Map<Seq<char>, (u32, u32)>, h: u32) -> Option<Seq<char>> {
    if exists|k: Seq<char>| live.contains_key(k) && live[k].0 == h {
        Some(choose|k: Seq<char>| live.contains_key(k) && live[k].0 == h)
    } else {
        None
    }
}

/// Whether a request for `id` stays within the 32-bit counters.
pub open spec fn request_fits(m: ResourceModel, id: Seq<char>) -> bool {
    if m.live.contains_key(id) { m.live[id].1 < u32::MAX } else { m.next < u32::MAX }
}

/// One `request(id)`: the next state and the handle number handed out.
pub open spec fn request_step(m: ResourceModel, id: Seq<char>) -> (ResourceModel, u32) {
    if m.live.contains_key(id) {
        let (h, rc) = m.live[id];
        (ResourceModel { live: m.live.insert(id, (h, (rc + 1) as u32)), ..m }, h)
    } else {
        (ResourceModel { next: (m.next + 1) as u32, live: m.live.insert(id, (m.next, 1)), ..m }, m.next)
    }
}

/// One `release(handle)`: drop one reference of the owning id, freeing the
/// entry at zero; a handle nobody owns changes nothing.
pub open spec fn release_step(m: ResourceModel, h: u32) -> ResourceModel {
    match owner_of(m.live, h) {
        Some(k) => if m.live[k].1 <= 1 {
            ResourceModel { live: m.live.remove(k), ..m }
        } else {
            ResourceModel { live: m.live.insert(k, (h, (m.live[k].1 - 1) as u32)), ..m }
        },
        None => m,
    }
}

/// The entries as a map from id to (handle, refcount).
pub open spec fn entries_map(s: Seq<(Seq<char>, u32, u32)>) -> Map<Seq<char>, (u32, u32)>
    decreases s.len(),
{
    if s.len() == 0 {
        Map::empty()
    } else {
        entries_map(s.drop_last()).insert(s.last().0, (s.last().1, s.last().2))
    }
}

pub open spec fn ids_unique(s: Seq<(Seq<char>, u32, u32)>) -> bool {
    forall|i: int, j: int| 0 <= i < s.len() && 0 <= j < s.len() && i != j ==> #[trigger] s[i].0 != #[trigger] s[j].0
}

proof fn lemma_map_has_entry(s: Seq<(Seq<char>, u32, u32)>, i: int)
    requires
        ids_unique(s),
        0 <= i < s.len(),
    ensures
        entries_map(s).contains_key(s[i].0),
        entries_map(s)[s[i].0] == (s[i].1, s[i].2),
    decreases s.len(),
{
    if i < s.len() - 1 {
        let p = s.drop_last();
        assert(ids_unique(p)) by {
            assert forall|a: int, b: int| 0 <= a < p.len() && 0 <= b < p.len() && a != b implies p[a].0 != p[b].0 by {
                assert(p[a] == s[a] && p[b] == s[b]);
            }
        }
        lemma_map_has_entry(p, i);
        assert(p[i] == s[i]);
        assert(s.last().0 != s[i].0) by {
            assert(s[s.len() - 1].0 != s[i].0);
        }
    }
}

proof fn lemma_map_keys(s: Seq<(Seq<char>, u32, u32)>, k: Seq<char>)
    ensures
        entries_map(s).contains_key(k) <==> exists|i: int| 0 <= i < s.len() && s[i].0 == k,
    decreases s.len(),
{
    if s.len() > 0 {
        let p = s.drop_last();
        lemma_map_keys(p, k);
        if entries_map(s).contains_key(k) {
            if k == s.last().0 {
                assert(s[s.len() - 1].0 == k);
            } else {
                let i = choose|i: int| 0 <= i < p.len() && p[i].0 == k;
                assert(s[i] == p[i]);
            }
        }
        if exists|i: int| 0 <= i < s.len() && s[i].0 == k {
            let i = choose|i: int| 0 <= i < s.len() && s[i].0 == k;
            if i < s.len() - 1 {
                assert(p[i] == s[i]);
            }
        }
    }
}

proof fn lemma_map_update(s: Seq<(Seq<char>, u32, u32)>, i: int, h: u32, rc: u32)
    requires
        ids_unique(s),
        0 <= i < s.len(),
    ensures
        entries_map(s.update(i, (s[i].0, h, rc))) == entries_map(s).insert(s[i].0, (h, rc)),
    decreases s.len(),
{
    let t = s.update(i, (s[i].0, h, rc));
    let p = s.drop_last();
    if i == s.len() - 1 {
        assert(t.drop_last() =~= p);
        assert(entries_map(t) =~= entries_map(s).insert(s[i].0, (h, rc)));
    } else {
        assert(ids_unique(p)) by {
            assert forall|a: int, b: int| 0 <= a < p.len() && 0 <= b < p.len() && a != b implies p[a].0 != p[b].0 by {
                assert(p[a] == s[a] && p[b] == s[b]);
            }
        }
        lemma_map_update(p, i, h, rc);
        assert(t.drop_last() =~= p.update(i, (p[i].0, h, rc)));
        assert(s[s.len() - 1].0 != s[i].0);
        assert(entries_map(t) =~= entries_map(s).insert(s[i].0, (h, rc)));
    }
}

proof fn lemma_map_remove(s: Seq<(Seq<char>, u32, u32)>, i: int)
    requires
        ids_unique(s),
        0 <= i < s.len(),
    ensures
        entries_map(s.remove(i)) == entries_map(s).remove(s[i].0),
    decreases s.len(),
{
    let p = s.drop_last();
    assert(ids_unique(p)) by {
        assert forall|a: int, b: int| 0 <= a < p.len() && 0 <= b < p.len() && a != b implies p[a].0 != p[b].0 by {
            assert(p[a] == s[a] && p[b] == s[b]);
        }
    }
    if i == s.len() - 1 {
        assert(s.remove(i) =~= p);
        lemma_map_keys(p, s[i].0);
        if entries_map(p).contains_key(s[i].0) {
            let j = choose|j: int| 0 <= j < p.len() && p[j].0 == s[i].0;
            assert(p[j] == s[j]);
        }
        assert(entries_map(p) =~= entries_map(s).remove(s[i].0));
    } else {
        lemma_map_remove(p, i);
        assert(s.remove(i).drop_last() =~= p.remove(i));
        assert(s.remove(i).last() == s.last());
        assert(s[s.len() - 1].0 != s[i].0);
        assert(entries_map(s.remove(i)) =~= entries_map(s).remove(s[i].0));
    }
}

struct ResourceEntry {
    id: String,
    handle: ResourceHandle,
    rc: u32,
}

pub struct ResourceBridge {
    next: u32,
    epoch: u32,
    entries: Vec<ResourceEntry>,
}

spec fn rows_of(e: Seq<ResourceEntry>) -> Seq<(Seq<char>, u32, u32)> {
    e.map_values(|e: ResourceEntry| (e.id@, e.handle.0, e.rc))
}

/// Ids and handles are unique among the rows, every handle was issued before
/// `next`, every row is referenced.
spec fn rows_ok(next: u32, s: Seq<(Seq<char>, u32, u32)>) -> bool {
    &&& next >= 1
    &&& ids_unique(s)
    &&& forall|i: int, j: int| 0 <= i < s.len() && 0 <= j < s.len() && i != j ==> #[trigger] s[i].1 != #[trigger] s[j].1
    &&& forall|i: int| 0 <= i < s.len() ==> 1 <= #[trigger] s[i].1 < next && s[i].2 >= 1
}

impl ResourceBridge {
    closed spec fn rows(&self) -> Seq<(Seq<char>, u32, u32)> {
        rows_of(self.entries@)
    }

    /// The bridge's state invariant.
    #[verifier::type_invariant]
    closed spec fn inv(&self) -> bool {
        rows_ok(self.next, self.rows())
    }

    pub closed spec fn view(&self) -> ResourceModel {
        ResourceModel { next: self.next, epoch: self.epoch, live: entries_map(self.rows()) }
    }

    /// A bridge that keeps its invariant has a well-formed model.
    proof fn lemma_model_ok(&self)
        requires
            self.inv(),
        ensures
            resource_model_ok(self.view()),
    {
        let s = self.rows();
        let live = entries_map(s);
        assert forall|a: Seq<char>, b: Seq<char>|
            #![trigger live[a], live[b]]
            live.contains_key(a) && live.contains_key(b) && a != b implies live[a].0 != live[b].0 by {
            lemma_map_keys(s, a);
            lemma_map_keys(s, b);
            let i = choose|i: int| 0 <= i < s.len() && s[i].0 == a;
            let j = choose|j: int| 0 <= j < s.len() && s[j].0 == b;
            lemma_map_has_entry(s, i);
            lemma_map_has_entry(s, j);
        }
        assert forall|k: Seq<char>| #[trigger] live.contains_key(k) implies 1 <= live[k].0 < self.next
            && live[k].1 >= 1 by {
            lemma_map_keys(s, k);
            let i = choose|i: int| 0 <= i < s.len() && s[i].0 == k;
            lemma_map_has_entry(s, i);
        }
    }

    /// Every bridge's model is well formed: live ids hold distinct handles,
    /// each referenced at least once and issued below `next`, which is at
    /// least 1. So a fresh handle (the current `next`) is non-zero and was
    /// never issued before, in this epoch or an earlier one (`next` only
    /// grows). This does no work at run time; it hands the bridge's
    /// invariant to the caller's proof.
    pub fn view_is_well_formed(&self)
        ensures
            resource_model_ok(self.view()),
            self.view().next >= 1,
    {
        proof {
            use_type_invariant(self);
            self.lemma_model_ok();
        }
    }

    pub fn new() -> (r: Self)
        ensures
            r.view() == (ResourceModel { next: 1, epoch: 0, live: Map::empty() }),
    {
        let r = ResourceBridge { next: 1, epoch: 0, entries: Vec::new() };
        assert(r.rows() =~= Seq::<(Seq<char>, u32, u32)>::empty());
        r
    }

    fn find_id(&self, id: &str) -> (r: Option<usize>)
        ensures
            r matches Some(i) ==> i < self.rows().len() && self.rows()[i as int].0 == id@,
            r is None ==> forall|i: int| 0 <= i < self.rows().len() ==> self.rows()[i].0 != id@,
    {
        let mut i: usize = 0;
        while i < self.entries.len()
            invariant
                i <= self.entries@.len(),
                forall|k: int| 0 <= k < i ==> self.rows()[k].0 != id@,
            decreases self.entries@.len() - i,
        {
            if crate::text::str_eq(self.entries[i].id.as_str(), id) {
                return Some(i);
            }
            i = i + 1;
        }
        None
    }

    fn find_handle(&self, h: u32) -> (r: Option<usize>)
        ensures
            r matches Some(i) ==> i < self.rows().len() && self.rows()[i as int].1 == h,
            r is None ==> forall|i: int| 0 <= i < self.rows().len() ==> self.rows()[i].1 != h,
    {
        let mut i: usize = 0;
        while i < self.entries.len()
            invariant
                i <= self.entries@.len(),
                forall|k: int| 0 <= k < i ==> self.rows()[k].1 != h,
            decreases self.entries@.len() - i,
        {
            if self.entries[i].handle.0 == h {
                return Some(i);
            }
            i = i + 1;
        }
        None
    }

    /// Resolve `id` to its handle: the live handle (one more reference) or a
    /// fresh one.
    pub fn request(&mut self, id: &str) -> (r: Option<ResourceHandle>)
        requires
            request_fits(old(self).view(), id@),
        ensures
            final(self).view() == request_step(old(self).view(), id@).0,
            r == Some(ResourceHandle(request_step(old(self).view(), id@).1)),
    {
        proof { use_type_invariant(&*self); }
        let ghost s0 = self.rows();
        match self.find_id(id) {
            Some(i) => {
                proof { lemma_map_has_entry(s0, i as int); }
                let h = self.entries[i].handle;
                let rc = self.entries[i].rc;
                let mut entries: Vec<ResourceEntry> = Vec::new();
                std::mem::swap(&mut entries, &mut self.entries);
                let mut e = entries.remove(i);
                e.rc = rc + 1;
                entries.insert(i, e);
                proof {
                    let t = rows_of(entries@);
                    assert(t =~= s0.update(i as int, (s0[i as int].0, h.0, (rc + 1) as u32)));
                    lemma_map_update(s0, i as int, h.0, (rc + 1) as u32);
                    assert forall|a: int| 0 <= a < t.len() implies (#[trigger] t[a]).0 == s0[a].0 && t[a].1 == s0[a].1
                        && t[a].2 >= 1 by {
                    }
                }
                self.entries = entries;
                Some(h)
            },
            None => {
                proof {
                    lemma_map_keys(s0, id@);
                }
                let h = ResourceHandle(self.next);
                let mut entries: Vec<ResourceEntry> = Vec::new();
                std::mem::swap(&mut entries, &mut self.entries);
                assert(self.rows() =~= Seq::<(Seq<char>, u32, u32)>::empty());
                self.next = self.next + 1;
                entries.push(ResourceEntry { id: id.to_string(), handle: h, rc: 1 });
                proof {
                    let t = rows_of(entries@);
                    assert(t.drop_last() =~= s0);
                    assert(t =~= s0.push((id@, h.0, 1u32)));
                    assert forall|a: int, b: int| 0 <= a < t.len() && 0 <= b < t.len() && a != b implies #[trigger] t[a].0
                        != #[trigger] t[b].0 by {
                        if a < s0.len() && b < s0.len() {
                            assert(t[a] == s0[a] && t[b] == s0[b]);
                        } else if a < s0.len() {
                            assert(t[a] == s0[a]);
                        } else {
                            assert(t[b] == s0[b]);
                        }
                    }
                    assert forall|a: int, b: int| 0 <= a < t.len() && 0 <= b < t.len() && a != b implies #[trigger] t[a].1
                        != #[trigger] t[b].1 by {
                        if a < s0.len() && b < s0.len() {
                            assert(t[a] == s0[a] && t[b] == s0[b]);
                        } else if a < s0.len() {
                            assert(t[a] == s0[a]);
                        } else {
                            assert(t[b] == s0[b]);
                        }
                    }
                    assert forall|a: int| 0 <= a < t.len() implies 1 <= #[trigger] t[a].1 < self.next && t[a].2 >= 1 by {
                        if a < s0.len() {
                            assert(t[a] == s0[a]);
                        }
                    }
                }
                self.entries = entries;
                Some(h)
            },
        }
    }

    /// Drop one reference of the entry that owns `handle`, freeing it at
    /// zero. An unknown or already-released handle is a no-op.
    pub fn release(&mut self, handle: ResourceHandle)
        ensures
            final(self).view() == release_step(old(self).view(), handle.0),
    {
        proof { use_type_invariant(&*self); }
        let ghost s0 = self.rows();
        proof { self.lemma_model_ok(); }
        match self.find_handle(handle.0) {
            None => {
                proof {
                    let live = entries_map(s0);
                    if exists|k: Seq<char>| live.contains_key(k) && live[k].0 == handle.0 {
                        let k = choose|k: Seq<char>| live.contains_key(k) && live[k].0 == handle.0;
                        lemma_map_keys(s0, k);
                        let i = choose|i: int| 0 <= i < s0.len() && s0[i].0 == k;
                        lemma_map_has_entry(s0, i);
                    }
                }
            },
            Some(i) => {
                let ghost k = s0[i as int].0;
                proof {
                    let live = entries_map(s0);
                    lemma_map_has_entry(s0, i as int);
                    let c = choose|c: Seq<char>| live.contains_key(c) && live[c].0 == handle.0;
                    assert(live.contains_key(k) && live[k].0 == handle.0);
                    if c != k {
                        assert(live[c].0 != live[k].0);
                    }
                    assert(owner_of(live, handle.0) == Some(k));
                }
                let rc = self.entries[i].rc;
                let mut entries: Vec<ResourceEntry> = Vec::new();
                std::mem::swap(&mut entries, &mut self.entries);
                if rc <= 1 {
                    entries.remove(i);
                    proof {
                        let t = rows_of(entries@);
                        assert(t =~= s0.remove(i as int));
                        lemma_map_remove(s0, i as int);
                        assert forall|a: int, b: int| 0 <= a < t.len() && 0 <= b < t.len() && a != b implies #[trigger] t[a].0
                            != #[trigger] t[b].0 && t[a].1 != t[b].1 by {
                            let a0 = if a < i { a } else { a + 1 };
                            let b0 = if b < i { b } else { b + 1 };
                            assert(t[a] == s0[a0] && t[b] == s0[b0]);
                        }
                        assert forall|a: int| 0 <= a < t.len() implies 1 <= #[trigger] t[a].1 < self.next && t[a].2 >= 1 by {
                            let a0 = if a < i { a } else { a + 1 };
                            assert(t[a] == s0[a0]);
                        }
                    }
                } else {
                    let mut e = entries.remove(i);
                    e.rc = rc - 1;
                    entries.insert(i, e);
                    proof {
                        let t = rows_of(entries@);
                        assert(t =~= s0.update(i as int, (k, handle.0, (rc - 1) as u32)));
                        lemma_map_update(s0, i as int, handle.0, (rc - 1) as u32);
                        assert forall|a: int| 0 <= a < t.len() implies (#[trigger] t[a]).0 == s0[a].0 && t[a].1 == s0[a].1
                            && t[a].2 >= 1 by {
                        }
                    }
                }
                self.entries = entries;
            },
        }
    }

    /// Whether a request for `id` stays within the 32-bit counters.
    pub fn can_request(&self, id: &str) -> (r: bool)
        ensures
            r == request_fits(self.view(), id@),
    {
        proof { use_type_invariant(self); }
        match self.find_id(id) {
            Some(i) => {
                proof { lemma_map_has_entry(self.rows(), i as int); }
                self.entries[i].rc < u32::MAX
            },
            None => {
                proof { lemma_map_keys(self.rows(), id@); }
                self.next < u32::MAX
            },
        }
    }

    /// Live reference count for `id` (0 when not live).
    pub fn refcount(&self, id: &str) -> (r: u32)
        ensures
            r == (if self.view().live.contains_key(id@) { self.view().live[id@].1 } else { 0 }),
    {
        proof { use_type_invariant(self); }
        match self.find_id(id) {
            Some(i) => {
                proof { lemma_map_has_entry(self.rows(), i as int); }
                self.entries[i].rc
            },
            None => {
                proof { lemma_map_keys(self.rows(), id@); }
                0
            },
        }
    }

    pub fn epoch(&self) -> (r: u32)
        ensures r == self.view().epoch,
    {
        self.epoch
    }

    /// Reload: invalidate every handle (epoch bump); addons must re-request.
    pub fn invalidate(&mut self)
        requires
            old(self).view().epoch < u32::MAX,
        ensures
            final(self).view() == (ResourceModel {
                next: old(self).view().next,
                epoch: (old(self).view().epoch + 1) as u32,
                live: Map::empty(),
            }),
    {
        proof { use_type_invariant(&*self); }
        self.epoch = self.epoch + 1;
        let cleared: Vec<ResourceEntry> = Vec::new();
        assert(rows_of(cleared@) =~= Seq::<(Seq<char>, u32, u32)>::empty());
        self.entries = cleared;
    }
}

/// Requests for one id share one handle while it is live: a second request
/// returns the first request's handle and counts one more reference.
pub proof fn lemma_same_id_shares_handle(m: ResourceModel, id: Seq<char>)
    requires
        request_fits(m, id),
        request_fits(request_step(m, id).0, id),
    ensures
        request_step(request_step(m, id).0, id).1 == request_step(m, id).1,
        request_step(request_step(m, id).0, id).0.live[id].1 == request_step(m, id).0.live[id].1 + 1,
{
}

/// Distinct live ids never share a handle, and a fresh handle differs from
/// every live one.
pub proof fn lemma_fresh_handle_is_new(m: ResourceModel, id: Seq<char>, other: Seq<char>)
    requires
        resource_model_ok(m),
        !m.live.contains_key(id),
        m.live.contains_key(other),
    ensures
        request_step(m, id).1 != m.live[other].0,
{
}

/// Release is idempotent: once an id's last reference is released its handle
/// is owned by nobody, so releasing it again changes nothing.
pub proof fn lemma_release_is_idempotent(m: ResourceModel, k: Seq<char>)
    requires
        resource_model_ok(m),
        m.live.contains_key(k),
        m.live[k].1 == 1,
    ensures
        release_step(m, m.live[k].0).live == m.live.remove(k),
        release_step(release_step(m, m.live[k].0), m.live[k].0) == release_step(m, m.live[k].0),
{
    let h = m.live[k].0;
    let c = choose|c: Seq<char>| m.live.contains_key(c) && m.live[c].0 == h;
    if c != k {
        assert(m.live[c].0 != m.live[k].0);
    }
    let after = release_step(m, h);
    assert(after.live == m.live.remove(k));
    if exists|j: Seq<char>| after.live.contains_key(j) && after.live[j].0 == h {
        let j = choose|j: Seq<char>| after.live.contains_key(j) && after.live[j].0 == h;
        assert(m.live[j].0 != m.live[k].0);
    }
}

/// A handle number that was never issued (0, or at least `next`) is owned by
/// nobody, so releasing it is a no-op.
pub proof fn lemma_unissued_release_is_noop(m: ResourceModel, h: u32)
    requires
        resource_model_ok(m),
        h == 0 || h >= m.next,
    ensures
        release_step(m, h) == m,
{
}

/// Releasing a live id's own handle drops one of that id's references (the
/// entry goes at the last one); nothing else changes.
pub proof fn lemma_release_hits_its_own_id(m: ResourceModel, k: Seq<char>)
    requires
        resource_model_ok(m),
        m.live.contains_key(k),
    ensures
        release_step(m, m.live[k].0) == (if m.live[k].1 <= 1 {
            ResourceModel { live: m.live.remove(k), ..m }
        } else {
            ResourceModel { live: m.live.insert(k, (m.live[k].0, (m.live[k].1 - 1) as u32)), ..m }
        }),
{
    let h = m.live[k].0;
    assert forall|c: Seq<char>| m.live.contains_key(c) && m.live[c].0 == h implies c == k by {
        if c != k {
            assert(m.live[c].0 != m.live[k].0);
        }
    }
    assert(owner_of(m.live, h) == Some(k));
}

/// A call on a resource bridge, as the model sees it.
pub enum ResourceCall {
    Request(Seq<char>),
    Release(u32),
    Invalidate,
}

/// The model after one call `c` from `p`.
pub open spec fn call_step(p: ResourceModel, c: ResourceCall) -> ResourceModel {
    match c {
        ResourceCall::Request(id) => request_step(p, id).0,
        ResourceCall::Release(h) => release_step(p, h),
        ResourceCall::Invalidate => ResourceModel { epoch: (p.epoch + 1) as u32, live: Map::empty(), ..p },
    }
}

/// Whether the bridge accepts the call `c` in state `p`: a request within
/// the counters, an invalidate within the epoch counter, any release.
pub open spec fn call_fits(p: ResourceModel, c: ResourceCall) -> bool {
    match c {
        ResourceCall::Request(id) => request_fits(p, id),
        ResourceCall::Release(_) => true,
        ResourceCall::Invalidate => p.epoch < u32::MAX,
    }
}

/// The model after `calls`, made in order from `m`.
pub open spec fn after_calls(m: ResourceModel, calls: Seq<ResourceCall>) -> ResourceModel
    decreases calls.len(),
{
    if calls.len() == 0 {
        m
    } else {
        call_step(after_calls(m, calls.drop_last()), calls.last())
    }
}

/// Whether the bridge accepts each call in `calls` where it is made.
pub open spec fn calls_fit(m: ResourceModel, calls: Seq<ResourceCall>) -> bool
    decreases calls.len(),
{
    if calls.len() == 0 {
        true
    } else {
        calls_fit(m, calls.drop_last()) && call_fits(after_calls(m, calls.drop_last()), calls.last())
    }
}

/// The reference count of `id` in `m` (0 when not live).
pub open spec fn refcount_in(m: ResourceModel, id: Seq<char>) -> int {
    if m.live.contains_key(id) { m.live[id].1 as int } else { 0 }
}

/// The references of `id` counted from the calls: its count in `m`, plus one
/// per request for it, minus one per release of the handle it held live at
/// that point, and back to zero at each invalidate.
pub open spec fn counted_refs(m: ResourceModel, calls: Seq<ResourceCall>, id: Seq<char>) -> int
    decreases calls.len(),
{
    if calls.len() == 0 {
        refcount_in(m, id)
    } else {
        let p = after_calls(m, calls.drop_last());
        let before = counted_refs(m, calls.drop_last(), id);
        match calls.last() {
            ResourceCall::Request(k) => if k == id { before + 1 } else { before },
            ResourceCall::Release(h) => if p.live.contains_key(id) && p.live[id].0 == h { before - 1 } else { before },
            ResourceCall::Invalidate => 0,
        }
    }
}

/// A well-formed model stays well formed across one call the bridge accepts.
proof fn lemma_step_keeps_model_ok(p: ResourceModel, c: ResourceCall)
    requires
        resource_model_ok(p),
        p.next >= 1,
        call_fits(p, c),
    ensures
        resource_model_ok(call_step(p, c)),
        call_step(p, c).next >= 1,
{
    let q = call_step(p, c);
    match c {
        ResourceCall::Request(id) => {
            assert forall|a: Seq<char>, b: Seq<char>|
                #![trigger q.live[a], q.live[b]]
                q.live.contains_key(a) && q.live.contains_key(b) && a != b implies q.live[a].0 != q.live[b].0 by {
                if p.live.contains_key(id) {
                    assert(p.live.contains_key(a) && p.live.contains_key(b));
                    assert(p.live[a].0 != p.live[b].0);
                } else if a != id && b != id {
                    assert(p.live[a].0 != p.live[b].0);
                }
            }
        },
        ResourceCall::Release(h) => {
            match owner_of(p.live, h) {
                Some(k) => {
                    assert(p.live.contains_key(k) && p.live[k].0 == h);
                    assert forall|a: Seq<char>, b: Seq<char>|
                        #![trigger q.live[a], q.live[b]]
                        q.live.contains_key(a) && q.live.contains_key(b) && a != b implies q.live[a].0 != q.live[b].0 by {
                        assert(p.live.contains_key(a) && p.live.contains_key(b));
                        assert(p.live[a].0 != p.live[b].0);
                    }
                },
                None => {},
            }
        },
        ResourceCall::Invalidate => {},
    }
}

/// The reference count of an id is counted by the calls: each request for it
/// adds one, each release of the handle it holds live takes one away, an
/// invalidate clears it, and no other call touches it. So, from a new bridge,
/// it is the number of requests for the id since the last invalidate minus
/// the releases in that time that found its handle live.
pub proof fn lemma_refcount_counts_calls(m: ResourceModel, calls: Seq<ResourceCall>, id: Seq<char>)
    requires
        resource_model_ok(m),
        m.next >= 1,
        calls_fit(m, calls),
    ensures
        resource_model_ok(after_calls(m, calls)),
        after_calls(m, calls).next >= 1,
        refcount_in(after_calls(m, calls), id) == counted_refs(m, calls, id),
    decreases calls.len(),
{
    if calls.len() > 0 {
        let prev = calls.drop_last();
        let c = calls.last();
        lemma_refcount_counts_calls(m, prev, id);
        let p = after_calls(m, prev);
        lemma_step_keeps_model_ok(p, c);
        match c {
            ResourceCall::Release(h) => {
                if p.live.contains_key(id) && p.live[id].0 == h {
                    lemma_release_hits_its_own_id(p, id);
                } else {
                    match owner_of(p.live, h) {
                        Some(k) => {
                            assert(p.live.contains_key(k) && p.live[k].0 == h);
                            assert(k != id);
                        },
                        None => {},
                    }
                }
            },
            _ => {},
        }
    }
}

} // verus!
