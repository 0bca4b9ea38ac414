//! The element-handle → runtime-id registry: ids are assigned on the first
//! sighting of a handle and retained afterwards; once full the registry is
//! emptied, and ids keep counting up so an id is never reused.

use vstd::prelude::*;

use crate::model::AccessibleId;
use crate::source::ElementHandle;

verus! {

/// The largest number of element handles the id registry keeps.
pub const MAX_TRACKED_ELEMENTS: usize = 65536;

/// The abstract state of a registry.
pub struct RegistryView {
    /// Tracked handles, in assignment order.
    pub handles: Seq<Seq<char>>,
    /// The id of each tracked handle (same positions as `handles`).
    pub ids: Seq<u64>,
    /// The next id to hand out.
    pub next: nat,
    /// The capacity (a full registry is emptied before the next assignment).
    pub cap: nat,
}

/// Whether `h` is tracked by `r`.
pub open spec fn tracks(r: RegistryView, h: Seq<char>) -> bool {
    exists|k: int| 0 <= k < r.handles.len() && r.handles[k] == h
}

/// The position of a tracked handle.
pub open spec fn position_of(r: RegistryView, h: Seq<char>) -> int {
    choose|k: int| 0 <= k < r.handles.len() && r.handles[k] == h
}

/// A registry's structural invariant: one id per handle, handles distinct, ids
/// increasing and all below `next`.
pub open spec fn registry_wf(r: RegistryView) -> bool {
    &&& r.handles.len() == r.ids.len()
    &&& forall|i: int, j: int|
        0 <= i < r.handles.len() && 0 <= j < r.handles.len() && i != j ==> r.handles[i]
            != r.handles[j]
    &&& forall|i: int, j: int| 0 <= i < j < r.ids.len() ==> r.ids[i] < r.ids[j]
    &&& forall|i: int| 0 <= i < r.ids.len() ==> r.ids[i] < r.next
}

/// The id `assign` hands out for `h`, and the registry afterwards.
pub open spec fn assign_spec(r: RegistryView, h: Seq<char>) -> (u64, RegistryView) {
    if tracks(r, h) {
        (r.ids[position_of(r, h)], r)
    } else if r.handles.len() >= r.cap {
        (
            r.next as u64,
            RegistryView { handles: seq![h], ids: seq![r.next as u64], next: r.next + 1, cap: r.cap },
        )
    } else {
        (
            r.next as u64,
            RegistryView {
                handles: r.handles.push(h),
                ids: r.ids.push(r.next as u64),
                next: r.next + 1,
                cap: r.cap,
            },
        )
    }
}

/// The handle an id addresses, when it is still tracked.
pub open spec fn handle_of_spec(r: RegistryView, id: u64) -> Option<Seq<char>> {
    if exists|k: int| 0 <= k < r.ids.len() && r.ids[k] == id {
        Some(r.handles[choose|k: int| 0 <= k < r.ids.len() && r.ids[k] == id])
    } else {
        None
    }
}

/// A tracked handle keeps its id: assigning it again hands out the same id and
/// leaves the registry unchanged.
pub proof fn lemma_assign_idempotent(r: RegistryView, h: Seq<char>)
    requires
        registry_wf(r),
        r.next < u64::MAX,
    ensures
        assign_spec(assign_spec(r, h).1, h) == (assign_spec(r, h).0, assign_spec(r, h).1),
{
    let (id, r1) = assign_spec(r, h);
    if !tracks(r, h) {
        let k = r1.handles.len() - 1;
        assert(r1.handles[k] == h);
        assert(tracks(r1, h));
        let p = position_of(r1, h);
        if p != k {
            assert(r1.handles[p] == h);
            if r.handles.len() < r.cap {
                assert(r1.handles[p] == r.handles[p]);
            }
        }
        assert(p == k);
    }
}

/// After an assignment, the id handed out addresses the handle it was handed
/// out for.
pub proof fn lemma_assign_then_resolve(r: RegistryView, h: Seq<char>)
    requires
        registry_wf(r),
        r.next < u64::MAX,
    ensures
        handle_of_spec(assign_spec(r, h).1, assign_spec(r, h).0) == Some(h),
{
    let (id, r1) = assign_spec(r, h);
    if tracks(r, h) {
        let p = position_of(r, h);
        assert(r.ids[p] == id);
        let c = choose|k: int| 0 <= k < r.ids.len() && r.ids[k] == id;
        if c != p {
            if c < p {
                assert(r.ids[c] < r.ids[p]);
            } else {
                assert(r.ids[p] < r.ids[c]);
            }
        }
    } else {
        let k = r1.ids.len() - 1;
        assert(r1.ids[k] == id);
        let c = choose|j: int| 0 <= j < r1.ids.len() && r1.ids[j] == id;
        if c != k {
            assert(r1.ids[c] < r1.ids[k]) by {
                if r.handles.len() < r.cap {
                    assert(r1.ids[c] == r.ids[c]);
                }
            }
        }
    }
}

/// Ids are never reused: an assignment never makes an id address a handle
/// other than the one it addressed before, a dropped or never-issued id stays
/// unresolved, and an id that was not issued before the assignment resolves
/// afterwards only when it is the one just handed out.
pub proof fn lemma_ids_never_reused(r: RegistryView, h: Seq<char>, id: u64)
    requires
        registry_wf(r),
        r.next < u64::MAX,
    ensures
        handle_of_spec(assign_spec(r, h).1, id) is Some ==> (handle_of_spec(r, id) is Some
            && handle_of_spec(assign_spec(r, h).1, id) == handle_of_spec(r, id)) || (id
            == assign_spec(r, h).0 && !tracks(r, h)),
        !tracks(r, h) ==> assign_spec(r, h).0 == r.next,
{
    let (aid, r1) = assign_spec(r, h);
    if handle_of_spec(r1, id) is Some && !tracks(r, h) && id != aid {
        let c1 = choose|k: int| 0 <= k < r1.ids.len() && r1.ids[k] == id;
        assert(0 <= c1 < r1.ids.len() && r1.ids[c1] == id);
        if r.handles.len() >= r.cap {
            assert(r1.ids.len() == 1);
            assert(false);
        } else {
            assert(c1 < r.ids.len());
            assert(r.ids[c1] == id);
            assert(exists|k: int| 0 <= k < r.ids.len() && r.ids[k] == id);
            let c = choose|k: int| 0 <= k < r.ids.len() && r.ids[k] == id;
            if c != c1 {
                if c < c1 {
                    assert(r.ids[c] < r.ids[c1]);
                } else {
                    assert(r.ids[c1] < r.ids[c]);
                }
            }
            assert(r1.handles[c1] == r.handles[c1]);
        }
    }
}

/// The registry never tracks more handles than its capacity (a capacity of zero
/// still keeps the one handle just assigned).
pub proof fn lemma_assign_bounded(r: RegistryView, h: Seq<char>)
    requires
        r.handles.len() <= if r.cap == 0 { 1 } else { r.cap },
    ensures
        assign_spec(r, h).1.handles.len() <= if r.cap == 0 { 1 } else { r.cap },
        assign_spec(r, h).1.cap == r.cap,
{
}

/// The id registry.
#[derive(Debug)]
pub struct Registry {
    handles: Vec<String>,
    ids: Vec<u64>,
    next: u64,
    cap: usize,
}

impl View for Registry {
    type V = RegistryView;

    closed spec fn view(&self) -> RegistryView {
        RegistryView {
            handles: self.handles@.map_values(|s: String| s@),
            ids: self.ids@,
            next: self.next as nat,
            cap: self.cap as nat,
        }
    }
}

impl Registry {
    /// The registry's invariant.
    pub closed spec fn wf(&self) -> bool {
        registry_wf(self@) && self.handles@.len() == self.ids@.len()
    }

    /// A well-formed registry's abstract state satisfies [`registry_wf`].
    pub proof fn lemma_wf(&self)
        requires
            self.wf(),
        ensures
            registry_wf(self@),
    {
    }

    /// An empty registry tracking at most `cap` handles.
    pub fn new(cap: usize) -> (r: Registry)
        ensures
            r.wf(),
            r@.handles.len() == 0,
            r@.next == 0,
            r@.cap == cap,
    {
        let r = Registry { handles: Vec::new(), ids: Vec::new(), next: 0, cap };
        assert(r@.handles =~= Seq::<Seq<char>>::empty());
        r
    }

    /// The next id the registry will hand out.
    pub fn next_id(&self) -> (n: u64)
        ensures
            n == self@.next,
    {
        self.next
    }

    /// Number of tracked element handles.
    pub fn len(&self) -> (n: usize)
        requires
            self.wf(),
        ensures
            n == self@.handles.len(),
    {
        self.handles.len()
    }

    /// The stable id of `handle`, assigning one if this is its first sighting.
    pub fn assign(&mut self, handle: &ElementHandle) -> (id: AccessibleId)
        requires
            old(self).wf(),
            old(self)@.next < u64::MAX,
        ensures
            final(self).wf(),
            (id.0, final(self)@) == assign_spec(old(self)@, handle.0@),
    {
        let ghost r0 = self@;
        let mut k: usize = 0;
        while k < self.handles.len()
            invariant
                self@ == r0,
                self.wf(),
                k <= self.handles.len(),
                forall|j: int| 0 <= j < k ==> r0.handles[j] != handle.0@,
            decreases self.handles.len() - k,
        {
            if self.handles[k] == handle.0 {
                proof {
                    assert(r0.handles[k as int] == handle.0@);
                    assert(tracks(r0, handle.0@));
                    let p = position_of(r0, handle.0@);
                    assert(p == k as int);
                }
                return AccessibleId(self.ids[k]);
            }
            k += 1;
        }
        assert(!tracks(r0, handle.0@));
        if self.handles.len() >= self.cap {
            self.handles.clear();
            self.ids.clear();
        }
        let id = self.next;
        self.handles.push(handle.0.clone());
        self.ids.push(id);
        self.next = self.next + 1;
        assert(self@.handles =~= assign_spec(r0, handle.0@).1.handles);
        assert(self@.ids =~= assign_spec(r0, handle.0@).1.ids);
        AccessibleId(id)
    }

    /// The backend handle an id addresses, if it is still tracked.
    pub fn handle_of(&self, id: AccessibleId) -> (h: Option<ElementHandle>)
        requires
            self.wf(),
        ensures
            match h {
                Some(h) => handle_of_spec(self@, id.0) == Some(h.0@),
                None => handle_of_spec(self@, id.0) is None,
            },
    {
        let mut k: usize = 0;
        while k < self.ids.len()
            invariant
                self.wf(),
                k <= self.ids.len(),
                forall|j: int| 0 <= j < k ==> self@.ids[j] != id.0,
            decreases self.ids.len() - k,
        {
            if self.ids[k] == id.0 {
                proof {
                    assert(exists|j: int| 0 <= j < self@.ids.len() && self@.ids[j] == id.0);
                    let c = choose|j: int| 0 <= j < self@.ids.len() && self@.ids[j] == id.0;
                    assert(c == k as int) by {
                        if c < k as int {
                        } else if c > k as int {
                            assert(self@.ids[k as int] < self@.ids[c]);
                        }
                    }
                }
                return Some(ElementHandle(self.handles[k].clone()));
            }
            k += 1;
        }
        None
    }
}

} // verus!
