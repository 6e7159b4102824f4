use vstd::prelude::*;
use std::collections::HashMap;

verus! {

broadcast use vstd::std_specs::hash::group_hash_axioms;

/// What the I/O worker reports for one request: the response's status code,
/// or a description of why the request failed.
pub type FetchResult = Result<u16, String>;

/// A completed request as sent back by the I/O worker.
pub struct Response {
    pub id: u32,
    pub result: FetchResult,
}

/// Faults of the host that no script can recover from.
#[derive(Debug, PartialEq, Eq)]
pub enum HostFault {
    /// A response named a request id that is not outstanding.
    UnknownRequest(u32),
    /// Every request id has been handed out.
    RequestIdsExhausted,
    /// Snapshot data was passed while building a snapshot.
    SnapshotGiven,
}

pub open spec fn host_fault_text(f: HostFault) -> Seq<char> {
    match f {
        HostFault::UnknownRequest(_) => "response for a request that is not outstanding"@,
        HostFault::RequestIdsExhausted => "request ids exhausted"@,
        HostFault::SnapshotGiven => "Cannot pass snapshot data while creating snapshot"@,
    }
}

impl HostFault {
    pub fn message(&self) -> (r: &'static str)
        ensures
            r@ == host_fault_text(*self),
    {
        match self {
            HostFault::UnknownRequest(_) => {
                proof { reveal_strlit("response for a request that is not outstanding"); }
                "response for a request that is not outstanding"
            },
            HostFault::RequestIdsExhausted => {
                proof { reveal_strlit("request ids exhausted"); }
                "request ids exhausted"
            },
            HostFault::SnapshotGiven => {
                proof { reveal_strlit("Cannot pass snapshot data while creating snapshot"); }
                "Cannot pass snapshot data while creating snapshot"
            },
        }
    }
}

/// The deferred-value handles of outstanding requests, keyed by request id.
/// Ids are handed out in increasing order, starting at 1, and never reused.
pub struct PendingRequests<H> {
    handles: HashMap<u32, H>,
    last_id: u32,
}

impl<H> View for PendingRequests<H> {
    type V = Map<u32, H>;

    closed spec fn view(&self) -> Map<u32, H> {
        self.handles@
    }
}

impl<H> PendingRequests<H> {
    /// The largest id handed out so far (0 before the first request).
    pub closed spec fn last_id(&self) -> u32 {
        self.last_id
    }

    pub open spec fn wf(&self) -> bool {
        forall|id: u32| #[trigger] self@.contains_key(id) ==> 1 <= id <= self.last_id()
    }

    pub fn new() -> (r: Self)
        ensures
            r.wf(),
            r@ == Map::<u32, H>::empty(),
            r.last_id() == 0,
    {
        PendingRequests { handles: HashMap::new(), last_id: 0 }
    }

    pub fn len(&self) -> (r: usize)
        ensures
            r == self@.len(),
    {
        self.handles.len()
    }

    pub fn is_empty(&self) -> (r: bool)
        ensures
            r == (self@.len() == 0),
    {
        self.handles.len() == 0
    }

    /// Records `handle` under a fresh id and returns that id, which the caller
    /// then sends to the I/O worker with the request.
    pub fn register(&mut self, handle: H) -> (r: Result<u32, HostFault>)
        requires
            old(self).wf(),
        ensures
            final(self).wf(),
            old(self).last_id() < u32::MAX <==> r is Ok,
            r matches Ok(id) ==> {
                &&& id == old(self).last_id() + 1
                &&& !old(self)@.contains_key(id)
                &&& final(self)@ == old(self)@.insert(id, handle)
                &&& final(self).last_id() == id
            },
            r matches Err(e) ==> {
                &&& e == HostFault::RequestIdsExhausted
                &&& final(self)@ == old(self)@
                &&& final(self).last_id() == old(self).last_id()
            },
    {
        if self.last_id == u32::MAX {
            return Err(HostFault::RequestIdsExhausted);
        }
        let id = self.last_id + 1;
        self.last_id = id;
        self.handles.insert(id, handle);
        assert forall|k: u32| #[trigger] self@.contains_key(k) implies 1 <= k <= self.last_id() by {
            if k != id {
                assert(old(self)@.contains_key(k));
            }
        }
        Ok(id)
    }

    /// Removes and returns the handle recorded under `id`.
    pub fn take(&mut self, id: u32) -> (r: Result<H, HostFault>)
        requires
            old(self).wf(),
        ensures
            final(self).wf(),
            final(self).last_id() == old(self).last_id(),
            old(self)@.contains_key(id) <==> r is Ok,
            r matches Ok(h) ==> h == old(self)@[id] && final(self)@ == old(self)@.remove(id),
            r matches Err(e) ==> e == HostFault::UnknownRequest(id) && final(self)@ == old(self)@,
    {
        let r = self.handles.remove(&id);
        assert forall|k: u32| #[trigger] self@.contains_key(k) implies 1 <= k <= self.last_id() by {
            assert(old(self)@.contains_key(k));
        }
        match r {
            Some(h) => Ok(h),
            None => Err(HostFault::UnknownRequest(id)),
        }
    }
}

/// One change to the table of outstanding requests, as made by
/// `PendingRequests::register` and `PendingRequests::take`.
pub enum PendingOp<H> {
    Register(u32, H),
    Settle(u32),
}

/// The table after applying `ops` in order.
pub open spec fn apply_ops<H>(m: Map<u32, H>, ops: Seq<PendingOp<H>>) -> Map<u32, H>
    decreases ops.len(),
{
    if ops.len() == 0 {
        m
    } else {
        let next = match ops[0] {
            PendingOp::Register(id, h) => m.insert(id, h),
            PendingOp::Settle(id) => m.remove(id),
        };
        apply_ops(next, ops.drop_first())
    }
}

pub open spec fn op_id<H>(op: PendingOp<H>) -> u32 {
    match op {
        PendingOp::Register(id, _) => id,
        PendingOp::Settle(id) => id,
    }
}

/// A handle registered under a fresh id stays recorded under it while other
/// requests are registered and settled; the response for that id then hands
/// back exactly that handle and removes it, so no second response can settle
/// it again.
pub proof fn lemma_settles_exactly_once<H>(m: Map<u32, H>, id: u32, h: H, ops: Seq<PendingOp<H>>)
    requires
        !m.contains_key(id),
        forall|k: int| 0 <= k < ops.len() ==> op_id(#[trigger] ops[k]) != id,
    ensures
        apply_ops(m.insert(id, h), ops).contains_key(id),
        apply_ops(m.insert(id, h), ops)[id] == h,
        !apply_ops(m.insert(id, h), ops).remove(id).contains_key(id),
{
    lemma_other_ops_keep(m.insert(id, h), id, ops);
}

proof fn lemma_other_ops_keep<H>(m: Map<u32, H>, id: u32, ops: Seq<PendingOp<H>>)
    requires
        m.contains_key(id),
        forall|k: int| 0 <= k < ops.len() ==> op_id(#[trigger] ops[k]) != id,
    ensures
        apply_ops(m, ops).contains_key(id),
        apply_ops(m, ops)[id] == m[id],
    decreases ops.len(),
{
    if ops.len() > 0 {
        assert(op_id(ops[0]) != id);
        let next = match ops[0] {
            PendingOp::Register(k, v) => m.insert(k, v),
            PendingOp::Settle(k) => m.remove(k),
        };
        assert forall|k: int| 0 <= k < ops.drop_first().len() implies op_id(
            #[trigger] ops.drop_first()[k],
        ) != id by {
            assert(ops.drop_first()[k] == ops[k + 1]);
        }
        lemma_other_ops_keep(next, id, ops.drop_first());
    }
}

} // verus!
