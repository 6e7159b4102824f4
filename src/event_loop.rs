use vstd::prelude::*;
use crate::requests::{FetchResult, HostFault, PendingRequests, Response};
use crate::timers::{
    callbacks_of, fires_before, insertion_point, lemma_queue_is_stable_sort, placed_at, queued,
    queued_indices, TimerEntry, TimerQueue,
};

verus! {

/// How long a wait for a response may last while timers are queued, so that
/// a slow request does not hold timers back.
pub const POLL_INTERVAL_MS: u64 = 100;

/// The longest sleep of one tick; a timer further off is waited for over
/// several ticks, so no tick blocks indefinitely.
pub const MAX_SLEEP_MS: u128 = 60_000;

/// What the driver does in one tick before handing the event back.
#[derive(Debug, PartialEq, Eq)]
pub enum TickAction {
    /// No request is outstanding and no timer is queued: no more work.
    Finished,
    /// Only timers remain: sleep `sleep_ms` (the time until the earliest
    /// timer, at most `MAX_SLEEP_MS`), then fire the due timers.
    FireTimers { sleep_ms: u128 },
    /// A request is outstanding: wait for a response, without limit when
    /// `timeout_ms` is `None`.
    AwaitResponse { timeout_ms: Option<u64> },
}

/// The action a tick takes in the given state at time `now`.
pub open spec fn action_for<H, C>(pending: Map<u32, H>, timers: Seq<TimerEntry<C>>, now: u128) -> TickAction {
    if pending.len() == 0 && timers.len() == 0 {
        TickAction::Finished
    } else if pending.len() == 0 {
        TickAction::FireTimers {
            sleep_ms: if timers[0].fire_at <= now {
                0
            } else if timers[0].fire_at - now > MAX_SLEEP_MS {
                MAX_SLEEP_MS
            } else {
                (timers[0].fire_at - now) as u128
            },
        }
    } else if timers.len() == 0 {
        TickAction::AwaitResponse { timeout_ms: None }
    } else {
        TickAction::AwaitResponse { timeout_ms: Some(POLL_INTERVAL_MS) }
    }
}

/// `now + delay`, or the largest time when that does not fit.
pub open spec fn fire_time(now: u128, delay: u128) -> u128 {
    if now + delay <= u128::MAX { (now + delay) as u128 } else { u128::MAX }
}

/// What a tick hands back to the driver once its wait is over.
pub struct TickOutcome<H, C> {
    /// The handle to settle and the worker's result for it: resolve with the
    /// status code on `Ok`, reject with the cause on `Err`.
    pub settled: Option<(H, FetchResult)>,
    /// Callbacks of the timers that came due, in firing order.
    pub fired: Vec<C>,
}

/// Per-engine state of the host: queued timers and outstanding requests.
/// `H` is a deferred-value handle, `C` a script callback.
pub struct Context<H, C> {
    pub timers: TimerQueue<C>,
    pub pending: PendingRequests<H>,
}

impl<H, C> Context<H, C> {
    pub open spec fn wf(&self) -> bool {
        self.timers.wf() && self.pending.wf()
    }

    /// The action of the next tick at time `now`.
    pub open spec fn action_at(&self, now: u128) -> TickAction {
        action_for(self.pending@, self.timers@, now)
    }

    pub fn new() -> (r: Self)
        ensures
            r.wf(),
            r.timers@ == Seq::<TimerEntry<C>>::empty(),
            r.timers@ == queued(Seq::<TimerEntry<C>>::empty()),
            r.pending@ == Map::<u32, H>::empty(),
            r.pending.last_id() == 0,
    {
        let r = Context { timers: TimerQueue::new(), pending: PendingRequests::new() };
        assert(r.timers@ =~= queued(Seq::<TimerEntry<C>>::empty()));
        r
    }

    /// Whether any timer is queued or any request outstanding.
    pub fn has_work(&self) -> (r: bool)
        ensures
            r == (self.pending@.len() > 0 || self.timers@.len() > 0),
    {
        !self.pending.is_empty() || !self.timers.empty()
    }

    /// Queues `callback` to fire `delay_ms` after `now_ms`, and returns the
    /// timer's position in firing order.
    pub fn set_timeout(&mut self, callback: C, now_ms: u128, delay_ms: u128) -> (r: usize)
        requires
            old(self).wf(),
        ensures
            final(self).wf(),
            placed_at(
                old(self).timers@,
                (TimerEntry { fire_at: fire_time(now_ms, delay_ms), callback }),
                final(self).timers@,
                r as int,
            ),
            r == insertion_point(old(self).timers@, fire_time(now_ms, delay_ms)),
            forall|entries: Seq<TimerEntry<C>>|
                old(self).timers@ == #[trigger] queued(entries) ==> final(self).timers@ == queued(
                    entries.push(TimerEntry { fire_at: fire_time(now_ms, delay_ms), callback }),
                ),
            final(self).pending == old(self).pending,
    {
        let fire_at = now_ms.saturating_add(delay_ms);
        self.timers.insert(fire_at, callback)
    }

    /// Records the handle of a new request and returns the id under which the
    /// request goes to the I/O worker.
    pub fn fetch(&mut self, handle: H) -> (r: Result<u32, HostFault>)
        requires
            old(self).wf(),
        ensures
            final(self).wf(),
            final(self).timers == old(self).timers,
            old(self).pending.last_id() < u32::MAX <==> r is Ok,
            r matches Ok(id) ==> {
                &&& id == old(self).pending.last_id() + 1
                &&& !old(self).pending@.contains_key(id)
                &&& final(self).pending@ == old(self).pending@.insert(id, handle)
                &&& final(self).pending.last_id() == id
            },
            r matches Err(e) ==> {
                &&& e == HostFault::RequestIdsExhausted
                &&& final(self).pending@ == old(self).pending@
                &&& final(self).pending.last_id() == old(self).pending.last_id()
            },
    {
        self.pending.register(handle)
    }

    /// Decides what the next tick does at time `now_ms`.
    pub fn next_action(&self, now_ms: u128) -> (r: TickAction)
        requires
            self.wf(),
        ensures
            r == self.action_at(now_ms),
    {
        if self.pending.is_empty() {
            match self.timers.next_fire_at() {
                None => TickAction::Finished,
                Some(t) => TickAction::FireTimers {
                    sleep_ms: if t <= now_ms {
                        0
                    } else if t - now_ms > MAX_SLEEP_MS {
                        MAX_SLEEP_MS
                    } else {
                        t - now_ms
                    },
                },
            }
        } else if self.timers.empty() {
            TickAction::AwaitResponse { timeout_ms: None }
        } else {
            TickAction::AwaitResponse { timeout_ms: Some(POLL_INTERVAL_MS) }
        }
    }

    /// Ends a tick at time `now_ms`: settles the request that `response`
    /// answers, if any, and takes the timers that are due.  A response for an
    /// id that is not outstanding is a fault and changes nothing.
    pub fn complete_tick(&mut self, response: Option<Response>, now_ms: u128) -> (r: Result<
        TickOutcome<H, C>,
        HostFault,
    >)
        requires
            old(self).wf(),
        ensures
            final(self).wf(),
            final(self).pending.last_id() == old(self).pending.last_id(),
            match response {
                Some(resp) => !old(self).pending@.contains_key(resp.id) <==> r is Err,
                None => r is Ok,
            },
            r matches Err(e) ==> {
                &&& response matches Some(resp) && e == HostFault::UnknownRequest(resp.id)
                &&& final(self).pending@ == old(self).pending@
                &&& final(self).timers@ == old(self).timers@
            },
            r matches Ok(out) ==> {
                &&& match response {
                    Some(resp) => {
                        &&& out.settled == Some((old(self).pending@[resp.id], resp.result))
                        &&& final(self).pending@ == old(self).pending@.remove(resp.id)
                    },
                    None => out.settled is None && final(self).pending@ == old(self).pending@,
                }
                &&& out.fired@.len() <= old(self).timers@.len()
                &&& out.fired@ == callbacks_of(old(self).timers@.take(out.fired@.len() as int))
                &&& final(self).timers@ == old(self).timers@.skip(out.fired@.len() as int)
                &&& forall|i: int|
                    0 <= i < out.fired@.len() ==> #[trigger] old(self).timers@[i].fire_at <= now_ms
                &&& forall|i: int|
                    out.fired@.len() <= i < old(self).timers@.len()
                        ==> #[trigger] old(self).timers@[i].fire_at > now_ms
            },
    {
        let settled = match response {
            Some(resp) => {
                let h = self.pending.take(resp.id)?;
                Some((h, resp.result))
            },
            None => None,
        };
        let fired = self.timers.take_due(now_ms);
        Ok(TickOutcome { settled, fired })
    }
}

/// Once a tick finds no work, every later tick finds none either, until a new
/// timer or request is added.
pub proof fn lemma_finished_is_terminal<H, C>(ctx: &Context<H, C>, now: u128, later: u128)
    requires
        ctx.action_at(now) == TickAction::Finished,
    ensures
        ctx.action_at(later) == TickAction::Finished,
{
}

/// Timers set one after another with `set_timeout` on a new context queue up
/// as `queued(entries)`. Each `complete_tick` then fires the next stretch of
/// that queue, so over all ticks the callbacks fire in ascending fire time,
/// equal fire times in the order the timers were set, each exactly once and
/// never before its fire time.  Here `m` timers have fired before the tick,
/// which found the queue `before`, fired `fired` and left `after`.
pub proof fn lemma_ticks_fire_in_stable_order<C>(
    entries: Seq<TimerEntry<C>>,
    m: int,
    before: Seq<TimerEntry<C>>,
    fired: Seq<C>,
    after: Seq<TimerEntry<C>>,
)
    requires
        0 <= m <= entries.len(),
        before == queued(entries).skip(m),
        fired.len() <= before.len(),
        fired == callbacks_of(before.take(fired.len() as int)),
        after == before.skip(fired.len() as int),
    ensures
        after == queued(entries).skip(m + fired.len()),
        m + fired.len() <= entries.len(),
        forall|i: int|
            0 <= i < fired.len() ==> fired[i] == entries[#[trigger] queued_indices(entries)[m + i]].callback,
        forall|k: int, l: int|
            0 <= k < l < entries.len() ==> fires_before(
                entries,
                #[trigger] queued_indices(entries)[k],
                #[trigger] queued_indices(entries)[l],
            ),
{
    lemma_queue_is_stable_sort(entries);
    assert(after =~= queued(entries).skip(m + fired.len()));
    assert forall|i: int| 0 <= i < fired.len() implies fired[i] == entries[
        #[trigger] queued_indices(entries)[m + i]
    ].callback by {
        assert(before[i] == queued(entries)[m + i]);
    }
}

} // verus!
