use vstd::prelude::*;

verus! {

/// A one-shot callback that becomes due at the absolute time `fire_at`
/// (milliseconds since the Unix epoch).
pub struct TimerEntry<C> {
    pub fire_at: u128,
    pub callback: C,
}

/// Entries are nondecreasing in fire time.
pub open spec fn fire_times_sorted<C>(s: Seq<TimerEntry<C>>) -> bool {
    forall|i: int, j: int| 0 <= i < j < s.len() ==> s[i].fire_at <= s[j].fire_at
}

/// The callbacks of `s`, in order.
pub open spec fn callbacks_of<C>(s: Seq<TimerEntry<C>>) -> Seq<C> {
    s.map_values(|e: TimerEntry<C>| e.callback)
}

/// `s` is `old` with `e` placed at `pos`: after every entry that fires no
/// later than `e` and before every entry that fires later.
pub open spec fn placed_at<C>(old: Seq<TimerEntry<C>>, e: TimerEntry<C>, s: Seq<TimerEntry<C>>, pos: int) -> bool {
    &&& 0 <= pos <= old.len()
    &&& s == old.insert(pos, e)
    &&& forall|i: int| 0 <= i < pos ==> #[trigger] old[i].fire_at <= e.fire_at
    &&& forall|i: int| pos <= i < old.len() ==> #[trigger] old[i].fire_at > e.fire_at
}

/// Where an entry that fires at `t` goes in the sorted queue `s`: after every
/// entry that fires no later than `t`.
pub open spec fn insertion_point<C>(s: Seq<TimerEntry<C>>, t: u128) -> int
    decreases s.len(),
{
    if s.len() == 0 {
        0
    } else if s.last().fire_at <= t {
        s.len() as int
    } else {
        insertion_point(s.drop_last(), t)
    }
}

/// In a sorted queue, the insertion point splits the entries that fire no
/// later than `t` from those that fire later.
pub proof fn lemma_insertion_point<C>(s: Seq<TimerEntry<C>>, t: u128)
    requires
        fire_times_sorted(s),
    ensures
        0 <= insertion_point(s, t) <= s.len(),
        forall|i: int| 0 <= i < insertion_point(s, t) ==> #[trigger] s[i].fire_at <= t,
        forall|i: int| insertion_point(s, t) <= i < s.len() ==> #[trigger] s[i].fire_at > t,
    decreases s.len(),
{
    if s.len() > 0 {
        if s.last().fire_at <= t {
            assert forall|i: int| 0 <= i < s.len() implies #[trigger] s[i].fire_at <= t by {
                assert(s[i].fire_at <= s[s.len() - 1].fire_at);
            }
        } else {
            let d = s.drop_last();
            assert(fire_times_sorted(d));
            lemma_insertion_point(d, t);
            assert forall|i: int| insertion_point(s, t) <= i < s.len() implies #[trigger] s[i].fire_at > t by {
                if i < d.len() {
                    assert(s[i] == d[i]);
                }
            }
            assert forall|i: int| 0 <= i < insertion_point(s, t) implies #[trigger] s[i].fire_at <= t by {
                assert(s[i] == d[i]);
            }
        }
    }
}

/// The queue that results from inserting `entries` one after another into an
/// empty queue.
pub open spec fn queued<C>(entries: Seq<TimerEntry<C>>) -> Seq<TimerEntry<C>>
    decreases entries.len(),
{
    if entries.len() == 0 {
        Seq::empty()
    } else {
        let q = queued(entries.drop_last());
        q.insert(insertion_point(q, entries.last().fire_at), entries.last())
    }
}

/// For the entries of `queued(entries)`, in queue order, their positions in
/// `entries`.
pub open spec fn queued_indices<C>(entries: Seq<TimerEntry<C>>) -> Seq<int>
    decreases entries.len(),
{
    if entries.len() == 0 {
        Seq::empty()
    } else {
        let q = queued(entries.drop_last());
        queued_indices(entries.drop_last()).insert(
            insertion_point(q, entries.last().fire_at),
            entries.len() - 1,
        )
    }
}

/// Inserting one more entry into the queue of `entries` gives the queue of
/// `entries` followed by it.
pub proof fn lemma_queued_push<C>(entries: Seq<TimerEntry<C>>, e: TimerEntry<C>)
    ensures
        queued(entries.push(e)) == queued(entries).insert(
            insertion_point(queued(entries), e.fire_at),
            e,
        ),
{
    assert(entries.push(e).drop_last() =~= entries);
}

/// The `i`-th of `entries` fires before the `j`-th: earlier, or at the same
/// time and inserted first.
pub open spec fn fires_before<C>(entries: Seq<TimerEntry<C>>, i: int, j: int) -> bool {
    entries[i].fire_at < entries[j].fire_at || (entries[i].fire_at == entries[j].fire_at && i < j)
}

/// Entries inserted one after another into an empty queue come out ordered by
/// fire time, and those with equal fire times in the order of insertion: the
/// queue is `entries` stably sorted by fire time.
pub proof fn lemma_queue_is_stable_sort<C>(entries: Seq<TimerEntry<C>>)
    ensures
        queued(entries).len() == entries.len(),
        queued_indices(entries).len() == entries.len(),
        fire_times_sorted(queued(entries)),
        forall|k: int|
            0 <= k < entries.len() ==> 0 <= #[trigger] queued_indices(entries)[k] < entries.len()
                && queued(entries)[k] == entries[queued_indices(entries)[k]],
        forall|k: int, l: int|
            0 <= k < l < entries.len() ==> fires_before(
                entries,
                #[trigger] queued_indices(entries)[k],
                #[trigger] queued_indices(entries)[l],
            ),
    decreases entries.len(),
{
    if entries.len() > 0 {
        let prev = entries.drop_last();
        let e = entries.last();
        let n = entries.len() as int;
        lemma_queue_is_stable_sort(prev);
        let q = queued(prev);
        let ix = queued_indices(prev);
        lemma_insertion_point(q, e.fire_at);
        let pos = insertion_point(q, e.fire_at);
        let q2 = queued(entries);
        let ix2 = queued_indices(entries);
        assert(q2 == q.insert(pos, e));
        assert(ix2 == ix.insert(pos, n - 1));
        assert forall|k: int| 0 <= k < n implies 0 <= #[trigger] ix2[k] < n && q2[k]
            == entries[ix2[k]] by {
            if k < pos {
                assert(entries[ix[k]] == prev[ix[k]]);
            } else if k > pos {
                assert(entries[ix[k - 1]] == prev[ix[k - 1]]);
            }
        }
        assert forall|k: int, l: int| 0 <= k < l < n implies fires_before(
            entries,
            #[trigger] ix2[k],
            #[trigger] ix2[l],
        ) by {
            if k < pos && l < pos {
                assert(entries[ix[k]] == prev[ix[k]]);
                assert(entries[ix[l]] == prev[ix[l]]);
            } else if k < pos && l == pos {
                assert(q[k] == entries[ix2[k]]);
            } else if k < pos && l > pos {
                assert(entries[ix[k]] == prev[ix[k]]);
                assert(entries[ix[l - 1]] == prev[ix[l - 1]]);
            } else if k == pos {
                assert(q[l - 1] == entries[ix2[l]]);
            } else {
                assert(entries[ix[k - 1]] == prev[ix[k - 1]]);
                assert(entries[ix[l - 1]] == prev[ix[l - 1]]);
            }
        }
        assert forall|i: int, j: int| 0 <= i < j < q2.len() implies q2[i].fire_at
            <= q2[j].fire_at by {
            assert(q2[i] == entries[ix2[i]]);
            assert(q2[j] == entries[ix2[j]]);
        }
    }
}

/// The timers scheduled by the host, kept in firing order: ascending fire time,
/// and insertion order among equal fire times.
pub struct TimerQueue<C> {
    timers: Vec<TimerEntry<C>>,
}

impl<C> View for TimerQueue<C> {
    type V = Seq<TimerEntry<C>>;

    closed spec fn view(&self) -> Seq<TimerEntry<C>> {
        self.timers@
    }
}

impl<C> TimerQueue<C> {
    pub open spec fn wf(&self) -> bool {
        fire_times_sorted(self@)
    }

    pub fn new() -> (r: Self)
        ensures
            r.wf(),
            r@ == Seq::<TimerEntry<C>>::empty(),
    {
        TimerQueue { timers: Vec::new() }
    }

    pub fn empty(&self) -> (r: bool)
        ensures
            r == (self@.len() == 0),
    {
        self.timers.len() == 0
    }

    pub fn len(&self) -> (r: usize)
        ensures
            r == self@.len(),
    {
        self.timers.len()
    }

    /// Schedules `callback` to fire at `fire_at`, after every entry already
    /// queued with the same or an earlier fire time, and returns its position
    /// in firing order.
    pub fn insert(&mut self, fire_at: u128, callback: C) -> (r: usize)
        requires
            old(self).wf(),
        ensures
            final(self).wf(),
            placed_at(old(self)@, (TimerEntry { fire_at, callback }), final(self)@, r as int),
            r == insertion_point(old(self)@, fire_at),
            forall|entries: Seq<TimerEntry<C>>|
                old(self)@ == #[trigger] queued(entries) ==> final(self)@ == queued(
                    entries.push(TimerEntry { fire_at, callback }),
                ),
    {
        let mut pos: usize = 0;
        while pos < self.timers.len() && self.timers[pos].fire_at <= fire_at
            invariant
                pos <= self.timers@.len(),
                forall|i: int| 0 <= i < pos ==> self.timers@[i].fire_at <= fire_at,
            decreases self.timers@.len() - pos,
        {
            pos = pos + 1;
        }
        let ghost before = self@;
        let e = TimerEntry { fire_at, callback };
        self.timers.insert(pos, e);
        proof {
            let p = pos as int;
            assert forall|i: int| p <= i < before.len() implies before[i].fire_at > fire_at by {
                if p < before.len() {
                    assert(before[p].fire_at > fire_at);
                    assert(before[p].fire_at <= before[i].fire_at);
                }
            }
            assert forall|i: int, j: int| 0 <= i < j < self@.len() implies self@[i].fire_at
                <= self@[j].fire_at by {
                if j < p {
                } else if j == p {
                } else if i < p {
                    assert(before[i].fire_at <= fire_at);
                } else if i == p {
                } else {
                }
            }
        }
        proof {
            lemma_insertion_point(before, fire_at);
            let ip = insertion_point(before, fire_at);
            if ip < pos {
                assert(before[ip].fire_at <= fire_at);
            } else if ip > pos {
                assert(before[pos as int].fire_at <= fire_at);
            }
            assert forall|entries: Seq<TimerEntry<C>>| before == #[trigger] queued(entries) implies self@
                == queued(entries.push(e)) by {
                lemma_queued_push(entries, e);
            }
        }
        pos
    }

    /// The earliest fire time in the queue, if any.
    pub fn next_fire_at(&self) -> (r: Option<u128>)
        requires
            self.wf(),
        ensures
            self@.len() == 0 ==> r is None,
            self@.len() > 0 ==> r == Some(self@[0].fire_at),
            r matches Some(t) ==> forall|i: int| 0 <= i < self@.len() ==> t <= #[trigger] self@[i].fire_at,
    {
        if self.timers.len() == 0 {
            None
        } else {
            Some(self.timers[0].fire_at)
        }
    }

    /// Removes every entry due at `now` (fire time not after `now`) and returns
    /// their callbacks in firing order; the entries not yet due stay queued.
    pub fn take_due(&mut self, now: u128) -> (r: Vec<C>)
        requires
            old(self).wf(),
        ensures
            final(self).wf(),
            r@.len() <= old(self)@.len(),
            r@ == callbacks_of(old(self)@.take(r@.len() as int)),
            final(self)@ == old(self)@.skip(r@.len() as int),
            forall|i: int| 0 <= i < r@.len() ==> #[trigger] old(self)@[i].fire_at <= now,
            forall|i: int| r@.len() <= i < old(self)@.len() ==> #[trigger] old(self)@[i].fire_at > now,
    {
        let ghost before = self@;
        let mut out: Vec<C> = Vec::new();
        while self.timers.len() > 0 && self.timers[0].fire_at <= now
            invariant
                out@.len() <= before.len(),
                out@ == callbacks_of(before.take(out@.len() as int)),
                self.timers@ == before.skip(out@.len() as int),
                fire_times_sorted(before),
                forall|i: int| 0 <= i < out@.len() ==> #[trigger] before[i].fire_at <= now,
            decreases self.timers@.len(),
        {
            let e = self.timers.remove(0);
            proof {
                assert(before.take(out@.len() as int + 1) == before.take(out@.len() as int).push(e));
                assert(before.skip(out@.len() as int + 1) == before.skip(out@.len() as int).remove(0));
            }
            out.push(e.callback);
            proof {
                assert(callbacks_of(before.take(out@.len() as int)) =~= out@);
            }
        }
        proof {
            let k = out@.len() as int;
            assert forall|i: int| k <= i < before.len() implies #[trigger] before[i].fire_at > now by {
                assert(before[k] == self@[0]);
                assert(before[k].fire_at <= before[i].fire_at);
            }
        }
        out
    }
}

/// A timer that is queued after others fires after every earlier one with the
/// same or an earlier fire time and before every one with a later fire time,
/// the others keep their order, and the queue stays in ascending fire-time
/// order.
pub proof fn lemma_firing_order<C>(s: Seq<TimerEntry<C>>, e: TimerEntry<C>, t: Seq<TimerEntry<C>>, pos: int)
    requires
        fire_times_sorted(s),
        placed_at(s, e, t, pos),
    ensures
        fire_times_sorted(t),
        t[pos] == e,
        t.remove(pos) == s,
        forall|i: int| 0 <= i < s.len() && #[trigger] s[i].fire_at <= e.fire_at ==> i < pos,
        forall|i: int| 0 <= i < s.len() && #[trigger] s[i].fire_at > e.fire_at ==> i >= pos,
{
    assert(t.remove(pos) =~= s);
    assert forall|i: int, j: int| 0 <= i < j < t.len() implies t[i].fire_at <= t[j].fire_at by {
        if j < pos {
        } else if j == pos {
        } else if i < pos {
            assert(s[i].fire_at <= e.fire_at);
        } else if i == pos {
        } else {
        }
    }
}

} // verus!
