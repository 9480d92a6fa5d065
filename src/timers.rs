use vstd::prelude::*;

verus! {

broadcast use vstd::seq_lib::group_filter_ensures;

/// One pending timer as the contracts see it.
pub struct TimerSpec {
    pub id: u64,
    pub expiry: u64,
    pub callback: Seq<char>,
}

/// The abstract state of a timer queue: the id the next timer gets, and the
/// pending timers in dispatch order.
pub struct QueueView {
    pub next_id: u64,
    pub entries: Seq<TimerSpec>,
}

/// A pending timer: its id, the instant it is due (in nanoseconds on the
/// bridge's own clock) and the name of the global function it fires.
pub struct TimerEntry {
    pub id: u64,
    pub expiry: u64,
    pub callback: String,
}

impl View for TimerEntry {
    type V = TimerSpec;

    open spec fn view(&self) -> TimerSpec {
        TimerSpec { id: self.id, expiry: self.expiry, callback: self.callback@ }
    }
}

/// Timer `a` is dispatched before timer `b`: it is due earlier, or due at
/// the same instant and was created first.
pub open spec fn before(a: TimerSpec, b: TimerSpec) -> bool {
    a.expiry < b.expiry || (a.expiry == b.expiry && a.id < b.id)
}

/// The ids of a sequence of timers.
pub open spec fn ids_of(s: Seq<TimerSpec>) -> Seq<u64> {
    s.map_values(|t: TimerSpec| t.id)
}

/// A queue is well formed when its timers are in dispatch order, each id
/// occurs once, and every id is below the next one to be handed out.
pub open spec fn queue_wf(v: QueueView) -> bool {
    &&& v.next_id >= 1
    &&& forall|i: int, j: int|
        0 <= i < j < v.entries.len() ==> #[trigger] before(v.entries[i], v.entries[j])
    &&& forall|i: int, j: int|
        0 <= i < j < v.entries.len() ==> #[trigger] v.entries[i].id != #[trigger] v.entries[j].id
    &&& forall|i: int| 0 <= i < v.entries.len() ==> #[trigger] v.entries[i].id < v.next_id
}

/// The timers of `s` that are due at `now`.
pub open spec fn due_at(s: Seq<TimerSpec>, now: u64) -> Seq<TimerSpec> {
    s.filter(|t: TimerSpec| t.expiry <= now)
}

/// The timers of `s` that are still pending at `now`.
pub open spec fn pending_at(s: Seq<TimerSpec>, now: u64) -> Seq<TimerSpec> {
    s.filter(|t: TimerSpec| t.expiry > now)
}

/// The timers of `s` other than the one with id `id`.
pub open spec fn without_id(s: Seq<TimerSpec>, id: u64) -> Seq<TimerSpec> {
    s.filter(|t: TimerSpec| t.id != id)
}

/// Whether a timer due `delay` after `now` can be created: its expiry must
/// be representable and an id must be left.
pub open spec fn can_add(v: QueueView, now: u64, delay: u64) -> bool {
    now + delay <= u64::MAX && v.next_id < u64::MAX
}

/// The queue after creating a timer: the new timer takes the next id and is
/// placed after every timer due no later than it, and before every later one.
/// When it cannot be created the queue is unchanged.
pub open spec fn add_spec(v: QueueView, now: u64, delay: u64, callback: Seq<char>) -> QueueView {
    if can_add(v, now, delay) {
        let t = TimerSpec { id: v.next_id, expiry: (now + delay) as u64, callback };
        QueueView {
            next_id: (v.next_id + 1) as u64,
            entries: due_at(v.entries, t.expiry) + seq![t] + pending_at(v.entries, t.expiry),
        }
    } else {
        v
    }
}

/// The queue after a poll at `now`: what was due is gone.
pub open spec fn poll_spec(v: QueueView, now: u64) -> QueueView {
    QueueView { next_id: v.next_id, entries: pending_at(v.entries, now) }
}

/// The queue after removing the timer with id `id`, if it is pending.
pub open spec fn remove_spec(v: QueueView, id: u64) -> QueueView {
    QueueView { next_id: v.next_id, entries: without_id(v.entries, id) }
}

/// Two timers of a well-formed queue are in dispatch order and differ in id.
proof fn lemma_wf_pair(v: QueueView, i: int, j: int)
    requires
        queue_wf(v),
        0 <= i < j < v.entries.len(),
    ensures
        before(v.entries[i], v.entries[j]),
        v.entries[i].id != v.entries[j].id,
{
}

/// Filtering keeps a sequence whole when every element passes.
proof fn lemma_filter_keeps_all(s: Seq<TimerSpec>, p: spec_fn(TimerSpec) -> bool)
    requires
        forall|i: int| 0 <= i < s.len() ==> p(#[trigger] s[i]),
    ensures
        s.filter(p) == s,
    decreases s.len(),
{
    if s.len() > 0 {
        let init = s.drop_last();
        lemma_filter_keeps_all(init, p);
        init.lemma_filter_push(s.last(), p);
        assert(init.push(s.last()) =~= s);
    }
}

/// Filtering empties a sequence when no element passes.
proof fn lemma_filter_drops_all(s: Seq<TimerSpec>, p: spec_fn(TimerSpec) -> bool)
    requires
        forall|i: int| 0 <= i < s.len() ==> !p(#[trigger] s[i]),
    ensures
        s.filter(p) == Seq::<TimerSpec>::empty(),
    decreases s.len(),
{
    if s.len() > 0 {
        let init = s.drop_last();
        lemma_filter_drops_all(init, p);
        init.lemma_filter_push(s.last(), p);
        assert(init.push(s.last()) =~= s);
    }
    assert(s.filter(p) =~= Seq::<TimerSpec>::empty());
}

/// In a well-formed queue the timers due at a given instant form a prefix:
/// splitting at the first timer due later separates due from pending.
proof fn lemma_split_at_expiry(v: QueueView, k: int, at: u64)
    requires
        queue_wf(v),
        0 <= k <= v.entries.len(),
        forall|i: int| 0 <= i < k ==> (#[trigger] v.entries[i]).expiry <= at,
        k < v.entries.len() ==> v.entries[k].expiry > at,
    ensures
        due_at(v.entries, at) == v.entries.subrange(0, k),
        pending_at(v.entries, at) == v.entries.subrange(k, v.entries.len() as int),
{
    let s = v.entries;
    let pre = s.subrange(0, k);
    let post = s.subrange(k, s.len() as int);
    assert(pre + post =~= s);
    assert forall|i: int| 0 <= i < post.len() implies (#[trigger] post[i]).expiry > at by {
        if i > 0 {
            assert(before(s[k], s[k + i]));
        }
    }
    let due = |t: TimerSpec| t.expiry <= at;
    let later = |t: TimerSpec| t.expiry > at;
    lemma_filter_keeps_all(pre, due);
    lemma_filter_drops_all(post, due);
    lemma_filter_drops_all(pre, later);
    lemma_filter_keeps_all(post, later);
    Seq::filter_distributes_over_add(pre, post, due);
    Seq::filter_distributes_over_add(pre, post, later);
    assert(pre + Seq::<TimerSpec>::empty() =~= pre);
    assert(Seq::<TimerSpec>::empty() + post =~= post);
}

/// Removing by id from a queue whose ids are distinct takes out at most the
/// one entry at index `k`, if `k` holds it.
proof fn lemma_remove_at(s: Seq<TimerSpec>, id: u64, k: int)
    requires
        0 <= k < s.len(),
        s[k].id == id,
        forall|i: int| 0 <= i < s.len() && i != k ==> (#[trigger] s[i]).id != id,
    ensures
        without_id(s, id) == s.remove(k),
{
    let pre = s.subrange(0, k);
    let mid = seq![s[k]];
    let post = s.subrange(k + 1, s.len() as int);
    let keep = |t: TimerSpec| t.id != id;
    assert(pre + mid + post =~= s);
    assert forall|i: int| 0 <= i < post.len() implies keep(#[trigger] post[i]) by {
        assert(post[i] == s[k + 1 + i]);
    }
    lemma_filter_keeps_all(pre, keep);
    lemma_filter_drops_all(mid, keep);
    lemma_filter_keeps_all(post, keep);
    Seq::filter_distributes_over_add(pre + mid, post, keep);
    Seq::filter_distributes_over_add(pre, mid, keep);
    assert(pre + Seq::<TimerSpec>::empty() =~= pre);
    assert(s.remove(k) =~= pre + post);
}

/// The pending timers of one interpreter, in dispatch order.
pub struct TimerQueue {
    next_id: u64,
    active: Vec<TimerEntry>,
}

impl View for TimerQueue {
    type V = QueueView;

    closed spec fn view(&self) -> QueueView {
        QueueView { next_id: self.next_id, entries: self.active@.map_values(|e: TimerEntry| e@) }
    }
}

impl TimerQueue {
    /// The queue's state is well formed, so the laws on `QueueView` apply
    /// to it.
    pub open spec fn wf(&self) -> bool {
        queue_wf(self@)
    }

    /// An empty queue whose first timer gets id 1.
    pub fn new() -> (r: TimerQueue)
        ensures
            r.wf(),
            r@.next_id == 1,
            r@.entries.len() == 0,
    {
        TimerQueue { next_id: 1, active: Vec::new() }
    }

    /// The number of pending timers.
    pub fn len(&self) -> (r: usize)
        ensures
            r == self@.entries.len(),
    {
        self.active.len()
    }

    /// The id that the next timer will get.
    pub fn next_id(&self) -> (r: u64)
        ensures
            r == self@.next_id,
    {
        self.next_id
    }

    /// Creates a timer due `delay` nanoseconds after `now` that fires the
    /// global function named `callback`. Returns its id, or `None` when the
    /// expiry would overflow the clock or the ids are used up.
    pub fn add_timer(&mut self, now: u64, delay: u64, callback: String) -> (r: Option<u64>)
        requires
            old(self).wf(),
        ensures
            final(self).wf(),
            final(self)@ == add_spec(old(self)@, now, delay, callback@),
            r == if can_add(old(self)@, now, delay) {
                Some(old(self)@.next_id)
            } else {
                None::<u64>
            },
    {
        if self.next_id == u64::MAX || delay > u64::MAX - now {
            return None;
        }
        let expiry: u64 = now + delay;
        let id: u64 = self.next_id;
        let ghost old_v = self@;
        let mut k: usize = 0;
        while k < self.active.len() && self.active[k].expiry <= expiry
            invariant
                self@ == old_v,
                k <= self.active.len(),
                forall|i: int| 0 <= i < k ==> (#[trigger] self.active@[i]).expiry <= expiry,
            decreases self.active.len() - k,
        {
            k = k + 1;
        }
        proof {
            assert forall|i: int| 0 <= i < k implies (#[trigger] old_v.entries[i]).expiry <= expiry by {
                assert(old_v.entries[i] == self.active@[i]@);
            }
            lemma_split_at_expiry(old_v, k as int, expiry);
        }
        let entry = TimerEntry { id, expiry, callback };
        let ghost t = entry@;
        self.active.insert(k, entry);
        self.next_id = id + 1;
        proof {
            let s = old_v.entries;
            let n = self@.entries;
            assert(n =~= s.subrange(0, k as int) + seq![t] + s.subrange(k as int, s.len() as int));
            assert forall|i: int, j: int| 0 <= i < j < n.len() implies #[trigger] before(n[i], n[j])
                && n[i].id != n[j].id by {
                if j < k {
                    assert(before(s[i], s[j]));
                } else if j == k {
                    assert(s[i].id < id);
                } else if i < k {
                    assert(before(s[i], s[j - 1]));
                } else if i == k {
                    assert(s[j - 1].id < id);
                    if j - 1 > k {
                        assert(before(s[k as int], s[j - 1]));
                    }
                } else {
                    assert(before(s[i - 1], s[j - 1]));
                }
            }
            assert forall|i: int| 0 <= i < n.len() implies #[trigger] n[i].id < self.next_id by {
                if i < k {
                    assert(s[i].id < id);
                } else if i > k {
                    assert(s[i - 1].id < id);
                }
            }
        }
        Some(id)
    }

    /// Takes out every timer due at `now` and returns them in dispatch
    /// order. The caller fires them after this returns, so that a fired
    /// callback may add or remove timers.
    pub fn poll(&mut self, now: u64) -> (r: Vec<TimerEntry>)
        requires
            old(self).wf(),
        ensures
            final(self).wf(),
            final(self)@ == poll_spec(old(self)@, now),
            r@.map_values(|e: TimerEntry| e@) == due_at(old(self)@.entries, now),
            forall|i: int, j: int| 0 <= i < j < r@.len() ==> #[trigger] before(r@[i]@, r@[j]@),
    {
        let ghost old_v = self@;
        let mut k: usize = 0;
        while k < self.active.len() && self.active[k].expiry <= now
            invariant
                self@ == old_v,
                k <= self.active.len(),
                forall|i: int| 0 <= i < k ==> (#[trigger] self.active@[i]).expiry <= now,
            decreases self.active.len() - k,
        {
            k = k + 1;
        }
        proof {
            assert forall|i: int| 0 <= i < k implies (#[trigger] old_v.entries[i]).expiry <= now by {
                assert(old_v.entries[i] == self.active@[i]@);
            }
            lemma_split_at_expiry(old_v, k as int, now);
        }
        let mut due = self.active.split_off(k);
        std::mem::swap(&mut self.active, &mut due);
        proof {
            let s = old_v.entries;
            assert(self@.entries =~= s.subrange(k as int, s.len() as int));
            assert(due@.map_values(|e: TimerEntry| e@) =~= s.subrange(0, k as int));
            assert forall|i: int, j: int| 0 <= i < j < due@.len() implies #[trigger] before(
                due@[i]@,
                due@[j]@,
            ) by {
                assert(due@[i]@ == s[i] && due@[j]@ == s[j]);
            }
            assert forall|i: int, j: int| 0 <= i < j < self@.entries.len() implies #[trigger] before(
                self@.entries[i],
                self@.entries[j],
            ) && self@.entries[i].id != self@.entries[j].id by {
                assert(before(s[k + i], s[k + j]));
            }
            assert forall|i: int| 0 <= i < self@.entries.len() implies #[trigger] self@.entries[i].id
                < self.next_id by {
                assert(s[k + i].id < self.next_id);
            }
        }
        due
    }

    /// Cancels the timer with id `id`. Returns whether it was pending;
    /// cancelling a timer that is not pending changes nothing.
    pub fn remove_timer(&mut self, id: u64) -> (r: bool)
        requires
            old(self).wf(),
        ensures
            final(self).wf(),
            final(self)@ == remove_spec(old(self)@, id),
            r == ids_of(old(self)@.entries).contains(id),
    {
        let ghost old_v = self@;
        let mut k: usize = 0;
        while k < self.active.len()
            invariant
                self@ == old_v,
                old_v == old(self)@,
                queue_wf(old_v),
                k <= self.active.len(),
                forall|i: int| 0 <= i < k ==> (#[trigger] self.active@[i]).id != id,
            decreases self.active.len() - k,
        {
            if self.active[k].id == id {
                let ghost s = old_v.entries;
                proof {
                    assert forall|i: int| 0 <= i < s.len() && i != k implies (#[trigger] s[i]).id != id by {
                        if i < k {
                            assert(s[i] == self.active@[i]@);
                        } else {
                            lemma_wf_pair(old_v, k as int, i);
                        }
                    }
                    lemma_remove_at(s, id, k as int);
                    assert(ids_of(s)[k as int] == id);
                }
                self.active.remove(k);
                proof {
                    let n = self@.entries;
                    assert(n =~= s.remove(k as int));
                    assert forall|i: int, j: int| 0 <= i < j < n.len() implies #[trigger] before(
                        n[i],
                        n[j],
                    ) && n[i].id != n[j].id by {
                        let i2 = if i < k { i } else { i + 1 };
                        let j2 = if j < k { j } else { j + 1 };
                        assert(before(s[i2], s[j2]));
                    }
                    assert forall|i: int| 0 <= i < n.len() implies #[trigger] n[i].id < self.next_id by {
                        let i2 = if i < k { i } else { i + 1 };
                        assert(s[i2].id < self.next_id);
                    }
                    assert(self@ == remove_spec(old_v, id));
                    assert(ids_of(s).contains(id));
                }
                return true;
            }
            k = k + 1;
        }
        proof {
            let s = old_v.entries;
            let keep = |t: TimerSpec| t.id != id;
            assert forall|i: int| 0 <= i < s.len() implies keep(#[trigger] s[i]) by {
                assert(s[i] == self.active@[i]@);
            }
            lemma_filter_keeps_all(s, keep);
            assert(!ids_of(s).contains(id)) by {
                if ids_of(s).contains(id) {
                    let i = choose|i: int| 0 <= i < ids_of(s).len() && ids_of(s)[i] == id;
                    assert(keep(s[i]));
                }
            }
        }
        false
    }
}

} // verus!

verus! {

/// One call on a timer queue, as the laws about sequences of calls see it.
pub enum TimerOp {
    Add { now: u64, delay: u64, callback: Seq<char> },
    Remove { id: u64 },
    Poll { now: u64 },
}

/// Every timer fired while the calls `ops` are made, in order, on a queue in
/// state `v`.
pub open spec fn fired_by(v: QueueView, ops: Seq<TimerOp>) -> Seq<TimerSpec>
    decreases ops.len(),
{
    if ops.len() == 0 {
        Seq::empty()
    } else {
        let rest = ops.drop_first();
        match ops[0] {
            TimerOp::Add { now, delay, callback } => fired_by(
                add_spec(v, now, delay, callback),
                rest,
            ),
            TimerOp::Remove { id } => fired_by(remove_spec(v, id), rest),
            TimerOp::Poll { now } => due_at(v.entries, now) + fired_by(poll_spec(v, now), rest),
        }
    }
}

/// No timer in `s` has id `id`.
pub open spec fn absent(s: Seq<TimerSpec>, id: u64) -> bool {
    forall|i: int| 0 <= i < s.len() ==> (#[trigger] s[i]).id != id
}

/// Filtering keeps an id absent.
proof fn lemma_filter_absent(s: Seq<TimerSpec>, p: spec_fn(TimerSpec) -> bool, id: u64)
    requires
        absent(s, id),
    ensures
        absent(s.filter(p), id),
{
    let f = s.filter(p);
    assert forall|i: int| 0 <= i < f.len() implies (#[trigger] f[i]).id != id by {
        assert(f.contains(f[i]));
        s.lemma_filter_contains_rev(p, f[i]);
        let j = choose|j: int| 0 <= j < s.len() && s[j] == f[i];
        assert(s[j].id != id);
    }
}

/// A timer whose id was handed out and which is no longer pending stays
/// out of the queue, whatever calls follow, and none of them fires it.
proof fn lemma_gone_stays_gone(v: QueueView, id: u64, ops: Seq<TimerOp>)
    requires
        id < v.next_id,
        absent(v.entries, id),
    ensures
        absent(fired_by(v, ops), id),
    decreases ops.len(),
{
    if ops.len() > 0 {
        let rest = ops.drop_first();
        match ops[0] {
            TimerOp::Add { now, delay, callback } => {
                let v1 = add_spec(v, now, delay, callback);
                if can_add(v, now, delay) {
                    let e = (now + delay) as u64;
                    lemma_filter_absent(v.entries, |t: TimerSpec| t.expiry <= e, id);
                    lemma_filter_absent(v.entries, |t: TimerSpec| t.expiry > e, id);
                    let t = TimerSpec { id: v.next_id, expiry: e, callback };
                    assert(absent(seq![t], id));
                    let a = due_at(v.entries, e);
                    let b = pending_at(v.entries, e);
                    assert forall|i: int| 0 <= i < v1.entries.len() implies (
                    #[trigger] v1.entries[i]).id != id by {
                        if i < a.len() {
                            assert(v1.entries[i] == a[i]);
                        } else if i > a.len() {
                            assert(v1.entries[i] == b[i - a.len() - 1]);
                        }
                    }
                }
                lemma_gone_stays_gone(v1, id, rest);
            },
            TimerOp::Remove { id: other } => {
                lemma_filter_absent(v.entries, |t: TimerSpec| t.id != other, id);
                lemma_gone_stays_gone(remove_spec(v, other), id, rest);
            },
            TimerOp::Poll { now } => {
                lemma_filter_absent(v.entries, |t: TimerSpec| t.expiry <= now, id);
                lemma_filter_absent(v.entries, |t: TimerSpec| t.expiry > now, id);
                lemma_gone_stays_gone(poll_spec(v, now), id, rest);
                let a = due_at(v.entries, now);
                let b = fired_by(poll_spec(v, now), rest);
                assert forall|i: int| 0 <= i < (a + b).len() implies (#[trigger] (a + b)[i]).id
                    != id by {
                    if i >= a.len() {
                        assert((a + b)[i] == b[i - a.len()]);
                    }
                }
            },
        }
    }
}

/// A timer cancelled before it fired is never fired by any later calls:
/// after `removeTimer` on a handle that this queue handed out, no sequence
/// of adds, removals and polls fires it.
pub proof fn lemma_removed_timer_never_fires(v: QueueView, id: u64, ops: Seq<TimerOp>)
    requires
        queue_wf(v),
        id < v.next_id,
    ensures
        absent(fired_by(remove_spec(v, id), ops), id),
{
    let keep = |t: TimerSpec| t.id != id;
    let r = v.entries.filter(keep);
    assert forall|i: int| 0 <= i < r.len() implies (#[trigger] r[i]).id != id by {
        v.entries.lemma_filter_pred(keep, i);
    }
    lemma_gone_stays_gone(remove_spec(v, id), id, ops);
}

/// A timer created with no delay fires exactly once: the first poll at or
/// after its creation returns it once, with its callback name, and a poll
/// after that does not return it again.
pub proof fn lemma_zero_delay_fires_once(
    v: QueueView,
    now: u64,
    callback: Seq<char>,
    first: u64,
    second: u64,
)
    requires
        queue_wf(v),
        v.next_id < u64::MAX,
        now <= first,
    ensures
        ({
            let id = v.next_id;
            let v1 = add_spec(v, now, 0, callback);
            let fired = due_at(v1.entries, first);
            let again = due_at(poll_spec(v1, first).entries, second);
            &&& exists|k: int|
                0 <= k < fired.len() && fired[k] == TimerSpec { id, expiry: now, callback }
                    && forall|j: int| 0 <= j < fired.len() && j != k ==> (#[trigger] fired[j]).id != id
            &&& absent(again, id)
        }),
{
    let id = v.next_id;
    let t = TimerSpec { id, expiry: now, callback };
    let v1 = add_spec(v, now, 0, callback);
    let a = due_at(v.entries, now);
    let b = pending_at(v.entries, now);
    let due = |x: TimerSpec| x.expiry <= first;
    assert(absent(v.entries, id));
    lemma_filter_absent(v.entries, |x: TimerSpec| x.expiry <= now, id);
    lemma_filter_absent(v.entries, |x: TimerSpec| x.expiry > now, id);
    assert(v1.entries == a + seq![t] + b);
    Seq::filter_distributes_over_add(a + seq![t], b, due);
    Seq::filter_distributes_over_add(a, seq![t], due);
    lemma_filter_keeps_all(seq![t], due);
    lemma_filter_absent(a, due, id);
    lemma_filter_absent(b, due, id);
    let fa = a.filter(due);
    let fb = b.filter(due);
    let fired = due_at(v1.entries, first);
    assert(fired == fa + seq![t] + fb);
    let k = fa.len() as int;
    assert forall|j: int| 0 <= j < fired.len() && j != k implies (#[trigger] fired[j]).id != id by {
        if j < k {
            assert(fired[j] == fa[j]);
        } else {
            assert(fired[j] == fb[j - k - 1]);
        }
    }
    assert(fired[k] == t);
    let later = |x: TimerSpec| x.expiry > first;
    let rest = v1.entries.filter(later);
    assert forall|i: int| 0 <= i < rest.len() implies (#[trigger] rest[i]).id != id by {
        v1.entries.lemma_filter_pred(later, i);
        assert(rest.contains(rest[i]));
        v1.entries.lemma_filter_contains_rev(later, rest[i]);
        let j = choose|j: int| 0 <= j < v1.entries.len() && v1.entries[j] == rest[i];
        if j < a.len() {
            assert(v1.entries[j] == a[j]);
        } else if j > a.len() {
            assert(v1.entries[j] == b[j - a.len() - 1]);
        }
    }
    lemma_filter_absent(rest, |x: TimerSpec| x.expiry <= second, id);
}

} // verus!

verus! {

/// An element of a filtered sequence sits at some index of the sequence.
proof fn lemma_filtered_index(s: Seq<TimerSpec>, p: spec_fn(TimerSpec) -> bool, x: TimerSpec) -> (k: int)
    requires
        s.filter(p).contains(x),
    ensures
        0 <= k < s.len(),
        s[k] == x,
        p(x),
{
    s.lemma_filter_contains_rev(p, x);
    let k = choose|k: int| 0 <= k < s.len() && s[k] == x;
    let f = s.filter(p);
    let m = choose|m: int| 0 <= m < f.len() && f[m] == x;
    s.lemma_filter_pred(p, m);
    k
}

/// Two distinct positions of a well-formed queue hold distinct ids.
proof fn lemma_wf_ids(v: QueueView, i: int, j: int)
    requires
        queue_wf(v),
        0 <= i < v.entries.len(),
        0 <= j < v.entries.len(),
        i != j,
    ensures
        v.entries[i].id != v.entries[j].id,
{
    if i < j {
        lemma_wf_pair(v, i, j);
    } else {
        lemma_wf_pair(v, j, i);
    }
}

/// Keeping only some timers of a well-formed queue leaves it well formed.
proof fn lemma_filter_wf(v: QueueView, p: spec_fn(TimerSpec) -> bool)
    requires
        queue_wf(v),
    ensures
        queue_wf(QueueView { next_id: v.next_id, entries: v.entries.filter(p) }),
    decreases v.entries.len(),
{
    let s = v.entries;
    let f = s.filter(p);
    assert forall|i: int| 0 <= i < f.len() implies #[trigger] f[i].id < v.next_id by {
        assert(f.contains(f[i]));
        let k = lemma_filtered_index(s, p, f[i]);
        assert(s[k].id < v.next_id);
    }
    if s.len() > 0 {
        let init = s.drop_last();
        let last = s.last();
        let n = s.len() - 1;
        let w = QueueView { next_id: v.next_id, entries: init };
        assert forall|i: int, j: int| 0 <= i < j < init.len() implies #[trigger] before(
            init[i],
            init[j],
        ) by {
            lemma_wf_pair(v, i, j);
        }
        assert forall|i: int, j: int| 0 <= i < j < init.len() implies #[trigger] init[i].id
            != #[trigger] init[j].id by {
            lemma_wf_pair(v, i, j);
        }
        assert forall|i: int| 0 <= i < init.len() implies #[trigger] init[i].id < v.next_id by {
            assert(s[i].id < v.next_id);
        }
        lemma_filter_wf(w, p);
        let g = init.filter(p);
        let wg = QueueView { next_id: v.next_id, entries: g };
        assert(init.push(last) =~= s);
        init.lemma_filter_push(last, p);
        if p(last) {
            assert(f == g.push(last));
            assert forall|i: int, j: int| 0 <= i < j < f.len() implies #[trigger] before(f[i], f[j])
                && f[i].id != f[j].id by {
                if j < g.len() {
                    assert(f[i] == g[i] && f[j] == g[j]);
                    lemma_wf_pair(wg, i, j);
                } else {
                    assert(f[i] == g[i] && f[j] == last);
                    assert(g.contains(g[i]));
                    let k = lemma_filtered_index(init, p, g[i]);
                    assert(init[k] == s[k]);
                    lemma_wf_pair(v, k, n);
                }
            }
            assert forall|i: int, j: int| 0 <= i < j < f.len() implies #[trigger] f[i].id
                != #[trigger] f[j].id by {
                assert(before(f[i], f[j]) && f[i].id != f[j].id);
            }
        } else {
            assert(f == g);
        }
    } else {
        assert(f =~= s);
    }
}

/// Creating a timer keeps a queue well formed.
proof fn lemma_add_wf(v: QueueView, now: u64, delay: u64, callback: Seq<char>)
    requires
        queue_wf(v),
    ensures
        queue_wf(add_spec(v, now, delay, callback)),
{
    if can_add(v, now, delay) {
        let e = (now + delay) as u64;
        let t = TimerSpec { id: v.next_id, expiry: e, callback };
        let le = |x: TimerSpec| x.expiry <= e;
        let gt = |x: TimerSpec| x.expiry > e;
        let a = v.entries.filter(le);
        let b = v.entries.filter(gt);
        let va = QueueView { next_id: v.next_id, entries: a };
        let vb = QueueView { next_id: v.next_id, entries: b };
        lemma_filter_wf(v, le);
        lemma_filter_wf(v, gt);
        let n = add_spec(v, now, delay, callback).entries;
        assert(n == a + seq![t] + b);
        let al = a.len() as int;
        assert forall|i: int, j: int| 0 <= i < j < n.len() implies #[trigger] before(n[i], n[j])
            && n[i].id != n[j].id by {
            if j < al {
                assert(n[i] == a[i] && n[j] == a[j]);
                lemma_wf_pair(va, i, j);
            } else if j == al {
                assert(n[i] == a[i] && n[j] == t);
                assert(a.contains(a[i]));
                let x = lemma_filtered_index(v.entries, le, a[i]);
                assert(v.entries[x].id < v.next_id);
            } else if i < al {
                let bj = j - al - 1;
                assert(n[i] == a[i] && n[j] == b[bj]);
                assert(a.contains(a[i]));
                let x = lemma_filtered_index(v.entries, le, a[i]);
                assert(b.contains(b[bj]));
                let y = lemma_filtered_index(v.entries, gt, b[bj]);
                lemma_wf_ids(v, x, y);
            } else if i == al {
                let bj = j - al - 1;
                assert(n[i] == t && n[j] == b[bj]);
                assert(b.contains(b[bj]));
                let y = lemma_filtered_index(v.entries, gt, b[bj]);
                assert(v.entries[y].id < v.next_id);
            } else {
                assert(n[i] == b[i - al - 1] && n[j] == b[j - al - 1]);
                lemma_wf_pair(vb, i - al - 1, j - al - 1);
            }
        }
        assert forall|i: int, j: int| 0 <= i < j < n.len() implies #[trigger] n[i].id
            != #[trigger] n[j].id by {
            assert(before(n[i], n[j]) && n[i].id != n[j].id);
        }
        assert forall|i: int| 0 <= i < n.len() implies #[trigger] n[i].id < v.next_id + 1 by {
            if i < al {
                assert(n[i] == a[i]);
                assert(a.contains(a[i]));
                let x = lemma_filtered_index(v.entries, le, a[i]);
                assert(v.entries[x].id < v.next_id);
            } else if i > al {
                assert(n[i] == b[i - al - 1]);
                assert(b.contains(b[i - al - 1]));
                let x = lemma_filtered_index(v.entries, gt, b[i - al - 1]);
                assert(v.entries[x].id < v.next_id);
            }
        }
    }
}

/// Whether a timer with id `id` is pending in `s`.
pub open spec fn pending_id(s: Seq<TimerSpec>, id: u64) -> bool {
    exists|i: int| 0 <= i < s.len() && (#[trigger] s[i]).id == id
}

/// Every timer that a sequence of calls fires was pending at the start, or
/// has an id that had not been handed out yet.
proof fn lemma_fired_origin(v: QueueView, ops: Seq<TimerOp>, i: int)
    requires
        0 <= i < fired_by(v, ops).len(),
    ensures
        pending_id(v.entries, fired_by(v, ops)[i].id) || fired_by(v, ops)[i].id >= v.next_id,
    decreases ops.len(),
{
    let rest = ops.drop_first();
    let f = fired_by(v, ops);
    match ops[0] {
        TimerOp::Add { now, delay, callback } => {
            let w = add_spec(v, now, delay, callback);
            assert(f == fired_by(w, rest));
            lemma_fired_origin(w, rest, i);
            if can_add(v, now, delay) && pending_id(w.entries, f[i].id) {
                let e = (now + delay) as u64;
                let le = |x: TimerSpec| x.expiry <= e;
                let gt = |x: TimerSpec| x.expiry > e;
                let a = v.entries.filter(le);
                let b = v.entries.filter(gt);
                let t = TimerSpec { id: v.next_id, expiry: e, callback };
                assert(w.entries == a + seq![t] + b);
                let k = choose|k: int| 0 <= k < w.entries.len() && (#[trigger] w.entries[k]).id == f[i].id;
                let al = a.len() as int;
                if k < al {
                    assert(w.entries[k] == a[k]);
                    assert(a.contains(a[k]));
                    let x = lemma_filtered_index(v.entries, le, a[k]);
                    assert(v.entries[x].id == f[i].id);
                } else if k > al {
                    assert(w.entries[k] == b[k - al - 1]);
                    assert(b.contains(b[k - al - 1]));
                    let x = lemma_filtered_index(v.entries, gt, b[k - al - 1]);
                    assert(v.entries[x].id == f[i].id);
                } else {
                    assert(w.entries[k] == t);
                }
            }
        },
        TimerOp::Remove { id } => {
            let w = remove_spec(v, id);
            assert(f == fired_by(w, rest));
            lemma_fired_origin(w, rest, i);
            if pending_id(w.entries, f[i].id) {
                let k = choose|k: int| 0 <= k < w.entries.len() && (#[trigger] w.entries[k]).id == f[i].id;
                assert(w.entries.contains(w.entries[k]));
                let x = lemma_filtered_index(v.entries, |t: TimerSpec| t.id != id, w.entries[k]);
                assert(v.entries[x].id == f[i].id);
            }
        },
        TimerOp::Poll { now } => {
            let w = poll_spec(v, now);
            let d = due_at(v.entries, now);
            let r = fired_by(w, rest);
            assert(f == d + r);
            if i < d.len() {
                assert(f[i] == d[i]);
                assert(d.contains(d[i]));
                let x = lemma_filtered_index(v.entries, |t: TimerSpec| t.expiry <= now, d[i]);
                assert(v.entries[x].id == f[i].id);
            } else {
                assert(f[i] == r[i - d.len()]);
                lemma_fired_origin(w, rest, i - d.len());
                if pending_id(w.entries, f[i].id) {
                    let k = choose|k: int| 0 <= k < w.entries.len() && (#[trigger] w.entries[k]).id == f[i].id;
                    assert(w.entries.contains(w.entries[k]));
                    let x = lemma_filtered_index(v.entries, |t: TimerSpec| t.expiry > now, w.entries[k]);
                    assert(v.entries[x].id == f[i].id);
                }
            }
        },
    }
}

/// No timer fires twice: over any sequence of adds, removals and polls on
/// a well-formed queue, the fired timers have distinct ids.
pub proof fn lemma_each_timer_fires_at_most_once(v: QueueView, ops: Seq<TimerOp>, i: int, j: int)
    requires
        queue_wf(v),
        0 <= i < j < fired_by(v, ops).len(),
    ensures
        fired_by(v, ops)[i].id != fired_by(v, ops)[j].id,
    decreases ops.len(),
{
    let rest = ops.drop_first();
    let f = fired_by(v, ops);
    match ops[0] {
        TimerOp::Add { now, delay, callback } => {
            let w = add_spec(v, now, delay, callback);
            assert(f == fired_by(w, rest));
            lemma_add_wf(v, now, delay, callback);
            lemma_each_timer_fires_at_most_once(w, rest, i, j);
        },
        TimerOp::Remove { id } => {
            let w = remove_spec(v, id);
            assert(f == fired_by(w, rest));
            lemma_filter_wf(v, |t: TimerSpec| t.id != id);
            lemma_each_timer_fires_at_most_once(w, rest, i, j);
        },
        TimerOp::Poll { now } => {
            let due = |t: TimerSpec| t.expiry <= now;
            let later = |t: TimerSpec| t.expiry > now;
            let w = poll_spec(v, now);
            let d = due_at(v.entries, now);
            let r = fired_by(w, rest);
            lemma_filter_wf(v, due);
            lemma_filter_wf(v, later);
            assert(f == d + r);
            if j < d.len() {
                assert(f[i] == d[i] && f[j] == d[j]);
                lemma_wf_pair(QueueView { next_id: v.next_id, entries: d }, i, j);
            } else if i >= d.len() {
                assert(f[i] == r[i - d.len()] && f[j] == r[j - d.len()]);
                lemma_each_timer_fires_at_most_once(w, rest, i - d.len(), j - d.len());
            } else {
                assert(f[i] == d[i] && f[j] == r[j - d.len()]);
                assert(d.contains(d[i]));
                let x = lemma_filtered_index(v.entries, due, d[i]);
                assert(v.entries[x].id < v.next_id);
                lemma_fired_origin(w, rest, j - d.len());
                if pending_id(w.entries, f[j].id) {
                    let k = choose|k: int| 0 <= k < w.entries.len() && (#[trigger] w.entries[k]).id == f[j].id;
                    assert(w.entries.contains(w.entries[k]));
                    let y = lemma_filtered_index(v.entries, later, w.entries[k]);
                    assert(x != y);
                    lemma_wf_ids(v, x, y);
                }
            }
        },
    }
}

} // verus!
