//! A timer that holds entries by deadline, in virtual milliseconds.
//!
//! The timer decides: which entries expire when time advances, and where an
//! entry goes. Running the expired entries is the caller's work: it calls
//! [`WheelTimer::update`], runs each expired entry, and hands the periodic
//! ones that want to run again to [`WheelTimer::reschedule`].

use vstd::prelude::*;

verus! {

/// Latest time at which an entry can still be scheduled with any delay.
pub const MAX_SCHEDULE_TIME: u128 = 0xffff_ffff_ffff_ffff_0000_0000_0000_0000u128;

/// An entry: its id, the virtual time at which it expires, and for a
/// periodic entry its period.
#[derive(Debug, PartialEq, Eq, Structural, Copy, Clone)]
pub struct TimerSlot {
    pub id: u128,
    pub deadline: u128,
    pub period: Option<u64>,
}

/// A timer: the current virtual time (ms) and the entries, by deadline.
pub struct WheelTimer {
    time: u128,
    slots: Vec<TimerSlot>,
}

/// Result of advancing virtual time.
pub enum WheelTimerSimStep {
    /// No timer entries remain.
    Finished,
    /// Time advanced and entries remain.
    Running,
}

/// The mathematical value of a [`WheelTimer`].
pub struct TimerView {
    pub time: u128,
    pub slots: Seq<TimerSlot>,
}

impl View for WheelTimer {
    type V = TimerView;

    closed spec fn view(&self) -> TimerView {
        TimerView { time: self.time, slots: self.slots@ }
    }
}

/// Entries in order of deadline.
pub open spec fn sorted_slots(s: Seq<TimerSlot>) -> bool {
    forall|i: int, j: int| 0 <= i < j < s.len() ==> s[i].deadline <= s[j].deadline
}

/// A well-formed timer: entries by deadline, all in the future.
pub open spec fn timer_wf(v: TimerView) -> bool {
    &&& sorted_slots(v.slots)
    &&& forall|i: int| 0 <= i < v.slots.len() ==> v.slots[i].deadline > v.time
}

/// Number of leading entries whose deadline is at most `t`.
pub open spec fn lead_le(s: Seq<TimerSlot>, t: u128) -> nat
    decreases s.len(),
{
    if s.len() == 0 || s[0].deadline > t {
        0
    } else {
        1 + lead_le(s.drop_first(), t)
    }
}

/// The entries with `e` placed after all entries that expire no later.
pub open spec fn slots_inserted(s: Seq<TimerSlot>, e: TimerSlot) -> Seq<TimerSlot> {
    s.insert(lead_le(s, e.deadline) as int, e)
}

/// The time that advancing by `delta` ms reaches.
pub open spec fn update_target(v: TimerView, delta: nat) -> int {
    v.time + delta
}

/// The entries that advancing by `delta` ms expires, in order.
pub open spec fn fired_slots(v: TimerView, delta: nat) -> Seq<TimerSlot> {
    v.slots.take(lead_le(v.slots, update_target(v, delta) as u128) as int)
}

/// The timer after advancing by `delta` ms.
pub open spec fn after_update(v: TimerView, delta: nat) -> TimerView {
    TimerView {
        time: update_target(v, delta) as u128,
        slots: v.slots.skip(lead_le(v.slots, update_target(v, delta) as u128) as int),
    }
}

/// The entries without those of id `id`.
pub open spec fn slots_without(s: Seq<TimerSlot>, id: u128) -> Seq<TimerSlot>
    decreases s.len(),
{
    if s.len() == 0 {
        s
    } else if s.last().id == id {
        slots_without(s.drop_last(), id)
    } else {
        slots_without(s.drop_last(), id).push(s.last())
    }
}

/// The entry that rescheduling `e` at time `time` adds: due one period
/// later.
pub open spec fn next_slot(e: TimerSlot, time: u128) -> TimerSlot {
    TimerSlot { deadline: (time + e.period.unwrap()) as u128, ..e }
}

/// A periodic entry with a period: one that can be put back.
pub open spec fn reschedulable(e: TimerSlot) -> bool {
    e.period matches Some(p) && p > 0
}

/// The entries after each entry of `list` is rescheduled in turn.
pub open spec fn slots_rescheduled(s: Seq<TimerSlot>, time: u128, list: Seq<TimerSlot>) -> Seq<
    TimerSlot,
>
    decreases list.len(),
{
    if list.len() == 0 {
        s
    } else {
        slots_inserted(slots_rescheduled(s, time, list.drop_last()), next_slot(list.last(), time))
    }
}

proof fn lemma_lead_le_skip(s: Seq<TimerSlot>, t: u128, i: int)
    requires
        0 <= i <= s.len(),
        forall|j: int| 0 <= j < i ==> s[j].deadline <= t,
    ensures
        lead_le(s, t) == i + lead_le(s.skip(i), t),
    decreases i,
{
    if i > 0 {
        assert(s.skip(1) =~= s.drop_first());
        assert(s.drop_first().skip(i - 1) =~= s.skip(i));
        lemma_lead_le_skip(s.drop_first(), t, i - 1);
    } else {
        assert(s.skip(0) =~= s);
    }
}

/// In entries by deadline, the leading entries up to `t` are exactly those
/// that expire by `t`.
proof fn lemma_lead_le_split(s: Seq<TimerSlot>, t: u128)
    requires
        sorted_slots(s),
    ensures
        lead_le(s, t) <= s.len(),
        forall|j: int| 0 <= j < lead_le(s, t) ==> s[j].deadline <= t,
        forall|j: int| lead_le(s, t) <= j < s.len() ==> s[j].deadline > t,
    decreases s.len(),
{
    if s.len() > 0 && s[0].deadline <= t {
        let r = s.drop_first();
        assert(sorted_slots(r)) by {
            assert forall|i: int, j: int| 0 <= i < j < r.len() implies r[i].deadline
                <= r[j].deadline by {
                assert(s[i + 1].deadline <= s[j + 1].deadline);
            }
        }
        lemma_lead_le_split(r, t);
        assert forall|j: int| 0 <= j < lead_le(s, t) implies s[j].deadline <= t by {
            if j > 0 {
                assert(s[j] == r[j - 1]);
            }
        }
        assert forall|j: int| lead_le(s, t) <= j < s.len() implies s[j].deadline > t by {
            assert(s[j] == r[j - 1]);
        }
    } else if s.len() > 0 {
        assert forall|j: int| 0 <= j < s.len() implies s[j].deadline > t by {
            if j > 0 {
                assert(s[0].deadline <= s[j].deadline);
            }
        }
    }
}

proof fn lemma_insert_wf(v: TimerView, e: TimerSlot)
    requires
        timer_wf(v),
        e.deadline > v.time,
    ensures
        timer_wf(TimerView { time: v.time, slots: slots_inserted(v.slots, e) }),
{
    lemma_lead_le_split(v.slots, e.deadline);
    let k = lead_le(v.slots, e.deadline) as int;
    let s2 = slots_inserted(v.slots, e);
    assert forall|i: int, j: int| 0 <= i < j < s2.len() implies s2[i].deadline
        <= s2[j].deadline by {
        if j < k {
        } else if j == k {
        } else if i < k {
        } else if i == k {
        } else {
        }
    }
}

impl WheelTimer {
    /// The timer is well-formed.
    pub open spec fn wf(&self) -> bool {
        timer_wf(self@)
    }

    /// A timer at virtual time 0 with no entries.
    pub fn new() -> (r: WheelTimer)
        ensures
            r.wf(),
            r@.time == 0,
            r@.slots == Seq::<TimerSlot>::empty(),
    {
        WheelTimer { time: 0, slots: Vec::new() }
    }

    /// A timer at virtual time `now_ms` (milliseconds since the Unix
    /// epoch) with no entries.
    pub fn at(now_ms: u128) -> (r: WheelTimer)
        ensures
            r.wf(),
            r@.time == now_ms,
            r@.slots == Seq::<TimerSlot>::empty(),
    {
        WheelTimer { time: now_ms, slots: Vec::new() }
    }

    /// A timer for entries run by closures: at time 0, empty.
    pub fn for_closures() -> (r: WheelTimer)
        ensures
            r.wf(),
            r@.time == 0,
            r@.slots == Seq::<TimerSlot>::empty(),
    {
        WheelTimer::new()
    }

    /// A timer for entries with uuid ids run by closures: at time 0, empty.
    pub fn for_uuid_closures() -> (r: WheelTimer)
        ensures
            r.wf(),
            r@.time == 0,
            r@.slots == Seq::<TimerSlot>::empty(),
    {
        WheelTimer::new()
    }

    /// The current virtual time in milliseconds.
    pub fn current_time(&self) -> (r: u128)
        ensures
            r == self@.time,
    {
        self.time
    }

    /// Whether no entry is left.
    pub fn is_empty(&self) -> (r: bool)
        ensures
            r == (self@.slots.len() == 0),
    {
        self.slots.len() == 0
    }

    fn insert_slot(&mut self, e: TimerSlot)
        requires
            old(self).wf(),
            e.deadline > old(self)@.time,
        ensures
            final(self).wf(),
            final(self)@ == (TimerView {
                time: old(self)@.time,
                slots: slots_inserted(old(self)@.slots, e),
            }),
    {
        proof {
            lemma_insert_wf(self@, e);
        }
        let ghost s = self.slots@;
        let mut i: usize = 0;
        let n = self.slots.len();
        while i < n && self.slots[i].deadline <= e.deadline
            invariant
                n == s.len(),
                self.slots@ == s,
                i <= n,
                forall|j: int| 0 <= j < i ==> s[j].deadline <= e.deadline,
            decreases n - i,
        {
            i = i + 1;
        }
        proof {
            lemma_lead_le_skip(s, e.deadline, i as int);
            if i < n {
                assert(s.skip(i as int)[0] == s[i as int]);
            }
        }
        self.slots.insert(i, e);
    }

    /// Schedules the one-shot entry `id` to expire `timeout_ms` ms from now.
    /// A zero timeout expires at once: nothing is scheduled and `false`
    /// tells the caller to run the entry now.
    pub fn schedule_once(&mut self, id: u128, timeout_ms: u64) -> (scheduled: bool)
        requires
            old(self).wf(),
            old(self)@.time <= MAX_SCHEDULE_TIME,
        ensures
            final(self).wf(),
            scheduled == (timeout_ms > 0),
            final(self)@ == if scheduled {
                TimerView {
                    time: old(self)@.time,
                    slots: slots_inserted(
                        old(self)@.slots,
                        TimerSlot { id, deadline: (old(self)@.time + timeout_ms) as u128, period: None },
                    ),
                }
            } else {
                old(self)@
            },
    {
        if timeout_ms == 0 {
            return false;
        }
        let e = TimerSlot { id, deadline: self.time + timeout_ms as u128, period: None };
        self.insert_slot(e);
        true
    }

    /// Schedules the periodic entry `id` to expire `delay_ms` ms from now
    /// and then every `period_ms` ms. A zero delay expires at once: nothing
    /// is scheduled and `false` tells the caller to run the entry now (and
    /// to [`reschedule`](WheelTimer::reschedule) it if it wants to run
    /// again).
    pub fn schedule_periodic(&mut self, id: u128, delay_ms: u64, period_ms: u64) -> (scheduled: bool)
        requires
            old(self).wf(),
            old(self)@.time <= MAX_SCHEDULE_TIME,
        ensures
            final(self).wf(),
            scheduled == (delay_ms > 0),
            final(self)@ == if scheduled {
                TimerView {
                    time: old(self)@.time,
                    slots: slots_inserted(
                        old(self)@.slots,
                        TimerSlot {
                            id,
                            deadline: (old(self)@.time + delay_ms) as u128,
                            period: Some(period_ms),
                        },
                    ),
                }
            } else {
                old(self)@
            },
    {
        if delay_ms == 0 {
            return false;
        }
        let e = TimerSlot { id, deadline: self.time + delay_ms as u128, period: Some(period_ms) };
        self.insert_slot(e);
        true
    }
}


proof fn lemma_without_wf(v: TimerView, id: u128)
    requires
        timer_wf(v),
    ensures
        timer_wf(TimerView { time: v.time, slots: slots_without(v.slots, id) }),
        forall|i: int| 0 <= i < slots_without(v.slots, id).len() ==> (exists|j: int|
            0 <= j < v.slots.len() && #[trigger] slots_without(v.slots, id)[i] == v.slots[j]),
    decreases v.slots.len(),
{
    let s = v.slots;
    if s.len() > 0 {
        let r = s.drop_last();
        let v2 = TimerView { time: v.time, slots: r };
        assert(timer_wf(v2)) by {
            assert forall|i: int, j: int| 0 <= i < j < r.len() implies r[i].deadline
                <= r[j].deadline by {
                assert(s[i] == r[i] && s[j] == r[j]);
            }
            assert forall|i: int| 0 <= i < r.len() implies r[i].deadline > v.time by {
                assert(s[i] == r[i]);
            }
        }
        lemma_without_wf(v2, id);
        let w = slots_without(r, id);
        assert forall|i: int| 0 <= i < w.len() implies (exists|j: int|
            0 <= j < s.len() && #[trigger] w[i] == s[j]) by {
            let j = choose|j: int| 0 <= j < r.len() && w[i] == r[j];
            assert(r[j] == s[j]);
        }
        if s.last().id != id {
            let w2 = w.push(s.last());
            assert forall|i: int, j: int| 0 <= i < j < w2.len() implies w2[i].deadline
                <= w2[j].deadline by {
                if j == w.len() {
                    let k = choose|k: int| 0 <= k < s.len() && w[i] == s[k];
                    assert(w2[i] == s[k]);
                    assert(s[k].deadline <= s[s.len() - 1].deadline);
                }
            }
            assert forall|i: int| 0 <= i < w2.len() implies (exists|j: int|
                0 <= j < s.len() && #[trigger] w2[i] == s[j]) by {
                if i == w.len() {
                    assert(w2[i] == s[s.len() - 1]);
                } else {
                    assert(w2[i] == w[i]);
                }
            }
        }
    }
}

impl WheelTimer {
    /// Advances virtual time by `d_ms` ms (taken modulo 2^32, as a 32-bit
    /// count of milliseconds) and takes out the entries that expire by the
    /// new time, in order of deadline.
    pub fn update(&mut self, d_ms: u128) -> (fired: Vec<TimerSlot>)
        requires
            old(self).wf(),
            old(self)@.time <= MAX_SCHEDULE_TIME,
        ensures
            final(self).wf(),
            fired@ == fired_slots(old(self)@, (d_ms % 4294967296) as nat),
            final(self)@ == after_update(old(self)@, (d_ms % 4294967296) as nat),
    {
        let ghost v = self@;
        let ghost s = self.slots@;
        let delta: u32 = (d_ms % 4294967296) as u32;
        let n = self.slots.len();
        let target: u128 = self.time + delta as u128;
        assert(target == update_target(v, delta as nat));
        proof {
            lemma_lead_le_split(s, target);
        }
        let mut fired: Vec<TimerSlot> = Vec::new();
        let mut i: usize = 0;
        while i < n && self.slots[i].deadline <= target
            invariant
                n == s.len(),
                self.slots@ == s,
                i <= n,
                fired@ == s.take(i as int),
                forall|j: int| 0 <= j < i ==> s[j].deadline <= target,
            decreases n - i,
        {
            fired.push(self.slots[i]);
            i = i + 1;
            assert(fired@ =~= s.take(i as int));
        }
        proof {
            lemma_lead_le_skip(s, target, i as int);
            if i < n {
                assert(s.skip(i as int)[0] == s[i as int]);
            }
        }
        let mut rest: Vec<TimerSlot> = Vec::new();
        let mut j: usize = i;
        while j < n
            invariant
                n == s.len(),
                self.slots@ == s,
                i <= j <= n,
                rest@ == s.subrange(i as int, j as int),
            decreases n - j,
        {
            rest.push(self.slots[j]);
            j = j + 1;
            assert(rest@ =~= s.subrange(i as int, j as int));
        }
        assert(rest@ =~= s.skip(i as int));
        proof {
            if n > 0 {
                assert(s[n - 1].deadline > v.time);
            }
            assert forall|a: int, b: int| 0 <= a < b < rest@.len() implies rest@[a].deadline
                <= rest@[b].deadline by {
                assert(rest@[a] == s[a + i] && rest@[b] == s[b + i]);
            }
            assert forall|a: int| 0 <= a < rest@.len() implies rest@[a].deadline > target by {
                assert(rest@[a] == s[a + i]);
            }
        }
        self.time = target;
        self.slots = rest;
        fired
    }

    /// Puts each periodic entry of `list` back, due one period from now, in
    /// turn.
    pub fn reschedule(&mut self, list: Vec<TimerSlot>)
        requires
            old(self).wf(),
            old(self)@.time <= MAX_SCHEDULE_TIME,
            forall|i: int| 0 <= i < list@.len() ==> reschedulable(#[trigger] list@[i]),
        ensures
            final(self).wf(),
            final(self)@ == (TimerView {
                time: old(self)@.time,
                slots: slots_rescheduled(old(self)@.slots, old(self)@.time, list@),
            }),
    {
        let ghost s = self.slots@;
        let mut i: usize = 0;
        while i < list.len()
            invariant
                i <= list@.len(),
                self.wf(),
                self@.time == old(self)@.time,
                self@.time <= MAX_SCHEDULE_TIME,
                forall|k: int| 0 <= k < list@.len() ==> reschedulable(#[trigger] list@[k]),
                self@.slots == slots_rescheduled(s, self@.time, list@.take(i as int)),
            decreases list.len() - i,
        {
            let e = list[i];
            let p: u64 = match e.period {
                Some(p) => p,
                None => 0,
            };
            let next = TimerSlot { id: e.id, deadline: self.time + p as u128, period: e.period };
            assert(list@.take(i + 1).drop_last() =~= list@.take(i as int));
            assert(list@.take(i + 1).last() == e);
            self.insert_slot(next);
            i = i + 1;
        }
        assert(list@.take(list@.len() as int) =~= list@);
    }

    /// Removes the entries of id `id`; tells whether there was one.
    pub fn cancel(&mut self, id: u128) -> (found: bool)
        requires
            old(self).wf(),
        ensures
            final(self).wf(),
            found == exists|i: int| 0 <= i < old(self)@.slots.len() && old(self)@.slots[i].id == id,
            final(self)@ == (TimerView {
                time: old(self)@.time,
                slots: slots_without(old(self)@.slots, id),
            }),
    {
        let ghost s = self.slots@;
        proof {
            lemma_without_wf(self@, id);
        }
        let mut kept: Vec<TimerSlot> = Vec::new();
        let mut found = false;
        let mut i: usize = 0;
        let n = self.slots.len();
        while i < n
            invariant
                n == s.len(),
                self.slots@ == s,
                i <= n,
                kept@ == slots_without(s.take(i as int), id),
                found == exists|k: int| 0 <= k < i && s[k].id == id,
            decreases n - i,
        {
            let e = self.slots[i];
            assert(s.take(i + 1).drop_last() =~= s.take(i as int));
            assert(s.take(i + 1).last() == e);
            if e.id == id {
                found = true;
            } else {
                kept.push(e);
            }
            i = i + 1;
        }
        assert(s.take(n as int) =~= s);
        self.slots = kept;
        found
    }
}


/// Advancing time splits the entries of a well-formed timer: those that
/// expire come out in order and are due by the new time, the others stay
/// and are due after it; none is lost. Time advances by exactly the step.
pub proof fn law_update_partition(v: TimerView, delta: nat)
    requires
        timer_wf(v),
        v.time + delta <= u128::MAX,
    ensures
        fired_slots(v, delta) + after_update(v, delta).slots == v.slots,
        forall|i: int| 0 <= i < fired_slots(v, delta).len() ==> #[trigger] fired_slots(
            v,
            delta,
        )[i].deadline <= after_update(v, delta).time,
        timer_wf(after_update(v, delta)),
        after_update(v, delta).time == v.time + delta,
{
    let t = update_target(v, delta);
    if v.slots.len() > 0 {
        assert(v.slots.last().deadline > v.time);
    }
    lemma_lead_le_split(v.slots, t as u128);
    let k = lead_le(v.slots, t as u128) as int;
    assert(v.slots.take(k) + v.slots.skip(k) =~= v.slots);
    let a = after_update(v, delta);
    assert forall|i: int, j: int| 0 <= i < j < a.slots.len() implies a.slots[i].deadline
        <= a.slots[j].deadline by {
        assert(a.slots[i] == v.slots[i + k] && a.slots[j] == v.slots[j + k]);
    }
    assert forall|i: int| 0 <= i < a.slots.len() implies a.slots[i].deadline > a.time by {
        assert(a.slots[i] == v.slots[i + k]);
    }
}

/// An entry scheduled `d` ms ahead expires in a step of at least `d` ms,
/// and stays in the timer after a shorter step.
pub proof fn law_entry_fires_at_deadline(v: TimerView, e: TimerSlot, d: nat, delta: nat)
    requires
        timer_wf(v),
        d > 0,
        e.deadline == v.time + d,
        v.time + delta <= u128::MAX,
    ensures
        d <= delta ==> fired_slots(
            TimerView { time: v.time, slots: slots_inserted(v.slots, e) },
            delta,
        ).contains(e),
        d > delta ==> after_update(
            TimerView { time: v.time, slots: slots_inserted(v.slots, e) },
            delta,
        ).slots.contains(e),
{
    lemma_insert_wf(v, e);
    let w = TimerView { time: v.time, slots: slots_inserted(v.slots, e) };
    lemma_lead_le_split(v.slots, e.deadline);
    let pos = lead_le(v.slots, e.deadline) as int;
    assert(w.slots[pos] == e);
    let t = update_target(w, delta);
    assert(w.slots[pos].deadline <= w.slots.last().deadline);
    lemma_lead_le_split(w.slots, t as u128);
    let k = lead_le(w.slots, t as u128) as int;
    if d <= delta {
        assert(e.deadline <= t);
        assert(pos < k);
        assert(fired_slots(w, delta)[pos] == e);
    } else {
        assert(t < e.deadline);
        assert(pos >= k);
        assert(after_update(w, delta).slots[pos - k] == e);
    }
}

proof fn lemma_lead_le_bound(s: Seq<TimerSlot>, t: u128)
    ensures
        lead_le(s, t) <= s.len(),
    decreases s.len(),
{
    if s.len() > 0 && s[0].deadline <= t {
        lemma_lead_le_bound(s.drop_first(), t);
    }
}

/// Placing an entry keeps every entry that was there and adds exactly that
/// one.
pub proof fn law_insert_keeps_entries(s: Seq<TimerSlot>, e: TimerSlot)
    ensures
        slots_inserted(s, e).len() == s.len() + 1,
        slots_inserted(s, e).contains(e),
        forall|i: int| 0 <= i < s.len() ==> slots_inserted(s, e).contains(#[trigger] s[i]),
{
    lemma_lead_le_bound(s, e.deadline);
    let k = lead_le(s, e.deadline) as int;
    let r = slots_inserted(s, e);
    assert(r[k] == e);
    assert forall|i: int| 0 <= i < s.len() implies r.contains(#[trigger] s[i]) by {
        if i < k {
            assert(r[i] == s[i]);
        } else {
            assert(r[i + 1] == s[i]);
        }
    }
}

/// Rescheduling a list of entries at time `time` keeps every entry that was
/// there and adds one entry per listed entry, with the same id and the same
/// period, due one period after `time`: only the deadline moves.
pub proof fn law_reschedule_keeps_entries(s: Seq<TimerSlot>, time: u128, list: Seq<TimerSlot>)
    ensures
        slots_rescheduled(s, time, list).len() == s.len() + list.len(),
        forall|i: int| 0 <= i < s.len() ==> slots_rescheduled(s, time, list).contains(
            #[trigger] s[i],
        ),
        forall|i: int|
            0 <= i < list.len() ==> slots_rescheduled(s, time, list).contains(
                TimerSlot {
                    id: (#[trigger] list[i]).id,
                    deadline: (time + list[i].period.unwrap()) as u128,
                    period: list[i].period,
                },
            ),
    decreases list.len(),
{
    if list.len() > 0 {
        let l2 = list.drop_last();
        law_reschedule_keeps_entries(s, time, l2);
        let r2 = slots_rescheduled(s, time, l2);
        let n = next_slot(list.last(), time);
        law_insert_keeps_entries(r2, n);
        let r = slots_rescheduled(s, time, list);
        assert(r == slots_inserted(r2, n));
        assert forall|i: int| 0 <= i < s.len() implies r.contains(#[trigger] s[i]) by {
            assert(r2.contains(s[i]));
            let j = choose|j: int| 0 <= j < r2.len() && r2[j] == s[i];
            assert(r.contains(r2[j]));
        }
        assert forall|i: int| 0 <= i < list.len() implies r.contains(
            TimerSlot {
                id: (#[trigger] list[i]).id,
                deadline: (time + list[i].period.unwrap()) as u128,
                period: list[i].period,
            },
        ) by {
            let x = TimerSlot {
                id: list[i].id,
                deadline: (time + list[i].period.unwrap()) as u128,
                period: list[i].period,
            };
            if i == list.len() - 1 {
                assert(x == n);
            } else {
                assert(l2[i] == list[i]);
                assert(r2.contains(x));
                let j = choose|j: int| 0 <= j < r2.len() && r2[j] == x;
                assert(r.contains(r2[j]));
            }
        }
    }
}

/// After cancelling an id no entry of that id is left.
pub proof fn law_cancel_removes(s: Seq<TimerSlot>, id: u128)
    ensures
        forall|i: int| 0 <= i < slots_without(s, id).len() ==> #[trigger] slots_without(s, id)[i].id
            != id,
    decreases s.len(),
{
    if s.len() > 0 {
        law_cancel_removes(s.drop_last(), id);
        let w = slots_without(s.drop_last(), id);
        if s.last().id != id {
            assert forall|i: int| 0 <= i < w.push(s.last()).len() implies #[trigger] w.push(
                s.last(),
            )[i].id != id by {
                if i < w.len() {
                    assert(w.push(s.last())[i] == w[i]);
                }
            }
        }
    }
}

/// Cancelling an id keeps every entry of another id, and the entries left
/// are no more than before.
pub proof fn law_cancel_keeps_others(s: Seq<TimerSlot>, id: u128)
    ensures
        forall|i: int|
            0 <= i < s.len() && s[i].id != id ==> slots_without(s, id).contains(#[trigger] s[i]),
        slots_without(s, id).len() <= s.len(),
    decreases s.len(),
{
    if s.len() > 0 {
        let r = s.drop_last();
        law_cancel_keeps_others(r, id);
        let w = slots_without(r, id);
        assert forall|i: int| 0 <= i < s.len() && s[i].id != id implies slots_without(
            s,
            id,
        ).contains(#[trigger] s[i]) by {
            if i < s.len() - 1 {
                assert(s[i] == r[i]);
                assert(w.contains(r[i]));
                let j = choose|j: int| 0 <= j < w.len() && w[j] == r[i];
                if s.last().id != id {
                    assert(w.push(s.last())[j] == w[j]);
                }
            } else {
                assert(w.push(s.last())[w.len() as int] == s.last());
            }
        }
    }
}

} // verus!
