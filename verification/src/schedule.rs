use vstd::prelude::*;

verus! {

/// An entry of a schedule: the step at which it falls due, and the number
/// under which the caller knows what is to happen then.
#[derive(Debug, Clone, Copy, PartialEq, Eq, Structural)]
pub struct Scheduled {
    pub step: u32,
    pub id: u32,
}

/// One thing a tick does, in the order of the leapfrog scheme.
#[derive(Debug, Clone, Copy, PartialEq, Eq, Structural)]
pub enum TickAction {
    UpdateMagnetic,
    /// Inject the magnetic source of this number.
    ExciteMagnetic(usize),
    UpdateElectric,
    /// Inject the electric source of this number.
    ExciteElectric(usize),
}

/// The entries are in ascending order of their steps.
pub open spec fn ascending(s: Seq<Scheduled>) -> bool {
    forall|i: int, j: int| 0 <= i <= j < s.len() ==> s[i].step <= s[j].step
}

/// Every entry falls due after step `n`, and the entries are in ascending
/// order.
pub open spec fn pending(s: Seq<Scheduled>, n: int) -> bool {
    ascending(s) && forall|i: int| 0 <= i < s.len() ==> s[i].step > n
}

/// Where an entry goes into a list so that it stands behind every entry
/// that is not later than itself, searched from the end.
pub open spec fn insert_place(s: Seq<Scheduled>, e: Scheduled) -> int
    decreases s.len(),
{
    if s.len() == 0 {
        0
    } else if s.last().step <= e.step {
        s.len() as int
    } else {
        insert_place(s.drop_last(), e)
    }
}

/// The list ordered by step; entries of one step keep their order.
pub open spec fn by_step(s: Seq<Scheduled>) -> Seq<Scheduled>
    decreases s.len(),
{
    if s.len() == 0 {
        s
    } else {
        let front = by_step(s.drop_last());
        front.insert(insert_place(front, s.last()), s.last())
    }
}

/// Number of entries at the head of a list that fall due at step `n`.
pub open spec fn due(s: Seq<Scheduled>, n: int) -> nat
    decreases s.len(),
{
    if s.len() > 0 && s[0].step == n {
        1 + due(s.drop_first(), n)
    } else {
        0
    }
}

/// The schedule left after `k` ticks that begin at step `n`.
pub open spec fn after_ticks(s: Seq<Scheduled>, n: int, k: nat) -> Seq<Scheduled>
    decreases k,
{
    if k == 0 {
        s
    } else {
        after_ticks(s.skip(due(s, n + 1) as int), n + 1, (k - 1) as nat)
    }
}

/// The place found for an entry lies in the list, everything from there on
/// is later than the entry, and what stands just before is not.
pub proof fn lemma_insert_place(s: Seq<Scheduled>, e: Scheduled)
    ensures
        0 <= insert_place(s, e) <= s.len(),
        forall|i: int| insert_place(s, e) <= i < s.len() ==> s[i].step > e.step,
        insert_place(s, e) > 0 ==> s[insert_place(s, e) - 1].step <= e.step,
    decreases s.len(),
{
    if s.len() > 0 && s.last().step > e.step {
        let front = s.drop_last();
        lemma_insert_place(front, e);
        assert forall|i: int| insert_place(s, e) <= i < s.len() implies s[i].step > e.step by {
            if i < front.len() {
                assert(front[i] == s[i]);
            }
        }
        if insert_place(s, e) > 0 {
            assert(front[insert_place(s, e) - 1] == s[insert_place(s, e) - 1]);
        }
    }
}

/// Ordering a list by step gives an ascending list of the same entries.
pub proof fn lemma_by_step_ascending(s: Seq<Scheduled>)
    ensures
        ascending(by_step(s)),
        by_step(s).len() == s.len(),
        by_step(s).to_multiset() == s.to_multiset(),
    decreases s.len(),
{
    broadcast use vstd::seq_lib::group_to_multiset_ensures;

    if s.len() > 0 {
        let front = by_step(s.drop_last());
        let e = s.last();
        let p = insert_place(front, e);
        lemma_by_step_ascending(s.drop_last());
        lemma_insert_place(front, e);
        let out = front.insert(p, e);
        assert forall|i: int, j: int| 0 <= i <= j < out.len() implies out[i].step
            <= out[j].step by {
            if p > 0 {
                assert(front[p - 1].step <= e.step);
            }
            if i < p && j > p {
                assert(front[i].step <= front[j - 1].step);
            } else if i < p && j == p {
                assert(front[i].step <= front[p - 1].step);
            } else if i < p && j < p {
                assert(front[i].step <= front[j].step);
            } else if i > p {
                assert(front[i - 1].step <= front[j - 1].step);
            }
        }
        assert(s == s.drop_last().push(e));
        assert(out.remove(p) =~= front);
        assert(out[p] == e);
        assert(out.contains(e));
        assert(out.to_multiset().count(e) > 0);
        assert(out.to_multiset() =~= front.to_multiset().insert(e));
    }
}

/// Ordering a list by step keeps every entry later than `n` if all were.
pub proof fn lemma_by_step_pending(s: Seq<Scheduled>, n: int)
    requires
        forall|i: int| 0 <= i < s.len() ==> s[i].step > n,
    ensures
        pending(by_step(s), n),
{
    broadcast use vstd::seq_lib::group_to_multiset_ensures;

    lemma_by_step_ascending(s);
    let out = by_step(s);
    assert forall|i: int| 0 <= i < out.len() implies out[i].step > n by {
        assert(out.contains(out[i]));
        assert(out.to_multiset().count(out[i]) > 0);
        assert(s.to_multiset().count(out[i]) > 0);
        assert(s.contains(out[i]));
    }
}

/// The entries counted as due stand at the head and fall due at that step;
/// the entry behind them, if any, does not.
pub proof fn lemma_due(s: Seq<Scheduled>, n: int)
    ensures
        due(s, n) <= s.len(),
        forall|i: int| 0 <= i < due(s, n) ==> s[i].step == n,
        due(s, n) < s.len() ==> s[due(s, n) as int].step != n,
    decreases s.len(),
{
    if s.len() > 0 && s[0].step == n {
        let rest = s.drop_first();
        lemma_due(rest, n);
        assert forall|i: int| 0 <= i < due(s, n) implies s[i].step == n by {
            if i > 0 {
                assert(s[i] == rest[i - 1]);
            }
        }
        if due(s, n) < s.len() {
            assert(s[due(s, n) as int] == rest[due(rest, n) as int]);
        }
    }
}

/// One tick of a schedule whose entries are ascending and all later than the
/// current step takes exactly the entries of the new step, from the head and
/// in their order, and leaves a schedule of the same kind: nothing is passed
/// over and nothing comes out of turn.
pub proof fn lemma_tick_takes_exactly_the_due(s: Seq<Scheduled>, n: int)
    requires
        pending(s, n),
    ensures
        forall|i: int| 0 <= i < s.len() ==> (s[i].step == n + 1 <==> i < due(s, n + 1)),
        pending(s.skip(due(s, n + 1) as int), n + 1),
{
    lemma_due(s, n + 1);
    let k = due(s, n + 1) as int;
    assert forall|i: int| 0 <= i < s.len() implies (s[i].step == n + 1 <==> i < k) by {
        if i >= k {
            assert(s[k].step <= s[i].step);
            assert(s[k].step > n);
        }
    }
    let rest = s.skip(k);
    assert forall|i: int, j: int| 0 <= i <= j < rest.len() implies rest[i].step
        <= rest[j].step by {
        assert(s[i + k].step <= s[j + k].step);
    }
    assert forall|i: int| 0 <= i < rest.len() implies rest[i].step > n + 1 by {
        assert(s[k].step <= s[i + k].step);
        assert(s[i + k].step > n);
    }
}

/// After any number of ticks a schedule whose entries were ascending and all
/// later than the starting step has lost a head part of itself, namely every
/// entry that fell due by then, and kept the rest in order.
pub proof fn lemma_schedule_consumed_in_order(s: Seq<Scheduled>, n: int, k: nat)
    requires
        pending(s, n),
    ensures
        pending(after_ticks(s, n, k), n + k),
        exists|taken: int|
            0 <= taken <= s.len() && after_ticks(s, n, k) == s.skip(taken) && forall|i: int|
                0 <= i < s.len() ==> (#[trigger] s[i].step <= n + k <==> i < taken),
    decreases k,
{
    if k == 0 {
        assert(s.skip(0) == s);
        assert(after_ticks(s, n, k) == s.skip(0) && forall|i: int|
            0 <= i < s.len() ==> (#[trigger] s[i].step <= n + k <==> i < 0));
    } else {
        lemma_tick_takes_exactly_the_due(s, n);
        lemma_due(s, n + 1);
        let first = due(s, n + 1) as int;
        let rest = s.skip(first);
        lemma_schedule_consumed_in_order(rest, n + 1, (k - 1) as nat);
        let more = choose|taken: int|
            0 <= taken <= rest.len() && after_ticks(rest, n + 1, (k - 1) as nat) == rest.skip(taken)
                && forall|i: int|
                0 <= i < rest.len() ==> (#[trigger] rest[i].step <= n + k <==> i < taken);
        let taken = first + more;
        assert(rest.skip(more) == s.skip(taken));
        assert forall|i: int| 0 <= i < s.len() implies (#[trigger] s[i].step <= n + k <==> i
            < taken) by {
            if i >= first {
                assert(rest[i - first] == s[i]);
            }
        }
        assert(0 <= taken <= s.len() && after_ticks(s, n, k) == s.skip(taken) && forall|i: int|
            0 <= i < s.len() ==> (#[trigger] s[i].step <= n + k <==> i < taken));
    }
}

/// Orders a schedule by step; entries of one step keep their order.
pub fn sort_schedule(entries: Vec<Scheduled>) -> (out: Vec<Scheduled>)
    ensures
        out@ == by_step(entries@),
        ascending(out@),
        out@.to_multiset() == entries@.to_multiset(),
{
    let mut out: Vec<Scheduled> = Vec::new();
    let mut i: usize = 0;
    assert(entries@.take(0) =~= Seq::<Scheduled>::empty());
    while i < entries.len()
        invariant
            i <= entries.len(),
            out@ == by_step(entries@.take(i as int)),
        decreases entries.len() - i,
    {
        let e = entries[i];
        let mut p: usize = out.len();
        proof {
            lemma_by_step_ascending(entries@.take(i as int));
            assert(out@.take(p as int) == out@);
        }
        while p > 0 && out[p - 1].step > e.step
            invariant
                p <= out.len(),
                insert_place(out@, e) == insert_place(out@.take(p as int), e),
            decreases p,
        {
            proof {
                assert(out@.take(p as int).drop_last() == out@.take(p - 1));
            }
            p = p - 1;
        }
        proof {
            if p > 0 {
                assert(out@.take(p as int).last() == out@[p - 1]);
            }
            assert(insert_place(out@, e) == p);
            let now = entries@.take(i + 1);
            assert(now.drop_last() == entries@.take(i as int));
            assert(now.last() == e);
        }
        out.insert(p, e);
        i = i + 1;
    }
    proof {
        assert(entries@.take(entries.len() as int) == entries@);
        lemma_by_step_ascending(entries@);
    }
    out
}

/// What a tick does: the magnetic update, the magnetic sources in the order
/// of their declaration, the electric update, the electric sources.
pub open spec fn spec_tick_actions(magnetic: nat, electric: nat) -> Seq<TickAction> {
    seq![TickAction::UpdateMagnetic] + Seq::new(
        magnetic,
        |i: int| TickAction::ExciteMagnetic(i as usize),
    ) + seq![TickAction::UpdateElectric] + Seq::new(
        electric,
        |i: int| TickAction::ExciteElectric(i as usize),
    )
}

/// Within a tick the magnetic update stands first, every magnetic source
/// between it and the electric update, and every electric source behind
/// that.
pub proof fn lemma_tick_order(magnetic: nat, electric: nat, i: int, j: int)
    requires
        0 <= i < magnetic,
        0 <= j < electric,
        magnetic <= usize::MAX,
        electric <= usize::MAX,
    ensures
        spec_tick_actions(magnetic, electric).len() == magnetic + electric + 2,
        spec_tick_actions(magnetic, electric)[0] == TickAction::UpdateMagnetic,
        spec_tick_actions(magnetic, electric)[1 + i] == TickAction::ExciteMagnetic(i as usize),
        spec_tick_actions(magnetic, electric)[1 + magnetic as int] == TickAction::UpdateElectric,
        spec_tick_actions(magnetic, electric)[2 + magnetic as int + j] == TickAction::ExciteElectric(
            j as usize,
        ),
{
}

/// The actions of one tick for the given numbers of magnetic and electric
/// sources.
pub fn tick_actions(magnetic: usize, electric: usize) -> (out: Vec<TickAction>)
    ensures
        out@ == spec_tick_actions(magnetic as nat, electric as nat),
{
    let mut out: Vec<TickAction> = Vec::new();
    out.push(TickAction::UpdateMagnetic);
    let mut i: usize = 0;
    while i < magnetic
        invariant
            i <= magnetic,
            out@ == seq![TickAction::UpdateMagnetic] + Seq::new(
                i as nat,
                |k: int| TickAction::ExciteMagnetic(k as usize),
            ),
        decreases magnetic - i,
    {
        out.push(TickAction::ExciteMagnetic(i));
        i = i + 1;
        assert(out@ =~= seq![TickAction::UpdateMagnetic] + Seq::new(
            i as nat,
            |k: int| TickAction::ExciteMagnetic(k as usize),
        ));
    }
    out.push(TickAction::UpdateElectric);
    let ghost head = out@;
    let mut j: usize = 0;
    assert(out@ =~= head + Seq::new(0, |k: int| TickAction::ExciteElectric(k as usize)));
    while j < electric
        invariant
            j <= electric,
            head == seq![TickAction::UpdateMagnetic] + Seq::new(
                magnetic as nat,
                |k: int| TickAction::ExciteMagnetic(k as usize),
            ) + seq![TickAction::UpdateElectric],
            out@ == head + Seq::new(j as nat, |k: int| TickAction::ExciteElectric(k as usize)),
        decreases electric - j,
    {
        out.push(TickAction::ExciteElectric(j));
        j = j + 1;
        assert(out@ =~= head + Seq::new(j as nat, |k: int| TickAction::ExciteElectric(k as usize)));
    }
    out
}

/// The simulation clock: the step counter, the pause state, the two
/// schedules, and the pacing of ticks against the wall clock.
#[derive(Debug, Clone, PartialEq, Eq)]
pub struct Driver {
    pub step: u32,
    pub paused: bool,
    pub pause_at: Vec<Scheduled>,
    pub exports: Vec<Scheduled>,
    /// Wall-clock time gathered toward the next tick, in nanoseconds.
    pub elapsed: u64,
    /// Least wall-clock time between two ticks, in nanoseconds.
    pub period: u64,
}

/// Whether the time gathered so far together with `delta` more reaches the
/// tick period.
pub open spec fn tick_due(elapsed: int, delta: int, period: int) -> bool {
    elapsed + delta >= period
}

/// The time that stays gathered once `delta` has been added: what is left
/// over after whole periods are taken out.
pub open spec fn carried_over(elapsed: int, delta: int, period: int) -> int {
    if period <= 0 {
        0
    } else if elapsed + delta >= period {
        (elapsed + delta) % period
    } else {
        elapsed + delta
    }
}

fn take_due(schedule: &mut Vec<Scheduled>, n: u32) -> (taken: Vec<Scheduled>)
    ensures
        taken@.len() == due(old(schedule)@, n as int),
        taken@ == old(schedule)@.take(due(old(schedule)@, n as int) as int),
        final(schedule)@ == old(schedule)@.skip(due(old(schedule)@, n as int) as int),
{
    let mut taken: Vec<Scheduled> = Vec::new();
    proof {
        lemma_due(old(schedule)@, n as int);
        assert(old(schedule)@.skip(0) == old(schedule)@);
    }
    while schedule.len() > 0 && schedule[0].step == n
        invariant
            taken@.len() + due(schedule@, n as int) == due(old(schedule)@, n as int),
            taken@.len() <= old(schedule)@.len(),
            taken@ == old(schedule)@.take(taken@.len() as int),
            schedule@ == old(schedule)@.skip(taken@.len() as int),
        decreases schedule.len(),
    {
        let ghost before = schedule@;
        let ghost k = taken@.len() as int;
        let e = schedule.remove(0);
        taken.push(e);
        proof {
            assert(before.remove(0) == before.drop_first());
            assert(schedule@ == old(schedule)@.skip(k + 1));
            assert(e == old(schedule)@[k]);
            assert(taken@ == old(schedule)@.take(k + 1));
        }
    }
    taken
}

impl Driver {
    /// Both schedules are ascending and hold only entries that fall due
    /// after the current step: every entry will be met, in its turn.
    pub open spec fn wf(&self) -> bool {
        pending(self.pause_at@, self.step as int) && pending(self.exports@, self.step as int)
    }

    /// A driver at step zero, running, with both schedules ordered by step
    /// and no time gathered.
    pub fn new(pause_at: Vec<Scheduled>, exports: Vec<Scheduled>, period: u64) -> (r: Driver)
        ensures
            r.step == 0,
            !r.paused,
            r.pause_at@ == by_step(pause_at@),
            r.exports@ == by_step(exports@),
            r.elapsed == 0,
            r.period == period,
            ascending(r.pause_at@),
            ascending(r.exports@),
            (forall|i: int| 0 <= i < pause_at@.len() ==> pause_at@[i].step > 0) && (forall|i: int|
                0 <= i < exports@.len() ==> exports@[i].step > 0) ==> r.wf(),
    {
        proof {
            if (forall|i: int| 0 <= i < pause_at@.len() ==> pause_at@[i].step > 0) && (forall|
                i: int,
            | 0 <= i < exports@.len() ==> exports@[i].step > 0) {
                lemma_by_step_pending(pause_at@, 0);
                lemma_by_step_pending(exports@, 0);
            }
        }
        Driver {
            step: 0,
            paused: false,
            pause_at: sort_schedule(pause_at),
            exports: sort_schedule(exports),
            elapsed: 0,
            period,
        }
    }

    /// Adds `delta` nanoseconds of wall-clock time and says whether a tick is
    /// to run now: the gathered time must reach the period, of which whole
    /// multiples are then taken out, and the driver must not be paused.
    pub fn poll(&mut self, delta: u64) -> (run: bool)
        ensures
            run == (tick_due(old(self).elapsed as int, delta as int, old(self).period as int)
                && !old(self).paused),
            *final(self) == (Driver {
                elapsed: carried_over(
                    old(self).elapsed as int,
                    delta as int,
                    old(self).period as int,
                ) as u64,
                ..*old(self)
            }),
    {
        let total: u128 = self.elapsed as u128 + delta as u128;
        let due = total >= self.period as u128;
        if self.period == 0 {
            self.elapsed = 0;
        } else if due {
            self.elapsed = (total % (self.period as u128)) as u64;
        } else {
            self.elapsed = total as u64;
        }
        due && !self.paused
    }

    /// Ends a tick: the step counter advances; the pause entries that fall
    /// due at the new step leave their schedule and pause the driver; the
    /// export entries that fall due leave theirs and are returned, in order,
    /// to be carried out, and the gathered time starts anew after them. A
    /// paused driver does not tick: nothing changes.
    pub fn advance(&mut self) -> (exports: Vec<Scheduled>)
        requires
            old(self).step < u32::MAX,
        ensures
            old(self).paused ==> *final(self) == *old(self) && exports@.len() == 0,
            !old(self).paused ==> {
                let n = old(self).step + 1;
                &&& final(self).step == n
                &&& final(self).pause_at@ == old(self).pause_at@.skip(
                    due(old(self).pause_at@, n) as int,
                )
                &&& final(self).paused == (due(old(self).pause_at@, n) > 0)
                &&& final(self).exports@ == old(self).exports@.skip(
                    due(old(self).exports@, n) as int,
                )
                &&& exports@ == old(self).exports@.take(due(old(self).exports@, n) as int)
                &&& final(self).period == old(self).period
                &&& final(self).elapsed == (if due(old(self).exports@, n) > 0 {
                    0
                } else {
                    old(self).elapsed
                })
            },
            old(self).wf() ==> final(self).wf(),
    {
        if self.paused {
            return Vec::new();
        }
        proof {
            if self.wf() {
                lemma_tick_takes_exactly_the_due(self.pause_at@, self.step as int);
                lemma_tick_takes_exactly_the_due(self.exports@, self.step as int);
            }
        }
        self.step = self.step + 1;
        let pauses = take_due(&mut self.pause_at, self.step);
        if pauses.len() > 0 {
            self.paused = true;
        }
        let exports = take_due(&mut self.exports, self.step);
        if exports.len() > 0 {
            self.elapsed = 0;
        }
        exports
    }

    /// Lets a paused driver run again, with no time gathered.
    pub fn resume(&mut self)
        ensures
            *final(self) == (Driver { paused: false, elapsed: 0, ..*old(self) }),
    {
        self.paused = false;
        self.elapsed = 0;
    }

    /// Pauses a running driver; lets a paused one run again, with no time
    /// gathered.
    pub fn toggle_pause(&mut self)
        ensures
            *final(self) == (Driver {
                paused: !old(self).paused,
                elapsed: if old(self).paused {
                    0
                } else {
                    old(self).elapsed
                },
                ..*old(self)
            }),
    {
        self.paused = !self.paused;
        if !self.paused {
            self.elapsed = 0;
        }
    }

    /// Whether both schedules are used up, which ends a run without a window.
    pub fn is_drained(&self) -> (r: bool)
        ensures
            r == (self.pause_at@.len() == 0 && self.exports@.len() == 0),
    {
        self.pause_at.len() == 0 && self.exports.len() == 0
    }
}

} // verus!
