//! The cooperative scheduler and its thread registry.
//!
//! A logical thread wraps one suspendable program: a sequence of work
//! steps and suspension points, advanced by polling. Each tick the
//! scheduler drains the thread-addition queue, polls every running
//! thread exactly once in registry order, removes the completed
//! threads, and sweeps out the sprites flagged for deletion together
//! with every thread they own. The suspension primitives are explicit
//! state machines: a yield suspends on its first poll and resolves on
//! the second — one tick of latency, never zero — and a wait suspends
//! until its deadline has passed.

use vstd::prelude::*;

use crate::hats::{StartType, StartView};
use crate::target::{Sprite, Stage};

verus! {

// ---------------------------------------------------------------------
// Suspension primitives
// ---------------------------------------------------------------------

/// The yield checkpoint's states.
#[derive(Clone, Copy, Debug, PartialEq, Eq, Structural)]
pub enum YieldState {
    Start,
    Middle,
    End,
}

/// Advance a yield checkpoint one poll: the first poll suspends, the
/// second resolves. Polling a resolved checkpoint is a contract
/// violation and is ruled out.
pub fn poll_yield(y: &mut YieldState) -> (done: bool)
    requires
        *old(y) != YieldState::End,
    ensures
        *old(y) == YieldState::Start ==> *final(y) == YieldState::Middle && !done,
        *old(y) == YieldState::Middle ==> *final(y) == YieldState::End && done,
{
    match *y {
        YieldState::Start => {
            *y = YieldState::Middle;
            false
        },
        YieldState::Middle => {
            *y = YieldState::End;
            true
        },
        YieldState::End => false,
    }
}

/// The wait checkpoint's states.
#[derive(Clone, Copy, Debug, PartialEq, Eq, Structural)]
pub enum WaitState {
    Start,
    Middle,
    End,
}

/// A time-boxed checkpoint: suspends until the clock reaches its
/// deadline.
#[derive(Clone, Copy, Debug, PartialEq, Eq, Structural)]
pub struct Wait {
    pub state: WaitState,
    pub deadline: u64,
}

/// The deadline a wait of the given duration gets at the given time,
/// saturating at the clock's end.
pub open spec fn spec_deadline(now: u64, duration: u64) -> u64 {
    if now + duration > u64::MAX {
        u64::MAX
    } else {
        (now + duration) as u64
    }
}

impl Wait {
    /// A fresh wait of the given duration, counted from now.
    pub fn new(now: u64, duration: u64) -> (w: Wait)
        ensures
            w.state == WaitState::Start,
            w.deadline == spec_deadline(now, duration),
    {
        let deadline: u64 = if duration > u64::MAX - now {
            u64::MAX
        } else {
            now + duration
        };
        Wait { state: WaitState::Start, deadline }
    }
}

/// Advance a wait checkpoint one poll at the given time: the first
/// poll always suspends; later polls suspend until the deadline has
/// been reached, then resolve. Polling a resolved checkpoint is a
/// contract violation and is ruled out.
pub fn poll_wait(w: &mut Wait, now: u64) -> (done: bool)
    requires
        old(w).state != WaitState::End,
    ensures
        final(w).deadline == old(w).deadline,
        old(w).state == WaitState::Start ==> final(w).state == WaitState::Middle && !done,
        old(w).state == WaitState::Middle && now < old(w).deadline ==> final(w).state
            == WaitState::Middle && !done,
        old(w).state == WaitState::Middle && now >= old(w).deadline ==> final(w).state
            == WaitState::End && done,
{
    match w.state {
        WaitState::Start => {
            w.state = WaitState::Middle;
            false
        },
        WaitState::Middle => {
            if now >= w.deadline {
                w.state = WaitState::End;
                true
            } else {
                false
            }
        },
        WaitState::End => false,
    }
}

// ---------------------------------------------------------------------
// Threads
// ---------------------------------------------------------------------

/// One step of a thread's program.
#[derive(Clone, Copy, Debug, PartialEq, Eq, Structural)]
pub enum Op {
    /// Perform the work with this marker, without suspending.
    Work(u64),
    /// Suspend for exactly one tick.
    Yield,
    /// Suspend until the given duration has elapsed.
    Wait(u64),
}

/// Where a thread is suspended, if it is.
#[derive(Clone, Copy, Debug, PartialEq, Eq, Structural)]
pub enum Susp {
    /// Not suspended: the next poll runs the step at the counter.
    Idle,
    /// Suspended at a yield checkpoint.
    Yielding(YieldState),
    /// Suspended at a wait checkpoint.
    Waiting(WaitState, u64),
}

/// A logical thread: one suspendable program instance with its start
/// gating and its owning sprite.
#[derive(Debug)]
pub struct Thread {
    /// The program: steps run in order.
    pub ops: Vec<Op>,
    /// The next step to run.
    pub pc: usize,
    /// The suspension the last poll left behind.
    pub susp: Susp,
    /// Whether the start condition has fired.
    pub running: bool,
    /// Whether the program has finished; complete threads are reaped.
    pub complete: bool,
    /// What starts the thread.
    pub start: StartType,
    /// The identity of the owning sprite, if a sprite owns it.
    pub owner: Option<u64>,
    /// The work performed, as (tick, marker) records in order.
    pub log: Vec<(u64, u64)>,
}

/// A thread's counter and suspension agree with its program.
pub open spec fn wf_thread(t: Thread) -> bool {
    &&& t.pc <= t.ops@.len()
    &&& (t.susp matches Susp::Yielding(ys) ==> ys == YieldState::Middle && t.pc < t.ops@.len()
        && t.ops@[t.pc as int] == Op::Yield)
    &&& (t.susp matches Susp::Waiting(ws, dl) ==> ws == WaitState::Middle && t.pc < t.ops@.len()
        && t.ops@[t.pc as int] matches Op::Wait(_))
    &&& (t.complete ==> t.pc == t.ops@.len() && t.susp == Susp::Idle)
}

/// What one poll leaves behind: the work markers emitted, the new
/// counter and suspension, and whether the program finished.
pub struct PollOut {
    pub emits: Seq<u64>,
    pub pc: int,
    pub susp: Susp,
    pub complete: bool,
}

/// Run steps from the counter on: work steps emit their markers and
/// continue; a yield suspends at its checkpoint (already advanced to
/// its middle state by its first poll); a wait computes its deadline
/// and suspends likewise; the program completes at its end.
pub open spec fn spec_run_ops(ops: Seq<Op>, pc: int, now: u64) -> PollOut
    decreases ops.len() - pc,
{
    if pc < 0 || pc >= ops.len() {
        PollOut { emits: Seq::<u64>::empty(), pc: ops.len() as int, susp: Susp::Idle, complete: true }
    } else {
        match ops[pc] {
            Op::Work(id) => {
                let rest = spec_run_ops(ops, pc + 1, now);
                PollOut { emits: seq![id] + rest.emits, pc: rest.pc, susp: rest.susp, complete: rest.complete }
            },
            Op::Yield => PollOut {
                emits: Seq::<u64>::empty(),
                pc: pc,
                susp: Susp::Yielding(YieldState::Middle),
                complete: false,
            },
            Op::Wait(d) => PollOut {
                emits: Seq::<u64>::empty(),
                pc: pc,
                susp: Susp::Waiting(WaitState::Middle, spec_deadline(now, d)),
                complete: false,
            },
        }
    }
}

/// What one poll of a thread does at the given time: an idle thread
/// runs from its counter; a yielded thread resolves its checkpoint and
/// runs on from the next step; a waiting thread stays suspended until
/// its deadline has been reached, then runs on.
pub open spec fn spec_poll_thread(t: Thread, now: u64) -> PollOut {
    match t.susp {
        Susp::Idle => spec_run_ops(t.ops@, t.pc as int, now),
        Susp::Yielding(_) => spec_run_ops(t.ops@, t.pc + 1, now),
        Susp::Waiting(_, dl) => if now >= dl {
            spec_run_ops(t.ops@, t.pc + 1, now)
        } else {
            PollOut {
                emits: Seq::<u64>::empty(),
                pc: t.pc as int,
                susp: t.susp,
                complete: false,
            }
        },
    }
}

/// Work markers stamped with the tick they ran in.
pub open spec fn stamp(tick: u64, ids: Seq<u64>) -> Seq<(u64, u64)> {
    Seq::new(ids.len(), |i: int| (tick, ids[i]))
}

impl Thread {
    /// A fresh thread over a program: not started, not complete,
    /// nothing run yet.
    pub fn new(ops: Vec<Op>, start: StartType, owner: Option<u64>) -> (t: Thread)
        ensures
            t.ops == ops,
            t.pc == 0,
            t.susp == Susp::Idle,
            !t.running,
            !t.complete,
            t.start == start,
            t.owner == owner,
            t.log@ == Seq::<(u64, u64)>::empty(),
            wf_thread(t),
    {
        let t = Thread {
            ops,
            pc: 0,
            susp: Susp::Idle,
            running: false,
            complete: false,
            start,
            owner,
            log: Vec::new(),
        };
        t
    }
}

/// Poll one thread at the given time, recording its work under the
/// given tick: exactly one suspension step of progress.
pub fn thread_poll(t: &mut Thread, now: u64, tick: u64)
    requires
        wf_thread(*old(t)),
        !old(t).complete,
    ensures
        wf_thread(*final(t)),
        final(t).ops == old(t).ops,
        final(t).running == old(t).running,
        final(t).start == old(t).start,
        final(t).owner == old(t).owner,
        final(t).pc == spec_poll_thread(*old(t), now).pc,
        final(t).susp == spec_poll_thread(*old(t), now).susp,
        final(t).complete == spec_poll_thread(*old(t), now).complete,
        final(t).log@ == old(t).log@ + stamp(tick, spec_poll_thread(*old(t), now).emits),
{
    let ghost out = spec_poll_thread(*old(t), now);
    let n = t.ops.len();
    proof {
        assert(n == t.ops@.len());
    }
    // resolve the suspension the last poll left behind
    match t.susp {
        Susp::Idle => {},
        Susp::Yielding(ys) => {
            let mut y = ys;
            let done = poll_yield(&mut y);
            proof {
                assert(t.pc < n);
            }
            t.pc = t.pc + 1;
            t.susp = Susp::Idle;
        },
        Susp::Waiting(ws, dl) => {
            let mut w = Wait { state: ws, deadline: dl };
            let done = poll_wait(&mut w, now);
            if done {
                proof {
                    assert(t.pc < n);
                }
                t.pc = t.pc + 1;
                t.susp = Susp::Idle;
            } else {
                proof {
                    assert(stamp(tick, out.emits) =~= Seq::<(u64, u64)>::empty());
                    assert(old(t).log@ + stamp(tick, out.emits) =~= old(t).log@);
                }
                return ;
            }
        },
    }
    // run work steps until a suspension or the end
    let ghost base = t.pc as int;
    let ghost done_log = t.log@;
    while t.pc < t.ops.len()
        invariant
            wf_thread(*old(t)),
            t.pc <= t.ops@.len(),
            t.ops == old(t).ops,
            t.running == old(t).running,
            t.start == old(t).start,
            t.owner == old(t).owner,
            t.complete == old(t).complete,
            !t.complete,
            t.susp == Susp::Idle,
            out == spec_poll_thread(*old(t), now),
            out.pc == spec_run_ops(t.ops@, t.pc as int, now).pc,
            out.susp == spec_run_ops(t.ops@, t.pc as int, now).susp,
            out.complete == spec_run_ops(t.ops@, t.pc as int, now).complete,
            old(t).log@ + stamp(tick, out.emits) == t.log@ + stamp(
                tick,
                spec_run_ops(t.ops@, t.pc as int, now).emits,
            ),
        decreases t.ops@.len() - t.pc,
    {
        let op = t.ops[t.pc];
        match op {
            Op::Work(id) => {
                let ghost pre_log = t.log@;
                t.log.push((tick, id));
                proof {
                    let rest = spec_run_ops(t.ops@, t.pc + 1, now);
                    let cur = spec_run_ops(t.ops@, t.pc as int, now);
                    assert(cur.emits == seq![id] + rest.emits);
                    assert(stamp(tick, cur.emits) =~= seq![(tick, id)] + stamp(tick, rest.emits));
                    assert(t.log@ + stamp(tick, rest.emits) =~= pre_log + stamp(tick, cur.emits));
                }
                t.pc = t.pc + 1;
            },
            Op::Yield => {
                let mut y = YieldState::Start;
                let done = poll_yield(&mut y);
                t.susp = Susp::Yielding(y);
                proof {
                    assert(stamp(tick, spec_run_ops(t.ops@, t.pc as int, now).emits) =~= Seq::<
                        (u64, u64),
                    >::empty());
                    assert(t.log@ + stamp(tick, spec_run_ops(t.ops@, t.pc as int, now).emits)
                        =~= t.log@);
                }
                return ;
            },
            Op::Wait(d) => {
                let mut w = Wait::new(now, d);
                let done = poll_wait(&mut w, now);
                t.susp = Susp::Waiting(w.state, w.deadline);
                proof {
                    assert(stamp(tick, spec_run_ops(t.ops@, t.pc as int, now).emits) =~= Seq::<
                        (u64, u64),
                    >::empty());
                    assert(t.log@ + stamp(tick, spec_run_ops(t.ops@, t.pc as int, now).emits)
                        =~= t.log@);
                }
                return ;
            },
        }
    }
    t.complete = true;
    proof {
        assert(stamp(tick, spec_run_ops(t.ops@, t.pc as int, now).emits) =~= Seq::<
            (u64, u64),
        >::empty());
        assert(t.log@ + stamp(tick, spec_run_ops(t.ops@, t.pc as int, now).emits) =~= t.log@);
    }
}

} // verus!

verus! {

// ---------------------------------------------------------------------
// The registry and the tick
// ---------------------------------------------------------------------

/// The thread registry: the live threads, the additions queued by
/// in-flight procedure bodies, and the tick counter.
#[derive(Debug)]
pub struct Registry {
    /// The live threads, in insertion order.
    pub threads: Vec<Thread>,
    /// Threads enqueued during the last tick; drained at the next.
    pub queue: Vec<Thread>,
    /// How many ticks have run.
    pub ticks: u64,
}

/// Every thread of a sequence is well formed.
pub open spec fn wf_threads(ts: Seq<Thread>) -> bool {
    forall|i: int| 0 <= i < ts.len() ==> wf_thread(#[trigger] ts[i])
}

/// The registry's threads and queue are well formed.
pub open spec fn wf_registry(r: Registry) -> bool {
    wf_threads(r.threads@) && wf_threads(r.queue@)
}

/// One poll's outcome, as a relation between the thread before and
/// after.
pub open spec fn thread_stepped(a: Thread, b: Thread, now: u64, tick: u64) -> bool {
    let out = spec_poll_thread(a, now);
    &&& wf_thread(b)
    &&& b.ops == a.ops
    &&& b.running == a.running
    &&& b.start == a.start
    &&& b.owner == a.owner
    &&& b.pc == out.pc
    &&& b.susp == out.susp
    &&& b.complete == out.complete
    &&& b.log@ == a.log@ + stamp(tick, out.emits)
}

/// A thread the reap phase keeps.
pub open spec fn keep_thread(t: Thread) -> bool {
    !t.complete
}

/// A sprite with this identity stands flagged for deletion.
pub open spec fn spec_deleted(st: Stage, o: u64) -> bool {
    exists|i: int|
        0 <= i < st.sprites@.len() && (#[trigger] st.sprites@[i]).pending_delete
            && st.sprites@[i].id == o
}

/// A thread the delete sweep keeps: not owned by a deleted sprite.
pub open spec fn survives_sweep(t: Thread, st: Stage) -> bool {
    match t.owner {
        Option::Some(o) => !spec_deleted(st, o),
        Option::None => true,
    }
}

/// A borrow of one thread for in-place change.
fn thread_mut(v: &mut Vec<Thread>, i: usize) -> (r: &mut Thread)
    requires
        i < old(v)@.len(),
    ensures
        *r == old(v)@[i as int],
        final(v)@ == old(v)@.update(i as int, *final(r)),
{
    &mut v[i]
}

/// Whether the stage flags a sprite of this identity for deletion.
fn stage_deleted(st: &Stage, o: u64) -> (r: bool)
    ensures
        r == spec_deleted(*st, o),
{
    let mut i: usize = 0;
    while i < st.sprites.len()
        invariant
            i <= st.sprites@.len(),
            forall|j: int|
                0 <= j < i ==> !((#[trigger] st.sprites@[j]).pending_delete && st.sprites@[j].id
                    == o),
        decreases st.sprites@.len() - i,
    {
        if st.sprites[i].pending_delete && st.sprites[i].id == o {
            return true;
        }
        i = i + 1;
    }
    false
}

impl Registry {
    /// An empty registry.
    pub fn new() -> (r: Registry)
        ensures
            r.threads@.len() == 0,
            r.queue@.len() == 0,
            r.ticks == 0,
            wf_registry(r),
    {
        Registry { threads: Vec::new(), queue: Vec::new(), ticks: 0 }
    }

    /// Enqueue a thread for the next tick's drain phase: procedure
    /// bodies never splice the live registry.
    pub fn enqueue(&mut self, t: Thread)
        requires
            wf_thread(t),
        ensures
            final(self).queue@ == old(self).queue@.push(t),
            final(self).threads == old(self).threads,
            final(self).ticks == old(self).ticks,
            wf_registry(*old(self)) ==> wf_registry(*final(self)),
    {
        self.queue.push(t);
        proof {
            if wf_registry(*old(self)) {
                assert forall|i: int| 0 <= i < self.queue@.len() implies wf_thread(
                    #[trigger] self.queue@[i],
                ) by {
                    if i < old(self).queue@.len() {
                        assert(wf_thread(old(self).queue@[i]));
                    }
                }
            }
        }
    }

    /// The one-time start broadcast: every flag-started thread is
    /// marked running; threads of other classifications stand as they
    /// were.
    pub fn click_flag(&mut self)
        ensures
            final(self).threads@.len() == old(self).threads@.len(),
            forall|i: int|
                0 <= i < old(self).threads@.len() ==> {
                    let a = #[trigger] old(self).threads@[i];
                    let b = final(self).threads@[i];
                    if a.start@ is FlagClicked {
                        same_but_running(a, b)
                    } else {
                        b == a
                    }
                },
            final(self).queue == old(self).queue,
            final(self).ticks == old(self).ticks,
            wf_registry(*old(self)) ==> wf_registry(*final(self)),
    {
        let mut i: usize = 0;
        while i < self.threads.len()
            invariant
                i <= self.threads@.len(),
                self.threads@.len() == old(self).threads@.len(),
                self.queue == old(self).queue,
                self.ticks == old(self).ticks,
                forall|j: int|
                    0 <= j < i ==> {
                        let a = #[trigger] old(self).threads@[j];
                        let b = self.threads@[j];
                        if a.start@ is FlagClicked {
                            same_but_running(a, b)
                        } else {
                            b == a
                        }
                    },
                forall|j: int|
                    i <= j < self.threads@.len() ==> #[trigger] self.threads@[j] == old(
                        self,
                    ).threads@[j],
            decreases self.threads@.len() - i,
        {
            let hit = match &self.threads[i].start {
                StartType::FlagClicked => true,
                _ => false,
            };
            if hit {
                let t = thread_mut(&mut self.threads, i);
                t.running = true;
            }
            i = i + 1;
        }
        proof {
            if wf_registry(*old(self)) {
                assert forall|j: int| 0 <= j < self.threads@.len() implies wf_thread(
                    #[trigger] self.threads@[j],
                ) by {
                    assert(wf_thread(old(self).threads@[j]));
                }
            }
        }
    }
}

/// Two threads alike in everything but that the second is running.
pub open spec fn same_but_running(a: Thread, b: Thread) -> bool {
    &&& b.ops == a.ops
    &&& b.pc == a.pc
    &&& b.susp == a.susp
    &&& b.complete == a.complete
    &&& b.start == a.start
    &&& b.owner == a.owner
    &&& b.log == a.log
    &&& b.running
}

/// Mark running every queued thread that starts as a clone of the
/// named sprite: clones begin their clone-started scripts at once,
/// not gated behind the start flag.
pub fn activate_clone_threads(threads: &mut Vec<Thread>, clone_name: &String)
    ensures
        final(threads)@.len() == old(threads)@.len(),
        forall|i: int|
            0 <= i < old(threads)@.len() ==> {
                let a = #[trigger] old(threads)@[i];
                let b = final(threads)@[i];
                if a.start@ matches StartView::StartAsClone(n) && n == clone_name@ {
                    same_but_running(a, b)
                } else {
                    b == a
                }
            },
        wf_threads(old(threads)@) ==> wf_threads(final(threads)@),
{
    let mut i: usize = 0;
    while i < threads.len()
        invariant
            i <= threads@.len(),
            threads@.len() == old(threads)@.len(),
            forall|j: int|
                0 <= j < i ==> {
                    let a = #[trigger] old(threads)@[j];
                    let b = threads@[j];
                    if a.start@ matches StartView::StartAsClone(n) && n == clone_name@ {
                        same_but_running(a, b)
                    } else {
                        b == a
                    }
                },
            forall|j: int|
                i <= j < threads@.len() ==> #[trigger] threads@[j] == old(threads)@[j],
        decreases threads@.len() - i,
    {
        let hit = match &threads[i].start {
            StartType::StartAsClone(n) => *n == *clone_name,
            _ => false,
        };
        if hit {
            let t = thread_mut(threads, i);
            t.running = true;
        }
        i = i + 1;
    }
    proof {
        if wf_threads(old(threads)@) {
            assert forall|j: int| 0 <= j < threads@.len() implies wf_thread(
                #[trigger] threads@[j],
            ) by {
                assert(wf_thread(old(threads)@[j]));
            }
        }
    }
}

} // verus!

verus! {

/// The threads left after the reap phase: the complete ones removed,
/// order kept.
pub open spec fn reaped(ts: Seq<Thread>) -> Seq<Thread>
    decreases ts.len(),
{
    if ts.len() == 0 {
        ts
    } else {
        reaped(ts.drop_last()) + (if keep_thread(ts.last()) {
            seq![ts.last()]
        } else {
            Seq::<Thread>::empty()
        })
    }
}

/// The threads left after the delete sweep: every thread owned by a
/// deleted sprite removed, whatever its state, order kept.
pub open spec fn swept(ts: Seq<Thread>, st: Stage) -> Seq<Thread>
    decreases ts.len(),
{
    if ts.len() == 0 {
        ts
    } else {
        swept(ts.drop_last(), st) + (if survives_sweep(ts.last(), st) {
            seq![ts.last()]
        } else {
            Seq::<Thread>::empty()
        })
    }
}

/// The sprites left after the delete sweep, order kept.
pub open spec fn sprites_kept(ss: Seq<Sprite>) -> Seq<Sprite>
    decreases ss.len(),
{
    if ss.len() == 0 {
        ss
    } else {
        sprites_kept(ss.drop_last()) + (if !ss.last().pending_delete {
            seq![ss.last()]
        } else {
            Seq::<Sprite>::empty()
        })
    }
}

proof fn lemma_swept_sound(ts: Seq<Thread>, st: Stage)
    ensures
        forall|j: int|
            0 <= j < swept(ts, st).len() ==> survives_sweep(#[trigger] swept(ts, st)[j], st),
        wf_threads(ts) ==> wf_threads(swept(ts, st)),
    decreases ts.len(),
{
    if ts.len() > 0 {
        lemma_swept_sound(ts.drop_last(), st);
        assert(wf_threads(ts) ==> wf_threads(ts.drop_last())) by {
            if wf_threads(ts) {
                assert(forall|i: int|
                    0 <= i < ts.len() - 1 ==> #[trigger] ts.drop_last()[i] == ts[i]);
            }
        }
        if wf_threads(ts) {
            assert(wf_thread(ts.last()));
        }
    }
}

proof fn lemma_reaped_wf(ts: Seq<Thread>)
    ensures
        wf_threads(ts) ==> wf_threads(reaped(ts)),
    decreases ts.len(),
{
    if ts.len() > 0 {
        lemma_reaped_wf(ts.drop_last());
        assert(wf_threads(ts) ==> wf_threads(ts.drop_last())) by {
            if wf_threads(ts) {
                assert(forall|i: int|
                    0 <= i < ts.len() - 1 ==> #[trigger] ts.drop_last()[i] == ts[i]);
            }
        }
        if wf_threads(ts) {
            assert(wf_thread(ts.last()));
        }
    }
}

/// The poll phase's outcome: every running, incomplete thread advanced
/// by exactly one poll, in registry order, and every other thread left
/// alone.
pub open spec fn tick_rel(all: Seq<Thread>, mid: Seq<Thread>, now: u64, tick: u64) -> bool {
    &&& mid.len() == all.len()
    &&& (forall|i: int|
        0 <= i < all.len() ==> {
            let a = #[trigger] all[i];
            if a.running && !a.complete {
                thread_stepped(a, mid[i], now, tick)
            } else {
                mid[i] == a
            }
        })
}

impl Registry {
    /// One scheduler tick at the given time: drain the queue into the
    /// registry, poll every running thread exactly once in registry
    /// order, remove the complete threads, then sweep — every sprite
    /// flagged for deletion leaves the stage, and every thread owned
    /// by such a sprite leaves the registry whatever its state.
    pub fn tick(&mut self, stage: &mut Stage, now: u64)
        requires
            wf_registry(*old(self)),
            old(self).ticks < u64::MAX,
        ensures
            wf_registry(*final(self)),
            final(self).ticks == old(self).ticks + 1,
            final(self).queue@.len() == 0,
            exists|mid: Seq<Thread>|
                #[trigger] tick_rel(
                    old(self).threads@ + old(self).queue@,
                    mid,
                    now,
                    old(self).ticks,
                ) && final(self).threads@ == swept(reaped(mid), *old(stage)),
            forall|j: int|
                0 <= j < final(self).threads@.len() ==> survives_sweep(
                    #[trigger] final(self).threads@[j],
                    *old(stage),
                ),
            final(stage).sprites@ == sprites_kept(old(stage).sprites@),
            crate::target::stage_frame(*old(stage), *final(stage)),
            final(stage).vars == old(stage).vars,
            final(stage).lists == old(stage).lists,
    {
        let ghost all = old(self).threads@ + old(self).queue@;
        // drain the queue
        self.threads.append(&mut self.queue);
        proof {
            assert(self.threads@ == all);
            assert(wf_threads(all)) by {
                assert forall|i: int| 0 <= i < all.len() implies wf_thread(
                    #[trigger] all[i],
                ) by {
                    if i < old(self).threads@.len() {
                        assert(all[i] == old(self).threads@[i]);
                    } else {
                        assert(all[i] == old(self).queue@[i - old(self).threads@.len()]);
                    }
                }
            }
        }
        // poll every running thread once, in registry order
        let tick_no = self.ticks;
        let mut i: usize = 0;
        while i < self.threads.len()
            invariant
                i <= self.threads@.len(),
                self.threads@.len() == all.len(),
                self.queue@.len() == 0,
                self.ticks == old(self).ticks,
                tick_no == old(self).ticks,
                wf_threads(all),
                forall|j: int|
                    0 <= j < i ==> {
                        let a = #[trigger] all[j];
                        if a.running && !a.complete {
                            thread_stepped(a, self.threads@[j], now, tick_no)
                        } else {
                            self.threads@[j] == a
                        }
                    },
                forall|j: int| i <= j < all.len() ==> #[trigger] self.threads@[j] == all[j],
            decreases self.threads@.len() - i,
        {
            let run = self.threads[i].running && !self.threads[i].complete;
            if run {
                let t = thread_mut(&mut self.threads, i);
                thread_poll(t, now, tick_no);
            }
            i = i + 1;
        }
        let ghost mid = self.threads@;
        proof {
            assert(tick_rel(all, mid, now, tick_no));
            assert(wf_threads(mid)) by {
                assert forall|j: int| 0 <= j < mid.len() implies wf_thread(
                    #[trigger] mid[j],
                ) by {
                    assert(all[j] == all[j]);
                    if all[j].running && !all[j].complete {
                        assert(thread_stepped(all[j], mid[j], now, tick_no));
                    } else {
                        assert(wf_thread(all[j]));
                    }
                }
            }
        }
        // reap the complete threads
        let mut k: usize = 0;
        let ghost mut j: int = 0;
        while k < self.threads.len()
            invariant
                0 <= j <= mid.len(),
                k == reaped(mid.take(j)).len(),
                k <= self.threads@.len(),
                self.queue@.len() == 0,
                self.ticks == old(self).ticks,
                self.threads@ == reaped(mid.take(j)) + mid.skip(j),
            decreases mid.len() - j,
        {
            proof {
                assert(mid.skip(j)[0] == mid[j]);
                assert(self.threads@[k as int] == mid[j]);
                assert(mid.take(j + 1).drop_last() =~= mid.take(j));
                assert(mid.take(j + 1).last() == mid[j]);
            }
            if self.threads[k].complete {
                self.threads.remove(k);
                proof {
                    assert(reaped(mid.take(j + 1)) =~= reaped(mid.take(j)));
                    assert(self.threads@ =~= reaped(mid.take(j + 1)) + mid.skip(j + 1));
                    j = j + 1;
                }
            } else {
                proof {
                    assert(reaped(mid.take(j + 1)) =~= reaped(mid.take(j)).push(mid[j]));
                    assert(self.threads@ =~= reaped(mid.take(j + 1)) + mid.skip(j + 1));
                    j = j + 1;
                }
                k = k + 1;
            }
        }
        proof {
            assert(mid.skip(j).len() == 0);
            assert(j == mid.len());
            assert(mid.take(j) =~= mid);
            assert(self.threads@ =~= reaped(mid));
        }
        let ghost reaped_mid = self.threads@;
        // sweep out the threads of deleted sprites
        let mut k2: usize = 0;
        let ghost mut j2: int = 0;
        while k2 < self.threads.len()
            invariant
                0 <= j2 <= reaped_mid.len(),
                k2 == swept(reaped_mid.take(j2), *stage).len(),
                k2 <= self.threads@.len(),
                self.queue@.len() == 0,
                self.ticks == old(self).ticks,
                self.threads@ == swept(reaped_mid.take(j2), *stage) + reaped_mid.skip(j2),
                *stage == *old(stage),
            decreases reaped_mid.len() - j2,
        {
            proof {
                assert(reaped_mid.skip(j2)[0] == reaped_mid[j2]);
                assert(self.threads@[k2 as int] == reaped_mid[j2]);
                assert(reaped_mid.take(j2 + 1).drop_last() =~= reaped_mid.take(j2));
                assert(reaped_mid.take(j2 + 1).last() == reaped_mid[j2]);
            }
            let doomed = match &self.threads[k2].owner {
                Option::Some(o) => stage_deleted(stage, *o),
                Option::None => false,
            };
            if doomed {
                self.threads.remove(k2);
                proof {
                    assert(swept(reaped_mid.take(j2 + 1), *stage) =~= swept(
                        reaped_mid.take(j2),
                        *stage,
                    ));
                    assert(self.threads@ =~= swept(reaped_mid.take(j2 + 1), *stage)
                        + reaped_mid.skip(j2 + 1));
                    j2 = j2 + 1;
                }
            } else {
                proof {
                    assert(swept(reaped_mid.take(j2 + 1), *stage) =~= swept(
                        reaped_mid.take(j2),
                        *stage,
                    ).push(reaped_mid[j2]));
                    assert(self.threads@ =~= swept(reaped_mid.take(j2 + 1), *stage)
                        + reaped_mid.skip(j2 + 1));
                    j2 = j2 + 1;
                }
                k2 = k2 + 1;
            }
        }
        proof {
            assert(reaped_mid.skip(j2).len() == 0);
            assert(j2 == reaped_mid.len());
            assert(reaped_mid.take(j2) =~= reaped_mid);
            assert(self.threads@ =~= swept(reaped(mid), *old(stage)));
            lemma_swept_sound(reaped(mid), *old(stage));
            lemma_reaped_wf(mid);
        }
        // remove the deleted sprites from the stage
        let ghost pre_sprites = stage.sprites@;
        let mut k3: usize = 0;
        let ghost mut j3: int = 0;
        while k3 < stage.sprites.len()
            invariant
                0 <= j3 <= pre_sprites.len(),
                k3 == sprites_kept(pre_sprites.take(j3)).len(),
                k3 <= stage.sprites@.len(),
                stage.sprites@ == sprites_kept(pre_sprites.take(j3)) + pre_sprites.skip(j3),
                crate::target::stage_frame(*old(stage), *stage),
                stage.vars == old(stage).vars,
                stage.lists == old(stage).lists,
            decreases pre_sprites.len() - j3,
        {
            proof {
                assert(pre_sprites.skip(j3)[0] == pre_sprites[j3]);
                assert(stage.sprites@[k3 as int] == pre_sprites[j3]);
                assert(pre_sprites.take(j3 + 1).drop_last() =~= pre_sprites.take(j3));
                assert(pre_sprites.take(j3 + 1).last() == pre_sprites[j3]);
            }
            if stage.sprites[k3].pending_delete {
                stage.sprites.remove(k3);
                proof {
                    assert(sprites_kept(pre_sprites.take(j3 + 1)) =~= sprites_kept(
                        pre_sprites.take(j3),
                    ));
                    assert(stage.sprites@ =~= sprites_kept(pre_sprites.take(j3 + 1))
                        + pre_sprites.skip(j3 + 1));
                    j3 = j3 + 1;
                }
            } else {
                proof {
                    assert(sprites_kept(pre_sprites.take(j3 + 1)) =~= sprites_kept(
                        pre_sprites.take(j3),
                    ).push(pre_sprites[j3]));
                    assert(stage.sprites@ =~= sprites_kept(pre_sprites.take(j3 + 1))
                        + pre_sprites.skip(j3 + 1));
                    j3 = j3 + 1;
                }
                k3 = k3 + 1;
            }
        }
        proof {
            assert(pre_sprites.skip(j3).len() == 0);
            assert(pre_sprites.take(j3) =~= pre_sprites);
            assert(stage.sprites@ =~= sprites_kept(old(stage).sprites@));
        }
        self.ticks = tick_no + 1;
        proof {
            assert(tick_rel(all, mid, now, old(self).ticks) && self.threads@ == swept(
                reaped(mid),
                *old(stage),
            ));
        }
    }
}

} // verus!

verus! {

/// The markers of the work steps in `ops[i..j)`, in order.
pub open spec fn work_ids(ops: Seq<Op>, i: int, j: int) -> Seq<u64>
    decreases j - i,
{
    if i < 0 || i >= j || j > ops.len() {
        Seq::<u64>::empty()
    } else {
        (match ops[i] {
            Op::Work(id) => seq![id],
            _ => Seq::<u64>::empty(),
        }) + work_ids(ops, i + 1, j)
    }
}

proof fn lemma_run_work_prefix(ops: Seq<Op>, pc: int, k: int, now: u64)
    requires
        0 <= pc <= k <= ops.len(),
        forall|j: int| pc <= j < k ==> (#[trigger] ops[j]) matches Op::Work(_),
        k == ops.len() || ops[k] == Op::Yield,
    ensures
        spec_run_ops(ops, pc, now).emits == work_ids(ops, pc, k),
        k < ops.len() ==> spec_run_ops(ops, pc, now).pc == k && spec_run_ops(ops, pc, now).susp
            == Susp::Yielding(YieldState::Middle) && !spec_run_ops(ops, pc, now).complete,
        k == ops.len() ==> spec_run_ops(ops, pc, now).complete,
    decreases k - pc,
{
    if pc == k {
        if k == ops.len() {
            assert(spec_run_ops(ops, pc, now).emits =~= work_ids(ops, pc, k));
        } else {
            assert(spec_run_ops(ops, pc, now).emits =~= work_ids(ops, pc, k));
        }
    } else {
        assert(ops[pc] matches Op::Work(_));
        lemma_run_work_prefix(ops, pc + 1, k, now);
        assert(spec_run_ops(ops, pc, now).emits =~= work_ids(ops, pc, k));
    }
}

/// Yield latency: a thread whose program holds exactly one yield
/// suspends there — the first poll performs exactly the work before
/// the yield and does not complete, so the work after the yield never
/// runs in the suspending tick — and the next poll, on the tick
/// strictly after, performs exactly the work beyond the yield and
/// completes.
pub proof fn lemma_yield_latency(t: Thread, t2: Thread, now1: u64, now2: u64, y: int)
    requires
        t.susp == Susp::Idle,
        t.pc == 0,
        0 <= y < t.ops@.len(),
        t.ops@[y] == Op::Yield,
        forall|j: int|
            0 <= j < t.ops@.len() && j != y ==> (#[trigger] t.ops@[j]) matches Op::Work(_),
        t2.ops@ == t.ops@,
        t2.pc == y,
        t2.susp == Susp::Yielding(YieldState::Middle),
    ensures
        spec_poll_thread(t, now1).emits == work_ids(t.ops@, 0, y),
        spec_poll_thread(t, now1).pc == y,
        spec_poll_thread(t, now1).susp == Susp::Yielding(YieldState::Middle),
        !spec_poll_thread(t, now1).complete,
        spec_poll_thread(t2, now2).emits == work_ids(t.ops@, y + 1, t.ops@.len() as int),
        spec_poll_thread(t2, now2).complete,
{
    lemma_run_work_prefix(t.ops@, 0, y, now1);
    lemma_run_work_prefix(t.ops@, y + 1, t.ops@.len() as int, now2);
}

} // verus!
