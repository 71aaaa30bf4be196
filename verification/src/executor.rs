//! The task executor.
//!
//! The executor holds a fixed-capacity set of tasks plus a same-indexed
//! ready flag per slot. A run-loop pass sweeps the slots in ascending
//! order: each occupied, ready slot has its flag cleared and its task
//! polled with a wake signal naming that slot; a task that completes is
//! removed. `run` repeats passes, delivering one timer tick after every
//! pass that leaves work behind, until the task set is empty.
//!
//! A task is a suspend/resume computation that performs a number of rounds
//! (or loops forever), each round awaiting a timer-wait of `wait_ticks`
//! ticks and then a one-pass yield.

use crate::async_timer::{
    async_wait, clear_handle, notified, timer_is_elapsed, timer_step, wrap_inc, RegistryEntry,
    TimerFuture, WakerRegistry,
};
use crate::container::{
    first_empty_from, is_full, lemma_first_empty_from, occupied_count, push_index, pushed,
    Container, CAPACITY,
};
use crate::wake::{PollResult, WakeSignal};
use crate::yield_now::{yield_now, YieldNow};
use vstd::prelude::*;

verus! {

/// Where a task stands inside its current round.
#[derive(Clone, Copy, PartialEq, Eq, Structural, Debug)]
pub enum TaskPhase {
    /// Not yet polled: no timer-wait has been constructed.
    Starting,
    /// Suspended on a timer-wait.
    Waiting(TimerFuture),
    /// Suspended on (or just past) the round's closing yield.
    Yielding(YieldNow),
}

/// A task: `rounds_left` rounds of awaiting a timer-wait of `wait_ticks`
/// ticks followed by a yield, or the same round forever.
#[derive(Clone, Copy, PartialEq, Eq, Structural, Debug)]
pub struct Task {
    /// Current position inside the round.
    pub phase: TaskPhase,
    /// Tick count of each round's timer-wait.
    pub wait_ticks: u32,
    /// Rounds still to run; meaningless when `forever` is set.
    pub rounds_left: u32,
    /// Whether the task repeats its round without end.
    pub forever: bool,
}

/// The registry model after storing `(h, sig)` over any older entry for
/// `h`.
pub open spec fn registered(
    s: Seq<Option<RegistryEntry>>,
    h: u32,
    sig: WakeSignal,
) -> Seq<Option<RegistryEntry>> {
    pushed(clear_handle(s, h), (h, sig))
}

/// The phase a task enters when it starts a round with the handle counter
/// at `c`: a zero-tick wait completes at once and falls through to the
/// round's yield, already suspended once; otherwise the task suspends on a
/// fresh timer-wait that has counted its first poll.
pub open spec fn started_phase(wait: u32, c: u32) -> TaskPhase {
    if wait == 0 {
        TaskPhase::Yielding(YieldNow { yield_now: false })
    } else {
        TaskPhase::Waiting(TimerFuture { target: wait, current: 1, handle: wrap_inc(c) })
    }
}

/// Whether one poll of `t` reports completion.
pub open spec fn task_is_done(t: Task) -> bool {
    match t.phase {
        TaskPhase::Starting => !t.forever && t.rounds_left == 0,
        TaskPhase::Waiting(_) => false,
        TaskPhase::Yielding(y) => !y.yield_now && !t.forever && t.rounds_left <= 1,
    }
}

/// The task state after one poll with the handle counter at `c`.
pub open spec fn task_after(t: Task, c: u32) -> Task {
    match t.phase {
        TaskPhase::Starting => {
            if task_is_done(t) {
                t
            } else {
                Task {
                    phase: started_phase(t.wait_ticks, c),
                    wait_ticks: t.wait_ticks,
                    rounds_left: t.rounds_left,
                    forever: t.forever,
                }
            }
        },
        TaskPhase::Waiting(tf) => {
            if timer_is_elapsed(tf) {
                Task {
                    phase: TaskPhase::Yielding(YieldNow { yield_now: false }),
                    wait_ticks: t.wait_ticks,
                    rounds_left: t.rounds_left,
                    forever: t.forever,
                }
            } else {
                Task {
                    phase: TaskPhase::Waiting(timer_step(tf)),
                    wait_ticks: t.wait_ticks,
                    rounds_left: t.rounds_left,
                    forever: t.forever,
                }
            }
        },
        TaskPhase::Yielding(y) => {
            if y.yield_now {
                Task {
                    phase: TaskPhase::Yielding(YieldNow { yield_now: false }),
                    wait_ticks: t.wait_ticks,
                    rounds_left: t.rounds_left,
                    forever: t.forever,
                }
            } else if task_is_done(t) {
                Task {
                    phase: t.phase,
                    wait_ticks: t.wait_ticks,
                    rounds_left: 0,
                    forever: t.forever,
                }
            } else {
                Task {
                    phase: started_phase(t.wait_ticks, c),
                    wait_ticks: t.wait_ticks,
                    rounds_left: if t.forever {
                        t.rounds_left
                    } else {
                        (t.rounds_left - 1) as u32
                    },
                    forever: t.forever,
                }
            }
        },
    }
}

/// Whether one poll of `t` re-wakes its own task (it does exactly when a
/// yield is freshly suspended during the poll).
pub open spec fn task_wakes_self(t: Task) -> bool {
    match t.phase {
        TaskPhase::Starting => !task_is_done(t) && t.wait_ticks == 0,
        TaskPhase::Waiting(tf) => timer_is_elapsed(tf),
        TaskPhase::Yielding(y) => y.yield_now || (!task_is_done(t) && t.wait_ticks == 0),
    }
}

/// The handle counter after one poll of `t`: bumped exactly when the poll
/// constructs a fresh timer-wait.
pub open spec fn task_counter_after(t: Task, c: u32) -> u32 {
    match t.phase {
        TaskPhase::Starting => if task_is_done(t) {
            c
        } else {
            wrap_inc(c)
        },
        TaskPhase::Waiting(_) => c,
        TaskPhase::Yielding(y) => if y.yield_now || task_is_done(t) {
            c
        } else {
            wrap_inc(c)
        },
    }
}

/// The registry model after one poll of `t` under wake signal `sig`, with
/// the handle counter at `c`.
pub open spec fn task_reg_after(
    t: Task,
    s: Seq<Option<RegistryEntry>>,
    c: u32,
    sig: WakeSignal,
) -> Seq<Option<RegistryEntry>> {
    match t.phase {
        TaskPhase::Starting => {
            if task_is_done(t) || t.wait_ticks == 0 {
                s
            } else {
                registered(s, wrap_inc(c), sig)
            }
        },
        TaskPhase::Waiting(tf) => {
            if timer_is_elapsed(tf) {
                s
            } else {
                registered(s, tf.handle, sig)
            }
        },
        TaskPhase::Yielding(y) => {
            if y.yield_now || task_is_done(t) || t.wait_ticks == 0 {
                s
            } else {
                registered(s, wrap_inc(c), sig)
            }
        },
    }
}

impl Task {
    /// A task of `rounds` rounds, each awaiting `wait_ticks` ticks and then
    /// yielding once; `rounds == 0` completes on the first poll.
    pub fn new(wait_ticks: u32, rounds: u32) -> (t: Task)
        ensures
            t == (Task {
                phase: TaskPhase::Starting,
                wait_ticks,
                rounds_left: rounds,
                forever: false,
            }),
    {
        Task { phase: TaskPhase::Starting, wait_ticks, rounds_left: rounds, forever: false }
    }

    /// A task that repeats its round — await `wait_ticks` ticks, then yield
    /// — without end.
    pub fn new_looping(wait_ticks: u32) -> (t: Task)
        ensures
            t == (Task {
                phase: TaskPhase::Starting,
                wait_ticks,
                rounds_left: 0,
                forever: true,
            }),
    {
        Task { phase: TaskPhase::Starting, wait_ticks, rounds_left: 0, forever: true }
    }

    /// Enters the round's yield and suspends on it once.
    fn enter_yield(&mut self, flags: &mut Vec<bool>, signal: WakeSignal) -> (r: PollResult)
        requires
            signal.slot < old(flags)@.len(),
        ensures
            r == PollResult::Pending,
            *final(self) == (Task {
                phase: TaskPhase::Yielding(YieldNow { yield_now: false }),
                wait_ticks: old(self).wait_ticks,
                rounds_left: old(self).rounds_left,
                forever: old(self).forever,
            }),
            final(flags)@ == old(flags)@.update(signal.slot as int, true),
    {
        let mut y = yield_now();
        let r = y.poll(flags, signal);
        self.phase = TaskPhase::Yielding(y);
        r
    }

    /// Starts a round: constructs a fresh timer-wait and suspends on it, or
    /// — for a zero-tick wait — falls through to the round's yield.
    fn start_round(&mut self, reg: &mut WakerRegistry, flags: &mut Vec<bool>, signal: WakeSignal)
        -> (r: PollResult)
        requires
            old(reg).wf(),
            signal.slot < CAPACITY,
            old(flags)@.len() == CAPACITY,
        ensures
            r == PollResult::Pending,
            final(reg).wf(),
            final(flags)@.len() == CAPACITY,
            *final(self) == (Task {
                phase: started_phase(old(self).wait_ticks, old(reg).counter()),
                wait_ticks: old(self).wait_ticks,
                rounds_left: old(self).rounds_left,
                forever: old(self).forever,
            }),
            final(reg).counter() == wrap_inc(old(reg).counter()),
            final(reg)@ == if old(self).wait_ticks == 0 {
                old(reg)@
            } else {
                registered(old(reg)@, wrap_inc(old(reg).counter()), signal)
            },
            final(flags)@ == if old(self).wait_ticks == 0 {
                old(flags)@.update(signal.slot as int, true)
            } else {
                old(flags)@
            },
    {
        let mut tf = async_wait(self.wait_ticks, reg);
        let r = tf.poll(reg, signal);
        if r == PollResult::Pending {
            self.phase = TaskPhase::Waiting(tf);
            PollResult::Pending
        } else {
            self.enter_yield(flags, signal)
        }
    }

    /// Polls the task: advances it until it either suspends (on its
    /// timer-wait or its yield) or completes its last round.
    pub fn poll(&mut self, reg: &mut WakerRegistry, flags: &mut Vec<bool>, signal: WakeSignal)
        -> (r: PollResult)
        requires
            old(reg).wf(),
            signal.slot < CAPACITY,
            old(flags)@.len() == CAPACITY,
        ensures
            final(reg).wf(),
            final(flags)@.len() == CAPACITY,
            r == if task_is_done(*old(self)) {
                PollResult::Ready
            } else {
                PollResult::Pending
            },
            *final(self) == task_after(*old(self), old(reg).counter()),
            final(reg)@ == task_reg_after(*old(self), old(reg)@, old(reg).counter(), signal),
            final(reg).counter() == task_counter_after(*old(self), old(reg).counter()),
            final(flags)@ == if task_wakes_self(*old(self)) {
                old(flags)@.update(signal.slot as int, true)
            } else {
                old(flags)@
            },
    {
        match self.phase {
            TaskPhase::Starting => {
                if !self.forever && self.rounds_left == 0 {
                    PollResult::Ready
                } else {
                    self.start_round(reg, flags, signal)
                }
            },
            TaskPhase::Waiting(tf) => {
                let mut tf = tf;
                let r = tf.poll(reg, signal);
                if r == PollResult::Pending {
                    self.phase = TaskPhase::Waiting(tf);
                    PollResult::Pending
                } else {
                    self.enter_yield(flags, signal)
                }
            },
            TaskPhase::Yielding(y) => {
                let mut y = y;
                let r = y.poll(flags, signal);
                if r == PollResult::Pending {
                    self.phase = TaskPhase::Yielding(y);
                    PollResult::Pending
                } else if !self.forever && self.rounds_left <= 1 {
                    self.rounds_left = 0;
                    PollResult::Ready
                } else {
                    if !self.forever {
                        self.rounds_left = self.rounds_left - 1;
                    }
                    self.start_round(reg, flags, signal)
                }
            },
        }
    }
}

/// The joint state a run-loop pass threads through the slots: the task
/// slots, the ready flags, the registry contents, and the handle counter.
pub type PassState = (Seq<Option<Task>>, Seq<bool>, Seq<Option<RegistryEntry>>, u32);

/// The state after a run-loop pass has processed slots `0 .. n`: each
/// occupied, ready slot in turn has its flag cleared and its task polled
/// with the wake signal of its own slot; a completed task is removed.
pub open spec fn sweep(
    tasks: Seq<Option<Task>>,
    flags: Seq<bool>,
    reg: Seq<Option<RegistryEntry>>,
    c: u32,
    n: nat,
) -> PassState
    decreases n,
{
    if n == 0 {
        (tasks, flags, reg, c)
    } else {
        let prev = sweep(tasks, flags, reg, c, (n - 1) as nat);
        let (ts, fl, rg, ct) = prev;
        let j = n - 1;
        if 0 <= j < ts.len() && j < fl.len() && ts[j] is Some && fl[j] {
            let t = ts[j]->Some_0;
            let sig = WakeSignal { slot: j as usize };
            if task_is_done(t) {
                (ts.update(j, None), fl.update(j, false), rg, ct)
            } else {
                (
                    ts.update(j, Some(task_after(t, ct))),
                    fl.update(j, task_wakes_self(t)),
                    task_reg_after(t, rg, ct, sig),
                    task_counter_after(t, ct),
                )
            }
        } else {
            prev
        }
    }
}

/// The state after one full run-loop pass.
pub open spec fn pass_of(st: PassState) -> PassState {
    sweep(st.0, st.1, st.2, st.3, CAPACITY as nat)
}

/// The state after one timer tick's broadcast.
pub open spec fn tick_of(st: PassState) -> PassState {
    (st.0, notified(st.2, st.1), st.2, st.3)
}

/// The state after an initial run-loop pass followed by `k` rounds of one
/// timer tick and the next pass.
pub open spec fn run_steps(st: PassState, k: nat) -> PassState
    decreases k,
{
    if k == 0 {
        pass_of(st)
    } else {
        pass_of(tick_of(run_steps(st, (k - 1) as nat)))
    }
}

/// The fixed-capacity set of tasks and their ready flags.
pub struct Executor {
    tasks: Container<Task>,
    woken: Vec<bool>,
}

impl Executor {
    /// The task slots.
    pub closed spec fn tasks_view(&self) -> Seq<Option<Task>> {
        self.tasks@
    }

    /// The per-slot ready flags.
    pub closed spec fn flags_view(&self) -> Seq<bool> {
        self.woken@
    }

    /// Well-formed: the fixed shape of `CAPACITY` task slots and as many
    /// ready flags.
    pub open spec fn wf(&self) -> bool {
        self.tasks_view().len() == CAPACITY && self.flags_view().len() == CAPACITY
    }

    /// An executor with no tasks and every ready flag clear.
    pub fn new() -> (e: Executor)
        ensures
            e.wf(),
            forall|i: int| 0 <= i < CAPACITY ==> e.tasks_view()[i] is None,
            forall|i: int| 0 <= i < CAPACITY ==> !e.flags_view()[i],
            occupied_count(e.tasks_view()) == 0,
    {
        let mut woken: Vec<bool> = Vec::new();
        woken.push(false);
        woken.push(false);
        woken.push(false);
        woken.push(false);
        Executor { tasks: Container::new(), woken }
    }

    /// Stores `t` in the first free task slot — silently overwriting slot 0
    /// if the set is full — and marks it ready, so it runs on the next
    /// pass.
    pub fn spawn(&mut self, t: Task)
        requires
            old(self).wf(),
        ensures
            final(self).wf(),
            final(self).tasks_view() == pushed(old(self).tasks_view(), t),
            final(self).flags_view() == old(self).flags_view().update(
                push_index(old(self).tasks_view()),
                true,
            ),
    {
        let i = self.tasks.push(t);
        self.woken[i] = true;
    }

    /// One run-loop pass: polls every ready task in ascending slot order,
    /// removing those that complete, and reports whether the task set is
    /// now empty.
    pub fn run_pass(&mut self, reg: &mut WakerRegistry) -> (empty: bool)
        requires
            old(self).wf(),
            old(reg).wf(),
        ensures
            final(self).wf(),
            final(reg).wf(),
            ({
                let e = sweep(
                    old(self).tasks_view(),
                    old(self).flags_view(),
                    old(reg)@,
                    old(reg).counter(),
                    CAPACITY as nat,
                );
                &&& final(self).tasks_view() == e.0
                &&& final(self).flags_view() == e.1
                &&& final(reg)@ == e.2
                &&& final(reg).counter() == e.3
            }),
            empty == (occupied_count(final(self).tasks_view()) == 0),
    {
        let ghost o_t = self.tasks_view();
        let ghost o_f = self.flags_view();
        let ghost o_r = reg@;
        let ghost o_c = reg.counter();
        let mut j: usize = 0;
        while j < CAPACITY
            invariant
                self.wf(),
                reg.wf(),
                j <= CAPACITY,
                ({
                    let e = sweep(o_t, o_f, o_r, o_c, j as nat);
                    &&& self.tasks_view() == e.0
                    &&& self.flags_view() == e.1
                    &&& reg@ == e.2
                    &&& reg.counter() == e.3
                }),
            decreases CAPACITY - j,
        {
            let ghost pre_f = self.flags_view();
            if self.woken[j] {
                match self.tasks.get_copy(j) {
                    Some(t) => {
                        self.woken[j] = false;
                        let mut t = t;
                        let r = t.poll(reg, &mut self.woken, WakeSignal { slot: j });
                        if r == PollResult::Ready {
                            self.tasks.remove(j);
                        } else {
                            self.tasks.put(j, t);
                        }
                        proof {
                            assert(pre_f.update(j as int, false).update(j as int, true)
                                =~= pre_f.update(j as int, true));
                        }
                    },
                    None => {},
                }
            }
            j += 1;
        }
        let empty = self.tasks.size() == 0;
        empty
    }

    /// One timer tick: broadcasts a wake to every registered entry,
    /// setting the named tasks' ready flags. On hardware this is the timer
    /// interrupt handler's work.
    pub fn deliver_tick(&mut self, reg: &WakerRegistry)
        requires
            old(self).wf(),
            reg.wf(),
        ensures
            final(self).wf(),
            final(self).tasks_view() == old(self).tasks_view(),
            final(self).flags_view() == notified(reg@, old(self).flags_view()),
    {
        reg.notify_all(&mut self.woken);
    }

    /// Runs toward an empty task set: a pass, then — whenever work remains
    /// — one timer tick and the next pass, delivering at most `max_ticks`
    /// ticks. Returns whether the task set emptied; a set of tasks that
    /// loop forever never empties, whatever the budget.
    pub fn run(&mut self, reg: &mut WakerRegistry, max_ticks: usize) -> (done: bool)
        requires
            old(self).wf(),
            old(reg).wf(),
        ensures
            final(self).wf(),
            final(reg).wf(),
            done == (occupied_count(final(self).tasks_view()) == 0),
            ({
                let init = (
                    old(self).tasks_view(),
                    old(self).flags_view(),
                    old(reg)@,
                    old(reg).counter(),
                );
                exists|k: nat|
                    {
                        &&& k <= max_ticks
                        &&& (#[trigger] run_steps(init, k)) == (
                            final(self).tasks_view(),
                            final(self).flags_view(),
                            final(reg)@,
                            final(reg).counter(),
                        )
                        &&& forall|j: nat|
                            j < k ==> occupied_count((#[trigger] run_steps(init, j)).0) > 0
                    }
            }),
    {
        let ghost init = (old(self).tasks_view(), old(self).flags_view(), old(reg)@, old(
            reg,
        ).counter());
        let mut done = self.run_pass(reg);
        let mut p: usize = 0;
        while !done && p < max_ticks
            invariant
                self.wf(),
                reg.wf(),
                done == (occupied_count(self.tasks_view()) == 0),
                p <= max_ticks,
                ({
                    let e = run_steps(init, p as nat);
                    &&& self.tasks_view() == e.0
                    &&& self.flags_view() == e.1
                    &&& reg@ == e.2
                    &&& reg.counter() == e.3
                }),
                forall|j: nat| j < p ==> occupied_count((#[trigger] run_steps(init, j)).0) > 0,
            decreases max_ticks - p,
        {
            let ghost mid = tick_of(run_steps(init, p as nat));
            self.deliver_tick(reg);
            proof {
                assert(self.tasks_view() == mid.0 && self.flags_view() == mid.1 && reg@ == mid.2
                    && reg.counter() == mid.3);
            }
            done = self.run_pass(reg);
            p += 1;
        }
        done
    }

    /// Runs one task on a fresh executor and registry until it completes
    /// or the tick budget runs out.
    pub fn execute(task: Task) {
        let mut reg = WakerRegistry::new();
        let mut exec = Executor::new();
        exec.spawn(task);
        exec.run(&mut reg, usize::MAX);
    }

    /// Runs two tasks, interleaved, on a fresh executor and registry until
    /// both complete or the tick budget runs out.
    pub fn execute2(task1: Task, task2: Task) {
        let mut reg = WakerRegistry::new();
        let mut exec = Executor::new();
        exec.spawn(task1);
        exec.spawn(task2);
        exec.run(&mut reg, usize::MAX);
    }

    /// Count of the live tasks.
    pub fn task_count(&self) -> (n: usize)
        requires
            self.wf(),
        ensures
            n == occupied_count(self.tasks_view()),
    {
        self.tasks.size()
    }

    /// The task in slot `i`, copied out.
    pub fn task_at(&self, i: usize) -> (r: Option<Task>)
        requires
            self.wf(),
            i < CAPACITY,
        ensures
            r == self.tasks_view()[i as int],
    {
        self.tasks.get_copy(i)
    }

    /// The ready flag of slot `i`.
    pub fn is_woken(&self, i: usize) -> (b: bool)
        requires
            self.wf(),
            i < CAPACITY,
        ensures
            b == self.flags_view()[i as int],
    {
        self.woken[i]
    }
}

/// Law: spawning into a full task set lands on slot 0, overwriting the
/// task that lives there.
pub proof fn lemma_spawn_full_overwrites_slot0(s: Seq<Option<Task>>, t: Task)
    requires
        s.len() == CAPACITY,
        is_full(s),
    ensures
        push_index(s) == 0,
        pushed(s, t) == s.update(0, Some(t)),
{
    lemma_first_empty_from(s, 0);
    if first_empty_from(s, 0) < s.len() {
        assert(s[first_empty_from(s, 0)] is None);
        assert(false);
    }
}

/// Law: a vacated slot is reusable — when slot `i` is the only empty slot,
/// the next spawn lands exactly on `i` (and `spawn` starts its flag true).
pub proof fn lemma_vacated_slot_reused(s: Seq<Option<Task>>, i: int, t: Task)
    requires
        s.len() == CAPACITY,
        0 <= i < CAPACITY,
        s[i] is None,
        forall|j: int| 0 <= j < CAPACITY && j != i ==> s[j] is Some,
    ensures
        push_index(s) == i,
        pushed(s, t) == s.update(i, Some(t)),
{
    lemma_first_empty_from(s, 0);
    let fe = first_empty_from(s, 0);
    if fe < i {
        assert(s[fe] is None);
    }
    if fe > i {
        assert(s[i] is Some);
    }
}

} // verus!
