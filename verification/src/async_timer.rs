//! Timer-wait futures and the waker registry they suspend into.
//!
//! A [`TimerFuture`] completes after its target number of tick-driven
//! re-polls: every poll before that increments its progress counter,
//! registers the polling task's wake signal in the [`WakerRegistry`] under
//! the future's handle (replacing any prior entry for that handle), and
//! suspends. The registry is a dumb broadcast fan-out: on every tick it
//! wakes all registered entries, leaving them in place; the futures
//! themselves track elapsed ticks and decide readiness.

use crate::container::{
    lemma_first_empty_from, lemma_live_count_push, lemma_live_count_remove, occupied_count,
    push_index, pushed, Container, CAPACITY,
};
use crate::wake::{PollResult, WakeSignal};
use vstd::prelude::*;

verus! {

/// One registry slot: a registration handle paired with the wake signal to
/// invoke on every tick.
pub type RegistryEntry = (u32, WakeSignal);

/// Whether slot `i` of the registry model holds an entry for handle `h`.
pub open spec fn slot_has_handle(s: Seq<Option<RegistryEntry>>, i: int, h: u32) -> bool {
    0 <= i < s.len() && s[i] is Some && (s[i]->Some_0).0 == h
}

/// The registry model with every entry for handle `h` cleared.
pub open spec fn clear_handle(s: Seq<Option<RegistryEntry>>, h: u32) -> Seq<Option<RegistryEntry>> {
    Seq::new(s.len(), |i: int| if slot_has_handle(s, i, h) { None } else { s[i] })
}

/// No two occupied registry slots share a handle.
pub open spec fn handles_unique(s: Seq<Option<RegistryEntry>>) -> bool {
    forall|i: int, j: int|
        #![trigger s[i], s[j]]
        0 <= i < j < s.len() && s[i] is Some && s[j] is Some ==> (s[i]->Some_0).0 != (
        s[j]->Some_0).0
}

/// Every registered wake signal names a task slot within capacity.
pub open spec fn slots_in_range(s: Seq<Option<RegistryEntry>>) -> bool {
    forall|i: int|
        0 <= i < s.len() && s[i] is Some ==> (#[trigger] s[i]->Some_0).1.slot < CAPACITY
}

/// Whether some registry entry would wake task slot `i`.
pub open spec fn wakes_slot(s: Seq<Option<RegistryEntry>>, i: int) -> bool {
    exists|j: int| 0 <= j < s.len() && s[j] is Some && (#[trigger] s[j]->Some_0).1.slot == i
}

/// The ready flags after one tick's broadcast: a flag is set exactly if it
/// was set before or some registry entry wakes its slot.
pub open spec fn notified(s: Seq<Option<RegistryEntry>>, flags: Seq<bool>) -> Seq<bool> {
    Seq::new(flags.len(), |i: int| flags[i] || wakes_slot(s, i))
}

/// The handle counter after issuing one more handle (it wraps on overflow).
pub open spec fn wrap_inc(h: u32) -> u32 {
    if h == u32::MAX {
        0
    } else {
        (h + 1) as u32
    }
}

/// The table of pending wake registrations, fed by timer-wait suspensions
/// and read by each tick's broadcast, which leaves the entries in place.
pub struct WakerRegistry {
    wakers: Container<RegistryEntry>,
    next_handle: u32,
}

impl View for WakerRegistry {
    type V = Seq<Option<RegistryEntry>>;

    closed spec fn view(&self) -> Seq<Option<RegistryEntry>> {
        self.wakers@
    }
}

impl WakerRegistry {
    /// The monotonically increasing (wrapping) handle counter.
    pub closed spec fn counter(&self) -> u32 {
        self.next_handle
    }

    /// Well-formed: fixed shape, at most one entry per handle, and every
    /// entry's wake signal within task capacity.
    pub open spec fn wf(&self) -> bool {
        self@.len() == CAPACITY && handles_unique(self@) && slots_in_range(self@)
    }

    /// An empty registry with its handle counter at zero.
    pub fn new() -> (reg: WakerRegistry)
        ensures
            reg.wf(),
            reg.counter() == 0,
            occupied_count(reg@) == 0,
            forall|i: int| 0 <= i < CAPACITY ==> reg@[i] is None,
    {
        WakerRegistry { wakers: Container::new(), next_handle: 0 }
    }

    /// Issues a fresh registration handle by bumping the counter, wrapping
    /// at the largest handle.
    pub fn fresh_handle(&mut self) -> (h: u32)
        requires
            old(self).wf(),
        ensures
            final(self).wf(),
            h == wrap_inc(old(self).counter()),
            final(self).counter() == h,
            final(self)@ == old(self)@,
    {
        if self.next_handle == u32::MAX {
            self.next_handle = 0;
        } else {
            self.next_handle = self.next_handle + 1;
        }
        self.next_handle
    }

    /// Removes any existing entry for `handle`, then stores
    /// `(handle, signal)` in the first free slot (slot 0 if none is free).
    pub fn register(&mut self, handle: u32, signal: WakeSignal)
        requires
            old(self).wf(),
            signal.slot < CAPACITY,
        ensures
            final(self).wf(),
            final(self)@ == pushed(clear_handle(old(self)@, handle), (handle, signal)),
            final(self).counter() == old(self).counter(),
    {
        let ghost s0 = self@;
        let mut found = false;
        let mut at: usize = 0;
        let mut j: usize = 0;
        while j < CAPACITY
            invariant
                self.wf(),
                self == old(self),
                j <= CAPACITY,
                found ==> at < j && slot_has_handle(self@, at as int, handle),
                !found ==> forall|k: int| 0 <= k < j ==> !slot_has_handle(self@, k, handle),
            decreases CAPACITY - j,
        {
            match self.wakers.get(j) {
                Some(e) => {
                    if e.0 == handle {
                        found = true;
                        at = j;
                    }
                },
                None => {},
            }
            j += 1;
        }
        if found {
            self.wakers.remove(at);
            proof {
                assert(self@ =~= clear_handle(s0, handle)) by {
                    assert forall|i: int| 0 <= i < CAPACITY implies self@[i] == clear_handle(
                        s0,
                        handle,
                    )[i] by {
                        if i != at as int && slot_has_handle(s0, i, handle) {
                            assert(s0[i] is Some && s0[at as int] is Some);
                            assert(false);
                        }
                    }
                }
            }
        } else {
            proof {
                assert(self@ =~= clear_handle(s0, handle));
            }
        }
        proof {
            lemma_register_wf(clear_handle(s0, handle), handle, signal);
        }
        self.wakers.push((handle, signal));
    }

    /// Wakes every registered entry by setting its task's ready flag; the
    /// entries stay in place.
    pub fn notify_all(&self, flags: &mut Vec<bool>)
        requires
            self.wf(),
            old(flags)@.len() == CAPACITY,
        ensures
            final(flags)@ == notified(self@, old(flags)@),
    {
        let mut j: usize = 0;
        while j < CAPACITY
            invariant
                self.wf(),
                flags@.len() == CAPACITY,
                j <= CAPACITY,
                forall|i: int|
                    0 <= i < CAPACITY ==> flags@[i] == (old(flags)@[i] || exists|k: int|
                        0 <= k < j && self@[k] is Some && (#[trigger] self@[k]->Some_0).1.slot
                            == i),
            decreases CAPACITY - j,
        {
            let ghost before = flags@;
            match self.wakers.get(j) {
                Some(e) => {
                    let sig = e.1;
                    sig.wake(flags);
                    proof {
                        assert(self@[j as int] is Some && (self@[j as int]->Some_0).1.slot
                            == sig.slot as int);
                    }
                },
                None => {},
            }
            j += 1;
        }
        proof {
            assert forall|i: int|
                0 <= i < CAPACITY implies flags@[i] == (old(flags)@[i] || wakes_slot(
                self@,
                i,
            )) by {
                if wakes_slot(self@, i) {
                    let k = choose|k: int|
                        0 <= k < self@.len() && self@[k] is Some && (
                        #[trigger] self@[k]->Some_0).1.slot == i;
                    assert(0 <= k < CAPACITY);
                }
            }
            assert(flags@ =~= notified(self@, old(flags)@));
        }
    }

    /// Count of the live registrations.
    pub fn live_count(&self) -> (n: usize)
        requires
            self.wf(),
        ensures
            n == occupied_count(self@),
    {
        self.wakers.size()
    }

    /// The entry in registry slot `i`, copied out.
    pub fn entry_at(&self, i: usize) -> (r: Option<RegistryEntry>)
        requires
            self.wf(),
            i < CAPACITY,
        ensures
            r == self@[i as int],
    {
        self.wakers.get_copy(i)
    }
}

/// Registering a fresh entry after clearing its handle keeps the registry
/// well-formed.
proof fn lemma_register_wf(s: Seq<Option<RegistryEntry>>, h: u32, sig: WakeSignal)
    requires
        s.len() == CAPACITY,
        handles_unique(s),
        slots_in_range(s),
        forall|i: int| 0 <= i < s.len() ==> !slot_has_handle(s, i, h),
        sig.slot < CAPACITY,
    ensures
        pushed(s, (h, sig)).len() == CAPACITY,
        handles_unique(pushed(s, (h, sig))),
        slots_in_range(pushed(s, (h, sig))),
{
    lemma_first_empty_from(s, 0);
    let pi = push_index(s);
    let p = pushed(s, (h, sig));
    assert forall|i: int, j: int|
        #![trigger p[i], p[j]]
        0 <= i < j < p.len() && p[i] is Some && p[j] is Some implies (p[i]->Some_0).0 != (
    p[j]->Some_0).0 by {
        if i != pi && j != pi {
            assert(p[i] == s[i] && p[j] == s[j]);
        } else if i == pi {
            assert(p[j] == s[j] && !slot_has_handle(s, j, h));
        } else {
            assert(p[i] == s[i] && !slot_has_handle(s, i, h));
        }
    }
}

/// A suspend/resume computation that completes after `target`
/// tick-delivered re-polls.
#[derive(Clone, Copy, PartialEq, Eq, Structural, Debug)]
pub struct TimerFuture {
    /// Number of tick-driven re-polls after which the wait completes.
    pub target: u32,
    /// Progress: how many polls have suspended so far.
    pub current: u32,
    /// Registration handle issued once at construction.
    pub handle: u32,
}

/// Whether a poll of `t` finds its wait elapsed and completes.
pub open spec fn timer_is_elapsed(t: TimerFuture) -> bool {
    t.current >= t.target
}

/// The result one poll of `t` reports.
pub open spec fn timer_result(t: TimerFuture) -> PollResult {
    if timer_is_elapsed(t) {
        PollResult::Ready
    } else {
        PollResult::Pending
    }
}

/// The timer-wait state after one poll.
pub open spec fn timer_step(t: TimerFuture) -> TimerFuture {
    if timer_is_elapsed(t) {
        t
    } else {
        TimerFuture { target: t.target, current: (t.current + 1) as u32, handle: t.handle }
    }
}

/// The timer-wait state after `k` polls.
pub open spec fn timer_after_polls(t: TimerFuture, k: nat) -> TimerFuture
    decreases k,
{
    if k == 0 {
        t
    } else {
        timer_step(timer_after_polls(t, (k - 1) as nat))
    }
}

impl TimerFuture {
    /// Polls the wait. Once `target` polls have suspended it completes and
    /// touches nothing; until then it counts one tick of progress, stores
    /// the polling task's wake signal under its handle — replacing any
    /// previous registration for that handle — and suspends.
    pub fn poll(&mut self, reg: &mut WakerRegistry, signal: WakeSignal) -> (r: PollResult)
        requires
            old(reg).wf(),
            signal.slot < CAPACITY,
        ensures
            final(reg).wf(),
            r == timer_result(*old(self)),
            *final(self) == timer_step(*old(self)),
            final(reg).counter() == old(reg).counter(),
            final(reg)@ == if timer_is_elapsed(*old(self)) {
                old(reg)@
            } else {
                pushed(clear_handle(old(reg)@, old(self).handle), (old(self).handle, signal))
            },
    {
        if self.current >= self.target {
            PollResult::Ready
        } else {
            self.current = self.current + 1;
            reg.register(self.handle, signal);
            PollResult::Pending
        }
    }
}

/// A fresh timer-wait for `ticks` ticks, holding a newly issued handle; it
/// registers nothing until it is first polled.
pub fn async_wait(ticks: u32, reg: &mut WakerRegistry) -> (t: TimerFuture)
    requires
        old(reg).wf(),
    ensures
        final(reg).wf(),
        t.target == ticks,
        t.current == 0,
        t.handle == wrap_inc(old(reg).counter()),
        final(reg).counter() == t.handle,
        final(reg)@ == old(reg)@,
{
    let handle = reg.fresh_handle();
    TimerFuture { target: ticks, current: 0, handle }
}

/// Law: a timer-wait started at progress zero suspends on each of its first
/// `target` polls and completes on every poll after them, its progress
/// counting each suspension until it stops at `target`.
pub proof fn lemma_timer_wait_completion(t: TimerFuture, k: nat)
    requires
        t.current == 0,
    ensures
        k <= t.target ==> timer_after_polls(t, k).current == k,
        k < t.target ==> timer_result(timer_after_polls(t, k)) == PollResult::Pending,
        k >= t.target ==> timer_result(timer_after_polls(t, k)) == PollResult::Ready,
        k >= t.target ==> timer_after_polls(t, k).current == t.target,
        timer_after_polls(t, k).target == t.target,
        timer_after_polls(t, k).handle == t.handle,
    decreases k,
{
    if k > 0 {
        lemma_timer_wait_completion(t, (k - 1) as nat);
    }
}

/// Law: re-registering a handle that is already live replaces its entry in
/// place of the registry's contents — the live count does not change, the
/// new entry is present, and every entry under another handle is untouched.
pub proof fn lemma_reregister_preserves_count(
    s: Seq<Option<RegistryEntry>>,
    h: u32,
    sig: WakeSignal,
)
    requires
        s.len() == CAPACITY,
        handles_unique(s),
        exists|i: int| slot_has_handle(s, i, h),
    ensures
        occupied_count(pushed(clear_handle(s, h), (h, sig))) == occupied_count(s),
        exists|i: int|
            0 <= i < CAPACITY && #[trigger] pushed(clear_handle(s, h), (h, sig))[i] == Some(
                (h, sig),
            ),
        forall|i: int|
            0 <= i < CAPACITY && s[i] is Some && (#[trigger] s[i]->Some_0).0 != h ==> pushed(
                clear_handle(s, h),
                (h, sig),
            )[i] == s[i],
{
    let i0 = choose|i: int| slot_has_handle(s, i, h);
    let cleared = clear_handle(s, h);
    assert(cleared =~= s.update(i0, None)) by {
        assert forall|i: int| 0 <= i < s.len() implies cleared[i] == s.update(i0, None)[i] by {
            if i != i0 && slot_has_handle(s, i, h) {
                assert(s[i] is Some && s[i0] is Some);
                assert(false);
            }
        }
    }
    lemma_live_count_remove(s, i0);
    assert(!crate::container::is_full(cleared)) by {
        assert(cleared[i0] is None);
    }
    lemma_live_count_push(cleared, (h, sig));
    lemma_first_empty_from(cleared, 0);
    let pi = push_index(cleared);
    let p = pushed(cleared, (h, sig));
    assert(p[pi] == Some((h, sig)));
    assert forall|i: int|
        0 <= i < CAPACITY && s[i] is Some && (#[trigger] s[i]->Some_0).0 != h implies p[i]
        == s[i] by {
        assert(cleared[i] == s[i]);
        assert(i != pi) by {
            if i == pi {
                assert(cleared[pi] is None);
            }
        }
    }
}

} // verus!
