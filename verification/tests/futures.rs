use tickloop::async_timer::{async_wait, WakerRegistry};
use tickloop::wake::{PollResult, WakeSignal};
use tickloop::yield_now::yield_now;

#[test]
fn timer_wait_completes_after_target_notify_poll_cycles() {
    let mut reg = WakerRegistry::new();
    let mut flags = vec![false, false, false, false];
    let sig = WakeSignal { slot: 0 };
    let n = 3u32;
    let mut t = async_wait(n, &mut reg);
    // Initial poll suspends and registers.
    assert_eq!(t.poll(&mut reg, sig), PollResult::Pending);
    assert_eq!(reg.live_count(), 1);
    // n notify cycles, each followed by one re-poll: pending until the nth.
    for cycle in 1..=n {
        flags = vec![false, false, false, false];
        reg.notify_all(&mut flags);
        assert!(flags[0]);
        let r = t.poll(&mut reg, sig);
        if cycle < n {
            assert_eq!(r, PollResult::Pending);
        } else {
            assert_eq!(r, PollResult::Ready);
        }
    }
    assert_eq!(t.current, n);
}

#[test]
fn timer_wait_zero_completes_on_first_poll_without_registering() {
    let mut reg = WakerRegistry::new();
    let sig = WakeSignal { slot: 2 };
    let mut t = async_wait(0, &mut reg);
    assert_eq!(t.poll(&mut reg, sig), PollResult::Ready);
    assert_eq!(reg.live_count(), 0);
}

#[test]
fn repolling_pending_timer_replaces_entry_under_same_handle() {
    let mut reg = WakerRegistry::new();
    let mut t = async_wait(10, &mut reg);
    assert_eq!(t.poll(&mut reg, WakeSignal { slot: 1 }), PollResult::Pending);
    assert_eq!(reg.live_count(), 1);
    let first = reg.entry_at(0).expect("entry in slot 0");
    assert_eq!(first.0, t.handle);
    assert_eq!(first.1.slot, 1);
    // Re-poll without any intervening notification, under another signal.
    assert_eq!(t.poll(&mut reg, WakeSignal { slot: 2 }), PollResult::Pending);
    assert_eq!(reg.live_count(), 1);
    let replaced = reg.entry_at(0).expect("entry still in slot 0");
    assert_eq!(replaced.0, t.handle);
    assert_eq!(replaced.1.slot, 2);
    // And once more: the live count never grows from re-polls.
    assert_eq!(t.poll(&mut reg, WakeSignal { slot: 2 }), PollResult::Pending);
    assert_eq!(reg.live_count(), 1);
}

#[test]
fn two_pending_timers_hold_two_entries() {
    let mut reg = WakerRegistry::new();
    let mut a = async_wait(5, &mut reg);
    let mut b = async_wait(5, &mut reg);
    assert_ne!(a.handle, b.handle);
    a.poll(&mut reg, WakeSignal { slot: 0 });
    b.poll(&mut reg, WakeSignal { slot: 1 });
    assert_eq!(reg.live_count(), 2);
}

#[test]
fn colliding_handle_registration_replaces_the_older_entry() {
    // A wrapped-around handle that aliases a live registration does not add
    // an entry; it silently replaces the older one.
    let mut reg = WakerRegistry::new();
    reg.register(7, WakeSignal { slot: 0 });
    reg.register(7, WakeSignal { slot: 3 });
    assert_eq!(reg.live_count(), 1);
    let e = reg.entry_at(0).expect("entry in slot 0");
    assert_eq!(e, (7, WakeSignal { slot: 3 }));
}

#[test]
fn notify_all_wakes_every_registered_slot_and_keeps_entries() {
    let mut reg = WakerRegistry::new();
    reg.register(1, WakeSignal { slot: 0 });
    reg.register(2, WakeSignal { slot: 3 });
    let mut flags = vec![false, false, false, false];
    reg.notify_all(&mut flags);
    assert_eq!(flags, vec![true, false, false, true]);
    // Entries are not consumed by notification.
    assert_eq!(reg.live_count(), 2);
    let mut again = vec![false, false, false, false];
    reg.notify_all(&mut again);
    assert_eq!(again, vec![true, false, false, true]);
}

#[test]
fn fresh_handles_count_up_from_one() {
    let mut reg = WakerRegistry::new();
    let a = async_wait(1, &mut reg);
    let b = async_wait(1, &mut reg);
    let c = async_wait(1, &mut reg);
    assert_eq!(a.handle, 1);
    assert_eq!(b.handle, 2);
    assert_eq!(c.handle, 3);
}

#[test]
fn yield_is_pending_once_then_ready() {
    let mut flags = vec![false, false, false, false];
    let sig = WakeSignal { slot: 1 };
    let mut y = yield_now();
    assert_eq!(y.poll(&mut flags, sig), PollResult::Pending);
    // The first poll immediately re-wakes its own task.
    assert!(flags[1]);
    flags[1] = false;
    assert_eq!(y.poll(&mut flags, sig), PollResult::Ready);
    // Completion does not wake anything.
    assert_eq!(flags, vec![false, false, false, false]);
    assert_eq!(y.poll(&mut flags, sig), PollResult::Ready);
}
