use tickloop::async_timer::WakerRegistry;
use tickloop::executor::{Executor, Task, TaskPhase};

#[test]
fn spawned_task_starts_ready() {
    let mut exec = Executor::new();
    exec.spawn(Task::new(1, 1));
    assert_eq!(exec.task_count(), 1);
    assert!(exec.is_woken(0));
}

#[test]
fn two_single_round_tasks_finish_after_exactly_two_ticks() {
    // Two tasks that each run one round — await one tick, then yield once —
    // and finish. Driving passes with a tick after every pass that leaves
    // work behind, the run loop ends after exactly two ticks.
    let mut reg = WakerRegistry::new();
    let mut exec = Executor::new();
    exec.spawn(Task::new(1, 1));
    exec.spawn(Task::new(1, 1));
    let mut ticks = 0;
    loop {
        let empty = exec.run_pass(&mut reg);
        if empty {
            break;
        }
        exec.deliver_tick(&reg);
        ticks += 1;
        assert!(ticks < 100, "run loop failed to finish");
    }
    assert_eq!(ticks, 2);
    assert_eq!(exec.task_count(), 0);
}

#[test]
fn run_empties_the_task_set_within_its_tick_budget() {
    let mut reg = WakerRegistry::new();
    let mut exec = Executor::new();
    exec.spawn(Task::new(1, 1));
    exec.spawn(Task::new(2, 3));
    assert!(exec.run(&mut reg, 100));
    assert_eq!(exec.task_count(), 0);
}

#[test]
fn run_reports_failure_when_the_budget_is_too_small() {
    let mut reg = WakerRegistry::new();
    let mut exec = Executor::new();
    exec.spawn(Task::new(5, 1));
    assert!(!exec.run(&mut reg, 2));
    assert_eq!(exec.task_count(), 1);
}

#[test]
fn looping_task_never_finishes() {
    let mut reg = WakerRegistry::new();
    let mut exec = Executor::new();
    exec.spawn(Task::new_looping(1));
    assert!(!exec.run(&mut reg, 50));
    assert_eq!(exec.task_count(), 1);
}

#[test]
fn yield_only_task_is_polled_on_every_pass() {
    // A task whose waits are zero ticks long spends every pass on its
    // yield: it re-wakes itself each time, so no tick is ever needed, and
    // one round completes per pass after the first.
    let mut reg = WakerRegistry::new();
    let mut exec = Executor::new();
    exec.spawn(Task::new(0, 3));
    let mut passes = 0;
    loop {
        let empty = exec.run_pass(&mut reg);
        passes += 1;
        if empty {
            break;
        }
        // No tick delivered: the task alone keeps itself ready.
        assert!(exec.is_woken(0));
        assert!(passes < 100, "yield-only task starved");
    }
    assert_eq!(passes, 4);
}

#[test]
fn fifth_spawn_overwrites_slot_zero() {
    let mut exec = Executor::new();
    exec.spawn(Task::new(10, 1));
    exec.spawn(Task::new(11, 1));
    exec.spawn(Task::new(12, 1));
    exec.spawn(Task::new(13, 1));
    assert_eq!(exec.task_count(), 4);
    exec.spawn(Task::new(14, 1));
    assert_eq!(exec.task_count(), 4);
    let overwritten = exec.task_at(0).expect("slot 0 occupied");
    assert_eq!(overwritten.wait_ticks, 14);
    assert!(exec.is_woken(0));
    assert_eq!(exec.task_at(1).expect("slot 1 occupied").wait_ticks, 11);
}

#[test]
fn vacated_slot_is_reused_and_starts_ready() {
    let mut reg = WakerRegistry::new();
    let mut exec = Executor::new();
    // Slot 0 finishes quickly; the others keep waiting on long timers.
    exec.spawn(Task::new(0, 1));
    exec.spawn(Task::new(9, 1));
    exec.spawn(Task::new(9, 1));
    exec.spawn(Task::new(9, 1));
    exec.run_pass(&mut reg);
    exec.run_pass(&mut reg);
    assert_eq!(exec.task_count(), 3);
    assert!(exec.task_at(0).is_none());
    // The vacated slot is taken by the next spawn, ready flag set.
    exec.spawn(Task::new(7, 2));
    assert_eq!(exec.task_at(0).expect("slot 0 reused").wait_ticks, 7);
    assert!(exec.is_woken(0));
}

#[test]
fn tasks_progress_through_their_phases() {
    let mut reg = WakerRegistry::new();
    let mut exec = Executor::new();
    exec.spawn(Task::new(1, 1));
    let spawned = exec.task_at(0).expect("spawned");
    assert_eq!(spawned.phase, TaskPhase::Starting);
    exec.run_pass(&mut reg);
    let waiting = exec.task_at(0).expect("still live");
    assert!(matches!(waiting.phase, TaskPhase::Waiting(_)));
    assert!(!exec.is_woken(0));
    exec.deliver_tick(&reg);
    assert!(exec.is_woken(0));
    exec.run_pass(&mut reg);
    let yielding = exec.task_at(0).expect("still live");
    assert!(matches!(yielding.phase, TaskPhase::Yielding(_)));
    assert!(exec.is_woken(0));
    exec.run_pass(&mut reg);
    assert!(exec.task_at(0).is_none());
}

#[test]
fn unready_tasks_are_left_alone_by_a_pass() {
    let mut reg = WakerRegistry::new();
    let mut exec = Executor::new();
    exec.spawn(Task::new(3, 1));
    exec.run_pass(&mut reg);
    let before = exec.task_at(0);
    // Without a tick the task is not ready; passes must not touch it.
    exec.run_pass(&mut reg);
    exec.run_pass(&mut reg);
    assert_eq!(exec.task_at(0), before);
}

#[test]
fn stale_registrations_accumulate_across_rounds() {
    // Every round registers under a fresh handle and nothing ever removes
    // an entry once its wait has elapsed: the registry keeps one stale
    // entry per finished round.
    let mut reg = WakerRegistry::new();
    let mut exec = Executor::new();
    exec.spawn(Task::new(1, 3));
    assert!(exec.run(&mut reg, 100));
    assert_eq!(exec.task_count(), 0);
    assert_eq!(reg.live_count(), 3);
}

#[test]
fn execute2_runs_both_tasks_to_completion() {
    Executor::execute2(Task::new(1, 2), Task::new(2, 1));
    Executor::execute(Task::new(0, 0));
}
