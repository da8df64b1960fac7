use rand::Rng;
use whorl::futures::{Sleep, Work};
use whorl::runtime::{block_on, setup_runtime, spawn, wait, Runtime};

/// Drives turns with a clock that advances `tick` units per turn, until
/// every task has completed or `max_turns` turns have run; hands back the
/// clock reading after the last turn.
fn run_with_clock(rt: &mut Runtime, start: u128, tick: u128, max_turns: u32) -> u128 {
    let mut now = start;
    let mut turns = 0u32;
    while !wait(rt) && turns < max_turns {
        rt.run_turn(now);
        now += tick;
        turns += 1;
    }
    now
}

#[test]
fn counter_returns_to_zero_for_any_task_count() {
    // The live-task counter comes back to exactly zero after spawning and
    // completing m tasks, for every m tried, zero included.
    for m in 0..6u64 {
        let mut rt = setup_runtime();
        for i in 0..m {
            spawn(&mut rt, Work::CountDown { left: i });
        }
        assert_eq!(rt.live_tasks(), m);
        run_with_clock(&mut rt, 0, 1, 10_000);
        assert_eq!(rt.live_tasks(), 0);
        assert_eq!(rt.completions().len() as u64, m);
        assert!(wait(&rt));
    }
}

#[test]
fn counter_returns_to_zero_for_random_task_mix() {
    let mut rng = rand::thread_rng();
    for _ in 0..20 {
        let mut rt = setup_runtime();
        let m: u64 = rng.gen_range(0..25);
        for _ in 0..m {
            let left = rng.gen_range(0..6u64);
            if rng.gen_range(0..2) == 0 {
                spawn(&mut rt, Work::CountDown { left });
            } else {
                block_on(&mut rt, Work::CountDown { left });
            }
        }
        assert_eq!(rt.live_tasks(), m);
        run_with_clock(&mut rt, 0, 1, 100_000);
        assert_eq!(rt.live_tasks(), 0);
        assert_eq!(rt.completions().len() as u64, m);
    }
}

#[test]
fn wait_reports_done_only_after_every_task() {
    // `wait`'s condition stays false from the first spawn to the last
    // completion, transitively spawned children included.
    let mut rt = setup_runtime();
    let child = Work::CountDown { left: 1 };
    spawn(
        &mut rt,
        Work::TimerThenSpawn { sleep: Sleep::new_at(30, 0), child: Box::new(child) },
    );
    spawn(&mut rt, Work::CountDown { left: 2 });
    assert!(!wait(&rt));
    let mut now: u128 = 0;
    let mut turns = 0u32;
    while !wait(&rt) && turns < 1000 {
        assert!(rt.live_tasks() > 0);
        rt.run_turn(now);
        now += 10;
        turns += 1;
    }
    assert!(wait(&rt));
    assert_eq!(rt.live_tasks(), 0);
    // parent, plain task, and the transitively spawned child
    assert_eq!(rt.completions().len(), 3);
    assert_eq!(rt.spawned_total(), 3);
}

#[test]
fn non_blocking_tasks_complete_in_spawn_order() {
    let mut rt = setup_runtime();
    for _ in 0..3 {
        spawn(&mut rt, Work::CountDown { left: 0 });
    }
    run_with_clock(&mut rt, 0, 1, 100);
    assert_eq!(rt.completions().as_slice(), &[0, 1, 2]);
}

#[test]
fn blocking_task_jumps_ahead_of_the_queue() {
    let mut rt = setup_runtime();
    spawn(&mut rt, Work::CountDown { left: 0 });
    spawn(&mut rt, Work::CountDown { left: 0 });
    block_on(&mut rt, Work::CountDown { left: 0 });
    run_with_clock(&mut rt, 0, 1, 100);
    // id 2 was enqueued last but at the front, so it completes first
    assert_eq!(rt.completions().as_slice(), &[2, 0, 1]);
}

#[test]
fn blocking_task_starves_later_spawn_until_it_completes() {
    // A blocking 300-unit timer is enqueued, then an eager no-delay task:
    // the eager task is observed to complete only after the blocking one,
    // even though it was ready the whole time.
    let mut rt = setup_runtime();
    block_on(&mut rt, Work::Timer { sleep: Sleep::new_at(300, 0) });
    spawn(&mut rt, Work::CountDown { left: 0 });
    let x = 0u64; // the blocking timer's id
    let y = 1u64; // the eager task's id
    let mut now: u128 = 0;
    let mut turns = 0u32;
    while !rt.completions().contains(&x) && turns < 1000 {
        // until the blocking task completes, nothing else has
        assert!(rt.completions().is_empty());
        rt.run_turn(now);
        now += 10;
        turns += 1;
    }
    assert!(now >= 300);
    assert_eq!(rt.completions().as_slice(), &[x]);
    // shortly after, the starved task gets its turn
    rt.run_turn(now);
    assert_eq!(rt.completions().as_slice(), &[x, y]);
}

#[test]
fn second_block_on_waits_for_the_first() {
    // X1 is dequeued and monopolizes the worker; X2, enqueued meanwhile,
    // begins being driven only after X1 finishes.
    let mut rt = setup_runtime();
    block_on(&mut rt, Work::Timer { sleep: Sleep::new_at(100, 0) });
    rt.run_turn(0);
    assert!(rt.is_driving());
    block_on(&mut rt, Work::Timer { sleep: Sleep::new_at(50, 0) });
    let x1 = 0u64;
    let x2 = 1u64;
    let mut now: u128 = 10;
    while !rt.completions().contains(&x1) {
        // X2 is ready from reading 50 on, yet is not even polled
        assert!(!rt.completions().contains(&x2));
        rt.run_turn(now);
        now += 10;
    }
    assert_eq!(rt.completions().as_slice(), &[x1]);
    run_with_clock(&mut rt, now, 10, 100);
    assert_eq!(rt.completions().as_slice(), &[x1, x2]);
}

#[test]
fn task_spawned_from_a_task_is_awaited_too() {
    // A waits 100 units, then spawns B which waits 50 more; `wait` holds
    // until both are done, and A's completion is logged before B's.
    let mut rt = setup_runtime();
    let b = Work::Timer { sleep: Sleep::new_at(50, 100) };
    let a = Work::TimerThenSpawn { sleep: Sleep::new_at(100, 0), child: Box::new(b) };
    spawn(&mut rt, a);
    let mut now: u128 = 0;
    while !wait(&rt) {
        rt.run_turn(now);
        now += 10;
    }
    // the whole run spans at least the two delays end to end
    assert!(now >= 150);
    let a_id = 0u64;
    let b_id = 1u64;
    assert_eq!(rt.completions().as_slice(), &[a_id, b_id]);
    assert_eq!(rt.live_tasks(), 0);
}
