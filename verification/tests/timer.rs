use whorl::futures::{Poll, Sleep, Work};

#[test]
fn timer_never_ready_before_duration() {
    // A timer of 300 units created at clock reading 1000 must stay
    // suspended for every poll strictly before 1300.
    let s = Sleep::new_at(300, 1000);
    let mut now: u128 = 0;
    while now < 1300 {
        assert_eq!(s.poll_at(now), Poll::Suspended);
        now += 1;
    }
}

#[test]
fn timer_ready_at_and_after_duration() {
    let s = Sleep::new_at(300, 1000);
    assert_eq!(s.poll_at(1300), Poll::Ready);
    assert_eq!(s.poll_at(1301), Poll::Ready);
    assert_eq!(s.poll_at(100_000), Poll::Ready);
}

#[test]
fn timer_zero_duration_is_ready_at_once() {
    let s = Sleep::new_at(0, 42);
    assert_eq!(s.poll_at(42), Poll::Ready);
    assert_eq!(s.poll_at(43), Poll::Ready);
}

#[test]
fn timer_before_creation_instant_is_suspended() {
    // A clock reading before the creation instant counts as not elapsed.
    let s = Sleep::new_at(10, 500);
    assert_eq!(s.poll_at(0), Poll::Suspended);
    assert_eq!(s.poll_at(499), Poll::Suspended);
}

#[test]
fn real_clock_timer_reports_its_duration() {
    // The machine-clock constructor fixes the duration; its creation
    // instant is whatever the clock read, so far in the future it has
    // elapsed either way.
    let s = Sleep::new(5);
    assert_eq!(s.poll_at(u128::MAX), Poll::Ready);
}

#[test]
fn countdown_suspends_exactly_left_times() {
    let mut w = Work::CountDown { left: 2 };
    assert_eq!(w.poll(0), Poll::Suspended);
    assert_eq!(w.poll(0), Poll::Suspended);
    assert_eq!(w.poll(0), Poll::Ready);
    assert_eq!(w.poll(0), Poll::Ready);
}

#[test]
fn completion_spawn_hands_out_the_child() {
    let child = Work::Timer { sleep: Sleep::new_at(50, 100) };
    let w = Work::TimerThenSpawn { sleep: Sleep::new_at(100, 0), child: Box::new(child) };
    match w.into_spawned_child() {
        Some(Work::Timer { sleep }) => {
            assert_eq!(sleep.poll_at(149), Poll::Suspended);
            assert_eq!(sleep.poll_at(150), Poll::Ready);
        }
        _ => panic!("expected the timer child back"),
    }
    assert!(Work::CountDown { left: 3 }.into_spawned_child().is_none());
}
