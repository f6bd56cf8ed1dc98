use seven_guis::timer::{Message, Timer, DEFAULT_LIMIT_NANOS};

const SECOND: u64 = 1_000_000_000;

#[test]
fn new_timer_runs_with_default_limit() {
    let t = Timer::new(7);
    assert!(t.starting);
    assert_eq!(t.duration_max, DEFAULT_LIMIT_NANOS);
    assert_eq!(t.elapsed_time, 0);
    assert_eq!(t.title(), "Timer");
}

#[test]
fn timer_stops_at_limit_and_resumes_from_where_it_left_off() {
    let mut t = Timer::new(0);
    t.update(Message::SliderChanged { max: 5 * SECOND, now: 0 });
    assert!(t.starting);
    for k in 1..5u64 {
        t.update(Message::Tick(k * SECOND));
        assert!(t.starting);
        assert_eq!(t.elapsed_time, k * SECOND);
    }
    t.update(Message::Tick(5 * SECOND));
    assert!(!t.starting);
    assert_eq!(t.elapsed_time, 5 * SECOND);

    // Stopped: further ticks change nothing.
    t.update(Message::Tick(6 * SECOND));
    assert!(!t.starting);
    assert_eq!(t.elapsed_time, 5 * SECOND);

    t.update(Message::SliderChanged { max: 10 * SECOND, now: 7 * SECOND });
    assert!(t.starting);
    assert_eq!(t.elapsed_time, 5 * SECOND);

    t.update(Message::Tick(9 * SECOND));
    assert!(t.starting);
    assert_eq!(t.elapsed_time, 7 * SECOND);

    t.update(Message::Tick(12 * SECOND));
    assert!(!t.starting);
    assert_eq!(t.elapsed_time, 10 * SECOND);
}

#[test]
fn lowering_limit_below_elapsed_stops_timer() {
    let mut t = Timer::new(0);
    t.update(Message::Tick(3 * SECOND));
    assert!(t.starting);
    t.update(Message::SliderChanged { max: 2 * SECOND, now: 3 * SECOND });
    assert!(!t.starting);
    assert_eq!(t.elapsed_time, 3 * SECOND);
    assert_eq!(t.time, vec![3 * SECOND]);
}

#[test]
fn reset_starts_over() {
    let mut t = Timer::new(0);
    t.update(Message::Tick(4 * SECOND));
    t.update(Message::Reset(10 * SECOND));
    assert!(t.starting);
    assert_eq!(t.elapsed_time, 0);
    assert!(t.time.is_empty());
    t.update(Message::Tick(11 * SECOND));
    assert_eq!(t.elapsed_time, SECOND);
}

#[test]
fn earlier_tick_reads_as_last_instant() {
    let mut t = Timer::new(0);
    t.update(Message::Tick(4 * SECOND));
    t.update(Message::Tick(2 * SECOND));
    assert_eq!(t.elapsed_time, 4 * SECOND);
    assert_eq!(t.t1, 4 * SECOND);
}
