use logic_farming::countdown::Countdown;

#[test]
fn new_countdown_has_no_time_elapsed() {
    let countdown = Countdown::new(2_000_000_000);
    assert_eq!(countdown, Countdown { duration: 2_000_000_000, elapsed: 0, finished: false });
}

#[test]
fn tick_adds_time_below_the_duration() {
    let mut countdown = Countdown::new(2_000_000_000);
    countdown.tick(750_000_000);
    assert_eq!(
        countdown,
        Countdown { duration: 2_000_000_000, elapsed: 750_000_000, finished: false }
    );
    countdown.tick(1_249_999_999);
    assert_eq!(
        countdown,
        Countdown { duration: 2_000_000_000, elapsed: 1_999_999_999, finished: false }
    );
}

#[test]
fn tick_completes_when_the_duration_is_reached() {
    let mut countdown = Countdown::new(2_000_000_000);
    countdown.tick(1_999_999_999);
    assert!(!countdown.finished);
    countdown.tick(1);
    assert_eq!(
        countdown,
        Countdown { duration: 2_000_000_000, elapsed: 2_000_000_000, finished: true }
    );
}

#[test]
fn tick_clamps_at_the_duration() {
    let mut countdown = Countdown::new(1_000_000_000);
    countdown.tick(1_500_000_000);
    assert_eq!(
        countdown,
        Countdown { duration: 1_000_000_000, elapsed: 1_000_000_000, finished: true }
    );
}

#[test]
fn finished_countdown_does_not_move() {
    let mut countdown = Countdown::new(1_000_000_000);
    countdown.tick(1_000_000_000);
    let done = countdown;
    countdown.tick(0);
    assert_eq!(countdown, done);
    countdown.tick(5_000_000_000);
    assert_eq!(countdown, done);
}

#[test]
fn tick_of_nothing_leaves_a_running_countdown() {
    let mut countdown = Countdown::new(1_000_000_000);
    countdown.tick(400);
    countdown.tick(0);
    assert_eq!(countdown, Countdown { duration: 1_000_000_000, elapsed: 400, finished: false });
}

#[test]
fn countdown_of_no_duration_completes_on_its_first_tick() {
    let mut countdown = Countdown::new(0);
    assert!(!countdown.finished);
    countdown.tick(0);
    assert_eq!(countdown, Countdown { duration: 0, elapsed: 0, finished: true });
}

#[test]
fn two_ticks_are_one_tick_of_their_sum() {
    for (first, second) in [(0u64, 0u64), (3, 4), (1_999_999_999, 1), (2_000_000_000, 7), (1, 5_000_000_000)] {
        let mut twice = Countdown::new(2_000_000_000);
        twice.tick(first);
        twice.tick(second);
        let mut once = Countdown::new(2_000_000_000);
        once.tick(first + second);
        assert_eq!(twice, once);
    }
}

#[test]
fn tick_takes_the_largest_numbers() {
    let mut countdown = Countdown { duration: u64::MAX, elapsed: u64::MAX - 1, finished: false };
    countdown.tick(u64::MAX);
    assert_eq!(countdown, Countdown { duration: u64::MAX, elapsed: u64::MAX, finished: true });

    let mut long = Countdown::new(u64::MAX);
    long.tick(u64::MAX - 1);
    assert_eq!(long, Countdown { duration: u64::MAX, elapsed: u64::MAX - 1, finished: false });
}

#[test]
fn tick_completes_a_countdown_that_is_past_its_duration() {
    let mut countdown = Countdown { duration: 5, elapsed: 9, finished: false };
    countdown.tick(0);
    assert_eq!(countdown, Countdown { duration: 5, elapsed: 5, finished: true });
}
