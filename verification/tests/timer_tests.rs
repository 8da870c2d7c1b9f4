use server_knocker::timer::{ResetSignal, SignalSource, TimerAction};

#[test]
fn does_expire() {
    let resettable = ResetSignal::new(0);
    let (guard, mut handle) = resettable.run_after(120, 0);

    let mut now: u64 = 0;
    let mut time: u64 = 100;
    let mut pass: u64 = 1;
    loop {
        // Whichever comes first: the countdown's end, or the next reset.
        let left = match handle.poll(now) {
            TimerAction::Sleep(left) => left,
            _ => break,
        };
        if left <= time {
            now += left;
            continue;
        }
        now += time;
        let current_pass = pass;
        pass += 1;
        time += 50;
        guard.reset(&mut handle, now);
        assert!(current_pass < 2);
    }

    assert!(pass >= 2, "ran loop less than 2 times: {:?}x", pass);
    assert_eq!(now, 220);
    assert!(handle.is_finished());
}

#[test]
fn countdown_without_reset_fires_once_after_duration() {
    let (_guard, mut timer) = ResetSignal::new(7).run_after(120, 1_000);
    assert_eq!(timer.poll(1_000), TimerAction::Sleep(120));
    assert_eq!(timer.poll(1_119), TimerAction::Sleep(1));
    assert!(!timer.is_finished());
    assert_eq!(timer.poll(1_120), TimerAction::Fire);
    assert!(timer.is_finished());
    assert_eq!(timer.poll(1_121), TimerAction::Done);
    assert_eq!(timer.poll(5_000), TimerAction::Done);
}

#[test]
fn closely_spaced_resets_postpone_expiry() {
    let (guard, mut timer) = ResetSignal::new(0).run_after(120, 0);
    guard.reset(&mut timer, 100);
    guard.reset(&mut timer, 150);
    guard.reset(&mut timer, 200);
    assert_eq!(timer.poll(200), TimerAction::Sleep(120));
    assert_eq!(timer.poll(319), TimerAction::Sleep(1));
    assert_eq!(timer.poll(320), TimerAction::Fire);
}

#[test]
fn reset_at_the_deadline_comes_too_late() {
    let (guard, mut timer) = ResetSignal::new(0).run_after(120, 0);
    guard.reset(&mut timer, 120);
    assert_eq!(timer.poll(120), TimerAction::Fire);
}

#[test]
fn reset_after_completion_is_a_no_op() {
    let (guard, mut timer) = ResetSignal::new(0).run_after(10, 0);
    assert_eq!(timer.poll(10), TimerAction::Fire);
    let before = timer;
    guard.reset(&mut timer, 11);
    guard.reset(&mut timer, 12);
    assert_eq!(timer, before);
    assert_eq!(timer.poll(13), TimerAction::Done);
}

#[test]
fn guard_of_another_trigger_resets_nothing() {
    let (_own, mut timer) = ResetSignal::new(1).run_after(100, 0);
    let stale = ResetSignal::new(0).get_guard();
    stale.reset(&mut timer, 50);
    assert_eq!(timer.poll(100), TimerAction::Fire);
}

#[test]
fn guard_from_get_guard_resets_like_the_one_handed_out() {
    let signal = ResetSignal::new(3);
    let (_first, mut timer) = signal.run_after(100, 0);
    signal.get_guard().reset(&mut timer, 60);
    assert_eq!(timer.poll(100), TimerAction::Sleep(60));
    assert_eq!(timer.poll(160), TimerAction::Fire);
}

#[test]
fn clock_reading_from_before_the_start_counts_as_no_time() {
    let (guard, mut timer) = ResetSignal::new(0).run_after(100, 500);
    assert_eq!(timer.poll(400), TimerAction::Sleep(100));
    guard.reset(&mut timer, 400);
    assert_eq!(timer.poll(599), TimerAction::Sleep(1));
    assert_eq!(timer.poll(600), TimerAction::Fire);
}

#[test]
fn zero_duration_fires_at_once() {
    let (guard, mut timer) = ResetSignal::new(0).run_after(0, 5);
    guard.reset(&mut timer, 5);
    assert_eq!(timer.poll(5), TimerAction::Fire);
}

#[test]
fn countdown_near_the_end_of_the_clock_does_not_overflow() {
    let (_guard, mut timer) = ResetSignal::new(0).run_after(u64::MAX, 10);
    assert_eq!(timer.poll(u64::MAX), TimerAction::Sleep(10));
}

#[test]
fn triggers_of_one_source_do_not_share_guards() {
    let mut source = SignalSource::new();
    let first = source.fresh().unwrap();
    let second = source.fresh().unwrap();
    let third = source.fresh().unwrap();
    assert_ne!(first, second);
    assert_ne!(second, third);
    assert_ne!(first, third);

    let (_own, mut timer) = first.run_after(120, 0);
    let (stale, _abandoned) = second.run_after(120, 0);
    stale.reset(&mut timer, 100);
    third.get_guard().reset(&mut timer, 110);
    assert_eq!(timer.poll(119), TimerAction::Sleep(1));
    assert_eq!(timer.poll(120), TimerAction::Fire);
}

#[test]
fn source_counts_from_the_start() {
    let mut source = SignalSource::new();
    assert_eq!(source.fresh(), Some(ResetSignal::new(0)));
    assert_eq!(source.fresh(), Some(ResetSignal::new(1)));
    let mut other = SignalSource::new();
    assert_eq!(other.fresh(), Some(ResetSignal::new(0)));
}
