use sidleffect::timer::ProgressTimer;

#[test]
fn tick_is_additive_in_elapsed() {
    let mut split = ProgressTimer::new(5000, 0);
    split.tick(2000);
    split.tick(1000);
    let mut whole = ProgressTimer::new(5000, 0);
    whole.tick(3000);
    assert_eq!(split.elapsed_ms, 3000);
    assert_eq!(split.elapsed_ms, whole.elapsed_ms);
}

#[test]
fn tick_is_additive_across_the_clamp() {
    let mut split = ProgressTimer::new(5000, 0);
    split.tick(4000);
    split.tick(4000);
    let mut whole = ProgressTimer::new(5000, 0);
    whole.tick(8000);
    assert_eq!(split.elapsed_ms, 5000);
    assert_eq!(split.elapsed_ms, whole.elapsed_ms);
}

#[test]
fn just_finished_only_on_the_finishing_tick() {
    let mut t = ProgressTimer::new(3000, 0);
    t.tick(1000);
    assert!(!t.finished());
    assert!(!t.just_finished());
    t.tick(2000);
    assert!(t.finished());
    assert!(t.just_finished());
    t.tick(500);
    assert!(t.finished());
    assert!(!t.just_finished());
}

#[test]
fn finished_timer_does_not_move() {
    let mut t = ProgressTimer::new(1000, 1000);
    t.tick(700);
    assert_eq!(t.elapsed_ms, 1000);
}

#[test]
fn set_duration_keeps_elapsed() {
    let mut t = ProgressTimer::new(5000, 0);
    t.tick(3000);
    t.set_duration(2000);
    assert_eq!(t.elapsed_ms, 3000);
    assert!(t.finished());
    assert_eq!(t.remaining_ms(), 0);
}

#[test]
fn reset_clears_elapsed() {
    let mut t = ProgressTimer::new(4000, 0);
    t.tick(4000);
    t.reset();
    assert_eq!(t.elapsed_ms, 0);
    assert!(!t.finished());
    assert!(!t.just_finished());
    assert_eq!(t.remaining_ms(), 4000);
}
