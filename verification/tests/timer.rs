use chip8::timer::CountDownTimer;
use chip8::timer::TimerMessage;

/// One second for a timer that ticks sixty times a second.
fn one_second(t: &mut CountDownTimer) {
    for _ in 0..60 {
        t.tick();
    }
}

#[test]
fn timer_works() {
    let mut t = CountDownTimer::new();

    t.update(10);
    one_second(&mut t);
    assert_eq!(t.value(), 0);

    t.update(10);
    one_second(&mut t);
    assert_eq!(t.value(), 0);
}

#[test]
fn a_timer_counts_down_to_zero_and_stays() {
    let mut t = CountDownTimer::new();
    assert_eq!(t.value(), 0);

    assert_eq!(t.update(10), Some(TimerMessage::Started));
    for left in (0..10).rev() {
        assert_eq!(t.tick(), None);
        assert_eq!(t.value(), left);
    }
    assert_eq!(t.tick(), Some(TimerMessage::Stopped));
    assert_eq!(t.value(), 0);
    assert_eq!(t.tick(), Some(TimerMessage::Stopped));
    assert_eq!(t.value(), 0);
}

#[test]
fn sixty_ticks_take_sixty_off() {
    let mut t = CountDownTimer::default();
    t.update(255);
    for _ in 0..60 {
        assert_eq!(t.tick(), None);
    }
    assert_eq!(t.value(), 195);
}

#[test]
fn a_timer_at_zero_reports_that_it_stopped() {
    let mut t = CountDownTimer::new();
    assert_eq!(t.tick(), Some(TimerMessage::Stopped));
    assert_eq!(t.value(), 0);
    t.update(1);
    assert_eq!(t.tick(), None);
    assert_eq!(t.tick(), Some(TimerMessage::Stopped));
}

#[test]
fn zero_stops_a_timer_at_once() {
    let mut t = CountDownTimer::new();
    assert_eq!(t.update(0), None);
    assert_eq!(t.update(200), Some(TimerMessage::Started));
    assert_eq!(t.update(100), None);
    assert_eq!(t.value(), 100);
    assert_eq!(t.update(0), None);
    assert_eq!(t.value(), 0);
    assert_eq!(t.tick(), Some(TimerMessage::Stopped));
    assert_eq!(t.update(1), Some(TimerMessage::Started));
}
