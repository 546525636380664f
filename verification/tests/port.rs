use chip8::port::forwarding_continues;
use chip8::port::ControlPin;
use chip8::port::Delivery;
use chip8::quirks::Quirk;
use chip8::quirks::Quirks;
use chip8::sound::Message;
use chip8::timer::TimerMessage;

#[test]
fn the_beeper_plays_while_the_timer_runs() {
    assert_eq!(Message::from(TimerMessage::Started), Message::Play);
    assert_eq!(Message::from(TimerMessage::Stopped), Message::Pause);
    let m: Message = TimerMessage::Started.into();
    assert_eq!(m, Message::Play);
    assert_ne!(Message::Stop, Message::Pause);
}

#[test]
fn a_pin_stays_raised() {
    let mut pin = ControlPin::default();
    assert!(!pin.is_raised());
    pin.raise();
    assert!(pin.is_raised());
    pin.raise();
    assert!(pin.is_raised());
}

#[test]
fn a_forwarder_ends_when_its_target_is_gone() {
    assert!(forwarding_continues(Delivery::Sent));
    assert!(forwarding_continues(Delivery::Full));
    assert!(!forwarding_continues(Delivery::Disconnected));
}

#[test]
fn quirks_are_a_set() {
    let mut q = Quirks::empty();
    assert!(!q.contains(Quirk::LoadStoreIgnoresI));
    assert!(!q.contains(Quirk::ShiftReadsVx));
    assert!(!q.contains(Quirk::DrawWrapsPixels));
    q.insert(Quirk::ShiftReadsVx);
    q.insert(Quirk::ShiftReadsVx);
    assert!(q.contains(Quirk::ShiftReadsVx));
    assert!(!q.contains(Quirk::DrawWrapsPixels));
    q.insert(Quirk::DrawWrapsPixels);
    q.insert(Quirk::LoadStoreIgnoresI);
    assert!(q.contains(Quirk::LoadStoreIgnoresI));
    assert!(q.contains(Quirk::ShiftReadsVx));
    assert!(q.contains(Quirk::DrawWrapsPixels));
}
