use seven_guis::counter::{Counter, Message};

#[test]
fn three_increments_from_zero_give_three() {
    let mut c = Counter::new();
    assert_eq!(c.value, 0);
    c.update(Message::IncrementPressed);
    c.update(Message::IncrementPressed);
    c.update(Message::IncrementPressed);
    assert_eq!(c.value, 3);
}

#[test]
fn increment_saturates_at_maximum() {
    let mut c = Counter { value: u32::MAX - 1 };
    c.update(Message::IncrementPressed);
    assert_eq!(c.value, u32::MAX);
    c.update(Message::IncrementPressed);
    assert_eq!(c.value, u32::MAX);
}

#[test]
fn counter_title() {
    assert_eq!(Counter::new().title(), "Counter");
}
