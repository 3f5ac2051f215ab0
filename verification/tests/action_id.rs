use redux::{ActionId, ActionWithMeta};

#[test]
fn new_unchecked_keeps_value() {
    let id = ActionId::new_unchecked(123_456_789);
    assert_eq!(id.as_nanos(), 123_456_789);
}

#[test]
fn next_advances_by_elapsed_time() {
    let id = ActionId::new_unchecked(1_000);
    assert_eq!(id.next(15).as_nanos(), 1_015);
}

#[test]
fn next_advances_by_one_on_stalled_clock() {
    let id = ActionId::new_unchecked(7);
    assert_eq!(id.next(0).as_nanos(), 8);
}

#[test]
fn next_pins_at_the_cap() {
    let id = ActionId::new_unchecked(u64::MAX - 1);
    assert_eq!(id.next(10).as_nanos(), u64::MAX);
    assert_eq!(id.next(1).as_nanos(), u64::MAX);
    let pinned = ActionId::new_unchecked(u64::MAX);
    assert_eq!(pinned.next(0).as_nanos(), u64::MAX);
}

#[test]
fn duration_since_is_the_difference_when_later() {
    let a = ActionId::new_unchecked(1_500);
    let b = ActionId::new_unchecked(900);
    assert_eq!(a.duration_since(b), 600);
}

#[test]
fn duration_since_saturates_to_zero() {
    let a = ActionId::new_unchecked(900);
    let b = ActionId::new_unchecked(1_500);
    assert_eq!(a.duration_since(b), 0);
    assert_eq!(a.duration_since(a), 0);
}

#[test]
fn ids_order_as_their_values() {
    let a = ActionId::new_unchecked(1);
    let b = ActionId::new_unchecked(2);
    assert!(a < b);
    assert_eq!(a, ActionId::new_unchecked(1));
}

#[test]
fn action_with_meta_reports_its_stamp() {
    let stamped = ActionWithMeta { id: ActionId::new_unchecked(42), action: "go" };
    assert_eq!(stamped.time_as_nanos(), 42);
    assert_eq!(stamped.duration_since_epoch(), 42);
}

#[test]
fn action_with_meta_duration_since_saturates() {
    let early = ActionWithMeta { id: ActionId::new_unchecked(100), action: 0u8 };
    let late = ActionWithMeta { id: ActionId::new_unchecked(130), action: 1u8 };
    assert_eq!(late.duration_since(&early), 30);
    assert_eq!(early.duration_since(&late), 0);
}
