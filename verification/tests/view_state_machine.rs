//! The view state machine: transitions, cursor movement, and the
//! single-in-flight fetch guarantee.

use syres::state::{Controller, InputEvent, ViewState};

fn bv(s: &str) -> Vec<u8> {
    s.as_bytes().to_vec()
}

fn controller_ab() -> Controller {
    Controller::new(vec![bv("A"), bv("B")])
}

#[test]
fn confirming_first_location_opens_its_booking_form() {
    let mut c = controller_ab();
    assert_eq!(c.view, ViewState::LocationSelection);
    assert_eq!(c.selected, 0);
    let cmd = c.handle_event(InputEvent::Confirm).unwrap();
    assert_eq!(c.view, ViewState::BookingForm { location: bv("A") });
    assert_eq!(cmd.location, bv("A"));
}

#[test]
fn cancel_from_booking_form_records_no_location() {
    let mut c = controller_ab();
    c.handle_event(InputEvent::Confirm);
    let cmd = c.handle_event(InputEvent::Cancel);
    assert!(cmd.is_none());
    assert_eq!(c.view, ViewState::LocationSelection);
    assert!(c.space_ids.is_empty());
    assert!(!c.fetch_pending);
    assert!(c.running);
}

#[test]
fn stale_fetch_result_is_discarded_fresh_one_applied() {
    let mut c = controller_ab();
    let first = c.handle_event(InputEvent::Confirm).unwrap();
    c.handle_event(InputEvent::Cancel);
    c.handle_event(InputEvent::Down);
    let second = c.handle_event(InputEvent::Confirm).unwrap();
    assert_eq!(second.location, bv("B"));
    assert_ne!(first.generation, second.generation);

    // The first fetch's result arrives late: nothing may change.
    c.apply_fetch_result(first.generation, vec![bv("1")]);
    assert!(c.space_ids.is_empty());
    assert!(c.fetch_pending);

    // Only the second fetch's result is applied.
    c.apply_fetch_result(second.generation, vec![bv("9")]);
    assert_eq!(c.space_ids, vec![bv("9")]);
    assert!(!c.fetch_pending);
}

#[test]
fn fetch_failure_raises_warning_with_empty_spaces() {
    let mut c = controller_ab();
    let cmd = c.handle_event(InputEvent::Confirm).unwrap();
    c.apply_fetch_failure(cmd.generation);
    assert_eq!(c.view, ViewState::BookingForm { location: bv("A") });
    assert!(c.space_ids.is_empty());
    assert!(c.resolution_warning);
    assert!(!c.fetch_pending);
}

#[test]
fn confirm_walks_form_confirmation_and_back() {
    let mut c = controller_ab();
    c.handle_event(InputEvent::Confirm);
    let cmd = c.handle_event(InputEvent::Confirm);
    assert!(cmd.is_none());
    assert_eq!(c.view, ViewState::Confirmation { location: bv("A") });
    c.handle_event(InputEvent::Confirm);
    assert_eq!(c.view, ViewState::LocationSelection);
}

#[test]
fn cursor_wraps_both_ways() {
    let mut c = controller_ab();
    c.handle_event(InputEvent::Up);
    assert_eq!(c.selected, 1);
    c.handle_event(InputEvent::Down);
    assert_eq!(c.selected, 0);
    c.handle_event(InputEvent::Down);
    c.handle_event(InputEvent::Down);
    assert_eq!(c.selected, 0);
}

#[test]
fn cancel_in_selection_and_quit_stop_the_loop() {
    let mut c = controller_ab();
    c.handle_event(InputEvent::Cancel);
    assert!(!c.running);
    let mut c2 = controller_ab();
    c2.handle_event(InputEvent::Quit);
    assert!(!c2.running);
}

#[test]
fn counter_saturates_at_both_ends() {
    let mut c = controller_ab();
    c.decrement_counter();
    assert_eq!(c.counter, 0);
    c.increment_counter();
    c.increment_counter();
    assert_eq!(c.counter, 2);
    c.counter = u64::MAX;
    c.increment_counter();
    assert_eq!(c.counter, u64::MAX);
}

#[test]
fn empty_location_list_confirms_nothing() {
    let mut c = Controller::new(Vec::new());
    let cmd = c.handle_event(InputEvent::Confirm);
    assert!(cmd.is_none());
    assert_eq!(c.view, ViewState::LocationSelection);
    c.handle_event(InputEvent::Up);
    c.handle_event(InputEvent::Down);
    assert_eq!(c.selected, 0);
}
