use lingua_capi::{get_error, set_error, ErrorState};

#[test]
fn a_new_slot_is_empty() {
    let errors = ErrorState::new();
    assert_eq!(get_error(&errors), None);
    assert_eq!(errors.current(), None);
}

#[test]
fn report_replaces_the_message() {
    let mut errors = ErrorState::new();
    errors.report("first");
    assert_eq!(get_error(&errors), Some("first"));
    errors.report("second");
    assert_eq!(get_error(&errors), Some("second"));
}

#[test]
fn get_error_twice_gives_the_same_message() {
    let mut errors = ErrorState::new();
    assert_eq!(get_error(&errors), get_error(&errors));
    errors.report("text is null");
    let first = get_error(&errors).map(|m| m.to_string());
    let second = get_error(&errors).map(|m| m.to_string());
    assert_eq!(first, Some("text is null".to_string()));
    assert_eq!(first, second);
}

#[test]
fn set_error_stores_the_decoded_message() {
    let mut errors = ErrorState::new();
    set_error(&mut errors, Some("größer".as_bytes()));
    assert_eq!(get_error(&errors), Some("größer"));
}

#[test]
fn set_error_without_a_message_changes_nothing() {
    let mut errors = ErrorState::new();
    set_error(&mut errors, None);
    assert_eq!(get_error(&errors), None);
    errors.report("kept");
    set_error(&mut errors, None);
    assert_eq!(get_error(&errors), Some("kept"));
}

#[test]
fn set_error_with_invalid_utf8_changes_nothing() {
    let mut errors = ErrorState::new();
    errors.report("kept");
    set_error(&mut errors, Some(&[0x66, 0xff, 0x6f]));
    assert_eq!(get_error(&errors), Some("kept"));
}

#[test]
fn set_error_with_an_empty_message_stores_it() {
    let mut errors = ErrorState::new();
    errors.report("old");
    set_error(&mut errors, Some(b""));
    assert_eq!(get_error(&errors), Some(""));
}
