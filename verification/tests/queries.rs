use lingua_capi::{
    bulk_query, confidence_query, detection_query, get_error,
    lingua_detector_create_from_languages, ErrorState, LinguaDetector,
};

fn detector_for(languages: &str) -> LinguaDetector {
    let mut errors = ErrorState::new();
    lingua_detector_create_from_languages(Some(languages.as_bytes()), &mut errors).unwrap()
}

#[test]
fn a_detection_asks_the_given_detector_about_the_decoded_text() {
    let detector = detector_for("en,de");
    let mut errors = ErrorState::new();
    let text = "Grüße aus Köln".as_bytes();
    let (asked, decoded) = detection_query(Some(&detector), Some(text), &mut errors).unwrap();
    assert!(std::ptr::eq(asked, &detector));
    assert_eq!(decoded, "Grüße aus Köln");
    assert_eq!(get_error(&errors), None);
}

#[test]
fn a_detection_that_cannot_be_asked_asks_nothing() {
    let detector = detector_for("en,de");

    let mut errors = ErrorState::new();
    assert!(detection_query(None, Some(b"Hello".as_slice()), &mut errors).is_none());
    assert_eq!(get_error(&errors), Some("detector is null"));

    let mut errors = ErrorState::new();
    assert!(detection_query(Some(&detector), None, &mut errors).is_none());
    assert_eq!(get_error(&errors), Some("text is null"));

    let mut errors = ErrorState::new();
    assert!(detection_query(Some(&detector), Some([0x80].as_slice()), &mut errors).is_none());
    assert_eq!(get_error(&errors), Some("Invalid UTF-8 in text"));
}

#[test]
fn a_confidence_asks_for_the_code_as_the_engine_writes_it() {
    let detector = detector_for("en,de");
    let mut errors = ErrorState::new();
    let (asked, decoded, code) = confidence_query(
        Some(&detector),
        Some(b"Hallo, wie geht es dir?".as_slice()),
        Some(b"De".as_slice()),
        &mut errors,
    )
    .unwrap();
    assert!(std::ptr::eq(asked, &detector));
    assert_eq!(decoded, "Hallo, wie geht es dir?");
    assert_eq!(code, "de");
    assert_eq!(get_error(&errors), None);

    let (_, _, code) = confidence_query(
        Some(&detector),
        Some(b"".as_slice()),
        Some(b"FR".as_slice()),
        &mut errors,
    )
    .unwrap();
    assert_eq!(code, "fr");
}

#[test]
fn a_confidence_that_cannot_be_asked_asks_nothing() {
    let detector = detector_for("en,de");
    let text = b"Hello".as_slice();

    let mut errors = ErrorState::new();
    assert!(confidence_query(None, Some(text), Some(b"en".as_slice()), &mut errors).is_none());
    assert_eq!(get_error(&errors), Some("null parameter"));

    let mut errors = ErrorState::new();
    assert!(confidence_query(Some(&detector), Some(text), None, &mut errors).is_none());
    assert_eq!(get_error(&errors), Some("null parameter"));

    let mut errors = ErrorState::new();
    let query =
        confidence_query(Some(&detector), Some([0xff].as_slice()), Some(b"en".as_slice()), &mut errors);
    assert!(query.is_none());
    assert_eq!(get_error(&errors), Some("Invalid UTF-8 in text"));

    let mut errors = ErrorState::new();
    assert!(confidence_query(Some(&detector), Some(text), Some(b"e".as_slice()), &mut errors).is_none());
    assert_eq!(get_error(&errors), Some("Invalid language code"));

    let mut errors = ErrorState::new();
    assert!(confidence_query(Some(&detector), Some(text), Some(b"eng".as_slice()), &mut errors).is_none());
    assert_eq!(get_error(&errors), Some("Invalid language code"));

    let mut errors = ErrorState::new();
    let query =
        confidence_query(Some(&detector), Some(text), Some("e\u{17f}".as_bytes()), &mut errors);
    assert!(query.is_none());
    assert_eq!(get_error(&errors), Some("Invalid language code"));
}

#[test]
fn a_bulk_query_asks_the_given_detector_about_the_decoded_text() {
    let detector = detector_for("en,de");
    let mut errors = ErrorState::new();
    let (asked, decoded) =
        bulk_query(Some(&detector), Some("naïve".as_bytes()), true, &mut errors).unwrap();
    assert!(std::ptr::eq(asked, &detector));
    assert_eq!(decoded, "naïve");
    assert_eq!(get_error(&errors), None);
}

#[test]
fn a_bulk_query_that_cannot_be_asked_asks_nothing() {
    let detector = detector_for("en,de");
    let text = b"Hello".as_slice();

    let mut errors = ErrorState::new();
    assert!(bulk_query(Some(&detector), Some(text), false, &mut errors).is_none());
    assert_eq!(get_error(&errors), Some("null parameter"));

    let mut errors = ErrorState::new();
    assert!(bulk_query(None, Some(text), true, &mut errors).is_none());
    assert_eq!(get_error(&errors), Some("null parameter"));

    let mut errors = ErrorState::new();
    assert!(bulk_query(Some(&detector), None, true, &mut errors).is_none());
    assert_eq!(get_error(&errors), Some("null parameter"));

    let mut errors = ErrorState::new();
    assert!(bulk_query(Some(&detector), Some([0xe2, 0x82].as_slice()), true, &mut errors).is_none());
    assert_eq!(get_error(&errors), Some("Invalid UTF-8"));
}

#[test]
fn the_white_space_of_ascii_is_the_space_and_five_controls() {
    for byte in 0u8..=0x7f {
        let c = byte as char;
        let expected = c == ' ' || ('\t'..='\r').contains(&c);
        assert_eq!(c.is_whitespace(), expected);
    }
}

#[test]
fn only_the_white_space_of_ascii_is_trimmed_from_an_ascii_entry() {
    for byte in 0u8..=0x7f {
        let around = [byte, b'e', b'n', byte];
        let mut errors = ErrorState::new();
        let handle = lingua_detector_create_from_languages(Some(around.as_slice()), &mut errors);
        let trimmed = byte == b' ' || (b'\t'..=b'\r').contains(&byte);
        assert_eq!(handle.is_some(), trimmed);
        if byte == b',' {
            assert_eq!(get_error(&errors), Some("Invalid language code: "));
        } else if !trimmed {
            let written = String::from_utf8(around.to_vec()).unwrap();
            let message = format!("Invalid language code: {}", written);
            assert_eq!(get_error(&errors), Some(message.as_str()));
        }
    }
}

#[test]
fn the_languages_of_a_detector_are_codes_that_a_confidence_query_accepts() {
    let detector = detector_for(" EN ,fr, Es");
    let mut errors = ErrorState::new();
    let mut count = 0usize;
    let values = lingua_capi::lingua_compute_language_confidence_values(
        Some(&detector),
        Some(b"languages are awesome".as_slice()),
        Some(&mut count),
        &mut errors,
    )
    .unwrap();
    assert_eq!(count, 3);
    for value in values {
        let (_, _, code) = confidence_query(
            Some(&detector),
            Some(b"languages are awesome".as_slice()),
            Some(value.language_code.as_bytes()),
            &mut errors,
        )
        .unwrap();
        assert_eq!(code, value.language_code);
    }
    assert_eq!(get_error(&errors), None);
}
