use lingua_capi::{
    get_error, lingua_compute_language_confidence_values, lingua_detector_create_all,
    lingua_detector_create_from_languages, ErrorState, LinguaDetector,
};

fn codes_of(detector: &LinguaDetector) -> Vec<String> {
    let mut errors = ErrorState::new();
    let mut count = 0usize;
    let values = lingua_compute_language_confidence_values(
        Some(detector),
        Some(b"".as_slice()),
        Some(&mut count),
        &mut errors,
    )
    .unwrap();
    let mut codes: Vec<String> = values.into_iter().map(|v| v.language_code).collect();
    codes.sort();
    codes
}

#[test]
fn three_known_codes_make_a_detector() {
    let mut errors = ErrorState::new();
    let handle = lingua_detector_create_from_languages(Some(b"en,fr,de".as_slice()), &mut errors);
    assert!(handle.is_some());
    assert_eq!(get_error(&errors), None);
    assert_eq!(codes_of(&handle.unwrap()), vec!["de", "en", "fr"]);
}

#[test]
fn an_unknown_code_after_a_known_one_fails() {
    let mut errors = ErrorState::new();
    let handle = lingua_detector_create_from_languages(Some(b"en,xx".as_slice()), &mut errors);
    assert!(handle.is_none());
    assert_eq!(get_error(&errors), Some("Invalid language code: xx"));
}

#[test]
fn the_empty_list_fails_as_empty() {
    let mut errors = ErrorState::new();
    let handle = lingua_detector_create_from_languages(Some(b"".as_slice()), &mut errors);
    assert!(handle.is_none());
    assert_eq!(get_error(&errors), Some("No valid languages provided"));
}

#[test]
fn zz_is_reported_as_unknown() {
    let mut errors = ErrorState::new();
    let handle = lingua_detector_create_from_languages(Some(b"zz".as_slice()), &mut errors);
    assert!(handle.is_none());
    assert_eq!(get_error(&errors), Some("Invalid language code: zz"));
}

#[test]
fn the_first_unknown_code_is_the_one_reported() {
    let mut errors = ErrorState::new();
    let handle =
        lingua_detector_create_from_languages(Some(b"en, q1 ,zz,de".as_slice()), &mut errors);
    assert!(handle.is_none());
    assert_eq!(get_error(&errors), Some("Invalid language code: q1"));
}

#[test]
fn an_absent_list_fails() {
    let mut errors = ErrorState::new();
    let handle = lingua_detector_create_from_languages(None, &mut errors);
    assert!(handle.is_none());
    assert_eq!(get_error(&errors), Some("languages parameter is null"));
}

#[test]
fn a_list_that_is_not_utf8_fails() {
    let mut errors = ErrorState::new();
    let handle =
        lingua_detector_create_from_languages(Some([0x65, 0x6e, 0xc3].as_slice()), &mut errors);
    assert!(handle.is_none());
    assert_eq!(get_error(&errors), Some("Invalid UTF-8 in languages parameter"));
}

#[test]
fn entries_are_trimmed_and_case_is_ignored() {
    let mut errors = ErrorState::new();
    let handle =
        lingua_detector_create_from_languages(Some(b"  EN ,\tfr\n, De".as_slice()), &mut errors);
    assert_eq!(get_error(&errors), None);
    assert_eq!(codes_of(&handle.unwrap()), vec!["de", "en", "fr"]);
}

#[test]
fn unicode_white_space_is_trimmed() {
    let mut errors = ErrorState::new();
    let handle = lingua_detector_create_from_languages(
        Some("\u{2003}en\u{a0},\u{3000}es".as_bytes()),
        &mut errors,
    );
    assert_eq!(get_error(&errors), None);
    assert_eq!(codes_of(&handle.unwrap()), vec!["en", "es"]);
}

#[test]
fn white_space_inside_an_entry_stays() {
    let mut errors = ErrorState::new();
    let handle = lingua_detector_create_from_languages(Some(b"en, d e ".as_slice()), &mut errors);
    assert!(handle.is_none());
    assert_eq!(get_error(&errors), Some("Invalid language code: d e"));
}

#[test]
fn an_empty_entry_names_no_language() {
    let mut errors = ErrorState::new();
    let handle = lingua_detector_create_from_languages(Some(b"en,,fr".as_slice()), &mut errors);
    assert!(handle.is_none());
    assert_eq!(get_error(&errors), Some("Invalid language code: "));

    let mut errors = ErrorState::new();
    let handle = lingua_detector_create_from_languages(Some(b"en,".as_slice()), &mut errors);
    assert!(handle.is_none());
    assert_eq!(get_error(&errors), Some("Invalid language code: "));

    let mut errors = ErrorState::new();
    let handle = lingua_detector_create_from_languages(Some(b" ".as_slice()), &mut errors);
    assert!(handle.is_none());
    assert_eq!(get_error(&errors), Some("Invalid language code: "));
}

#[test]
fn entries_are_put_in_upper_case_by_the_unicode_rules() {
    let mut errors = ErrorState::new();
    let handle = lingua_detector_create_from_languages(Some("e\u{17f}".as_bytes()), &mut errors);
    assert_eq!(get_error(&errors), None);
    assert_eq!(codes_of(&handle.unwrap()), vec!["es"]);
}

#[test]
fn a_repeated_code_names_one_language() {
    let mut errors = ErrorState::new();
    let handle = lingua_detector_create_from_languages(Some(b"en,EN,de,en".as_slice()), &mut errors);
    assert_eq!(codes_of(&handle.unwrap()), vec!["de", "en"]);
}

#[test]
fn a_success_leaves_the_last_error() {
    let mut errors = ErrorState::new();
    assert!(lingua_detector_create_from_languages(Some(b"zz".as_slice()), &mut errors).is_none());
    assert!(lingua_detector_create_from_languages(Some(b"en,de".as_slice()), &mut errors).is_some());
    assert_eq!(get_error(&errors), Some("Invalid language code: zz"));
}

#[test]
fn create_all_knows_every_language_of_the_engine() {
    let handle = lingua_detector_create_all();
    let mut expected: Vec<String> = lingua::Language::all()
        .into_iter()
        .map(|language| language.iso_code_639_1().to_string())
        .collect();
    expected.sort();
    assert_eq!(codes_of(&handle), expected);
    assert!(expected.contains(&"en".to_string()));
}
