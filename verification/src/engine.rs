//! The language-identification engine, as far as the boundary relies on it.
//!
//! A language stands here as its ISO 639-1 code, written as the engine
//! writes it. Nothing in this file is proved: each function states what the
//! engine's source and documentation show of the call in its body.
//!
//! The engine sums probabilities in the order in which it walks a hash map,
//! so two queries with the same detector and text may differ in the last bits
//! of a score. No contract here says what a score is, only what holds of all.

use std::str::FromStr;
use vstd::prelude::*;
use crate::score::ONE_BITS;

verus! {

#[verifier::external_type_specification]
#[verifier::external_body]
pub struct ExLanguageDetector(lingua::LanguageDetector);

/// What `IsoCode639_1::from_str` makes of `text`: the code that it finds,
/// written as that code's `Display` writes it, or nothing where it finds none.
pub uninterp spec fn engine_code(text: Seq<char>) -> Option<Seq<char>>;

/// What a detector holds: the set of languages that it was built from, each
/// by its code. The detector never changes it.
pub uninterp spec fn detector_codes(detector: lingua::LanguageDetector) -> Set<Seq<char>>;

/// `code` is a code of the engine's table, written as the engine writes it.
pub open spec fn known_code(code: Seq<char>) -> bool {
    engine_code(code) == Some(code)
}

/// `code` is two lower-case ASCII letters.
pub open spec fn two_lower_case_letters(code: Seq<char>) -> bool {
    &&& code.len() == 2
    &&& 'a' <= code[0] <= 'z'
    &&& 'a' <= code[1] <= 'z'
}

/// The languages that `texts` name to the engine.
pub open spec fn codes_named(texts: Seq<Seq<char>>) -> Set<Seq<char>> {
    Set::new(
        |code: Seq<char>|
            exists|i: int| 0 <= i < texts.len() && engine_code(#[trigger] texts[i]) == Some(code),
    )
}

/// The texts of a list of strings, in the order of the list.
pub open spec fn texts_of(strings: Seq<String>) -> Seq<Seq<char>> {
    Seq::new(strings.len(), |i: int| strings[i]@)
}

/// The codes of a list of scored languages, in the order of the list.
pub open spec fn scored_codes(scored: Seq<(String, u64)>) -> Seq<Seq<char>> {
    Seq::new(scored.len(), |i: int| scored[i].0@)
}

/// The scores of a list of scored languages, in the order of the list.
pub open spec fn scored_bits(scored: Seq<(String, u64)>) -> Seq<u64> {
    Seq::new(scored.len(), |i: int| scored[i].1)
}

/// `listed` holds each code of `codes` once, and no other.
pub open spec fn each_once(listed: Seq<Seq<char>>, codes: Set<Seq<char>>) -> bool {
    &&& forall|i: int| 0 <= i < listed.len() ==> codes.contains(#[trigger] listed[i])
    &&& forall|code: Seq<char>| #[trigger]
        codes.contains(code) ==> exists|i: int| 0 <= i < listed.len() && listed[i] == code
    &&& forall|i: int, j: int| 0 <= i < j < listed.len() ==> listed[i] != listed[j]
}

/// No score is followed by a greater one.
pub open spec fn descending(bits: Seq<u64>) -> bool {
    forall|i: int, j: int| 0 <= i < j < bits.len() ==> bits[i] >= bits[j]
}

/// Every score is a double from 0.0 to 1.0.
pub open spec fn probabilities(bits: Seq<u64>) -> bool {
    forall|i: int| 0 <= i < bits.len() ==> #[trigger] bits[i] <= ONE_BITS
}

/// `IsoCode639_1::from_str`, with the code that it finds written by its
/// `Display`. The engine compares `text` with the codes of its table without
/// regard to ASCII case. What it finds is a code of that table: two letters,
/// written in lower case, which the engine reads as that same code again.
#[verifier::external_body]
pub(crate) fn parse_code(text: &str) -> (found: Option<String>)
    ensures
        found is Some ==> engine_code(text@) == Some(found->0@),
        found is None ==> engine_code(text@) is None,
        found is Some ==> known_code(found->0@),
        found is Some ==> two_lower_case_letters(found->0@),
{
    lingua::IsoCode639_1::from_str(text).ok().map(|code| code.to_string())
}

/// `Language::all`, each language by the `Display` of its `iso_code_639_1`.
/// The list holds the codes of the engine's table and nothing else, each of
/// them two letters in lower case; the engine gives them in no particular order.
#[verifier::external_body]
pub(crate) fn all_codes() -> (codes: Vec<String>)
    ensures
        forall|code: Seq<char>|
            known_code(code) <==> exists|i: int|
                0 <= i < codes@.len() && (#[trigger] codes@[i])@ == code,
        forall|i: int| 0 <= i < codes@.len() ==> two_lower_case_letters((#[trigger] codes@[i])@),
{
    lingua::Language::all().into_iter().map(|language| language.iso_code_639_1().to_string()).collect()
}

/// `LanguageDetectorBuilder::from_all_languages` and `build`: a detector for
/// every language of the engine's table, each of them by two letters in
/// lower case.
#[verifier::external_body]
pub(crate) fn build_for_all() -> (detector: lingua::LanguageDetector)
    ensures
        forall|code: Seq<char>| detector_codes(detector).contains(code) <==> known_code(code),
        forall|code: Seq<char>| #[trigger]
            detector_codes(detector).contains(code) ==> two_lower_case_letters(code),
{
    lingua::LanguageDetectorBuilder::from_all_languages().build()
}

/// `LanguageDetectorBuilder::from_iso_codes_639_1` and `build`: a detector
/// for the languages that `texts` name. The builder panics on an empty list,
/// and a text that names no language cannot be handed to it.
#[verifier::external_body]
pub(crate) fn build_for(texts: &Vec<String>) -> (detector: lingua::LanguageDetector)
    requires
        texts@.len() > 0,
        forall|i: int| 0 <= i < texts@.len() ==> engine_code(#[trigger] texts@[i]@) is Some,
    ensures
        detector_codes(detector) == codes_named(texts_of(texts@)),
{
    let codes: Vec<lingua::IsoCode639_1> = texts.iter().map(
        |text| lingua::IsoCode639_1::from_str(text).unwrap(),
    ).collect();
    lingua::LanguageDetectorBuilder::from_iso_codes_639_1(&codes).build()
}

/// `LanguageDetector::detect_language_of`, the language found by the
/// `Display` of its `iso_code_639_1`. It is one of the detector's languages,
/// or nothing where the engine cannot tell.
#[verifier::external_body]
pub(crate) fn detect(detector: &lingua::LanguageDetector, text: &str) -> (found: Option<String>)
    ensures
        found is Some ==> detector_codes(*detector).contains(found->0@),
        found is Some ==> two_lower_case_letters(found->0@),
{
    detector.detect_language_of(text).map(|language| language.iso_code_639_1().to_string())
}

/// `LanguageDetector::compute_language_confidence` for the language that
/// `code` names, the score by its `to_bits`. The score is a number from 0.0
/// to 1.0, and 0.0 for a language that the detector was not built from.
#[verifier::external_body]
pub(crate) fn confidence(detector: &lingua::LanguageDetector, text: &str, code: &str) -> (bits: u64)
    requires
        engine_code(code@) is Some,
    ensures
        bits <= ONE_BITS,
        !detector_codes(*detector).contains(engine_code(code@)->0) ==> bits == 0,
{
    let iso_code = lingua::IsoCode639_1::from_str(code).unwrap();
    let language = lingua::Language::from_iso_code_639_1(&iso_code);
    detector.compute_language_confidence(text, language).to_bits()
}

/// `LanguageDetector::compute_language_confidence_values`, each language by
/// the `Display` of its `iso_code_639_1` and each score by its `to_bits`. The
/// list has one entry for each language of the detector, every score is a
/// number from 0.0 to 1.0, and the scores come in descending order.
#[verifier::external_body]
pub(crate) fn confidence_values(detector: &lingua::LanguageDetector, text: &str) -> (scored: Vec<
    (String, u64),
>)
    ensures
        each_once(scored_codes(scored@), detector_codes(*detector)),
        forall|i: int|
            0 <= i < scored@.len() ==> two_lower_case_letters(#[trigger] scored_codes(scored@)[i]),
        probabilities(scored_bits(scored@)),
        descending(scored_bits(scored@)),
{
    detector.compute_language_confidence_values(text).into_iter().map(
        |(language, score)| (language.iso_code_639_1().to_string(), score.to_bits()),
    ).collect()
}

} // verus!
