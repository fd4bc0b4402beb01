//! The detector handle and the operations on it.
//!
//! An operation that fails stores its message in the last-error slot and
//! returns its sentinel; one that succeeds leaves the slot as it was.

use vstd::prelude::*;
use vstd::slice::slice_subrange;
use vstd::string::StringExecFns;
use vstd::utf8::{decode_utf8, valid_utf8};
use crate::channel::{slot_after, ErrorState};
use crate::engine::{
    all_codes, build_for, build_for_all, codes_named, confidence, confidence_values, descending,
    detect, detector_codes, each_once, engine_code, known_code, parse_code, probabilities,
    scored_bits, scored_codes, texts_of, two_lower_case_letters,
};
use crate::entries::{delimited, entry_bounds, listed_entries, within};
use crate::failure::{ErrorKind, Failure};
use crate::score::{ConfidenceValue, Score};
use crate::text::{
    ascii_folded, characters, decode, eq_ignoring_ascii_case, same_ignoring_ascii_case, spell,
    to_upper_case, upper_case,
};

verus! {

/// A detector of the engine, built once for a set of languages and never
/// changed afterwards.
pub struct LinguaDetector {
    detector: lingua::LanguageDetector,
}

impl LinguaDetector {
    /// The languages that the detector chooses from, each by its ISO 639-1
    /// code in lower case.
    pub closed spec fn languages(&self) -> Set<Seq<char>> {
        detector_codes(self.detector)
    }

    /// Every language of the detector is a code of the engine's table, two
    /// letters in lower case: a code that a confidence query accepts.
    pub open spec fn languages_are_known(&self) -> bool {
        forall|code: Seq<char>| #[trigger]
            self.languages().contains(code) ==> known_code(code) && two_lower_case_letters(code)
    }
}

/// A detector for every language that the engine knows.
pub fn lingua_detector_create_all() -> (handle: LinguaDetector)
    ensures
        forall|code: Seq<char>| handle.languages().contains(code) <==> known_code(code),
        handle.languages_are_known(),
{
    LinguaDetector { detector: build_for_all() }
}

/// What the engine is asked for an entry of a language list: the entry in
/// upper case.
pub open spec fn asked(entries: Seq<Seq<char>>) -> Seq<Seq<char>> {
    Seq::new(entries.len(), |i: int| upper_case(entries[i]))
}

/// The entry names a language that the engine knows.
pub open spec fn names_language(entry: Seq<char>) -> bool {
    engine_code(upper_case(entry)) is Some
}

/// Every entry names a language that the engine knows.
pub open spec fn all_name_languages(entries: Seq<Seq<char>>) -> bool {
    forall|i: int| 0 <= i < entries.len() ==> names_language(#[trigger] entries[i])
}

/// The position of the first entry at or after `from` that names no
/// language, or the number of entries where each of them names one.
pub open spec fn first_unnamed(entries: Seq<Seq<char>>, from: int) -> int
    decreases entries.len() - from,
{
    if from >= entries.len() || !names_language(entries[from]) {
        from
    } else {
        first_unnamed(entries, from + 1)
    }
}

/// Why a detector cannot be created for `languages`, if it cannot.
pub open spec fn creation_failure(languages: Option<&[u8]>) -> Option<Failure> {
    match languages {
        None => Some(Failure::LanguagesAbsent),
        Some(bytes) => if !valid_utf8(bytes@) {
            Some(Failure::LanguagesNotUtf8)
        } else {
            let entries = listed_entries(decode_utf8(bytes@));
            let unnamed: int = first_unnamed(entries, 0);
            if unnamed < entries.len() {
                Some(Failure::LanguageCodeInvalid(entries[unnamed]))
            } else if entries.len() == 0 {
                Some(Failure::NoLanguages)
            } else {
                None
            }
        },
    }
}

/// Where the entries from `from` up to `stop` name languages and the one at
/// `stop`, if there is one, names none, `stop` is the first that names none.
proof fn lemma_first_unnamed(entries: Seq<Seq<char>>, from: int, stop: int)
    requires
        0 <= from <= stop <= entries.len(),
        forall|j: int| from <= j < stop ==> names_language(#[trigger] entries[j]),
        stop < entries.len() ==> !names_language(entries[stop]),
    ensures
        first_unnamed(entries, from) == stop,
    decreases stop - from,
{
    if from < stop {
        lemma_first_unnamed(entries, from + 1, stop);
    }
}

/// The first entry that names no language lies among the entries, names no
/// language, and follows only entries that name one.
proof fn lemma_first_unnamed_is_first(entries: Seq<Seq<char>>, from: int)
    requires
        0 <= from <= entries.len(),
    ensures
        from <= first_unnamed(entries, from) <= entries.len(),
        forall|j: int|
            from <= j < first_unnamed(entries, from) ==> names_language(#[trigger] entries[j]),
        first_unnamed(entries, from) < entries.len() ==> !names_language(
            entries[first_unnamed(entries, from)],
        ),
    decreases entries.len() - from,
{
    if from < entries.len() && names_language(entries[from]) {
        lemma_first_unnamed_is_first(entries, from + 1);
    }
}

/// A detector is created for a list exactly where the list is given, is valid
/// UTF-8, has an entry, and each of its entries names a language that the
/// engine knows. A list with an entry that names none fails as an unknown
/// language code, and a list without entries as a failed construction.
pub proof fn lemma_creation_succeeds_iff(languages: Option<&[u8]>)
    ensures
        creation_failure(languages) is None <==> languages is Some && valid_utf8(languages->0@)
            && listed_entries(decode_utf8(languages->0@)).len() > 0 && all_name_languages(
            listed_entries(decode_utf8(languages->0@)),
        ),
        languages is Some && valid_utf8(languages->0@) && !all_name_languages(
            listed_entries(decode_utf8(languages->0@)),
        ) ==> creation_failure(languages) is Some && creation_failure(languages)->0.kind()
            == ErrorKind::UnknownLanguageCode,
        languages is Some && valid_utf8(languages->0@) && listed_entries(
            decode_utf8(languages->0@),
        ).len() == 0 ==> creation_failure(languages) == Some(Failure::NoLanguages)
            && Failure::NoLanguages.kind() == ErrorKind::Construction,
{
    if let Some(bytes) = languages {
        if valid_utf8(bytes@) {
            lemma_first_unnamed_is_first(listed_entries(decode_utf8(bytes@)), 0);
        }
    }
}

/// A detector for the languages that a comma-separated list of two-letter
/// codes names. Each entry is taken without the white space around it and in
/// upper case. The first entry that names no language ends the attempt; a
/// list without entries is refused.
pub fn lingua_detector_create_from_languages(
    languages: Option<&[u8]>,
    error: &mut ErrorState,
) -> (handle: Option<LinguaDetector>)
    ensures
        final(error)@ == slot_after(old(error)@, creation_failure(languages)),
        creation_failure(languages) is Some ==> handle is None,
        creation_failure(languages) is None ==> handle is Some && handle->0.languages()
            == codes_named(asked(listed_entries(decode_utf8(languages->0@)))),
        creation_failure(languages) is None ==> handle->0.languages_are_known(),
{
    let bytes = match languages {
        Some(bytes) => bytes,
        None => {
            error.report("languages parameter is null");
            return None;
        },
    };
    let text = match decode(bytes) {
        Some(text) => text,
        None => {
            error.report("Invalid UTF-8 in languages parameter");
            return None;
        },
    };
    let chars = characters(text);
    let bounds = entry_bounds(&chars);
    let ghost entries = listed_entries(chars@);
    let mut texts: Vec<String> = Vec::new();
    let mut i: usize = 0;
    while i < bounds.len()
        invariant
            i <= bounds.len(),
            languages == Some(bytes),
            valid_utf8(bytes@),
            chars@ == decode_utf8(bytes@),
            entries == listed_entries(chars@),
            within(bounds@, chars@.len()),
            delimited(chars@, bounds@) == entries,
            texts@.len() == i,
            forall|j: int| 0 <= j < i ==> (#[trigger] texts@[j])@ == upper_case(entries[j]),
            forall|j: int| 0 <= j < i ==> names_language(#[trigger] entries[j]),
            forall|j: int|
                0 <= j < i ==> known_code(engine_code((#[trigger] texts@[j])@)->0)
                    && two_lower_case_letters(engine_code(texts@[j]@)->0),
            *error == *old(error),
        decreases bounds.len() - i,
    {
        let (from, to): (usize, usize) = bounds[i];
        let entry = spell(slice_subrange(chars.as_slice(), from, to));
        assert(entry@ == entries[i as int]);
        let upper = to_upper_case(entry.as_str());
        if parse_code(upper.as_str()).is_none() {
            proof {
                lemma_first_unnamed(entries, 0, i as int);
            }
            let message = String::from_str("Invalid language code: ").concat(entry.as_str());
            error.report(message.as_str());
            return None;
        }
        texts.push(upper);
        i += 1;
    }
    proof {
        lemma_first_unnamed(entries, 0, entries.len() as int);
    }
    if texts.len() == 0 {
        error.report("No valid languages provided");
        return None;
    }
    assert(texts_of(texts@) =~= asked(entries));
    let detector = build_for(&texts);
    Some(LinguaDetector { detector })
}

/// Why the language of `text` cannot be asked of `detector`, if it cannot.
pub open spec fn detection_failure(
    detector: Option<&LinguaDetector>,
    text: Option<&[u8]>,
) -> Option<Failure> {
    if detector is None {
        Some(Failure::DetectorAbsent)
    } else if text is None {
        Some(Failure::TextAbsent)
    } else if !valid_utf8(text->0@) {
        Some(Failure::TextNotUtf8)
    } else {
        None
    }
}

/// What the engine is asked when a language is to be detected: the detector
/// that was given, and the text that the given bytes encode. Where the
/// detection cannot be asked, the failure is reported and nothing is asked.
pub fn detection_query<'a>(
    detector: Option<&'a LinguaDetector>,
    text: Option<&'a [u8]>,
    error: &mut ErrorState,
) -> (query: Option<(&'a LinguaDetector, &'a str)>)
    ensures
        final(error)@ == slot_after(old(error)@, detection_failure(detector, text)),
        query is Some <==> detection_failure(detector, text) is None,
        query matches Some(asked_of) ==> asked_of.0 == detector->0 && asked_of.1@ == decode_utf8(
            text->0@,
        ),
{
    let handle = match detector {
        Some(handle) => handle,
        None => {
            error.report("detector is null");
            return None;
        },
    };
    let bytes = match text {
        Some(bytes) => bytes,
        None => {
            error.report("text is null");
            return None;
        },
    };
    match decode(bytes) {
        Some(decoded) => Some((handle, decoded)),
        None => {
            error.report("Invalid UTF-8 in text");
            None
        },
    }
}

/// The language that the engine finds `text` to be written in, among those of
/// the detector, by its two-letter code in lower case. The engine is asked
/// what `detection_query` hands out. Where it cannot tell, nothing is
/// returned and nothing reported.
pub fn lingua_detect_language(
    detector: Option<&LinguaDetector>,
    text: Option<&[u8]>,
    error: &mut ErrorState,
) -> (code: Option<String>)
    ensures
        final(error)@ == slot_after(old(error)@, detection_failure(detector, text)),
        detection_failure(detector, text) is Some ==> code is None,
        detection_failure(detector, text) is None && code is Some
            ==> detector->0.languages().contains(code->0@) && two_lower_case_letters(code->0@),
{
    match detection_query(detector, text, error) {
        Some((handle, decoded)) => detect(&handle.detector, decoded),
        None => None,
    }
}

/// `wanted` is, but for the case of its ASCII letters, a code of the engine's table.
pub open spec fn names_known_code(wanted: Seq<char>) -> bool {
    exists|code: Seq<char>| known_code(code) && #[trigger] same_ignoring_ascii_case(code, wanted)
}

/// `wanted` is, but for the case of its ASCII letters, the code of one of `languages`.
pub open spec fn names_language_of(wanted: Seq<char>, languages: Set<Seq<char>>) -> bool {
    exists|code: Seq<char>|
        languages.contains(code) && known_code(code) && #[trigger] same_ignoring_ascii_case(
            code,
            wanted,
        )
}

/// Why the confidence in one language cannot be asked, if it cannot. A text
/// that is not valid UTF-8 is refused as such; a code that is not valid UTF-8
/// matches no language.
pub open spec fn confidence_failure(
    detector: Option<&LinguaDetector>,
    text: Option<&[u8]>,
    language_code: Option<&[u8]>,
) -> Option<Failure> {
    if detector is None || text is None || language_code is None {
        Some(Failure::ParameterAbsent)
    } else if !valid_utf8(text->0@) {
        Some(Failure::TextNotUtf8)
    } else if !valid_utf8(language_code->0@) || !names_known_code(
        decode_utf8(language_code->0@),
    ) {
        Some(Failure::LanguageCodeUnknown)
    } else {
        None
    }
}

/// Two codes in lower case that are both `wanted`, but for the case of its
/// ASCII letters, are the same code.
proof fn lemma_one_code_matches(a: Seq<char>, b: Seq<char>, wanted: Seq<char>)
    requires
        two_lower_case_letters(a),
        two_lower_case_letters(b),
        same_ignoring_ascii_case(a, wanted),
        same_ignoring_ascii_case(b, wanted),
    ensures
        a == b,
{
    assert(ascii_folded(a[0]) == ascii_folded(b[0]));
    assert(ascii_folded(a[1]) == ascii_folded(b[1]));
}

/// The position of the first of `codes` that is `wanted` but for the case of
/// its ASCII letters.
fn position_of(codes: &Vec<String>, wanted: &Vec<char>) -> (position: Option<usize>)
    ensures
        position is Some ==> position->0 < codes@.len() && same_ignoring_ascii_case(
            codes@[position->0 as int]@,
            wanted@,
        ),
        position is None ==> forall|i: int|
            0 <= i < codes@.len() ==> !same_ignoring_ascii_case((#[trigger] codes@[i])@, wanted@),
{
    let mut i: usize = 0;
    while i < codes.len()
        invariant
            i <= codes@.len(),
            forall|j: int|
                0 <= j < i ==> !same_ignoring_ascii_case((#[trigger] codes@[j])@, wanted@),
        decreases codes.len() - i,
    {
        let code = characters(codes[i].as_str());
        if eq_ignoring_ascii_case(&code, wanted) {
            return Some(i);
        }
        i += 1;
    }
    None
}

/// What the engine is asked when the confidence in one language is wanted:
/// the detector that was given, the text that the given bytes encode, and the
/// one code of the engine's table that the given code is, but for the case of
/// its ASCII letters. Where the confidence cannot be asked, the failure is
/// reported and nothing is asked.
pub fn confidence_query<'a>(
    detector: Option<&'a LinguaDetector>,
    text: Option<&'a [u8]>,
    language_code: Option<&[u8]>,
    error: &mut ErrorState,
) -> (query: Option<(&'a LinguaDetector, &'a str, String)>)
    ensures
        final(error)@ == slot_after(
            old(error)@,
            confidence_failure(detector, text, language_code),
        ),
        query is Some <==> confidence_failure(detector, text, language_code) is None,
        query matches Some(asked_of) ==> asked_of.0 == detector->0 && asked_of.1@ == decode_utf8(
            text->0@,
        ) && known_code(asked_of.2@) && two_lower_case_letters(asked_of.2@)
            && same_ignoring_ascii_case(asked_of.2@, decode_utf8(language_code->0@)),
        query matches Some(asked_of) ==> forall|code: Seq<char>|
            known_code(code) && #[trigger] same_ignoring_ascii_case(
                code,
                decode_utf8(language_code->0@),
            ) ==> code == asked_of.2@,
{
    if detector.is_none() || text.is_none() || language_code.is_none() {
        error.report("null parameter");
        return None;
    }
    let handle = detector.unwrap();
    let decoded = match decode(text.unwrap()) {
        Some(decoded) => decoded,
        None => {
            error.report("Invalid UTF-8 in text");
            return None;
        },
    };
    let wanted = match decode(language_code.unwrap()) {
        Some(wanted) => characters(wanted),
        None => {
            error.report("Invalid language code");
            return None;
        },
    };
    let codes = all_codes();
    match position_of(&codes, &wanted) {
        Some(at) => {
            let found = codes[at].clone();
            proof {
                assert(known_code(codes@[at as int]@));
                assert forall|code: Seq<char>|
                    known_code(code) && #[trigger] same_ignoring_ascii_case(
                        code,
                        wanted@,
                    ) implies code == found@ by {
                    lemma_one_code_matches(code, found@, wanted@);
                }
            }
            Some((handle, decoded, found))
        },
        None => {
            error.report("Invalid language code");
            None
        },
    }
}

/// The confidence that `text` is written in the language that `language_code`
/// names, under the languages of the detector. The code is looked up among
/// all languages that the engine knows, without regard to the case of its
/// letters, and a code that matches none is refused before the engine is
/// asked for any score. The engine is asked what `confidence_query` hands
/// out. A failure returns the score 0.0, and so does a language that the
/// detector was not built from, which is no failure.
pub fn lingua_compute_language_confidence(
    detector: Option<&LinguaDetector>,
    text: Option<&[u8]>,
    language_code: Option<&[u8]>,
    error: &mut ErrorState,
) -> (score: Score)
    ensures
        final(error)@ == slot_after(
            old(error)@,
            confidence_failure(detector, text, language_code),
        ),
        confidence_failure(detector, text, language_code) is Some ==> score.bits == 0,
        confidence_failure(detector, text, language_code) is None ==> score.is_probability(),
        confidence_failure(detector, text, language_code) is None && !names_language_of(
            decode_utf8(language_code->0@),
            detector->0.languages(),
        ) ==> score.bits == 0,
{
    match confidence_query(detector, text, language_code, error) {
        Some((handle, decoded, code)) => {
            let bits: u64 = confidence(&handle.detector, decoded, code.as_str());
            Score { bits }
        },
        None => Score::zero(),
    }
}

/// The codes of the entries, in their order.
pub open spec fn entry_codes(values: Seq<ConfidenceValue>) -> Seq<Seq<char>> {
    Seq::new(values.len(), |i: int| values[i].language_code@)
}

/// The scores of the entries, in their order, each by its bit pattern.
pub open spec fn entry_bits(values: Seq<ConfidenceValue>) -> Seq<u64> {
    Seq::new(values.len(), |i: int| values[i].confidence.bits)
}

/// The entries for a list of scored languages: one for each, in the same
/// order, with the same code and score.
pub fn confidence_entries(scored: &Vec<(String, u64)>) -> (values: Vec<ConfidenceValue>)
    ensures
        values@.len() == scored@.len(),
        forall|i: int|
            0 <= i < scored@.len() ==> (#[trigger] values@[i]).language_code@ == scored@[i].0@
                && values@[i].confidence.bits == scored@[i].1,
{
    let mut values: Vec<ConfidenceValue> = Vec::new();
    let mut i: usize = 0;
    while i < scored.len()
        invariant
            i <= scored@.len(),
            values@.len() == i,
            forall|j: int|
                0 <= j < i ==> (#[trigger] values@[j]).language_code@ == scored@[j].0@
                    && values@[j].confidence.bits == scored@[j].1,
        decreases scored.len() - i,
    {
        let language_code = scored[i].0.clone();
        let confidence = Score { bits: scored[i].1 };
        values.push(ConfidenceValue { language_code, confidence });
        i += 1;
    }
    values
}

/// Why the confidences in all languages cannot be asked, if they cannot.
pub open spec fn bulk_failure(
    detector: Option<&LinguaDetector>,
    text: Option<&[u8]>,
    count_given: bool,
) -> Option<Failure> {
    if detector is None || text is None || !count_given {
        Some(Failure::ParameterAbsent)
    } else if !valid_utf8(text->0@) {
        Some(Failure::NotUtf8)
    } else {
        None
    }
}

/// What the engine is asked when the confidences in all languages are
/// wanted: the detector that was given, and the text that the given bytes
/// encode. Where they cannot be asked, the failure is reported and nothing is
/// asked. `count_given` says whether the caller gave a place for the count.
pub fn bulk_query<'a>(
    detector: Option<&'a LinguaDetector>,
    text: Option<&'a [u8]>,
    count_given: bool,
    error: &mut ErrorState,
) -> (query: Option<(&'a LinguaDetector, &'a str)>)
    ensures
        final(error)@ == slot_after(old(error)@, bulk_failure(detector, text, count_given)),
        query is Some <==> bulk_failure(detector, text, count_given) is None,
        query matches Some(asked_of) ==> asked_of.0 == detector->0 && asked_of.1@ == decode_utf8(
            text->0@,
        ),
{
    if detector.is_none() || text.is_none() || !count_given {
        error.report("null parameter");
        return None;
    }
    match decode(text.unwrap()) {
        Some(decoded) => Some((detector.unwrap(), decoded)),
        None => {
            error.report("Invalid UTF-8");
            None
        },
    }
}

/// The confidence that `text` is written in each language of the detector:
/// one entry for each language, every score a probability, the scores in
/// descending order. The engine is asked what `bulk_query` hands out. The
/// number of entries is written to `count`, and 0 where the query fails.
pub fn lingua_compute_language_confidence_values(
    detector: Option<&LinguaDetector>,
    text: Option<&[u8]>,
    count: Option<&mut usize>,
    error: &mut ErrorState,
) -> (values: Option<Vec<ConfidenceValue>>)
    ensures
        final(error)@ == slot_after(old(error)@, bulk_failure(detector, text, count is Some)),
        bulk_failure(detector, text, count is Some) is Some ==> values is None,
        bulk_failure(detector, text, count is Some) is Some && count is Some
            ==> *final(count->0) == 0,
        bulk_failure(detector, text, count is Some) is None ==> values is Some
            && *final(count->0) == values->0@.len(),
        bulk_failure(detector, text, count is Some) is None ==> each_once(
            entry_codes(values->0@),
            detector->0.languages(),
        ),
        bulk_failure(detector, text, count is Some) is None ==> forall|i: int|
            0 <= i < values->0@.len() ==> two_lower_case_letters(
                #[trigger] entry_codes(values->0@)[i],
            ),
        bulk_failure(detector, text, count is Some) is None ==> probabilities(
            entry_bits(values->0@),
        ),
        bulk_failure(detector, text, count is Some) is None ==> descending(
            entry_bits(values->0@),
        ),
{
    let query = bulk_query(detector, text, count.is_some(), error);
    let slot = match count {
        Some(slot) => slot,
        None => {
            return None;
        },
    };
    match query {
        Some((handle, decoded)) => {
            let scored = confidence_values(&handle.detector, decoded);
            let values = confidence_entries(&scored);
            *slot = values.len();
            assert(entry_codes(values@) =~= scored_codes(scored@));
            assert(entry_bits(values@) =~= scored_bits(scored@));
            Some(values)
        },
        None => {
            *slot = 0;
            None
        },
    }
}

} // verus!
