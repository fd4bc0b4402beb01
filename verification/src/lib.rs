//! The safe core of a C-compatible boundary around a language-identification engine.
//!
//! Callers on the far side of the boundary hand over nullable byte strings and a
//! nullable detector handle; here these are `Option`s of plain values. Every
//! operation either succeeds or reports a message to the last-error slot and
//! returns its sentinel: no handle, no code, the score 0.0, no array.
//!
//! A confidence score is held as the bit pattern of its double, so that the
//! library can order scores and bound them without floating-point arithmetic.
//!
//! What is believed and not proved stands in two places: the calls into the
//! engine in `engine`, and the calls into the standard library in `text`.

pub mod failure;
pub mod text;
pub mod channel;
pub mod entries;
pub mod score;
pub mod engine;
pub mod detector;

pub use channel::{get_error, set_error, ErrorState};
pub use detector::{
    bulk_query, confidence_entries, confidence_query, detection_query,
    lingua_compute_language_confidence, lingua_compute_language_confidence_values,
    lingua_detect_language, lingua_detector_create_all, lingua_detector_create_from_languages,
    LinguaDetector,
};
pub use failure::{ErrorKind, Failure};
pub use score::{ConfidenceValue, Score, ONE_BITS};
