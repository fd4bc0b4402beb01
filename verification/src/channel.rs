//! The last-error slot: one optional message, replaced by every failure and
//! left alone by every success.

use vstd::prelude::*;
use vstd::utf8::{decode_utf8, valid_utf8};
use crate::failure::Failure;
use crate::text::decode;

verus! {

/// The last-error slot. It holds at most one message: the one that the most
/// recent failure reported. Its view is that message.
pub struct ErrorState {
    message: Option<String>,
}

impl View for ErrorState {
    type V = Option<Seq<char>>;

    closed spec fn view(&self) -> Option<Seq<char>> {
        match self.message {
            Some(text) => Some(text@),
            None => None,
        }
    }
}

impl ErrorState {
    /// The slot before any failure: empty.
    pub fn new() -> (slot: ErrorState)
        ensures
            slot@ is None,
    {
        ErrorState { message: None }
    }

    /// Stores `message`, replacing whatever was stored before.
    pub fn report(&mut self, message: &str)
        ensures
            final(self)@ == Some(message@),
    {
        self.message = Some(message.to_owned());
    }

    /// The stored message, if any failure has been reported yet.
    pub fn current(&self) -> (message: Option<&str>)
        ensures
            message is Some == self@ is Some,
            message is Some ==> self@ == Some(message->0@),
    {
        match &self.message {
            Some(text) => Some(text.as_str()),
            None => None,
        }
    }
}

/// The message in the slot after one operation: the message of its failure
/// where it failed, and the message that was there before where it did not.
pub open spec fn slot_after(before: Option<Seq<char>>, failure: Option<Failure>) -> Option<
    Seq<char>,
> {
    match failure {
        Some(failure) => Some(failure.message()),
        None => before,
    }
}

/// The message in the slot after a run of operations, given for each of them
/// in turn why it failed, if it did.
pub open spec fn slot_after_all(
    before: Option<Seq<char>>,
    outcomes: Seq<Option<Failure>>,
) -> Option<Seq<char>>
    decreases outcomes.len(),
{
    if outcomes.len() == 0 {
        before
    } else {
        slot_after(slot_after_all(before, outcomes.drop_last()), outcomes.last())
    }
}

/// Operations that do not fail leave the message alone: what `get_error`
/// returned before a run of them it returns after it.
pub proof fn lemma_successes_keep_the_message(
    before: Option<Seq<char>>,
    outcomes: Seq<Option<Failure>>,
)
    requires
        forall|i: int| 0 <= i < outcomes.len() ==> outcomes[i] is None,
    ensures
        slot_after_all(before, outcomes) == before,
    decreases outcomes.len(),
{
    if outcomes.len() > 0 {
        lemma_successes_keep_the_message(before, outcomes.drop_last());
    }
}

/// After a run of operations the slot holds the message of the last one that
/// failed, whatever it held before.
pub proof fn lemma_last_failure_is_reported(
    before: Option<Seq<char>>,
    outcomes: Seq<Option<Failure>>,
    last: int,
)
    requires
        0 <= last < outcomes.len(),
        outcomes[last] is Some,
        forall|i: int| last < i < outcomes.len() ==> outcomes[i] is None,
    ensures
        slot_after_all(before, outcomes) == Some(outcomes[last]->0.message()),
    decreases outcomes.len(),
{
    if last < outcomes.len() - 1 {
        lemma_last_failure_is_reported(before, outcomes.drop_last(), last);
    }
}

/// The last reported message, or nothing where no failure has been reported.
/// Reading leaves the slot as it is.
pub fn get_error(error: &ErrorState) -> (message: Option<&str>)
    ensures
        message is Some == error@ is Some,
        message is Some ==> error@ == Some(message->0@),
{
    error.current()
}

/// What `set_error` leaves in a slot that held `before`.
pub open spec fn after_set_error(
    before: Option<Seq<char>>,
    error_message: Option<&[u8]>,
) -> Option<Seq<char>> {
    match error_message {
        Some(bytes) => if valid_utf8(bytes@) {
            Some(decode_utf8(bytes@))
        } else {
            before
        },
        None => before,
    }
}

/// Stores the message that `error_message` encodes. An absent message, or one
/// that is not valid UTF-8, leaves the slot as it is.
pub fn set_error(error: &mut ErrorState, error_message: Option<&[u8]>)
    ensures
        final(error)@ == after_set_error(old(error)@, error_message),
{
    if let Some(bytes) = error_message {
        if let Some(text) = decode(bytes) {
            error.report(text);
        }
    }
}

} // verus!
