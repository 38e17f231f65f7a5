//! Failures of the application, as the loop sees them: an opaque error whose
//! chain of causes is read out as text.

use std::fmt::Write;
use vstd::prelude::*;
use crate::report::texts;

verus! {

/// `anyhow::Error`, carried through the loop without looking inside.
#[verifier::external_type_specification]
#[verifier::external_body]
pub struct ExAnyhowError(anyhow::Error);

/// Reads out the chain of an error with `anyhow::Error::chain`, each link
/// written out with its `Display` implementation. The chain starts with the
/// error itself and goes down to the root cause, so it is never empty;
/// nothing is claimed of the texts. A link whose `Display` fails leaves what
/// it wrote before it failed.
#[verifier::external_body]
pub(crate) fn causes_of(err: &anyhow::Error) -> (causes: Vec<String>)
    ensures
        causes@.len() >= 1,
{
    let mut causes = Vec::new();
    for cause in err.chain() {
        let mut text = String::new();
        let _ = write!(text, "{}", cause);
        causes.push(text);
    }
    causes
}

/// Writes a value out with its `Debug` implementation, through `write!`.
/// Nothing is claimed of the text. A `Debug` that fails leaves what it wrote
/// before it failed.
#[verifier::external_body]
pub(crate) fn render<U: core::fmt::Debug>(value: &U) -> (text: String) {
    let mut text = String::new();
    let _ = write!(text, "{:?}", value);
    text
}

/// What a handler answered, with a failure flattened to the texts of its
/// chain of causes, most specific first.
pub open spec fn answer<T>(reply: Result<T, Vec<String>>) -> Result<T, Seq<Seq<char>>> {
    match reply {
        Ok(value) => Ok(value),
        Err(causes) => Err(texts(causes@)),
    }
}

/// Flattens the failure of a handler into the texts of its chain of causes
/// and leaves a success as it is. A failure always has at least one cause:
/// itself.
pub fn explain<T>(outcome: Result<T, anyhow::Error>) -> (reply: Result<T, Vec<String>>)
    ensures
        outcome is Ok ==> reply == Ok::<T, Vec<String>>(outcome->Ok_0),
        outcome is Err ==> reply is Err && reply->Err_0@.len() >= 1,
{
    match outcome {
        Ok(value) => Ok(value),
        Err(err) => Err(causes_of(&err)),
    }
}

} // verus!
