//! The page extractor's classification step: given the outcome of one
//! blocking fetch (already parsed into a document tree when a body came
//! back), decide between reduced text and an error.
//!
//! Transport failures (DNS, timeout, refused connection) and non-success
//! statuses are per-record, non-fatal errors; a successful response is
//! reduced to its visible text. A malformed document is never an error
//! here: the lenient parser has already produced a best-effort tree.

use vstd::prelude::*;

use crate::dom::DomNode;
use crate::dom::node_text;
use crate::dom::pi_free;
use crate::dom::walk;

verus! {

/// Why one record produced no text.
#[derive(Debug)]
pub enum ExtractError {
    /// The response carried a non-success status.
    NotFound,
    /// The transport itself failed before any response arrived.
    Transport,
}

/// The outcome of one blocking fetch, as plain values: either the
/// transport failed, or a response arrived with its status condensed to
/// success or not and its body parsed into a document tree.
pub enum FetchOutcome {
    TransportFailed,
    Response { success: bool, dom: DomNode },
}

/// Classifies one fetch outcome: transport failure and non-success
/// status map to their errors; a successful response is reduced to the
/// visible text of its document tree.
pub fn extract(outcome: &FetchOutcome) -> (r: Result<String, ExtractError>)
    requires
        *outcome matches FetchOutcome::Response { success: true, dom } ==> pi_free(dom),
    ensures
        *outcome matches FetchOutcome::TransportFailed ==> r == Err::<String, ExtractError>(
            ExtractError::Transport,
        ),
        *outcome matches FetchOutcome::Response { success: false, .. } ==> r == Err::<
            String,
            ExtractError,
        >(ExtractError::NotFound),
        *outcome matches FetchOutcome::Response { success: true, dom } ==> r matches Ok(text)
            && text@ == node_text(dom, None::<Seq<char>>),
{
    match outcome {
        FetchOutcome::TransportFailed => Err(ExtractError::Transport),
        FetchOutcome::Response { success, dom } => {
            if *success {
                let mut content = String::new();
                walk(dom, None, &mut content);
                Ok(content)
            } else {
                Err(ExtractError::NotFound)
            }
        },
    }
}

} // verus!
