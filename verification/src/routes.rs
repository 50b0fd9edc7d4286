//! What stands in front of the move operation: a request passes only with
//! the shared secret, compared letter for letter.

use crate::machine::{handle_file_move, initial, Step, StepView};
use crate::model::{
    ApiKeyError, FileMoveRequest, MoveOutcome, MoveRequestView, OutcomeView, Rejection,
    RejectionView,
};
use vstd::prelude::*;

verus! {

/// The shared secret of a service that was configured with none.
pub const DEFAULT_API_KEY: &'static str = "123456";

/// The shared secret a service runs with: the configured one where there is
/// one, the default otherwise.
pub open spec fn configured_key(configured: Option<Seq<char>>) -> Seq<char> {
    match configured {
        Some(key) => key,
        None => DEFAULT_API_KEY@,
    }
}

/// A presented credential passes when there is one and it is the expected
/// text exactly.
pub open spec fn key_accepted(presented: Option<Seq<char>>, expected: Seq<char>) -> bool {
    presented == Some(expected)
}

/// The text of a credential that may be absent.
pub open spec fn presented_view(key: Option<&String>) -> Option<Seq<char>> {
    match key {
        Some(text) => Some(text@),
        None => None,
    }
}

/// Picks the shared secret at startup from the configured value, if any.
pub fn expected_api_key(configured: Option<String>) -> (key: String)
    ensures
        key@ == configured_key(
            match configured {
                Some(text) => Some(text@),
                None => None,
            },
        ),
{
    match configured {
        Some(text) => text,
        None => String::from_str(DEFAULT_API_KEY),
    }
}

/// Whether the service runs with the well-known default secret, in which
/// case it should say so loudly when it starts.
pub fn is_default_api_key(key: &String) -> (default: bool)
    ensures
        default == (key@ == DEFAULT_API_KEY@),
{
    let default_key = String::from_str(DEFAULT_API_KEY);
    *key == default_key
}

/// Checks the credential of a move request against the expected one. `key`
/// is what the request carried in its key header, `None` when it carried no
/// such header. The error is the same for a missing and for a wrong key.
pub fn key_validation(key: Option<&String>, expected: &String) -> (checked: Result<
    (),
    ApiKeyError,
>)
    ensures
        checked is Ok <==> key_accepted(presented_view(key), expected@),
{
    match key {
        Some(text) => {
            if *text == *expected {
                Ok(())
            } else {
                Err(ApiKeyError)
            }
        },
        None => Err(ApiKeyError),
    }
}

/// The body of a move request as the transport hands it over: the parsed
/// request, or the debug representation of why it could not be parsed.
pub open spec fn body_view(body: Result<FileMoveRequest, String>) -> Result<
    MoveRequestView,
    Seq<char>,
> {
    match body {
        Ok(request) => Ok(request@),
        Err(debug) => Err(debug@),
    }
}

/// The way of a move request up to the first filesystem action. The
/// credential is looked at first, and a request without the right one is
/// turned down whatever its body holds. A body that could not be parsed is
/// turned down next. Only then does the move start.
pub open spec fn admitted(
    presented: Option<Seq<char>>,
    expected: Seq<char>,
    body: Result<MoveRequestView, Seq<char>>,
) -> StepView {
    if !key_accepted(presented, expected) {
        StepView::Done(OutcomeView::Rejected(RejectionView::Unauthorized))
    } else {
        match body {
            Err(debug) => StepView::Done(
                OutcomeView::Rejected(RejectionView::MalformedRequest(debug)),
            ),
            Ok(request) => StepView::Next(initial(request).0, initial(request).1),
        }
    }
}

/// Routes a move request: checks the credential with [`key_validation`],
/// then the body, and starts the move with [`handle_file_move`]. The result
/// is the end of the request where one of the checks fails, and otherwise
/// the machine of the move with its first action.
pub fn route_move(
    key: Option<&String>,
    expected: &String,
    body: Result<FileMoveRequest, String>,
) -> (step: Step)
    ensures
        step@ == admitted(presented_view(key), expected@, body_view(body)),
{
    match key_validation(key, expected) {
        Err(error) => Step::Done(MoveOutcome::Rejected(Rejection::Unauthorized(error))),
        Ok(()) => match body {
            Err(debug) => Step::Done(MoveOutcome::Rejected(Rejection::MalformedRequest(debug))),
            Ok(request) => {
                let (machine, action) = handle_file_move(request);
                Step::Next(machine, action)
            },
        },
    }
}

} // verus!
