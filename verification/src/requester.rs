//! What an actor must be able to take in if it starts searches.

use vstd::prelude::*;
use crate::deal::EvaluatedSearchResult;
use crate::messages::Message;
use crate::resources::ResourceId;

verus! {

/// The receiving side of a search. A search is answered by one
/// announcement of how many results will come, and then by that many
/// results, in no particular order. To collect them and to notice that
/// all have come is the requester's own business.
pub trait EvaluationRequester {
    /// `n` results will come for the search for `resource`.
    fn expect_n_results(&mut self, resource: ResourceId, n: usize);

    /// One of the announced results. It may hold no deal.
    fn on_result(&mut self, result: &EvaluatedSearchResult);
}

/// Whether `message` is one of the two that a requester takes in.
pub open spec fn is_for_requester(message: Message) -> bool {
    message is ExpectNResults || message is OnResult
}

/// Hands `message` to `requester` if it is one of the two that a
/// requester takes in, and says whether it was.
pub fn deliver<R: EvaluationRequester>(requester: &mut R, message: &Message) -> (taken: bool)
    ensures
        taken == is_for_requester(*message),
{
    match message {
        Message::ExpectNResults { requester: _, resource, n } => {
            requester.expect_n_results(*resource, *n);
            true
        },
        Message::OnResult { requester: _, result } => {
            requester.on_result(result);
            true
        },
        _ => false,
    }
}

} // verus!
