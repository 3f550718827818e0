//! Places that are known only roughly: anything that can be asked where it
//! is, and answers with a concrete location once it has found out.

use vstd::prelude::*;
use crate::ids::{LocationRequesterID, RoughLocationID};
use crate::messages::{views, Message, MessageView};
use crate::time::Instant;

verus! {

/// Something that has a place and can be asked to resolve it. The answer
/// goes to the requester in a message of its own and names the place as
/// `rough_location`, so that a requester who asked about several places
/// can tell the answers apart.
pub trait RoughLocation {
    /// The messages by which the place gets itself resolved for
    /// `requester`.
    spec fn resolving(
        &self,
        requester: LocationRequesterID,
        rough_location: RoughLocationID,
        instant: nat,
    ) -> Seq<MessageView>;

    /// Asks the place to resolve itself as it is at `instant` and to
    /// answer `requester` under the name `rough_location`.
    fn resolve_as_location(
        &self,
        requester: LocationRequesterID,
        rough_location: RoughLocationID,
        instant: Instant,
    ) -> (outbox: Vec<Message>)
        ensures
            views(outbox@) == self.resolving(requester, rough_location, instant@),
    ;
}

impl RoughLocation for RoughLocationID {
    /// The one request to the actor behind the identity.
    open spec fn resolving(
        &self,
        requester: LocationRequesterID,
        rough_location: RoughLocationID,
        instant: nat,
    ) -> Seq<MessageView> {
        seq![
            MessageView::ResolveAsLocation { target: *self, requester, rough_location, instant },
        ]
    }

    fn resolve_as_location(
        &self,
        requester: LocationRequesterID,
        rough_location: RoughLocationID,
        instant: Instant,
    ) -> (outbox: Vec<Message>) {
        let mut outbox: Vec<Message> = Vec::new();
        outbox.push(Message::ResolveAsLocation { target: *self, requester, rough_location, instant });
        proof {
            assert(views(outbox@) == self.resolving(requester, rough_location, instant@));
        }
        outbox
    }
}

} // verus!
