//! The messages that the actors of the marketplace send, and what an actor
//! decides about itself after handling one.

use vstd::prelude::*;
use crate::deal::{Deal, DealView, EvaluatedSearchResult, SearchResultView};
use crate::ids::{
    DistanceRequesterID, EvaluationRequesterID, HouseholdID, Location, LocationRequesterID,
    MemberIdx, OfferID, RoughLocationID, TripCostEstimatorID,
};
use crate::resources::ResourceId;
use crate::time::Instant;

verus! {

/// What an actor decides about itself when it has handled a message.
#[derive(Clone, Copy, PartialEq, Eq, Structural, Debug)]
pub enum Fate {
    /// The actor goes on living.
    Live,
    /// The actor ends and can no longer be reached.
    Die,
}

/// A message from one actor to another. Each variant names the handler
/// that receives it and carries that handler's arguments.
#[derive(Debug, PartialEq, Eq)]
#[allow(inconsistent_fields)]
pub enum Message {
    /// To the market: index `offer` under `resource`.
    Register { resource: ResourceId, offer: OfferID },
    /// To the market: take `offer` out of the index of `resource`.
    Withdraw { resource: ResourceId, offer: OfferID },
    /// To `offer`: the market no longer lists it.
    WithdrawalConfirmed { offer: OfferID },
    /// To `offer`: evaluate yourself for `requester`, who is at `location`.
    Evaluate {
        offer: OfferID,
        instant: Instant,
        location: RoughLocationID,
        requester: EvaluationRequesterID,
    },
    /// To `requester`: so many results will come for `resource`.
    ExpectNResults { requester: EvaluationRequesterID, resource: ResourceId, n: usize },
    /// To `requester`: one of the results it was told to expect.
    OnResult { requester: EvaluationRequesterID, result: EvaluatedSearchResult },
    /// To the runtime: start a trip cost estimator with these arguments.
    SpawnEstimator {
        requester: EvaluationRequesterID,
        rough_source: RoughLocationID,
        rough_destination: RoughLocationID,
        base_result: EvaluatedSearchResult,
        instant: Instant,
    },
    /// To `estimator`: you have replied, end.
    Done { estimator: TripCostEstimatorID },
    /// To `target`: resolve yourself to a concrete location and tell
    /// `requester`, naming the place as `rough_location`.
    ResolveAsLocation {
        target: RoughLocationID,
        requester: LocationRequesterID,
        rough_location: RoughLocationID,
        instant: Instant,
    },
    /// To the node of `source`: tell `requester` how far it is to
    /// `destination`.
    GetDistanceTo { source: Location, destination: Location, requester: DistanceRequesterID },
    /// To `household`: its `member` has provided `deal`.
    ProvideDeal { household: HouseholdID, deal: Deal, member: MemberIdx },
    /// To `household`: its `member` has received `deal`.
    ReceiveDeal { household: HouseholdID, deal: Deal, member: MemberIdx },
}

/// The mathematical content of a `Message`.
#[allow(inconsistent_fields)]
pub enum MessageView {
    Register { resource: ResourceId, offer: OfferID },
    Withdraw { resource: ResourceId, offer: OfferID },
    WithdrawalConfirmed { offer: OfferID },
    Evaluate {
        offer: OfferID,
        instant: nat,
        location: RoughLocationID,
        requester: EvaluationRequesterID,
    },
    ExpectNResults { requester: EvaluationRequesterID, resource: ResourceId, n: nat },
    OnResult { requester: EvaluationRequesterID, result: SearchResultView },
    SpawnEstimator {
        requester: EvaluationRequesterID,
        rough_source: RoughLocationID,
        rough_destination: RoughLocationID,
        base_result: SearchResultView,
        instant: nat,
    },
    Done { estimator: TripCostEstimatorID },
    ResolveAsLocation {
        target: RoughLocationID,
        requester: LocationRequesterID,
        rough_location: RoughLocationID,
        instant: nat,
    },
    GetDistanceTo { source: Location, destination: Location, requester: DistanceRequesterID },
    ProvideDeal { household: HouseholdID, deal: DealView, member: MemberIdx },
    ReceiveDeal { household: HouseholdID, deal: DealView, member: MemberIdx },
}

impl View for Message {
    type V = MessageView;

    open spec fn view(&self) -> MessageView {
        match *self {
            Message::Register { resource, offer } => MessageView::Register { resource, offer },
            Message::Withdraw { resource, offer } => MessageView::Withdraw { resource, offer },
            Message::WithdrawalConfirmed { offer } => MessageView::WithdrawalConfirmed { offer },
            Message::Evaluate { offer, instant, location, requester } => MessageView::Evaluate {
                offer,
                instant: instant@,
                location,
                requester,
            },
            Message::ExpectNResults { requester, resource, n } => MessageView::ExpectNResults {
                requester,
                resource,
                n: n as nat,
            },
            Message::OnResult { requester, result } => MessageView::OnResult {
                requester,
                result: result@,
            },
            Message::SpawnEstimator {
                requester,
                rough_source,
                rough_destination,
                base_result,
                instant,
            } => MessageView::SpawnEstimator {
                requester,
                rough_source,
                rough_destination,
                base_result: base_result@,
                instant: instant@,
            },
            Message::Done { estimator } => MessageView::Done { estimator },
            Message::ResolveAsLocation {
                target,
                requester,
                rough_location,
                instant,
            } => MessageView::ResolveAsLocation {
                target,
                requester,
                rough_location,
                instant: instant@,
            },
            Message::GetDistanceTo { source, destination, requester } => {
                MessageView::GetDistanceTo { source, destination, requester }
            },
            Message::ProvideDeal { household, deal, member } => MessageView::ProvideDeal {
                household,
                deal: deal@,
                member,
            },
            Message::ReceiveDeal { household, deal, member } => MessageView::ReceiveDeal {
                household,
                deal: deal@,
                member,
            },
        }
    }
}

/// The mathematical content of a sequence of messages, in the same order.
pub open spec fn views(messages: Seq<Message>) -> Seq<MessageView> {
    messages.map_values(|message: Message| message@)
}

/// The number of results that `messages` deliver to `requester`.
pub open spec fn results_for(messages: Seq<MessageView>, requester: EvaluationRequesterID) -> nat
    decreases messages.len(),
{
    if messages.len() == 0 {
        0
    } else {
        let rest = results_for(messages.drop_last(), requester);
        match messages.last() {
            MessageView::OnResult { requester: to, .. } => if to == requester {
                rest + 1
            } else {
                rest
            },
            _ => rest,
        }
    }
}

} // verus!
