//! A decentralised marketplace: standing offers, a resource-indexed registry,
//! and the travel-adjusted evaluation of offers for a searcher.
//!
//! Every component is an actor that owns its state and reacts to one message
//! at a time. The handlers in this crate are the decisions of those actors:
//! each takes the actor's state and an incoming message and gives back the
//! messages to send. Delivering the messages is left to the runtime around
//! the crate.

pub mod deal;
pub mod estimator;
pub mod ids;
pub mod location;
pub mod market;
pub mod messages;
pub mod offer;
pub mod protocol;
pub mod requester;
pub mod resources;
pub mod time;

pub use crate::deal::{
    Deal, DealView, EvaluatedDeal, EvaluatedDealView, EvaluatedSearchResult, SearchResultView,
};
pub use crate::estimator::{EstimatorState, EstimatorView, TripCostEstimator};
pub use crate::ids::{
    DistanceRequesterID, EvaluationRequesterID, HouseholdID, Location, LocationRequesterID,
    MarketID, MemberIdx, NodeID, OfferID, RawID, RoughLocationID, TripCostEstimatorID,
};
pub use crate::location::RoughLocation;
pub use crate::market::{Market, MarketView};
pub use crate::messages::{Fate, Message, MessageView};
pub use crate::offer::{Lifecycle, Offer, OfferView, User};
pub use crate::requester::EvaluationRequester;
pub use crate::resources::{Entry, Inventory, ResourceAmount, ResourceId};
pub use crate::time::{Duration, Instant, TimeOfDay};
