//! The identities by which actors address one another, and the places that
//! the spatial resolver knows.

use vstd::prelude::*;

verus! {

/// The untyped identity of an actor instance.
#[derive(Clone, Copy, PartialEq, Eq, Structural, Debug, Hash)]
pub struct RawID {
    /// The number of the instance within its class.
    pub instance_id: u32,
    /// The class of the instance.
    pub type_id: u16,
    /// The machine on which the instance lives.
    pub machine: u8,
    /// Tells apart successive uses of one instance number.
    pub version: u8,
}

/// The identity of an offer.
#[derive(Clone, Copy, PartialEq, Eq, Structural, Debug, Hash)]
pub struct OfferID(pub RawID);

/// The identity of the market.
#[derive(Clone, Copy, PartialEq, Eq, Structural, Debug, Hash)]
pub struct MarketID(pub RawID);

/// The identity of a household.
#[derive(Clone, Copy, PartialEq, Eq, Structural, Debug, Hash)]
pub struct HouseholdID(pub RawID);

/// The identity of an actor that waits for the results of a search.
#[derive(Clone, Copy, PartialEq, Eq, Structural, Debug, Hash)]
pub struct EvaluationRequesterID(pub RawID);

/// The identity of a trip cost estimator.
#[derive(Clone, Copy, PartialEq, Eq, Structural, Debug, Hash)]
pub struct TripCostEstimatorID(pub RawID);

/// The identity of anything that can say where it is, before that place
/// has been resolved to a concrete location.
#[derive(Clone, Copy, PartialEq, Eq, Structural, Debug, Hash)]
pub struct RoughLocationID(pub RawID);

/// The identity of an actor that waits for a location to be resolved.
#[derive(Clone, Copy, PartialEq, Eq, Structural, Debug, Hash)]
pub struct LocationRequesterID(pub RawID);

/// The identity of an actor that waits for a distance.
#[derive(Clone, Copy, PartialEq, Eq, Structural, Debug, Hash)]
pub struct DistanceRequesterID(pub RawID);

/// The identity of a node of the transport network.
#[derive(Clone, Copy, PartialEq, Eq, Structural, Debug, Hash)]
pub struct NodeID(pub RawID);

/// The position of a member within its household.
#[derive(Clone, Copy, PartialEq, Eq, Structural, Debug, Hash)]
pub struct MemberIdx(pub usize);

/// A concrete place in the transport network.
#[derive(Clone, Copy, PartialEq, Eq, Structural, Debug, Hash)]
pub struct Location {
    /// The landmark through which the place is reached.
    pub landmark: NodeID,
    /// The node of the place itself.
    pub node: NodeID,
}

impl OfferID {
    /// The offer seen as something that has a place.
    pub fn as_rough_location(self) -> (id: RoughLocationID)
        ensures
            id.0 == self.0,
    {
        RoughLocationID(self.0)
    }
}

impl TripCostEstimatorID {
    /// The estimator seen as the receiver of resolved locations.
    pub fn as_location_requester(self) -> (id: LocationRequesterID)
        ensures
            id.0 == self.0,
    {
        LocationRequesterID(self.0)
    }

    /// The estimator seen as the receiver of a distance.
    pub fn as_distance_requester(self) -> (id: DistanceRequesterID)
        ensures
            id.0 == self.0,
    {
        DistanceRequesterID(self.0)
    }
}

} // verus!
