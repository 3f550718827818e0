//! The trip cost estimator: a short-lived actor that takes one evaluated
//! result, finds out how far the searcher is from the offer, and sends
//! the searcher the result as it is after the journey.

use vstd::prelude::*;
use crate::deal::{EvaluatedSearchResult, SearchResultView};
use crate::ids::{
    DistanceRequesterID, EvaluationRequesterID, Location, LocationRequesterID, RoughLocationID,
    TripCostEstimatorID,
};
use crate::location::RoughLocation;
use crate::messages::{views, Fate, Message, MessageView};
use crate::time::{Duration, Instant};

verus! {

/// The speed at which a journey is assumed to go, in metres per second.
pub const ASSUMED_AVG_SPEED: u64 = 10;

/// The seconds that a journey of `distance` metres is assumed to take.
pub open spec fn travel_time(distance: nat) -> nat {
    distance / (ASSUMED_AVG_SPEED as nat)
}

/// How far an estimator has come.
#[derive(Clone, Copy, PartialEq, Eq, Structural, Debug)]
pub enum EstimatorState {
    /// Fewer than two answers to the two requests for a location have
    /// arrived.
    AwaitingBothLocations,
    /// Both places are known and the distance between them is asked for.
    AwaitingDistance,
    /// The one reply to the requester has been sent.
    Done,
}

/// The mathematical content of a `TripCostEstimator`.
pub struct EstimatorView {
    pub id: TripCostEstimatorID,
    pub requester: EvaluationRequesterID,
    pub rough_source: RoughLocationID,
    pub source: Option<Location>,
    pub rough_destination: RoughLocationID,
    pub destination: Option<Location>,
    pub n_resolved: nat,
    pub base_result: SearchResultView,
    pub state: EstimatorState,
}

impl EstimatorView {
    /// The estimator as it is when it has just been started.
    pub open spec fn fresh(
        id: TripCostEstimatorID,
        requester: EvaluationRequesterID,
        rough_source: RoughLocationID,
        rough_destination: RoughLocationID,
        base_result: SearchResultView,
    ) -> EstimatorView {
        EstimatorView {
            id,
            requester,
            rough_source,
            source: None,
            rough_destination,
            destination: None,
            n_resolved: 0,
            base_result,
            state: EstimatorState::AwaitingBothLocations,
        }
    }

    /// The two requests that a starting estimator sends: one to each
    /// rough location, to resolve itself and answer the estimator.
    pub open spec fn requests(self, instant: nat) -> Seq<MessageView> {
        let to_me = LocationRequesterID(self.id.0);
        self.rough_source.resolving(to_me, self.rough_source, instant)
            + self.rough_destination.resolving(to_me, self.rough_destination, instant)
    }

    /// What holds of an estimator at all times: while it waits for
    /// locations, fewer than two answers have come and not both places
    /// are known, and before the first answer none is; while it waits for
    /// the distance, both places are known.
    pub open spec fn wf(self) -> bool {
        match self.state {
            EstimatorState::AwaitingBothLocations => {
                &&& self.n_resolved < 2
                &&& !(self.source is Some && self.destination is Some)
                &&& self.n_resolved == 0 ==> self.source is None && self.destination is None
            },
            EstimatorState::AwaitingDistance => self.source is Some && self.destination is Some,
            EstimatorState::Done => true,
        }
    }

    /// Whether `rough_location` is one of the two places that the
    /// estimator asked about.
    pub open spec fn awaits(self, rough_location: RoughLocationID) -> bool {
        rough_location == self.rough_source || rough_location == self.rough_destination
    }

    /// The estimator after it has noted an answer: the location goes to
    /// the source where the answer names the rough source, else to the
    /// destination, and the answer is counted.
    pub open spec fn noted(self, rough_location: RoughLocationID, location: Option<Location>)
        -> EstimatorView {
        if rough_location == self.rough_source {
            EstimatorView { source: location, n_resolved: self.n_resolved + 1, ..self }
        } else {
            EstimatorView { destination: location, n_resolved: self.n_resolved + 1, ..self }
        }
    }

    /// The empty result for the requester, and the estimator's word to
    /// itself that it is done.
    pub open spec fn gives_up(self) -> Seq<MessageView> {
        seq![
            MessageView::OnResult {
                requester: self.requester,
                result: SearchResultView::empty(self.base_result.resource),
            },
            MessageView::Done { estimator: self.id },
        ]
    }

    /// The estimator and its messages after an answer to one of its two
    /// requests. With both places known it asks for the distance between
    /// them. Else, if this was the second answer, it sends the requester
    /// an empty result and is done. Else it sends nothing and waits.
    pub open spec fn location_resolved(
        self,
        rough_location: RoughLocationID,
        location: Option<Location>,
    ) -> (EstimatorView, Seq<MessageView>) {
        let noted = self.noted(rough_location, location);
        if noted.source is Some && noted.destination is Some {
            (
                EstimatorView { state: EstimatorState::AwaitingDistance, ..noted },
                seq![
                    MessageView::GetDistanceTo {
                        source: noted.source->0,
                        destination: noted.destination->0,
                        requester: DistanceRequesterID(self.id.0),
                    },
                ],
            )
        } else if noted.n_resolved == 2 {
            (EstimatorView { state: EstimatorState::Done, ..noted }, noted.gives_up())
        } else {
            (noted, Seq::empty())
        }
    }

    /// The result that the requester gets once the distance is in: with
    /// a distance, the base result with every deal delayed by the time of
    /// the journey; without one, the empty result.
    pub open spec fn final_result(self, maybe_distance: Option<nat>) -> SearchResultView {
        match maybe_distance {
            Some(distance) => self.base_result.delayed_by(travel_time(distance)),
            None => SearchResultView::empty(self.base_result.resource),
        }
    }

    /// The estimator and its messages after the answer to its request
    /// for the distance: the final result for the requester, and the
    /// estimator's word to itself that it is done.
    pub open spec fn on_distance(self, maybe_distance: Option<nat>) -> (
        EstimatorView,
        Seq<MessageView>,
    ) {
        (
            EstimatorView { state: EstimatorState::Done, ..self },
            seq![
                MessageView::OnResult {
                    requester: self.requester,
                    result: self.final_result(maybe_distance),
                },
                MessageView::Done { estimator: self.id },
            ],
        )
    }
}

/// The distance as a number without bound.
pub open spec fn distance_view(maybe_distance: Option<u64>) -> Option<nat> {
    match maybe_distance {
        Some(distance) => Some(distance as nat),
        None => None,
    }
}

/// One evaluation under way: what was asked, by whom, and how much of
/// the answer has come together.
#[derive(Debug, PartialEq, Eq)]
pub struct TripCostEstimator {
    id: TripCostEstimatorID,
    requester: EvaluationRequesterID,
    rough_source: RoughLocationID,
    source: Option<Location>,
    rough_destination: RoughLocationID,
    destination: Option<Location>,
    n_resolved: u8,
    base_result: EvaluatedSearchResult,
    state: EstimatorState,
}

impl View for TripCostEstimator {
    type V = EstimatorView;

    closed spec fn view(&self) -> EstimatorView {
        EstimatorView {
            id: self.id,
            requester: self.requester,
            rough_source: self.rough_source,
            source: self.source,
            rough_destination: self.rough_destination,
            destination: self.destination,
            n_resolved: self.n_resolved as nat,
            base_result: self.base_result@,
            state: self.state,
        }
    }
}

impl TripCostEstimator {
    #[verifier::type_invariant]
    spec fn counts_to_two(self) -> bool {
        self.state is AwaitingBothLocations ==> self.n_resolved < 2
    }

    /// Starts an estimator for `requester`, who is at `rough_source` and
    /// asks about an offer at `rough_destination`. The messages ask both
    /// places to resolve themselves and to answer the estimator.
    pub fn spawn(
        id: TripCostEstimatorID,
        requester: EvaluationRequesterID,
        rough_source: RoughLocationID,
        rough_destination: RoughLocationID,
        base_result: &EvaluatedSearchResult,
        instant: Instant,
    ) -> (started: (TripCostEstimator, Vec<Message>))
        ensures
            started.0@ == EstimatorView::fresh(
                id,
                requester,
                rough_source,
                rough_destination,
                base_result@,
            ),
            views(started.1@) == started.0@.requests(instant@),
            started.0@.wf(),
    {
        let to_me = id.as_location_requester();
        let mut outbox = rough_source.resolve_as_location(to_me, rough_source, instant);
        let mut second = rough_destination.resolve_as_location(to_me, rough_destination, instant);
        let ghost first_sent = outbox@;
        let ghost second_sent = second@;
        outbox.append(&mut second);
        let estimator = TripCostEstimator {
            id,
            requester,
            rough_source,
            rough_destination,
            base_result: base_result.clone(),
            source: None,
            n_resolved: 0,
            destination: None,
            state: EstimatorState::AwaitingBothLocations,
        };
        proof {
            assert(views(outbox@) =~= views(first_sent) + views(second_sent));
            assert(views(outbox@) =~= estimator@.requests(instant@));
        }
        (estimator, outbox)
    }

    /// Ends the estimator.
    pub fn done(&mut self) -> (fate: Fate)
        ensures
            final(self)@ == (EstimatorView { state: EstimatorState::Done, ..old(self)@ }),
            fate == Fate::Die,
    {
        proof {
            use_type_invariant(&*self);
        }
        self.state = EstimatorState::Done;
        Fate::Die
    }

    /// How far the estimator has come.
    pub fn state(&self) -> (state: EstimatorState)
        ensures
            state == self@.state,
    {
        self.state
    }

    /// Whether `rough_location` is one of the two places that the
    /// estimator asked about.
    pub fn awaits(&self, rough_location: RoughLocationID) -> (known: bool)
        ensures
            known == self@.awaits(rough_location),
    {
        self.rough_source == rough_location || self.rough_destination == rough_location
    }

    /// Takes the answer to one of the two requests for a location;
    /// `location` is `None` where the place could not be resolved. The
    /// answers may come in either order. The estimator must be waiting
    /// for locations, and `rough_location` must be one of the two places
    /// it asked about.
    pub fn location_resolved(
        &mut self,
        rough_location: RoughLocationID,
        location: Option<Location>,
        _tick: Instant,
    ) -> (outbox: Vec<Message>)
        requires
            old(self)@.state == EstimatorState::AwaitingBothLocations,
            old(self)@.awaits(rough_location),
        ensures
            (final(self)@, views(outbox@)) == old(self)@.location_resolved(
                rough_location,
                location,
            ),
            old(self)@.wf() ==> final(self)@.wf(),
    {
        proof {
            use_type_invariant(&*self);
        }
        if self.rough_source == rough_location {
            self.source = location;
        } else {
            self.destination = location;
        }
        let n_resolved: u8 = self.n_resolved + 1;
        let mut outbox: Vec<Message> = Vec::new();
        match (self.source, self.destination) {
            (Some(source), Some(destination)) => {
                self.state = EstimatorState::AwaitingDistance;
                outbox.push(
                    Message::GetDistanceTo {
                        source,
                        destination,
                        requester: self.id.as_distance_requester(),
                    },
                );
            },
            _ => {
                if n_resolved == 2 {
                    self.state = EstimatorState::Done;
                    outbox.push(
                        Message::OnResult {
                            requester: self.requester,
                            result: EvaluatedSearchResult::empty(self.base_result.resource),
                        },
                    );
                    outbox.push(Message::Done { estimator: self.id });
                }
            },
        }
        self.n_resolved = n_resolved;
        proof {
            assert(views(outbox@) =~= old(self)@.location_resolved(rough_location, location).1);
        }
        outbox
    }

    /// Whether the base result can be delayed by a journey of `distance`
    /// metres without a duration leaving the range of the machine's
    /// numbers.
    pub fn can_travel(&self, distance: u64) -> (fits: bool)
        ensures
            fits == self@.base_result.can_be_delayed_by(travel_time(distance as nat)),
    {
        self.base_result.can_be_delayed_by(Duration(distance / ASSUMED_AVG_SPEED))
    }

    /// Takes the answer to the request for the distance, in whole
    /// metres; `None` where no distance could be computed. Sends the
    /// requester the final result and is done.
    pub fn on_distance(&mut self, maybe_distance: Option<u64>) -> (outbox: Vec<Message>)
        requires
            old(self)@.state == EstimatorState::AwaitingDistance,
            maybe_distance matches Some(distance) ==> old(self)@.base_result.can_be_delayed_by(
                travel_time(distance as nat),
            ),
        ensures
            (final(self)@, views(outbox@)) == old(self)@.on_distance(distance_view(maybe_distance)),
    {
        proof {
            use_type_invariant(&*self);
        }
        let result = match maybe_distance {
            Some(distance) => {
                let estimated_travel_time = Duration(distance / ASSUMED_AVG_SPEED);
                self.base_result.delayed_by(estimated_travel_time)
            },
            None => EvaluatedSearchResult::empty(self.base_result.resource),
        };
        self.state = EstimatorState::Done;
        let mut outbox: Vec<Message> = Vec::new();
        outbox.push(Message::OnResult { requester: self.requester, result });
        outbox.push(Message::Done { estimator: self.id });
        proof {
            assert(views(outbox@) =~= old(self)@.on_distance(distance_view(maybe_distance)).1);
        }
        outbox
    }

    /// The estimator's identity.
    pub fn id(&self) -> (id: TripCostEstimatorID)
        ensures
            id == self@.id,
    {
        self.id
    }

    /// The actor that gets the one reply.
    pub fn requester(&self) -> (requester: EvaluationRequesterID)
        ensures
            requester == self@.requester,
    {
        self.requester
    }

    /// The number of answers to the two requests for a location that
    /// have arrived.
    pub fn n_resolved(&self) -> (n: u8)
        ensures
            n == self@.n_resolved,
    {
        self.n_resolved
    }

    /// The requester's place, once resolved.
    pub fn source(&self) -> (source: Option<Location>)
        ensures
            source == self@.source,
    {
        self.source
    }

    /// The offer's place, once resolved.
    pub fn destination(&self) -> (destination: Option<Location>)
        ensures
            destination == self@.destination,
    {
        self.destination
    }

    /// The result as it was before any travel was taken into account.
    pub fn base_result(&self) -> (base_result: &EvaluatedSearchResult)
        ensures
            base_result@ == self@.base_result,
    {
        &self.base_result
    }
}

} // verus!
