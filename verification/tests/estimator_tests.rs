use market::{
    Deal, Duration, EstimatorState, EvaluatedDeal, EvaluatedSearchResult, EvaluationRequesterID,
    Fate, Instant, Location, Message, NodeID, OfferID, RawID, ResourceId, RoughLocationID,
    TimeOfDay, TripCostEstimator, TripCostEstimatorID,
};

const FOOD: ResourceId = ResourceId(1);
const COIN: ResourceId = ResourceId(2);

fn raw(instance_id: u32) -> RawID {
    RawID { instance_id, type_id: 3, machine: 0, version: 0 }
}

fn place(n: u32) -> Location {
    Location { landmark: NodeID(raw(1000 + n)), node: NodeID(raw(2000 + n)) }
}

fn requester() -> EvaluationRequesterID {
    EvaluationRequesterID(raw(40))
}

fn here() -> RoughLocationID {
    RoughLocationID(raw(50))
}

fn there() -> RoughLocationID {
    RoughLocationID(raw(30))
}

fn id() -> TripCostEstimatorID {
    TripCostEstimatorID(raw(80))
}

fn evaluated(duration: u64, from: TimeOfDay, to: TimeOfDay) -> EvaluatedDeal {
    EvaluatedDeal {
        offer: OfferID(raw(10)),
        deal: Deal::new(vec![(FOOD, 5), (COIN, -2)], Duration(duration)),
        from,
        to,
    }
}

fn base_result() -> EvaluatedSearchResult {
    EvaluatedSearchResult {
        resource: FOOD,
        evaluated_deals: vec![evaluated(600, TimeOfDay::new(8, 0), TimeOfDay::new(18, 0))],
    }
}

fn empty_result() -> EvaluatedSearchResult {
    EvaluatedSearchResult { resource: FOOD, evaluated_deals: vec![] }
}

fn started() -> TripCostEstimator {
    TripCostEstimator::spawn(id(), requester(), here(), there(), &base_result(), Instant(7)).0
}

fn gives_up() -> Vec<Message> {
    vec![
        Message::OnResult { requester: requester(), result: empty_result() },
        Message::Done { estimator: id() },
    ]
}

#[test]
fn spawn_asks_both_places_to_resolve() {
    let (estimator, outbox) =
        TripCostEstimator::spawn(id(), requester(), here(), there(), &base_result(), Instant(7));
    assert_eq!(
        outbox,
        vec![
            Message::ResolveAsLocation {
                target: here(),
                requester: id().as_location_requester(),
                rough_location: here(),
                instant: Instant(7),
            },
            Message::ResolveAsLocation {
                target: there(),
                requester: id().as_location_requester(),
                rough_location: there(),
                instant: Instant(7),
            },
        ]
    );
    assert_eq!(estimator.id(), id());
    assert_eq!(estimator.requester(), requester());
    assert_eq!(estimator.state(), EstimatorState::AwaitingBothLocations);
    assert_eq!(estimator.n_resolved(), 0);
    assert_eq!(estimator.source(), None);
    assert_eq!(estimator.destination(), None);
    assert_eq!(*estimator.base_result(), base_result());
    assert!(estimator.awaits(here()));
    assert!(estimator.awaits(there()));
    assert!(!estimator.awaits(RoughLocationID(raw(99))));
}

#[test]
fn the_first_answer_is_noted_and_nothing_is_sent() {
    let mut estimator = started();
    let outbox = estimator.location_resolved(here(), Some(place(1)), Instant(8));
    assert!(outbox.is_empty());
    assert_eq!(estimator.state(), EstimatorState::AwaitingBothLocations);
    assert_eq!(estimator.n_resolved(), 1);
    assert_eq!(estimator.source(), Some(place(1)));
    assert_eq!(estimator.destination(), None);
}

#[test]
fn both_places_resolved_asks_for_the_distance() {
    let mut estimator = started();
    estimator.location_resolved(here(), Some(place(1)), Instant(8));
    let outbox = estimator.location_resolved(there(), Some(place(2)), Instant(8));
    assert_eq!(
        outbox,
        vec![Message::GetDistanceTo {
            source: place(1),
            destination: place(2),
            requester: id().as_distance_requester(),
        }]
    );
    assert_eq!(estimator.state(), EstimatorState::AwaitingDistance);
    assert_eq!(estimator.n_resolved(), 2);
}

#[test]
fn the_answers_may_come_in_the_other_order() {
    let mut estimator = started();
    let first = estimator.location_resolved(there(), Some(place(2)), Instant(8));
    assert!(first.is_empty());
    let second = estimator.location_resolved(here(), Some(place(1)), Instant(8));
    assert_eq!(
        second,
        vec![Message::GetDistanceTo {
            source: place(1),
            destination: place(2),
            requester: id().as_distance_requester(),
        }]
    );
}

#[test]
fn an_unresolved_destination_ends_with_an_empty_result() {
    let mut estimator = started();
    let first = estimator.location_resolved(here(), Some(place(1)), Instant(8));
    assert!(first.is_empty());
    let second = estimator.location_resolved(there(), None, Instant(8));
    assert_eq!(second, gives_up());
    assert_eq!(estimator.state(), EstimatorState::Done);
    assert!(!second.iter().any(|message| matches!(message, Message::GetDistanceTo { .. })));
}

#[test]
fn an_unresolved_source_ends_with_an_empty_result() {
    let mut estimator = started();
    let first = estimator.location_resolved(here(), None, Instant(8));
    assert!(first.is_empty());
    assert_eq!(estimator.state(), EstimatorState::AwaitingBothLocations);
    let second = estimator.location_resolved(there(), Some(place(2)), Instant(8));
    assert_eq!(second, gives_up());
    assert_eq!(estimator.state(), EstimatorState::Done);
}

#[test]
fn two_unresolved_places_end_with_one_empty_result() {
    let mut estimator = started();
    let first = estimator.location_resolved(there(), None, Instant(8));
    assert!(first.is_empty());
    let second = estimator.location_resolved(here(), None, Instant(8));
    assert_eq!(second, gives_up());
}

#[test]
fn one_place_asked_about_twice_never_gets_a_destination() {
    let (mut estimator, _) =
        TripCostEstimator::spawn(id(), requester(), here(), here(), &base_result(), Instant(7));
    let first = estimator.location_resolved(here(), Some(place(1)), Instant(8));
    assert!(first.is_empty());
    let second = estimator.location_resolved(here(), Some(place(1)), Instant(8));
    assert_eq!(second, gives_up());
    assert_eq!(estimator.destination(), None);
}

#[test]
fn a_distance_delays_the_deal_by_the_travel_time() {
    let mut estimator = started();
    estimator.location_resolved(here(), Some(place(1)), Instant(8));
    estimator.location_resolved(there(), Some(place(2)), Instant(8));
    assert!(estimator.can_travel(1000));
    let outbox = estimator.on_distance(Some(1000));
    let adjusted = EvaluatedSearchResult {
        resource: FOOD,
        evaluated_deals: vec![evaluated(
            700,
            TimeOfDay::new(8, 0).earlier_by(Duration(100)),
            TimeOfDay::new(18, 0).earlier_by(Duration(100)),
        )],
    };
    assert_eq!(
        outbox,
        vec![
            Message::OnResult { requester: requester(), result: adjusted },
            Message::Done { estimator: id() },
        ]
    );
    assert_eq!(estimator.state(), EstimatorState::Done);
    match &outbox[0] {
        Message::OnResult { result, .. } => {
            assert_eq!(result.evaluated_deals[0].deal.duration, Duration(700));
            assert_eq!(result.evaluated_deals[0].from.seconds_since_midnight(), 28_700);
            assert_eq!(result.evaluated_deals[0].to.seconds_since_midnight(), 64_700);
        }
        _ => panic!("the first message is the result"),
    }
}

#[test]
fn the_travel_time_is_the_distance_over_ten_rounded_down() {
    for (distance, travel) in [(0u64, 0u64), (9, 0), (10, 1), (19, 1), (1005, 100), (86_400 * 10, 86_400)] {
        let mut estimator = started();
        estimator.location_resolved(here(), Some(place(1)), Instant(8));
        estimator.location_resolved(there(), Some(place(2)), Instant(8));
        let outbox = estimator.on_distance(Some(distance));
        match &outbox[0] {
            Message::OnResult { result, .. } => {
                let deal = &result.evaluated_deals[0];
                assert_eq!(deal.deal.duration, Duration(600 + travel));
                assert_eq!(deal.from, TimeOfDay::new(8, 0).earlier_by(Duration(travel)));
                assert_eq!(deal.to, TimeOfDay::new(18, 0).earlier_by(Duration(travel)));
                assert_eq!(deal.deal.delta, base_result().evaluated_deals[0].deal.delta);
                assert_eq!(deal.offer, OfferID(raw(10)));
            }
            _ => panic!("the first message is the result"),
        }
    }
}

#[test]
fn a_long_journey_moves_the_window_across_midnight() {
    let base = EvaluatedSearchResult {
        resource: FOOD,
        evaluated_deals: vec![evaluated(0, TimeOfDay::new(0, 10), TimeOfDay::new(1, 0))],
    };
    let (mut estimator, _) =
        TripCostEstimator::spawn(id(), requester(), here(), there(), &base, Instant(7));
    estimator.location_resolved(here(), Some(place(1)), Instant(8));
    estimator.location_resolved(there(), Some(place(2)), Instant(8));
    let outbox = estimator.on_distance(Some(18_000));
    match &outbox[0] {
        Message::OnResult { result, .. } => {
            assert_eq!(result.evaluated_deals[0].deal.duration, Duration(1_800));
            assert_eq!(result.evaluated_deals[0].from, TimeOfDay::new(23, 40));
            assert_eq!(result.evaluated_deals[0].to, TimeOfDay::new(0, 30));
        }
        _ => panic!("the first message is the result"),
    }
}

#[test]
fn every_deal_of_the_base_result_is_delayed() {
    let base = EvaluatedSearchResult {
        resource: FOOD,
        evaluated_deals: vec![
            evaluated(10, TimeOfDay::new(8, 0), TimeOfDay::new(18, 0)),
            evaluated(20, TimeOfDay::new(9, 0), TimeOfDay::new(10, 0)),
        ],
    };
    let (mut estimator, _) =
        TripCostEstimator::spawn(id(), requester(), here(), there(), &base, Instant(7));
    estimator.location_resolved(there(), Some(place(2)), Instant(8));
    estimator.location_resolved(here(), Some(place(1)), Instant(8));
    let outbox = estimator.on_distance(Some(600));
    match &outbox[0] {
        Message::OnResult { result, .. } => {
            assert_eq!(result.resource, FOOD);
            assert_eq!(result.evaluated_deals.len(), 2);
            assert_eq!(result.evaluated_deals[0].deal.duration, Duration(70));
            assert_eq!(result.evaluated_deals[1].deal.duration, Duration(80));
            assert_eq!(result.evaluated_deals[0].from, TimeOfDay::new(7, 59));
            assert_eq!(result.evaluated_deals[1].to, TimeOfDay::new(9, 59));
        }
        _ => panic!("the first message is the result"),
    }
}

#[test]
fn no_distance_ends_with_an_empty_result() {
    let mut estimator = started();
    estimator.location_resolved(here(), Some(place(1)), Instant(8));
    estimator.location_resolved(there(), Some(place(2)), Instant(8));
    let outbox = estimator.on_distance(None);
    assert_eq!(outbox, gives_up());
    assert_eq!(estimator.state(), EstimatorState::Done);
}

#[test]
fn can_travel_tells_when_a_duration_would_overflow() {
    let base = EvaluatedSearchResult {
        resource: FOOD,
        evaluated_deals: vec![
            evaluated(600, TimeOfDay::new(8, 0), TimeOfDay::new(18, 0)),
            evaluated(u64::MAX - 100, TimeOfDay::new(8, 0), TimeOfDay::new(18, 0)),
        ],
    };
    let (estimator, _) =
        TripCostEstimator::spawn(id(), requester(), here(), there(), &base, Instant(7));
    assert!(estimator.can_travel(1000));
    assert!(estimator.can_travel(1009));
    assert!(!estimator.can_travel(1010));
    assert!(!estimator.can_travel(u64::MAX));
    assert!(base.can_be_delayed_by(Duration(100)));
    assert!(!base.can_be_delayed_by(Duration(101)));
    assert!(base.evaluated_deals[0].can_be_delayed_by(Duration(101)));
}

#[test]
fn done_ends_the_estimator() {
    let mut estimator = started();
    assert_eq!(estimator.done(), Fate::Die);
    assert_eq!(estimator.state(), EstimatorState::Done);
}

#[test]
fn delayed_by_on_a_single_deal() {
    let deal = evaluated(600, TimeOfDay::new(8, 0), TimeOfDay::new(18, 0));
    let delayed = deal.delayed_by(Duration(100));
    assert_eq!(delayed.offer, deal.offer);
    assert_eq!(delayed.deal.duration, Duration(700));
    assert_eq!(delayed.deal.delta, deal.deal.delta);
    assert_eq!(delayed.from.seconds_since_midnight(), 7 * 3_600 + 58 * 60 + 20);
    assert_eq!(delayed.to.seconds_since_midnight(), 17 * 3_600 + 58 * 60 + 20);
    assert_eq!(deal.delayed_by(Duration(0)), deal);
}

#[test]
fn empty_and_single_results() {
    assert_eq!(EvaluatedSearchResult::empty(FOOD), empty_result());
    let deal = evaluated(600, TimeOfDay::new(8, 0), TimeOfDay::new(18, 0));
    assert_eq!(EvaluatedSearchResult::single(FOOD, deal.clone()), base_result());
    assert_eq!(base_result().clone(), base_result());
    assert_eq!(empty_result().delayed_by(Duration(5)), empty_result());
}
