//! What holds of whole exchanges between the market, the offers, the
//! estimators and a requester, whatever the world outside answers.

use vstd::prelude::*;
use crate::deal::SearchResultView;
use crate::estimator::{travel_time, EstimatorState, EstimatorView};
use crate::ids::{EvaluationRequesterID, Location, OfferID, RoughLocationID, TripCostEstimatorID};
use crate::market::{evaluations, is_other_offer, MarketView};
use crate::messages::{results_for, MessageView};
use crate::offer::{is_other_user, Lifecycle, OfferView, User};
use crate::resources::ResourceId;
use crate::time::clock_earlier;

verus! {

/// What the world outside answers to one estimator: what the two places
/// resolve to, which of the two answers arrives first, and the distance
/// that is given if it is asked for.
pub struct Answers {
    pub source: Option<Location>,
    pub destination: Option<Location>,
    pub source_first: bool,
    pub distance: Option<nat>,
}

/// The estimator and all that it has sent once both answers to its
/// requests for a location have arrived.
pub open spec fn after_locations(start: EstimatorView, answers: Answers) -> (
    EstimatorView,
    Seq<MessageView>,
) {
    if answers.source_first {
        let first = start.location_resolved(start.rough_source, answers.source);
        let second = first.0.location_resolved(start.rough_destination, answers.destination);
        (second.0, first.1 + second.1)
    } else {
        let first = start.location_resolved(start.rough_destination, answers.destination);
        let second = first.0.location_resolved(start.rough_source, answers.source);
        (second.0, first.1 + second.1)
    }
}

/// The estimator at its end and all that it has sent after its two
/// requests: it takes both answers, and the distance if it asked for it.
pub open spec fn estimator_run(start: EstimatorView, answers: Answers) -> (
    EstimatorView,
    Seq<MessageView>,
) {
    let located = after_locations(start, answers);
    if located.0.state == EstimatorState::AwaitingDistance {
        let ended = located.0.on_distance(answers.distance);
        (ended.0, located.1 + ended.1)
    } else {
        located
    }
}

/// What stands behind one listed offer when a search reaches it: the
/// offer as it then is, the identity that the runtime gives to an
/// estimator started for it, and the world's answers to that estimator.
pub struct Circumstances {
    pub offer: OfferView,
    pub estimator: TripCostEstimatorID,
    pub answers: Answers,
}

/// Everything that is sent because one offer was asked to evaluate
/// itself: the offer's answer and, where that starts an estimator, the
/// estimator's requests and all that it sends until its end.
pub open spec fn evaluation_run(
    given: Circumstances,
    instant: nat,
    location: RoughLocationID,
    requester: EvaluationRequesterID,
) -> Seq<MessageView> {
    let answer = given.offer.evaluate(instant, location, requester);
    match answer[0] {
        MessageView::SpawnEstimator {
            requester,
            rough_source,
            rough_destination,
            base_result,
            instant,
        } => {
            let start = EstimatorView::fresh(
                given.estimator,
                requester,
                rough_source,
                rough_destination,
                base_result,
            );
            answer + start.requests(instant) + estimator_run(start, given.answers).1
        },
        _ => answer,
    }
}

/// Everything that is sent because the offers behind `world` were asked,
/// one after the other, to evaluate themselves.
pub open spec fn fan_out(
    world: Seq<Circumstances>,
    instant: nat,
    location: RoughLocationID,
    requester: EvaluationRequesterID,
) -> Seq<MessageView>
    decreases world.len(),
{
    if world.len() == 0 {
        Seq::empty()
    } else {
        fan_out(world.drop_last(), instant, location, requester) + evaluation_run(
            world.last(),
            instant,
            location,
            requester,
        )
    }
}

/// The results in two runs of messages are those of the one and those of
/// the other.
pub proof fn lemma_results_for_concat(
    a: Seq<MessageView>,
    b: Seq<MessageView>,
    requester: EvaluationRequesterID,
)
    ensures
        results_for(a + b, requester) == results_for(a, requester) + results_for(b, requester),
    decreases b.len(),
{
    if b.len() == 0 {
        assert(a + b == a);
    } else {
        assert((a + b).drop_last() == a + b.drop_last());
        assert((a + b).last() == b.last());
        lemma_results_for_concat(a, b.drop_last(), requester);
    }
}

/// The results in a run of one message: one if the message is a result
/// for the requester, else none.
pub proof fn lemma_results_for_one(message: MessageView, requester: EvaluationRequesterID)
    ensures
        results_for(seq![message], requester) == if message matches MessageView::OnResult {
            requester: to,
            ..
        } && to == requester {
            1nat
        } else {
            0nat
        },
{
    reveal_with_fuel(results_for, 2);
    assert(seq![message].drop_last() == Seq::<MessageView>::empty());
    assert(seq![message].last() == message);
}

/// A run of two messages is the run of the first and then the run of the
/// second.
proof fn lemma_pair(first: MessageView, second: MessageView)
    ensures
        seq![first, second] == seq![first] + seq![second],
{
    assert(seq![first, second] =~= seq![first] + seq![second]);
}

/// An estimator, from its start to its end, sends its requester exactly
/// one result, then tells itself that it is done, and sends nothing
/// after that. This holds in whichever order the two answers about the
/// places arrive, whether or not either place resolves, and whether or
/// not a distance is given. The distance is asked for at most once, and
/// only with both places known; where a place does not resolve, the
/// result is the empty one. After the first answer the estimator still
/// waits for locations, so that the second can be taken.
pub proof fn estimator_replies_exactly_once(
    id: TripCostEstimatorID,
    requester: EvaluationRequesterID,
    rough_source: RoughLocationID,
    rough_destination: RoughLocationID,
    base_result: SearchResultView,
    answers: Answers,
)
    ensures
        ({
            let start = EstimatorView::fresh(
                id,
                requester,
                rough_source,
                rough_destination,
                base_result,
            );
            let first_place = if answers.source_first {
                rough_source
            } else {
                rough_destination
            };
            let first_answer = if answers.source_first {
                answers.source
            } else {
                answers.destination
            };
            let waiting = start.location_resolved(first_place, first_answer);
            let run = estimator_run(start, answers);
            let reply = run.1[run.1.len() - 2];
            &&& start.wf()
            &&& waiting.0.state == EstimatorState::AwaitingBothLocations
            &&& waiting.0.wf()
            &&& waiting.1.len() == 0
            &&& after_locations(start, answers).0.wf()
            &&& run.0.state == EstimatorState::Done
            &&& results_for(run.1, requester) == 1
            &&& forall|other: EvaluationRequesterID|
                other != requester ==> #[trigger] results_for(run.1, other) == 0
            &&& 2 <= run.1.len() <= 3
            &&& run.1.last() == MessageView::Done { estimator: id }
            &&& reply matches MessageView::OnResult { requester: to, .. } && to == requester
            &&& run.1.len() == 3 ==> run.1[0] is GetDistanceTo
            &&& (answers.source is None || answers.destination is None) ==> run.1
                == start.gives_up()
        }),
{
    let start = EstimatorView::fresh(id, requester, rough_source, rough_destination, base_result);
    let located = after_locations(start, answers);
    let run = estimator_run(start, answers);
    let empty_reply = MessageView::OnResult {
        requester,
        result: SearchResultView::empty(base_result.resource),
    };
    let done = MessageView::Done { estimator: id };
    lemma_pair(empty_reply, done);
    if located.0.state == EstimatorState::AwaitingDistance {
        let ask = located.1[0];
        let reply = MessageView::OnResult {
            requester,
            result: located.0.final_result(answers.distance),
        };
        assert(located.1 =~= seq![ask]);
        assert(run.1 =~= seq![ask] + (seq![reply] + seq![done]));
        assert forall|to: EvaluationRequesterID| #[trigger]
            results_for(run.1, to) == if to == requester {
                1nat
            } else {
                0nat
            } by {
            lemma_results_for_one(ask, to);
            lemma_results_for_one(reply, to);
            lemma_results_for_one(done, to);
            lemma_results_for_concat(seq![reply], seq![done], to);
            lemma_results_for_concat(seq![ask], seq![reply] + seq![done], to);
        }
    } else {
        assert(run.1 =~= seq![empty_reply] + seq![done]);
        assert forall|to: EvaluationRequesterID| #[trigger]
            results_for(run.1, to) == if to == requester {
                1nat
            } else {
                0nat
            } by {
            lemma_results_for_one(empty_reply, to);
            lemma_results_for_one(done, to);
            lemma_results_for_concat(seq![empty_reply], seq![done], to);
        }
    }
}

/// While an estimator waits for locations, an answer about one of its
/// two places leaves it well-formed, whatever the answer holds.
pub proof fn estimator_stays_well_formed(
    estimator: EstimatorView,
    rough_location: RoughLocationID,
    location: Option<Location>,
)
    requires
        estimator.wf(),
        estimator.state == EstimatorState::AwaitingBothLocations,
        estimator.awaits(rough_location),
    ensures
        estimator.location_resolved(rough_location, location).0.wf(),
{
}

/// Where both places resolve and are asked about under different names,
/// the estimator asks once for the distance from the one to the other and
/// then sends the final result. With a distance of `d` metres every deal
/// of that result takes `d / 10` seconds longer than in the base result,
/// its window opens and closes `d / 10` seconds earlier on the clock
/// (which is plain subtraction where the window does not cross
/// midnight), and nothing else about it differs. Without a distance the
/// result is the empty one.
pub proof fn estimator_adjusts_for_the_journey(
    id: TripCostEstimatorID,
    requester: EvaluationRequesterID,
    rough_source: RoughLocationID,
    rough_destination: RoughLocationID,
    base_result: SearchResultView,
    answers: Answers,
)
    requires
        answers.source is Some,
        answers.destination is Some,
        rough_source != rough_destination,
    ensures
        ({
            let start = EstimatorView::fresh(
                id,
                requester,
                rough_source,
                rough_destination,
                base_result,
            );
            let run = estimator_run(start, answers);
            let result = match answers.distance {
                Some(distance) => base_result.delayed_by(distance / 10),
                None => SearchResultView::empty(base_result.resource),
            };
            &&& run.1.len() == 3
            &&& run.1[0] == MessageView::GetDistanceTo {
                source: answers.source->0,
                destination: answers.destination->0,
                requester: crate::ids::DistanceRequesterID(id.0),
            }
            &&& run.1[1] == MessageView::OnResult { requester, result }
            &&& run.1[2] == MessageView::Done { estimator: id }
            &&& result.resource == base_result.resource
            &&& answers.distance matches Some(distance) ==> {
                let delayed = base_result.delayed_by(distance / 10);
                &&& travel_time(distance) == distance / 10
                &&& delayed.evaluated_deals.len() == base_result.evaluated_deals.len()
                &&& forall|i: int|
                    0 <= i < base_result.evaluated_deals.len() ==> {
                        let before = base_result.evaluated_deals[i];
                        let after = #[trigger] delayed.evaluated_deals[i];
                        &&& after.offer == before.offer
                        &&& after.deal.delta == before.deal.delta
                        &&& after.deal.duration == before.deal.duration + distance / 10
                        &&& after.from == clock_earlier(before.from, distance / 10)
                        &&& after.to == clock_earlier(before.to, distance / 10)
                        &&& distance / 10 <= before.from < 86_400 ==> after.from == before.from
                            - distance / 10
                        &&& distance / 10 <= before.to < 86_400 ==> after.to == before.to - distance
                            / 10
                    }
            }
        }),
{
    let start = EstimatorView::fresh(id, requester, rough_source, rough_destination, base_result);
    let located = after_locations(start, answers);
    let run = estimator_run(start, answers);
    assert(located.0.state == EstimatorState::AwaitingDistance);
    assert(located.1 =~= seq![located.1[0]]);
    if let Some(distance) = answers.distance {
        let result = base_result.delayed_by(distance / 10);
        assert forall|i: int| 0 <= i < base_result.evaluated_deals.len() implies {
            let before = base_result.evaluated_deals[i];
            let after = #[trigger] result.evaluated_deals[i];
            &&& distance / 10 <= before.from < 86_400 ==> after.from == before.from - distance / 10
            &&& distance / 10 <= before.to < 86_400 ==> after.to == before.to - distance / 10
        } by {
            let before = base_result.evaluated_deals[i];
            if before.from < 86_400 {
                crate::time::lemma_clock_earlier(before.from, distance / 10);
            }
            if before.to < 86_400 {
                crate::time::lemma_clock_earlier(before.to, distance / 10);
            }
        }
    }
}

/// Whatever stands behind an offer, asking it to evaluate itself makes
/// exactly one result reach the requester: at once where the offer's
/// window has closed, at the end of the estimator's run where it has
/// not.
pub proof fn evaluation_gives_one_result(
    given: Circumstances,
    instant: nat,
    location: RoughLocationID,
    requester: EvaluationRequesterID,
)
    ensures
        results_for(evaluation_run(given, instant, location, requester), requester) == 1,
{
    let answer = given.offer.evaluate(instant, location, requester);
    assert(answer =~= seq![answer[0]]);
    lemma_results_for_one(answer[0], requester);
    if given.offer.is_open_at(instant) {
        let start = EstimatorView::fresh(
            given.estimator,
            requester,
            location,
            given.offer.location,
            given.offer.base_result(),
        );
        let requests = start.requests(instant);
        let run = estimator_run(start, given.answers).1;
        lemma_pair(requests[0], requests[1]);
        assert(requests =~= seq![requests[0], requests[1]]);
        lemma_results_for_one(requests[0], requester);
        lemma_results_for_one(requests[1], requester);
        lemma_results_for_concat(seq![requests[0]], seq![requests[1]], requester);
        estimator_replies_exactly_once(
            given.estimator,
            requester,
            location,
            given.offer.location,
            given.offer.base_result(),
            given.answers,
        );
        lemma_results_for_concat(answer, requests, requester);
        lemma_results_for_concat(answer + requests, run, requester);
    }
}

/// As many results reach the requester as there are offers asked.
pub proof fn lemma_fan_out_results(
    world: Seq<Circumstances>,
    instant: nat,
    location: RoughLocationID,
    requester: EvaluationRequesterID,
)
    ensures
        results_for(fan_out(world, instant, location, requester), requester) == world.len(),
    decreases world.len(),
{
    if world.len() > 0 {
        lemma_fan_out_results(world.drop_last(), instant, location, requester);
        evaluation_gives_one_result(world.last(), instant, location, requester);
        lemma_results_for_concat(
            fan_out(world.drop_last(), instant, location, requester),
            evaluation_run(world.last(), instant, location, requester),
            requester,
        );
    }
}

/// A search asks each offer listed under the resource once, in the order
/// of the list, and then tells the requester a number to expect. That
/// number is the number of results that reach the requester when each
/// of these offers handles its request, whatever state the offers are
/// in, whether their windows are open or closed, and whatever the world
/// answers to the estimators: no result too few and none too many, also
/// where no offer is listed. The market itself sends no result.
pub proof fn search_expects_what_arrives(
    market: MarketView,
    instant: nat,
    location: RoughLocationID,
    resource: ResourceId,
    requester: EvaluationRequesterID,
    world: Seq<Circumstances>,
)
    requires
        world.len() == market.offers_for(resource).len(),
    ensures
        ({
            let sent = market.search(instant, location, resource, requester);
            let offers = market.offers_for(resource);
            let arriving = results_for(fan_out(world, instant, location, requester), requester);
            &&& sent.len() == offers.len() + 1
            &&& forall|i: int|
                0 <= i < offers.len() ==> #[trigger] sent[i] == (MessageView::Evaluate {
                    offer: offers[i],
                    instant,
                    location,
                    requester,
                })
            &&& sent.last() == MessageView::ExpectNResults { requester, resource, n: arriving }
            &&& arriving == offers.len()
            &&& results_for(sent, requester) == 0
        }),
{
    let offers = market.offers_for(resource);
    let asked = evaluations(offers, instant, location, requester);
    let expect = MessageView::ExpectNResults { requester, resource, n: offers.len() };
    lemma_fan_out_results(world, instant, location, requester);
    lemma_no_results_in_evaluations(offers, instant, location, requester);
    lemma_results_for_one(expect, requester);
    assert(asked.push(expect) =~= asked + seq![expect]);
    lemma_results_for_concat(asked, seq![expect], requester);
}

/// Requests to evaluate are no results.
proof fn lemma_no_results_in_evaluations(
    offers: Seq<OfferID>,
    instant: nat,
    location: RoughLocationID,
    requester: EvaluationRequesterID,
)
    ensures
        results_for(evaluations(offers, instant, location, requester), requester) == 0,
    decreases offers.len(),
{
    let asked = evaluations(offers, instant, location, requester);
    if offers.len() > 0 {
        lemma_no_results_in_evaluations(offers.drop_last(), instant, location, requester);
        assert(asked.drop_last() =~= evaluations(
            offers.drop_last(),
            instant,
            location,
            requester,
        ));
    }
}

/// Once the market has handled an offer's registration, every search for
/// the offer's resource asks the offer. Once the market has handled its
/// withdrawal, no search for that resource asks it, whatever else the
/// market lists. An offer that asks to be withdrawn waits for the
/// confirmation, and with the confirmation it has ended; once ended, it
/// stays so.
pub proof fn registered_offer_is_found_until_withdrawn(
    market: MarketView,
    later: MarketView,
    offer: OfferView,
    instant: nat,
    location: RoughLocationID,
    requester: EvaluationRequesterID,
)
    ensures
        ({
            let resource = offer.resource();
            let ask = MessageView::Evaluate { offer: offer.id, instant, location, requester };
            &&& market.register(resource, offer.id).offers_for(resource).contains(offer.id)
            &&& market.register(resource, offer.id).search(
                instant,
                location,
                resource,
                requester,
            ).contains(ask)
            &&& !later.withdraw(resource, offer.id).offers_for(resource).contains(offer.id)
            &&& !later.withdraw(resource, offer.id).search(
                instant,
                location,
                resource,
                requester,
            ).contains(ask)
            &&& offer.lifecycle != Lifecycle::Destroyed ==> offer.withdrawing().lifecycle
                == Lifecycle::WithdrawPending
            &&& offer.withdrawing().confirmed().lifecycle == Lifecycle::Destroyed
            &&& offer.confirmed().withdrawing().lifecycle == Lifecycle::Destroyed
        }),
{
    let resource = offer.resource();
    let ask = MessageView::Evaluate { offer: offer.id, instant, location, requester };
    let listed = market.register(resource, offer.id);
    let offers = listed.offers_for(resource);
    let last = offers.len() - 1;
    assert(offers[last] == offer.id);
    let sent = listed.search(instant, location, resource, requester);
    assert(sent[last] == ask);
    let cleared = later.withdraw(resource, offer.id);
    let remaining = cleared.offers_for(resource);
    assert(!remaining.contains(offer.id)) by {
        if remaining.contains(offer.id) {
            let i = choose|i: int| 0 <= i < remaining.len() && remaining[i] == offer.id;
            later.offers_by_resource[resource].lemma_filter_pred(is_other_offer(offer.id), i);
        }
    }
    let quiet = cleared.search(instant, location, resource, requester);
    if quiet.contains(ask) {
        let i = choose|i: int| 0 <= i < quiet.len() && quiet[i] == ask;
        assert(remaining[i] == offer.id);
    }
}

/// What the market does about one offer leaves every other offer listed
/// where it was: an offer stays listed under its resource through the
/// registration of any offer and through the withdrawal of any other
/// offer, or of itself from under another resource.
pub proof fn listed_offer_stays_listed(
    market: MarketView,
    resource: ResourceId,
    offer: OfferID,
    other_resource: ResourceId,
    other: OfferID,
)
    requires
        market.offers_for(resource).contains(offer),
    ensures
        market.register(other_resource, other).offers_for(resource).contains(offer),
        other != offer || other_resource != resource ==> market.withdraw(
            other_resource,
            other,
        ).offers_for(resource).contains(offer),
{
    let offers = market.offers_for(resource);
    let i = choose|i: int| 0 <= i < offers.len() && offers[i] == offer;
    if other_resource == resource {
        assert(offers.push(other)[i] == offer);
        if other != offer {
            offers.lemma_filter_contains(is_other_offer(other), i);
        }
    }
}

/// Keeping every user but one that is not among them keeps them all.
proof fn lemma_filter_keeps_all(users: Seq<User>, user: User)
    requires
        !users.contains(user),
    ensures
        users.filter(is_other_user(user)) == users,
    decreases users.len(),
{
    reveal(Seq::filter);
    if users.len() > 0 {
        let rest = users.drop_last();
        assert forall|i: int| 0 <= i < rest.len() implies rest[i] != user by {
            assert(users[i] == rest[i]);
        }
        assert(users.last() == users[users.len() - 1]);
        lemma_filter_keeps_all(rest, user);
        assert(rest.push(users.last()) == users);
    }
}

/// To begin and then to stop using an offer leaves its users as they
/// were, provided that the user was not already among them. (Stopping
/// removes every entry of the user, an earlier one too.)
pub proof fn using_round_trip(offer: OfferView, user: User)
    requires
        !offer.users.contains(user),
    ensures
        offer.started_using(user).stopped_using(user) == offer,
{
    offer.users.lemma_filter_push(user, is_other_user(user));
    lemma_filter_keeps_all(offer.users, user);
}

/// After stopping, the user is not among the users of the offer, and
/// whoever else was among them still is.
pub proof fn stopped_user_is_gone(offer: OfferView, user: User, other: User)
    ensures
        !offer.stopped_using(user).users.contains(user),
        other != user && offer.users.contains(other) ==> offer.stopped_using(user).users.contains(
            other,
        ),
{
    let keep = is_other_user(user);
    let left = offer.users.filter(keep);
    if left.contains(user) {
        let i = choose|i: int| 0 <= i < left.len() && left[i] == user;
        offer.users.lemma_filter_pred(keep, i);
    }
    if other != user && offer.users.contains(other) {
        let i = choose|i: int| 0 <= i < offer.users.len() && offer.users[i] == other;
        offer.users.lemma_filter_contains(keep, i);
    }
}

} // verus!
