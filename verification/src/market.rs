//! The market: the one registry that lists offers under the resource they
//! give, and hands searches on to them.

use vstd::prelude::*;
use crate::ids::{EvaluationRequesterID, MarketID, OfferID, RoughLocationID};
use crate::messages::{views, Message, MessageView};
use crate::resources::ResourceId;
use crate::time::Instant;

verus! {

/// The test that keeps every offer but `offer`.
pub open spec fn is_other_offer(offer: OfferID) -> spec_fn(OfferID) -> bool {
    |other: OfferID| other != offer
}

/// One request to evaluate for each of `offers`, in their order.
pub open spec fn evaluations(
    offers: Seq<OfferID>,
    instant: nat,
    location: RoughLocationID,
    requester: EvaluationRequesterID,
) -> Seq<MessageView> {
    Seq::new(
        offers.len(),
        |i: int| MessageView::Evaluate { offer: offers[i], instant, location, requester },
    )
}

/// The mathematical content of a `Market`.
pub struct MarketView {
    pub id: MarketID,
    /// The offers listed under each resource, in the order in which they
    /// were registered.
    pub offers_by_resource: Map<ResourceId, Seq<OfferID>>,
}

impl MarketView {
    /// The market that lists nothing.
    pub open spec fn empty(id: MarketID) -> MarketView {
        MarketView { id, offers_by_resource: Map::empty() }
    }

    /// The offers listed under `resource`; none where the resource was
    /// never registered.
    pub open spec fn offers_for(self, resource: ResourceId) -> Seq<OfferID> {
        if self.offers_by_resource.contains_key(resource) {
            self.offers_by_resource[resource]
        } else {
            Seq::empty()
        }
    }

    /// The market after `offer` was added at the end of the list of
    /// `resource`.
    pub open spec fn register(self, resource: ResourceId, offer: OfferID) -> MarketView {
        MarketView {
            id: self.id,
            offers_by_resource: self.offers_by_resource.insert(
                resource,
                self.offers_for(resource).push(offer),
            ),
        }
    }

    /// The market after every occurrence of `offer` was taken out of the
    /// list of `resource`.
    pub open spec fn withdraw(self, resource: ResourceId, offer: OfferID) -> MarketView {
        if self.offers_by_resource.contains_key(resource) {
            MarketView {
                id: self.id,
                offers_by_resource: self.offers_by_resource.insert(
                    resource,
                    self.offers_by_resource[resource].filter(is_other_offer(offer)),
                ),
            }
        } else {
            self
        }
    }

    /// The messages of a search: one request to evaluate for each offer
    /// listed under `resource`, in order, and then the number of these
    /// offers for the requester to expect.
    pub open spec fn search(
        self,
        instant: nat,
        location: RoughLocationID,
        resource: ResourceId,
        requester: EvaluationRequesterID,
    ) -> Seq<MessageView> {
        evaluations(self.offers_for(resource), instant, location, requester).push(
            MessageView::ExpectNResults {
                requester,
                resource,
                n: self.offers_for(resource).len(),
            },
        )
    }
}

/// The offers listed under one resource, in the order of registration.
#[derive(Debug, PartialEq, Eq)]
struct Listing {
    resource: ResourceId,
    offers: Vec<OfferID>,
}

/// The registry of offers. The resources stand in the order in which they
/// were first registered, each with the list of its offers.
#[derive(Debug, PartialEq, Eq)]
pub struct Market {
    id: MarketID,
    listings: Vec<Listing>,
}

/// Whether `listings` holds a list for `resource`.
spec fn lists(listings: Seq<Listing>, resource: ResourceId) -> bool {
    exists|i: int| 0 <= i < listings.len() && (#[trigger] listings[i]).resource == resource
}

/// The place of the list for `resource`.
spec fn place_of(listings: Seq<Listing>, resource: ResourceId) -> int {
    choose|i: int| 0 <= i < listings.len() && (#[trigger] listings[i]).resource == resource
}

/// No resource has two lists.
spec fn distinct(listings: Seq<Listing>) -> bool {
    forall|i: int, j: int|
        0 <= i < j < listings.len() ==> (#[trigger] listings[i]).resource != (
        #[trigger] listings[j]).resource
}

/// The map that the listings stand for.
spec fn listed(listings: Seq<Listing>) -> Map<ResourceId, Seq<OfferID>> {
    Map::new(
        |resource: ResourceId| lists(listings, resource),
        |resource: ResourceId| listings[place_of(listings, resource)].offers@,
    )
}

/// Among distinct listings, each resource is found at its own place.
proof fn lemma_place_of(listings: Seq<Listing>, i: int)
    requires
        distinct(listings),
        0 <= i < listings.len(),
    ensures
        lists(listings, listings[i].resource),
        place_of(listings, listings[i].resource) == i,
{
    let j = place_of(listings, listings[i].resource);
    assert(0 <= j < listings.len() && listings[j].resource == listings[i].resource);
}

impl View for Market {
    type V = MarketView;

    closed spec fn view(&self) -> MarketView {
        MarketView { id: self.id, offers_by_resource: listed(self.listings@) }
    }
}

impl Market {
    #[verifier::type_invariant]
    spec fn wf(self) -> bool {
        distinct(self.listings@)
    }

    /// The market that lists nothing yet.
    pub fn spawn(id: MarketID) -> (market: Market)
        ensures
            market@ == MarketView::empty(id),
    {
        let market = Market { id, listings: Vec::new() };
        proof {
            assert(market@.offers_by_resource =~= Map::<ResourceId, Seq<OfferID>>::empty());
        }
        market
    }

    /// The place of the list for `resource`, if there is one.
    fn slot(&self, resource: ResourceId) -> (found: Option<usize>)
        ensures
            found is Some <==> lists(self.listings@, resource),
            found matches Some(i) ==> i < self.listings@.len() && i == place_of(
                self.listings@,
                resource,
            ) && self.listings@[i as int].resource == resource,
    {
        proof {
            use_type_invariant(self);
        }
        let mut i: usize = 0;
        while i < self.listings.len()
            invariant
                i <= self.listings@.len(),
                distinct(self.listings@),
                forall|j: int| 0 <= j < i ==> (#[trigger] self.listings@[j]).resource != resource,
            decreases self.listings@.len() - i,
        {
            if self.listings[i].resource == resource {
                proof {
                    lemma_place_of(self.listings@, i as int);
                }
                return Some(i);
            }
            i += 1;
        }
        None
    }

    /// Lists `offer` under `resource`, after the offers already listed
    /// there. An offer that is registered twice is listed twice.
    pub fn register(&mut self, resource: ResourceId, offer: OfferID)
        ensures
            final(self)@ == old(self)@.register(resource, offer),
    {
        proof {
            use_type_invariant(&*self);
        }
        let found = self.slot(resource);
        let ghost before = self.listings@;
        let mut listings: Vec<Listing> = Vec::new();
        core::mem::swap(&mut self.listings, &mut listings);
        match found {
            Some(i) => {
                listings[i].offers.push(offer);
            },
            None => {
                let mut offers: Vec<OfferID> = Vec::new();
                offers.push(offer);
                listings.push(Listing { resource, offers });
            },
        }
        proof {
            let after = listings@;
            assert(distinct(after));
            assert forall|r: ResourceId|
                lists(after, r) <==> (r == resource || lists(before, r)) by {
                if lists(after, r) {
                    let k = place_of(after, r);
                    if k < before.len() {
                        assert(before[k].resource == r);
                    }
                }
                if lists(before, r) {
                    let k = place_of(before, r);
                    assert(after[k].resource == r);
                }
                if r == resource {
                    match found {
                        Some(i) => {
                            assert(after[i as int].resource == r);
                        },
                        None => {
                            assert(after[before.len() as int].resource == r);
                        },
                    }
                }
            }
            assert forall|r: ResourceId| lists(after, r) implies #[trigger] listed(after)[r] == old(
                self,
            )@.register(resource, offer).offers_by_resource[r] by {
                let k = place_of(after, r);
                lemma_place_of(after, k);
                if r != resource {
                    assert(before[k].resource == r);
                    lemma_place_of(before, k);
                } else {
                    match found {
                        Some(i) => {
                            lemma_place_of(after, i as int);
                        },
                        None => {
                            lemma_place_of(after, before.len() as int);
                        },
                    }
                }
            }
            assert(listed(after) =~= old(self)@.register(resource, offer).offers_by_resource);
        }
        self.listings = listings;
    }

    /// Hands a search for `resource` on to every offer listed under it,
    /// and tells `requester` how many offers that is: each of them will
    /// send the requester exactly one result, so the number is the number
    /// of results to wait for. The registry is not changed.
    pub fn search(
        &self,
        instant: Instant,
        location: RoughLocationID,
        resource: ResourceId,
        requester: EvaluationRequesterID,
    ) -> (outbox: Vec<Message>)
        ensures
            views(outbox@) == self@.search(instant@, location, resource, requester),
    {
        let mut outbox: Vec<Message> = Vec::new();
        let n_to_expect = match self.slot(resource) {
            Some(slot) => {
                let offers = &self.listings[slot].offers;
                let mut i: usize = 0;
                while i < offers.len()
                    invariant
                        i <= offers@.len(),
                        outbox@.len() == i,
                        forall|j: int|
                            0 <= j < i ==> (#[trigger] outbox@[j])@ == (MessageView::Evaluate {
                                offer: offers@[j],
                                instant: instant@,
                                location,
                                requester,
                            }),
                    decreases offers@.len() - i,
                {
                    outbox.push(
                        Message::Evaluate { offer: offers[i], instant, location, requester },
                    );
                    i += 1;
                }
                offers.len()
            },
            None => 0,
        };
        outbox.push(Message::ExpectNResults { requester, resource, n: n_to_expect });
        proof {
            assert(views(outbox@) =~= self@.search(instant@, location, resource, requester));
        }
        outbox
    }

    /// Takes every occurrence of `offer` out of the list of `resource`,
    /// and confirms the withdrawal to the offer. The confirmation is sent
    /// in every case, also where the offer was not listed, so that the
    /// offer can end.
    pub fn withdraw(&mut self, resource: ResourceId, offer: OfferID) -> (outbox: Vec<Message>)
        ensures
            final(self)@ == old(self)@.withdraw(resource, offer),
            views(outbox@) == seq![MessageView::WithdrawalConfirmed { offer }],
    {
        proof {
            use_type_invariant(&*self);
        }
        let found = self.slot(resource);
        let ghost before = self.listings@;
        let ghost keep = is_other_offer(offer);
        let mut listings: Vec<Listing> = Vec::new();
        core::mem::swap(&mut self.listings, &mut listings);
        match found {
            Some(slot) => {
                let mut kept: Vec<OfferID> = Vec::new();
                let mut i: usize = 0;
                proof {
                    assert(before[slot as int].offers@.take(0) == Seq::<OfferID>::empty());
                    reveal(Seq::filter);
                }
                while i < listings[slot].offers.len()
                    invariant
                        slot < listings@.len(),
                        listings@ == before,
                        i <= listings@[slot as int].offers@.len(),
                        keep == is_other_offer(offer),
                        kept@ == listings@[slot as int].offers@.take(i as int).filter(keep),
                    decreases listings@[slot as int].offers@.len() - i,
                {
                    let listed_offer = listings[slot].offers[i];
                    proof {
                        let all = listings@[slot as int].offers@;
                        assert(all.take(i + 1) == all.take(i as int).push(all[i as int]));
                        all.take(i as int).lemma_filter_push(all[i as int], keep);
                    }
                    if listed_offer != offer {
                        kept.push(listed_offer);
                    }
                    i += 1;
                }
                proof {
                    let all = listings@[slot as int].offers@;
                    assert(all.take(i as int) == all);
                }
                listings[slot].offers = kept;
            },
            None => {},
        }
        proof {
            let after = listings@;
            assert(distinct(after));
            assert forall|r: ResourceId| lists(after, r) <==> lists(before, r) by {
                if lists(after, r) {
                    assert(before[place_of(after, r)].resource == r);
                }
                if lists(before, r) {
                    assert(after[place_of(before, r)].resource == r);
                }
            }
            assert forall|r: ResourceId| lists(after, r) implies #[trigger] listed(after)[r] == old(
                self,
            )@.withdraw(resource, offer).offers_by_resource[r] by {
                let k = place_of(after, r);
                lemma_place_of(after, k);
                assert(before[k].resource == r);
                lemma_place_of(before, k);
            }
            assert(listed(after) =~= old(self)@.withdraw(resource, offer).offers_by_resource);
        }
        self.listings = listings;
        let mut outbox: Vec<Message> = Vec::new();
        outbox.push(Message::WithdrawalConfirmed { offer });
        proof {
            assert(views(outbox@) == seq![MessageView::WithdrawalConfirmed { offer }]);
        }
        outbox
    }

    /// The market's identity.
    pub fn id(&self) -> (id: MarketID)
        ensures
            id == self@.id,
    {
        self.id
    }

    /// The offers listed under `resource`, in the order of registration.
    pub fn offers_for(&self, resource: ResourceId) -> (offers: Vec<OfferID>)
        ensures
            offers@ == self@.offers_for(resource),
    {
        match self.slot(resource) {
            Some(slot) => self.listings[slot].offers.clone(),
            None => Vec::new(),
        }
    }
}

} // verus!
