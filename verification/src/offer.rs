//! Offers: a household member's standing advertisement of a deal, valid in
//! a window of the day, at a place.

use vstd::prelude::*;
use crate::deal::{
    Deal, DealView, EvaluatedDeal, EvaluatedDealView, EvaluatedSearchResult, SearchResultView,
};
use crate::ids::{
    EvaluationRequesterID, HouseholdID, LocationRequesterID, MemberIdx, OfferID, RoughLocationID,
};
use crate::location::RoughLocation;
use crate::messages::{views, Fate, Message, MessageView};
use crate::resources::ResourceId;
use crate::time::{clock_at, Instant, TimeOfDay};

verus! {

/// Where an offer stands between its creation and its end.
#[derive(Clone, Copy, PartialEq, Eq, Structural, Debug)]
pub enum Lifecycle {
    /// The offer has not asked to be withdrawn.
    Active,
    /// The offer has asked the market to withdraw it and waits for the
    /// confirmation. It still answers every message.
    WithdrawPending,
    /// The withdrawal was confirmed: the offer has ended.
    Destroyed,
}

/// A household and, where the use is by one member, that member.
pub type User = (HouseholdID, Option<MemberIdx>);

/// The test that keeps every user but `user`.
pub open spec fn is_other_user(user: User) -> spec_fn(User) -> bool {
    |other: User| other != user
}

/// The mathematical content of an `Offer`.
pub struct OfferView {
    pub id: OfferID,
    pub offerer: HouseholdID,
    pub offering_member: MemberIdx,
    pub location: RoughLocationID,
    /// The start of the window, in seconds since midnight.
    pub from: nat,
    /// The end of the window, in seconds since midnight.
    pub to: nat,
    pub deal: DealView,
    pub users: Seq<User>,
    pub lifecycle: Lifecycle,
}

impl OfferView {
    /// The advertised deal gives something.
    pub open spec fn wf(self) -> bool {
        self.deal.gives_something()
    }

    /// The resource under which the offer is indexed and found.
    pub open spec fn resource(self) -> ResourceId {
        self.deal.main_given()->0
    }

    /// Whether the offer is still evaluated at `instant`: the time of day
    /// lies before the end of the window. The start of the window plays
    /// no part.
    pub open spec fn is_open_at(self, instant: nat) -> bool {
        clock_at(instant) < self.to
    }

    /// The result that holds this offer's deal and window, before any
    /// travel is taken into account.
    pub open spec fn base_result(self) -> SearchResultView {
        SearchResultView {
            resource: self.resource(),
            evaluated_deals: seq![
                EvaluatedDealView { offer: self.id, deal: self.deal, from: self.from, to: self.to },
            ],
        }
    }

    /// What a fresh offer with these values looks like.
    pub open spec fn fresh(
        id: OfferID,
        offerer: HouseholdID,
        offering_member: MemberIdx,
        location: RoughLocationID,
        from: nat,
        to: nat,
        deal: DealView,
    ) -> OfferView {
        OfferView {
            id,
            offerer,
            offering_member,
            location,
            from,
            to,
            deal,
            users: Seq::empty(),
            lifecycle: Lifecycle::Active,
        }
    }

    /// The messages with which the offer answers a request to evaluate
    /// itself: while it is open, one request to start a trip cost
    /// estimator from the requester's place to the offer's; afterwards,
    /// one empty result straight to the requester.
    pub open spec fn evaluate(
        self,
        instant: nat,
        location: RoughLocationID,
        requester: EvaluationRequesterID,
    ) -> Seq<MessageView> {
        if self.is_open_at(instant) {
            seq![
                MessageView::SpawnEstimator {
                    requester,
                    rough_source: location,
                    rough_destination: self.location,
                    base_result: self.base_result(),
                    instant,
                },
            ]
        } else {
            seq![
                MessageView::OnResult {
                    requester,
                    result: SearchResultView::empty(self.resource()),
                },
            ]
        }
    }

    /// The offer once it has asked to be withdrawn: it waits for the
    /// confirmation, unless it has ended already.
    pub open spec fn withdrawing(self) -> OfferView {
        if self.lifecycle == Lifecycle::Destroyed {
            self
        } else {
            OfferView { lifecycle: Lifecycle::WithdrawPending, ..self }
        }
    }

    /// The offer once its withdrawal was confirmed.
    pub open spec fn confirmed(self) -> OfferView {
        OfferView { lifecycle: Lifecycle::Destroyed, ..self }
    }

    /// The offer with `user` added after its other users.
    pub open spec fn started_using(self, user: User) -> OfferView {
        OfferView { users: self.users.push(user), ..self }
    }

    /// The offer without any user that is exactly `user`; the others
    /// keep their order.
    pub open spec fn stopped_using(self, user: User) -> OfferView {
        OfferView { users: self.users.filter(is_other_user(user)), ..self }
    }

    /// The two notices that commit the deal: first the offerer's member
    /// has provided it, then the requesting member has received it.
    pub open spec fn receive_deal(self, household: HouseholdID, member: MemberIdx) -> Seq<
        MessageView,
    > {
        seq![
            MessageView::ProvideDeal {
                household: self.offerer,
                deal: self.deal,
                member: self.offering_member,
            },
            MessageView::ReceiveDeal { household, deal: self.deal, member },
        ]
    }

    /// The two notices that take a committed deal back: first the
    /// offerer's member has received it, then the requesting member has
    /// provided it.
    pub open spec fn receive_undo_deal(self, household: HouseholdID, member: MemberIdx) -> Seq<
        MessageView,
    > {
        seq![
            MessageView::ReceiveDeal {
                household: self.offerer,
                deal: self.deal,
                member: self.offering_member,
            },
            MessageView::ProvideDeal { household, deal: self.deal, member },
        ]
    }
}

/// A standing advertisement of a deal.
#[derive(Debug, PartialEq, Eq)]
pub struct Offer {
    id: OfferID,
    offerer: HouseholdID,
    offering_member: MemberIdx,
    location: RoughLocationID,
    from: TimeOfDay,
    to: TimeOfDay,
    deal: Deal,
    users: Vec<User>,
    lifecycle: Lifecycle,
}

impl View for Offer {
    type V = OfferView;

    closed spec fn view(&self) -> OfferView {
        OfferView {
            id: self.id,
            offerer: self.offerer,
            offering_member: self.offering_member,
            location: self.location,
            from: self.from@,
            to: self.to@,
            deal: self.deal@,
            users: self.users@,
            lifecycle: self.lifecycle,
        }
    }
}

/// Whether two optional members are the same.
fn same_member(a: Option<MemberIdx>, b: Option<MemberIdx>) -> (same: bool)
    ensures
        same == (a == b),
{
    match (a, b) {
        (Some(x), Some(y)) => x == y,
        (None, None) => true,
        _ => false,
    }
}

impl Offer {
    #[verifier::type_invariant]
    spec fn advertises_something(self) -> bool {
        self.deal@.gives_something()
    }

    /// A new offer that is to be listed by the market. The one message is
    /// the request to the market to index the offer under the main
    /// resource of its deal; until the market has handled it, no search
    /// finds the offer.
    pub fn register(
        id: OfferID,
        offerer: HouseholdID,
        offering_member: MemberIdx,
        location: RoughLocationID,
        from: TimeOfDay,
        to: TimeOfDay,
        deal: &Deal,
    ) -> (created: (Offer, Vec<Message>))
        requires
            deal@.gives_something(),
        ensures
            created.0@ == OfferView::fresh(
                id,
                offerer,
                offering_member,
                location,
                from@,
                to@,
                deal@,
            ),
            created.0@.wf(),
            views(created.1@) == seq![
                MessageView::Register { resource: created.0@.resource(), offer: id },
            ],
    {
        let resource = deal.main_given();
        let offer = Offer {
            id,
            offerer,
            offering_member,
            location,
            from,
            to,
            deal: deal.clone(),
            users: Vec::new(),
            lifecycle: Lifecycle::Active,
        };
        let mut outbox: Vec<Message> = Vec::new();
        outbox.push(Message::Register { resource, offer: id });
        proof {
            assert(offer@.users == Seq::<User>::empty());
            assert(views(outbox@) == seq![MessageView::Register { resource, offer: id }]);
        }
        (offer, outbox)
    }

    /// A new offer that the market does not list: no search finds it, but
    /// whoever knows it can use it.
    pub fn private(
        id: OfferID,
        offerer: HouseholdID,
        offering_member: MemberIdx,
        location: RoughLocationID,
        from: TimeOfDay,
        to: TimeOfDay,
        deal: &Deal,
    ) -> (offer: Offer)
        requires
            deal@.gives_something(),
        ensures
            offer@ == OfferView::fresh(id, offerer, offering_member, location, from@, to@, deal@),
            offer@.wf(),
    {
        let offer = Offer {
            id,
            offerer,
            offering_member,
            location,
            from,
            to,
            deal: deal.clone(),
            users: Vec::new(),
            lifecycle: Lifecycle::Active,
        };
        proof {
            assert(offer@.users == Seq::<User>::empty());
        }
        offer
    }

    /// Asks the market to take the offer out of its index. The offer is
    /// not ended by this: it goes on answering until the market's
    /// confirmation arrives, so that an evaluation under way still finds
    /// it.
    pub fn withdraw(&mut self) -> (outbox: Vec<Message>)
        ensures
            old(self)@.wf(),
            final(self)@ == old(self)@.withdrawing(),
            views(outbox@) == seq![
                MessageView::Withdraw { resource: old(self)@.resource(), offer: old(self)@.id },
            ],
    {
        proof {
            use_type_invariant(&*self);
        }
        let resource = self.deal.main_given();
        if self.lifecycle != Lifecycle::Destroyed {
            self.lifecycle = Lifecycle::WithdrawPending;
        }
        let mut outbox: Vec<Message> = Vec::new();
        outbox.push(Message::Withdraw { resource, offer: self.id });
        proof {
            assert(views(outbox@) == seq![MessageView::Withdraw { resource, offer: self.id }]);
        }
        outbox
    }

    /// The market has confirmed the withdrawal: the offer ends, whatever
    /// state it was in.
    pub fn withdrawal_confirmed(&mut self) -> (fate: Fate)
        ensures
            final(self)@ == old(self)@.confirmed(),
            fate == Fate::Die,
    {
        proof {
            use_type_invariant(&*self);
        }
        self.lifecycle = Lifecycle::Destroyed;
        Fate::Die
    }

    /// Answers a searcher who is at `location` at `instant`. While the
    /// time of day lies before the end of the window, the answer is a
    /// request to start a trip cost estimator, which will send the
    /// travel-adjusted result to `requester`. From the end of the window
    /// on, it is an empty result for the offer's resource, sent to
    /// `requester` at once.
    pub fn evaluate(
        &self,
        instant: Instant,
        location: RoughLocationID,
        requester: EvaluationRequesterID,
    ) -> (outbox: Vec<Message>)
        ensures
            self@.wf(),
            views(outbox@) == self@.evaluate(instant@, location, requester),
    {
        proof {
            use_type_invariant(self);
        }
        let resource = self.deal.main_given();
        let mut outbox: Vec<Message> = Vec::new();
        if TimeOfDay::from_instant(instant).is_before(&self.to) {
            let base_result = EvaluatedSearchResult::single(
                resource,
                EvaluatedDeal {
                    offer: self.id,
                    deal: self.deal.clone(),
                    from: self.from,
                    to: self.to,
                },
            );
            outbox.push(
                Message::SpawnEstimator {
                    requester,
                    rough_source: location,
                    rough_destination: self.location,
                    base_result,
                    instant,
                },
            );
        } else {
            outbox.push(
                Message::OnResult { requester, result: EvaluatedSearchResult::empty(resource) },
            );
        }
        proof {
            assert(views(outbox@) == self@.evaluate(instant@, location, requester));
        }
        outbox
    }

    /// Commits the deal with `member` of `household`: the offerer is told
    /// that its offering member has provided the deal, then `household`
    /// is told that `member` has received it.
    pub fn request_receive_deal(&self, household: HouseholdID, member: MemberIdx) -> (outbox: Vec<
        Message,
    >)
        ensures
            views(outbox@) == self@.receive_deal(household, member),
    {
        let mut outbox: Vec<Message> = Vec::new();
        outbox.push(
            Message::ProvideDeal {
                household: self.offerer,
                deal: self.deal.clone(),
                member: self.offering_member,
            },
        );
        outbox.push(Message::ReceiveDeal { household, deal: self.deal.clone(), member });
        proof {
            assert(views(outbox@) == self@.receive_deal(household, member));
        }
        outbox
    }

    /// Takes back a deal committed with `member` of `household`: the
    /// offerer is told that its offering member has received the deal,
    /// then `household` is told that `member` has provided it.
    pub fn request_receive_undo_deal(&self, household: HouseholdID, member: MemberIdx) -> (outbox:
        Vec<Message>)
        ensures
            views(outbox@) == self@.receive_undo_deal(household, member),
    {
        let mut outbox: Vec<Message> = Vec::new();
        outbox.push(
            Message::ReceiveDeal {
                household: self.offerer,
                deal: self.deal.clone(),
                member: self.offering_member,
            },
        );
        outbox.push(Message::ProvideDeal { household, deal: self.deal.clone(), member });
        proof {
            assert(views(outbox@) == self@.receive_undo_deal(household, member));
        }
        outbox
    }

    /// Notes that `household`, or its `member`, has begun to use the
    /// offer.
    pub fn started_using(&mut self, household: HouseholdID, member: Option<MemberIdx>)
        ensures
            final(self)@ == old(self)@.started_using((household, member)),
    {
        proof {
            use_type_invariant(&*self);
        }
        let mut users: Vec<User> = Vec::new();
        core::mem::swap(&mut self.users, &mut users);
        users.push((household, member));
        self.users = users;
    }

    /// Notes that `household`, or its `member`, has stopped using the
    /// offer: every user that is exactly this pair is removed, the others
    /// keep their order.
    pub fn stopped_using(&mut self, household: HouseholdID, member: Option<MemberIdx>)
        ensures
            final(self)@ == old(self)@.stopped_using((household, member)),
    {
        let ghost keep = is_other_user((household, member));
        let mut kept: Vec<User> = Vec::new();
        let mut i: usize = 0;
        proof {
            use_type_invariant(&*self);
            assert(self.users@.take(0) == Seq::<User>::empty());
            reveal(Seq::filter);
        }
        while i < self.users.len()
            invariant
                i <= self.users@.len(),
                keep == is_other_user((household, member)),
                kept@ == self.users@.take(i as int).filter(keep),
            decreases self.users@.len() - i,
        {
            let (o_household, o_member) = self.users[i];
            proof {
                let before = self.users@.take(i as int);
                assert(self.users@.take(i + 1) == before.push(self.users@[i as int]));
                before.lemma_filter_push(self.users@[i as int], keep);
            }
            if o_household != household || !same_member(o_member, member) {
                kept.push((o_household, o_member));
            }
            i += 1;
        }
        proof {
            assert(self.users@.take(i as int) == self.users@);
        }
        self.users = kept;
    }

    /// The offer's identity.
    pub fn id(&self) -> (id: OfferID)
        ensures
            id == self@.id,
    {
        self.id
    }

    /// The household that offers.
    pub fn offerer(&self) -> (offerer: HouseholdID)
        ensures
            offerer == self@.offerer,
    {
        self.offerer
    }

    /// The member of the offering household that provides the deal.
    pub fn offering_member(&self) -> (member: MemberIdx)
        ensures
            member == self@.offering_member,
    {
        self.offering_member
    }

    /// The place at which the offer stands.
    pub fn location(&self) -> (location: RoughLocationID)
        ensures
            location == self@.location,
    {
        self.location
    }

    /// The start of the window.
    pub fn from(&self) -> (from: TimeOfDay)
        ensures
            from@ == self@.from,
    {
        self.from
    }

    /// The end of the window.
    pub fn to(&self) -> (to: TimeOfDay)
        ensures
            to@ == self@.to,
    {
        self.to
    }

    /// The advertised deal, which always gives something.
    pub fn deal(&self) -> (deal: &Deal)
        ensures
            deal@ == self@.deal,
            self@.wf(),
    {
        proof {
            use_type_invariant(self);
        }
        &self.deal
    }

    /// The users of the offer, in the order in which they began.
    pub fn users(&self) -> (users: &Vec<User>)
        ensures
            users@ == self@.users,
    {
        &self.users
    }

    /// Where the offer stands between its creation and its end.
    pub fn lifecycle(&self) -> (lifecycle: Lifecycle)
        ensures
            lifecycle == self@.lifecycle,
    {
        self.lifecycle
    }
}

impl RoughLocation for Offer {
    /// An offer is where it stands: it hands the request on to that
    /// place.
    open spec fn resolving(
        &self,
        requester: LocationRequesterID,
        rough_location: RoughLocationID,
        instant: nat,
    ) -> Seq<MessageView> {
        self@.location.resolving(requester, rough_location, instant)
    }

    fn resolve_as_location(
        &self,
        requester: LocationRequesterID,
        rough_location: RoughLocationID,
        instant: Instant,
    ) -> (outbox: Vec<Message>) {
        self.location.resolve_as_location(requester, rough_location, instant)
    }
}

} // verus!
