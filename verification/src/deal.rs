//! Deals and the envelopes in which evaluated deals travel back to a
//! searcher.

use vstd::prelude::*;
use crate::ids::OfferID;
use crate::resources::{collected, Entry, Inventory, ResourceAmount, ResourceId};
use crate::time::{clock_earlier, Duration, TimeOfDay};

verus! {

/// The mathematical content of a `Deal`.
pub struct DealView {
    /// The seconds that it takes to carry out the deal.
    pub duration: nat,
    /// The resources exchanged, in the order in which they were entered.
    pub delta: Seq<Entry>,
}

/// Whether the entry at position `i` is the first one with a positive
/// amount.
pub open spec fn is_first_given(delta: Seq<Entry>, i: int) -> bool {
    &&& 0 <= i < delta.len()
    &&& delta[i].1 > 0
    &&& forall|j: int| 0 <= j < i ==> (#[trigger] delta[j]).1 <= 0
}

impl DealView {
    /// Whether the deal gives any resource: some amount is positive.
    pub open spec fn gives_something(self) -> bool {
        exists|i: int| 0 <= i < self.delta.len() && (#[trigger] self.delta[i]).1 > 0
    }

    /// The resource of the first entry with a positive amount, if the
    /// deal gives anything.
    pub open spec fn main_given(self) -> Option<ResourceId> {
        if self.gives_something() {
            Some(self.delta[choose|i: int| is_first_given(self.delta, i)].0)
        } else {
            None
        }
    }
}

/// At most one entry is the first with a positive amount.
pub proof fn lemma_first_given_unique(delta: Seq<Entry>, i: int, j: int)
    requires
        is_first_given(delta, i),
        is_first_given(delta, j),
    ensures
        i == j,
{
    if i < j {
        assert(delta[i].1 <= 0);
    } else if j < i {
        assert(delta[j].1 <= 0);
    }
}

/// The main resource of a deal is one that the deal gives: it stands in
/// an entry with a strictly positive amount, before which every amount
/// is zero or negative. There is none precisely when no entry has a
/// strictly positive amount.
pub proof fn main_given_is_first_positive(deal: DealView)
    ensures
        deal.main_given() is None <==> forall|i: int|
            0 <= i < deal.delta.len() ==> (#[trigger] deal.delta[i]).1 <= 0,
        deal.main_given() matches Some(resource) ==> exists|i: int|
            is_first_given(deal.delta, i) && (#[trigger] deal.delta[i]).0 == resource,
{
    if deal.gives_something() {
        lemma_has_first_given(deal.delta, deal.delta.len() as int);
        let i = choose|i: int| is_first_given(deal.delta, i);
        assert(is_first_given(deal.delta, i) && deal.delta[i].0 == deal.main_given()->0);
    }
}

/// Where one of the first `n` entries has a positive amount, one entry
/// is the first to have one.
proof fn lemma_has_first_given(delta: Seq<Entry>, n: int)
    requires
        0 <= n <= delta.len(),
        exists|i: int| 0 <= i < n && (#[trigger] delta[i]).1 > 0,
    ensures
        exists|i: int| is_first_given(delta, i),
    decreases n,
{
    if exists|i: int| 0 <= i < n - 1 && (#[trigger] delta[i]).1 > 0 {
        lemma_has_first_given(delta, n - 1);
    } else {
        assert(is_first_given(delta, n - 1));
    }
}

/// A transfer of resources and the time that it takes. A deal is a value:
/// it is copied when it is handed on and never changed in place.
#[derive(Debug, PartialEq, Eq)]
pub struct Deal {
    pub duration: Duration,
    pub delta: Inventory,
}

impl View for Deal {
    type V = DealView;

    open spec fn view(&self) -> DealView {
        DealView { duration: self.duration@, delta: self.delta@ }
    }
}

impl Deal {
    /// No resource has two entries.
    pub open spec fn wf(&self) -> bool {
        self.delta.wf()
    }

    /// The deal that exchanges `delta` and takes `duration`. Where a
    /// resource occurs more than once in `delta`, it keeps its first place
    /// and its last amount.
    pub fn new(delta: Vec<(ResourceId, ResourceAmount)>, duration: Duration) -> (deal: Deal)
        ensures
            deal@.duration == duration@,
            deal@.delta == collected(delta@),
            deal.wf(),
    {
        Deal { duration, delta: Inventory::from_pairs(delta) }
    }

    /// The first resource with a strictly positive amount, or `None` where
    /// the deal gives nothing.
    pub fn first_given(&self) -> (given: Option<ResourceId>)
        ensures
            given == self@.main_given(),
            given is Some <==> self@.gives_something(),
            given matches Some(resource) ==> exists|i: int|
                is_first_given(self@.delta, i) && (#[trigger] self@.delta[i]).0 == resource,
    {
        let mut i: usize = 0;
        while i < self.delta.len()
            invariant
                i <= self.delta@.len(),
                forall|j: int| 0 <= j < i ==> (#[trigger] self.delta@[j]).1 <= 0,
            decreases self.delta@.len() - i,
        {
            let entry = self.delta.entry(i);
            if entry.1 > 0 {
                proof {
                    assert(is_first_given(self@.delta, i as int));
                    let k = choose|k: int| is_first_given(self@.delta, k);
                    lemma_first_given_unique(self@.delta, i as int, k);
                }
                return Some(entry.0);
            }
            i += 1;
        }
        None
    }

    /// The resource that the deal is about: the first one with a strictly
    /// positive amount. The deal must give something.
    pub fn main_given(&self) -> (resource: ResourceId)
        requires
            self@.gives_something(),
        ensures
            self@.main_given() == Some(resource),
            exists|i: int|
                is_first_given(self@.delta, i) && (#[trigger] self@.delta[i]).0 == resource,
    {
        match self.first_given() {
            Some(resource) => resource,
            None => vstd::pervasive::unreached(),
        }
    }

}

impl Clone for Deal {
    fn clone(&self) -> (copy: Deal)
        ensures
            copy@ == self@,
    {
        Deal { duration: self.duration, delta: self.delta.clone() }
    }
}

/// The mathematical content of an `EvaluatedDeal`.
pub struct EvaluatedDealView {
    pub offer: OfferID,
    pub deal: DealView,
    /// The start of the window, in seconds since midnight.
    pub from: nat,
    /// The end of the window, in seconds since midnight.
    pub to: nat,
}

impl EvaluatedDealView {
    /// The deal as it is for someone who first has to travel for `travel`
    /// seconds: it takes that much longer, and its window opens and
    /// closes that much earlier.
    pub open spec fn delayed_by(self, travel: nat) -> EvaluatedDealView {
        EvaluatedDealView {
            offer: self.offer,
            deal: DealView { duration: self.deal.duration + travel, delta: self.deal.delta },
            from: clock_earlier(self.from, travel),
            to: clock_earlier(self.to, travel),
        }
    }
}

/// The deal of one offer as a searcher sees it: the offer, a snapshot of
/// its deal, and the window `[from, to)` in which the offer is valid.
#[derive(Debug, PartialEq, Eq)]
pub struct EvaluatedDeal {
    pub offer: OfferID,
    pub deal: Deal,
    pub from: TimeOfDay,
    pub to: TimeOfDay,
}

impl View for EvaluatedDeal {
    type V = EvaluatedDealView;

    open spec fn view(&self) -> EvaluatedDealView {
        EvaluatedDealView { offer: self.offer, deal: self.deal@, from: self.from@, to: self.to@ }
    }
}

impl EvaluatedDeal {
    /// Whether the deal's duration can grow by `travel` without leaving
    /// the range of the machine's numbers.
    pub fn can_be_delayed_by(&self, travel: Duration) -> (fits: bool)
        ensures
            fits == (self@.deal.duration + travel@ <= u64::MAX),
    {
        self.deal.duration.0 <= u64::MAX - travel.0
    }

    /// The deal as it is for someone who first has to travel for
    /// `travel`.
    pub fn delayed_by(&self, travel: Duration) -> (delayed: EvaluatedDeal)
        requires
            self@.deal.duration + travel@ <= u64::MAX,
        ensures
            delayed@ == self@.delayed_by(travel@),
    {
        EvaluatedDeal {
            offer: self.offer,
            deal: Deal {
                duration: Duration(self.deal.duration.0 + travel.0),
                delta: self.deal.delta.clone(),
            },
            from: self.from.earlier_by(travel),
            to: self.to.earlier_by(travel),
        }
    }
}

impl Clone for EvaluatedDeal {
    fn clone(&self) -> (copy: EvaluatedDeal)
        ensures
            copy@ == self@,
    {
        EvaluatedDeal { offer: self.offer, deal: self.deal.clone(), from: self.from, to: self.to }
    }
}

/// The mathematical content of an `EvaluatedSearchResult`.
pub struct SearchResultView {
    pub resource: ResourceId,
    pub evaluated_deals: Seq<EvaluatedDealView>,
}

impl SearchResultView {
    /// The result that holds no deal for `resource`.
    pub open spec fn empty(resource: ResourceId) -> SearchResultView {
        SearchResultView { resource, evaluated_deals: Seq::empty() }
    }

    /// The result with every deal delayed by `travel` seconds.
    pub open spec fn delayed_by(self, travel: nat) -> SearchResultView {
        SearchResultView {
            resource: self.resource,
            evaluated_deals: self.evaluated_deals.map_values(
                |deal: EvaluatedDealView| deal.delayed_by(travel),
            ),
        }
    }

    /// Whether every deal's duration can grow by `travel` seconds without
    /// leaving the range of the machine's numbers.
    pub open spec fn can_be_delayed_by(self, travel: nat) -> bool {
        forall|i: int|
            0 <= i < self.evaluated_deals.len() ==> (
            #[trigger] self.evaluated_deals[i]).deal.duration + travel <= u64::MAX
    }
}

/// What a searcher receives for one offer that it asked about: the
/// resource searched for and the deals found. No deal at all is an
/// ordinary result.
#[derive(Debug, PartialEq, Eq)]
pub struct EvaluatedSearchResult {
    pub resource: ResourceId,
    pub evaluated_deals: Vec<EvaluatedDeal>,
}

impl View for EvaluatedSearchResult {
    type V = SearchResultView;

    open spec fn view(&self) -> SearchResultView {
        SearchResultView {
            resource: self.resource,
            evaluated_deals: self.evaluated_deals@.map_values(|deal: EvaluatedDeal| deal@),
        }
    }
}

impl EvaluatedSearchResult {
    /// The result that holds no deal for `resource`.
    pub fn empty(resource: ResourceId) -> (result: EvaluatedSearchResult)
        ensures
            result@ == SearchResultView::empty(resource),
    {
        let result = EvaluatedSearchResult { resource, evaluated_deals: Vec::new() };
        proof {
            assert(result@.evaluated_deals == Seq::<EvaluatedDealView>::empty());
        }
        result
    }

    /// The result that holds the one deal `deal` for `resource`.
    pub fn single(resource: ResourceId, deal: EvaluatedDeal) -> (result: EvaluatedSearchResult)
        ensures
            result@ == (SearchResultView { resource, evaluated_deals: seq![deal@] }),
    {
        let mut evaluated_deals: Vec<EvaluatedDeal> = Vec::new();
        evaluated_deals.push(deal);
        let result = EvaluatedSearchResult { resource, evaluated_deals };
        proof {
            assert(result@.evaluated_deals == seq![deal@]);
        }
        result
    }

    /// Whether every deal's duration can grow by `travel` without leaving
    /// the range of the machine's numbers.
    pub fn can_be_delayed_by(&self, travel: Duration) -> (fits: bool)
        ensures
            fits == self@.can_be_delayed_by(travel@),
    {
        let mut i: usize = 0;
        while i < self.evaluated_deals.len()
            invariant
                i <= self.evaluated_deals@.len(),
                forall|j: int|
                    0 <= j < i ==> (#[trigger] self@.evaluated_deals[j]).deal.duration + travel@
                        <= u64::MAX,
            decreases self.evaluated_deals@.len() - i,
        {
            if !self.evaluated_deals[i].can_be_delayed_by(travel) {
                proof {
                    assert(self@.evaluated_deals[i as int] == self.evaluated_deals@[i as int]@);
                }
                return false;
            }
            proof {
                assert(self@.evaluated_deals[i as int] == self.evaluated_deals@[i as int]@);
            }
            i += 1;
        }
        true
    }

    /// The result with every deal delayed by `travel`.
    pub fn delayed_by(&self, travel: Duration) -> (delayed: EvaluatedSearchResult)
        requires
            self@.can_be_delayed_by(travel@),
        ensures
            delayed@ == self@.delayed_by(travel@),
    {
        let mut evaluated_deals: Vec<EvaluatedDeal> = Vec::new();
        let mut i: usize = 0;
        while i < self.evaluated_deals.len()
            invariant
                i <= self.evaluated_deals@.len(),
                evaluated_deals@.len() == i,
                self@.can_be_delayed_by(travel@),
                forall|j: int|
                    0 <= j < i ==> (#[trigger] evaluated_deals@[j])@
                        == self.evaluated_deals@[j]@.delayed_by(travel@),
            decreases self.evaluated_deals@.len() - i,
        {
            proof {
                assert(self@.evaluated_deals[i as int] == self.evaluated_deals@[i as int]@);
            }
            evaluated_deals.push(self.evaluated_deals[i].delayed_by(travel));
            i += 1;
        }
        let delayed = EvaluatedSearchResult { resource: self.resource, evaluated_deals };
        proof {
            assert(delayed@.evaluated_deals == self@.delayed_by(travel@).evaluated_deals);
        }
        delayed
    }
}

impl Clone for EvaluatedSearchResult {
    fn clone(&self) -> (copy: EvaluatedSearchResult)
        ensures
            copy@ == self@,
    {
        let mut evaluated_deals: Vec<EvaluatedDeal> = Vec::new();
        let mut i: usize = 0;
        while i < self.evaluated_deals.len()
            invariant
                i <= self.evaluated_deals@.len(),
                evaluated_deals@.len() == i,
                forall|j: int|
                    0 <= j < i ==> (#[trigger] evaluated_deals@[j])@ == self.evaluated_deals@[j]@,
            decreases self.evaluated_deals@.len() - i,
        {
            evaluated_deals.push(self.evaluated_deals[i].clone());
            i += 1;
        }
        let copy = EvaluatedSearchResult { resource: self.resource, evaluated_deals };
        proof {
            assert(copy@.evaluated_deals == self@.evaluated_deals);
        }
        copy
    }
}

} // verus!
