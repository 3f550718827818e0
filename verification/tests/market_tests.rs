use market::{
    EvaluationRequesterID, Instant, Market, MarketID, Message, OfferID, RawID, ResourceId,
    RoughLocationID,
};

const FOOD: ResourceId = ResourceId(1);
const COIN: ResourceId = ResourceId(2);

fn raw(instance_id: u32) -> RawID {
    RawID { instance_id, type_id: 2, machine: 0, version: 0 }
}

fn offer(n: u32) -> OfferID {
    OfferID(raw(n))
}

fn new_market() -> Market {
    Market::spawn(MarketID(raw(0)))
}

#[test]
fn a_new_market_lists_nothing() {
    let market = new_market();
    assert_eq!(market.id(), MarketID(raw(0)));
    assert!(market.offers_for(FOOD).is_empty());
    assert!(market.offers_for(COIN).is_empty());
}

#[test]
fn register_appends_in_order_of_arrival() {
    let mut market = new_market();
    market.register(FOOD, offer(3));
    market.register(COIN, offer(7));
    market.register(FOOD, offer(1));
    market.register(FOOD, offer(2));
    assert_eq!(market.offers_for(FOOD), vec![offer(3), offer(1), offer(2)]);
    assert_eq!(market.offers_for(COIN), vec![offer(7)]);
}

#[test]
fn register_twice_lists_twice() {
    let mut market = new_market();
    market.register(FOOD, offer(3));
    market.register(FOOD, offer(3));
    assert_eq!(market.offers_for(FOOD), vec![offer(3), offer(3)]);
}

#[test]
fn search_asks_every_listed_offer_and_announces_their_number() {
    let mut market = new_market();
    market.register(FOOD, offer(3));
    market.register(COIN, offer(7));
    market.register(FOOD, offer(1));
    let requester = EvaluationRequesterID(raw(40));
    let location = RoughLocationID(raw(50));
    let outbox = market.search(Instant(99), location, FOOD, requester);
    assert_eq!(
        outbox,
        vec![
            Message::Evaluate { offer: offer(3), instant: Instant(99), location, requester },
            Message::Evaluate { offer: offer(1), instant: Instant(99), location, requester },
            Message::ExpectNResults { requester, resource: FOOD, n: 2 },
        ]
    );
    assert_eq!(market.offers_for(FOOD), vec![offer(3), offer(1)]);
}

#[test]
fn search_for_an_unlisted_resource_expects_nothing() {
    let mut market = new_market();
    market.register(FOOD, offer(3));
    let requester = EvaluationRequesterID(raw(40));
    let outbox = market.search(Instant(99), RoughLocationID(raw(50)), COIN, requester);
    assert_eq!(outbox, vec![Message::ExpectNResults { requester, resource: COIN, n: 0 }]);
}

#[test]
fn withdraw_removes_the_offer_and_confirms() {
    let mut market = new_market();
    market.register(FOOD, offer(3));
    market.register(FOOD, offer(1));
    market.register(FOOD, offer(2));
    let outbox = market.withdraw(FOOD, offer(1));
    assert_eq!(outbox, vec![Message::WithdrawalConfirmed { offer: offer(1) }]);
    assert_eq!(market.offers_for(FOOD), vec![offer(3), offer(2)]);
}

#[test]
fn withdraw_removes_every_occurrence() {
    let mut market = new_market();
    market.register(FOOD, offer(1));
    market.register(FOOD, offer(3));
    market.register(FOOD, offer(1));
    market.withdraw(FOOD, offer(1));
    assert_eq!(market.offers_for(FOOD), vec![offer(3)]);
}

#[test]
fn withdraw_of_an_unlisted_offer_still_confirms() {
    let mut market = new_market();
    market.register(FOOD, offer(3));
    let unknown_offer = market.withdraw(FOOD, offer(9));
    assert_eq!(unknown_offer, vec![Message::WithdrawalConfirmed { offer: offer(9) }]);
    let unknown_resource = market.withdraw(COIN, offer(3));
    assert_eq!(unknown_resource, vec![Message::WithdrawalConfirmed { offer: offer(3) }]);
    assert_eq!(market.offers_for(FOOD), vec![offer(3)]);
    assert!(market.offers_for(COIN).is_empty());
}

#[test]
fn withdraw_leaves_other_resources_alone() {
    let mut market = new_market();
    market.register(FOOD, offer(3));
    market.register(COIN, offer(3));
    market.withdraw(FOOD, offer(3));
    assert!(market.offers_for(FOOD).is_empty());
    assert_eq!(market.offers_for(COIN), vec![offer(3)]);
}

#[test]
fn a_withdrawn_offer_is_no_longer_asked() {
    let mut market = new_market();
    market.register(FOOD, offer(3));
    market.register(FOOD, offer(1));
    market.withdraw(FOOD, offer(3));
    let requester = EvaluationRequesterID(raw(40));
    let location = RoughLocationID(raw(50));
    let outbox = market.search(Instant(5), location, FOOD, requester);
    assert_eq!(
        outbox,
        vec![
            Message::Evaluate { offer: offer(1), instant: Instant(5), location, requester },
            Message::ExpectNResults { requester, resource: FOOD, n: 1 },
        ]
    );
}

#[test]
fn a_resource_emptied_by_withdrawal_can_be_listed_again() {
    let mut market = new_market();
    market.register(FOOD, offer(3));
    market.withdraw(FOOD, offer(3));
    let requester = EvaluationRequesterID(raw(40));
    let outbox = market.search(Instant(5), RoughLocationID(raw(50)), FOOD, requester);
    assert_eq!(outbox, vec![Message::ExpectNResults { requester, resource: FOOD, n: 0 }]);
    market.register(FOOD, offer(4));
    assert_eq!(market.offers_for(FOOD), vec![offer(4)]);
}
