use sophia_x_authority::item_credit::PrivateOutstandingRequest;
use sophia_x_authority::settlement::PrivateSettlementOwner;

fn store_with_one_credit() -> Option<PrivateSettlementOwner<(), u8>> {
    let mut owner: PrivateSettlementOwner<(), u8> = PrivateSettlementOwner::with_capacity(2);
    assert!(owner.reserve().is_ok());
    assert_eq!(owner.reserved(), Some(1));
    Some(owner)
}

#[test]
fn an_unobserved_item_is_never_disposed() {
    let mut request = PrivateOutstandingRequest::accepted_in();
    let mut store = store_with_one_credit();
    assert!(!request.observed());
    assert!(!request.finish_item(&mut store));
    assert_eq!(store.as_ref().unwrap().reserved(), Some(1));
}

#[test]
fn an_observed_item_returns_its_credit_once() {
    let mut request = PrivateOutstandingRequest::accepted_in();
    let mut store = store_with_one_credit();
    request.settled();
    assert!(request.observed());
    assert!(request.finish_item(&mut store));
    assert_eq!(store.as_ref().unwrap().reserved(), Some(0));
    // Disposing again succeeds and returns nothing more.
    assert!(store.as_mut().unwrap().reserve().is_ok());
    assert!(request.finish_item(&mut store));
    assert_eq!(store.as_ref().unwrap().reserved(), Some(1));
}

#[test]
fn a_credit_owed_to_a_store_that_is_gone_refuses() {
    let mut request = PrivateOutstandingRequest::accepted_in();
    request.settled();
    let mut gone: Option<PrivateSettlementOwner<(), u8>> = None;
    assert!(!request.finish_item(&mut gone));
    // The credit is still held: a store found later takes it back.
    let mut store = store_with_one_credit();
    assert!(request.finish_item(&mut store));
    assert_eq!(store.as_ref().unwrap().reserved(), Some(0));
}

#[test]
fn an_item_without_a_credit_is_disposed_without_a_store() {
    let mut request = PrivateOutstandingRequest::accepted();
    request.settled();
    let mut gone: Option<PrivateSettlementOwner<(), u8>> = None;
    assert!(request.finish_item(&mut gone));
    let mut store = store_with_one_credit();
    assert!(request.finish_item(&mut store));
    assert_eq!(store.as_ref().unwrap().reserved(), Some(1));
}
