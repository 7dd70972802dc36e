use offer_subscriptions::registry::answer_for_publish;
use offer_subscriptions::{InvoiceHook, OfferSubscriptions, RequestInvoiceError};

#[test]
fn subscribed_offer_request_reaches_listener() {
    let mut registry = OfferSubscriptions::new();
    registry.offers_subscribed(1, &["offerA".to_string()]);
    let mut requests = registry.subscribe_invoice_requests();
    let outcome = registry.request_invoice("offerA", InvoiceHook { id: 9 });
    assert_eq!(outcome, Ok(true));
    assert_eq!(requests.try_recv().unwrap(), InvoiceHook { id: 9 });
}

#[test]
fn unknown_offer_returns_false_even_without_listeners() {
    let mut registry = OfferSubscriptions::new();
    let outcome = registry.request_invoice("nobody-wants-this", InvoiceHook { id: 1 });
    assert_eq!(outcome, Ok(false));
}

#[test]
fn distinct_offers_do_not_merge() {
    let mut registry = OfferSubscriptions::new();
    registry.offers_subscribed(1, &["offerA".to_string()]);
    let _requests = registry.subscribe_invoice_requests();
    assert_eq!(registry.request_invoice("offerB", InvoiceHook { id: 2 }), Ok(false));
    assert_eq!(registry.request_invoice("offerA", InvoiceHook { id: 2 }), Ok(true));
}

#[test]
fn request_is_case_insensitive() {
    let mut registry = OfferSubscriptions::new();
    registry.offers_subscribed(1, &["abc".to_string()]);
    registry.offers_subscribed(2, &["OfferB".to_string()]);
    let _requests = registry.subscribe_invoice_requests();
    assert_eq!(registry.request_invoice("ABC", InvoiceHook { id: 3 }), Ok(true));
    assert_eq!(registry.request_invoice("Abc", InvoiceHook { id: 4 }), Ok(true));
    assert_eq!(registry.request_invoice("offerb", InvoiceHook { id: 5 }), Ok(true));
    assert_eq!(registry.request_invoice("abcd", InvoiceHook { id: 6 }), Ok(false));
}

#[test]
fn resubscribing_same_offer_changes_nothing_observable() {
    let mut registry = OfferSubscriptions::new();
    registry.offers_subscribed(1, &["offerA".to_string()]);
    registry.offers_subscribed(1, &["offerA".to_string()]);
    let _requests = registry.subscribe_invoice_requests();
    assert_eq!(registry.request_invoice("offerA", InvoiceHook { id: 1 }), Ok(true));
    registry.connection_dropped(1);
    assert_eq!(registry.request_invoice("offerA", InvoiceHook { id: 1 }), Ok(false));
}

#[test]
fn disconnect_forgets_the_connection() {
    let mut registry = OfferSubscriptions::new();
    registry.offers_subscribed(4, &["offerA".to_string(), "offerB".to_string()]);
    assert!(registry.connection_id_known(4));
    registry.connection_dropped(4);
    assert!(!registry.connection_id_known(4));
    assert_eq!(registry.request_invoice("offerA", InvoiceHook { id: 1 }), Ok(false));
    assert_eq!(registry.request_invoice("offerB", InvoiceHook { id: 1 }), Ok(false));
}

#[test]
fn dropping_an_unknown_connection_changes_nothing() {
    let mut registry = OfferSubscriptions::new();
    registry.offers_subscribed(1, &["offerA".to_string()]);
    registry.connection_dropped(42);
    assert!(registry.connection_id_known(1));
    let _requests = registry.subscribe_invoice_requests();
    assert_eq!(registry.request_invoice("offerA", InvoiceHook { id: 1 }), Ok(true));
}

#[test]
fn dropping_one_subscriber_hides_the_offer_from_all() {
    let mut registry = OfferSubscriptions::new();
    registry.offers_subscribed(1, &["offerO".to_string()]);
    registry.offers_subscribed(2, &["offerO".to_string()]);
    registry.connection_dropped(1);
    assert!(registry.connection_id_known(2));
    let _requests = registry.subscribe_invoice_requests();
    // The index keeps no reference counts: connection 2 still subscribes to
    // the offer, yet dropping connection 1 removed its key for everyone.
    assert_eq!(registry.request_invoice("offerO", InvoiceHook { id: 1 }), Ok(false));
}

#[test]
fn responses_fan_out_to_every_handle() {
    let mut registry = OfferSubscriptions::new();
    let mut responses_a = registry.subscribe_invoice_responses();
    let mut responses_b = registry.subscribe_invoice_responses();
    registry.received_invoice_response(7, "lnbc1".to_string());
    assert_eq!(responses_a.try_recv().unwrap(), (7, "lnbc1".to_string()));
    assert_eq!(responses_b.try_recv().unwrap(), (7, "lnbc1".to_string()));
}

#[test]
fn request_without_any_listener_errors() {
    let mut registry = OfferSubscriptions::new();
    registry.offers_subscribed(1, &["offerA".to_string()]);
    let outcome = registry.request_invoice("offerA", InvoiceHook { id: 1 });
    assert_eq!(outcome, Err(RequestInvoiceError::NoListeners));
}

#[test]
fn response_without_any_listener_is_silently_dropped() {
    let mut registry = OfferSubscriptions::new();
    registry.received_invoice_response(7, "lnbc1".to_string());
}

#[test]
fn handles_see_only_future_publications() {
    let mut registry = OfferSubscriptions::new();
    registry.offers_subscribed(1, &["offerA".to_string()]);
    let mut early = registry.subscribe_invoice_requests();
    assert_eq!(registry.request_invoice("offerA", InvoiceHook { id: 1 }), Ok(true));
    let mut late = registry.subscribe_invoice_requests();
    assert_eq!(early.try_recv().unwrap(), InvoiceHook { id: 1 });
    assert!(late.try_recv().is_err());
}

#[test]
fn empty_offer_text_is_an_offer_like_any_other() {
    let mut registry = OfferSubscriptions::new();
    registry.offers_subscribed(1, &["".to_string()]);
    let _requests = registry.subscribe_invoice_requests();
    assert_eq!(registry.request_invoice("", InvoiceHook { id: 1 }), Ok(true));
}

#[test]
fn empty_offer_list_still_registers_the_connection() {
    let mut registry = OfferSubscriptions::new();
    registry.offers_subscribed(5, &[]);
    assert!(registry.connection_id_known(5));
    assert_eq!(registry.request_invoice("offerA", InvoiceHook { id: 1 }), Ok(false));
}

#[test]
fn publish_verdict_determines_the_answer() {
    assert_eq!(answer_for_publish(Ok(3)), Ok(true));
    assert_eq!(
        answer_for_publish(Err(InvoiceHook { id: 1 })),
        Err(RequestInvoiceError::NoListeners)
    );
}

#[test]
fn full_invoice_round_trip() {
    let mut registry = OfferSubscriptions::new();
    registry.offers_subscribed(1, &["offerA".to_string()]);
    registry.offers_subscribed(2, &["offerB".to_string()]);
    let mut requests = registry.subscribe_invoice_requests();
    let mut responses = registry.subscribe_invoice_responses();
    assert_eq!(registry.request_invoice("offerA", InvoiceHook { id: 7 }), Ok(true));
    let hook = requests.try_recv().unwrap();
    assert_eq!(hook.id, 7);
    registry.received_invoice_response(hook.id, "lnbc1...".to_string());
    assert_eq!(responses.try_recv().unwrap(), (7, "lnbc1...".to_string()));
}
