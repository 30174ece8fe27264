use happenings::error::{BookingError, FieldIssue};
use happenings::model::{BookingContact, NewBooking, Ticket, TicketType};
use happenings::order::{
    build_order, build_order_request, build_payment_link_request, create_order_outcome,
    payment_link_outcome,
};
use happenings::provider::ProviderConfig;

fn test_config() -> ProviderConfig {
    ProviderConfig {
        location_id: "L7CEWJ6XCDC38".to_string(),
        item_id: "VF54IAUH3FRNQMNE7T43ZXUB".to_string(),
        catalog_version: 1700477397626,
    }
}

fn joe_booking() -> NewBooking {
    let contact = BookingContact {
        id: "contact-1".to_string(),
        name: "Joe Bloggs".to_string(),
        email: "joe@bloggs.com".to_string(),
        phone_no: "+447911123456".to_string(),
        event_id: "xmas2023".to_string(),
    };
    let ticket = Ticket {
        booking_id: "contact-1".to_string(),
        ticket_type: TicketType {
            name: "Adult".to_string(),
            price: 1500,
            square_item_id: "VF54IAUH3FRNQMNE7T43ZXUB".to_string(),
            square_catalog_version: 1700477397626,
        },
        vegetarian: true,
        gluten_free: false,
        dietary_requirements: "".to_string(),
    };
    NewBooking {
        event_id: "xmas2023".to_string(),
        contact,
        tickets: vec![ticket],
    }
}

#[test]
fn build_order_encodes_one_line_item_with_expected_metadata() {
    let order = build_order(&joe_booking(), &test_config());
    assert_eq!(order.location_id, "L7CEWJ6XCDC38");
    assert_eq!(order.line_items.len(), 1);
    let li = &order.line_items[0];
    assert_eq!(li.quantity, "1");
    assert_eq!(li.catalog_object_id, "VF54IAUH3FRNQMNE7T43ZXUB");
    assert_eq!(li.catalog_version, 1700477397626);
    assert_eq!(
        li.metadata,
        vec![
            ("gluten_free".to_string(), "false".to_string()),
            ("vegeterrible".to_string(), "true".to_string()),
            ("dietary_requirements".to_string(), "none".to_string()),
        ]
    );
}

#[test]
fn build_order_derives_snake_cased_customer_hint() {
    let order = build_order(&joe_booking(), &test_config());
    assert_eq!(order.customer_id, Some("joe_bloggs".to_string()));
}

#[test]
fn build_order_trims_name_before_folding() {
    let mut booking = joe_booking();
    booking.contact.name = "  Joe   Bloggs  ".to_string();
    let order = build_order(&booking, &test_config());
    assert_eq!(order.customer_id, Some("joe_bloggs".to_string()));
}

#[test]
fn build_order_keeps_nonempty_dietary_text() {
    let mut booking = joe_booking();
    booking.tickets[0].dietary_requirements = "no nuts".to_string();
    let order = build_order(&booking, &test_config());
    assert_eq!(
        order.line_items[0].metadata[2],
        ("dietary_requirements".to_string(), "no nuts".to_string())
    );
}

#[test]
fn payment_link_request_carries_buyer_data() {
    let req = build_payment_link_request(&joe_booking(), &test_config()).unwrap();
    assert_eq!(req.description, "Little Stukeley Christmas Dinner");
    assert_eq!(req.buyer_email, "joe@bloggs.com");
    assert_eq!(req.buyer_phone, "+447911123456");
    assert_eq!(req.order.line_items.len(), 1);
    assert!(!req.idempotency_key.is_empty());
}

#[test]
fn payment_link_request_formats_national_numbers_as_e164() {
    let mut booking = joe_booking();
    booking.contact.phone_no = "07911 123456".to_string();
    let req = build_payment_link_request(&booking, &test_config()).unwrap();
    assert_eq!(req.buyer_phone, "+447911123456");
}

#[test]
fn payment_link_request_rejects_unparseable_phone() {
    let mut booking = joe_booking();
    booking.contact.phone_no = "".to_string();
    let r = build_payment_link_request(&booking, &test_config());
    assert_eq!(
        r,
        Err(BookingError::Validation(vec![FieldIssue::PhoneInvalid]))
    );
}

#[test]
fn order_request_needs_no_phone() {
    let mut booking = joe_booking();
    booking.contact.phone_no = "".to_string();
    let req = build_order_request(&booking, &test_config());
    assert_eq!(req.order.line_items.len(), 1);
}

#[test]
fn fresh_idempotency_keys_differ() {
    let booking = joe_booking();
    let cfg = test_config();
    let a = build_order_request(&booking, &cfg);
    let b = build_order_request(&booking, &cfg);
    assert_ne!(a.idempotency_key, b.idempotency_key);
}

#[test]
fn payment_link_outcome_returns_long_url_from_success() {
    let r = payment_link_outcome(
        true,
        Some("https://example/pay/1".to_string()),
        String::new(),
    );
    assert_eq!(r, Ok("https://example/pay/1".to_string()));
}

#[test]
fn payment_link_outcome_passes_raw_body_through_on_failure() {
    let r = payment_link_outcome(false, None, "{\"errors\":[\"nope\"]}".to_string());
    assert_eq!(
        r,
        Err(BookingError::Provider("{\"errors\":[\"nope\"]}".to_string()))
    );
}

#[test]
fn create_order_outcome_returns_new_order_id() {
    let r = create_order_outcome(true, Some("ORDER9".to_string()), String::new());
    assert_eq!(r, Ok("ORDER9".to_string()));
    let e = create_order_outcome(false, None, "bad request".to_string());
    assert_eq!(e, Err(BookingError::Provider("bad request".to_string())));
}
