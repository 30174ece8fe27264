use happenings::listing::{bookings_from_orders, search_query};
use happenings::model::{BookingContact, NewBooking, Payment, Ticket, TicketType};
use happenings::order::build_order;
use happenings::provider::{
    NewOrder, OrderLineItem, ProviderConfig, ProviderCustomer, ProviderOrder, Tender,
};
use happenings::reconstruct::{booking_from_order, contact_from_order, payment_from_tenders};

fn echo_order(sent: &NewOrder, order_id: &str, customer_id: Option<&str>) -> ProviderOrder {
    ProviderOrder {
        id: Some(order_id.to_string()),
        customer_id: customer_id.map(|s| s.to_string()),
        line_items: sent
            .line_items
            .iter()
            .map(|li| OrderLineItem {
                variation_name: Some("Adult".to_string()),
                base_price_amount: Some(1500),
                catalog_object_id: Some(li.catalog_object_id.clone()),
                catalog_version: Some(li.catalog_version),
                metadata: li.metadata.clone(),
            })
            .collect(),
        tenders: vec![],
    }
}

fn joe_booking(vegetarian: bool, gluten_free: bool, dietary: &str) -> NewBooking {
    let contact = BookingContact {
        id: "contact-1".to_string(),
        name: "Joe Bloggs".to_string(),
        email: "joe@bloggs.com".to_string(),
        phone_no: "+447911123456".to_string(),
        event_id: "xmas2023".to_string(),
    };
    let ticket = Ticket {
        booking_id: "contact-1".to_string(),
        ticket_type: TicketType {
            name: "Adult".to_string(),
            price: 1500,
            square_item_id: "ITEM".to_string(),
            square_catalog_version: 1,
        },
        vegetarian,
        gluten_free,
        dietary_requirements: dietary.to_string(),
    };
    NewBooking {
        event_id: "xmas2023".to_string(),
        contact,
        tickets: vec![ticket],
    }
}

fn test_config() -> ProviderConfig {
    ProviderConfig {
        location_id: "LOC".to_string(),
        item_id: "ITEM".to_string(),
        catalog_version: 1,
    }
}

#[test]
fn round_trip_restores_dietary_values() {
    for (veg, gf, dietary) in [
        (true, false, ""),
        (false, true, "no nuts"),
        (true, true, "halal"),
        (false, false, ""),
    ] {
        let booking = joe_booking(veg, gf, dietary);
        let sent = build_order(&booking, &test_config());
        let echoed = echo_order(&sent, "ORDER1", None);
        let rebuilt = booking_from_order(&echoed, &None);
        assert_eq!(rebuilt.tickets.len(), 1);
        let t = &rebuilt.tickets[0];
        assert_eq!(t.vegetarian, veg);
        assert_eq!(t.gluten_free, gf);
        assert_eq!(t.dietary_requirements, dietary);
    }
}

#[test]
fn round_trip_maps_empty_dietary_through_the_none_literal() {
    let booking = joe_booking(false, false, "");
    let sent = build_order(&booking, &test_config());
    assert_eq!(
        sent.line_items[0].metadata[2],
        ("dietary_requirements".to_string(), "none".to_string())
    );
    let rebuilt = booking_from_order(&echo_order(&sent, "ORDER1", None), &None);
    assert_eq!(rebuilt.tickets[0].dietary_requirements, "");
}

#[test]
fn literal_none_free_text_decodes_as_empty() {
    // Free text that is itself the word `none` travels unchanged but is
    // indistinguishable from the encoded empty string on the way back.
    let booking = joe_booking(false, false, "none");
    let sent = build_order(&booking, &test_config());
    assert_eq!(
        sent.line_items[0].metadata[2],
        ("dietary_requirements".to_string(), "none".to_string())
    );
    let rebuilt = booking_from_order(&echo_order(&sent, "ORDER1", None), &None);
    assert_eq!(rebuilt.tickets[0].dietary_requirements, "");
}

#[test]
fn missing_metadata_defaults_to_zero_values() {
    let order = ProviderOrder {
        id: Some("O1".to_string()),
        customer_id: None,
        line_items: vec![OrderLineItem {
            variation_name: None,
            base_price_amount: None,
            catalog_object_id: None,
            catalog_version: None,
            metadata: vec![],
        }],
        tenders: vec![],
    };
    let b = booking_from_order(&order, &None);
    let t = &b.tickets[0];
    assert!(!t.vegetarian);
    assert!(!t.gluten_free);
    assert_eq!(t.dietary_requirements, "");
    assert_eq!(t.ticket_type.name, "");
    assert_eq!(t.ticket_type.price, 0);
}

#[test]
fn unparseable_flag_defaults_to_false() {
    let order = ProviderOrder {
        id: Some("O1".to_string()),
        customer_id: None,
        line_items: vec![OrderLineItem {
            variation_name: Some("Adult".to_string()),
            base_price_amount: Some(1500),
            catalog_object_id: None,
            catalog_version: None,
            metadata: vec![("vegeterrible".to_string(), "maybe".to_string())],
        }],
        tenders: vec![],
    };
    let b = booking_from_order(&order, &None);
    assert!(!b.tickets[0].vegetarian);
}

#[test]
fn unresolved_customer_falls_back_to_title_cased_id() {
    let c = contact_from_order(&Some("joe_bloggs".to_string()), &None);
    assert_eq!(c.id, "joe_bloggs");
    assert_eq!(c.name, "Joe Bloggs");
    assert!(!c.name.is_empty());
    assert_eq!(c.email, "");
    assert_eq!(c.phone_no, "");
}

#[test]
fn missing_customer_reference_gives_empty_contact() {
    let c = contact_from_order(&None, &None);
    assert_eq!(c, BookingContact::empty());
}

#[test]
fn resolved_customer_fills_the_contact() {
    let cust = ProviderCustomer {
        id: Some("CUST1".to_string()),
        given_name: Some("Joe".to_string()),
        family_name: Some("Bloggs".to_string()),
        email_address: Some("joe@bloggs.com".to_string()),
        phone_number: Some("+447911123456".to_string()),
    };
    let c = contact_from_order(&Some("joe_bloggs".to_string()), &Some(cust));
    assert_eq!(c.id, "CUST1");
    assert_eq!(c.name, "Joe Bloggs");
    assert_eq!(c.email, "joe@bloggs.com");
    assert_eq!(c.phone_no, "+447911123456");
}

#[test]
fn zero_tenders_is_not_paid() {
    assert_eq!(payment_from_tenders(&vec![]), Payment::NotPaid);
}

#[test]
fn tenders_summing_to_1500_minor_units_is_card_15_00() {
    let tenders = vec![Tender { amount: Some(1000) }, Tender { amount: Some(500) }];
    assert_eq!(payment_from_tenders(&tenders), Payment::Card(1500));
}

#[test]
fn tender_without_amount_counts_zero() {
    let tenders = vec![Tender { amount: None }, Tender { amount: Some(250) }];
    assert_eq!(payment_from_tenders(&tenders), Payment::Card(250));
}

#[test]
fn search_query_filters_open_orders_by_source() {
    let q = search_query(&"LOC".to_string());
    assert_eq!(q.states, vec!["OPEN".to_string()]);
    assert_eq!(q.source_names, vec!["StukeleyHappenings".to_string()]);
    assert_eq!(q.location_ids, vec!["LOC".to_string()]);
}

#[test]
fn listing_keeps_provider_order_even_when_one_lookup_fails() {
    let order_of = |id: &str, customer: &str| ProviderOrder {
        id: Some(id.to_string()),
        customer_id: Some(customer.to_string()),
        line_items: vec![],
        tenders: vec![],
    };
    let orders = vec![order_of("O1", "alice_a"), order_of("O2", "bob_b")];
    let lookups = vec![
        Some(ProviderCustomer {
            id: Some("C1".to_string()),
            given_name: Some("Alice".to_string()),
            family_name: Some("Arnold".to_string()),
            email_address: Some("alice@example.com".to_string()),
            phone_number: None,
        }),
        None,
    ];
    let bookings = bookings_from_orders(&orders, &lookups);
    assert_eq!(bookings.len(), 2);
    assert_eq!(bookings[0].id, "O1");
    assert_eq!(bookings[0].contact.name, "Alice Arnold");
    assert_eq!(bookings[1].id, "O2");
    assert_eq!(bookings[1].contact.name, "Bob B");
    assert_eq!(bookings[1].contact.email, "");
}
