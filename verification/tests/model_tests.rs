use happenings::error::{BookingError, FieldIssue};
use happenings::model::{BookingContact, Event, Ticket, TicketType, TicketTypes};
use happenings::provider::ProviderConfig;
use happenings::validate::validate_contact;

fn tt(name: &str, price: i64) -> TicketType {
    TicketType {
        name: name.to_string(),
        price,
        square_item_id: "ITEM".to_string(),
        square_catalog_version: 1,
    }
}

#[test]
fn catalog_find_exact_match() {
    let types = TicketTypes::new(vec![tt("Adult", 2500), tt("Child", 1500)]);
    let found = types.find(&"Child".to_string()).unwrap();
    assert_eq!(found.name, "Child");
    assert_eq!(found.price, 1500);
}

#[test]
fn catalog_find_is_case_sensitive() {
    let types = TicketTypes::new(vec![tt("Adult", 2500)]);
    assert!(types.find(&"adult".to_string()).is_none());
}

#[test]
fn catalog_find_returns_first_of_duplicates() {
    let types = TicketTypes::new(vec![tt("Adult", 2500), tt("Adult", 9900)]);
    let found = types.find(&"Adult".to_string()).unwrap();
    assert_eq!(found.price, 2500);
}

#[test]
fn catalog_standard_is_first_entry() {
    let types = TicketTypes::new(vec![tt("Adult", 2500), tt("Child", 1500)]);
    assert_eq!(types.standard().unwrap().name, "Adult");
    let empty = TicketTypes::new(vec![]);
    assert!(empty.standard().is_none());
}

#[test]
fn event_offers_its_first_type_as_standard() {
    let event = Event {
        id: "xmas2023".to_string(),
        name: "Little Stukeley Christmas Dinner".to_string(),
        tagline: "Get your tickets for the final village event of the year!".to_string(),
        ticket_types: TicketTypes::new(vec![tt("Adult", 1500)]),
    };
    let standard = event.ticket_types.standard().unwrap();
    let first = Ticket::new("b1".to_string(), standard);
    assert_eq!(first.ticket_type.name, "Adult");
    assert_eq!(first.ticket_type.price, 1500);
}

#[test]
fn new_contact_has_empty_phone() {
    let c = BookingContact::new(
        "Joe Bloggs".to_string(),
        "joe@bloggs.com".to_string(),
        "xmas2023".to_string(),
    );
    assert_eq!(c.name, "Joe Bloggs");
    assert_eq!(c.email, "joe@bloggs.com");
    assert_eq!(c.event_id, "xmas2023");
    assert_eq!(c.phone_no, "");
}

#[test]
fn new_ticket_has_zero_dietary_values() {
    let t = Ticket::new("b1".to_string(), tt("Adult", 2500));
    assert!(!t.vegetarian);
    assert!(!t.gluten_free);
    assert_eq!(t.dietary_requirements, "");
}

fn contact(name: &str, email: &str, phone: &str) -> BookingContact {
    BookingContact {
        id: "id-1".to_string(),
        name: name.to_string(),
        email: email.to_string(),
        phone_no: phone.to_string(),
        event_id: "xmas2023".to_string(),
    }
}

#[test]
fn valid_contact_passes_validation() {
    let c = contact("Joe Bloggs", "joe@bloggs.com", "+447911123456");
    assert!(validate_contact(&c).is_ok());
}

#[test]
fn empty_phone_is_allowed() {
    let c = contact("Joe Bloggs", "joe@bloggs.com", "");
    assert!(validate_contact(&c).is_ok());
}

#[test]
fn short_name_is_rejected() {
    let c = contact("Jo", "joe@bloggs.com", "+447911123456");
    assert_eq!(validate_contact(&c), Err(vec![FieldIssue::NameTooShort]));
}

#[test]
fn invalid_email_is_rejected() {
    let c = contact("Joe Bloggs", "not-an-email", "+447911123456");
    assert_eq!(validate_contact(&c), Err(vec![FieldIssue::EmailInvalid]));
}

#[test]
fn invalid_phone_is_rejected() {
    let c = contact("Joe Bloggs", "joe@bloggs.com", "12");
    assert_eq!(validate_contact(&c), Err(vec![FieldIssue::PhoneInvalid]));
}

#[test]
fn all_findings_are_reported_in_field_order() {
    let c = contact("Jo", "nope", "12");
    assert_eq!(
        validate_contact(&c),
        Err(vec![
            FieldIssue::NameTooShort,
            FieldIssue::EmailInvalid,
            FieldIssue::PhoneInvalid
        ])
    );
}

#[test]
fn provider_config_from_complete_values() {
    let cfg = ProviderConfig::from_values(
        Some("LOC1".to_string()),
        Some("ITEM1".to_string()),
        Some("1700477397626".to_string()),
    )
    .unwrap();
    assert_eq!(cfg.location_id, "LOC1");
    assert_eq!(cfg.item_id, "ITEM1");
    assert_eq!(cfg.catalog_version, 1700477397626);
}

#[test]
fn provider_config_missing_location_is_a_configuration_error() {
    let r = ProviderConfig::from_values(
        None,
        Some("ITEM1".to_string()),
        Some("1".to_string()),
    );
    assert!(matches!(r, Err(BookingError::Configuration(_))));
}

#[test]
fn provider_config_bad_version_is_a_configuration_error() {
    let r = ProviderConfig::from_values(
        Some("LOC1".to_string()),
        Some("ITEM1".to_string()),
        Some("not-a-number".to_string()),
    );
    assert!(matches!(r, Err(BookingError::Configuration(_))));
}

#[test]
fn field_issue_messages() {
    assert_eq!(
        FieldIssue::NameTooShort.message(),
        "name must be at least 3 characters"
    );
    assert_eq!(FieldIssue::EmailInvalid.message(), "invalid email address");
    assert_eq!(FieldIssue::PhoneInvalid.message(), "invalid phone number");
}
