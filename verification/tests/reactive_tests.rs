use happenings::draft::assemble;
use happenings::model::{BookingContact, Ticket, TicketType};
use happenings::reactive_list::{Notification, ReactiveTicketCollection};

fn ticket(name: &str) -> Ticket {
    Ticket {
        booking_id: "b1".to_string(),
        ticket_type: TicketType {
            name: name.to_string(),
            price: 1500,
            square_item_id: "ITEM".to_string(),
            square_catalog_version: 1,
        },
        vegetarian: false,
        gluten_free: false,
        dietary_requirements: "".to_string(),
    }
}

#[test]
fn removal_preserves_survivor_order() {
    let mut c = ReactiveTicketCollection::create_empty();
    let a = c.insert_new(ticket("a"));
    let b = c.insert_new(ticket("b"));
    let d = c.insert_new(ticket("c"));
    c.remove(b);
    let snapshot = c.to_ordered_sequence();
    let ids: Vec<u64> = snapshot.iter().map(|e| e.0).collect();
    let names: Vec<String> = snapshot.iter().map(|e| e.1.ticket_type.name.clone()).collect();
    assert_eq!(ids, vec![a, d]);
    assert_eq!(names, vec!["a".to_string(), "c".to_string()]);
}

#[test]
fn identities_are_unique_and_survive_removal() {
    let mut c = ReactiveTicketCollection::create_empty();
    let a = c.insert_new(ticket("a"));
    let b = c.insert_new(ticket("b"));
    c.remove(a);
    let d = c.insert_new(ticket("c"));
    assert_ne!(a, b);
    assert_ne!(b, d);
    assert_ne!(a, d);
    let ids: Vec<u64> = c.to_ordered_sequence().iter().map(|e| e.0).collect();
    assert_eq!(ids, vec![b, d]);
}

#[test]
fn remove_of_absent_id_is_a_no_op() {
    let mut c = ReactiveTicketCollection::create_empty();
    let a = c.insert_new(ticket("a"));
    c.remove(a + 100);
    assert_eq!(c.len(), 1);
    assert_eq!(c.take_notifications(), vec![Notification::StructureChanged]);
}

#[test]
fn update_changes_only_that_entry() {
    let mut c = ReactiveTicketCollection::create_empty();
    let a = c.insert_new(ticket("a"));
    let b = c.insert_new(ticket("b"));
    let mut changed = ticket("b");
    changed.vegetarian = true;
    c.update(b, changed);
    let snapshot = c.to_ordered_sequence();
    assert!(!snapshot[0].1.vegetarian);
    assert!(snapshot[1].1.vegetarian);
    assert_eq!(snapshot[0].0, a);
    assert_eq!(snapshot[1].0, b);
}

#[test]
fn update_of_absent_id_is_a_no_op() {
    let mut c = ReactiveTicketCollection::create_empty();
    let a = c.insert_new(ticket("a"));
    c.take_notifications();
    let mut changed = ticket("a");
    changed.gluten_free = true;
    c.update(a + 7, changed);
    assert!(!c.to_ordered_sequence()[0].1.gluten_free);
    assert_eq!(c.take_notifications(), vec![]);
}

#[test]
fn get_reads_one_entry_by_identity() {
    let mut c = ReactiveTicketCollection::create_empty();
    let a = c.insert_new(ticket("a"));
    let b = c.insert_new(ticket("b"));
    assert_eq!(c.get(a).unwrap().ticket_type.name, "a");
    assert_eq!(c.get(b).unwrap().ticket_type.name, "b");
    assert!(c.get(b + 1).is_none());
}

#[test]
fn each_mutation_notifies_exactly_once() {
    let mut c = ReactiveTicketCollection::create_empty();
    let a = c.insert_new(ticket("a"));
    let b = c.insert_new(ticket("b"));
    c.update(a, ticket("a2"));
    c.remove(b);
    assert_eq!(
        c.take_notifications(),
        vec![
            Notification::StructureChanged,
            Notification::StructureChanged,
            Notification::EntryValue(a),
            Notification::StructureChanged,
        ]
    );
    assert_eq!(c.take_notifications(), vec![]);
}

#[test]
fn assemble_preserves_length_order_and_rebinds_booking_id() {
    let mut c = ReactiveTicketCollection::create_empty();
    c.insert_new(ticket("a"));
    c.insert_new(ticket("b"));
    let contact = BookingContact {
        id: "contact-77".to_string(),
        name: "Joe Bloggs".to_string(),
        email: "joe@bloggs.com".to_string(),
        phone_no: "+447911123456".to_string(),
        event_id: "xmas2023".to_string(),
    };
    let booking = assemble(&contact, &c, &"xmas2023".to_string());
    assert_eq!(booking.event_id, "xmas2023");
    assert_eq!(booking.contact, contact);
    assert_eq!(booking.tickets.len(), 2);
    assert_eq!(booking.tickets[0].ticket_type.name, "a");
    assert_eq!(booking.tickets[1].ticket_type.name, "b");
    for t in &booking.tickets {
        assert_eq!(t.booking_id, "contact-77");
    }
}

#[test]
fn assemble_of_empty_collection_is_empty() {
    let c = ReactiveTicketCollection::create_empty();
    let contact = BookingContact {
        id: "contact-1".to_string(),
        name: "Joe Bloggs".to_string(),
        email: "joe@bloggs.com".to_string(),
        phone_no: "".to_string(),
        event_id: "e".to_string(),
    };
    let booking = assemble(&contact, &c, &"e".to_string());
    assert!(booking.tickets.is_empty());
}
