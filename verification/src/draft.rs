//! The booking draft assembler: combines the current contact record and the
//! current ticket collection into an immutable `NewBooking` snapshot at the
//! moment of submission.

use vstd::prelude::*;
use crate::model::{BookingContact, NewBooking, Ticket};
use crate::reactive_list::ReactiveTicketCollection;

verus! {

/// `out` is `t` with its `booking_id` replaced by `booking_id`.
pub open spec fn rebound_ticket(out: Ticket, t: Ticket, booking_id: String) -> bool {
    &&& out.booking_id == booking_id
    &&& out.ticket_type == t.ticket_type
    &&& out.vegetarian == t.vegetarian
    &&& out.gluten_free == t.gluten_free
    &&& out.dietary_requirements == t.dietary_requirements
}

/// Snapshot the contact and the ticket collection into a `NewBooking`.
/// The resulting `tickets` sequence has the same length and order as the
/// collection's display order, and every resulting ticket's `booking_id` is
/// the contact's id. Pure: no side effects, no provider involvement.
pub fn assemble(
    contact: &BookingContact,
    collection: &ReactiveTicketCollection,
    event_id: &String,
) -> (r: NewBooking)
    ensures
        r.event_id == event_id,
        r.contact == contact,
        r.tickets@.len() == collection@.len(),
        forall|i: int|
            0 <= i < collection@.len() ==> rebound_ticket(
                #[trigger] r.tickets@[i],
                collection@[i].1,
                contact.id,
            ),
{
    let snapshot = collection.to_ordered_sequence();
    let mut tickets: Vec<Ticket> = Vec::new();
    let n = snapshot.len();
    for k in 0..n
        invariant
            n == snapshot@.len(),
            snapshot@ == collection@,
            tickets@.len() == k,
            forall|i: int|
                0 <= i < k ==> rebound_ticket(
                    #[trigger] tickets@[i],
                    collection@[i].1,
                    contact.id,
                ),
    {
        let t = &snapshot[k].1;
        tickets.push(
            Ticket {
                booking_id: contact.id.clone(),
                ticket_type: t.ticket_type.clone(),
                vegetarian: t.vegetarian,
                gluten_free: t.gluten_free,
                dietary_requirements: t.dietary_requirements.clone(),
            },
        );
    }
    NewBooking { event_id: event_id.clone(), contact: contact.clone(), tickets }
}

} // verus!
