//! The listing query's decision logic: the fixed search filter sent to the
//! provider, and the assembly of reconstructed bookings from the orders the
//! search returned, preserving the provider's order sequence. The transport
//! and the bounded fan-out of customer lookups live outside the library;
//! each lookup's outcome is handed in as a plain value.

use vstd::prelude::*;
use crate::model::{Booking, Payment, Ticket};
use crate::provider::{OrderSearchQuery, ProviderCustomer, ProviderOrder};
use crate::reconstruct::{booking_from_order, reconstructed_booking};

verus! {

/// The filter of the listing query: open orders carrying the application's
/// fixed source tag, within the given location.
pub fn search_query(location_id: &String) -> (q: OrderSearchQuery)
    ensures
        q.states@.len() == 1,
        q.states@[0]@ == "OPEN"@,
        q.source_names@.len() == 1,
        q.source_names@[0]@ == "StukeleyHappenings"@,
        q.location_ids@.len() == 1,
        q.location_ids@[0]@ == location_id@,
{
    let states: Vec<String> = vec!["OPEN".to_owned()];
    let source_names: Vec<String> = vec!["StukeleyHappenings".to_owned()];
    let location_ids: Vec<String> = vec![location_id.clone()];
    OrderSearchQuery { states, source_names, location_ids }
}

/// Reconstruct one booking per returned order, in the provider's returned
/// order sequence. `lookups[i]` is the outcome of the customer lookup for
/// `orders[i]`; a failed lookup (`None`) degrades that booking's contact
/// and is never fatal to the listing.
pub fn bookings_from_orders(
    orders: &Vec<ProviderOrder>,
    lookups: &Vec<Option<ProviderCustomer>>,
) -> (r: Vec<Booking>)
    requires
        lookups@.len() == orders@.len(),
    ensures
        r@.len() == orders@.len(),
        forall|i: int|
            0 <= i < orders@.len() ==> reconstructed_booking(
                #[trigger] r@[i],
                orders@[i],
                lookups@[i],
            ),
{
    let mut out: Vec<Booking> = Vec::new();
    let n = orders.len();
    for k in 0..n
        invariant
            n == orders@.len(),
            lookups@.len() == orders@.len(),
            out@.len() == k,
            forall|i: int|
                0 <= i < k ==> reconstructed_booking(
                    #[trigger] out@[i],
                    orders@[i],
                    lookups@[i],
                ),
    {
        out.push(booking_from_order(&orders[k], &lookups[k]));
    }
    out
}

/// The sum of the embedded ticket prices of a booking, in minor units.
pub open spec fn price_total(ts: Seq<Ticket>) -> int
    decreases ts.len(),
{
    if ts.len() == 0 {
        0
    } else {
        price_total(ts.drop_last()) + ts.last().ticket_type.price
    }
}

/// Total price of a list of tickets, in minor units: the aggregate shown
/// beside each listed booking.
pub fn total_price(tickets: &Vec<Ticket>) -> (total: i128)
    ensures
        total == price_total(tickets@),
{
    let mut acc: i128 = 0;
    let n = tickets.len();
    for k in 0..n
        invariant
            n == tickets@.len(),
            acc == price_total(tickets@.subrange(0, k as int)),
            k as int * (i64::MIN as int) <= acc <= k as int * (i64::MAX as int),
    {
        proof {
            assert(tickets@.subrange(0, k as int + 1).drop_last() =~= tickets@.subrange(
                0,
                k as int,
            ));
            assert(tickets@.subrange(0, k as int + 1).last() == tickets@[k as int]);
        }
        acc = acc + (tickets[k].ticket_type.price as i128);
    }
    proof {
        assert(tickets@.subrange(0, n as int) =~= tickets@);
    }
    acc
}

/// The amount actually paid on a booking, in minor units: zero when not
/// paid, else the settled amount whichever way it was taken.
pub fn paid_amount(p: &Payment) -> (a: i128)
    ensures
        a == match *p {
            Payment::NotPaid => 0int,
            Payment::Card(amt) => amt as int,
            Payment::Cash(amt) => amt as int,
        },
{
    match p {
        Payment::NotPaid => 0,
        Payment::Card(amt) => *amt,
        Payment::Cash(amt) => *amt,
    }
}

/// How many of the tickets have the vegetarian flag set.
pub open spec fn vegetarian_count(ts: Seq<Ticket>) -> int
    decreases ts.len(),
{
    if ts.len() == 0 {
        0
    } else {
        vegetarian_count(ts.drop_last()) + (if ts.last().vegetarian {
            1int
        } else {
            0int
        })
    }
}

/// How many of the tickets have the gluten-free flag set.
pub open spec fn gluten_free_count(ts: Seq<Ticket>) -> int
    decreases ts.len(),
{
    if ts.len() == 0 {
        0
    } else {
        gluten_free_count(ts.drop_last()) + (if ts.last().gluten_free {
            1int
        } else {
            0int
        })
    }
}

/// Count the vegetarian tickets: a per-type tally of the listing view.
pub fn count_vegetarian(tickets: &Vec<Ticket>) -> (c: usize)
    ensures
        c == vegetarian_count(tickets@),
{
    let mut count: usize = 0;
    let n = tickets.len();
    for k in 0..n
        invariant
            n == tickets@.len(),
            count == vegetarian_count(tickets@.subrange(0, k as int)),
            count <= k,
    {
        proof {
            assert(tickets@.subrange(0, k as int + 1).drop_last() =~= tickets@.subrange(
                0,
                k as int,
            ));
            assert(tickets@.subrange(0, k as int + 1).last() == tickets@[k as int]);
        }
        if tickets[k].vegetarian {
            count = count + 1;
        }
    }
    proof {
        assert(tickets@.subrange(0, n as int) =~= tickets@);
    }
    count
}

/// Count the gluten-free tickets: a per-type tally of the listing view.
pub fn count_gluten_free(tickets: &Vec<Ticket>) -> (c: usize)
    ensures
        c == gluten_free_count(tickets@),
{
    let mut count: usize = 0;
    let n = tickets.len();
    for k in 0..n
        invariant
            n == tickets@.len(),
            count == gluten_free_count(tickets@.subrange(0, k as int)),
            count <= k,
    {
        proof {
            assert(tickets@.subrange(0, k as int + 1).drop_last() =~= tickets@.subrange(
                0,
                k as int,
            ));
            assert(tickets@.subrange(0, k as int + 1).last() == tickets@[k as int]);
        }
        if tickets[k].gluten_free {
            count = count + 1;
        }
    }
    proof {
        assert(tickets@.subrange(0, n as int) =~= tickets@);
    }
    count
}

/// The total number of tickets across a list of bookings.
pub open spec fn ticket_count(bs: Seq<Booking>) -> int
    decreases bs.len(),
{
    if bs.len() == 0 {
        0
    } else {
        ticket_count(bs.drop_last()) + bs.last().tickets@.len()
    }
}

/// Count all tickets across the listed bookings. The total must fit the
/// machine word, as it does for any list of bookings actually in memory.
pub fn count_tickets(bookings: &Vec<Booking>) -> (c: usize)
    requires
        ticket_count(bookings@) <= usize::MAX,
    ensures
        c == ticket_count(bookings@),
{
    let mut count: usize = 0;
    let n = bookings.len();
    for k in 0..n
        invariant
            n == bookings@.len(),
            count == ticket_count(bookings@.subrange(0, k as int)),
            ticket_count(bookings@) <= usize::MAX,
    {
        proof {
            assert(bookings@.subrange(0, k as int + 1).drop_last() =~= bookings@.subrange(
                0,
                k as int,
            ));
            assert(bookings@.subrange(0, k as int + 1).last() == bookings@[k as int]);
            lemma_ticket_count_prefix(bookings@, k as int + 1);
        }
        count = count + bookings[k].tickets.len();
    }
    proof {
        assert(bookings@.subrange(0, n as int) =~= bookings@);
    }
    count
}

/// A prefix never counts more tickets than the whole list.
proof fn lemma_ticket_count_prefix(bs: Seq<Booking>, k: int)
    requires
        0 <= k <= bs.len(),
    ensures
        ticket_count(bs.subrange(0, k)) <= ticket_count(bs),
    decreases bs.len() - k,
{
    if k == bs.len() {
        assert(bs.subrange(0, k) =~= bs);
    } else {
        lemma_ticket_count_prefix(bs, k + 1);
        assert(bs.subrange(0, k + 1).drop_last() =~= bs.subrange(0, k));
        assert(bs.subrange(0, k + 1).last() == bs[k]);
    }
}

} // verus!
