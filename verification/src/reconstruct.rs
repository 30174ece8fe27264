//! The order reconstructor: the inverse of the order builder. Given a
//! provider order and the outcome of its customer lookup, rebuild a
//! `Booking` for display. Reconstruction never fails a whole order on a
//! single missing or malformed field: every field degrades to a safe
//! default.

use vstd::prelude::*;
use crate::model::{Booking, BookingContact, NewBooking, Payment, Ticket, TicketType};
use crate::order::{built_line_item, built_order, dietary_metadata_value, ticket_metadata};
use crate::provider::{NewOrder, OrderLineItem, ProviderCustomer, ProviderOrder, Tender};
use crate::text::{bool_chars, parse_bool, parse_bool_spec};

verus! {

/// The Title Case rendering of a string, used to give a synthetic contact
/// a displayable name from a raw customer id. The result depends on the
/// characters alone.
pub uninterp spec fn title_case_of(s: Seq<char>) -> Seq<char>;

/// Relies on `convert_case::Casing::to_case` with `Case::Title`.
#[verifier::external_body]
fn title_case(s: &String) -> (r: String)
    ensures
        r@ == title_case_of(s@),
{
    convert_case::Casing::to_case(&s.as_str(), convert_case::Case::Title)
}

/// The characters of an optional string; the default is empty.
pub open spec fn opt_chars(o: Option<String>) -> Seq<char> {
    match o {
        Some(s) => s@,
        None => Seq::<char>::empty(),
    }
}

/// The value of an optional amount or version; the default is zero.
pub open spec fn opt_i64(o: Option<i64>) -> i64 {
    match o {
        Some(v) => v,
        None => 0,
    }
}

/// The value under `key` in a metadata map, reading the pairs in order and
/// taking the first match.
pub open spec fn metadata_lookup(md: Seq<(String, String)>, key: Seq<char>) -> Option<Seq<char>>
    decreases md.len(),
{
    if md.len() == 0 {
        None
    } else if md[0].0@ == key {
        Some(md[0].1@)
    } else {
        metadata_lookup(md.drop_first(), key)
    }
}

/// The boolean read back from a metadata entry: false when the key is
/// absent or the value does not parse. A parse failure never propagates.
pub open spec fn decoded_bool(md: Seq<(String, String)>, key: Seq<char>) -> bool {
    match metadata_lookup(md, key) {
        Some(v) => match parse_bool_spec(v) {
            Some(b) => b,
            None => false,
        },
        None => false,
    }
}

/// The free-text dietary requirements read back from the metadata: the
/// literal `none` decodes to the canonical empty string, an absent key to
/// the empty string.
pub open spec fn decoded_dietary(md: Seq<(String, String)>) -> Seq<char> {
    match metadata_lookup(md, "dietary_requirements"@) {
        Some(v) => if v == "none"@ {
            Seq::<char>::empty()
        } else {
            v
        },
        None => Seq::<char>::empty(),
    }
}

/// First-match lookup of `key` in a metadata map.
fn lookup_metadata(md: &Vec<(String, String)>, key: &String) -> (r: Option<String>)
    ensures
        match r {
            Some(v) => metadata_lookup(md@, key@) == Some(v@),
            None => metadata_lookup(md@, key@) is None,
        },
{
    let n = md.len();
    proof {
        assert(md@.subrange(0, n as int) =~= md@);
    }
    for k in 0..n
        invariant
            n == md@.len(),
            metadata_lookup(md@, key@) == metadata_lookup(
                md@.subrange(k as int, n as int),
                key@,
            ),
    {
        proof {
            assert(md@.subrange(k as int, n as int)[0] == md@[k as int]);
            assert(md@.subrange(k as int, n as int).drop_first() =~= md@.subrange(
                k as int + 1,
                n as int,
            ));
        }
        if md[k].0 == *key {
            return Some(md[k].1.clone());
        }
    }
    proof {
        assert(md@.subrange(n as int, n as int).len() == 0);
    }
    None
}

/// Read a boolean flag out of a metadata map, defaulting to false.
fn read_bool_flag(md: &Vec<(String, String)>, key: &String) -> (r: bool)
    ensures
        r == decoded_bool(md@, key@),
{
    match lookup_metadata(md, key) {
        Some(v) => match parse_bool(&v) {
            Some(b) => b,
            None => false,
        },
        None => false,
    }
}

/// Read the dietary text out of a metadata map, mapping the literal `none`
/// back to the canonical empty string.
fn read_dietary(md: &Vec<(String, String)>) -> (r: String)
    ensures
        r@ == decoded_dietary(md@),
{
    let key = "dietary_requirements".to_owned();
    match lookup_metadata(md, &key) {
        Some(v) => {
            let none_word = "none".to_owned();
            if v == none_word {
                String::new()
            } else {
                v
            }
        },
        None => String::new(),
    }
}

/// One reconstructed ticket: the type is synthesized from the line item's
/// variation name and minor-unit price, and the dietary data is read back
/// from the metadata map.
pub open spec fn reconstructed_ticket(t: Ticket, order_id: Option<String>, li: OrderLineItem) -> bool {
    &&& t.booking_id@ == opt_chars(order_id)
    &&& t.ticket_type.name@ == opt_chars(li.variation_name)
    &&& t.ticket_type.price == opt_i64(li.base_price_amount)
    &&& t.ticket_type.square_item_id@ == opt_chars(li.catalog_object_id)
    &&& t.ticket_type.square_catalog_version == opt_i64(li.catalog_version)
    &&& t.vegetarian == decoded_bool(li.metadata@, "vegeterrible"@)
    &&& t.gluten_free == decoded_bool(li.metadata@, "gluten_free"@)
    &&& t.dietary_requirements@ == decoded_dietary(li.metadata@)
}

/// Rebuild one ticket from a line item.
pub fn ticket_from_line_item(order_id: &Option<String>, li: &OrderLineItem) -> (t: Ticket)
    ensures
        reconstructed_ticket(t, *order_id, *li),
{
    let veg_key = "vegeterrible".to_owned();
    let gf_key = "gluten_free".to_owned();
    Ticket {
        booking_id: clone_or_empty(order_id),
        ticket_type: TicketType {
            name: clone_or_empty(&li.variation_name),
            price: value_or_zero(&li.base_price_amount),
            square_item_id: clone_or_empty(&li.catalog_object_id),
            square_catalog_version: value_or_zero(&li.catalog_version),
        },
        vegetarian: read_bool_flag(&li.metadata, &veg_key),
        gluten_free: read_bool_flag(&li.metadata, &gf_key),
        dietary_requirements: read_dietary(&li.metadata),
    }
}

/// The string, or empty when absent.
fn clone_or_empty(o: &Option<String>) -> (r: String)
    ensures
        r@ == opt_chars(*o),
{
    match o {
        Some(s) => s.clone(),
        None => String::new(),
    }
}

/// The value, or zero when absent.
fn value_or_zero(o: &Option<i64>) -> (r: i64)
    ensures
        r == opt_i64(*o),
{
    match o {
        Some(v) => *v,
        None => 0,
    }
}

/// A contact with every field empty except the raw customer id, whose
/// Title Case rendering stands in for the name.
pub open spec fn fallback_contact(c: BookingContact, id: String) -> bool {
    &&& c.id == id
    &&& c.name@ == title_case_of(id@)
    &&& c.email@ == Seq::<char>::empty()
    &&& c.phone_no@ == Seq::<char>::empty()
    &&& c.event_id@ == Seq::<char>::empty()
}

/// A contact filled from a resolved customer record: the name joins the
/// given and family names with a single space, absent fields default to
/// empty.
pub open spec fn customer_contact(c: BookingContact, cust: ProviderCustomer) -> bool {
    &&& c.id@ == opt_chars(cust.id)
    &&& c.name@ == opt_chars(cust.given_name) + " "@ + opt_chars(cust.family_name)
    &&& c.email@ == opt_chars(cust.email_address)
    &&& c.phone_no@ == opt_chars(cust.phone_number)
    &&& c.event_id@ == Seq::<char>::empty()
}

/// The contact a reconstruction produces: empty when the order carries no
/// customer reference; the Title Case fallback when the lookup failed to
/// resolve the customer; the customer's own data otherwise. The name of
/// the fallback is never built from nothing: it is the Title Case
/// rendering of the raw id. Reconstruction of a contact never fails.
pub open spec fn reconstructed_contact(
    c: BookingContact,
    customer_id: Option<String>,
    lookup: Option<ProviderCustomer>,
) -> bool {
    match customer_id {
        None => {
            &&& c.id@ == Seq::<char>::empty()
            &&& c.name@ == Seq::<char>::empty()
            &&& c.email@ == Seq::<char>::empty()
            &&& c.phone_no@ == Seq::<char>::empty()
            &&& c.event_id@ == Seq::<char>::empty()
        },
        Some(id) => match lookup {
            None => fallback_contact(c, id),
            Some(cust) => customer_contact(c, cust),
        },
    }
}

/// Rebuild the booking contact from the order's customer reference and the
/// outcome of the customer lookup (`None` when the lookup failed or the
/// response carried no customer).
pub fn contact_from_order(customer_id: &Option<String>, lookup: &Option<ProviderCustomer>) -> (c:
    BookingContact)
    ensures
        reconstructed_contact(c, *customer_id, *lookup),
{
    let id = match customer_id {
        Some(id) => id,
        None => {
            return BookingContact::empty();
        },
    };
    let cust = match lookup {
        Some(cust) => cust,
        None => {
            return BookingContact {
                id: id.clone(),
                name: title_case(id),
                email: String::new(),
                phone_no: String::new(),
                event_id: String::new(),
            };
        },
    };
    let mut name = clone_or_empty(&cust.given_name);
    name.append(" ");
    let family = clone_or_empty(&cust.family_name);
    name.append(family.as_str());
    BookingContact {
        id: clone_or_empty(&cust.id),
        name,
        email: clone_or_empty(&cust.email_address),
        phone_no: clone_or_empty(&cust.phone_number),
        event_id: String::new(),
    }
}

/// The amount of one tender, in minor units; absent amounts count zero.
pub open spec fn tender_amount(t: Tender) -> int {
    match t.amount {
        Some(a) => a as int,
        None => 0,
    }
}

/// The sum of all tender amounts, in minor units.
pub open spec fn tender_total(ts: Seq<Tender>) -> int
    decreases ts.len(),
{
    if ts.len() == 0 {
        0
    } else {
        tender_total(ts.drop_last()) + tender_amount(ts.last())
    }
}

/// The payment a reconstruction produces: `NotPaid` exactly when no
/// tenders are present, else a card payment of the summed tender amounts.
/// Any nonzero settlement is labelled `Card`: the provider data does not
/// say how a tender was taken, so no cash detection is attempted.
pub open spec fn reconstructed_payment(ts: Seq<Tender>) -> Payment {
    if ts.len() == 0 {
        Payment::NotPaid
    } else {
        Payment::Card(tender_total(ts) as i128)
    }
}

/// Sum the tenders into a payment.
pub fn payment_from_tenders(tenders: &Vec<Tender>) -> (p: Payment)
    ensures
        p == reconstructed_payment(tenders@),
{
    if tenders.len() == 0 {
        return Payment::NotPaid;
    }
    let mut acc: i128 = 0;
    let n = tenders.len();
    for k in 0..n
        invariant
            n == tenders@.len(),
            acc == tender_total(tenders@.subrange(0, k as int)),
            k as int * (i64::MIN as int) <= acc <= k as int * (i64::MAX as int),
    {
        proof {
            assert(tenders@.subrange(0, k as int + 1).drop_last() =~= tenders@.subrange(
                0,
                k as int,
            ));
            assert(tenders@.subrange(0, k as int + 1).last() == tenders@[k as int]);
        }
        let a: i64 = match tenders[k].amount {
            Some(a) => a,
            None => 0,
        };
        acc = acc + (a as i128);
    }
    proof {
        assert(tenders@.subrange(0, n as int) =~= tenders@);
    }
    Payment::Card(acc)
}

/// One whole reconstructed booking: the order id, the resolved or fallback
/// contact, one ticket per line item in line-item order, and the summed
/// payment. The event id is not stored on provider orders and is left
/// empty.
pub open spec fn reconstructed_booking(
    b: Booking,
    o: ProviderOrder,
    lookup: Option<ProviderCustomer>,
) -> bool {
    &&& b.id@ == opt_chars(o.id)
    &&& b.event_id@ == Seq::<char>::empty()
    &&& reconstructed_contact(b.contact, o.customer_id, lookup)
    &&& b.tickets@.len() == o.line_items@.len()
    &&& forall|i: int|
        0 <= i < o.line_items@.len() ==> reconstructed_ticket(
            #[trigger] b.tickets@[i],
            o.id,
            o.line_items@[i],
        )
    &&& b.payment == reconstructed_payment(o.tenders@)
}

/// Rebuild a whole booking from a provider order and the outcome of its
/// customer lookup. Total: a missing customer, missing metadata or an
/// unparseable value degrades to a default and never fails the order.
pub fn booking_from_order(order: &ProviderOrder, lookup: &Option<ProviderCustomer>) -> (b: Booking)
    ensures
        reconstructed_booking(b, *order, *lookup),
{
    let contact = contact_from_order(&order.customer_id, lookup);
    let mut tickets: Vec<Ticket> = Vec::new();
    let n = order.line_items.len();
    for k in 0..n
        invariant
            n == order.line_items@.len(),
            tickets@.len() == k,
            forall|i: int|
                0 <= i < k ==> reconstructed_ticket(
                    #[trigger] tickets@[i],
                    order.id,
                    order.line_items@[i],
                ),
    {
        tickets.push(ticket_from_line_item(&order.id, &order.line_items[k]));
    }
    let payment = payment_from_tenders(&order.tenders);
    Booking { id: clone_or_empty(&order.id), event_id: String::new(), contact, tickets, payment }
}

/// The provider echoes an order back: what comes back carries the same
/// line items with the same metadata as what was sent.
pub open spec fn echoes_line_items(o: NewOrder, po: ProviderOrder) -> bool {
    &&& po.line_items@.len() == o.line_items@.len()
    &&& forall|i: int|
        0 <= i < o.line_items@.len() ==> (#[trigger] po.line_items@[i]).metadata@
            == o.line_items@[i].metadata@
}

/// Law (round trip, one ticket): the dietary metadata written by the order
/// builder decodes back to the original values: the vegetarian and
/// gluten-free flags survive, and the free-text requirements survive with
/// the empty string travelling as the literal `none` and returning as the
/// empty string. Free text that is itself the literal `none` is the one
/// value this cannot distinguish from empty, and is excluded.
pub proof fn lemma_metadata_round_trip(t: Ticket, md: Seq<(String, String)>)
    requires
        ticket_metadata(t, md),
        t.dietary_requirements@ != "none"@,
    ensures
        decoded_bool(md, "vegeterrible"@) == t.vegetarian,
        decoded_bool(md, "gluten_free"@) == t.gluten_free,
        decoded_dietary(md) == t.dietary_requirements@,
{
    reveal_strlit("gluten_free");
    reveal_strlit("vegeterrible");
    reveal_strlit("dietary_requirements");
    reveal_strlit("true");
    reveal_strlit("false");
    reveal_strlit("none");
    let rest1 = md.drop_first();
    let rest2 = rest1.drop_first();
    assert(rest1[0] == md[1] && rest1[1] == md[2]);
    assert(rest2[0] == md[2]);
    assert("gluten_free"@ != "vegeterrible"@) by {
        assert("gluten_free"@.len() == 11);
        assert("vegeterrible"@.len() == 12);
    }
    assert("gluten_free"@ != "dietary_requirements"@) by {
        assert("gluten_free"@.len() == 11);
        assert("dietary_requirements"@.len() == 20);
    }
    assert("vegeterrible"@ != "dietary_requirements"@) by {
        assert("vegeterrible"@.len() == 12);
        assert("dietary_requirements"@.len() == 20);
    }
    assert(metadata_lookup(md, "gluten_free"@) == Some(bool_chars(t.gluten_free)));
    assert(metadata_lookup(md, "vegeterrible"@) == metadata_lookup(rest1, "vegeterrible"@));
    assert(metadata_lookup(rest1, "vegeterrible"@) == Some(bool_chars(t.vegetarian)));
    assert(metadata_lookup(md, "dietary_requirements"@) == metadata_lookup(
        rest1,
        "dietary_requirements"@,
    ));
    assert(metadata_lookup(rest1, "dietary_requirements"@) == metadata_lookup(
        rest2,
        "dietary_requirements"@,
    ));
    assert(metadata_lookup(rest2, "dietary_requirements"@) == Some(
        dietary_metadata_value(t.dietary_requirements@),
    ));
    assert("true"@ != "false"@) by {
        assert("true"@.len() == 4);
        assert("false"@.len() == 5);
    }
    assert(parse_bool_spec(bool_chars(t.gluten_free)) == Some(t.gluten_free));
    assert(parse_bool_spec(bool_chars(t.vegetarian)) == Some(t.vegetarian));
    if t.dietary_requirements@.len() == 0 {
        assert(decoded_dietary(md) =~= t.dietary_requirements@);
    } else {
        assert(dietary_metadata_value(t.dietary_requirements@) == t.dietary_requirements@);
    }
}

/// Law (round trip, whole order): build an order from a booking, let the
/// provider echo it back, reconstruct; every ticket's vegetarian flag,
/// gluten-free flag and dietary text return unchanged, ticket for ticket
/// in order. Excluded is only free text that is itself the literal `none`.
pub proof fn lemma_booking_round_trip(
    b: NewBooking,
    cfg: crate::provider::ProviderConfig,
    o: NewOrder,
    po: ProviderOrder,
    lookup: Option<ProviderCustomer>,
    b2: Booking,
)
    requires
        built_order(b, cfg, o),
        echoes_line_items(o, po),
        reconstructed_booking(b2, po, lookup),
        forall|i: int|
            0 <= i < b.tickets@.len() ==> (#[trigger] b.tickets@[i]).dietary_requirements@
                != "none"@,
    ensures
        b2.tickets@.len() == b.tickets@.len(),
        forall|i: int|
            0 <= i < b.tickets@.len() ==> {
                &&& (#[trigger] b2.tickets@[i]).vegetarian == b.tickets@[i].vegetarian
                &&& b2.tickets@[i].gluten_free == b.tickets@[i].gluten_free
                &&& b2.tickets@[i].dietary_requirements@ == b.tickets@[i].dietary_requirements@
            },
{
    assert forall|i: int| 0 <= i < b.tickets@.len() implies {
        &&& (#[trigger] b2.tickets@[i]).vegetarian == b.tickets@[i].vegetarian
        &&& b2.tickets@[i].gluten_free == b.tickets@[i].gluten_free
        &&& b2.tickets@[i].dietary_requirements@ == b.tickets@[i].dietary_requirements@
    } by {
        assert(built_line_item(b.tickets@[i], cfg, o.line_items@[i]));
        assert(po.line_items@[i].metadata@ == o.line_items@[i].metadata@);
        assert(reconstructed_ticket(b2.tickets@[i], po.id, po.line_items@[i]));
        lemma_metadata_round_trip(b.tickets@[i], po.line_items@[i].metadata@);
    }
}

} // verus!
