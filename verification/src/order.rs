//! The order builder and the checkout action's decision logic: mapping a
//! `NewBooking` snapshot into the provider's order/line-item wire shape,
//! with dietary data encoded as string metadata, and interpreting the
//! provider's responses.
//!
//! The metadata keys are fixed for round-trip compatibility with existing
//! stored orders; in particular the vegetarian flag travels under the
//! literal key `vegeterrible`.

use vstd::prelude::*;
use crate::error::{BookingError, FieldIssue};
use crate::model::{fresh_uuid_string, NewBooking, Ticket};
use crate::provider::{CreateOrderRequest, NewLineItem, NewOrder, PaymentLinkRequest, ProviderConfig};
use crate::text::{bool_chars, bool_to_string};
use crate::validate::{gb_phone_e164, phone_e164};

verus! {

/// The normalized lowercase/underscored (snake-case) rendering of a contact
/// name after trimming, used as a soft customer-matching hint. The result
/// depends on the characters alone.
pub uninterp spec fn snake_case_of(s: Seq<char>) -> Seq<char>;

/// Relies on `sanitizer::StringSanitizer`: trim the string, then fold it to
/// snake case.
#[verifier::external_body]
fn snake_case(s: &String) -> (r: String)
    ensures
        r@ == snake_case_of(s@),
{
    let mut st = sanitizer::StringSanitizer::from(s.as_str());
    st.trim().to_snake_case();
    st.get()
}

/// The metadata value of the free-text dietary requirements: the empty
/// string is normalized to the literal `none`.
pub open spec fn dietary_metadata_value(d: Seq<char>) -> Seq<char> {
    if d.len() == 0 {
        "none"@
    } else {
        d
    }
}

/// The three metadata entries of one ticket's line item, in order.
pub open spec fn ticket_metadata(t: Ticket, md: Seq<(String, String)>) -> bool {
    &&& md.len() == 3
    &&& md[0].0@ == "gluten_free"@
    &&& md[0].1@ == bool_chars(t.gluten_free)
    &&& md[1].0@ == "vegeterrible"@
    &&& md[1].1@ == bool_chars(t.vegetarian)
    &&& md[2].0@ == "dietary_requirements"@
    &&& md[2].1@ == dietary_metadata_value(t.dietary_requirements@)
}

/// One built line item: quantity one, the configured fallback catalog item
/// and version (the ticket type's own provider linkage is accepted but not
/// used), and the ticket's dietary metadata.
pub open spec fn built_line_item(t: Ticket, cfg: ProviderConfig, li: NewLineItem) -> bool {
    &&& li.quantity@ == "1"@
    &&& li.catalog_version == cfg.catalog_version
    &&& li.catalog_object_id@ == cfg.item_id@
    &&& ticket_metadata(t, li.metadata@)
}

/// The whole built order: the snake-cased customer hint, the configured
/// location, and one line item per ticket in ticket order.
pub open spec fn built_order(b: NewBooking, cfg: ProviderConfig, o: NewOrder) -> bool {
    &&& o.customer_id matches Some(cid) && cid@ == snake_case_of(b.contact.name@)
    &&& o.location_id@ == cfg.location_id@
    &&& o.line_items@.len() == b.tickets@.len()
    &&& forall|i: int|
        0 <= i < b.tickets@.len() ==> built_line_item(
            b.tickets@[i],
            cfg,
            #[trigger] o.line_items@[i],
        )
}

/// Map a booking snapshot into the provider's order shape.
pub fn build_order(booking: &NewBooking, cfg: &ProviderConfig) -> (o: NewOrder)
    ensures
        built_order(*booking, *cfg, o),
{
    let customer_id = snake_case(&booking.contact.name);
    let mut line_items: Vec<NewLineItem> = Vec::new();
    let n = booking.tickets.len();
    for k in 0..n
        invariant
            n == booking.tickets@.len(),
            line_items@.len() == k,
            forall|i: int|
                0 <= i < k ==> built_line_item(
                    booking.tickets@[i],
                    *cfg,
                    #[trigger] line_items@[i],
                ),
    {
        let t = &booking.tickets[k];
        let dietary = if t.dietary_requirements.as_str().is_empty() {
            "none".to_owned()
        } else {
            t.dietary_requirements.clone()
        };
        let mut metadata: Vec<(String, String)> = Vec::new();
        metadata.push(("gluten_free".to_owned(), bool_to_string(t.gluten_free)));
        metadata.push(("vegeterrible".to_owned(), bool_to_string(t.vegetarian)));
        metadata.push(("dietary_requirements".to_owned(), dietary));
        line_items.push(
            NewLineItem {
                quantity: "1".to_owned(),
                catalog_version: cfg.catalog_version,
                catalog_object_id: cfg.item_id.clone(),
                metadata,
            },
        );
    }
    NewOrder { customer_id: Some(customer_id), location_id: cfg.location_id.clone(), line_items }
}

/// Build the hosted-checkout-link request for a booking: the built order, a
/// fresh idempotency key, and the buyer's email and E.164 phone number.
/// The phone number is mandatory on this path: a phone number that does not
/// parse is a validation error and no request is built.
pub fn build_payment_link_request(booking: &NewBooking, cfg: &ProviderConfig) -> (r: Result<
    PaymentLinkRequest,
    BookingError,
>)
    ensures
        r is Ok <==> gb_phone_e164(booking.contact.phone_no@) is Some,
        match r {
            Ok(req) => {
                &&& built_order(*booking, *cfg, req.order)
                &&& Some(req.buyer_phone@) == gb_phone_e164(booking.contact.phone_no@)
                &&& req.buyer_email == booking.contact.email
                &&& req.description@ == "Little Stukeley Christmas Dinner"@
            },
            Err(e) => e matches BookingError::Validation(v) && v@ == seq![
                FieldIssue::PhoneInvalid,
            ],
        },
{
    match phone_e164(&booking.contact.phone_no) {
        Some(p) => Ok(
            PaymentLinkRequest {
                idempotency_key: fresh_uuid_string(),
                description: "Little Stukeley Christmas Dinner".to_owned(),
                order: build_order(booking, cfg),
                buyer_email: booking.contact.email.clone(),
                buyer_phone: p,
            },
        ),
        None => {
            let issues: Vec<FieldIssue> = vec![FieldIssue::PhoneInvalid];
            proof {
                assert(issues@ =~= seq![FieldIssue::PhoneInvalid]);
            }
            Err(BookingError::Validation(issues))
        },
    }
}

/// Build the direct order-creation request for a booking: the built order
/// under a fresh idempotency key. No phone number is required on this path.
pub fn build_order_request(booking: &NewBooking, cfg: &ProviderConfig) -> (r: CreateOrderRequest)
    ensures
        built_order(*booking, *cfg, r.order),
{
    CreateOrderRequest { idempotency_key: fresh_uuid_string(), order: build_order(booking, cfg) }
}

/// Interpret the provider's response to a payment-link call: the long-form
/// checkout URL on a success response that carries one, else a provider
/// error with the raw response body as its payload.
pub fn payment_link_outcome(success: bool, long_url: Option<String>, body: String) -> (r: Result<
    String,
    BookingError,
>)
    ensures
        r is Ok <==> success && long_url is Some,
        match r {
            Ok(u) => long_url == Some(u),
            Err(e) => e matches BookingError::Provider(m) && m == body,
        },
{
    if success {
        match long_url {
            Some(u) => Ok(u),
            None => Err(BookingError::Provider(body)),
        }
    } else {
        Err(BookingError::Provider(body))
    }
}

/// Interpret the provider's response to an order-creation call: the new
/// order's id on a success response that carries one, else a provider
/// error with the raw response body as its payload.
pub fn create_order_outcome(success: bool, order_id: Option<String>, body: String) -> (r: Result<
    String,
    BookingError,
>)
    ensures
        r is Ok <==> success && order_id is Some,
        match r {
            Ok(id) => order_id == Some(id),
            Err(e) => e matches BookingError::Provider(m) && m == body,
        },
{
    if success {
        match order_id {
            Some(id) => Ok(id),
            None => Err(BookingError::Provider(body)),
        }
    } else {
        Err(BookingError::Provider(body))
    }
}

} // verus!
