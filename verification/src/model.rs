//! Domain model: ticket types, tickets, booking contacts, bookings and
//! payments. Prices and paid amounts are fixed-point currency values held as
//! integer minor units (two implied decimal places).

use vstd::prelude::*;

verus! {

/// One offered ticket type. `price` is in minor currency units (two implied
/// decimal places). The provider catalog linkage is carried but a single
/// fallback item is used at order-build time.
#[derive(Debug, PartialEq)]
pub struct TicketType {
    pub name: String,
    pub price: i64,
    pub square_item_id: String,
    pub square_catalog_version: i64,
}

impl Clone for TicketType {
    fn clone(&self) -> (res: Self)
        ensures
            res == self,
    {
        TicketType {
            name: self.name.clone(),
            price: self.price,
            square_item_id: self.square_item_id.clone(),
            square_catalog_version: self.square_catalog_version,
        }
    }
}

/// The ordered catalog of ticket types for one event. The first element is
/// the standard type offered when a new ticket entry is created. Lookup by
/// name is case-sensitive and returns the first match.
#[derive(Debug, PartialEq)]
pub struct TicketTypes(pub Vec<TicketType>);

/// True exactly when `s[i]` is the first entry of `s` whose name reads `name`.
pub open spec fn first_name_match(s: Seq<TicketType>, name: Seq<char>, i: int) -> bool {
    &&& 0 <= i < s.len()
    &&& s[i].name@ == name
    &&& forall|j: int| 0 <= j < i ==> s[j].name@ != name
}

impl TicketTypes {
    pub fn new(input: Vec<TicketType>) -> (r: Self)
        ensures
            r.0@ == input@,
    {
        TicketTypes(input)
    }

    /// First catalog entry whose name equals `tt_name` exactly, if any.
    pub fn find(&self, tt_name: &String) -> (r: Option<TicketType>)
        ensures
            match r {
                Some(tt) => exists|i: int|
                    first_name_match(self.0@, tt_name@, i) && tt == self.0@[i],
                None => forall|i: int| 0 <= i < self.0@.len() ==> self.0@[i].name@ != tt_name@,
            },
    {
        let n = self.0.len();
        for k in 0..n
            invariant
                n == self.0@.len(),
                forall|j: int| 0 <= j < k ==> self.0@[j].name@ != tt_name@,
        {
            if self.0[k].name == *tt_name {
                let found = self.0[k].clone();
                assert(first_name_match(self.0@, tt_name@, k as int));
                return Some(found);
            }
        }
        None
    }

    /// The standard/default type: the first catalog entry, if the catalog is
    /// not empty.
    pub fn standard(&self) -> (r: Option<TicketType>)
        ensures
            match r {
                Some(tt) => self.0@.len() > 0 && tt == self.0@[0],
                None => self.0@.len() == 0,
            },
    {
        match self.0.first() {
            Some(tt) => Some(tt.clone()),
            None => None,
        }
    }
}

impl Clone for TicketTypes {
    fn clone(&self) -> (res: Self)
        ensures
            res.0@ == self.0@,
    {
        let mut out: Vec<TicketType> = Vec::new();
        let n = self.0.len();
        for k in 0..n
            invariant
                n == self.0@.len(),
                out@ =~= self.0@.subrange(0, k as int),
        {
            out.push(self.0[k].clone());
        }
        proof {
            assert(out@ =~= self.0@);
        }
        TicketTypes(out)
    }
}

/// A single event with its catalog.
#[derive(Debug, PartialEq)]
pub struct Event {
    pub id: String,
    pub name: String,
    pub tagline: String,
    pub ticket_types: TicketTypes,
}

impl Clone for Event {
    fn clone(&self) -> (res: Self)
        ensures
            res.id == self.id,
            res.name == self.name,
            res.tagline == self.tagline,
            res.ticket_types.0@ == self.ticket_types.0@,
    {
        Event {
            id: self.id.clone(),
            name: self.name.clone(),
            tagline: self.tagline.clone(),
            ticket_types: self.ticket_types.clone(),
        }
    }
}

/// The contact record of a booking draft. `id` is generated client-side at
/// draft creation.
#[derive(Debug, PartialEq)]
pub struct BookingContact {
    pub id: String,
    pub name: String,
    pub email: String,
    pub phone_no: String,
    pub event_id: String,
}

impl Clone for BookingContact {
    fn clone(&self) -> (res: Self)
        ensures
            res == self,
    {
        BookingContact {
            id: self.id.clone(),
            name: self.name.clone(),
            email: self.email.clone(),
            phone_no: self.phone_no.clone(),
            event_id: self.event_id.clone(),
        }
    }
}

/// Relies on `uuid::Uuid::new_v4` and its `Display` rendering: a fresh
/// random version-4 UUID. Nothing is promised of the value.
#[verifier::external_body]
pub(crate) fn fresh_uuid_string() -> String {
    uuid::Uuid::new_v4().to_string()
}

impl BookingContact {
    /// A fresh draft contact with a generated id and an empty phone number.
    pub fn new(name: String, email: String, event_id: String) -> (r: Self)
        ensures
            r.name == name,
            r.email == email,
            r.event_id == event_id,
            r.phone_no@ == Seq::<char>::empty(),
    {
        BookingContact {
            id: fresh_uuid_string(),
            name,
            email,
            event_id,
            phone_no: String::new(),
        }
    }

    /// A contact with every field empty, used when a provider order carries
    /// no customer reference at all.
    pub fn empty() -> (r: Self)
        ensures
            r.id@ == Seq::<char>::empty(),
            r.name@ == Seq::<char>::empty(),
            r.email@ == Seq::<char>::empty(),
            r.phone_no@ == Seq::<char>::empty(),
            r.event_id@ == Seq::<char>::empty(),
    {
        BookingContact {
            id: String::new(),
            name: String::new(),
            email: String::new(),
            phone_no: String::new(),
            event_id: String::new(),
        }
    }
}

/// One ticket of a booking. The ticket type is an embedded copy: its price is
/// locked at ticket-creation time, not re-read from the catalog later.
/// An empty `dietary_requirements` string is the canonical "no requirements".
#[derive(Debug, PartialEq)]
pub struct Ticket {
    pub booking_id: String,
    pub ticket_type: TicketType,
    pub vegetarian: bool,
    pub gluten_free: bool,
    pub dietary_requirements: String,
}

impl Clone for Ticket {
    fn clone(&self) -> (res: Self)
        ensures
            res == self,
    {
        Ticket {
            booking_id: self.booking_id.clone(),
            ticket_type: self.ticket_type.clone(),
            vegetarian: self.vegetarian,
            gluten_free: self.gluten_free,
            dietary_requirements: self.dietary_requirements.clone(),
        }
    }
}

impl Ticket {
    /// A fresh ticket of the given type with all dietary fields at their
    /// zero values.
    pub fn new(booking_id: String, tt: TicketType) -> (r: Self)
        ensures
            r.booking_id == booking_id,
            r.ticket_type == tt,
            !r.vegetarian,
            !r.gluten_free,
            r.dietary_requirements@ == Seq::<char>::empty(),
    {
        Ticket {
            booking_id,
            ticket_type: tt,
            vegetarian: false,
            gluten_free: false,
            dietary_requirements: String::new(),
        }
    }
}

/// The draft submission payload: an immutable snapshot taken at submit time.
#[derive(Debug, PartialEq)]
pub struct NewBooking {
    pub event_id: String,
    pub contact: BookingContact,
    pub tickets: Vec<Ticket>,
}

/// How a booking was settled. The amount is in minor currency units and is
/// the sum of all tender amounts attached to the provider order; `NotPaid`
/// holds exactly when no tenders are present.
#[derive(Debug, PartialEq, Clone, Copy)]
pub enum Payment {
    NotPaid,
    Card(i128),
    Cash(i128),
}

/// A confirmed booking as reconstructed from a provider order for display.
#[derive(Debug, PartialEq)]
pub struct Booking {
    pub id: String,
    pub event_id: String,
    pub contact: BookingContact,
    pub tickets: Vec<Ticket>,
    pub payment: Payment,
}

} // verus!
