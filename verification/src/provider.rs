//! The payment provider's order shapes, as plain values: what the library
//! builds when submitting a booking and what it reads back when listing.
//! The provider itself is an external collaborator; transport lives outside
//! the library.

use vstd::prelude::*;
use crate::error::BookingError;
use crate::text::{parse_i64, parse_i64_spec};

verus! {

/// One line item of an order being created: quantity fixed at one ticket,
/// the configured catalog linkage, and the dietary metadata map as ordered
/// key/value pairs.
#[derive(Debug, PartialEq)]
pub struct NewLineItem {
    pub quantity: String,
    pub catalog_version: i64,
    pub catalog_object_id: String,
    pub metadata: Vec<(String, String)>,
}

/// An order being created from a booking draft.
#[derive(Debug, PartialEq)]
pub struct NewOrder {
    pub customer_id: Option<String>,
    pub location_id: String,
    pub line_items: Vec<NewLineItem>,
}

/// The provider call that creates a hosted checkout link: an order plus
/// pre-populated buyer contact data and a fresh idempotency key.
#[derive(Debug, PartialEq)]
pub struct PaymentLinkRequest {
    pub idempotency_key: String,
    pub description: String,
    pub order: NewOrder,
    pub buyer_email: String,
    pub buyer_phone: String,
}

/// The provider call that creates an order outright.
#[derive(Debug, PartialEq)]
pub struct CreateOrderRequest {
    pub idempotency_key: String,
    pub order: NewOrder,
}

/// One line item read back from a provider order. The price is the
/// provider's integer minor-unit amount.
#[derive(Debug, PartialEq)]
pub struct OrderLineItem {
    pub variation_name: Option<String>,
    pub base_price_amount: Option<i64>,
    pub catalog_object_id: Option<String>,
    pub catalog_version: Option<i64>,
    pub metadata: Vec<(String, String)>,
}

/// One settlement record attached to a provider order, in minor units.
#[derive(Debug, PartialEq, Clone, Copy)]
pub struct Tender {
    pub amount: Option<i64>,
}

/// An order as returned by the provider's search.
#[derive(Debug, PartialEq)]
pub struct ProviderOrder {
    pub id: Option<String>,
    pub customer_id: Option<String>,
    pub line_items: Vec<OrderLineItem>,
    pub tenders: Vec<Tender>,
}

/// A customer record as returned by the provider's customer lookup.
#[derive(Debug, PartialEq)]
pub struct ProviderCustomer {
    pub id: Option<String>,
    pub given_name: Option<String>,
    pub family_name: Option<String>,
    pub email_address: Option<String>,
    pub phone_number: Option<String>,
}

/// Deployment configuration for order building: the provider location, and
/// the fallback catalog item and version used for every line item.
#[derive(Debug, PartialEq)]
pub struct ProviderConfig {
    pub location_id: String,
    pub item_id: String,
    pub catalog_version: i64,
}

impl Clone for ProviderConfig {
    fn clone(&self) -> (res: Self)
        ensures
            res == self,
    {
        ProviderConfig {
            location_id: self.location_id.clone(),
            item_id: self.item_id.clone(),
            catalog_version: self.catalog_version,
        }
    }
}

/// Whether the three raw configuration values yield a valid configuration.
pub open spec fn provider_config_ok(
    location_id: Option<String>,
    item_id: Option<String>,
    catalog_version: Option<String>,
) -> bool {
    &&& location_id is Some
    &&& item_id is Some
    &&& catalog_version matches Some(v) && parse_i64_spec(v@) is Some
}

impl ProviderConfig {
    /// Build the configuration from raw deployment values; every value is
    /// required, and the catalog version must be a decimal integer. Absence
    /// or a malformed version is a configuration error, reported for the
    /// first offending value.
    pub fn from_values(
        location_id: Option<String>,
        item_id: Option<String>,
        catalog_version: Option<String>,
    ) -> (r: Result<Self, BookingError>)
        ensures
            r is Ok <==> provider_config_ok(location_id, item_id, catalog_version),
            match r {
                Ok(c) => {
                    &&& Some(c.location_id) == location_id
                    &&& Some(c.item_id) == item_id
                    &&& catalog_version matches Some(v) && parse_i64_spec(v@) == Some(
                        c.catalog_version,
                    )
                },
                Err(e) => e is Configuration,
            },
    {
        let location_id = match location_id {
            Some(l) => l,
            None => {
                return Err(
                    BookingError::Configuration("provider location id is missing".to_owned()),
                );
            },
        };
        let item_id = match item_id {
            Some(i) => i,
            None => {
                return Err(
                    BookingError::Configuration("provider catalog item id is missing".to_owned()),
                );
            },
        };
        let version_text = match catalog_version {
            Some(v) => v,
            None => {
                return Err(
                    BookingError::Configuration("provider catalog version is missing".to_owned()),
                );
            },
        };
        let catalog_version = match parse_i64(&version_text) {
            Some(n) => n,
            None => {
                return Err(
                    BookingError::Configuration(
                        "provider catalog version is not an integer".to_owned(),
                    ),
                );
            },
        };
        Ok(ProviderConfig { location_id, item_id, catalog_version })
    }
}

/// The fixed filter of the listing query: open orders carrying the
/// application's source tag, within the configured location.
#[derive(Debug, PartialEq)]
pub struct OrderSearchQuery {
    pub states: Vec<String>,
    pub source_names: Vec<String>,
    pub location_ids: Vec<String>,
}

} // verus!
