//! Booking-state reconciliation and reactive-list management for a small
//! event-booking application.
//!
//! The library keeps a variable-length, independently editable collection of
//! ticket entries synchronized with a single contact record and a catalog of
//! ticket types, assembles immutable booking snapshots for submission, maps
//! them into the payment provider's order shape, and reconstructs
//! booking/ticket records from provider orders, line items and tenders.

pub mod draft;
pub mod email;
pub mod error;
pub mod listing;
pub mod model;
pub mod order;
pub mod provider;
pub mod reactive_list;
pub mod reconstruct;
pub mod text;
pub mod validate;
