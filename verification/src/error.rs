//! Error taxonomy: configuration errors are fatal at startup or first use,
//! validation errors block submission before any provider call, provider
//! errors carry the raw response body through unchanged.

use vstd::prelude::*;

verus! {

/// A single field-level validation finding on a booking contact.
#[derive(Debug, PartialEq, Eq, Clone, Copy, Structural)]
pub enum FieldIssue {
    /// The contact name has fewer than three characters.
    NameTooShort,
    /// The contact email address is not a valid email address.
    EmailInvalid,
    /// The contact phone number is non-empty but is not a valid GB number.
    PhoneInvalid,
}

impl FieldIssue {
    /// A display message for the finding.
    pub fn message(&self) -> (r: String)
        ensures
            r@ == self.message_view(),
    {
        match self {
            FieldIssue::NameTooShort => "name must be at least 3 characters".to_owned(),
            FieldIssue::EmailInvalid => "invalid email address".to_owned(),
            FieldIssue::PhoneInvalid => "invalid phone number".to_owned(),
        }
    }

    /// The message text of each finding.
    pub open spec fn message_view(&self) -> Seq<char> {
        match self {
            FieldIssue::NameTooShort => "name must be at least 3 characters"@,
            FieldIssue::EmailInvalid => "invalid email address"@,
            FieldIssue::PhoneInvalid => "invalid phone number"@,
        }
    }
}

/// Everything that can go wrong between a booking draft and the provider.
#[derive(Debug, PartialEq)]
pub enum BookingError {
    /// A required deployment configuration value is absent or malformed.
    Configuration(String),
    /// The contact data failed a domain rule; never sent upstream.
    Validation(Vec<FieldIssue>),
    /// A non-success response from the payments provider; the raw response
    /// body is carried through as an opaque message.
    Provider(String),
}

} // verus!
