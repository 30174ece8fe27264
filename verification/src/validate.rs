//! Synchronous, pure validation of a booking contact: name length, email
//! shape, and the phone number rule (a non-empty phone number must parse as
//! a valid GB national or international number).

use vstd::prelude::*;
use crate::error::FieldIssue;
use crate::model::BookingContact;

verus! {

/// Whether `validator`'s HTML5/RFC-style email check accepts the string.
/// The verdict depends on the characters alone.
pub uninterp spec fn email_valid(s: Seq<char>) -> bool;

/// Whether the string parses as a phone number with GB as the default
/// region and the parsed number is valid. Depends on the characters alone.
pub uninterp spec fn gb_phone_valid(s: Seq<char>) -> bool;

/// The E.164 rendering of the string parsed as a phone number with GB as
/// the default region; `None` when parsing fails. Depends on the characters
/// alone. Parsing is more lenient than validity: `gb_phone_valid` may be
/// false for a string this maps to `Some`.
pub uninterp spec fn gb_phone_e164(s: Seq<char>) -> Option<Seq<char>>;

/// Relies on `validator::ValidateEmail::validate_email` for `&str`: a pure
/// check of the characters against the HTML5 email shape.
#[verifier::external_body]
pub fn email_is_valid(s: &String) -> (r: bool)
    ensures
        r == email_valid(s@),
{
    validator::ValidateEmail::validate_email(&s.as_str())
}

/// Relies on `phonenumber::parse` with region GB and
/// `phonenumber::PhoneNumber::is_valid`: parse the string, then check the
/// parsed number against the metadata database.
#[verifier::external_body]
pub fn phone_is_valid(s: &String) -> (r: bool)
    ensures
        r == gb_phone_valid(s@),
{
    match phonenumber::parse(Some(phonenumber::country::Id::GB), s.as_str()) {
        Ok(pn) => pn.is_valid(),
        Err(_) => false,
    }
}

/// Relies on `phonenumber::parse` with region GB and the E.164 mode of
/// `phonenumber::PhoneNumber::format`.
#[verifier::external_body]
pub fn phone_e164(s: &String) -> (r: Option<String>)
    ensures
        match r {
            Some(e) => gb_phone_e164(s@) == Some(e@),
            None => gb_phone_e164(s@) is None,
        },
{
    match phonenumber::parse(Some(phonenumber::country::Id::GB), s.as_str()) {
        Ok(pn) => Some(pn.format().mode(phonenumber::Mode::E164).to_string()),
        Err(_) => None,
    }
}

/// A contact passes validation exactly when the name has at least three
/// characters, the email is a valid address, and the phone number is either
/// empty or a valid GB number.
pub open spec fn contact_valid(c: BookingContact) -> bool {
    &&& c.name@.len() >= 3
    &&& email_valid(c.email@)
    &&& (c.phone_no@.len() == 0 || gb_phone_valid(c.phone_no@))
}

/// The exact list of findings validation reports for a contact, in field
/// order: name, then email, then phone number.
pub open spec fn contact_issues(c: BookingContact) -> Seq<FieldIssue> {
    (if c.name@.len() < 3 {
        seq![FieldIssue::NameTooShort]
    } else {
        Seq::<FieldIssue>::empty()
    }) + (if !email_valid(c.email@) {
        seq![FieldIssue::EmailInvalid]
    } else {
        Seq::<FieldIssue>::empty()
    }) + (if c.phone_no@.len() > 0 && !gb_phone_valid(c.phone_no@) {
        seq![FieldIssue::PhoneInvalid]
    } else {
        Seq::<FieldIssue>::empty()
    })
}

/// Pure pass/fail validation of a contact with field-level findings. Does
/// not mutate anything; reports `Ok` exactly on contacts that satisfy
/// `contact_valid`, and otherwise every failing field in field order.
pub fn validate_contact(c: &BookingContact) -> (r: Result<(), Vec<FieldIssue>>)
    ensures
        r is Ok <==> contact_valid(*c),
        match r {
            Ok(()) => contact_issues(*c).len() == 0,
            Err(v) => v@ == contact_issues(*c) && v@.len() > 0,
        },
{
    let mut issues: Vec<FieldIssue> = Vec::new();
    if c.name.as_str().unicode_len() < 3 {
        issues.push(FieldIssue::NameTooShort);
    }
    if !email_is_valid(&c.email) {
        issues.push(FieldIssue::EmailInvalid);
    }
    if c.phone_no.as_str().unicode_len() > 0 && !phone_is_valid(&c.phone_no) {
        issues.push(FieldIssue::PhoneInvalid);
    }
    if issues.len() == 0 {
        proof {
            assert(contact_issues(*c) =~= Seq::<FieldIssue>::empty());
        }
        Ok(())
    } else {
        proof {
            assert(issues@ =~= contact_issues(*c));
        }
        Err(issues)
    }
}

} // verus!
