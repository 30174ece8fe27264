//! The email notification's verified part: the subject line and the HTML
//! booking summary. CSS inlining and SMTP transport are external
//! collaborators and live outside the library; they receive the subject
//! and markup built here.

use vstd::prelude::*;
use crate::error::BookingError;
use crate::model::{Booking, Ticket};
use crate::text::{parse_i64, parse_i64_spec, push_char};

verus! {

/// The count-and-word rendering of a pluralized noun, such as
/// `1 ticket` or `3 tickets`. The result depends on the arguments alone.
pub uninterp spec fn pluralized(word: Seq<char>, count: int) -> Seq<char>;

/// Relies on `pluralizer::pluralize` with `include_count` set: the word
/// pluralized to the count, prefixed with the count itself.
#[verifier::external_body]
fn pluralize_with_count(word: &str, count: usize) -> (r: String)
    requires
        count <= isize::MAX,
    ensures
        r@ == pluralized(word@, count as int),
{
    pluralizer::pluralize(word, count as isize, true)
}

/// The subject line of the notification: the pluralized ticket count and
/// the contact's name.
pub open spec fn subject_chars(b: Booking) -> Seq<char> {
    "Xmas Dinner: "@ + pluralized("ticket"@, b.tickets@.len() as int) + " booked by "@
        + b.contact.name@
}

/// Render the subject line of the booking notification.
pub fn email_subject(booking: &Booking) -> (r: String)
    requires
        booking.tickets@.len() <= isize::MAX,
    ensures
        r@ == subject_chars(*booking),
{
    let mut s = "Xmas Dinner: ".to_owned();
    let plural = pluralize_with_count("ticket", booking.tickets.len());
    s.append(plural.as_str());
    s.append(" booked by ");
    s.append(booking.contact.name.as_str());
    proof {
        assert(s@ =~= subject_chars(*booking));
    }
    s
}

/// The HTML escaping of one character: the three markup-significant
/// characters become entities, everything else stands as it is.
pub open spec fn escape_char(c: char) -> Seq<char> {
    if c == '&' {
        "&amp;"@
    } else if c == '<' {
        "&lt;"@
    } else if c == '>' {
        "&gt;"@
    } else {
        seq![c]
    }
}

/// The HTML escaping of a string.
pub open spec fn escape(s: Seq<char>) -> Seq<char>
    decreases s.len(),
{
    if s.len() == 0 {
        Seq::<char>::empty()
    } else {
        escape(s.drop_last()) + escape_char(s.last())
    }
}

/// Append the HTML escaping of `src` to `dst`.
fn append_escaped(dst: &mut String, src: &String)
    ensures
        final(dst)@ == old(dst)@ + escape(src@),
{
    let sl = src.as_str();
    let n = sl.unicode_len();
    for k in 0..n
        invariant
            sl@ == src@,
            n == src@.len(),
            dst@ == old(dst)@ + escape(src@.subrange(0, k as int)),
        decreases n - k,
    {
        proof {
            assert(src@.subrange(0, k as int + 1).drop_last() =~= src@.subrange(0, k as int));
            assert(src@.subrange(0, k as int + 1).last() == src@[k as int]);
        }
        let c = sl.get_char(k);
        if c == '&' {
            dst.append("&amp;");
        } else if c == '<' {
            dst.append("&lt;");
        } else if c == '>' {
            dst.append("&gt;");
        } else {
            push_char(dst, c);
        }
        proof {
            assert(dst@ =~= old(dst)@ + escape(src@.subrange(0, k as int + 1)));
        }
    }
    proof {
        assert(src@.subrange(0, n as int) =~= src@);
    }
}

/// The table cell text of a dietary flag: `yes` or nothing.
pub open spec fn yes_mark(b: bool) -> Seq<char> {
    if b {
        "yes"@
    } else {
        Seq::<char>::empty()
    }
}

/// The displayed dietary text: the legacy literal `none` displays as
/// nothing.
pub open spec fn dietary_display(d: Seq<char>) -> Seq<char> {
    if d == "none"@ {
        Seq::<char>::empty()
    } else {
        d
    }
}

/// One ticket's table row in the notification.
pub open spec fn ticket_row_chars(t: Ticket) -> Seq<char> {
    "<tr><td>"@ + escape(t.ticket_type.name@) + "</td><td>"@ + yes_mark(t.vegetarian)
        + "</td><td>"@ + yes_mark(t.gluten_free) + "</td><td>"@ + escape(
        dietary_display(t.dietary_requirements@),
    ) + "</td></tr>"@
}

/// All ticket rows, in booking order.
pub open spec fn ticket_rows_chars(ts: Seq<Ticket>) -> Seq<char>
    decreases ts.len(),
{
    if ts.len() == 0 {
        Seq::<char>::empty()
    } else {
        ticket_rows_chars(ts.drop_last()) + ticket_row_chars(ts.last())
    }
}

/// The whole HTML body of the notification: the contact table followed by
/// the ticket table.
pub open spec fn email_html_chars(b: Booking) -> Seq<char> {
    "<div class=\"box\"><div class=\"block\"><h2 class=\"subtitle\">Booking By</h2><table class=\"table\"><thead><tr><th>Name</th><th>EMail</th><th>Phone</th></tr></thead><tbody><tr><td>"@
        + escape(b.contact.name@) + "</td><td>"@ + escape(b.contact.email@) + "</td><td>"@
        + escape(b.contact.phone_no@)
        + "</td></tr></tbody></table></div><div class=\"block\"><h2 class=\"subtitle\">Tickets</h2><table class=\"table\"><thead><tr><th>Ticket Type</th><th>Vegetarian</th><th>Gluten Free</th><th>Notes</th></tr></thead><tbody>"@
        + ticket_rows_chars(b.tickets@) + "</tbody></table></div></div>"@
}

/// Append one ticket's row to the body being built.
fn append_ticket_row(dst: &mut String, t: &Ticket)
    ensures
        final(dst)@ == old(dst)@ + ticket_row_chars(*t),
{
    dst.append("<tr><td>");
    append_escaped(dst, &t.ticket_type.name);
    dst.append("</td><td>");
    if t.vegetarian {
        dst.append("yes");
    }
    dst.append("</td><td>");
    if t.gluten_free {
        dst.append("yes");
    }
    dst.append("</td><td>");
    let none_word = "none".to_owned();
    if !(t.dietary_requirements == none_word) {
        append_escaped(dst, &t.dietary_requirements);
    }
    dst.append("</td></tr>");
    proof {
        if t.dietary_requirements@ == "none"@ {
            assert(escape(dietary_display(t.dietary_requirements@)) =~= Seq::<char>::empty());
        }
        assert(dst@ =~= old(dst)@ + ticket_row_chars(*t));
    }
}

/// Render the booking summary to HTML for the notification email.
pub fn email_html(booking: &Booking) -> (r: String)
    ensures
        r@ == email_html_chars(*booking),
{
    let mut s = String::new();
    s.append(
        "<div class=\"box\"><div class=\"block\"><h2 class=\"subtitle\">Booking By</h2><table class=\"table\"><thead><tr><th>Name</th><th>EMail</th><th>Phone</th></tr></thead><tbody><tr><td>",
    );
    append_escaped(&mut s, &booking.contact.name);
    s.append("</td><td>");
    append_escaped(&mut s, &booking.contact.email);
    s.append("</td><td>");
    append_escaped(&mut s, &booking.contact.phone_no);
    s.append(
        "</td></tr></tbody></table></div><div class=\"block\"><h2 class=\"subtitle\">Tickets</h2><table class=\"table\"><thead><tr><th>Ticket Type</th><th>Vegetarian</th><th>Gluten Free</th><th>Notes</th></tr></thead><tbody>",
    );
    let ghost mid = s@;
    let n = booking.tickets.len();
    for k in 0..n
        invariant
            n == booking.tickets@.len(),
            s@ == mid + ticket_rows_chars(booking.tickets@.subrange(0, k as int)),
    {
        proof {
            assert(booking.tickets@.subrange(0, k as int + 1).drop_last() =~= booking
                .tickets@.subrange(0, k as int));
            assert(booking.tickets@.subrange(0, k as int + 1).last() == booking.tickets@[k as int]);
        }
        append_ticket_row(&mut s, &booking.tickets[k]);
        proof {
            assert(s@ =~= mid + ticket_rows_chars(booking.tickets@.subrange(0, k as int + 1)));
        }
    }
    s.append("</tbody></table></div></div>");
    proof {
        assert(booking.tickets@.subrange(0, n as int) =~= booking.tickets@);
        assert(s@ =~= email_html_chars(*booking));
    }
    s
}

/// SMTP deployment configuration for the notification side-channel.
#[derive(Debug, PartialEq)]
pub struct EmailConfig {
    pub host: String,
    pub port: u16,
    pub user: String,
    pub password: String,
}

/// Whether the four raw configuration values yield a valid configuration:
/// all present, and the port a decimal number in range.
pub open spec fn email_config_ok(
    host: Option<String>,
    port: Option<String>,
    user: Option<String>,
    password: Option<String>,
) -> bool {
    &&& host is Some
    &&& user is Some
    &&& password is Some
    &&& port matches Some(p) && (parse_i64_spec(p@) matches Some(v) && 0 <= v <= u16::MAX)
}

impl EmailConfig {
    /// Build the configuration from raw deployment values; every value is
    /// required and absence is a configuration error, reported for the
    /// first offending value.
    pub fn from_values(
        host: Option<String>,
        port: Option<String>,
        user: Option<String>,
        password: Option<String>,
    ) -> (r: Result<Self, BookingError>)
        ensures
            r is Ok <==> email_config_ok(host, port, user, password),
            match r {
                Ok(c) => {
                    &&& Some(c.host) == host
                    &&& Some(c.user) == user
                    &&& Some(c.password) == password
                    &&& port matches Some(p) && parse_i64_spec(p@) == Some(c.port as i64)
                },
                Err(e) => e is Configuration,
            },
    {
        let host = match host {
            Some(h) => h,
            None => {
                return Err(BookingError::Configuration("email host is missing".to_owned()));
            },
        };
        let port_text = match port {
            Some(p) => p,
            None => {
                return Err(BookingError::Configuration("email port is missing".to_owned()));
            },
        };
        let user = match user {
            Some(u) => u,
            None => {
                return Err(BookingError::Configuration("email user is missing".to_owned()));
            },
        };
        let password = match password {
            Some(p) => p,
            None => {
                return Err(BookingError::Configuration("email password is missing".to_owned()));
            },
        };
        let port = match parse_i64(&port_text) {
            Some(v) => {
                if v < 0 || v > u16::MAX as i64 {
                    return Err(
                        BookingError::Configuration("email port is out of range".to_owned()),
                    );
                }
                v as u16
            },
            None => {
                return Err(
                    BookingError::Configuration("email port is not a number".to_owned()),
                );
            },
        };
        Ok(EmailConfig { host, port, user, password })
    }
}

} // verus!
