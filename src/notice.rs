//! The title and body of each notification the user is shown.
use vstd::prelude::*;
use crate::constants::CARGO_PKG_NAME;

verus! {

/// A notification: a title over a line of text.
#[derive(Debug, Clone, PartialEq, Eq)]
pub struct Notice {
    pub title: String,
    pub body: String,
}

/// The title of an error notification.
pub open spec fn error_title() -> Seq<char> {
    CARGO_PKG_NAME@ + " Error"@
}

/// The body of an error notification about `err`.
pub open spec fn error_body(err: Seq<char>) -> Seq<char> {
    "An error occurred: "@ + err
}

/// The notification that shows `title` over `body`.
pub fn show_simple_notification(title: &str, body: &str) -> (r: Notice)
    ensures
        r.title@ == title@,
        r.body@ == body@,
{
    Notice { title: String::from_str(title), body: String::from_str(body) }
}

/// The notification that reports the error described by `err`.
pub fn show_error_notification(err: &str) -> (r: Notice)
    ensures
        r.title@ == error_title(),
        r.body@ == error_body(err@),
{
    let mut title = String::from_str(CARGO_PKG_NAME);
    title.append(" Error");
    let mut body = String::from_str("An error occurred: ");
    body.append(err);
    show_simple_notification(title.as_str(), body.as_str())
}

} // verus!
