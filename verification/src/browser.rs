use vstd::prelude::*;

use crate::event::{opt_event, UserEvent, UserEventView};
use crate::text::str_equal;
use crate::url_input::{allowed_scheme, navigation_allowed, parse_url};

verus! {

broadcast use vstd::string::group_string_axioms;

/// Whether the browser may follow a navigation to `url` (a link, a redirect, ...): only
/// `http` and `https` URLs are allowed, so that no page can open local files or run
/// `javascript:` code.
pub fn is_navigation_allowed(url: String) -> (r: bool)
    ensures
        r == navigation_allowed(url@),
{
    match parse_url(url.as_str()) {
        Some(p) => allowed_scheme(p.scheme.as_str()),
        None => false,
    }
}

/// The event that a message from the "open URL" button of the main page stands for.
pub open spec fn main_page_message(body: Seq<char>) -> Option<UserEventView> {
    if body == "open-url-popup"@ {
        Some(UserEventView::OpenUrlPopup)
    } else {
        None
    }
}

/// Reads a message posted by the button that every page of the main view carries.
pub fn main_ipc_event(body: &str) -> (e: Option<UserEvent>)
    ensures
        opt_event(e) == main_page_message(body@),
{
    if str_equal(body, "open-url-popup") {
        Some(UserEvent::OpenUrlPopup)
    } else {
        None
    }
}

/// The main page's button message `open-url-popup`, and nothing else, asks for the popup.
pub proof fn lemma_main_page_messages(body: Seq<char>)
    ensures
        main_page_message("open-url-popup"@) == Some(UserEventView::OpenUrlPopup),
        body != "open-url-popup"@ ==> main_page_message(body) is None,
{
}

} // verus!
