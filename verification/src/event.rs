use vstd::prelude::*;

verus! {

/// The application's own events, handled in the event loop.
#[derive(Debug, Clone)]
pub enum UserEvent {
    /// Open the popup for typing a URL (or bring it to the front if it is open).
    OpenUrlPopup,
    /// Close the popup.
    CloseUrlPopup,
    /// Navigate the main view to the typed text, once it has been normalized and checked.
    Navigate(String),
}

/// The mathematical form of [`UserEvent`].
pub enum UserEventView {
    OpenUrlPopup,
    CloseUrlPopup,
    Navigate(Seq<char>),
}

impl View for UserEvent {
    type V = UserEventView;

    open spec fn view(&self) -> UserEventView {
        match self {
            UserEvent::OpenUrlPopup => UserEventView::OpenUrlPopup,
            UserEvent::CloseUrlPopup => UserEventView::CloseUrlPopup,
            UserEvent::Navigate(raw) => UserEventView::Navigate(raw@),
        }
    }
}

pub open spec fn opt_event(e: Option<UserEvent>) -> Option<UserEventView> {
    match e {
        Some(ev) => Some(ev@),
        None => None,
    }
}

} // verus!
