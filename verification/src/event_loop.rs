use vstd::prelude::*;

use crate::event::{UserEvent, UserEventView};
use crate::url_input::{
    error_message, normalize_and_validate, normalized, starts_with_web_scheme, UrlInputError,
    UrlInputErrorView,
};
use crate::url_popup::{
    js_literal, js_string_literal, lemma_js_literal_is_safe_to_embed, lemma_js_literal_round_trip,
    literal_value, safe_to_embed,
};

verus! {

broadcast use vstd::string::group_string_axioms;

/// Which window a window event concerns.
#[derive(Clone, Copy, Debug, PartialEq, Eq, Structural)]
pub enum WindowRole {
    /// The main browser window.
    Main,
    /// The open URL popup.
    Popup,
    /// Any other window.
    Other,
}

/// What the event loop hands to [`next_action`].
pub enum LoopEvent {
    /// The user asked to close a window.
    CloseRequested(WindowRole),
    /// One of the application's own events.
    User(UserEvent),
}

pub enum LoopEventView {
    CloseRequested(WindowRole),
    User(UserEventView),
}

impl View for LoopEvent {
    type V = LoopEventView;

    open spec fn view(&self) -> LoopEventView {
        match self {
            LoopEvent::CloseRequested(w) => LoopEventView::CloseRequested(*w),
            LoopEvent::User(e) => LoopEventView::User(e@),
        }
    }
}

/// What the event loop is to do next.
#[derive(Debug)]
pub enum LoopAction {
    /// Leave the event loop (the application ends).
    Exit,
    /// Close the URL popup.
    ClosePopup,
    /// Bring the open URL popup to the front.
    FocusPopup,
    /// Create the URL popup.
    OpenPopup,
    /// Load this URL in the main view, then close the popup.
    LoadUrl(String),
    /// Run this script in the popup's page, to show why the input was refused.
    ShowPopupError(String),
    /// Nothing to do.
    Nothing,
}

pub enum LoopActionView {
    Exit,
    ClosePopup,
    FocusPopup,
    OpenPopup,
    LoadUrl(Seq<char>),
    ShowPopupError(Seq<char>),
    Nothing,
}

impl View for LoopAction {
    type V = LoopActionView;

    open spec fn view(&self) -> LoopActionView {
        match self {
            LoopAction::Exit => LoopActionView::Exit,
            LoopAction::ClosePopup => LoopActionView::ClosePopup,
            LoopAction::FocusPopup => LoopActionView::FocusPopup,
            LoopAction::OpenPopup => LoopActionView::OpenPopup,
            LoopAction::LoadUrl(u) => LoopActionView::LoadUrl(u@),
            LoopAction::ShowPopupError(s) => LoopActionView::ShowPopupError(s@),
            LoopAction::Nothing => LoopActionView::Nothing,
        }
    }
}

/// The script that shows an error in the popup: `showError(<message as a literal>)`.
pub open spec fn popup_error_script(e: UrlInputErrorView) -> Seq<char> {
    "showError("@ + js_literal(error_message(e)) + ")"@
}

/// Builds the script that shows `err` in the popup.
pub fn error_script(err: &UrlInputError) -> (s: String)
    ensures
        s@ == popup_error_script(err@),
{
    let mut s = String::from_str("showError(");
    let msg = err.message();
    let lit = js_string_literal(msg.as_str());
    s.append(lit.as_str());
    s.append(")");
    s
}

/// How the event loop answers `event`, given whether the URL popup is open.
pub open spec fn loop_step(popup_open: bool, event: LoopEventView) -> LoopActionView {
    match event {
        LoopEventView::CloseRequested(WindowRole::Main) => LoopActionView::Exit,
        LoopEventView::CloseRequested(WindowRole::Popup) => if popup_open {
            LoopActionView::ClosePopup
        } else {
            LoopActionView::Nothing
        },
        LoopEventView::CloseRequested(WindowRole::Other) => LoopActionView::Nothing,
        LoopEventView::User(UserEventView::OpenUrlPopup) => if popup_open {
            LoopActionView::FocusPopup
        } else {
            LoopActionView::OpenPopup
        },
        LoopEventView::User(UserEventView::CloseUrlPopup) => LoopActionView::ClosePopup,
        LoopEventView::User(UserEventView::Navigate(raw)) => match normalized(raw) {
            Ok(u) => LoopActionView::LoadUrl(u),
            Err(e) => if popup_open {
                LoopActionView::ShowPopupError(popup_error_script(e))
            } else {
                LoopActionView::Nothing
            },
        },
    }
}

/// Decides what the event loop does with `event`. Closing the main window ends the
/// application; a typed URL is loaded only once it has been normalized and checked, and
/// otherwise the reason is shown in the popup.
pub fn next_action(popup_open: bool, event: LoopEvent) -> (a: LoopAction)
    ensures
        a@ == loop_step(popup_open, event@),
        a matches LoopAction::LoadUrl(u) ==> starts_with_web_scheme(u@),
{
    match event {
        LoopEvent::CloseRequested(WindowRole::Main) => LoopAction::Exit,
        LoopEvent::CloseRequested(WindowRole::Popup) => {
            if popup_open {
                LoopAction::ClosePopup
            } else {
                LoopAction::Nothing
            }
        },
        LoopEvent::CloseRequested(WindowRole::Other) => LoopAction::Nothing,
        LoopEvent::User(UserEvent::OpenUrlPopup) => {
            if popup_open {
                LoopAction::FocusPopup
            } else {
                LoopAction::OpenPopup
            }
        },
        LoopEvent::User(UserEvent::CloseUrlPopup) => LoopAction::ClosePopup,
        LoopEvent::User(UserEvent::Navigate(raw)) => match normalize_and_validate(raw.as_str()) {
            Ok(url) => LoopAction::LoadUrl(url),
            Err(err) => {
                if popup_open {
                    LoopAction::ShowPopupError(error_script(&err))
                } else {
                    LoopAction::Nothing
                }
            },
        },
    }
}

/// The error script hands `showError` the error's message as a literal that reads back as
/// exactly that message and holds no `<` or control character.
pub proof fn lemma_error_script_carries_message(e: UrlInputErrorView)
    ensures
        ({
            let lit = js_literal(error_message(e));
            &&& popup_error_script(e) == "showError("@ + lit + ")"@
            &&& literal_value(lit) == Some(error_message(e))
            &&& safe_to_embed(lit)
        }),
{
    lemma_js_literal_round_trip(error_message(e));
    lemma_js_literal_is_safe_to_embed(error_message(e));
}

/// A typed URL that is accepted is loaded, whether or not the popup is open; one that is
/// refused, for whatever reason, is explained in the open popup by
/// `showError(<message as a literal>)`, and changes nothing when no popup is open.
pub proof fn lemma_typed_urls_are_loaded_or_explained(raw: Seq<char>)
    ensures
        normalized(raw) matches Ok(u) ==> loop_step(
            true,
            LoopEventView::User(UserEventView::Navigate(raw)),
        ) == LoopActionView::LoadUrl(u) && loop_step(
            false,
            LoopEventView::User(UserEventView::Navigate(raw)),
        ) == LoopActionView::LoadUrl(u),
        normalized(raw) matches Err(e) ==> loop_step(
            true,
            LoopEventView::User(UserEventView::Navigate(raw)),
        ) == LoopActionView::ShowPopupError(
            "showError("@ + js_literal(error_message(e)) + ")"@,
        ) && loop_step(false, LoopEventView::User(UserEventView::Navigate(raw)))
            == LoopActionView::Nothing,
{
}

/// The popup is closed only when its window is closed or it asks to close; the application
/// ends only when the main window is closed; and opening the popup while it is open only
/// brings it to the front.
pub proof fn lemma_what_closes_and_what_ends(popup_open: bool, event: LoopEventView)
    ensures
        loop_step(popup_open, event) is ClosePopup ==> event == LoopEventView::CloseRequested(
            WindowRole::Popup,
        ) || event == LoopEventView::User(UserEventView::CloseUrlPopup),
        loop_step(popup_open, event) is Exit <==> event == LoopEventView::CloseRequested(
            WindowRole::Main,
        ),
        event == LoopEventView::User(UserEventView::OpenUrlPopup) ==> loop_step(popup_open, event)
            == (if popup_open {
            LoopActionView::FocusPopup
        } else {
            LoopActionView::OpenPopup
        }),
        event == LoopEventView::User(UserEventView::CloseUrlPopup) ==> loop_step(popup_open, event)
            is ClosePopup,
        popup_open && event == LoopEventView::CloseRequested(WindowRole::Popup) ==> loop_step(
            popup_open,
            event,
        ) is ClosePopup,
        !popup_open && event == LoopEventView::CloseRequested(WindowRole::Popup) ==> loop_step(
            popup_open,
            event,
        ) is Nothing,
        event == LoopEventView::CloseRequested(WindowRole::Other) ==> loop_step(popup_open, event)
            is Nothing,
{
}

} // verus!
