use safestream::browser::{is_navigation_allowed, main_ipc_event};
use safestream::event::UserEvent;
use safestream::event_loop::{error_script, next_action, LoopAction, LoopEvent, WindowRole};
use safestream::url_input::UrlInputError;

#[test]
fn navigation_is_limited_to_web_schemes() {
    assert!(is_navigation_allowed("https://example.com/".to_string()));
    assert!(is_navigation_allowed("http://example.com/a?b".to_string()));
    assert!(!is_navigation_allowed("file:///etc/passwd".to_string()));
    assert!(!is_navigation_allowed("javascript:alert(1)".to_string()));
    assert!(!is_navigation_allowed("about:blank".to_string()));
    assert!(!is_navigation_allowed("example.com".to_string()));
}

#[test]
fn main_page_button_message() {
    assert!(matches!(main_ipc_event("open-url-popup"), Some(UserEvent::OpenUrlPopup)));
    assert!(main_ipc_event("open-url-popup ").is_none());
    assert!(main_ipc_event("navigate:x").is_none());
}

#[test]
fn window_close_requests() {
    assert!(matches!(next_action(false, LoopEvent::CloseRequested(WindowRole::Main)), LoopAction::Exit));
    assert!(matches!(next_action(true, LoopEvent::CloseRequested(WindowRole::Main)), LoopAction::Exit));
    assert!(matches!(next_action(true, LoopEvent::CloseRequested(WindowRole::Popup)), LoopAction::ClosePopup));
    assert!(matches!(next_action(false, LoopEvent::CloseRequested(WindowRole::Popup)), LoopAction::Nothing));
    assert!(matches!(next_action(true, LoopEvent::CloseRequested(WindowRole::Other)), LoopAction::Nothing));
}

#[test]
fn popup_open_and_close() {
    assert!(matches!(next_action(false, LoopEvent::User(UserEvent::OpenUrlPopup)), LoopAction::OpenPopup));
    assert!(matches!(next_action(true, LoopEvent::User(UserEvent::OpenUrlPopup)), LoopAction::FocusPopup));
    assert!(matches!(next_action(true, LoopEvent::User(UserEvent::CloseUrlPopup)), LoopAction::ClosePopup));
    assert!(matches!(next_action(false, LoopEvent::User(UserEvent::CloseUrlPopup)), LoopAction::ClosePopup));
}

#[test]
fn typed_url_is_loaded_or_explained() {
    let nav = |s: &str| LoopEvent::User(UserEvent::Navigate(s.to_string()));
    assert!(matches!(next_action(true, nav(" example.com ")), LoopAction::LoadUrl(u) if u == "https://example.com/"));
    assert!(matches!(next_action(false, nav("example.com")), LoopAction::LoadUrl(u) if u == "https://example.com/"));
    assert!(matches!(
        next_action(true, nav("file:///etc/passwd")),
        LoopAction::ShowPopupError(s) if s == "showError(\"許可されていないスキームです: file（http / https のみ許可）\")"
    ));
    assert!(matches!(next_action(false, nav("file:///etc/passwd")), LoopAction::Nothing));
    assert!(matches!(
        next_action(true, nav("   ")),
        LoopAction::ShowPopupError(s) if s == "showError(\"URLを入力してください\")"
    ));
}

#[test]
fn error_script_escapes_user_input() {
    assert_eq!(
        error_script(&UrlInputError::InvalidUrl("<b>\"x\"".to_string())),
        "showError(\"URLとして解釈できません: \\u003Cb>\\\"x\\\"\")"
    );
}
