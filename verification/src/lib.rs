pub mod browser;
pub mod event;
pub mod event_loop;
pub mod text;
pub mod url_input;
pub mod url_popup;
