# SafeStream Browser

A browser for live streamers: no back/forward, navigation only by typing a URL into a
popup, and only `http`/`https` pages. The decisions are a Verus library, verified against
their contracts; the window and web view code around them is ordinary Rust.

- `src/url_input.rs` — normalizing and checking a typed URL (`normalize_and_validate`),
  over the `url` crate's parser.
- `src/url_popup.rs` — escaping text as a JavaScript string literal, and reading the
  popup's messages.
- `src/browser.rs` — which navigations a page may make, and the main page's messages.
- `src/event.rs`, `src/event_loop.rs` — the application's events and what the event loop
  does with each.
- `src/text.rs` — character helpers (Unicode whitespace, trimming).
- `app/` — windows, web views, menu bar and the event loop itself (`tao`, `wry`, `muda`).
- `tests/` — tests run against the compiled library with the real `url` crate.
