use safestream::url_popup::{js_string_literal, popup_ipc_event};
use safestream::event::UserEvent;

#[test]
fn plain_text_is_quoted() {
    assert_eq!(js_string_literal("abc"), "\"abc\"");
    assert_eq!(js_string_literal(""), "\"\"");
    assert_eq!(js_string_literal("日本語"), "\"日本語\"");
}

#[test]
fn special_characters_are_escaped() {
    assert_eq!(js_string_literal("a\"b"), "\"a\\\"b\"");
    assert_eq!(js_string_literal("a\\b"), "\"a\\\\b\"");
    assert_eq!(js_string_literal("a\nb\rc"), "\"a\\nb\\rc\"");
    assert_eq!(js_string_literal("</script>"), "\"\\u003C/script>\"");
    assert_eq!(js_string_literal("\t\u{0}\u{1f}"), "\"\\u0009\\u0000\\u001f\"");
}

#[test]
fn literal_reads_back_and_is_safe() {
    let s = "x\"</script><y>\\\n\r\t\u{1}é";
    let lit = js_string_literal(s);
    assert!(!lit.contains('<'));
    assert!(lit.chars().all(|c| c as u32 >= 0x20));
    let body = &lit[1..lit.len() - 1];
    let mut out = String::new();
    let mut it = body.chars();
    while let Some(c) = it.next() {
        if c == '\\' {
            match it.next().unwrap() {
                'n' => out.push('\n'),
                'r' => out.push('\r'),
                'u' => {
                    let hex: String = (0..4).map(|_| it.next().unwrap()).collect();
                    out.push(char::from_u32(u32::from_str_radix(&hex, 16).unwrap()).unwrap());
                }
                other => out.push(other),
            }
        } else {
            assert_ne!(c, '"');
            out.push(c);
        }
    }
    assert_eq!(out, s);
}

#[test]
fn popup_messages() {
    assert!(matches!(popup_ipc_event("navigate:example.com"), Some(UserEvent::Navigate(r)) if r == "example.com"));
    assert!(matches!(popup_ipc_event("navigate:"), Some(UserEvent::Navigate(r)) if r.is_empty()));
    assert!(matches!(popup_ipc_event("navigate:  a b "), Some(UserEvent::Navigate(r)) if r == "  a b "));
    assert!(matches!(popup_ipc_event("cancel"), Some(UserEvent::CloseUrlPopup)));
    assert!(popup_ipc_event("cancel ").is_none());
    assert!(popup_ipc_event("navigate").is_none());
    assert!(popup_ipc_event("").is_none());
}
