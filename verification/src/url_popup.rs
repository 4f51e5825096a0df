use vstd::prelude::*;

use crate::event::{opt_event, UserEvent, UserEventView};
use crate::text::{push_char, starts_with};

verus! {

broadcast use vstd::string::group_string_axioms;

/// The lower-case hexadecimal digit for `n` (`0 <= n < 16`).
pub open spec fn hex_digit(n: int) -> char {
    "0123456789abcdef"@[n]
}

/// How one character is written inside a double-quoted JavaScript string literal.
pub open spec fn escape_char(c: char) -> Seq<char> {
    if c == '"' {
        seq!['\\', '"']
    } else if c == '\\' {
        seq!['\\', '\\']
    } else if c == '\n' {
        seq!['\\', 'n']
    } else if c == '\r' {
        seq!['\\', 'r']
    } else if c == '<' {
        seq!['\\', 'u', '0', '0', '3', 'C']
    } else if (c as int) < 0x20 {
        seq!['\\', 'u', '0', '0', hex_digit((c as int) / 16), hex_digit((c as int) % 16)]
    } else {
        seq![c]
    }
}

/// The characters of `s`, each escaped.
pub open spec fn escaped(s: Seq<char>) -> Seq<char>
    decreases s.len(),
{
    if s.len() == 0 {
        Seq::empty()
    } else {
        escaped(s.drop_last()) + escape_char(s.last())
    }
}

/// The double-quoted JavaScript string literal that denotes `s`.
pub open spec fn js_literal(s: Seq<char>) -> Seq<char> {
    seq!['"'] + escaped(s) + seq!['"']
}

/// The Unicode code point of `c`.
pub fn code_point(c: char) -> (u: u32)
    ensures
        u as int == c as int,
{
    c as u32
}

/// Escapes `s` so that it can be embedded in a script as a JavaScript string literal.
///
/// The error messages that the popup shows may hold the user's own input, so every text
/// goes through this before it reaches `evaluate_script`: quotes, backslashes and control
/// characters are escaped, and so is `<`, so that no `</script>` can appear.
pub fn js_string_literal(s: &str) -> (out: String)
    ensures
        out@ == js_literal(s@),
{
    let hex = "0123456789abcdef";
    let mut out = String::new();
    push_char(&mut out, '"');
    for c in it: s.chars()
        invariant
            it.seq() == s@,
            hex@ == "0123456789abcdef"@,
            out@ == seq!['"'] + escaped(s@.take(it.index() as int)),
    {
        let ghost before = out@;
        let ghost i = it.index() as int;
        proof {
            reveal_strlit("0123456789abcdef");
            reveal_strlit("\\\"");
            reveal_strlit("\\\\");
            reveal_strlit("\\n");
            reveal_strlit("\\r");
            reveal_strlit("\\u003C");
            reveal_strlit("\\u00");
        }
        if c == '"' {
            out.append("\\\"");
        } else if c == '\\' {
            out.append("\\\\");
        } else if c == '\n' {
            out.append("\\n");
        } else if c == '\r' {
            out.append("\\r");
        } else if c == '<' {
            out.append("\\u003C");
        } else if code_point(c) < 0x20 {
            let u = code_point(c);
            out.append("\\u00");
            assert("\\u00"@ =~= seq!['\\', 'u', '0', '0']);
            assert(u as int == c as int);
            let d1 = hex.get_char((u / 16) as usize);
            let d2 = hex.get_char((u % 16) as usize);
            assert(d1 == hex_digit((c as int) / 16));
            assert(d2 == hex_digit((c as int) % 16));
            push_char(&mut out, d1);
            push_char(&mut out, d2);
            assert(out@ =~= before + escape_char(c));
        } else {
            push_char(&mut out, c);
        }
        proof {
            assert(s@.take(i + 1).drop_last() == s@.take(i));
            assert(s@.take(i + 1).last() == c);
            assert(out@ =~= before + escape_char(c));
        }
    }
    assert(s@.take(s@.len() as int) == s@);
    push_char(&mut out, '"');
    out
}

/// The value of a hexadecimal digit (either case), or `-1` for any other character.
pub open spec fn hex_value(c: char) -> int {
    if '0' <= c <= '9' {
        c as int - '0' as int
    } else if 'a' <= c <= 'f' {
        c as int - 'a' as int + 10
    } else if 'A' <= c <= 'F' {
        c as int - 'A' as int + 10
    } else {
        -1
    }
}

pub open spec fn prepend(c: char, rest: Option<Seq<char>>) -> Option<Seq<char>> {
    match rest {
        Some(r) => Some(seq![c] + r),
        None => None,
    }
}

/// The text that the body of a JavaScript string literal denotes, reading the escapes
/// `\"`, `\\`, `\n`, `\r` and `\uXXXX`; `None` where the body is not well formed (a
/// bare `"` or control character, or an unknown escape).
pub open spec fn unescaped(t: Seq<char>) -> Option<Seq<char>>
    decreases t.len(),
{
    if t.len() == 0 {
        Some(Seq::empty())
    } else if t[0] == '\\' {
        if t.len() < 2 {
            None
        } else if t[1] == '"' || t[1] == '\\' {
            prepend(t[1], unescaped(t.skip(2)))
        } else if t[1] == 'n' {
            prepend('\n', unescaped(t.skip(2)))
        } else if t[1] == 'r' {
            prepend('\r', unescaped(t.skip(2)))
        } else if t[1] == 'u' && t.len() >= 6 && hex_value(t[2]) >= 0 && hex_value(t[3]) >= 0
            && hex_value(t[4]) >= 0 && hex_value(t[5]) >= 0 {
            let code = hex_value(t[2]) * 4096 + hex_value(t[3]) * 256 + hex_value(t[4]) * 16
                + hex_value(t[5]);
            prepend(code as char, unescaped(t.skip(6)))
        } else {
            None
        }
    } else if t[0] == '"' || (t[0] as int) < 0x20 {
        None
    } else {
        prepend(t[0], unescaped(t.skip(1)))
    }
}

/// The text that a double-quoted JavaScript string literal denotes.
pub open spec fn literal_value(lit: Seq<char>) -> Option<Seq<char>> {
    if lit.len() >= 2 && lit[0] == '"' && lit.last() == '"' {
        unescaped(lit.subrange(1, lit.len() - 1))
    } else {
        None
    }
}

proof fn lemma_escaped_front(c: char, s: Seq<char>)
    ensures
        escaped(seq![c] + s) == escape_char(c) + escaped(s),
    decreases s.len(),
{
    if s.len() == 0 {
        assert(seq![c] + s == seq![c]);
        assert(seq![c].drop_last() == Seq::<char>::empty());
        assert(escaped(Seq::<char>::empty()) == Seq::<char>::empty());
        assert(escape_char(c) + Seq::<char>::empty() == escape_char(c));
    } else {
        assert((seq![c] + s).drop_last() == seq![c] + s.drop_last());
        assert((seq![c] + s).last() == s.last());
        lemma_escaped_front(c, s.drop_last());
        assert(escape_char(c) + escaped(s.drop_last()) + escape_char(s.last()) == escape_char(c)
            + escaped(s));
    }
}

proof fn lemma_hex_digit_value(n: int)
    requires
        0 <= n < 16,
    ensures
        hex_value(hex_digit(n)) == n,
{
    reveal_strlit("0123456789abcdef");
    if n < 8 {
        if n < 4 {
            assert(n == 0 || n == 1 || n == 2 || n == 3);
        } else {
            assert(n == 4 || n == 5 || n == 6 || n == 7);
        }
    } else {
        if n < 12 {
            assert(n == 8 || n == 9 || n == 10 || n == 11);
        } else {
            assert(n == 12 || n == 13 || n == 14 || n == 15);
        }
    }
}

proof fn lemma_unescape_one(c: char, e: Seq<char>)
    ensures
        unescaped(escape_char(c) + e) == prepend(c, unescaped(e)),
{
    let t = escape_char(c) + e;
    let k = escape_char(c).len() as int;
    assert(t.skip(k) == e);
    if c == '"' || c == '\\' || c == '\n' || c == '\r' {
    } else if c == '<' {
        assert(hex_value('3') == 3);
        assert(hex_value('C') == 12);
        assert(('<' as int) == 0x3C);
        assert((0x3Cint as char) == '<');
    } else if (c as int) < 0x20 {
        let u = c as int;
        lemma_hex_digit_value(u / 16);
        lemma_hex_digit_value(u % 16);
        assert(t[4] == hex_digit(u / 16));
        assert(t[5] == hex_digit(u % 16));
        assert((u / 16) * 16 + u % 16 == u);
        assert((u as char) == c);
    } else {
    }
}

proof fn lemma_unescape_escaped(s: Seq<char>)
    ensures
        unescaped(escaped(s)) == Some(s),
    decreases s.len(),
{
    if s.len() == 0 {
    } else {
        let rest = s.drop_first();
        assert(s == seq![s[0]] + rest);
        lemma_escaped_front(s[0], rest);
        lemma_unescape_escaped(rest);
        lemma_unescape_one(s[0], escaped(rest));
    }
}

/// Reading back the literal gives the original text: the escaping loses nothing and adds
/// nothing.
pub proof fn lemma_js_literal_round_trip(s: Seq<char>)
    ensures
        literal_value(js_literal(s)) == Some(s),
{
    let lit = js_literal(s);
    assert(lit.subrange(1, lit.len() - 1) == escaped(s));
    lemma_unescape_escaped(s);
}

/// Neither `<` nor a control character (below U+0020) occurs in `t`.
pub open spec fn safe_to_embed(t: Seq<char>) -> bool {
    forall|i: int| 0 <= i < t.len() ==> #[trigger] t[i] != '<' && (t[i] as int) >= 0x20
}

proof fn lemma_escape_char_safe(c: char)
    ensures
        safe_to_embed(escape_char(c)),
{
    if !(c == '"' || c == '\\' || c == '\n' || c == '\r' || c == '<') && (c as int) < 0x20 {
        let u = c as int;
        reveal_strlit("0123456789abcdef");
        assert(0 <= u / 16 < 2);
        assert(hex_digit(u / 16) == '0' || hex_digit(u / 16) == '1');
        lemma_hex_digit_value(u % 16);
        assert(hex_value(hex_digit(u % 16)) >= 0);
    }
}

proof fn lemma_escaped_safe(s: Seq<char>)
    ensures
        safe_to_embed(escaped(s)),
    decreases s.len(),
{
    if s.len() > 0 {
        lemma_escaped_safe(s.drop_last());
        lemma_escape_char_safe(s.last());
        let a = escaped(s.drop_last());
        let b = escape_char(s.last());
        assert forall|i: int| 0 <= i < (a + b).len() implies #[trigger] (a + b)[i] != '<' && ((
        a + b)[i] as int) >= 0x20 by {
            if i < a.len() {
                assert((a + b)[i] == a[i]);
            } else {
                assert((a + b)[i] == b[i - a.len()]);
            }
        }
    }
}

/// The literal holds no `<` (so no `</script>` can close the page's script) and no control
/// character (so it stays on one line).
pub proof fn lemma_js_literal_is_safe_to_embed(s: Seq<char>)
    ensures
        safe_to_embed(js_literal(s)),
{
    lemma_escaped_safe(s);
    let e = escaped(s);
    let lit = js_literal(s);
    assert forall|i: int| 0 <= i < lit.len() implies #[trigger] lit[i] != '<' && (lit[i] as int)
        >= 0x20 by {
        if 0 < i < lit.len() - 1 {
            assert(lit[i] == e[i - 1]);
        }
    }
}

/// The event that a message posted by the popup's page stands for: `navigate:` followed
/// by the typed text, or `cancel`. The typed text is passed on as it is; it is checked
/// only where it is used, by `normalize_and_validate`.
pub open spec fn popup_message(body: Seq<char>) -> Option<UserEventView> {
    if body.len() >= 9 && body.take(9) == "navigate:"@ {
        Some(UserEventView::Navigate(body.skip(9)))
    } else if body == "cancel"@ {
        Some(UserEventView::CloseUrlPopup)
    } else {
        None
    }
}

/// Reads a message posted by the popup's page.
pub fn popup_ipc_event(body: &str) -> (e: Option<UserEvent>)
    ensures
        opt_event(e) == popup_message(body@),
{
    proof {
        reveal_strlit("navigate:");
    }
    if starts_with(body, "navigate:") {
        let raw = body.substring_char(9, body.unicode_len());
        assert(raw@ == body@.skip(9));
        Some(UserEvent::Navigate(String::from_str(raw)))
    } else if crate::text::str_equal(body, "cancel") {
        Some(UserEvent::CloseUrlPopup)
    } else {
        None
    }
}

/// A message `navigate:` followed by any text is read as a request to navigate to that
/// whole text, `:` and all; `cancel` is read as closing the popup; a message that is
/// neither is ignored.
pub proof fn lemma_popup_messages(x: Seq<char>, body: Seq<char>)
    ensures
        popup_message("navigate:"@ + x) == Some(UserEventView::Navigate(x)),
        popup_message("cancel"@) == Some(UserEventView::CloseUrlPopup),
        !(exists|y: Seq<char>| body == "navigate:"@ + y) && body != "cancel"@ ==> popup_message(
            body,
        ) is None,
{
    reveal_strlit("navigate:");
    reveal_strlit("cancel");
    let m = "navigate:"@ + x;
    assert(m.take(9) == "navigate:"@);
    assert(m.skip(9) == x);
    if body.len() >= 9 && body.take(9) == "navigate:"@ {
        assert(body == "navigate:"@ + body.skip(9));
    }
}

/// Text without `"`, `\`, `<` or control characters is only put between quotes.
pub proof fn lemma_plain_text_is_only_quoted(s: Seq<char>)
    requires
        forall|i: int|
            0 <= i < s.len() ==> #[trigger] s[i] != '"' && s[i] != '\\' && s[i] != '<' && (
            s[i] as int) >= 0x20,
    ensures
        js_literal(s) == seq!['"'] + s + seq!['"'],
{
    lemma_plain_escaped(s);
}

proof fn lemma_plain_escaped(s: Seq<char>)
    requires
        forall|i: int|
            0 <= i < s.len() ==> #[trigger] s[i] != '"' && s[i] != '\\' && s[i] != '<' && (
            s[i] as int) >= 0x20,
    ensures
        escaped(s) == s,
    decreases s.len(),
{
    if s.len() > 0 {
        let p = s.drop_last();
        assert forall|i: int| 0 <= i < p.len() implies #[trigger] p[i] != '"' && p[i] != '\\'
            && p[i] != '<' && (p[i] as int) >= 0x20 by {
            assert(p[i] == s[i]);
        }
        lemma_plain_escaped(p);
        assert(s.last() == s[s.len() - 1]);
        assert(p + seq![s.last()] == s);
    }
}

/// How each special character is written: `"` as `\"`, `\` as `\\`, line feed as `\n`,
/// carriage return as `\r`, `<` as `\u003C`, and any other control character as `\u00`
/// followed by the two lower-case hexadecimal digits of its code.
pub proof fn lemma_special_character_escapes(c: char)
    ensures
        js_literal(seq!['"']) == seq!['"', '\\', '"', '"'],
        js_literal(seq!['\\']) == seq!['"', '\\', '\\', '"'],
        js_literal(seq!['\n']) == seq!['"', '\\', 'n', '"'],
        js_literal(seq!['\r']) == seq!['"', '\\', 'r', '"'],
        js_literal(seq!['<']) == seq!['"', '\\', 'u', '0', '0', '3', 'C', '"'],
        c != '\n' && c != '\r' && (c as int) < 0x20 ==> {
            let lit = js_literal(seq![c]);
            &&& lit.len() == 8
            &&& lit.take(5) == seq!['"', '\\', 'u', '0', '0']
            &&& lit[7] == '"'
            &&& ('0' <= lit[5] <= '9' || 'a' <= lit[5] <= 'f')
            &&& ('0' <= lit[6] <= '9' || 'a' <= lit[6] <= 'f')
            &&& hex_value(lit[5]) * 16 + hex_value(lit[6]) == c as int
        },
{
    assert forall|d: char| #[trigger] escaped(seq![d]) == escape_char(d) by {
        assert(seq![d].drop_last() == Seq::<char>::empty());
        assert(seq![d].last() == d);
        assert(escaped(Seq::<char>::empty()) == Seq::<char>::empty());
        assert(Seq::<char>::empty() + escape_char(d) == escape_char(d));
    }
    if c != '\n' && c != '\r' && (c as int) < 0x20 {
        let u = c as int;
        reveal_strlit("0123456789abcdef");
        lemma_hex_digit_value(u / 16);
        lemma_hex_digit_value(u % 16);
        let lit = js_literal(seq![c]);
        assert(lit.take(5) =~= seq!['"', '\\', 'u', '0', '0']);
        assert(lit[5] == hex_digit(u / 16));
        assert(lit[6] == hex_digit(u % 16));
    }
}

} // verus!
