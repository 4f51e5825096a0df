use vstd::prelude::*;

use crate::text::{
    all_white_space, chars_of, contains_char, lemma_trimmed_empty_iff_white_space,
    lemma_trimmed_ignores_surrounding_white_space, str_equal, string_of, trim_chars, trimmed,
};

verus! {

broadcast use vstd::string::group_string_axioms;

/// Why a typed address was refused.
#[derive(Debug, PartialEq, Eq)]
pub enum UrlInputError {
    /// Nothing but whitespace was typed.
    Empty,
    /// The (trimmed) input cannot be read as an absolute URL with a host.
    InvalidUrl(String),
    /// The URL's scheme, which is neither `http` nor `https`.
    UnsupportedScheme(String),
}

/// The mathematical form of [`UrlInputError`].
pub enum UrlInputErrorView {
    Empty,
    InvalidUrl(Seq<char>),
    UnsupportedScheme(Seq<char>),
}

impl View for UrlInputError {
    type V = UrlInputErrorView;

    open spec fn view(&self) -> UrlInputErrorView {
        match self {
            UrlInputError::Empty => UrlInputErrorView::Empty,
            UrlInputError::InvalidUrl(raw) => UrlInputErrorView::InvalidUrl(raw@),
            UrlInputError::UnsupportedScheme(scheme) => UrlInputErrorView::UnsupportedScheme(
                scheme@,
            ),
        }
    }
}

/// The text shown to the user for an error.
pub open spec fn error_message(e: UrlInputErrorView) -> Seq<char> {
    match e {
        UrlInputErrorView::Empty => "URLを入力してください"@,
        UrlInputErrorView::InvalidUrl(raw) => "URLとして解釈できません: "@ + raw,
        UrlInputErrorView::UnsupportedScheme(scheme) => "許可されていないスキームです: "@ + scheme
            + "（http / https のみ許可）"@,
    }
}

impl UrlInputError {
    /// The message that tells the user why the input was refused.
    pub fn message(&self) -> (m: String)
        ensures
            m@ == error_message(self@),
    {
        match self {
            UrlInputError::Empty => String::from_str("URLを入力してください"),
            UrlInputError::InvalidUrl(raw) => {
                let mut m = String::from_str("URLとして解釈できません: ");
                m.append(raw.as_str());
                m
            },
            UrlInputError::UnsupportedScheme(scheme) => {
                let mut m = String::from_str("許可されていないスキームです: ");
                m.append(scheme.as_str());
                m.append("（http / https のみ許可）");
                m
            },
        }
    }
}

/// Index of the first character of `s` that lies in `stops`, or `s.len()`.
pub open spec fn position_in(s: Seq<char>, stops: Set<char>) -> int
    decreases s.len(),
{
    if s.len() == 0 {
        0
    } else if stops.contains(s[0]) {
        0
    } else {
        1 + position_in(s.drop_first(), stops)
    }
}

/// The characters that end the port part of `host:port/...`.
pub open spec fn port_delimiters() -> Set<char> {
    set!['/', '?', '#']
}

pub open spec fn is_ascii_digit(c: char) -> bool {
    '0' <= c <= '9'
}

/// The text between the first `:` of `s` and the next `/`, `?` or `#` (or the end).
pub open spec fn port_part(s: Seq<char>) -> Seq<char> {
    let after = s.skip(position_in(s, set![':']) + 1);
    after.take(position_in(after, port_delimiters()))
}

/// `s` has a `:` whose following part, up to `/`, `?` or `#`, is a non-empty run of
/// ASCII digits: the `host:port` form.
pub open spec fn numeric_port(s: Seq<char>) -> bool {
    &&& position_in(s, set![':']) < s.len()
    &&& port_part(s).len() > 0
    &&& forall|i: int| 0 <= i < port_part(s).len() ==> is_ascii_digit(#[trigger] port_part(s)[i])
}

proof fn lemma_position_step(s: Seq<char>, stops: Set<char>, i: int)
    requires
        0 <= i < s.len(),
        !stops.contains(s[i]),
    ensures
        position_in(s.skip(i), stops) == 1 + position_in(s.skip(i + 1), stops),
{
    assert(s.skip(i).drop_first() == s.skip(i + 1));
}

proof fn lemma_position_bound(s: Seq<char>, stops: Set<char>)
    ensures
        0 <= position_in(s, stops) <= s.len(),
        forall|j: int| 0 <= j < position_in(s, stops) ==> !stops.contains(#[trigger] s[j]),
        position_in(s, stops) < s.len() ==> stops.contains(s[position_in(s, stops)]),
    decreases s.len(),
{
    if s.len() > 0 && !stops.contains(s[0]) {
        lemma_position_bound(s.drop_first(), stops);
        assert forall|j: int| 0 <= j < position_in(s, stops) implies !stops.contains(
            #[trigger] s[j],
        ) by {
            if j > 0 {
                assert(s[j] == s.drop_first()[j - 1]);
            }
        }
    }
}

/// Index of the first of `c1`, `c2`, `c3` in `s[from..]`, or `s.len()`.
fn find_from(s: &[char], from: usize, c1: char, c2: char, c3: char) -> (r: usize)
    requires
        from <= s@.len(),
    ensures
        r == from + position_in(s@.skip(from as int), set![c1, c2, c3]),
{
    let ghost stops = set![c1, c2, c3];
    let n = s.len();
    let mut i = from;
    assert(s@.skip(n as int).len() == 0);
    while i < n
        invariant
            from <= i <= n == s@.len(),
            stops == set![c1, c2, c3],
            position_in(s@.skip(from as int), stops) == (i - from) + position_in(
                s@.skip(i as int),
                stops,
            ),
        decreases n - i,
    {
        if s[i] == c1 || s[i] == c2 || s[i] == c3 {
            assert(s@.skip(i as int)[0] == s@[i as int]);
            assert(stops.contains(s@[i as int]));
            return i;
        }
        proof {
            assert(!stops.contains(s@[i as int]));
            lemma_position_step(s@, stops, i as int);
        }
        i = i + 1;
    }
    i
}

/// Whether the part after the first `:` of `s`, up to `/`, `?` or `#`, is a port number
/// (a non-empty run of ASCII digits).
pub fn has_numeric_port(s: &str) -> (r: bool)
    ensures
        r == numeric_port(s@),
{
    let v = chars_of(s);
    let n = v.len();
    let p = find_from(v.as_slice(), 0, ':', ':', ':');
    assert(v@.skip(0) == v@);
    assert(set![':', ':', ':'] == set![':']);
    proof {
        lemma_position_bound(v@, set![':']);
    }
    if p == n {
        return false;
    }
    let q = find_from(v.as_slice(), p + 1, '/', '?', '#');
    assert(set!['/', '?', '#'] == port_delimiters());
    let ghost after = v@.skip(p + 1);
    proof {
        lemma_position_bound(after, port_delimiters());
    }
    assert(port_part(v@) == v@.subrange(p + 1, q as int));
    if q == p + 1 {
        return false;
    }
    for k in p + 1..q
        invariant
            p + 1 <= q <= n == v@.len(),
            v@ == s@,
            port_part(v@) == v@.subrange(p + 1, q as int),
            forall|j: int| p + 1 <= j < k ==> is_ascii_digit(#[trigger] v@[j]),
    {
        if !('0' <= v[k] && v[k] <= '9') {
            assert(port_part(v@)[k - p - 1] == v@[k as int]);
            assert(!is_ascii_digit(port_part(v@)[k - p - 1]));
            return false;
        }
    }
    assert forall|i: int| 0 <= i < port_part(v@).len() implies is_ascii_digit(
        #[trigger] port_part(v@)[i],
    ) by {
        assert(port_part(v@)[i] == v@[p + 1 + i]);
    }
    true
}

/// What the browser reads of a parsed URL: its scheme, its host (if it has one) and its
/// full serialization.
pub struct ParsedUrl {
    pub scheme: String,
    pub host: Option<String>,
    pub serialization: String,
}

/// Scheme, host and serialization, as character sequences.
pub type UrlParts = (Seq<char>, Option<Seq<char>>, Seq<char>);

pub open spec fn opt_text(o: Option<String>) -> Option<Seq<char>> {
    match o {
        Some(t) => Some(t@),
        None => None,
    }
}

impl View for ParsedUrl {
    type V = UrlParts;

    open spec fn view(&self) -> UrlParts {
        (self.scheme@, opt_text(self.host), self.serialization@)
    }
}

pub open spec fn opt_parts(o: Option<ParsedUrl>) -> Option<UrlParts> {
    match o {
        Some(p) => Some(p@),
        None => None,
    }
}

/// What `url::Url::parse` makes of `input`: `None` where it returns an error, else the
/// scheme, host and serialization of the parsed URL.
pub uninterp spec fn url_parse(input: Seq<char>) -> Option<UrlParts>;

/// The serialization starts with the scheme followed by `:`.
pub open spec fn serialization_starts_with_scheme(parts: UrlParts) -> bool {
    &&& parts.2.len() > parts.0.len()
    &&& parts.2.take(parts.0.len() as int) == parts.0
    &&& parts.2[parts.0.len() as int] == ':'
}

/// Parses `input` as an absolute URL with `url::Url::parse`, and reads back
/// `Url::scheme`, `Url::host_str` and the URL's serialization (`to_string`).
///
/// Trusted: the result is `url_parse(input@)`, a function of the input alone; and, as the
/// parser writes the scheme and then `:` at the start of the serialization, the
/// serialization begins with the scheme and `:`. Which inputs the parser accepts, and how
/// it normalizes them, is left unsaid.
#[verifier::external_body]
pub(crate) fn parse_url(input: &str) -> (res: Option<ParsedUrl>)
    ensures
        opt_parts(res) == url_parse(input@),
        res matches Some(p) ==> serialization_starts_with_scheme(p@),
{
    match url::Url::parse(input) {
        Ok(u) => Some(
            ParsedUrl {
                scheme: u.scheme().to_string(),
                host: u.host_str().map(String::from),
                serialization: u.to_string(),
            },
        ),
        Err(_) => None,
    }
}

/// The schemes that the browser may navigate to.
pub open spec fn is_allowed_scheme(scheme: Seq<char>) -> bool {
    scheme == "http"@ || scheme == "https"@
}

/// Whether `scheme` is `http` or `https`.
pub fn allowed_scheme(scheme: &str) -> (r: bool)
    ensures
        r == is_allowed_scheme(scheme@),
{
    str_equal(scheme, "http") || str_equal(scheme, "https")
}

/// The text handed to the URL parser: `https://` is put in front of an input without a
/// `:`, and of one in `host:port` form; any other input is taken to carry its own scheme.
pub open spec fn url_candidate_of(t: Seq<char>) -> Seq<char> {
    if !t.contains(':') || numeric_port(t) {
        "https://"@ + t
    } else {
        t
    }
}

/// Builds the text that is handed to the URL parser for the trimmed input `trimmed`.
pub fn url_candidate(trimmed: &str) -> (c: String)
    ensures
        c@ == url_candidate_of(trimmed@),
{
    let v = chars_of(trimmed);
    if !contains_char(v.as_slice(), ':') || has_numeric_port(trimmed) {
        let mut c = String::from_str("https://");
        c.append(trimmed);
        c
    } else {
        String::from_str(trimmed)
    }
}

/// The verdict on a parsed candidate, for the trimmed input `t`.
pub open spec fn verdict(t: Seq<char>, parsed: Option<UrlParts>) -> Result<
    Seq<char>,
    UrlInputErrorView,
> {
    match parsed {
        None => Err(UrlInputErrorView::InvalidUrl(t)),
        Some(parts) => if !is_allowed_scheme(parts.0) {
            Err(UrlInputErrorView::UnsupportedScheme(parts.0))
        } else if parts.1 is None {
            Err(UrlInputErrorView::InvalidUrl(t))
        } else {
            Ok(parts.2)
        },
    }
}

/// What `normalize_and_validate` gives for the typed text `raw`.
pub open spec fn normalized(raw: Seq<char>) -> Result<Seq<char>, UrlInputErrorView> {
    let t = trimmed(raw);
    if t.len() == 0 {
        Err(UrlInputErrorView::Empty)
    } else {
        verdict(t, url_parse(url_candidate_of(t)))
    }
}

/// A result, with its text and error taken by their views.
pub open spec fn outcome(res: Result<String, UrlInputError>) -> Result<
    Seq<char>,
    UrlInputErrorView,
> {
    match res {
        Ok(u) => Ok(u@),
        Err(e) => Err(e@),
    }
}

/// Decides on the parser's answer `parsed` for the trimmed input `trimmed`: a URL that
/// could not be parsed, or has no host, is invalid; one whose scheme is neither `http`
/// nor `https` is refused; otherwise its serialization is the address to open.
pub fn check_parsed_url(trimmed: String, parsed: Option<ParsedUrl>) -> (res: Result<
    String,
    UrlInputError,
>)
    ensures
        outcome(res) == verdict(trimmed@, opt_parts(parsed)),
{
    match parsed {
        None => Err(UrlInputError::InvalidUrl(trimmed)),
        Some(p) => {
            if !allowed_scheme(p.scheme.as_str()) {
                Err(UrlInputError::UnsupportedScheme(p.scheme))
            } else if p.host.is_none() {
                Err(UrlInputError::InvalidUrl(trimmed))
            } else {
                Ok(p.serialization)
            }
        },
    }
}

/// `u` begins with `http:` or `https:`.
pub open spec fn starts_with_web_scheme(u: Seq<char>) -> bool {
    ||| u.len() >= 5 && u.take(5) == "http:"@
    ||| u.len() >= 6 && u.take(6) == "https:"@
}

/// Normalizes and checks a URL typed by the user, and returns the address to open.
///
/// Surrounding whitespace is removed. `https://` is put in front of an input without a
/// `:` and of one in `host:port` form. Schemes other than `http` and `https` (`file:`,
/// `javascript:`, ...) are refused, as they would expose local files or run scripts.
pub fn normalize_and_validate(raw: &str) -> (res: Result<String, UrlInputError>)
    ensures
        outcome(res) == normalized(raw@),
        res matches Ok(u) ==> starts_with_web_scheme(u@),
{
    let v = chars_of(raw);
    let t = trim_chars(v.as_slice());
    if t.len() == 0 {
        return Err(UrlInputError::Empty);
    }
    let trimmed_text = string_of(t.as_slice());
    let candidate = url_candidate(trimmed_text.as_str());
    let parsed = parse_url(candidate.as_str());
    proof {
        if let Some(p) = &parsed {
            if is_allowed_scheme(p.scheme@) {
                reveal_strlit("http");
                reveal_strlit("https");
                reveal_strlit("http:");
                reveal_strlit("https:");
                let ser = p.serialization@;
                let k = p.scheme@.len() as int;
                assert(ser.take(k + 1) =~= ser.take(k).push(':'));
                if p.scheme@ == "http"@ {
                    assert(ser.take(5) =~= "http:"@);
                } else {
                    assert(ser.take(6) =~= "https:"@);
                }
            }
        }
    }
    check_parsed_url(trimmed_text, parsed)
}

/// A navigation to `url` is allowed when the URL parses and its scheme is `http` or
/// `https`.
pub open spec fn navigation_allowed(url: Seq<char>) -> bool {
    url_parse(url) matches Some(parts) && is_allowed_scheme(parts.0)
}

/// Whitespace typed before or after an address changes nothing of the outcome.
pub proof fn lemma_surrounding_white_space_is_ignored(w1: Seq<char>, raw: Seq<char>, w2: Seq<char>)
    requires
        all_white_space(w1),
        all_white_space(w2),
    ensures
        normalized(w1 + raw + w2) == normalized(raw),
{
    lemma_trimmed_ignores_surrounding_white_space(w1, raw, w2);
}

/// An input is refused as empty exactly when it is all whitespace.
pub proof fn lemma_empty_exactly_when_white_space(raw: Seq<char>)
    ensures
        normalized(raw) == Err::<Seq<char>, UrlInputErrorView>(UrlInputErrorView::Empty)
            <==> all_white_space(raw),
{
    lemma_trimmed_empty_iff_white_space(raw);
}

/// An accepted input is the serialization of a parsed `http` or `https` URL with a host,
/// and a link to that same candidate would be allowed too.
pub proof fn lemma_accepted_urls_are_web_urls(raw: Seq<char>)
    ensures
        normalized(raw) matches Ok(u) ==> {
            let c = url_candidate_of(trimmed(raw));
            &&& url_parse(c) matches Some(parts)
            &&& is_allowed_scheme(parts.0)
            &&& parts.1 is Some
            &&& u == parts.2
            &&& navigation_allowed(c)
        },
{
}

/// A scheme other than `http` or `https` is refused, with that scheme as the reason.
pub proof fn lemma_other_schemes_are_refused(raw: Seq<char>)
    ensures
        ({
            let parsed = url_parse(url_candidate_of(trimmed(raw)));
            trimmed(raw).len() > 0 && parsed is Some && !is_allowed_scheme(parsed.unwrap().0)
                ==> normalized(raw) == Err::<Seq<char>, UrlInputErrorView>(
                UrlInputErrorView::UnsupportedScheme(parsed.unwrap().0),
            )
        }),
{
}

/// `https://` is put in front of the trimmed input exactly when it has no `:` or is in
/// `host:port` form; otherwise the input goes to the parser as it is.
pub proof fn lemma_https_is_added_unless_a_scheme_is_typed(t: Seq<char>)
    ensures
        (!t.contains(':') || numeric_port(t)) ==> url_candidate_of(t) == "https://"@ + t,
        (t.contains(':') && !numeric_port(t)) ==> url_candidate_of(t) == t,
{
}

/// What the parser makes of the candidate decides the outcome, and nothing else does: a
/// parsed `http`/`https` URL with a host is accepted as its serialization; a scheme other
/// than `http`/`https` is refused with that scheme as the reason; text that does not parse,
/// or a web URL without a host, is refused as invalid, with the trimmed input as the
/// reason.
pub proof fn lemma_outcome_follows_the_parser(raw: Seq<char>)
    ensures
        ({
            let t = trimmed(raw);
            let parsed = url_parse(url_candidate_of(t));
            &&& t.len() > 0 && parsed is None ==> normalized(raw) == Err::<
                Seq<char>,
                UrlInputErrorView,
            >(UrlInputErrorView::InvalidUrl(t))
            &&& t.len() > 0 && parsed is Some && parsed.unwrap().0 != "http"@
                && parsed.unwrap().0 != "https"@ ==> normalized(raw) == Err::<
                Seq<char>,
                UrlInputErrorView,
            >(UrlInputErrorView::UnsupportedScheme(parsed.unwrap().0))
            &&& t.len() > 0 && parsed is Some && (parsed.unwrap().0 == "http"@
                || parsed.unwrap().0 == "https"@) && parsed.unwrap().1 is None ==> normalized(raw)
                == Err::<Seq<char>, UrlInputErrorView>(UrlInputErrorView::InvalidUrl(t))
            &&& t.len() > 0 && parsed is Some && (parsed.unwrap().0 == "http"@
                || parsed.unwrap().0 == "https"@) && parsed.unwrap().1 is Some ==> normalized(raw)
                == Ok::<Seq<char>, UrlInputErrorView>(parsed.unwrap().2)
        }),
{
}

proof fn lemma_position_at(s: Seq<char>, stops: Set<char>, k: int)
    requires
        0 <= k <= s.len(),
        forall|j: int| 0 <= j < k ==> !stops.contains(#[trigger] s[j]),
        k == s.len() || stops.contains(s[k]),
    ensures
        position_in(s, stops) == k,
    decreases k,
{
    if k > 0 {
        assert(!stops.contains(s[0]));
        let r = s.drop_first();
        assert forall|j: int| 0 <= j < k - 1 implies !stops.contains(#[trigger] r[j]) by {
            assert(r[j] == s[j + 1]);
        }
        if k < s.len() {
            assert(r[k - 1] == s[k]);
        }
        lemma_position_at(r, stops, k - 1);
    }
}

/// A port ends at the end of the text or at `/`, `?` or `#`.
pub open spec fn ends_port(x: Seq<char>, k: int) -> bool {
    k == x.len() || x[k] == '/' || x[k] == '?' || x[k] == '#'
}

/// Text typed without any `:` is a bare host (and path): `https://` is put in front.
pub proof fn lemma_bare_host_gets_https(t: Seq<char>)
    requires
        !t.contains(':'),
    ensures
        url_candidate_of(t) == "https://"@ + t,
{
}

/// `host:port` — a host without `:`, then `:`, then one or more ASCII digits (any number of
/// them), then the end or `/`, `?`, `#` and the rest — is taken as a host with a port, and
/// `https://` is put in front.
pub proof fn lemma_host_port_gets_https(h: Seq<char>, d: Seq<char>, r: Seq<char>)
    requires
        !h.contains(':'),
        d.len() > 0,
        forall|i: int| 0 <= i < d.len() ==> is_ascii_digit(#[trigger] d[i]),
        ends_port(r, 0),
    ensures
        numeric_port(h + seq![':'] + d + r),
        url_candidate_of(h + seq![':'] + d + r) == "https://"@ + (h + seq![':'] + d + r),
{
    let s = h + seq![':'] + d + r;
    assert forall|j: int| 0 <= j < h.len() implies !set![':'].contains(#[trigger] s[j]) by {
        assert(s[j] == h[j]);
        if s[j] == ':' {
            assert(h.contains(':'));
        }
    }
    assert(s[h.len() as int] == ':');
    lemma_position_at(s, set![':'], h.len() as int);
    let after = s.skip(h.len() as int + 1);
    assert(after == d + r);
    assert forall|j: int| 0 <= j < d.len() implies !port_delimiters().contains(
        #[trigger] after[j],
    ) by {
        assert(after[j] == d[j]);
    }
    if r.len() > 0 {
        assert(after[d.len() as int] == r[0]);
    }
    lemma_position_at(after, port_delimiters(), d.len() as int);
    assert(port_part(s) == d);
    assert(s.contains(':')) by {
        assert(s[h.len() as int] == ':');
    }
}

/// Text with a `:` that is not followed by a port (nothing, or something other than ASCII
/// digits, before the end or `/`, `?`, `#`) carries its own scheme, and goes to the parser
/// as it was typed: `file:///x`, `javascript:alert(1)`, `https://host` are kept as they are.
pub proof fn lemma_typed_scheme_is_kept(h: Seq<char>, x: Seq<char>)
    requires
        !h.contains(':'),
        ends_port(x, 0) || exists|k: int|
            0 <= k < x.len() && !is_ascii_digit(#[trigger] x[k]) && !ends_port(x, k) && forall|
                j: int,
            | 0 <= j < k ==> !ends_port(x, j),
    ensures
        !numeric_port(h + seq![':'] + x),
        url_candidate_of(h + seq![':'] + x) == h + seq![':'] + x,
{
    let s = h + seq![':'] + x;
    assert forall|j: int| 0 <= j < h.len() implies !set![':'].contains(#[trigger] s[j]) by {
        assert(s[j] == h[j]);
        if s[j] == ':' {
            assert(h.contains(':'));
        }
    }
    assert(s[h.len() as int] == ':');
    lemma_position_at(s, set![':'], h.len() as int);
    let after = s.skip(h.len() as int + 1);
    assert(after == x);
    lemma_position_bound(x, port_delimiters());
    let q = position_in(x, port_delimiters());
    if ends_port(x, 0) {
        if x.len() > 0 {
            assert(port_delimiters().contains(x[0]));
        }
        assert(q == 0);
        assert(port_part(s).len() == 0);
    } else {
        let k = choose|k: int|
            0 <= k < x.len() && !is_ascii_digit(#[trigger] x[k]) && !ends_port(x, k) && forall|
                j: int,
            | 0 <= j < k ==> !ends_port(x, j);
        if q <= k {
            if q < x.len() {
                assert(port_delimiters().contains(x[q]));
                assert(ends_port(x, q));
            }
        }
        assert(q > k);
        assert(port_part(s)[k] == x[k]);
        assert(!is_ascii_digit(port_part(s)[k]));
    }
    assert(s.contains(':')) by {
        assert(s[h.len() as int] == ':');
    }
}

/// How an answer of the parser is judged, for any trimmed input `t`: no URL, or a web URL
/// without a host, is invalid (with `t` as the reason); a scheme other than `http` or
/// `https` is refused (with that scheme as the reason); an `http` or `https` URL with a
/// host is accepted as its serialization, whatever that serialization holds.
pub proof fn lemma_verdict_rules(t: Seq<char>, parts: UrlParts)
    ensures
        verdict(t, None) == Err::<Seq<char>, UrlInputErrorView>(UrlInputErrorView::InvalidUrl(t)),
        parts.0 != "http"@ && parts.0 != "https"@ ==> verdict(t, Some(parts)) == Err::<
            Seq<char>,
            UrlInputErrorView,
        >(UrlInputErrorView::UnsupportedScheme(parts.0)),
        (parts.0 == "http"@ || parts.0 == "https"@) && parts.1 is None ==> verdict(t, Some(parts))
            == Err::<Seq<char>, UrlInputErrorView>(UrlInputErrorView::InvalidUrl(t)),
        (parts.0 == "http"@ || parts.0 == "https"@) && parts.1 is Some ==> verdict(t, Some(parts))
            == Ok::<Seq<char>, UrlInputErrorView>(parts.2),
{
}

/// A navigation is allowed exactly when the URL parses with the scheme `http` or `https`.
pub proof fn lemma_navigation_rule(url: Seq<char>)
    ensures
        navigation_allowed(url) <==> (url_parse(url) is Some && (url_parse(url).unwrap().0
            == "http"@ || url_parse(url).unwrap().0 == "https"@)),
{
}

} // verus!
