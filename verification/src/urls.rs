//! URL checks, through the `url` crate's parser.
use vstd::prelude::*;
use vstd::string::*;
use crate::error::{Error, ErrorView};
use crate::text::text_eq;

verus! {

broadcast use vstd::string::group_string_axioms;

#[verifier::external_type_specification]
#[verifier::external_body]
pub struct ExUrl(url::Url);

#[verifier::external_type_specification]
#[verifier::external_body]
pub struct ExParseError(url::ParseError);

/// Whether `url::Url::parse` accepts `input` as an absolute URL.
pub uninterp spec fn url_parse_accepts(input: Seq<char>) -> bool;

/// A character that is trimmed from both ends of a URL: a C0 control or a space.
pub open spec fn is_c0_control_or_space(c: char) -> bool {
    (c as u32) <= 0x20
}

/// A character that the URL parser skips wherever it stands: tab, line feed, return.
pub open spec fn is_tab_or_newline(c: char) -> bool {
    c == '\t' || c == '\n' || c == '\r'
}

/// `s` without its leading C0 controls and spaces.
pub open spec fn skip_c0_control_or_space(s: Seq<char>) -> Seq<char>
    decreases s.len(),
{
    if s.len() > 0 && is_c0_control_or_space(s[0]) {
        skip_c0_control_or_space(s.drop_first())
    } else {
        s
    }
}

/// The characters of `s` before its first `:` (all of `s` if it has none).
pub open spec fn before_colon(s: Seq<char>) -> Seq<char>
    decreases s.len(),
{
    if s.len() == 0 || s[0] == ':' {
        Seq::empty()
    } else {
        seq![s[0]] + before_colon(s.drop_first())
    }
}

/// An ASCII upper-case letter turned lower case; any other character unchanged.
pub open spec fn ascii_lowercase(c: char) -> char {
    if ('A' as u32) <= (c as u32) <= ('Z' as u32) {
        ((c as u32) + 32) as char
    } else {
        c
    }
}

/// The scheme of an absolute URL written as `input`: after leading C0 controls and
/// spaces, and with tabs and newlines skipped, the text before the first `:`, in
/// lower case.
pub open spec fn scheme_text(input: Seq<char>) -> Seq<char> {
    before_colon(
        skip_c0_control_or_space(input).filter(|c: char| !is_tab_or_newline(c)),
    ).map_values(|c: char| ascii_lowercase(c))
}

/// A URL parsed by the `url` crate, with the text it was parsed from.
pub struct ParsedUrl {
    url: url::Url,
    source: Ghost<Seq<char>>,
}

impl ParsedUrl {
    /// The text this URL was parsed from.
    pub closed spec fn source(&self) -> Seq<char> {
        self.source@
    }

    /// The `url::Url` value that the parser returned.
    pub closed spec fn parsed(&self) -> url::Url {
        self.url
    }

    /// The parsed URL itself, to hand to the windowing layer.
    pub fn into_url(self) -> (u: url::Url)
        ensures
            u == self.parsed(),
    {
        self.url
    }
}

/// Calls `url::Url::parse`. Trusted: the call succeeds exactly when
/// `url_parse_accepts` holds of the input (the parser is a function of its input);
/// the value it returns is kept together with that input.
#[verifier::external_body]
fn parse_url(input: &str) -> (r: Result<ParsedUrl, url::ParseError>)
    ensures
        r is Ok == url_parse_accepts(input@),
        r matches Ok(p) ==> p.source() == input@,
{
    match url::Url::parse(input) {
        Ok(url) => Ok(ParsedUrl { url, source: Ghost(input@) }),
        Err(e) => Err(e),
    }
}

/// Calls `url::Url::scheme`. Trusted: it returns `scheme_text` of the text the URL
/// was parsed from. (`Url::parse` with no base URL accepts an input only when that
/// text starts with an ASCII letter, holds only ASCII letters, digits, `+`, `-`, `.`,
/// and is followed by `:`; the scheme it keeps is that text, lower-cased.)
#[verifier::external_body]
fn scheme_of(url: &ParsedUrl) -> (s: &str)
    ensures
        s@ == scheme_text(url.source()),
{
    url.url.scheme()
}

/// Whether a scheme is one a browser window may open: `http` or `https`.
pub open spec fn is_web_scheme_text(scheme: Seq<char>) -> bool {
    scheme == "http"@ || scheme == "https"@
}

/// Whether `input` parses as a URL with scheme `http` or `https`.
pub open spec fn is_web_url(input: Seq<char>) -> bool {
    url_parse_accepts(input) && is_web_scheme_text(scheme_text(input))
}

/// The text view of a URL check's result.
pub open spec fn check_view(r: Result<ParsedUrl, Error>) -> Result<Seq<char>, ErrorView> {
    match r {
        Ok(p) => Ok(p.source()),
        Err(e) => Err(e@),
    }
}

/// Whether a scheme is `http` or `https`.
pub fn is_web_scheme(scheme: &str) -> (r: bool)
    ensures
        r == is_web_scheme_text(scheme@),
{
    text_eq(scheme, "http") || text_eq(scheme, "https")
}

/// Parses any absolute URL; one the parser refuses is an `InvalidUrl`.
pub fn parse_any_url(input: &str) -> (r: Result<ParsedUrl, Error>)
    ensures
        check_view(r) == if url_parse_accepts(input@) {
            Ok::<Seq<char>, ErrorView>(input@)
        } else {
            Err(ErrorView::InvalidUrl)
        },
{
    match parse_url(input) {
        Ok(url) => Ok(url),
        Err(_) => Err(Error::InvalidUrl),
    }
}

/// Parses a URL that a browser window may open: it must parse, with scheme `http` or
/// `https`; anything else is an `InvalidUrl`.
pub fn parse_web_url(input: &str) -> (r: Result<ParsedUrl, Error>)
    ensures
        r is Ok <==> (url_parse_accepts(input@) && (scheme_text(input@) == "http"@ || scheme_text(
            input@,
        ) == "https"@)),
        check_view(r) == if is_web_url(input@) {
            Ok::<Seq<char>, ErrorView>(input@)
        } else {
            Err(ErrorView::InvalidUrl)
        },
{
    let url = parse_any_url(input)?;
    if is_web_scheme(scheme_of(&url)) {
        Ok(url)
    } else {
        Err(Error::InvalidUrl)
    }
}

} // verus!
