use vstd::prelude::*;

verus! {

/// `url::ParseError`, carried through without looking inside.
#[verifier::external_type_specification]
#[verifier::external_body]
pub struct ExUrlParseError(url::ParseError);

/// `url::Url`, carried through without looking inside.
#[verifier::external_type_specification]
#[verifier::external_body]
pub struct ExUrl(url::Url);

/// A URL parsed by `url::Url::parse`, with what the logic reads of it: its
/// serialization and its port. Only `parse_url` makes one, so the text is
/// always the serialization of the URL.
#[derive(Debug)]
pub struct ParsedUrl {
    text: String,
    port: Option<u16>,
    url: url::Url,
}

impl ParsedUrl {
    /// The serialization of the URL.
    pub closed spec fn text_spec(&self) -> String {
        self.text
    }

    /// The port of the URL, `None` where it is absent or the scheme's
    /// default.
    pub closed spec fn port_spec(&self) -> Option<u16> {
        self.port
    }

    /// The serialization of the URL.
    pub fn text(&self) -> (r: &str)
        ensures
            r@ == self.text_spec()@,
    {
        self.text.as_str()
    }

    /// The serialization of the URL, as an owned string.
    pub fn text_string(&self) -> (r: String)
        ensures
            r == self.text_spec(),
    {
        self.text.clone()
    }

    /// The port of the URL, `None` where it is absent or the scheme's
    /// default.
    pub fn port(&self) -> (r: Option<u16>)
        ensures
            r == self.port_spec(),
    {
        self.port
    }

    /// The serialization of the URL, taking the URL apart.
    pub fn into_text(self) -> (r: String)
        ensures
            r == self.text_spec(),
    {
        self.text
    }
}

/// What `url::Url::parse` makes of `input`: the serialization and the port
/// of the URL, or `None` where it refuses the input.
pub uninterp spec fn url_parse(input: Seq<char>) -> Option<(Seq<char>, Option<u16>)>;

/// Parses an absolute URL with `url::Url::parse`.
///
/// The contract claims that the call succeeds exactly where `url_parse` has
/// a value and that the serialization and port of the URL are that value;
/// the URL standard's parsing rules are left to the name `url_parse`.
#[verifier::external_body]
pub(crate) fn parse_url(input: &str) -> (r: Result<ParsedUrl, url::ParseError>)
    ensures
        match r {
            Ok(u) => url_parse(input@) == Some((u.text_spec()@, u.port_spec())),
            Err(_) => url_parse(input@) is None,
        },
{
    match url::Url::parse(input) {
        Ok(u) => Ok(ParsedUrl { port: u.port(), text: u.as_str().to_owned(), url: u }),
        Err(e) => Err(e),
    }
}

/// The most characters that the serialization of a URL and a new host may
/// have together: far enough below `u32::MAX` bytes that `url::Url`, which
/// keeps its offsets as `u32`, can hold the changed URL whatever the host
/// parser makes of the host.
pub const MAX_URL_CHARS: usize = 0x100_0000;

/// What `url::Url::set_host` makes of the URL whose serialization is `url`
/// when given the host `host`: the serialization of the changed URL, or
/// `None` where it refuses the host.
pub uninterp spec fn url_set_host(url: Seq<char>, host: Seq<char>) -> Option<Seq<char>>;

/// Sets the host of a copy of the URL with `url::Url::set_host`.
///
/// The contract claims that the result is the name `url_set_host` of the
/// URL's serialization and the host; the host parsing rules are left to
/// that name. `set_host` unwraps the conversion of the new serialization's
/// length to `u32`, so the lengths are bounded by `requires`.
#[verifier::external_body]
pub(crate) fn set_url_host(url: &ParsedUrl, host: &str) -> (r: Option<String>)
    requires
        url.text_spec()@.len() + host@.len() <= MAX_URL_CHARS,
    ensures
        match r {
            Some(s) => url_set_host(url.text_spec()@, host@) == Some(s@),
            None => url_set_host(url.text_spec()@, host@) is None,
        },
{
    let mut u = url.url.clone();
    match u.set_host(Some(host)) {
        Ok(()) => Some(u.into()),
        Err(_) => None,
    }
}

} // verus!
