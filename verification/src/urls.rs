//! The chat completions endpoint of a provider, through the `url` crate.

use vstd::prelude::*;

use crate::text::concat_str;

verus! {

// A URL passes between the calls below as its serialization (`Url::as_str`),
// which each call reads back with `Url::parse`.

/// What `url::Url::parse` makes of `input`: the parsed URL's serialization,
/// or the text of the parse error. The WHATWG URL rules it follows take
/// pages; the outcome depends on the input alone.
pub uninterp spec fn parsed_url(input: Seq<char>) -> Result<Seq<char>, Seq<char>>;

/// `url::Url::path` of the URL that `url` parses to (empty when it does not
/// parse); it depends on the text alone.
pub uninterp spec fn url_path_of(url: Seq<char>) -> Seq<char>;

/// The serialization of the URL that `url` parses to, after
/// `PathSegmentsMut::push` of an empty segment; `None` when it does not
/// parse or `Url::path_segments_mut` refuses it (a cannot-be-a-base URL).
pub uninterp spec fn with_empty_segment(url: Seq<char>) -> Option<Seq<char>>;

/// What `url::Url::join` makes of `input` against the URL that `url` parses
/// to: the serialization of the result, or the text of the parse error.
pub uninterp spec fn joined_url(url: Seq<char>, input: Seq<char>) -> Result<Seq<char>, Seq<char>>;

/// Whether `url::Url::parse` accepts `input`.
pub open spec fn url_parses(input: Seq<char>) -> bool {
    parsed_url(input) is Ok
}

/// Calls `url::Url::parse` and serializes the URL, or formats the error.
#[verifier::external_body]
fn parse_url(input: &str) -> (r: Result<String, String>)
    ensures
        match r {
            Ok(s) => parsed_url(input@) == Ok::<Seq<char>, Seq<char>>(s@),
            Err(e) => parsed_url(input@) == Err::<Seq<char>, Seq<char>>(e@),
        },
{
    match url::Url::parse(input) {
        Ok(parsed) => Ok(parsed.into()),
        Err(error) => Err(error.to_string()),
    }
}

/// Calls `url::Url::path` on `url` read back with `Url::parse`.
#[verifier::external_body]
fn url_path(url: &str) -> (r: String)
    ensures
        r@ == url_path_of(url@),
{
    match url::Url::parse(url) {
        Ok(parsed) => parsed.path().to_owned(),
        Err(_) => String::new(),
    }
}

/// Calls `url::Url::path_segments_mut` and `PathSegmentsMut::push` with an
/// empty segment on `url` read back with `Url::parse`, and serializes the
/// result.
#[verifier::external_body]
fn push_empty_segment(url: &str) -> (r: Option<String>)
    ensures
        match r {
            Some(s) => with_empty_segment(url@) == Some(s@),
            None => with_empty_segment(url@) is None,
        },
{
    let mut parsed = url::Url::parse(url).ok()?;
    parsed.path_segments_mut().ok()?.push("");
    Some(parsed.into())
}

/// Calls `url::Url::join` with `input` on `url` read back with
/// `Url::parse`, and serializes the result or formats the error.
#[verifier::external_body]
fn join_url(url: &str, input: &str) -> (r: Result<String, String>)
    ensures
        match r {
            Ok(s) => joined_url(url@, input@) == Ok::<Seq<char>, Seq<char>>(s@),
            Err(e) => joined_url(url@, input@) == Err::<Seq<char>, Seq<char>>(e@),
        },
{
    match url::Url::parse(url) {
        Ok(base) => match base.join(input) {
            Ok(joined) => Ok(joined.into()),
            Err(error) => Err(error.to_string()),
        },
        Err(error) => Err(error.to_string()),
    }
}

/// The path under a provider's base URL that takes chat completions.
pub const COMPLETIONS_PATH: &'static str = "chat/completions";

/// Why a base URL gives no endpoint, as the contracts speak of it.
pub enum UrlFailure {
    Invalid(Seq<char>),
    CannotBeABase,
    Join(Seq<char>),
}

/// `url` with a slash at the end of its path: as it is when the path ends
/// with one, else with an empty segment pushed.
pub open spec fn slashed_url(url: Seq<char>) -> Option<Seq<char>> {
    let path = url_path_of(url);
    if path.len() > 0 && path.last() == '/' {
        Some(url)
    } else {
        with_empty_segment(url)
    }
}

/// The chat completions endpoint under `base`: `chat/completions` joined to
/// the parsed base with a slash at the end of its path, or why there is none.
pub open spec fn endpoint_of(base: Seq<char>) -> Result<Seq<char>, UrlFailure> {
    match parsed_url(base) {
        Err(e) => Err(UrlFailure::Invalid(e)),
        Ok(url) => match slashed_url(url) {
            None => Err(UrlFailure::CannotBeABase),
            Some(slashed) => match joined_url(slashed, COMPLETIONS_PATH@) {
                Ok(endpoint) => Ok(endpoint),
                Err(e) => Err(UrlFailure::Join(e)),
            },
        },
    }
}

/// Why a provider's base URL gives no endpoint.
#[derive(Clone, Debug, PartialEq, Eq)]
pub enum UrlError {
    /// The base URL does not parse; the parser's reason.
    Invalid(String),
    /// The base URL cannot take path segments.
    CannotBeABase,
    /// The endpoint does not resolve against the base; the parser's reason.
    Join(String),
}

impl UrlError {
    /// The message for this error, with its cause.
    pub open spec fn text(&self) -> Seq<char> {
        match self {
            UrlError::Invalid(detail) => "invalid provider base_url: "@ + detail@,
            UrlError::CannotBeABase => "base_url cannot be a base"@,
            UrlError::Join(detail) => "construct chat completions URL: "@ + detail@,
        }
    }

    /// The message shown for this error, with its cause.
    pub fn message(&self) -> (r: String)
        ensures
            r@ == self.text(),
    {
        match self {
            UrlError::Invalid(detail) => concat_str("invalid provider base_url: ", detail.as_str()),
            UrlError::CannotBeABase => "base_url cannot be a base".to_owned(),
            UrlError::Join(detail) => concat_str("construct chat completions URL: ", detail.as_str()),
        }
    }
}

impl View for UrlError {
    type V = UrlFailure;

    open spec fn view(&self) -> UrlFailure {
        match self {
            UrlError::Invalid(detail) => UrlFailure::Invalid(detail@),
            UrlError::CannotBeABase => UrlFailure::CannotBeABase,
            UrlError::Join(detail) => UrlFailure::Join(detail@),
        }
    }
}

impl UrlError {
    /// A copy of this error.
    pub fn copy(&self) -> (r: UrlError)
        ensures
            r@ == self@,
    {
        match self {
            UrlError::Invalid(detail) => UrlError::Invalid(crate::text::copy_string(detail.as_str())),
            UrlError::CannotBeABase => UrlError::CannotBeABase,
            UrlError::Join(detail) => UrlError::Join(crate::text::copy_string(detail.as_str())),
        }
    }
}

/// The chat completions endpoint under `base_url`: a slash is added to the
/// path when it lacks one, then `chat/completions` is resolved against it.
pub fn completion_url(base_url: &str) -> (r: Result<String, UrlError>)
    ensures
        match r {
            Ok(endpoint) => endpoint_of(base_url@) == Ok::<Seq<char>, UrlFailure>(endpoint@),
            Err(e) => endpoint_of(base_url@) == Err::<Seq<char>, UrlFailure>(e@),
        },
{
    let url = match parse_url(base_url) {
        Ok(url) => url,
        Err(detail) => {
            return Err(UrlError::Invalid(detail));
        },
    };
    let path = crate::text::chars_of(url_path(url.as_str()).as_str());
    let slashed = if path.len() > 0 && path[path.len() - 1] == '/' {
        url
    } else {
        match push_empty_segment(url.as_str()) {
            Some(slashed) => slashed,
            None => {
                return Err(UrlError::CannotBeABase);
            },
        }
    };
    match join_url(slashed.as_str(), COMPLETIONS_PATH) {
        Ok(endpoint) => Ok(endpoint),
        Err(detail) => Err(UrlError::Join(detail)),
    }
}

} // verus!
