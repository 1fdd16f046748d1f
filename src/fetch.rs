//! Which way a feed is fetched, by its locator's scheme.
use vstd::prelude::*;
use vstd::string::*;
use crate::error::Error;
use crate::text::same_text;

verus! {

/// How a feed is fetched.
#[derive(Clone, Copy, Debug, PartialEq, Eq, Structural)]
pub enum FetchSource {
    /// Over HTTP or HTTPS.
    Http,
    /// From a local file.
    File,
}

/// The scheme of `text` parsed as an absolute URL (in lower case, as the URL
/// standard writes it), or `None` where it does not parse.
pub uninterp spec fn url_scheme(text: Seq<char>) -> Option<Seq<char>>;

/// Relies on `url::Url::parse` and `url::Url::scheme`: the scheme of the
/// parsed URL, or `None` where parsing fails.
#[verifier::external_body]
fn parse_scheme(text: &str) -> (r: Option<String>)
    ensures
        match r {
            Some(s) => url_scheme(text@) == Some(s@),
            None => url_scheme(text@) is None,
        },
{
    url::Url::parse(text).ok().map(|u| u.scheme().to_string())
}

/// The way to fetch from a locator with scheme `scheme`: `http` and `https`
/// over the network, `file` from disk; any other is an `UnknownScheme`
/// naming it.
pub fn source_for_scheme(scheme: &str) -> (r: Result<FetchSource, Error>)
    ensures
        (scheme@ == "http"@ || scheme@ == "https"@) ==> r == Ok::<FetchSource, Error>(
            FetchSource::Http,
        ),
        scheme@ == "file"@ ==> r == Ok::<FetchSource, Error>(FetchSource::File),
        !(scheme@ == "http"@ || scheme@ == "https"@ || scheme@ == "file"@) ==> (r matches Err(
            Error::UnknownScheme(s),
        ) && s@ == scheme@),
{
    proof {
        reveal_strlit("http");
        reveal_strlit("https");
        reveal_strlit("file");
        assert("file"@[0] != "http"@[0] && "file"@[0] != "https"@[0]);
    }
    if same_text(scheme, "http") || same_text(scheme, "https") {
        Ok(FetchSource::Http)
    } else if same_text(scheme, "file") {
        Ok(FetchSource::File)
    } else {
        Err(Error::UnknownScheme(String::from_str(scheme)))
    }
}

/// The way to fetch from the locator `url`: `InvalidUrl` where it does not
/// parse, else as its scheme says.
pub fn fetch_source(url: &str) -> (r: Result<FetchSource, Error>)
    ensures
        url_scheme(url@) is None ==> (r matches Err(Error::InvalidUrl(s)) && s@ == url@),
        url_scheme(url@) matches Some(sc) ==> {
            &&& (sc == "http"@ || sc == "https"@) ==> r == Ok::<FetchSource, Error>(
                FetchSource::Http,
            )
            &&& sc == "file"@ ==> r == Ok::<FetchSource, Error>(FetchSource::File)
            &&& !(sc == "http"@ || sc == "https"@ || sc == "file"@) ==> (r matches Err(
                Error::UnknownScheme(s),
            ) && s@ == sc)
        },
{
    match parse_scheme(url) {
        None => Err(Error::InvalidUrl(String::from_str(url))),
        Some(s) => source_for_scheme(s.as_str()),
    }
}

} // verus!
