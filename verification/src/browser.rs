//! What is decided around the browser: which address a tab may be sent to,
//! and what the printed page is called.

use crate::bindings::parse_url;
use crate::bindings::parsed_url;
use crate::webpage::WebPageError;
use vstd::prelude::*;
use vstd::string::*;

verus! {

/// Why a page could not be opened or printed.
#[derive(Debug, PartialEq, Eq)]
pub enum BrowserError {
    /// The browser failed; the text says why.
    ChromeError(String),
    /// The address is no URL.
    UrlError(url::ParseError),
    /// The page was opened, and its capture failed.
    WebPageError(WebPageError),
    /// A file could not be written; the text says why.
    IoError(String),
}

/// Lets through an address that was read as a URL and refuses one that was
/// not.
pub fn navigable(outcome: Result<String, url::ParseError>) -> (r: Result<(), BrowserError>)
    ensures
        match outcome {
            Ok(_) => r is Ok,
            Err(error) => r == Err::<(), BrowserError>(BrowserError::UrlError(error)),
        },
{
    match outcome {
        Ok(_) => Ok(()),
        Err(error) => Err(BrowserError::UrlError(error)),
    }
}

/// Decides whether a tab may be sent to `url`: only an absolute URL is
/// navigated to. The tab is then given `url` as it stands.
pub fn url_to_tab(url: &str) -> (r: Result<(), BrowserError>)
    ensures
        r is Ok <==> parsed_url(url@) is Some,
        r matches Err(error) ==> error is UrlError,
{
    navigable(parse_url(url))
}

/// The name of the file that a page with this title is printed to:
/// `<title>.pdf`.
pub fn url_to_pdf(title: &str) -> (r: String)
    ensures
        r@ == title@ + ".pdf"@,
{
    let mut file_name = String::from_str(title);
    file_name.append(".pdf");
    file_name
}

} // verus!
