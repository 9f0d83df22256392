//! The trusted boundary: every call that leaves this crate.
//!
//! Three outside crates compute for the library: `url` reads and joins URLs,
//! `base64` decodes inline payloads and `scraper` reads markup. None of their
//! code is verified here. Each function below makes one such call, or one
//! call into the standard library, and the verifier takes its contract on
//! trust. Where a result takes pages to
//! describe, the contract only gives it a name, stating that the call
//! computes a function of its arguments.

use base64::Engine;
use scraper::Html;
use scraper::Selector;
use url::Url;
use vstd::prelude::*;

verus! {

/// `url::ParseError`, carried through unread.
#[verifier::external_type_specification]
#[verifier::external_body]
pub struct ExParseError(url::ParseError);

/// `base64::DecodeError`, carried through unread.
#[verifier::external_type_specification]
#[verifier::external_body]
pub struct ExDecodeError(base64::DecodeError);

/// The serialization of the URL that `url::Url::parse` reads from `input`;
/// `None` where it rejects `input`.
pub uninterp spec fn parsed_url(input: Seq<char>) -> Option<Seq<char>>;

/// The serialization of the URL that `url::Url::join` makes of `reference`
/// against the URL read from `base`; `None` where `base` or the joined
/// result is rejected.
pub uninterp spec fn joined_url(base: Seq<char>, reference: Seq<char>) -> Option<Seq<char>>;

/// The segments that `url::Url::path_segments` gives for the URL read from
/// `url`; `None` where `url` is rejected or cannot be a base.
pub uninterp spec fn url_path_segments(url: Seq<char>) -> Option<Seq<Seq<char>>>;

/// The bytes that `base64`'s `STANDARD` engine decodes from `data`; `None`
/// where it rejects `data`.
pub uninterp spec fn base64_decoded(data: Seq<char>) -> Option<Seq<u8>>;

/// For each element of `html` that `selector` matches, in the order in which
/// `scraper` yields them, the value of its attribute `attribute` if it has
/// one; `None` where `scraper` rejects `selector`.
pub uninterp spec fn selected_attribute(
    html: Seq<char>,
    selector: Seq<char>,
    attribute: Seq<char>,
) -> Option<Seq<Option<Seq<char>>>>;

/// Calls `url::Url::parse`. Trusted: the outcome depends on `input` alone,
/// and a URL that was read is handed back in its serialized form.
#[verifier::external_body]
pub(crate) fn parse_url(input: &str) -> (r: Result<String, url::ParseError>)
    ensures
        match r {
            Ok(url) => parsed_url(input@) == Some(url@),
            Err(_) => parsed_url(input@) is None,
        },
{
    Url::parse(input).map(String::from)
}

/// Calls `url::Url::join` on the URL that `url::Url::parse` reads from
/// `base`. Trusted: the outcome depends on `base` and `reference` alone, and
/// fails with the error of whichever of the two calls failed.
#[verifier::external_body]
pub(crate) fn join_url(base: &str, reference: &str) -> (r: Result<String, url::ParseError>)
    ensures
        match r {
            Ok(url) => joined_url(base@, reference@) == Some(url@),
            Err(_) => joined_url(base@, reference@) is None,
        },
{
    Url::parse(base)?.join(reference).map(String::from)
}

/// Calls `url::Url::path_segments` on the URL that `url::Url::parse` reads
/// from `url`. Trusted: the segments depend on `url` alone.
#[verifier::external_body]
pub(crate) fn path_segments(url: &str) -> (r: Option<Vec<String>>)
    ensures
        r.deep_view() == url_path_segments(url@),
{
    let parsed = Url::parse(url).ok()?;
    let segments = parsed.path_segments()?;
    Some(segments.map(String::from).collect())
}

/// Calls `decode` of `base64::engine::general_purpose::STANDARD`. Trusted:
/// the outcome depends on `data` alone.
#[verifier::external_body]
pub(crate) fn decode_base64(data: &str) -> (r: Result<Vec<u8>, base64::DecodeError>)
    ensures
        match r {
            Ok(bytes) => base64_decoded(data@) == Some(bytes@),
            Err(_) => base64_decoded(data@) is None,
        },
{
    base64::engine::general_purpose::STANDARD.decode(data)
}

/// Calls `scraper::Html::parse_document` on `html` and
/// `scraper::Html::select` with the selector that `scraper::Selector::parse`
/// reads from `selector`, then asks each element for `attribute`. Trusted:
/// the outcome depends on the three arguments alone.
#[verifier::external_body]
pub(crate) fn select_attribute(html: &str, selector: &str, attribute: &str) -> (r: Option<
    Vec<Option<String>>,
>)
    ensures
        r.deep_view() == selected_attribute(html@, selector@, attribute@),
{
    let selector = Selector::parse(selector).ok()?;
    let document = Html::parse_document(html);
    Some(document.select(&selector).map(|e| e.value().attr(attribute).map(String::from)).collect())
}

/// For each element below the root of the fragment `fragment` that
/// `selector` matches, in the order in which `scraper` yields them, its tag
/// name and its text nodes in document order; `None` where `scraper`
/// rejects `selector`.
pub uninterp spec fn selected_text(fragment: Seq<char>, selector: Seq<char>) -> Option<
    Seq<(Seq<char>, Seq<Seq<char>>)>,
>;

/// Calls `scraper::Html::parse_fragment` on `fragment` and
/// `scraper::ElementRef::select` on its root element with the selector that
/// `scraper::Selector::parse` reads from `selector`, then asks each element
/// for its name and its text. Trusted: the outcome depends on the two
/// arguments alone.
#[verifier::external_body]
pub(crate) fn select_text(fragment: &str, selector: &str) -> (r: Option<
    Vec<(String, Vec<String>)>,
>)
    ensures
        r.deep_view() == selected_text(fragment@, selector@),
{
    let selector = Selector::parse(selector).ok()?;
    let parsed = Html::parse_fragment(fragment);
    let found = parsed.root_element().select(&selector);
    Some(found.map(|e| (String::from(e.value().name()), e.text().map(String::from).collect())).collect())
}

/// Calls `String::from_iter`. Trusted: the string holds the characters of
/// `chars`, in order.
#[verifier::external_body]
pub(crate) fn string_of(chars: &[char]) -> (r: String)
    ensures
        r@ == chars@,
{
    String::from_iter(chars.iter())
}

} // verus!
