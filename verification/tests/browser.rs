use webpage_scraper::browser::navigable;
use webpage_scraper::browser::url_to_pdf;
use webpage_scraper::browser::url_to_tab;
use webpage_scraper::browser::BrowserError;

#[test]
fn only_absolute_urls_are_navigated_to() {
    assert_eq!(url_to_tab("https://100-beste-plakate.de/plakate/"), Ok(()));
    assert_eq!(url_to_tab("https://google.com"), Ok(()));
    assert_eq!(url_to_tab("data:text/plain,hi"), Ok(()));
    assert_eq!(
        url_to_tab("google.com"),
        Err(BrowserError::UrlError(url::ParseError::RelativeUrlWithoutBase))
    );
    assert_eq!(
        url_to_tab(""),
        Err(BrowserError::UrlError(url::ParseError::RelativeUrlWithoutBase))
    );
    assert_eq!(
        url_to_tab("https://example.com:99999/"),
        Err(BrowserError::UrlError(url::ParseError::InvalidPort))
    );
}

#[test]
fn navigable_goes_by_the_outcome() {
    assert_eq!(navigable(Ok("https://example.com/".to_string())), Ok(()));
    assert_eq!(
        navigable(Err(url::ParseError::IdnaError)),
        Err(BrowserError::UrlError(url::ParseError::IdnaError))
    );
}

#[test]
fn the_printed_page_is_named_after_the_title() {
    assert_eq!(url_to_pdf("Google"), "Google.pdf");
    assert_eq!(url_to_pdf(""), ".pdf");
    assert_eq!(url_to_pdf("\u{00C9}cole cantonale d'art"), "\u{00C9}cole cantonale d'art.pdf");
}
