use subconv::errors::Error;
use subconv::urlcheck::check_url;

#[test]
fn scheme_other_than_http_is_refused() {
    assert_eq!(check_url("ftp://example.com"), Err(Error::UnsupportedScheme));
}

#[test]
fn mailto_scheme_is_refused() {
    assert_eq!(check_url("mailto:user@example.com"), Err(Error::UnsupportedScheme));
}

#[test]
fn unparsable_url_is_refused() {
    assert_eq!(check_url("not a url at all"), Err(Error::InvalidUrl));
}

#[test]
fn url_without_dotted_host_fails_the_pattern() {
    assert_eq!(check_url("http://localhost"), Err(Error::MalformedUrl));
}

#[test]
fn valid_url_is_lower_cased() {
    let r = check_url("https://Example.COM/Sub?Token=ABC");
    assert_eq!(r, Ok(String::from("https://example.com/sub?token=abc")));
}

#[test]
fn plain_http_url_is_accepted() {
    let r = check_url("http://example.org/path/to/sub");
    assert_eq!(r, Ok(String::from("http://example.org/path/to/sub")));
}
