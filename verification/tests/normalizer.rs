use rseek::urlnorm::normalize;

#[test]
fn relative_href_resolves_against_base_path() {
    assert_eq!(
        normalize("http://a.com/x/y", "z"),
        Some(String::from("http://a.com/x/z"))
    );
}

#[test]
fn root_relative_href_combines_scheme_and_host() {
    assert_eq!(
        normalize("http://a.com/x/y", "/z"),
        Some(String::from("http://a.com/z"))
    );
}

#[test]
fn protocol_relative_href_gets_https_scheme() {
    assert_eq!(
        normalize("http://a.com", "//b.com/p"),
        Some(String::from("https://b.com/p"))
    );
}

#[test]
fn absolute_href_is_kept_unchanged() {
    assert_eq!(
        normalize("http://a.com", "https://c.com"),
        Some(String::from("https://c.com"))
    );
}

#[test]
fn unparseable_base_is_rejected() {
    assert_eq!(normalize("not a url", "/z"), None);
}

#[test]
fn dot_segments_are_collapsed() {
    assert_eq!(
        normalize("http://a.com/a/b/c", "../d"),
        Some(String::from("http://a.com/a/d"))
    );
}

#[test]
fn mailto_href_never_reaches_the_frontier() {
    assert_eq!(normalize("http://a.com/p", "mailto:someone@b.com"), None);
}

#[test]
fn javascript_href_never_reaches_the_frontier() {
    assert_eq!(normalize("http://a.com/p", "javascript:void(0)"), None);
}

#[test]
fn fragment_only_href_never_reaches_the_frontier() {
    assert_eq!(normalize("http://a.com/p", "#top"), None);
    assert_eq!(normalize("http://a.com/p", "#"), None);
}

#[test]
fn href_with_a_path_before_its_fragment_is_still_followed() {
    assert_eq!(
        normalize("http://a.com/p", "q#frag"),
        Some(String::from("http://a.com/q#frag"))
    );
}

#[test]
fn absolute_http_href_is_kept_unchanged() {
    assert_eq!(
        normalize("https://a.com", "http://c.com/q?x=1"),
        Some(String::from("http://c.com/q?x=1"))
    );
}

#[test]
fn non_http_base_with_relative_href_is_rejected() {
    // The candidate resolves under the base's scheme, which is not fetchable.
    assert_eq!(normalize("ftp://a.com/dir/", "file.txt"), None);
}
