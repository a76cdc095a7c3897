//! The URL normalizer: resolves a possibly-relative href against a base URL
//! into an absolute, fetchable URL, or rejects it.
//!
//! The prefix dispatch and the scheme filter are verified; only the parsing
//! of the base URL and standard relative resolution (dot-segment collapsing,
//! relative path joining) are done by the `url` crate behind trusted
//! wrappers.

use vstd::prelude::*;
use crate::text::starts_with;

verus! {

use vstd::string::StringExecFns;

/// The scheme and host of the URL string, when it parses as a URL that has a
/// host; `None` when it does not parse or has no host.
pub uninterp spec fn url_scheme_host(base: Seq<char>) -> Option<(Seq<char>, Seq<char>)>;

/// The absolute URL string obtained by resolving `href` against `base` with
/// standard URL-resolution semantics; `None` when `base` does not parse or
/// the resolution fails.
pub uninterp spec fn url_resolve(base: Seq<char>, href: Seq<char>) -> Option<Seq<char>>;

/// Relies on `url::Url::parse`, `Url::scheme` and `Url::host_str`: the
/// scheme and host of a URL are functions of its string form alone, and
/// `host_str` is `None` exactly when the parsed URL has no host.
#[verifier::external_body]
fn scheme_and_host(base: &str) -> (r: Option<(String, String)>)
    ensures
        r.deep_view() == url_scheme_host(base@),
{
    match url::Url::parse(base) {
        Ok(u) => match u.host_str() {
            Some(h) => Some((u.scheme().to_string(), h.to_string())),
            None => None,
        },
        Err(_) => None,
    }
}

/// Relies on `url::Url::parse` and `Url::join`: the resolved URL is a
/// function of the two string forms alone, and resolution fails exactly when
/// parsing or joining reports an error.
#[verifier::external_body]
fn resolve_against(base: &str, href: &str) -> (r: Option<String>)
    ensures
        r.deep_view() == url_resolve(base@, href@),
{
    match url::Url::parse(base) {
        Ok(u) => u.join(href).ok().map(|joined| joined.to_string()),
        Err(_) => None,
    }
}

pub open spec fn http_prefix() -> Seq<char> {
    seq!['h', 't', 't', 'p', ':', '/', '/']
}

pub open spec fn https_prefix() -> Seq<char> {
    seq!['h', 't', 't', 'p', 's', ':', '/', '/']
}

/// Whether the string is an absolute URL of one of the two fetchable
/// schemes. This is the filter that keeps `mailto:`, `javascript:` and every
/// other non-HTTP link out of the frontier.
pub open spec fn is_fetchable(u: Seq<char>) -> bool {
    http_prefix().is_prefix_of(u) || https_prefix().is_prefix_of(u)
}

/// The candidate absolute form of `href` against `base`, before the scheme
/// filter: a fragment-only href names a place on the page already at hand
/// and is rejected outright; an already-absolute href is kept unchanged, a
/// protocol-relative one is given the `https` scheme, a root-relative one is
/// combined with the base URL's scheme and host, and anything else is
/// resolved against `base` with standard URL-resolution semantics.
pub open spec fn resolve_spec(base: Seq<char>, href: Seq<char>) -> Option<Seq<char>> {
    if seq!['#'].is_prefix_of(href) {
        None
    } else if is_fetchable(href) {
        Some(href)
    } else if seq!['/', '/'].is_prefix_of(href) {
        Some(seq!['h', 't', 't', 'p', 's', ':'] + href)
    } else if seq!['/'].is_prefix_of(href) {
        match url_scheme_host(base) {
            Some(sh) => Some(sh.0 + seq![':', '/', '/'] + sh.1 + href),
            None => None,
        }
    } else {
        url_resolve(base, href)
    }
}

/// What the normalizer returns: the candidate absolute form, kept only when
/// it carries a fetchable scheme.
pub open spec fn normalize_spec(base: Seq<char>, href: Seq<char>) -> Option<Seq<char>> {
    match resolve_spec(base, href) {
        Some(u) => if is_fetchable(u) {
            Some(u)
        } else {
            None
        },
        None => None,
    }
}

/// The successfully normalized forms of a page's hrefs against its own URL,
/// in document order; rejected hrefs are silently dropped.
pub open spec fn normalized_links(base: Seq<char>, hrefs: Seq<Seq<char>>) -> Seq<Seq<char>>
    decreases hrefs.len(),
{
    if hrefs.len() == 0 {
        Seq::<Seq<char>>::empty()
    } else {
        match normalize_spec(base, hrefs[0]) {
            Some(u) => seq![u] + normalized_links(base, hrefs.drop_first()),
            None => normalized_links(base, hrefs.drop_first()),
        }
    }
}

/// Tests whether the string carries the `http://` or `https://` scheme.
fn is_fetchable_exec(u: &str) -> (r: bool)
    ensures
        r == is_fetchable(u@),
{
    proof {
        reveal_strlit("http://");
        reveal_strlit("https://");
        assert("http://"@ =~= http_prefix());
        assert("https://"@ =~= https_prefix());
    }
    starts_with(u, "http://") || starts_with(u, "https://")
}

/// Resolves `href` against `base` into an absolute, fetchable URL, or
/// rejects it. A rejected href is simply dropped by the caller; it never
/// stalls the crawl.
pub fn normalize(base: &str, href: &str) -> (r: Option<String>)
    ensures
        r.deep_view() == normalize_spec(base@, href@),
{
    proof {
        reveal_strlit("#");
        reveal_strlit("//");
        reveal_strlit("/");
        reveal_strlit("https:");
        reveal_strlit("://");
        assert("#"@ =~= seq!['#']);
        assert("//"@ =~= seq!['/', '/']);
        assert("/"@ =~= seq!['/']);
        assert("https:"@ =~= seq!['h', 't', 't', 'p', 's', ':']);
        assert("://"@ =~= seq![':', '/', '/']);
    }
    let candidate: Option<String> = if starts_with(href, "#") {
        None
    } else if is_fetchable_exec(href) {
        Some(href.to_owned())
    } else if starts_with(href, "//") {
        let mut u = String::new();
        u.append("https:");
        u.append(href);
        proof {
            assert(u@ =~= seq!['h', 't', 't', 'p', 's', ':'] + href@);
        }
        Some(u)
    } else if starts_with(href, "/") {
        match scheme_and_host(base) {
            Some(sh) => {
                let (scheme, host) = sh;
                let ghost scheme0 = scheme@;
                let mut u = scheme;
                u.append("://");
                u.append(host.as_str());
                u.append(href);
                proof {
                    assert(u@ =~= scheme0 + seq![':', '/', '/'] + host@ + href@);
                }
                Some(u)
            },
            None => None,
        }
    } else {
        resolve_against(base, href)
    };
    proof {
        assert(candidate.deep_view() == resolve_spec(base@, href@));
    }
    match candidate {
        Some(u) => {
            if is_fetchable_exec(u.as_str()) {
                Some(u)
            } else {
                None
            }
        },
        None => None,
    }
}

} // verus!
