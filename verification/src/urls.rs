//! URL parsing and resolution, as the crawl needs it: an href found on a
//! page either parses as an absolute URL on its own or is resolved relative
//! to the page's URL, and the crawl compares hosts of the results.
//!
//! The parsing itself is done by the `url` crate; this module states what
//! the crawl relies on: parsing and joining are deterministic in their
//! string arguments, and a parsed URL's serialization re-parses to itself.

use vstd::prelude::*;

verus! {

/// The serialization that `url::Url::parse` gives to `s`: `None` when `s`
/// does not parse as an absolute URL, otherwise the normalized string form
/// of the parsed URL.
pub uninterp spec fn url_norm(s: Seq<char>) -> Option<Seq<char>>;

/// The domain of the URL that the normalized string `s` parses to: `None`
/// when `s` does not parse or its host is not a domain name (an IP address,
/// or no host at all).
pub uninterp spec fn url_host(s: Seq<char>) -> Option<Seq<char>>;

/// The serialization of resolving `href` relative to the URL that `base`
/// parses to (`url::Url::join`): `None` when `base` does not parse or the
/// resolution fails.
pub uninterp spec fn url_join(base: Seq<char>, href: Seq<char>) -> Option<Seq<char>>;

/// An absolute URL in its normalized string form, together with its domain.
pub struct UrlParts {
    pub url: String,
    pub host: Option<String>,
}

/// Well-formedness of a [`UrlParts`]: the string is a serialization, so it
/// re-parses to itself, and the recorded host is its domain.
pub open spec fn wf_parts(p: UrlParts) -> bool {
    &&& url_norm(p.url@) == Some(p.url@)
    &&& p.host.deep_view() == url_host(p.url@)
}

/// Relies on `url::Url::parse`: parsing is a pure function of the input
/// string; `as_str` is the stored serialization, which re-parses to the
/// same URL; `domain` returns the host exactly when it is a domain name.
#[verifier::external_body]
pub fn parse_abs_url(s: &str) -> (r: Option<UrlParts>)
    ensures
        (r is Some) == (url_norm(s@) is Some),
        r is Some ==> r->0.url@ == url_norm(s@)->0,
        r is Some ==> r->0.host.deep_view() == url_host(r->0.url@),
        r is Some ==> wf_parts(r->0),
{
    match url::Url::parse(s) {
        Ok(u) => {
            let host = u.domain().map(|d| d.to_string());
            Some(UrlParts { url: u.as_str().to_string(), host })
        }
        Err(_) => None,
    }
}

/// Relies on `url::Url::join` (with `url::Url::parse` for the base, which
/// is how [`url_join`] is read): resolution is a pure function of the two
/// strings, and the result's serialization re-parses to itself.
#[verifier::external_body]
pub fn join_url(base: &str, href: &str) -> (r: Option<UrlParts>)
    ensures
        (r is Some) == (url_join(base@, href@) is Some),
        r is Some ==> r->0.url@ == url_join(base@, href@)->0,
        r is Some ==> wf_parts(r->0),
{
    let b = match url::Url::parse(base) {
        Ok(u) => u,
        Err(_) => return None,
    };
    match b.join(href) {
        Ok(u) => {
            let host = u.domain().map(|d| d.to_string());
            Some(UrlParts { url: u.as_str().to_string(), host })
        }
        Err(_) => None,
    }
}

/// An href is dropped before resolution when it is empty or a pure in-page
/// fragment.
pub open spec fn spec_skip_href(h: Seq<char>) -> bool {
    h.len() == 0 || h[0] == '#'
}

/// Whether an href is dropped before resolution.
pub fn skip_href(h: &str) -> (r: bool)
    ensures
        r == spec_skip_href(h@),
{
    h.unicode_len() == 0 || h.get_char(0) == '#'
}

/// How an href found on the page `base` resolves: an href that itself
/// parses as an absolute URL is used as-is, otherwise it is resolved
/// relative to `base`; `None` when neither works.
pub open spec fn spec_resolve(base: Seq<char>, href: Seq<char>) -> Option<Seq<char>> {
    if url_norm(href) is Some {
        url_norm(href)
    } else {
        url_join(base, href)
    }
}

/// Resolves `href` against the page URL `base` to an absolute URL.
pub fn resolve_href(base: &str, href: &str) -> (r: Option<UrlParts>)
    ensures
        (r is Some) == (spec_resolve(base@, href@) is Some),
        r is Some ==> r->0.url@ == spec_resolve(base@, href@)->0,
        r is Some ==> wf_parts(r->0),
{
    match parse_abs_url(href) {
        Some(p) => Some(p),
        None => join_url(base, href),
    }
}

/// Law: an href that is itself an absolute URL resolves to the same string
/// from any two base pages, so two pages linking to the same absolute
/// target yield one normalized URL and deduplication catches the repeat.
pub proof fn lemma_resolve_absolute_same(base1: Seq<char>, base2: Seq<char>, href: Seq<char>)
    requires
        url_norm(href) is Some,
    ensures
        spec_resolve(base1, href) == spec_resolve(base2, href),
{
}

} // verus!
