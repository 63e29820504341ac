//! Absolute URLs as plain values. Parsing and resolution are done by the
//! `url` crate (through `reqwest::Url`); the rest of the library reads only
//! the parts that are copied out here.

use vstd::prelude::*;

verus! {

/// The host of a URL: its text as it stands in the serialization, and
/// whether it is a domain name rather than an IP address. Two hosts are the
/// same when both parts agree.
pub struct Host {
    pub name: String,
    pub is_domain: bool,
}

/// The mathematical value of a [`Host`].
pub struct HostView {
    pub name: Seq<char>,
    pub is_domain: bool,
}

impl View for Host {
    type V = HostView;

    open spec fn view(&self) -> HostView {
        HostView { name: self.name@, is_domain: self.is_domain }
    }
}

impl DeepView for Host {
    type V = HostView;

    open spec fn deep_view(&self) -> HostView {
        self@
    }
}

impl Clone for Host {
    fn clone(&self) -> (r: Host)
        ensures
            r@ == self@,
    {
        Host { name: self.name.clone(), is_domain: self.is_domain }
    }
}

/// A parsed absolute URL: its normalized serialization, its path and its
/// host. Two URLs are the same entity when their serializations are equal.
pub struct PageUrl {
    pub href: String,
    pub path: String,
    pub host: Option<Host>,
}

/// The mathematical value of a [`PageUrl`].
pub struct UrlView {
    pub href: Seq<char>,
    pub path: Seq<char>,
    pub host: Option<HostView>,
}

impl View for PageUrl {
    type V = UrlView;

    open spec fn view(&self) -> UrlView {
        UrlView { href: self.href@, path: self.path@, host: self.host.deep_view() }
    }
}

impl DeepView for PageUrl {
    type V = UrlView;

    open spec fn deep_view(&self) -> UrlView {
        self@
    }
}

impl Clone for PageUrl {
    fn clone(&self) -> (r: PageUrl)
        ensures
            r@ == self@,
    {
        let host = match &self.host {
            Some(h) => Some(h.clone()),
            None => None,
        };
        PageUrl { href: self.href.clone(), path: self.path.clone(), host }
    }
}

/// What `Url::parse` makes of `text`; `None` where it reports an error.
pub uninterp spec fn url_parse(text: Seq<char>) -> Option<UrlView>;

/// What `Url::join` makes of `reference` against the URL that `base` parses
/// to; `None` where `base` does not parse or the join reports an error.
pub uninterp spec fn url_join(base: Seq<char>, reference: Seq<char>) -> Option<UrlView>;

/// The URL that `text` parses to, with all path segments cleared and the
/// query removed; `None` where `text` does not parse or the URL cannot be a
/// base.
pub uninterp spec fn url_origin(text: Seq<char>) -> Option<UrlView>;

/// Calls `Url::parse` and copies out the serialization (`as_str`), the path
/// (`path`) and the host (`host_str`, with `domain` telling a name from an
/// address).
#[verifier::external_body]
fn parse_parts(text: &str) -> (r: Option<PageUrl>)
    ensures
        r.deep_view() == url_parse(text@),
{
    let url = reqwest::Url::parse(text).ok()?;
    Some(
        PageUrl {
            href: url.as_str().to_owned(),
            path: url.path().to_owned(),
            host: url.host_str().map(
                |h| Host { name: h.to_owned(), is_domain: url.domain().is_some() },
            ),
        },
    )
}

/// Parses `base` with `Url::parse`, calls `Url::join` on it with `reference`
/// and copies out the parts of the result as `parse_parts` does.
#[verifier::external_body]
fn join_parts(base: &str, reference: &str) -> (r: Option<PageUrl>)
    ensures
        r.deep_view() == url_join(base@, reference@),
{
    let url = reqwest::Url::parse(base).ok()?.join(reference).ok()?;
    Some(
        PageUrl {
            href: url.as_str().to_owned(),
            path: url.path().to_owned(),
            host: url.host_str().map(
                |h| Host { name: h.to_owned(), is_domain: url.domain().is_some() },
            ),
        },
    )
}

/// Parses `text` with `Url::parse`, empties the path through
/// `Url::path_segments_mut` and `PathSegmentsMut::clear`, drops the query
/// with `Url::set_query(None)` and copies out the parts of the result as
/// `parse_parts` does. A URL that cannot be a base has no path segments to
/// clear and gives `None`.
#[verifier::external_body]
fn origin_parts(text: &str) -> (r: Option<PageUrl>)
    ensures
        r.deep_view() == url_origin(text@),
{
    let mut url = reqwest::Url::parse(text).ok()?;
    url.path_segments_mut().ok()?.clear();
    url.set_query(None);
    Some(
        PageUrl {
            href: url.as_str().to_owned(),
            path: url.path().to_owned(),
            host: url.host_str().map(
                |h| Host { name: h.to_owned(), is_domain: url.domain().is_some() },
            ),
        },
    )
}

/// Tests whether two optional hosts are the same.
pub fn same_host(a: &Option<Host>, b: &Option<Host>) -> (r: bool)
    ensures
        r == (a.deep_view() == b.deep_view()),
{
    match (a, b) {
        (None, None) => true,
        (Some(x), Some(y)) => x.is_domain == y.is_domain && x.name == y.name,
        _ => false,
    }
}

impl PageUrl {
    /// Parses an absolute URL.
    pub fn parse(text: &str) -> (r: Option<PageUrl>)
        ensures
            r.deep_view() == url_parse(text@),
    {
        parse_parts(text)
    }

    /// Resolves `reference` against this URL.
    pub fn join(&self, reference: &str) -> (r: Option<PageUrl>)
        ensures
            r.deep_view() == url_join(self.href@, reference@),
    {
        join_parts(self.href.as_str(), reference)
    }
}

/// Reduces `url` to its origin: scheme and authority with an empty path and
/// no query. `None` for a URL that cannot be a base.
pub fn base_url(url: &PageUrl) -> (r: Option<PageUrl>)
    ensures
        r.deep_view() == url_origin(url.href@),
{
    origin_parts(url.href.as_str())
}

} // verus!
