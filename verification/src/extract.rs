//! The link extractor: from the body of a page and the origin it was
//! fetched from to the same-host URLs that its anchors point at, in the
//! order in which they occur.

use crate::pattern::{regex_captures, regex_valid, Pattern};
use crate::text::{has_prefix, starts_with};
use crate::weburl::{same_host, url_join, url_parse, PageUrl, UrlView};
use vstd::prelude::*;
use vstd::string::*;

verus! {

/// The pattern that finds an anchor tag's `href` attribute. The quoted value
/// is captured by group 3 (single quotes) or group 5 (double quotes).
pub const HREF_PATTERN: &'static str =
    "<a\\s+(?:[^>]*?\\s+)?href\\s*=\\s*(('(?<href_a>.*?)')|(\"(?<href_b>.*?)\"))";

/// The index of the group that captures a single-quoted value.
pub const SINGLE_QUOTED: usize = 3;

/// The index of the group that captures a double-quoted value.
pub const DOUBLE_QUOTED: usize = 5;

/// The attribute value that one match of the pattern captured: the
/// single-quoted group if it took part in the match, else the double-quoted
/// one.
pub open spec fn href_of(groups: Seq<Option<Seq<char>>>) -> Option<Seq<char>> {
    if groups.len() > SINGLE_QUOTED && groups[SINGLE_QUOTED as int] is Some {
        groups[SINGLE_QUOTED as int]
    } else if groups.len() > DOUBLE_QUOTED {
        groups[DOUBLE_QUOTED as int]
    } else {
        None
    }
}

/// Whether `href` only names a fragment of the page it stands on.
pub open spec fn is_fragment(href: Seq<char>) -> bool {
    href.len() > 0 && href[0] == '#'
}

/// Whether `href` is written as an absolute `http` or `https` URL.
pub open spec fn is_absolute(href: Seq<char>) -> bool {
    has_prefix(href, "http://"@) || has_prefix(href, "https://"@)
}

/// The URL that `href` stands for on a page with origin `base`, if it is to
/// be followed: fragment-only references are skipped, absolute references
/// are parsed as they stand, all others are resolved against `base`, and
/// only a URL on the host of `base` is kept. What does not parse is dropped.
pub open spec fn resolved(href: Seq<char>, base: UrlView) -> Option<UrlView> {
    if is_fragment(href) {
        None
    } else {
        let target = if is_absolute(href) {
            url_parse(href)
        } else {
            url_join(base.href, href)
        };
        match target {
            Some(url) => if url.host == base.host {
                Some(url)
            } else {
                None
            },
            None => None,
        }
    }
}

/// The link that one match of the pattern contributes, if any.
pub open spec fn link_of(groups: Seq<Option<Seq<char>>>, base: UrlView) -> Option<UrlView> {
    match href_of(groups) {
        Some(href) => resolved(href, base),
        None => None,
    }
}

/// The links that a sequence of matches contributes, in the order of the
/// matches; a link that occurs twice is listed twice.
pub open spec fn links(matches: Seq<Seq<Option<Seq<char>>>>, base: UrlView) -> Seq<UrlView>
    decreases matches.len(),
{
    if matches.len() == 0 {
        Seq::empty()
    } else {
        let before = links(matches.drop_last(), base);
        match link_of(matches.last(), base) {
            Some(url) => before.push(url),
            None => before,
        }
    }
}

/// The links on a page with text `body` and origin `base`.
pub open spec fn extracted(body: Seq<char>, base: UrlView) -> Seq<UrlView> {
    links(regex_captures(HREF_PATTERN@, body), base)
}

/// Every link on a page is on the host of the origin it was resolved
/// against.
pub proof fn lemma_extracted_stay_on_host(body: Seq<char>, base: UrlView)
    ensures
        forall|i: int|
            0 <= i < extracted(body, base).len() ==> (#[trigger] extracted(body, base)[i]).host
                == base.host,
{
    lemma_links_stay_on_host(regex_captures(HREF_PATTERN@, body), base);
}

/// The link extractor: the anchor pattern in compiled form.
pub struct LinkExtractor {
    pattern: Pattern,
}

impl LinkExtractor {
    #[verifier::type_invariant]
    spec fn holds_the_anchor_pattern(self) -> bool {
        self.pattern@ == HREF_PATTERN@
    }

    /// Compiles the anchor pattern. `None` if the regex engine rejects it.
    pub fn new() -> (r: Option<LinkExtractor>)
        ensures
            r is Some <==> regex_valid(HREF_PATTERN@),
    {
        match Pattern::new(HREF_PATTERN) {
            Some(pattern) => Some(LinkExtractor { pattern }),
            None => None,
        }
    }
}

/// Every link taken from a page is on the host of the origin it was
/// resolved against: a reference to another host is never handed on.
pub proof fn lemma_links_stay_on_host(matches: Seq<Seq<Option<Seq<char>>>>, base: UrlView)
    ensures
        forall|i: int|
            0 <= i < links(matches, base).len() ==> (#[trigger] links(matches, base)[i]).host
                == base.host,
    decreases matches.len(),
{
    if matches.len() > 0 {
        lemma_links_stay_on_host(matches.drop_last(), base);
    }
}

fn is_fragment_only(href: &str) -> (r: bool)
    ensures
        r == is_fragment(href@),
{
    href.unicode_len() > 0 && href.get_char(0) == '#'
}

/// Decides what `href`, found on a page with origin `base`, points at.
pub fn resolve(href: &str, base: &PageUrl) -> (r: Option<PageUrl>)
    ensures
        r.deep_view() == resolved(href@, base@),
{
    if is_fragment_only(href) {
        return None;
    }
    let target = if starts_with(href, "http://") || starts_with(href, "https://") {
        PageUrl::parse(href)
    } else {
        base.join(href)
    };
    match target {
        Some(url) => if same_host(&url.host, &base.host) {
            Some(url)
        } else {
            None
        },
        None => None,
    }
}

fn pick_href(groups: &Vec<Option<String>>) -> (r: Option<&String>)
    ensures
        r.deep_view() == href_of(groups.deep_view()),
{
    if groups.len() > SINGLE_QUOTED {
        if let Some(value) = &groups[SINGLE_QUOTED] {
            return Some(value);
        }
    }
    if groups.len() > DOUBLE_QUOTED {
        match &groups[DOUBLE_QUOTED] {
            Some(value) => Some(value),
            None => None,
        }
    } else {
        None
    }
}

/// Finds the anchors in `body` and returns the URLs on the host of `base`
/// that they point at, in order of occurrence and with repetitions.
pub fn extract_urls(extractor: &LinkExtractor, body: &str, base: &PageUrl) -> (r: Vec<PageUrl>)
    ensures
        r.deep_view() == extracted(body@, base@),
        forall|i: int| 0 <= i < r.len() ==> (#[trigger] r[i]).host.deep_view() == base@.host,
{
    proof {
        use_type_invariant(extractor);
    }
    let mut out: Vec<PageUrl> = Vec::new();
    let found = extractor.pattern.captures(body);
    let ghost all = found.deep_view();
    let mut i: usize = 0;
    assert(all.take(0) =~= Seq::empty());
    assert(out.deep_view() =~= Seq::empty());
    while i < found.len()
        invariant
            i <= found.len(),
            all == found.deep_view(),
            out.deep_view() == links(all.take(i as int), base@),
        decreases found.len() - i,
    {
        let ghost before = out.deep_view();
        proof {
            assert(all.take(i + 1).drop_last() =~= all.take(i as int));
            assert(all.take(i + 1).last() == found[i as int].deep_view());
        }
        match pick_href(&found[i]) {
            Some(href) => {
                match resolve(href.as_str(), base) {
                    Some(url) => {
                        out.push(url);
                        assert(out.deep_view() =~= before.push(url@));
                    },
                    None => {},
                }
            },
            None => {},
        }
        i = i + 1;
    }
    proof {
        assert(all.take(i as int) =~= all);
        lemma_links_stay_on_host(all, base@);
        assert forall|k: int| 0 <= k < out.len() implies (#[trigger] out[k]).host.deep_view()
            == base@.host by {
            assert(out.deep_view()[k] == out[k]@);
        }
    }
    out
}

} // verus!
