//! What one fetch contributes to a crawl: the result to report and the edges
//! that the page gives rise to. The network call itself is made elsewhere
//! and handed in as a [`FetchOutcome`].

use crate::extract::{extract_urls, extracted, lemma_extracted_stay_on_host, LinkExtractor};
use crate::status::Status;
use crate::text::{byte_len, byte_length, decimal, decimal_string};
use crate::weburl::{base_url, url_origin, PageUrl, UrlView};
use vstd::prelude::*;
use vstd::string::*;

verus! {

/// What is known of one fetched URL once its fetch has ended.
pub struct ResponseResult {
    /// The path of the page on which the URL was found.
    pub from: String,
    /// The URL that was fetched.
    pub url: String,
    /// The HTTP status, where an answer came.
    pub status: Option<Status>,
    /// The size of the body in bytes, where one was read.
    pub size: Option<usize>,
    /// The message of the failure, where the fetch failed.
    pub error: Option<String>,
    /// A note for the reader, such as the number of links found.
    pub message: Option<String>,
}

/// The mathematical value of a [`ResponseResult`].
pub struct ResultView {
    pub from: Seq<char>,
    pub url: Seq<char>,
    pub status: Option<u16>,
    pub size: Option<usize>,
    pub error: Option<Seq<char>>,
    pub message: Option<Seq<char>>,
}

impl View for ResponseResult {
    type V = ResultView;

    open spec fn view(&self) -> ResultView {
        ResultView {
            from: self.from@,
            url: self.url@,
            status: self.status.deep_view(),
            size: self.size,
            error: self.error.deep_view(),
            message: self.message.deep_view(),
        }
    }
}

impl DeepView for ResponseResult {
    type V = ResultView;

    open spec fn deep_view(&self) -> ResultView {
        self@
    }
}

/// A discovered link: `source` links to `target`.
pub struct Edge {
    pub target: PageUrl,
    pub source: PageUrl,
}

/// The mathematical value of an [`Edge`].
pub struct EdgeView {
    pub target: UrlView,
    pub source: UrlView,
}

impl View for Edge {
    type V = EdgeView;

    open spec fn view(&self) -> EdgeView {
        EdgeView { target: self.target@, source: self.source@ }
    }
}

impl DeepView for Edge {
    type V = EdgeView;

    open spec fn deep_view(&self) -> EdgeView {
        self@
    }
}

impl Clone for Edge {
    fn clone(&self) -> (r: Edge)
        ensures
            r@ == self@,
    {
        Edge { target: self.target.clone(), source: self.source.clone() }
    }
}

/// How the network side of a fetch ended.
pub enum FetchOutcome {
    /// The request failed, or the body could not be read. `status` is the
    /// status that the failure itself carries, if any.
    Failed { status: Option<Status>, error: String },
    /// An answer came and its body was read as text.
    Loaded { code: Status, body: String },
}

/// The mathematical value of a [`FetchOutcome`].
pub enum OutcomeView {
    Failed { status: Option<u16>, error: Seq<char> },
    Loaded { code: u16, body: Seq<char> },
}

impl View for FetchOutcome {
    type V = OutcomeView;

    open spec fn view(&self) -> OutcomeView {
        match self {
            FetchOutcome::Failed { status, error } => OutcomeView::Failed {
                status: status.deep_view(),
                error: error@,
            },
            FetchOutcome::Loaded { code, body } => OutcomeView::Loaded {
                code: code@,
                body: body@,
            },
        }
    }
}

/// A finished fetch: its result and the edges found on the page.
pub struct Fetched {
    pub result: ResponseResult,
    pub edges: Vec<Edge>,
}

/// The mathematical value of a [`Fetched`].
pub struct FetchedView {
    pub result: ResultView,
    pub edges: Seq<EdgeView>,
}

impl View for Fetched {
    type V = FetchedView;

    open spec fn view(&self) -> FetchedView {
        FetchedView { result: self.result@, edges: self.edges.deep_view() }
    }
}

/// The note attached to a page on which `n` links were found.
pub open spec fn found_note(n: nat) -> Seq<char> {
    decimal(n) + " URL's found"@
}

/// The links on a page at `url` with text `body`: those found against the
/// origin of `url`, and none where `url` has no origin.
pub open spec fn page_links(url: UrlView, body: Seq<char>) -> Seq<UrlView> {
    match url_origin(url.href) {
        Some(base) => extracted(body, base),
        None => Seq::empty(),
    }
}

/// The edges from `source` to each of `targets`, in order.
pub open spec fn edges_from(targets: Seq<UrlView>, source: UrlView) -> Seq<EdgeView> {
    Seq::new(targets.len(), |i: int| EdgeView { target: targets[i], source })
}

/// What the fetch of `url`, found on `from`, contributes when the network
/// side ended with `outcome`.
///
/// A failure is reported with its message and whatever status it carries,
/// without size or edges. A page is reported with its status and the size of
/// its body in bytes; each link on it becomes an edge from `url`, and their
/// number is noted when it is not zero.
pub open spec fn fetched(url: UrlView, from: UrlView, outcome: OutcomeView) -> FetchedView {
    match outcome {
        OutcomeView::Failed { status, error } => FetchedView {
            result: ResultView {
                from: from.path,
                url: url.href,
                status,
                size: None,
                error: Some(error),
                message: None,
            },
            edges: Seq::empty(),
        },
        OutcomeView::Loaded { code, body } => {
            let targets = page_links(url, body);
            FetchedView {
                result: ResultView {
                    from: from.path,
                    url: url.href,
                    status: Some(code),
                    size: Some(byte_len(body) as usize),
                    error: None,
                    message: if targets.len() > 0 {
                        Some(found_note(targets.len()))
                    } else {
                        None
                    },
                },
                edges: edges_from(targets, url),
            }
        },
    }
}

/// Every edge that a fetch gives rise to starts at the fetched URL and ends
/// on the host of that URL's origin.
pub proof fn lemma_edges_stay_on_host(url: UrlView, from: UrlView, outcome: OutcomeView)
    ensures
        forall|i: int|
            0 <= i < fetched(url, from, outcome).edges.len() ==> {
                let edge = #[trigger] fetched(url, from, outcome).edges[i];
                &&& edge.source == url
                &&& url_origin(url.href) matches Some(base) && edge.target.host == base.host
            },
{
    match outcome {
        OutcomeView::Failed { .. } => {},
        OutcomeView::Loaded { code, body } => {
            match url_origin(url.href) {
                Some(base) => {
                    lemma_extracted_stay_on_host(body, base);
                },
                None => {},
            }
        },
    }
}

/// Puts together what the fetch of `url`, found on `from`, contributes.
pub fn fetch_result(
    extractor: &LinkExtractor,
    url: &PageUrl,
    from: &PageUrl,
    outcome: FetchOutcome,
) -> (r: Fetched)
    ensures
        r@ == fetched(url@, from@, outcome@),
{
    match outcome {
        FetchOutcome::Failed { status, error } => {
            let edges: Vec<Edge> = Vec::new();
            assert(edges.deep_view() =~= Seq::empty());
            Fetched {
                result: ResponseResult {
                    from: from.path.clone(),
                    url: url.href.clone(),
                    status,
                    size: None,
                    error: Some(error),
                    message: None,
                },
                edges,
            }
        },
        FetchOutcome::Loaded { code, body } => {
            let size = byte_length(body.as_str());
            let targets = match base_url(url) {
                Some(base) => extract_urls(extractor, body.as_str(), &base),
                None => {
                    let none: Vec<PageUrl> = Vec::new();
                    assert(none.deep_view() =~= Seq::empty());
                    none
                },
            };
            let ghost found = targets.deep_view();
            let count = targets.len();
            let mut edges: Vec<Edge> = Vec::new();
            let mut i: usize = 0;
            while i < targets.len()
                invariant
                    i <= targets.len(),
                    found == targets.deep_view(),
                    edges.len() == i,
                    forall|k: int|
                        0 <= k < i ==> (#[trigger] edges[k])@ == (EdgeView {
                            target: found[k],
                            source: url@,
                        }),
                decreases targets.len() - i,
            {
                edges.push(Edge { target: targets[i].clone(), source: url.clone() });
                i = i + 1;
            }
            assert(edges.deep_view() =~= edges_from(found, url@));
            let message = if count > 0 {
                let mut note = decimal_string(count);
                note.append(" URL's found");
                Some(note)
            } else {
                None
            };
            Fetched {
                result: ResponseResult {
                    from: from.path.clone(),
                    url: url.href.clone(),
                    status: Some(code),
                    size: Some(size),
                    error: None,
                    message,
                },
                edges,
            }
        },
    }
}

} // verus!
