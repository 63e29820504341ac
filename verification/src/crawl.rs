//! The crawl engine: one owner for the set of URLs already seen, the queue
//! of admitted URLs, the permits in use, and the tally of results. It makes
//! every decision of a crawl and does none of the work: a driver feeds in
//! what happened and carries out what comes back.
//!
//! Every admitted URL passes through four stages in order: it is queued,
//! launched (its fetch holds a permit), landed (the network call is over and
//! the permit is back) and reported. The engine knows at which stage each
//! URL stands, and takes in a landing or a result only for a URL that is due
//! for it.

use crate::fetch::{Edge, EdgeView, Fetched, FetchedView, ResultView};
use crate::pattern::{excluded, Pattern};
use crate::report::{
    errors_in, excluding, exit_status, is_error, lemma_errors_in_positive, log_result, plain_line,
    report, tallied, Print, PrintView, ResultState, StateView,
};
use std::collections::VecDeque;
use vstd::prelude::*;

verus! {

/// What became of a discovered edge.
#[derive(Clone, Copy, Debug, PartialEq, Eq, Structural)]
pub enum Discovery {
    /// The target matches the exclusion pattern and was dropped.
    Excluded,
    /// The target was seen before and was dropped.
    AlreadySeen,
    /// The target is new: it is now seen, outstanding and queued.
    Admitted,
    /// The crawl is over; the edge was ignored.
    Closed,
}

/// The mathematical state of a crawl.
pub struct CrawlView {
    /// The exclusion pattern, if one is set.
    pub exclude: Option<Seq<char>>,
    /// The number of permits.
    pub max_concurrent: nat,
    /// Every URL admitted so far, in the order of admission.
    pub seen: Seq<Seq<char>>,
    /// The admitted edges that wait to be launched, oldest first.
    pub queue: Seq<EdgeView>,
    /// The URLs whose fetch holds a permit.
    pub flying: Seq<Seq<char>>,
    /// The URLs whose fetch has given its permit back and whose result has
    /// not been reported yet.
    pub landed: Seq<Seq<char>>,
    /// The reporter's tally; its count is the number of results reported.
    pub state: StateView,
    /// The results reported so far, in order.
    pub reports: Seq<ResultView>,
}

/// What a completed fetch led to.
pub struct Completion {
    /// The lines to print: a notice for each excluded link, then the report
    /// of the result.
    pub prints: Vec<Print>,
    /// Whether this result ended the crawl.
    pub finished: bool,
}

/// The mathematical value of a [`Completion`].
pub struct CompletionView {
    pub prints: Seq<PrintView>,
    pub finished: bool,
}

impl View for Completion {
    type V = CompletionView;

    open spec fn view(&self) -> CompletionView {
        CompletionView { prints: self.prints.deep_view(), finished: self.finished }
    }
}

impl DeepView for Completion {
    type V = CompletionView;

    open spec fn deep_view(&self) -> CompletionView {
        self@
    }
}

/// The line that tells of an excluded URL.
pub open spec fn exclusion_notice(href: Seq<char>) -> PrintView {
    plain_line("> exclude: "@ + href)
}

/// The notices for those of `edges` whose target is excluded, in order.
pub open spec fn exclusion_notices(exclude: Option<Seq<char>>, edges: Seq<EdgeView>) -> Seq<
    PrintView,
>
    decreases edges.len(),
{
    if edges.len() == 0 {
        Seq::empty()
    } else {
        let before = exclusion_notices(exclude, edges.drop_last());
        if excluded(exclude, edges.last().target.href) {
            before.push(exclusion_notice(edges.last().target.href))
        } else {
            before
        }
    }
}

impl CrawlView {
    /// The state before anything was discovered.
    pub open spec fn start(max_concurrent: nat, exclude: Option<Seq<char>>) -> CrawlView {
        CrawlView {
            exclude,
            max_concurrent,
            seen: Seq::empty(),
            queue: Seq::empty(),
            flying: Seq::empty(),
            landed: Seq::empty(),
            state: StateView { count: 0, error_count: 0, last_len: 0 },
            reports: Seq::empty(),
        }
    }

    /// How many URLs have been admitted.
    pub open spec fn admitted(self) -> nat {
        self.seen.len()
    }

    /// How many fetches have been launched.
    pub open spec fn launched(self) -> nat {
        (self.seen.len() - self.queue.len()) as nat
    }

    /// How many results have been reported.
    pub open spec fn reported(self) -> nat {
        self.state.count
    }

    /// How many fetches hold a permit.
    pub open spec fn in_flight(self) -> nat {
        self.flying.len()
    }

    /// How many fetches have landed and not yet been reported.
    pub open spec fn in_process(self) -> nat {
        self.landed.len()
    }

    /// How many fetches have landed so far.
    pub open spec fn landings(self) -> nat {
        self.landed.len() + self.reports.len()
    }

    /// The URLs of the results reported so far, in order.
    pub open spec fn reported_urls(self) -> Seq<Seq<char>> {
        Seq::new(self.reports.len(), |i: int| self.reports[i].url)
    }

    /// How many admitted URLs have not been reported yet.
    pub open spec fn outstanding(self) -> nat {
        (self.admitted() - self.reported()) as nat
    }

    /// Whether the crawl is over: something was admitted and nothing is
    /// outstanding.
    pub open spec fn finished(self) -> bool {
        self.admitted() > 0 && self.reported() == self.admitted()
    }

    /// The URLs whose fetch has been launched, in the order of launch.
    pub open spec fn launched_urls(self) -> Seq<Seq<char>> {
        self.seen.take(self.launched() as int)
    }

    /// The sum of the four stage counters: it grows with every step that a
    /// URL takes.
    pub open spec fn progress(self) -> nat {
        self.admitted() + self.launched() + self.landings() + self.reported()
    }

    /// What holds of every state that a crawl can reach.
    pub open spec fn wf(self) -> bool {
        &&& self.seen.no_duplicates()
        &&& forall|i: int|
            0 <= i < self.seen.len() ==> !excluded(self.exclude, #[trigger] self.seen[i])
        &&& self.queue.len() <= self.seen.len()
        &&& forall|i: int|
            0 <= i < self.queue.len() ==> (#[trigger] self.queue[i]).target.href
                == self.seen[self.seen.len() - self.queue.len() + i]
        &&& self.flying.no_duplicates()
        &&& self.landed.no_duplicates()
        &&& self.reported_urls().no_duplicates()
        &&& self.launched() == self.flying.len() + self.landed.len() + self.reports.len()
        &&& forall|i: int|
            0 <= i < self.flying.len() ==> self.launched_urls().contains(#[trigger] self.flying[i])
        &&& forall|i: int|
            0 <= i < self.landed.len() ==> self.launched_urls().contains(#[trigger] self.landed[i])
        &&& forall|i: int|
            0 <= i < self.reports.len() ==> self.launched_urls().contains(
                (#[trigger] self.reports[i]).url,
            )
        &&& forall|i: int, j: int|
            0 <= i < self.flying.len() && 0 <= j < self.landed.len() ==> #[trigger] self.flying[i]
                != #[trigger] self.landed[j]
        &&& forall|i: int, j: int|
            0 <= i < self.flying.len() && 0 <= j < self.reports.len() ==> #[trigger] self.flying[i]
                != (#[trigger] self.reports[j]).url
        &&& forall|i: int, j: int|
            0 <= i < self.landed.len() && 0 <= j < self.reports.len() ==> #[trigger] self.landed[i]
                != (#[trigger] self.reports[j]).url
        &&& self.flying.len() <= self.max_concurrent
        &&& self.reports.len() == self.state.count
        &&& self.state.error_count == errors_in(self.reports)
    }

    /// An edge arrives at the frontier. It is ignored once the crawl is
    /// over, dropped if its target is excluded, dropped if its target was
    /// seen before, and admitted otherwise.
    pub open spec fn discover(self, edge: EdgeView) -> (CrawlView, Discovery) {
        let href = edge.target.href;
        if self.finished() {
            (self, Discovery::Closed)
        } else if excluded(self.exclude, href) {
            (self, Discovery::Excluded)
        } else if self.seen.contains(href) {
            (self, Discovery::AlreadySeen)
        } else {
            (
                CrawlView { seen: self.seen.push(href), queue: self.queue.push(edge), ..self },
                Discovery::Admitted,
            )
        }
    }

    /// The state after a run of edges has arrived, one after the other.
    pub open spec fn discover_all(self, edges: Seq<EdgeView>) -> CrawlView
        decreases edges.len(),
    {
        if edges.len() == 0 {
            self
        } else {
            self.discover_all(edges.drop_last()).discover(edges.last()).0
        }
    }

    /// The dispatcher asks for the next fetch. It gets the oldest queued
    /// edge if a permit is free, and nothing otherwise.
    pub open spec fn launch(self) -> (CrawlView, Option<EdgeView>) {
        if self.queue.len() > 0 && self.in_flight() < self.max_concurrent {
            (
                CrawlView {
                    queue: self.queue.drop_first(),
                    flying: self.flying.push(self.queue[0].target.href),
                    ..self
                },
                Some(self.queue[0]),
            )
        } else {
            (self, None)
        }
    }

    /// The fetch of `href` has ended its network call and gives its permit
    /// back. The answer is `false`, and nothing changes, if no fetch of
    /// `href` holds a permit.
    pub open spec fn land(self, href: Seq<char>) -> (CrawlView, bool) {
        if self.flying.contains(href) {
            (
                CrawlView {
                    flying: self.flying.remove(self.flying.index_of(href)),
                    landed: self.landed.push(href),
                    ..self
                },
                true,
            )
        } else {
            (self, false)
        }
    }

    /// How many URLs are outstanding once `fetched` has been taken in.
    pub open spec fn todo_after(self, fetched: FetchedView) -> nat {
        (self.discover_all(fetched.edges).seen.len() - (self.state.count + 1)) as nat
    }

    /// A landed fetch hands in what it found. Its edges arrive at the
    /// frontier first, then its result is reported; so the crawl is never
    /// found to be over while links of the last page wait to be looked at.
    /// Nothing changes if the result is for a URL whose fetch has not landed
    /// or was reported before.
    pub open spec fn complete(self, fetched: FetchedView, verbose: bool) -> (
        CrawlView,
        Option<CompletionView>,
    ) {
        if self.landed.contains(fetched.result.url) {
            let grown = self.discover_all(fetched.edges);
            let todo = self.todo_after(fetched);
            let done = CrawlView {
                landed: self.landed.remove(self.landed.index_of(fetched.result.url)),
                state: tallied(fetched.result, self.state, todo),
                reports: self.reports.push(fetched.result),
                ..grown
            };
            (
                done,
                Some(
                    CompletionView {
                        prints: exclusion_notices(self.exclude, fetched.edges) + report(
                            fetched.result,
                            self.state,
                            todo,
                            verbose,
                        ),
                        finished: done.finished(),
                    },
                ),
            )
        } else {
            (self, None)
        }
    }
}

/// Something that happens to a crawl.
pub enum Event {
    Discover(EdgeView),
    Launch,
    Land(Seq<char>),
    Complete(FetchedView, bool),
}

/// The state after one event.
pub open spec fn step(state: CrawlView, event: Event) -> CrawlView {
    match event {
        Event::Discover(edge) => state.discover(edge).0,
        Event::Launch => state.launch().0,
        Event::Land(href) => state.land(href).0,
        Event::Complete(fetched, verbose) => state.complete(fetched, verbose).0,
    }
}

/// The state after a run of events.
pub open spec fn run(state: CrawlView, events: Seq<Event>) -> CrawlView
    decreases events.len(),
{
    if events.len() == 0 {
        state
    } else {
        step(run(state, events.drop_last()), events.last())
    }
}

/// Whether `a` is the beginning of `b`.
pub open spec fn is_prefix(a: Seq<Seq<char>>, b: Seq<Seq<char>>) -> bool {
    a.len() <= b.len() && b.take(a.len() as int) == a
}

/// Taking one item out of a sequence without repetitions leaves a sequence
/// without repetitions that holds every other item and nothing else.
proof fn lemma_remove(s: Seq<Seq<char>>, i: int)
    requires
        s.no_duplicates(),
        0 <= i < s.len(),
    ensures
        s.remove(i).len() == s.len() - 1,
        s.remove(i).no_duplicates(),
        s.index_of(s[i]) == i,
        forall|j: int|
            0 <= j < s.remove(i).len() ==> s.contains(#[trigger] s.remove(i)[j]) && s.remove(i)[j]
                != s[i],
        forall|k: int| 0 <= k < s.len() && k != i ==> s.remove(i).contains(#[trigger] s[k]),
{
    let r = s.remove(i);
    assert forall|j: int| 0 <= j < r.len() implies s.contains(#[trigger] r[j]) && r[j] != s[i] by {
        if j < i {
            assert(r[j] == s[j]);
        } else {
            assert(r[j] == s[j + 1]);
        }
    }
    assert forall|a: int, b: int| 0 <= a < r.len() && 0 <= b < r.len() && a != b implies r[a]
        != r[b] by {
        let a2 = if a < i {
            a
        } else {
            a + 1
        };
        let b2 = if b < i {
            b
        } else {
            b + 1
        };
        assert(r[a] == s[a2] && r[b] == s[b2]);
    }
    assert forall|k: int| 0 <= k < s.len() && k != i implies r.contains(#[trigger] s[k]) by {
        if k < i {
            assert(r[k] == s[k]);
        } else {
            assert(r[k - 1] == s[k]);
        }
    }
}

/// An arriving edge keeps the state well-formed. It changes nothing unless
/// it is admitted, and it is admitted only if its target was not seen before
/// and is not excluded; then the target is the newest seen URL and one more
/// step has been taken.
pub proof fn lemma_discover(state: CrawlView, edge: EdgeView)
    requires
        state.wf(),
    ensures
        ({
            let (next, outcome) = state.discover(edge);
            &&& next.wf()
            &&& next.exclude == state.exclude
            &&& next.max_concurrent == state.max_concurrent
            &&& next.flying == state.flying
            &&& next.landed == state.landed
            &&& next.state == state.state
            &&& next.reports == state.reports
            &&& next.launched() == state.launched()
            &&& next.launched_urls() == state.launched_urls()
            &&& is_prefix(state.seen, next.seen)
            &&& outcome != Discovery::Admitted ==> next == state
            &&& outcome == Discovery::Admitted ==> {
                &&& !state.seen.contains(edge.target.href)
                &&& !excluded(state.exclude, edge.target.href)
                &&& next.seen == state.seen.push(edge.target.href)
                &&& next.progress() == state.progress() + 1
            }
            &&& outcome == Discovery::Excluded ==> excluded(state.exclude, edge.target.href)
            &&& outcome == Discovery::AlreadySeen ==> state.seen.contains(edge.target.href)
            &&& outcome == Discovery::Closed <==> state.finished()
            &&& !state.finished() ==> next.seen.contains(edge.target.href) || excluded(
                state.exclude,
                edge.target.href,
            )
        }),
{
    let (next, outcome) = state.discover(edge);
    let href = edge.target.href;
    assert(state.seen.take(state.seen.len() as int) =~= state.seen);
    if outcome == Discovery::Admitted {
        assert(next.seen.take(state.seen.len() as int) =~= state.seen);
        assert(next.seen[state.seen.len() as int] == href);
        assert(next.launched_urls() =~= state.launched_urls());
        assert forall|i: int, j: int|
            0 <= i < next.seen.len() && 0 <= j < next.seen.len() && i != j implies next.seen[i]
            != next.seen[j] by {
            if i < state.seen.len() {
                assert(state.seen[i] == next.seen[i]);
            }
            if j < state.seen.len() {
                assert(state.seen[j] == next.seen[j]);
            }
        }
        assert forall|i: int| 0 <= i < next.queue.len() implies (#[trigger] next.queue[i]).target.href
            == next.seen[next.seen.len() - next.queue.len() + i] by {
            if i < state.queue.len() {
                assert(next.queue[i] == state.queue[i]);
            }
        }
    }
}

/// A run of arriving edges keeps the state well-formed, leaves everything
/// but the seen URLs and the queue as it was, and only adds to the seen
/// URLs. While a fetch is under way the crawl is not over, so each target is
/// seen afterwards unless it is excluded.
pub proof fn lemma_discover_all(state: CrawlView, edges: Seq<EdgeView>)
    requires
        state.wf(),
    ensures
        ({
            let next = state.discover_all(edges);
            &&& next.wf()
            &&& next.exclude == state.exclude
            &&& next.max_concurrent == state.max_concurrent
            &&& next.flying == state.flying
            &&& next.landed == state.landed
            &&& next.state == state.state
            &&& next.reports == state.reports
            &&& next.launched() == state.launched()
            &&& next.launched_urls() == state.launched_urls()
            &&& is_prefix(state.seen, next.seen)
            &&& next.progress() >= state.progress()
            &&& state.outstanding() > 0 ==> forall|i: int|
                0 <= i < edges.len() ==> next.seen.contains((#[trigger] edges[i]).target.href)
                    || excluded(state.exclude, edges[i].target.href)
        }),
    decreases edges.len(),
{
    assert(state.seen.take(state.seen.len() as int) =~= state.seen);
    if edges.len() > 0 {
        let before = state.discover_all(edges.drop_last());
        lemma_discover_all(state, edges.drop_last());
        lemma_discover(before, edges.last());
        let next = before.discover(edges.last()).0;
        assert(next.seen.take(state.seen.len() as int) =~= before.seen.take(
            state.seen.len() as int,
        ));
        if state.outstanding() > 0 {
            assert forall|i: int| 0 <= i < edges.len() implies next.seen.contains(
                (#[trigger] edges[i]).target.href,
            ) || excluded(state.exclude, edges[i].target.href) by {
                if i < edges.len() - 1 {
                    assert(edges.drop_last()[i] == edges[i]);
                    if before.seen.contains(edges[i].target.href) {
                        let k = choose|k: int|
                            0 <= k < before.seen.len() && before.seen[k] == edges[i].target.href;
                        assert(next.seen.take(before.seen.len() as int)[k] == next.seen[k]);
                    }
                }
            }
        }
    }
}

/// A launch keeps the state well-formed. What it hands out is the oldest
/// admitted URL not yet launched: one that no earlier launch handed out.
pub proof fn lemma_launch(state: CrawlView)
    requires
        state.wf(),
    ensures
        ({
            let (next, edge) = state.launch();
            &&& next.wf()
            &&& next.seen == state.seen
            &&& next.exclude == state.exclude
            &&& next.max_concurrent == state.max_concurrent
            &&& edge is Some <==> state.queue.len() > 0 && state.in_flight()
                < state.max_concurrent
            &&& edge is None ==> next == state
            &&& edge matches Some(e) ==> {
                &&& e.target.href == state.seen[state.launched() as int]
                &&& !state.launched_urls().contains(e.target.href)
                &&& next.launched_urls() == state.launched_urls().push(e.target.href)
                &&& next.in_flight() == state.in_flight() + 1
                &&& next.progress() == state.progress() + 1
            }
        }),
{
    let (next, edge) = state.launch();
    if edge is Some {
        let n = state.launched() as int;
        let href = state.seen[n];
        let before = state.launched_urls();
        let after = next.launched_urls();
        assert(state.queue[0].target.href == href);
        assert forall|i: int| 0 <= i < next.queue.len() implies (#[trigger] next.queue[i]).target.href
            == next.seen[next.seen.len() - next.queue.len() + i] by {
            assert(next.queue[i] == state.queue[i + 1]);
        }
        assert(after =~= before.push(href));
        if before.contains(href) {
            let k = choose|k: int| 0 <= k < before.len() && before[k] == href;
            assert(state.seen[k] == state.seen[n]);
        }
        assert forall|x: Seq<char>| before.contains(x) implies after.contains(x) by {
            let k = choose|k: int| 0 <= k < before.len() && before[k] == x;
            assert(after[k] == x);
        }
        assert(after[n] == href);
        assert forall|i: int, j: int|
            0 <= i < next.flying.len() && 0 <= j < next.flying.len() && i != j implies next.flying[i]
            != next.flying[j] by {
            if i < state.flying.len() {
                assert(before.contains(state.flying[i]));
            }
            if j < state.flying.len() {
                assert(before.contains(state.flying[j]));
            }
        }
        assert forall|i: int| 0 <= i < next.flying.len() implies after.contains(
            #[trigger] next.flying[i],
        ) by {
            if i < state.flying.len() {
                assert(before.contains(state.flying[i]));
            }
        }
        assert forall|i: int, j: int|
            0 <= i < next.flying.len() && 0 <= j < next.landed.len() implies #[trigger] next.flying[i]
            != #[trigger] next.landed[j] by {
            assert(before.contains(state.landed[j]));
            if i < state.flying.len() {
                assert(state.flying[i] != state.landed[j]);
            }
        }
        assert forall|i: int, j: int|
            0 <= i < next.flying.len() && 0 <= j < next.reports.len() implies #[trigger] next.flying[i]
            != (#[trigger] next.reports[j]).url by {
            assert(before.contains(state.reports[j].url));
            if i < state.flying.len() {
                assert(state.flying[i] != state.reports[j].url);
            }
        }
    }
}

/// A landing keeps the state well-formed. It is taken in exactly when the
/// fetch of the URL holds a permit, and then the permit is free again.
pub proof fn lemma_land(state: CrawlView, href: Seq<char>)
    requires
        state.wf(),
    ensures
        ({
            let (next, done) = state.land(href);
            &&& next.wf()
            &&& next.seen == state.seen
            &&& next.queue == state.queue
            &&& next.exclude == state.exclude
            &&& next.max_concurrent == state.max_concurrent
            &&& done <==> state.flying.contains(href)
            &&& !done ==> next == state
            &&& done ==> {
                &&& next.in_flight() + 1 == state.in_flight()
                &&& next.landed == state.landed.push(href)
                &&& !next.flying.contains(href)
                &&& next.progress() == state.progress() + 1
            }
        }),
{
    let (next, done) = state.land(href);
    if done {
        let i = state.flying.index_of(href);
        lemma_remove(state.flying, i);
        assert forall|a: int, b: int|
            0 <= a < next.landed.len() && 0 <= b < next.landed.len() && a != b implies next.landed[a]
            != next.landed[b] by {
            if a < state.landed.len() {
                assert(state.flying[i] != state.landed[a]);
            }
            if b < state.landed.len() {
                assert(state.flying[i] != state.landed[b]);
            }
        }
        assert forall|a: int| 0 <= a < next.flying.len() implies next.launched_urls().contains(
            #[trigger] next.flying[a],
        ) by {
            let k = choose|k: int| 0 <= k < state.flying.len() && state.flying[k] == next.flying[a];
            assert(state.launched_urls().contains(state.flying[k]));
        }
        assert forall|a: int| 0 <= a < next.landed.len() implies next.launched_urls().contains(
            #[trigger] next.landed[a],
        ) by {
            if a < state.landed.len() {
                assert(state.launched_urls().contains(state.landed[a]));
            } else {
                assert(state.launched_urls().contains(state.flying[i]));
            }
        }
        assert forall|a: int, b: int|
            0 <= a < next.flying.len() && 0 <= b < next.landed.len() implies #[trigger] next.flying[a]
            != #[trigger] next.landed[b] by {
            let k = choose|k: int| 0 <= k < state.flying.len() && state.flying[k] == next.flying[a];
            if b < state.landed.len() {
                assert(state.flying[k] != state.landed[b]);
            }
        }
        assert forall|a: int, b: int|
            0 <= a < next.flying.len() && 0 <= b < next.reports.len() implies #[trigger] next.flying[a]
            != (#[trigger] next.reports[b]).url by {
            let k = choose|k: int| 0 <= k < state.flying.len() && state.flying[k] == next.flying[a];
            assert(state.flying[k] != state.reports[b].url);
        }
        assert forall|a: int, b: int|
            0 <= a < next.landed.len() && 0 <= b < next.reports.len() implies #[trigger] next.landed[a]
            != (#[trigger] next.reports[b]).url by {
            if a < state.landed.len() {
                assert(state.landed[a] != state.reports[b].url);
            } else {
                assert(state.flying[i] != state.reports[b].url);
            }
        }
        if next.flying.contains(href) {
            let a = choose|a: int| 0 <= a < next.flying.len() && next.flying[a] == href;
            assert(next.flying[a] != state.flying[i]);
        }
    }
}

/// A completion keeps the state well-formed. It is taken in exactly when
/// the result is for a URL whose fetch has landed and awaits its report;
/// then that URL has its result on record, the error count has grown by one
/// if the result is an error and not at all otherwise, and no seen URL is
/// lost.
pub proof fn lemma_complete(state: CrawlView, fetched: FetchedView, verbose: bool)
    requires
        state.wf(),
    ensures
        ({
            let (next, answer) = state.complete(fetched, verbose);
            &&& next.wf()
            &&& next.exclude == state.exclude
            &&& next.max_concurrent == state.max_concurrent
            &&& is_prefix(state.seen, next.seen)
            &&& next.flying == state.flying
            &&& next.launched() == state.launched()
            &&& answer is Some <==> state.landed.contains(fetched.result.url)
            &&& answer is None ==> next == state
            &&& answer is Some ==> {
                &&& next.reports == state.reports.push(fetched.result)
                &&& !next.landed.contains(fetched.result.url)
                &&& next.in_process() + 1 == state.in_process()
                &&& next.state.count == state.state.count + 1
                &&& next.state.error_count == state.state.error_count + if is_error(
                    fetched.result,
                ) {
                    1nat
                } else {
                    0nat
                }
                &&& next.progress() > state.progress()
                &&& next.outstanding() == state.todo_after(fetched)
            }
        }),
{
    lemma_discover_all(state, fetched.edges);
    assert(state.seen.take(state.seen.len() as int) =~= state.seen);
    let (next, answer) = state.complete(fetched, verbose);
    let url = fetched.result.url;
    if state.landed.contains(url) {
        let i = state.landed.index_of(url);
        lemma_remove(state.landed, i);
        assert(state.reports.push(fetched.result).drop_last() =~= state.reports);
        assert(next.reported_urls() =~= state.reported_urls().push(url));
        assert forall|a: int, b: int|
            0 <= a < next.reports.len() && 0 <= b < next.reports.len() && a != b implies next.reported_urls()[a]
            != next.reported_urls()[b] by {
            if a < state.reports.len() && b < state.reports.len() {
                assert(state.reported_urls()[a] != state.reported_urls()[b]);
            } else if a < state.reports.len() {
                assert(state.landed[i] != state.reports[a].url);
            } else {
                assert(state.landed[i] != state.reports[b].url);
            }
        }
        assert forall|a: int| 0 <= a < next.flying.len() implies next.launched_urls().contains(
            #[trigger] next.flying[a],
        ) by {
            assert(state.launched_urls().contains(state.flying[a]));
        }
        assert forall|a: int| 0 <= a < next.landed.len() implies next.launched_urls().contains(
            #[trigger] next.landed[a],
        ) by {
            let k = choose|k: int| 0 <= k < state.landed.len() && state.landed[k] == next.landed[a];
            assert(state.launched_urls().contains(state.landed[k]));
        }
        assert forall|a: int| 0 <= a < next.reports.len() implies next.launched_urls().contains(
            (#[trigger] next.reports[a]).url,
        ) by {
            if a < state.reports.len() {
                assert(state.launched_urls().contains(state.reports[a].url));
            } else {
                assert(state.launched_urls().contains(state.landed[i]));
            }
        }
        assert forall|a: int, b: int|
            0 <= a < next.flying.len() && 0 <= b < next.landed.len() implies #[trigger] next.flying[a]
            != #[trigger] next.landed[b] by {
            let k = choose|k: int| 0 <= k < state.landed.len() && state.landed[k] == next.landed[b];
            assert(state.flying[a] != state.landed[k]);
        }
        assert forall|a: int, b: int|
            0 <= a < next.flying.len() && 0 <= b < next.reports.len() implies #[trigger] next.flying[a]
            != (#[trigger] next.reports[b]).url by {
            if b < state.reports.len() {
                assert(state.flying[a] != state.reports[b].url);
            } else {
                assert(state.flying[a] != state.landed[i]);
            }
        }
        assert forall|a: int, b: int|
            0 <= a < next.landed.len() && 0 <= b < next.reports.len() implies #[trigger] next.landed[a]
            != (#[trigger] next.reports[b]).url by {
            let k = choose|k: int| 0 <= k < state.landed.len() && state.landed[k] == next.landed[a];
            if b < state.reports.len() {
                assert(state.landed[k] != state.reports[b].url);
            }
        }
        if next.landed.contains(url) {
            let a = choose|a: int| 0 <= a < next.landed.len() && next.landed[a] == url;
            assert(next.landed[a] != state.landed[i]);
        }
    }
}

/// Every step keeps the state well-formed and never lowers a counter.
pub proof fn lemma_step(state: CrawlView, event: Event)
    requires
        state.wf(),
    ensures
        step(state, event).wf(),
        is_prefix(state.seen, step(state, event).seen),
        step(state, event).progress() >= state.progress(),
        step(state, event).exclude == state.exclude,
        step(state, event).max_concurrent == state.max_concurrent,
{
    assert(state.seen.take(state.seen.len() as int) =~= state.seen);
    match event {
        Event::Discover(edge) => lemma_discover(state, edge),
        Event::Launch => lemma_launch(state),
        Event::Land(href) => lemma_land(state, href),
        Event::Complete(fetched, verbose) => lemma_complete(state, fetched, verbose),
    }
}

/// Whatever happens, in whatever order, a crawl that starts well-formed
/// stays well-formed, and what was seen once stays seen.
pub proof fn lemma_run(state: CrawlView, events: Seq<Event>)
    requires
        state.wf(),
    ensures
        run(state, events).wf(),
        is_prefix(state.seen, run(state, events).seen),
        run(state, events).progress() >= state.progress(),
        run(state, events).exclude == state.exclude,
        run(state, events).max_concurrent == state.max_concurrent,
    decreases events.len(),
{
    assert(state.seen.take(state.seen.len() as int) =~= state.seen);
    if events.len() > 0 {
        let before = run(state, events.drop_last());
        lemma_run(state, events.drop_last());
        lemma_step(before, events.last());
        let next = step(before, events.last());
        assert(next.seen.take(state.seen.len() as int) =~= before.seen.take(
            state.seen.len() as int,
        ));
    }
}

/// The state before anything was discovered is well-formed.
pub proof fn lemma_start(max_concurrent: nat, exclude: Option<Seq<char>>)
    ensures
        CrawlView::start(max_concurrent, exclude).wf(),
        CrawlView::start(max_concurrent, exclude).progress() == 0,
{
}

/// Every state that a crawl can reach from its start is well-formed.
pub proof fn lemma_reachable(max_concurrent: nat, exclude: Option<Seq<char>>, events: Seq<Event>)
    ensures
        run(CrawlView::start(max_concurrent, exclude), events).wf(),
{
    lemma_start(max_concurrent, exclude);
    lemma_run(CrawlView::start(max_concurrent, exclude), events);
}

/// At most once: however often a URL is linked, and whatever happens in
/// between, it is admitted no more than once. After an edge to it was
/// admitted, no later edge to it is.
pub proof fn lemma_admitted_once(
    state: CrawlView,
    first: EdgeView,
    between: Seq<Event>,
    second: EdgeView,
)
    requires
        state.wf(),
        first.target.href == second.target.href,
        state.discover(first).1 == Discovery::Admitted,
    ensures
        run(state.discover(first).0, between).discover(second).1 != Discovery::Admitted,
        run(state.discover(first).0, between).seen.no_duplicates(),
{
    lemma_discover(state, first);
    let admitted = state.discover(first).0;
    lemma_run(admitted, between);
    let later = run(admitted, between);
    let k = state.seen.len() as int;
    assert(admitted.seen[k] == first.target.href);
    assert(later.seen.take(admitted.seen.len() as int)[k] == later.seen[k]);
    assert(later.seen.contains(second.target.href));
}

/// At most once: the URLs launched so far are all different, so no URL is
/// fetched twice; and each of them stands at exactly one stage: its fetch
/// holds a permit, or has landed, or has its result on record.
pub proof fn lemma_launched_once(state: CrawlView)
    requires
        state.wf(),
    ensures
        state.launched_urls().no_duplicates(),
        state.launched_urls().len() == state.launched(),
        state.reported_urls().no_duplicates(),
        forall|k: int|
            0 <= k < state.launched() ==> {
                let url = #[trigger] state.seen[k];
                state.flying.contains(url) || state.landed.contains(url)
                    || state.reported_urls().contains(url)
            },
{
    let launched = state.launched_urls();
    let staged = state.flying + state.landed + state.reported_urls();
    assert forall|a: int, b: int| 0 <= a < staged.len() && 0 <= b < staged.len() && a != b implies staged[a]
        != staged[b] by {
        lemma_staged_index(state, a);
        lemma_staged_index(state, b);
    }
    assert forall|x: Seq<char>| staged.to_set().contains(x) implies launched.to_set().contains(
        x,
    ) by {
        let a = choose|a: int| 0 <= a < staged.len() && staged[a] == x;
        lemma_staged_index(state, a);
    }
    staged.unique_seq_to_set();
    launched.unique_seq_to_set();
    vstd::set_lib::lemma_subset_equality(staged.to_set(), launched.to_set());
    assert forall|k: int| 0 <= k < state.launched() implies {
        let url = #[trigger] state.seen[k];
        state.flying.contains(url) || state.landed.contains(url) || state.reported_urls().contains(
            url,
        )
    } by {
        let url = state.seen[k];
        assert(launched[k] == url);
        assert(launched.to_set().contains(url));
        assert(staged.to_set().contains(url));
        let a = choose|a: int| 0 <= a < staged.len() && staged[a] == url;
        lemma_staged_index(state, a);
    }
}

/// Where the `a`-th of the staged URLs (those in flight, then those landed,
/// then those reported) comes from.
proof fn lemma_staged_index(state: CrawlView, a: int)
    requires
        state.wf(),
        0 <= a < state.flying.len() + state.landed.len() + state.reports.len(),
    ensures
        ({
            let staged = state.flying + state.landed + state.reported_urls();
            let f = state.flying.len() as int;
            let l = state.landed.len() as int;
            &&& staged.len() == f + l + state.reports.len()
            &&& state.launched_urls().contains(staged[a])
            &&& a < f ==> staged[a] == state.flying[a] && state.flying.contains(staged[a])
            &&& f <= a < f + l ==> staged[a] == state.landed[a - f] && state.landed.contains(
                staged[a],
            )
            &&& f + l <= a ==> staged[a] == state.reports[a - f - l].url
                && state.reported_urls().contains(staged[a])
        }),
{
    let f = state.flying.len() as int;
    let l = state.landed.len() as int;
    if a < f {
        assert(state.launched_urls().contains(state.flying[a]));
    } else if a < f + l {
        assert(state.launched_urls().contains(state.landed[a - f]));
    } else {
        assert(state.launched_urls().contains(state.reports[a - f - l].url));
        assert(state.reported_urls()[a - f - l] == state.reports[a - f - l].url);
    }
}

/// Soundness of termination: when the crawl is over, every admitted URL has
/// been launched, nothing is queued, no fetch holds a permit, none awaits
/// its report, and every admitted URL has exactly one result on record. From
/// then on nothing changes any more.
pub proof fn lemma_finished_is_final(state: CrawlView, event: Event)
    requires
        state.wf(),
        state.finished(),
    ensures
        state.queue.len() == 0,
        state.in_flight() == 0,
        state.in_process() == 0,
        state.outstanding() == 0,
        state.launched_urls() == state.seen,
        state.reports.len() == state.seen.len(),
        state.reported_urls().no_duplicates(),
        forall|k: int|
            0 <= k < state.seen.len() ==> state.reported_urls().contains(#[trigger] state.seen[k]),
        forall|i: int|
            0 <= i < state.reports.len() ==> state.seen.contains((#[trigger] state.reports[i]).url),
        step(state, event) == state,
{
    assert(state.queue =~= Seq::empty());
    assert(state.flying =~= Seq::empty());
    assert(state.landed =~= Seq::empty());
    assert(state.launched_urls() =~= state.seen);
    lemma_launched_once(state);
    match event {
        Event::Discover(edge) => {},
        Event::Launch => {},
        Event::Land(href) => {},
        Event::Complete(fetched, verbose) => {},
    }
}

/// Whether every edge that `event` brings points into `universe`.
pub open spec fn within(event: Event, universe: Set<Seq<char>>) -> bool {
    match event {
        Event::Discover(edge) => universe.contains(edge.target.href),
        Event::Complete(fetched, _) => forall|k: int|
            0 <= k < fetched.edges.len() ==> universe.contains(
                (#[trigger] fetched.edges[k]).target.href,
            ),
        _ => true,
    }
}

/// Whether every edge that `events` bring points into `universe`.
pub open spec fn all_within(events: Seq<Event>, universe: Set<Seq<char>>) -> bool {
    forall|i: int| 0 <= i < events.len() ==> within(#[trigger] events[i], universe)
}

/// Whether every seen URL of `state` lies in `universe`.
pub open spec fn seen_within(state: CrawlView, universe: Set<Seq<char>>) -> bool {
    forall|i: int| 0 <= i < state.seen.len() ==> universe.contains(#[trigger] state.seen[i])
}

/// How many events of a run change the state.
pub open spec fn changes(state: CrawlView, events: Seq<Event>) -> nat
    decreases events.len(),
{
    if events.len() == 0 {
        0
    } else {
        let before = run(state, events.drop_last());
        changes(state, events.drop_last()) + if step(before, events.last()) != before {
            1nat
        } else {
            0nat
        }
    }
}

proof fn lemma_discover_all_within(
    state: CrawlView,
    edges: Seq<EdgeView>,
    universe: Set<Seq<char>>,
)
    requires
        state.wf(),
        seen_within(state, universe),
        forall|k: int| 0 <= k < edges.len() ==> universe.contains((#[trigger] edges[k]).target.href),
    ensures
        seen_within(state.discover_all(edges), universe),
    decreases edges.len(),
{
    if edges.len() > 0 {
        let init = edges.drop_last();
        assert forall|k: int| 0 <= k < init.len() implies universe.contains(
            (#[trigger] init[k]).target.href,
        ) by {
            assert(init[k] == edges[k]);
        }
        lemma_discover_all_within(state, init, universe);
        lemma_discover_all(state, init);
        lemma_discover(state.discover_all(init), edges.last());
        assert(universe.contains(edges[edges.len() - 1].target.href));
    }
}

/// A step that is fed from `universe` keeps the seen URLs in it, and a step
/// that changes the state moves some URL forward.
proof fn lemma_step_within(state: CrawlView, event: Event, universe: Set<Seq<char>>)
    requires
        state.wf(),
        seen_within(state, universe),
        within(event, universe),
    ensures
        seen_within(step(state, event), universe),
        step(state, event) != state ==> step(state, event).progress() > state.progress(),
{
    match event {
        Event::Discover(edge) => lemma_discover(state, edge),
        Event::Launch => lemma_launch(state),
        Event::Land(href) => lemma_land(state, href),
        Event::Complete(fetched, verbose) => {
            lemma_complete(state, fetched, verbose);
            lemma_discover_all_within(state, fetched.edges, universe);
        },
    }
}

/// Termination: a crawl over a finite set of URLs comes to rest. However the
/// events fall, as long as every edge points into the finite set `universe`,
/// no more than four events per URL of `universe` change the state: one to
/// admit it, one to launch its fetch, one to land it and one to report it.
pub proof fn lemma_crawl_comes_to_rest(
    state: CrawlView,
    events: Seq<Event>,
    universe: Set<Seq<char>>,
)
    requires
        state.wf(),
        universe.finite(),
        seen_within(state, universe),
        all_within(events, universe),
    ensures
        run(state, events).wf(),
        seen_within(run(state, events), universe),
        state.progress() + changes(state, events) <= run(state, events).progress(),
        run(state, events).progress() <= 4 * universe.len(),
    decreases events.len(),
{
    if events.len() > 0 {
        let init = events.drop_last();
        assert forall|i: int| 0 <= i < init.len() implies within(#[trigger] init[i], universe) by {
            assert(init[i] == events[i]);
        }
        lemma_crawl_comes_to_rest(state, init, universe);
        assert(within(events[events.len() - 1], universe));
        lemma_step(run(state, init), events.last());
        lemma_step_within(run(state, init), events.last(), universe);
    }
    lemma_progress_bounded(run(state, events), universe);
}

/// The bound behind termination: no more URLs are admitted than the crawl
/// is confined to, and each admitted URL takes at most four steps. When all
/// have taken all four, the crawl is at rest.
pub proof fn lemma_progress_bounded(state: CrawlView, universe: Set<Seq<char>>)
    requires
        state.wf(),
        universe.finite(),
        seen_within(state, universe),
    ensures
        state.admitted() <= universe.len(),
        state.progress() <= 4 * universe.len(),
        state.progress() == 4 * state.admitted() <==> state.queue.len() == 0 && state.in_flight()
            == 0 && state.outstanding() == 0,
{
    state.seen.unique_seq_to_set();
    assert forall|x: Seq<char>| state.seen.to_set().contains(x) implies universe.contains(x) by {
        let i = choose|i: int| 0 <= i < state.seen.len() && state.seen[i] == x;
        assert(universe.contains(state.seen[i]));
    }
    vstd::set_lib::lemma_len_subset(state.seen.to_set(), universe);
}

/// Exclusion comes first: a URL that matches the exclusion pattern is never
/// among the seen URLs, never queued and never launched, and an edge to it
/// changes nothing.
pub proof fn lemma_excluded_never_seen(state: CrawlView, href: Seq<char>)
    requires
        state.wf(),
        excluded(state.exclude, href),
    ensures
        !state.seen.contains(href),
        !state.launched_urls().contains(href),
        !state.flying.contains(href),
        forall|i: int| 0 <= i < state.queue.len() ==> (#[trigger] state.queue[i]).target.href != href,
        forall|edge: EdgeView|
            edge.target.href == href ==> (#[trigger] state.discover(edge)).0 == state
                && state.discover(edge).1 != Discovery::Admitted,
        state.launch().1 matches Some(edge) ==> edge.target.href != href,
{
    lemma_launch(state);
    if state.flying.contains(href) {
        let i = choose|i: int| 0 <= i < state.flying.len() && state.flying[i] == href;
        assert(state.launched_urls().contains(state.flying[i]));
    }
}

/// The bound on concurrency: in every well-formed state the number of
/// fetches that hold a permit is at most the number of permits.
pub proof fn lemma_concurrency_bound(state: CrawlView)
    requires
        state.wf(),
    ensures
        state.in_flight() <= state.max_concurrent,
        state.in_flight() + state.in_process() + state.queue.len() == state.outstanding(),
{
}

/// Error accounting: the exit status of a crawl is not zero exactly when at
/// least one of the results on record was judged an error.
pub proof fn lemma_exit_status(state: CrawlView)
    requires
        state.wf(),
    ensures
        exit_status(state.state) != 0 <==> exists|i: int|
            0 <= i < state.reports.len() && is_error(#[trigger] state.reports[i]),
        state.state.error_count <= state.state.count,
{
    lemma_errors_in_positive(state.reports);
}

/// The engine of one crawl.
pub struct Crawl {
    exclusion: Option<Pattern>,
    max_concurrent: usize,
    seen: Vec<String>,
    queue: VecDeque<Edge>,
    flying: Vec<String>,
    landed: Vec<String>,
    state: ResultState,
    reports: Ghost<Seq<ResultView>>,
}

impl View for Crawl {
    type V = CrawlView;

    closed spec fn view(&self) -> CrawlView {
        CrawlView {
            exclude: match self.exclusion {
                Some(x) => Some(x@),
                None => None,
            },
            max_concurrent: self.max_concurrent as nat,
            seen: self.seen.deep_view(),
            queue: self.queue.deep_view(),
            flying: self.flying.deep_view(),
            landed: self.landed.deep_view(),
            state: self.state@,
            reports: self.reports@,
        }
    }
}

/// Looks for `text` in `list` and returns where it stands.
fn find(list: &Vec<String>, text: &str) -> (r: Option<usize>)
    ensures
        r is Some <==> list.deep_view().contains(text@),
        r matches Some(i) ==> i < list.len() && list.deep_view()[i as int] == text@,
{
    let wanted = text.to_owned();
    let mut i: usize = 0;
    while i < list.len()
        invariant
            i <= list.len(),
            wanted@ == text@,
            forall|k: int| 0 <= k < i ==> list.deep_view()[k] != text@,
        decreases list.len() - i,
    {
        if list[i] == wanted {
            assert(list.deep_view()[i as int] == text@);
            return Some(i);
        }
        i = i + 1;
    }
    None
}

impl Crawl {
    /// A crawl with `max_concurrent` permits and an optional exclusion
    /// pattern, before anything was discovered.
    pub fn new(max_concurrent: usize, exclusion: Option<Pattern>) -> (r: Crawl)
        ensures
            r@.wf(),
            r@ == CrawlView::start(max_concurrent as nat, exclusion.deep_view()),
    {
        let r = Crawl {
            exclusion,
            max_concurrent,
            seen: Vec::new(),
            queue: VecDeque::new(),
            flying: Vec::new(),
            landed: Vec::new(),
            state: ResultState { count: 0, error_count: 0, last_len: 0 },
            reports: Ghost(Seq::empty()),
        };
        assert(r@.seen =~= Seq::empty());
        assert(r@.queue =~= Seq::empty());
        assert(r@.flying =~= Seq::empty());
        assert(r@.landed =~= Seq::empty());
        r
    }

    /// How many URLs have been admitted.
    pub fn admitted(&self) -> (r: usize)
        ensures
            r == self@.admitted(),
    {
        self.seen.len()
    }

    /// How many admitted edges wait to be launched.
    pub fn queued(&self) -> (r: usize)
        ensures
            r == self@.queue.len(),
    {
        self.queue.len()
    }

    /// How many fetches hold a permit.
    pub fn in_flight(&self) -> (r: usize)
        ensures
            r == self@.in_flight(),
    {
        self.flying.len()
    }

    /// How many admitted URLs have not been reported yet.
    pub fn outstanding(&self) -> (r: usize)
        requires
            self@.wf(),
        ensures
            r == self@.outstanding(),
    {
        self.seen.len() - self.state.count
    }

    /// Whether the crawl is over.
    pub fn is_finished(&self) -> (r: bool)
        ensures
            r == self@.finished(),
    {
        self.seen.len() > 0 && self.state.count == self.seen.len()
    }

    /// The reporter's tally.
    pub fn tally(&self) -> (r: &ResultState)
        ensures
            r@ == self@.state,
    {
        &self.state
    }

    /// The exit status that the crawl calls for so far: 0 if no result was
    /// an error, else 1.
    pub fn exit_code(&self) -> (r: i32)
        ensures
            r == exit_status(self@.state),
    {
        crate::report::exit_code(&self.state)
    }

    /// Takes in a discovered edge and says what became of it.
    pub fn discover(&mut self, edge: &Edge) -> (r: Discovery)
        requires
            old(self)@.wf(),
        ensures
            final(self)@ == old(self)@.discover(edge@).0,
            r == old(self)@.discover(edge@).1,
            final(self)@.wf(),
    {
        proof {
            lemma_discover(self@, edge@);
        }
        if self.is_finished() {
            return Discovery::Closed;
        }
        let ruled_out = match &self.exclusion {
            Some(x) => x.matches(edge.target.href.as_str()),
            None => false,
        };
        if ruled_out {
            return Discovery::Excluded;
        }
        if find(&self.seen, edge.target.href.as_str()).is_some() {
            return Discovery::AlreadySeen;
        }
        let ghost before = self@;
        self.seen.push(edge.target.href.clone());
        self.queue.push_back(edge.clone());
        proof {
            assert(self@.seen =~= before.seen.push(edge@.target.href));
            assert(self@.queue =~= before.queue.push(edge@));
        }
        Discovery::Admitted
    }

    /// Hands out the next fetch to start, if an edge is queued and a permit
    /// is free. The fetch holds the permit until [`Crawl::land`] is called
    /// for its URL.
    pub fn launch(&mut self) -> (r: Option<Edge>)
        requires
            old(self)@.wf(),
        ensures
            final(self)@ == old(self)@.launch().0,
            r.deep_view() == old(self)@.launch().1,
            final(self)@.wf(),
    {
        proof {
            lemma_launch(self@);
        }
        if self.queue.len() == 0 || self.flying.len() >= self.max_concurrent {
            return None;
        }
        let ghost before = self@;
        let next = self.queue.pop_front();
        match &next {
            Some(edge) => {
                self.flying.push(edge.target.href.clone());
            },
            None => {},
        }
        proof {
            assert(self@.queue =~= before.queue.drop_first());
            assert(self@.flying =~= before.flying.push(before.queue[0].target.href));
        }
        next
    }

    /// Takes back the permit of the fetch of `href`, whose network call has
    /// ended. Returns `false`, and changes nothing, if no fetch of `href`
    /// holds a permit.
    pub fn land(&mut self, href: &str) -> (r: bool)
        requires
            old(self)@.wf(),
        ensures
            final(self)@ == old(self)@.land(href@).0,
            r == old(self)@.land(href@).1,
            final(self)@.wf(),
    {
        proof {
            lemma_land(self@, href@);
        }
        let ghost before = self@;
        match find(&self.flying, href) {
            Some(i) => {
                proof {
                    lemma_remove(before.flying, i as int);
                }
                let url = self.flying.remove(i);
                self.landed.push(url);
                proof {
                    assert(self@.flying =~= before.flying.remove(i as int));
                    assert(self@.landed =~= before.landed.push(href@));
                }
                true
            },
            None => false,
        }
    }

    /// Takes in what the landed fetch of a URL found: its edges first, then
    /// its result. Returns what is to be printed and whether the crawl is
    /// over. Returns `None`, and changes nothing, if the result is for a URL
    /// whose fetch has not landed or was reported before.
    pub fn complete(&mut self, fetched: Fetched, verbose: bool) -> (r: Option<Completion>)
        requires
            old(self)@.wf(),
        ensures
            final(self)@ == old(self)@.complete(fetched@, verbose).0,
            r.deep_view() == old(self)@.complete(fetched@, verbose).1,
            final(self)@.wf(),
    {
        let ghost start = self@;
        let ghost given = fetched@;
        proof {
            lemma_complete(start, given, verbose);
        }
        let at = match find(&self.landed, fetched.result.url.as_str()) {
            Some(at) => at,
            None => {
                return None;
            },
        };
        proof {
            lemma_remove(start.landed, at as int);
            assert(start.launched_urls().contains(start.landed[at as int]));
        }
        let Fetched { result, edges } = fetched;
        let mut prints: Vec<Print> = Vec::new();
        let mut i: usize = 0;
        proof {
            assert(given.edges.take(0) =~= Seq::empty());
            assert(prints.deep_view() =~= Seq::empty());
        }
        while i < edges.len()
            invariant
                i <= edges.len(),
                start.wf(),
                start.outstanding() > 0,
                given.edges == edges.deep_view(),
                self@.wf(),
                self@ == start.discover_all(given.edges.take(i as int)),
                prints.deep_view() == exclusion_notices(start.exclude, given.edges.take(i as int)),
            decreases edges.len() - i,
        {
            let ghost shown = prints.deep_view();
            proof {
                assert(given.edges.take(i + 1).drop_last() =~= given.edges.take(i as int));
                assert(given.edges.take(i + 1).last() == edges[i as int]@);
                lemma_discover_all(start, given.edges.take(i as int));
                lemma_discover(self@, edges[i as int]@);
            }
            let outcome = self.discover(&edges[i]);
            if outcome == Discovery::Excluded {
                prints.push(excluding(edges[i].target.href.as_str()));
                assert(prints.deep_view() =~= shown.push(
                    exclusion_notice(edges[i as int]@.target.href),
                ));
            }
            i = i + 1;
        }
        proof {
            assert(given.edges.take(i as int) =~= given.edges);
            lemma_discover_all(start, given.edges);
            lemma_errors_in_positive(start.reports);
        }
        let ghost grown = self@;
        let ghost notices = prints.deep_view();
        let todo = self.seen.len() - (self.state.count + 1);
        let mut state = ResultState {
            count: self.state.count,
            error_count: self.state.error_count,
            last_len: self.state.last_len,
        };
        let ghost reported = result@;
        let mut lines = log_result(result, &mut state, todo, verbose);
        let ghost shown = lines.deep_view();
        prints.append(&mut lines);
        self.state = state;
        self.reports = Ghost(self.reports@.push(reported));
        let _ = self.landed.remove(at);
        proof {
            assert(prints.deep_view() =~= notices + shown);
            assert(self@.seen =~= grown.seen);
            assert(self@.queue =~= grown.queue);
            assert(self@.flying =~= grown.flying);
            assert(self@.landed =~= start.landed.remove(at as int));
        }
        let finished = self.is_finished();
        Some(Completion { prints, finished })
    }
}

} // verus!
