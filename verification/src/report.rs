//! The reporter: how a result is judged, how its line is laid out, and what
//! the running tally becomes. Output is described as [`Print`] values for a
//! console to carry out; colours are left to it as [`Tone`]s.

use crate::fetch::{ResponseResult, ResultView};
use crate::status::{is_success_code, status_line, Status};
use crate::text::{
    blank, byte_len, byte_length, decimal, decimal_string, fill, pad_left, pad_right,
    padded_left, padded_right, spaces, truncate, truncated,
};
use vstd::prelude::*;
use vstd::string::*;

verus! {

/// A body smaller than this many bytes marks a page as unhealthy.
pub const MIN_SIZE: usize = 200;

/// The width of the `[seen/outstanding]` counter at the head of a line.
pub const COUNTER_WIDTH: usize = 10;

/// The width of the status column.
pub const STATUS_WIDTH: usize = 13;

/// The width of the size column.
pub const SIZE_WIDTH: usize = 5;

/// The longest source path that a line shows in full.
pub const FROM_WIDTH: usize = 30;

/// The longest target URL that a line shows in full.
pub const URL_WIDTH: usize = 60;

/// How a piece of text is meant: neutral, as good news, as bad news, or as
/// something that is not known.
#[derive(Clone, Copy, Debug, PartialEq, Eq, Structural)]
pub enum Tone {
    Plain,
    Good,
    Bad,
    Unknown,
}

/// Where a line goes.
#[derive(Clone, Copy, Debug, PartialEq, Eq, Structural)]
pub enum Stream {
    Stdout,
    Stderr,
}

/// How a line ends: with a line feed, so that it stays, or with a carriage
/// return, so that the next line overwrites it.
#[derive(Clone, Copy, Debug, PartialEq, Eq, Structural)]
pub enum Ending {
    Newline,
    Return,
}

/// A piece of a line with its tone.
pub struct Segment {
    pub text: String,
    pub tone: Tone,
}

/// The mathematical value of a [`Segment`].
pub struct SegmentView {
    pub text: Seq<char>,
    pub tone: Tone,
}

impl View for Segment {
    type V = SegmentView;

    open spec fn view(&self) -> SegmentView {
        SegmentView { text: self.text@, tone: self.tone }
    }
}

impl DeepView for Segment {
    type V = SegmentView;

    open spec fn deep_view(&self) -> SegmentView {
        self@
    }
}

/// One line of output.
pub struct Print {
    pub stream: Stream,
    pub segments: Vec<Segment>,
    pub ending: Ending,
}

/// The mathematical value of a [`Print`].
pub struct PrintView {
    pub stream: Stream,
    pub segments: Seq<SegmentView>,
    pub ending: Ending,
}

impl View for Print {
    type V = PrintView;

    open spec fn view(&self) -> PrintView {
        PrintView {
            stream: self.stream,
            segments: self.segments.deep_view(),
            ending: self.ending,
        }
    }
}

impl DeepView for Print {
    type V = PrintView;

    open spec fn deep_view(&self) -> PrintView {
        self@
    }
}

/// The running tally of the reporter.
#[derive(Debug)]
pub struct ResultState {
    /// How many results have been reported.
    pub count: usize,
    /// How many of them were judged to be errors.
    pub error_count: usize,
    /// The length in bytes of the last line that may be overwritten.
    pub last_len: usize,
}

/// The mathematical value of a [`ResultState`].
pub struct StateView {
    pub count: nat,
    pub error_count: nat,
    pub last_len: nat,
}

impl View for ResultState {
    type V = StateView;

    open spec fn view(&self) -> StateView {
        StateView {
            count: self.count as nat,
            error_count: self.error_count as nat,
            last_len: self.last_len as nat,
        }
    }
}

impl Default for ResultState {
    fn default() -> (r: ResultState)
        ensures
            r@ == (StateView { count: 0, error_count: 0, last_len: 0 }),
    {
        ResultState { count: 0, error_count: 0, last_len: 0 }
    }
}

/// Whether a size marks its page as unhealthy: below the minimum, or not
/// known at all.
pub open spec fn size_failed(size: Option<usize>) -> bool {
    match size {
        Some(s) => s < MIN_SIZE,
        None => true,
    }
}

/// Whether a status marks its page as failed: outside the 2xx class, or
/// missing.
pub open spec fn status_failed(status: Option<u16>) -> bool {
    match status {
        Some(code) => !is_success_code(code),
        None => true,
    }
}

/// Whether a result counts as an error: its status is missing or not 2xx, or
/// its body is unknown or smaller than the minimum size.
pub open spec fn is_error(result: ResultView) -> bool {
    status_failed(result.status) || size_failed(result.size)
}

/// What the size column shows: whole thousands of bytes, or a question mark.
pub open spec fn size_text(size: Option<usize>) -> Seq<char> {
    match size {
        Some(s) => decimal((s / 1000) as nat),
        None => "?"@,
    }
}

/// The tone of the size column.
pub open spec fn size_tone(size: Option<usize>) -> Tone {
    match size {
        Some(s) => if s < MIN_SIZE {
            Tone::Bad
        } else {
            Tone::Good
        },
        None => Tone::Unknown,
    }
}

/// What the status column shows: the status as HTTP writes it, or `ERROR`.
pub open spec fn status_text(status: Option<u16>) -> Seq<char> {
    match status {
        Some(code) => status_line(code),
        None => "ERROR"@,
    }
}

/// The tone of the status column.
pub open spec fn status_tone(status: Option<u16>) -> Tone {
    if status_failed(status) {
        Tone::Bad
    } else {
        Tone::Good
    }
}

/// The counter at the head of a line: how many results have been reported
/// and how many are still outstanding.
pub open spec fn counter(count: nat, todo: nat) -> Seq<char> {
    "["@ + decimal(count) + "/"@ + decimal(todo) + "]"@
}

/// The line for one result, as the `count`-th result with `todo` still
/// outstanding: counter, status, size in KB, source path and target URL.
pub open spec fn line(result: ResultView, count: nat, todo: nat) -> Seq<SegmentView> {
    seq![
        SegmentView {
            text: " "@ + padded_right(counter(count, todo), COUNTER_WIDTH as nat) + " "@,
            tone: Tone::Plain,
        },
        SegmentView {
            text: padded_right(status_text(result.status), STATUS_WIDTH as nat),
            tone: status_tone(result.status),
        },
        SegmentView { text: " ["@, tone: Tone::Plain },
        SegmentView {
            text: padded_left(size_text(result.size), SIZE_WIDTH as nat),
            tone: size_tone(result.size),
        },
        SegmentView {
            text: " KB] "@ + truncated(result.from, FROM_WIDTH as nat) + " -> "@ + truncated(
                result.url,
                URL_WIDTH as nat,
            ),
            tone: Tone::Plain,
        },
    ]
}

/// The text of a line without its tones.
pub open spec fn plain(segments: Seq<SegmentView>) -> Seq<char>
    decreases segments.len(),
{
    if segments.len() == 0 {
        Seq::empty()
    } else {
        plain(segments.drop_last()) + segments.last().text
    }
}

/// The spaces that wipe out what is left of an earlier line of `last_len`
/// bytes behind a line of `len` bytes.
pub open spec fn gap(last_len: nat, len: nat) -> SegmentView {
    SegmentView { text: spaces(fill(len, last_len)), tone: Tone::Plain }
}

/// The note that passes on a result's message.
pub open spec fn info_note(message: Seq<char>) -> PrintView {
    PrintView {
        stream: Stream::Stdout,
        segments: seq![SegmentView { text: "> "@ + message, tone: Tone::Plain }],
        ending: Ending::Newline,
    }
}

/// The note that passes on a result's error.
pub open spec fn error_note(error: Seq<char>) -> PrintView {
    PrintView {
        stream: Stream::Stdout,
        segments: seq![
            SegmentView { text: "! "@, tone: Tone::Plain },
            SegmentView { text: error, tone: Tone::Bad },
        ],
        ending: Ending::Newline,
    }
}

/// The notes that follow a result's line: none unless `verbose`, else the
/// message and the error, as far as the result has them.
pub open spec fn notes(result: ResultView, verbose: bool) -> Seq<PrintView> {
    if !verbose {
        Seq::empty()
    } else {
        let info = match result.message {
            Some(m) => seq![info_note(m)],
            None => Seq::empty(),
        };
        match result.error {
            Some(e) => info.push(error_note(e)),
            None => info,
        }
    }
}

/// The head line for a result. An error goes to the error stream and stays.
/// Any other line goes to the output stream, where it stays if `verbose` and
/// is overwritten by the next line if not. A line that may follow an
/// overwritten one is filled up to that line's length.
pub open spec fn head(result: ResultView, state: StateView, todo: nat, verbose: bool) -> PrintView {
    let row = line(result, state.count + 1, todo);
    let pad = gap(state.last_len, byte_len(plain(row)));
    if is_error(result) {
        PrintView { stream: Stream::Stderr, segments: row.push(pad), ending: Ending::Newline }
    } else if verbose {
        PrintView { stream: Stream::Stdout, segments: row, ending: Ending::Newline }
    } else {
        PrintView { stream: Stream::Stdout, segments: row.push(pad), ending: Ending::Return }
    }
}

/// Everything that is printed for a result.
pub open spec fn report(result: ResultView, state: StateView, todo: nat, verbose: bool) -> Seq<
    PrintView,
> {
    seq![head(result, state, todo, verbose)] + notes(result, verbose)
}

/// The tally after a result: one more result, one more error if it is one,
/// and the length of its line remembered if it is not.
pub open spec fn tallied(result: ResultView, state: StateView, todo: nat) -> StateView {
    StateView {
        count: state.count + 1,
        error_count: if is_error(result) {
            state.error_count + 1
        } else {
            state.error_count
        },
        last_len: if is_error(result) {
            state.last_len
        } else {
            byte_len(plain(line(result, state.count + 1, todo)))
        },
    }
}

/// How many of `results` count as errors.
pub open spec fn errors_in(results: Seq<ResultView>) -> nat
    decreases results.len(),
{
    if results.len() == 0 {
        0
    } else {
        errors_in(results.drop_last()) + if is_error(results.last()) {
            1nat
        } else {
            0nat
        }
    }
}

/// The tally after a run of results, the `i`-th reported with `todos[i]`
/// still outstanding.
pub open spec fn tallied_all(results: Seq<ResultView>, todos: Seq<nat>, state: StateView) -> StateView
    decreases results.len(),
{
    if results.len() == 0 {
        state
    } else {
        tallied(
            results.last(),
            tallied_all(results.drop_last(), todos.drop_last(), state),
            todos.last(),
        )
    }
}

/// The exit status that a tally calls for.
pub open spec fn exit_status(state: StateView) -> int {
    if state.error_count > 0 {
        1
    } else {
        0
    }
}

/// Some result is an error exactly when the number of errors is not zero.
pub proof fn lemma_errors_in_positive(results: Seq<ResultView>)
    ensures
        errors_in(results) > 0 <==> exists|i: int|
            0 <= i < results.len() && is_error(#[trigger] results[i]),
        errors_in(results) <= results.len(),
    decreases results.len(),
{
    if results.len() > 0 {
        let init = results.drop_last();
        lemma_errors_in_positive(init);
        if errors_in(init) > 0 {
            let i = choose|i: int| 0 <= i < init.len() && is_error(#[trigger] init[i]);
            assert(is_error(results[i]));
        }
        if is_error(results.last()) {
            assert(is_error(results[results.len() - 1]));
        }
        if exists|i: int| 0 <= i < results.len() && is_error(#[trigger] results[i]) {
            let i = choose|i: int| 0 <= i < results.len() && is_error(#[trigger] results[i]);
            if i < init.len() {
                assert(is_error(init[i]));
            }
        }
    }
}

/// Error accounting: a run that starts from an empty tally ends with as
/// many results counted as were reported and as many errors as there were
/// erroneous results, so that the exit status is not zero exactly when at
/// least one result was judged an error.
pub proof fn lemma_error_accounting(results: Seq<ResultView>, todos: Seq<nat>)
    requires
        todos.len() == results.len(),
    ensures
        ({
            let end = tallied_all(
                results,
                todos,
                StateView { count: 0, error_count: 0, last_len: 0 },
            );
            &&& end.count == results.len()
            &&& end.error_count == errors_in(results)
            &&& exit_status(end) != 0 <==> exists|i: int|
                0 <= i < results.len() && is_error(#[trigger] results[i])
        }),
    decreases results.len(),
{
    lemma_errors_in_positive(results);
    if results.len() > 0 {
        lemma_error_accounting(results.drop_last(), todos.drop_last());
    }
}

fn segment(text: String, tone: Tone) -> (r: Segment)
    ensures
        r@ == (SegmentView { text: text@, tone }),
{
    Segment { text, tone }
}

/// Joins the texts of `segments`.
pub fn plain_text(segments: &Vec<Segment>) -> (r: String)
    ensures
        r@ == plain(segments.deep_view()),
{
    let mut r = String::new();
    let mut i: usize = 0;
    let ghost all = segments.deep_view();
    assert(all.take(0) =~= Seq::empty());
    while i < segments.len()
        invariant
            i <= segments.len(),
            all == segments.deep_view(),
            r@ == plain(all.take(i as int)),
        decreases segments.len() - i,
    {
        proof {
            assert(all.take(i + 1).drop_last() =~= all.take(i as int));
            assert(all.take(i + 1).last() == segments[i as int]@);
        }
        r.append(segments[i].text.as_str());
        i = i + 1;
    }
    assert(all.take(i as int) =~= all);
    r
}

/// Judges a result: `true` for an error.
pub fn classify(result: &ResponseResult) -> (r: bool)
    ensures
        r == is_error(result@),
{
    let status_error = match &result.status {
        Some(status) => !status.is_success(),
        None => true,
    };
    let size_error = match result.size {
        Some(s) => s < MIN_SIZE,
        None => true,
    };
    status_error || size_error
}

fn status_column(status: &Option<Status>) -> (r: Segment)
    ensures
        r@ == (SegmentView {
            text: padded_right(status_text(status.deep_view()), STATUS_WIDTH as nat),
            tone: status_tone(status.deep_view()),
        }),
{
    match status {
        Some(s) => {
            let tone = if s.is_success() {
                Tone::Good
            } else {
                Tone::Bad
            };
            segment(pad_right(s.text().as_str(), STATUS_WIDTH), tone)
        },
        None => segment(pad_right("ERROR", STATUS_WIDTH), Tone::Bad),
    }
}

fn size_column(size: Option<usize>) -> (r: Segment)
    ensures
        r@ == (SegmentView {
            text: padded_left(size_text(size), SIZE_WIDTH as nat),
            tone: size_tone(size),
        }),
{
    match size {
        Some(s) => {
            let tone = if s < MIN_SIZE {
                Tone::Bad
            } else {
                Tone::Good
            };
            segment(pad_left(decimal_string(s / 1000).as_str(), SIZE_WIDTH), tone)
        },
        None => segment(pad_left("?", SIZE_WIDTH), Tone::Unknown),
    }
}

fn counter_column(count: usize, todo: usize) -> (r: Segment)
    ensures
        r@ == (SegmentView {
            text: " "@ + padded_right(counter(count as nat, todo as nat), COUNTER_WIDTH as nat)
                + " "@,
            tone: Tone::Plain,
        }),
{
    let mut c = String::from_str("[");
    c.append(decimal_string(count).as_str());
    c.append("/");
    c.append(decimal_string(todo).as_str());
    c.append("]");
    assert(c@ =~= counter(count as nat, todo as nat));
    let mut text = String::from_str(" ");
    text.append(pad_right(c.as_str(), COUNTER_WIDTH).as_str());
    text.append(" ");
    segment(text, Tone::Plain)
}

fn route_column(from: String, url: String) -> (r: Segment)
    ensures
        r@ == (SegmentView {
            text: " KB] "@ + truncated(from@, FROM_WIDTH as nat) + " -> "@ + truncated(
                url@,
                URL_WIDTH as nat,
            ),
            tone: Tone::Plain,
        }),
{
    let mut text = String::from_str(" KB] ");
    text.append(truncate(from, FROM_WIDTH).as_str());
    text.append(" -> ");
    text.append(truncate(url, URL_WIDTH).as_str());
    segment(text, Tone::Plain)
}

fn pad_segment(last_len: usize, len: usize) -> (r: Segment)
    ensures
        r@ == gap(last_len as nat, len as nat),
{
    let n = if len < last_len {
        last_len - len
    } else {
        0
    };
    segment(blank(n), Tone::Plain)
}

/// Reports one result: counts it in `state`, judges it, and returns what is
/// to be printed for it. `todo` is the number of URLs still outstanding.
pub fn log_result(result: ResponseResult, state: &mut ResultState, todo: usize, verbose: bool) -> (r:
    Vec<Print>)
    requires
        old(state).count < usize::MAX,
        old(state).error_count < usize::MAX,
    ensures
        final(state)@ == tallied(result@, old(state)@, todo as nat),
        r.deep_view() == report(result@, old(state)@, todo as nat, verbose),
{
    let ghost shown = result@;
    let ghost before = state@;
    let failed = classify(&result);
    let ResponseResult { from, url, status, size, error, message } = result;

    state.count = state.count + 1;

    let mut row: Vec<Segment> = Vec::new();
    row.push(counter_column(state.count, todo));
    row.push(status_column(&status));
    row.push(segment(String::from_str(" ["), Tone::Plain));
    row.push(size_column(size));
    row.push(route_column(from, url));
    assert(row.deep_view() =~= line(shown, before.count + 1, todo as nat));

    let len = byte_length(plain_text(&row).as_str());
    let ghost bare = row.deep_view();

    let mut out: Vec<Print> = Vec::new();
    if !failed {
        if verbose {
            out.push(Print { stream: Stream::Stdout, segments: row, ending: Ending::Newline });
        } else {
            row.push(pad_segment(state.last_len, len));
            assert(row.deep_view() =~= bare.push(gap(before.last_len, len as nat)));
            out.push(Print { stream: Stream::Stdout, segments: row, ending: Ending::Return });
        }
        state.last_len = len;
    } else {
        row.push(pad_segment(state.last_len, len));
        assert(row.deep_view() =~= bare.push(gap(before.last_len, len as nat)));
        out.push(Print { stream: Stream::Stderr, segments: row, ending: Ending::Newline });
        state.error_count = state.error_count + 1;
    }
    assert(out.deep_view() =~= seq![head(shown, before, todo as nat, verbose)]);

    if verbose {
        let ghost first = out.deep_view();
        if let Some(m) = message {
            let mut text = String::from_str("> ");
            text.append(m.as_str());
            let mut segments: Vec<Segment> = Vec::new();
            segments.push(segment(text, Tone::Plain));
            assert(segments.deep_view() =~= info_note(m@).segments);
            out.push(Print { stream: Stream::Stdout, segments, ending: Ending::Newline });
        }
        if let Some(e) = error {
            let mut segments: Vec<Segment> = Vec::new();
            segments.push(segment(String::from_str("! "), Tone::Plain));
            segments.push(segment(e, Tone::Bad));
            assert(segments.deep_view() =~= error_note(e@).segments);
            out.push(Print { stream: Stream::Stdout, segments, ending: Ending::Newline });
        }
        assert(out.deep_view() =~= first + notes(shown, verbose));
    } else {
        assert(out.deep_view() =~= out.deep_view() + notes(shown, verbose));
    }
    out
}

/// The closing line of a crawl of `host` that took `elapsed` seconds: how
/// many pages were reported and how many errors there were.
pub open spec fn summary_line(host: Seq<char>, elapsed: Seq<char>, state: StateView) -> PrintView {
    let lead = SegmentView {
        text: "<<< finished "@ + host + ", time elapsed: "@ + elapsed + "s, total pages: "@
            + decimal(state.count) + ", "@,
        tone: Tone::Plain,
    };
    let verdict = if state.error_count > 0 {
        SegmentView { text: "errors: "@ + decimal(state.error_count), tone: Tone::Bad }
    } else {
        SegmentView { text: "no errors"@, tone: Tone::Good }
    };
    let row = seq![lead, verdict];
    PrintView {
        stream: Stream::Stdout,
        segments: row.push(gap(state.last_len, byte_len(plain(row)))),
        ending: Ending::Newline,
    }
}

/// Writes the closing line of a crawl. `elapsed` is the time taken in
/// seconds, already written out.
pub fn summary(host: &str, elapsed: &str, state: &ResultState) -> (r: Print)
    ensures
        r@ == summary_line(host@, elapsed@, state@),
{
    let mut lead = String::from_str("<<< finished ");
    lead.append(host);
    lead.append(", time elapsed: ");
    lead.append(elapsed);
    lead.append("s, total pages: ");
    lead.append(decimal_string(state.count).as_str());
    lead.append(", ");
    let verdict = if state.error_count > 0 {
        let mut text = String::from_str("errors: ");
        text.append(decimal_string(state.error_count).as_str());
        segment(text, Tone::Bad)
    } else {
        segment(String::from_str("no errors"), Tone::Good)
    };
    let mut row: Vec<Segment> = Vec::new();
    row.push(segment(lead, Tone::Plain));
    row.push(verdict);
    let ghost bare = row.deep_view();
    assert(bare =~= seq![row[0]@, row[1]@]);
    let len = byte_length(plain_text(&row).as_str());
    row.push(pad_segment(state.last_len, len));
    assert(row.deep_view() =~= bare.push(gap(state@.last_len, len as nat)));
    Print { stream: Stream::Stdout, segments: row, ending: Ending::Newline }
}

/// A neutral line on the output stream that stays.
pub open spec fn plain_line(text: Seq<char>) -> PrintView {
    PrintView {
        stream: Stream::Stdout,
        segments: seq![SegmentView { text, tone: Tone::Plain }],
        ending: Ending::Newline,
    }
}

fn plain_print(text: String) -> (r: Print)
    ensures
        r@ == plain_line(text@),
{
    let mut segments: Vec<Segment> = Vec::new();
    segments.push(segment(text, Tone::Plain));
    assert(segments.deep_view() =~= plain_line(text@).segments);
    Print { stream: Stream::Stdout, segments, ending: Ending::Newline }
}

/// The opening line of a crawl of `host`.
pub fn starting(host: &str) -> (r: Print)
    ensures
        r@ == plain_line(">>> starting "@ + host@),
{
    let mut text = String::from_str(">>> starting ");
    text.append(host);
    plain_print(text)
}

/// The line that tells of a fetch being started.
pub fn fetching(href: &str) -> (r: Print)
    ensures
        r@ == plain_line("> fetching "@ + href@),
{
    let mut text = String::from_str("> fetching ");
    text.append(href);
    plain_print(text)
}

/// The line that tells of an excluded URL.
pub fn excluding(href: &str) -> (r: Print)
    ensures
        r@ == plain_line("> exclude: "@ + href@),
{
    let mut text = String::from_str("> exclude: ");
    text.append(href);
    plain_print(text)
}

/// The exit status of a crawl: 0 if no result was an error, else 1.
pub fn exit_code(state: &ResultState) -> (r: i32)
    ensures
        r == exit_status(state@),
{
    if state.error_count > 0 {
        1
    } else {
        0
    }
}

} // verus!
