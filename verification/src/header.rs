//! Request headers given as `<key>: <value>` lines.

use vstd::prelude::*;
use vstd::string::*;

verus! {

/// `text` without its leading and trailing whitespace, as `str::trim`
/// returns it.
pub uninterp spec fn trimmed(text: Seq<char>) -> Seq<char>;

/// Calls `str::trim` and copies the result.
#[verifier::external_body]
fn trim(text: &str) -> (r: String)
    ensures
        r@ == trimmed(text@),
{
    text.trim().to_owned()
}

/// A request header: its name and its value.
pub struct Header {
    pub name: String,
    pub value: String,
}

/// The mathematical value of a [`Header`].
pub struct HeaderView {
    pub name: Seq<char>,
    pub value: Seq<char>,
}

impl View for Header {
    type V = HeaderView;

    open spec fn view(&self) -> HeaderView {
        HeaderView { name: self.name@, value: self.value@ }
    }
}

impl DeepView for Header {
    type V = HeaderView;

    open spec fn deep_view(&self) -> HeaderView {
        self@
    }
}

/// Whether the only colon of `line` stands at index `i`.
pub open spec fn is_sole_colon(line: Seq<char>, i: int) -> bool {
    &&& 0 <= i < line.len()
    &&& line[i] == ':'
    &&& forall|j: int| 0 <= j < line.len() && j != i ==> line[j] != ':'
}

/// The header that `line` stands for: a line with exactly one colon gives
/// what is before the colon as name and what is behind it as value, both
/// trimmed; any other line gives nothing.
pub open spec fn header_of(line: Seq<char>) -> Option<HeaderView> {
    if exists|i: int| is_sole_colon(line, i) {
        let i = choose|i: int| is_sole_colon(line, i);
        Some(HeaderView { name: trimmed(line.take(i)), value: trimmed(line.skip(i + 1)) })
    } else {
        None
    }
}

/// Splits a `<key>: <value>` line into a header. Returns `None` unless the
/// line holds exactly one colon.
pub fn parse_header(line: &str) -> (r: Option<Header>)
    ensures
        r.deep_view() == header_of(line@),
{
    let n = line.unicode_len();
    let mut at: Option<usize> = None;
    let mut i: usize = 0;
    while i < n
        invariant
            i <= n,
            n == line@.len(),
            match at {
                Some(k) => k < i && line@[k as int] == ':' && forall|j: int|
                    0 <= j < i && j != k ==> line@[j] != ':',
                None => forall|j: int| 0 <= j < i ==> line@[j] != ':',
            },
        decreases n - i,
    {
        if line.get_char(i) == ':' {
            match at {
                Some(k) => {
                    assert forall|m: int| !is_sole_colon(line@, m) by {
                        if is_sole_colon(line@, m) {
                            assert(line@[k as int] == ':');
                            assert(line@[i as int] == ':');
                        }
                    }
                    return None;
                },
                None => {
                    at = Some(i);
                },
            }
        }
        i = i + 1;
    }
    match at {
        Some(k) => {
            assert(is_sole_colon(line@, k as int));
            let ghost chosen = choose|m: int| is_sole_colon(line@, m);
            assert(chosen == k);
            let name = trim(line.substring_char(0, k));
            let value = trim(line.substring_char(k + 1, n));
            proof {
                assert(line@.subrange(0, k as int) =~= line@.take(k as int));
                assert(line@.subrange(k + 1, n as int) =~= line@.skip(k + 1));
            }
            Some(Header { name, value })
        },
        None => {
            assert forall|m: int| !is_sole_colon(line@, m) by {}
            None
        },
    }
}

} // verus!
