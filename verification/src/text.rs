//! Text helpers shared by the renderer: truncation, decimal numerals and
//! space padding, each specified over sequences of characters.

use vstd::prelude::*;
use vstd::string::*;

verus! {

/// The three dots that mark a truncated text.
pub open spec fn ellipsis() -> Seq<char> {
    seq!['.', '.', '.']
}

/// `s` cut to its first `max_chars` characters and marked with an ellipsis,
/// or `s` itself when it is no longer than that.
pub open spec fn truncated(s: Seq<char>, max_chars: nat) -> Seq<char> {
    if s.len() <= max_chars {
        s
    } else {
        s.take(max_chars as int) + ellipsis()
    }
}

/// Shortens `s` to at most `max_chars` characters for display, appending
/// `...` when anything was cut off.
pub fn truncate(s: String, max_chars: usize) -> (r: String)
    ensures
        r@ == truncated(s@, max_chars as nat),
{
    let n = s.as_str().unicode_len();
    if n <= max_chars {
        s
    } else {
        let head = String::from_str(s.as_str().substring_char(0, max_chars));
        proof {
            reveal_strlit("...");
            assert("..."@ =~= ellipsis());
            assert(s@.subrange(0, max_chars as int) =~= s@.take(max_chars as int));
        }
        head.concat("...")
    }
}

/// The character that writes the digit `d`.
pub open spec fn digit_char(d: nat) -> char {
    if d == 0 {
        '0'
    } else if d == 1 {
        '1'
    } else if d == 2 {
        '2'
    } else if d == 3 {
        '3'
    } else if d == 4 {
        '4'
    } else if d == 5 {
        '5'
    } else if d == 6 {
        '6'
    } else if d == 7 {
        '7'
    } else if d == 8 {
        '8'
    } else {
        '9'
    }
}

/// The decimal numeral of `n`, most significant digit first, without
/// leading zeros.
pub open spec fn decimal(n: nat) -> Seq<char>
    decreases n,
{
    if n < 10 {
        seq![digit_char(n)]
    } else {
        decimal(n / 10).push(digit_char(n % 10))
    }
}

fn digit_text(d: usize) -> (r: &'static str)
    requires
        d < 10,
    ensures
        r@ == seq![digit_char(d as nat)],
{
    proof {
        reveal_strlit("0");
        reveal_strlit("1");
        reveal_strlit("2");
        reveal_strlit("3");
        reveal_strlit("4");
        reveal_strlit("5");
        reveal_strlit("6");
        reveal_strlit("7");
        reveal_strlit("8");
        reveal_strlit("9");
    }
    let r = if d == 0 {
        "0"
    } else if d == 1 {
        "1"
    } else if d == 2 {
        "2"
    } else if d == 3 {
        "3"
    } else if d == 4 {
        "4"
    } else if d == 5 {
        "5"
    } else if d == 6 {
        "6"
    } else if d == 7 {
        "7"
    } else if d == 8 {
        "8"
    } else {
        "9"
    };
    assert(r@ =~= seq![digit_char(d as nat)]);
    r
}

/// Writes `n` in decimal.
pub fn decimal_string(n: usize) -> (r: String)
    ensures
        r@ == decimal(n as nat),
    decreases n,
{
    if n < 10 {
        String::from_str(digit_text(n))
    } else {
        let mut s = decimal_string(n / 10);
        s.append(digit_text(n % 10));
        assert(s@ =~= decimal(n as nat));
        s
    }
}

/// A run of `n` spaces.
pub open spec fn spaces(n: nat) -> Seq<char> {
    Seq::new(n, |i: int| ' ')
}

/// How many spaces bring a text of `len` characters up to `width`.
pub open spec fn fill(len: nat, width: nat) -> nat {
    if len < width {
        (width - len) as nat
    } else {
        0
    }
}

/// `s` left-aligned in a field of `width` characters: spaces are added
/// behind it, and a longer text is left as it is.
pub open spec fn padded_right(s: Seq<char>, width: nat) -> Seq<char> {
    s + spaces(fill(s.len(), width))
}

/// `s` right-aligned in a field of `width` characters: spaces are added in
/// front of it, and a longer text is left as it is.
pub open spec fn padded_left(s: Seq<char>, width: nat) -> Seq<char> {
    spaces(fill(s.len(), width)) + s
}

/// Builds a run of `n` spaces.
pub fn blank(n: usize) -> (r: String)
    ensures
        r@ == spaces(n as nat),
{
    let mut r = String::new();
    let mut i: usize = 0;
    proof {
        reveal_strlit(" ");
    }
    while i < n
        invariant
            i <= n,
            r@ == spaces(i as nat),
            " "@ == seq![' '],
        decreases n - i,
    {
        r.append(" ");
        i = i + 1;
        assert(r@ =~= spaces(i as nat));
    }
    r
}

/// Left-aligns `s` in a field of `width` characters.
pub fn pad_right(s: &str, width: usize) -> (r: String)
    ensures
        r@ == padded_right(s@, width as nat),
{
    let n = s.unicode_len();
    let mut r = String::from_str(s);
    if n < width {
        let gap = blank(width - n);
        r.append(gap.as_str());
    }
    assert(r@ =~= padded_right(s@, width as nat));
    r
}

/// Right-aligns `s` in a field of `width` characters.
pub fn pad_left(s: &str, width: usize) -> (r: String)
    ensures
        r@ == padded_left(s@, width as nat),
{
    let n = s.unicode_len();
    let mut r = if n < width {
        blank(width - n)
    } else {
        String::new()
    };
    r.append(s);
    assert(r@ =~= padded_left(s@, width as nat));
    r
}

/// The number of bytes that `s` takes in UTF-8.
pub open spec fn byte_len(s: Seq<char>) -> nat {
    vstd::utf8::encode_utf8(s).len()
}

/// Counts the bytes that `s` takes in UTF-8.
pub fn byte_length(s: &str) -> (r: usize)
    ensures
        r == byte_len(s@),
{
    s.as_bytes().len()
}

/// Whether `s` begins with `prefix`.
pub open spec fn has_prefix(s: Seq<char>, prefix: Seq<char>) -> bool {
    prefix.len() <= s.len() && s.take(prefix.len() as int) == prefix
}

/// Tests whether `s` begins with `prefix`.
pub fn starts_with(s: &str, prefix: &str) -> (r: bool)
    ensures
        r == has_prefix(s@, prefix@),
{
    let n = prefix.unicode_len();
    if s.unicode_len() < n {
        return false;
    }
    let mut i: usize = 0;
    while i < n
        invariant
            i <= n,
            n == prefix@.len(),
            n <= s@.len(),
            forall|j: int| 0 <= j < i ==> s@[j] == prefix@[j],
        decreases n - i,
    {
        if s.get_char(i) != prefix.get_char(i) {
            assert(s@.take(n as int)[i as int] != prefix@[i as int]);
            return false;
        }
        i = i + 1;
    }
    assert(s@.take(n as int) =~= prefix@);
    true
}

} // verus!
