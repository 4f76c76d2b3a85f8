use vstd::prelude::*;

verus! {

// ---------------------------------------------------------------------------
// Character classes.
//
// The scanner follows Unicode character classes, which are far too large to
// write down; each class gets a name, and a trusted wrapper ties the name to
// the standard library's classifier.
// ---------------------------------------------------------------------------

pub uninterp spec fn char_is_whitespace(c: char) -> bool;

pub uninterp spec fn char_is_alphabetic(c: char) -> bool;

pub uninterp spec fn char_is_alphanumeric(c: char) -> bool;

/// Relies on char::is_whitespace: the result depends on the character alone.
#[verifier::external_body]
pub fn is_whitespace_char(c: char) -> (b: bool)
    ensures
        b == char_is_whitespace(c),
{
    c.is_whitespace()
}

/// Relies on char::is_alphabetic: the result depends on the character alone.
#[verifier::external_body]
pub fn is_alphabetic_char(c: char) -> (b: bool)
    ensures
        b == char_is_alphabetic(c),
{
    c.is_alphabetic()
}

/// Relies on char::is_alphanumeric: the result depends on the character alone.
#[verifier::external_body]
pub fn is_alphanumeric_char(c: char) -> (b: bool)
    ensures
        b == char_is_alphanumeric(c),
{
    c.is_alphanumeric()
}

/// A character that may open an identifier: a letter or an underscore.
pub open spec fn id_start(c: char) -> bool {
    char_is_alphabetic(c) || c == '_'
}

/// A character that may continue an identifier.
pub open spec fn id_continue(c: char) -> bool {
    char_is_alphanumeric(c) || c == '_'
}

/// Exec mirror of `id_start`.
pub fn is_id_start(c: char) -> (b: bool)
    ensures
        b == id_start(c),
{
    is_alphabetic_char(c) || c == '_'
}

/// Exec mirror of `id_continue`.
pub fn is_id_continue(c: char) -> (b: bool)
    ensures
        b == id_continue(c),
{
    is_alphanumeric_char(c) || c == '_'
}

// ---------------------------------------------------------------------------
// Lines and columns.
//
// Positions are indices into the character sequence; lines are 1-based and
// counted by newline occurrences, and a column is 1-based within its line.
// ---------------------------------------------------------------------------

/// The 1-based line number of position `i`.
pub open spec fn line_of(s: Seq<char>, i: int) -> int
    decreases i,
{
    if i <= 0 {
        1
    } else {
        line_of(s, i - 1) + if s[i - 1] == '\n' {
            1int
        } else {
            0int
        }
    }
}

/// The position at which the line holding position `i` starts.
pub open spec fn line_start_of(s: Seq<char>, i: int) -> int
    decreases i,
{
    if i <= 0 {
        0
    } else if s[i - 1] == '\n' {
        i
    } else {
        line_start_of(s, i - 1)
    }
}

/// The 1-based column of position `i` within its line.
pub open spec fn col_of(s: Seq<char>, i: int) -> int {
    i - line_start_of(s, i) + 1
}

pub proof fn lemma_line_of_bounds(s: Seq<char>, i: int)
    requires
        0 <= i,
    ensures
        1 <= line_of(s, i) <= i + 1,
    decreases i,
{
    if i > 0 {
        lemma_line_of_bounds(s, i - 1);
    }
}

pub proof fn lemma_line_start_bounds(s: Seq<char>, i: int)
    requires
        0 <= i,
    ensures
        0 <= line_start_of(s, i) <= i,
    decreases i,
{
    if i > 0 {
        lemma_line_start_bounds(s, i - 1);
    }
}

/// Between the start of a line and any position on that line there is no
/// newline character.
pub proof fn lemma_line_start_no_newline(s: Seq<char>, i: int, k: int)
    requires
        0 <= i,
        line_start_of(s, i) <= k < i,
    ensures
        s[k] != '\n',
    decreases i,
{
    if k == i - 1 {
        if s[k] == '\n' {
            assert(line_start_of(s, i) == i);
        }
    } else {
        if s[i - 1] == '\n' {
            assert(line_start_of(s, i) == i);
        } else {
            lemma_line_start_no_newline(s, i - 1, k);
        }
    }
}

/// A stretch without newlines stays on one line, with one line start.
pub proof fn lemma_same_line(s: Seq<char>, a: int, b: int)
    requires
        0 <= a <= b,
        forall|k: int| a <= k < b ==> s[k] != '\n',
    ensures
        line_of(s, b) == line_of(s, a),
        line_start_of(s, b) == line_start_of(s, a),
    decreases b - a,
{
    if a < b {
        lemma_same_line(s, a, b - 1);
    }
}

// ---------------------------------------------------------------------------
// Locating a line by its number.
// ---------------------------------------------------------------------------

/// The position just after the first newline at or beyond `i`; the sequence
/// length if the last line is open.
pub open spec fn next_line_start(s: Seq<char>, i: int) -> int
    decreases s.len() - i,
{
    if !(0 <= i < s.len()) {
        s.len() as int
    } else if s[i] == '\n' {
        i + 1
    } else {
        next_line_start(s, i + 1)
    }
}

/// The position at which the 1-based line `ln` starts.
pub open spec fn start_of_line(s: Seq<char>, ln: int) -> int
    decreases ln,
{
    if ln <= 1 {
        0
    } else {
        next_line_start(s, start_of_line(s, ln - 1))
    }
}

proof fn lemma_next_line_start_find(s: Seq<char>, a: int, b: int)
    requires
        0 <= a <= b < s.len(),
        forall|k: int| a <= k < b ==> s[k] != '\n',
        s[b] == '\n',
    ensures
        next_line_start(s, a) == b + 1,
    decreases b - a,
{
    if a < b {
        lemma_next_line_start_find(s, a + 1, b);
    }
}

/// The line number and the line start determine each other: looking up the
/// start of the line numbered `line_of(s, i)` lands on `line_start_of(s, i)`.
pub proof fn lemma_line_lookup(s: Seq<char>, i: int)
    requires
        0 <= i <= s.len(),
    ensures
        start_of_line(s, line_of(s, i)) == line_start_of(s, i),
    decreases i,
{
    if i == 0 {
    } else {
        lemma_line_lookup(s, i - 1);
        lemma_line_of_bounds(s, i - 1);
        lemma_line_start_bounds(s, i - 1);
        if s[i - 1] == '\n' {
            let prev = line_of(s, i - 1);
            let ls = line_start_of(s, i - 1);
            assert(forall|k: int| ls <= k < i - 1 ==> s[k] != '\n') by {
                assert forall|k: int| ls <= k < i - 1 implies s[k] != '\n' by {
                    lemma_line_start_no_newline(s, i - 1, k);
                }
            }
            lemma_next_line_start_find(s, ls, i - 1);
            assert(start_of_line(s, prev + 1) == next_line_start(s, ls));
        }
    }
}

// ---------------------------------------------------------------------------
// Decimal rendering of numbers.
// ---------------------------------------------------------------------------

/// The character for one decimal digit.
pub open spec fn digit_char(d: int) -> char {
    if d == 0 {
        '0'
    } else if d == 1 {
        '1'
    } else if d == 2 {
        '2'
    } else if d == 3 {
        '3'
    } else if d == 4 {
        '4'
    } else if d == 5 {
        '5'
    } else if d == 6 {
        '6'
    } else if d == 7 {
        '7'
    } else if d == 8 {
        '8'
    } else {
        '9'
    }
}

/// The decimal rendering of a non-negative number.
pub open spec fn dec_digits(n: int) -> Seq<char>
    decreases n,
{
    if n < 10 {
        seq![digit_char(n)]
    } else {
        dec_digits(n / 10).push(digit_char(n % 10))
    }
}

/// Relies on String::push: appends the character to the end of the string.
#[verifier::external_body]
pub fn push_char(s: &mut String, c: char)
    ensures
        final(s)@ == old(s)@.push(c),
{
    s.push(c)
}

/// Exec mirror of `digit_char`.
pub fn digit_to_char(d: usize) -> (c: char)
    requires
        d < 10,
    ensures
        c == digit_char(d as int),
{
    if d == 0 {
        '0'
    } else if d == 1 {
        '1'
    } else if d == 2 {
        '2'
    } else if d == 3 {
        '3'
    } else if d == 4 {
        '4'
    } else if d == 5 {
        '5'
    } else if d == 6 {
        '6'
    } else if d == 7 {
        '7'
    } else if d == 8 {
        '8'
    } else {
        '9'
    }
}

/// Renders a number in decimal.
pub fn usize_to_string(n: usize) -> (s: String)
    ensures
        s@ == dec_digits(n as int),
    decreases n,
{
    if n < 10 {
        let mut s = String::new();
        push_char(&mut s, digit_to_char(n));
        proof {
            assert(s@ =~= dec_digits(n as int));
        }
        s
    } else {
        let mut s = usize_to_string(n / 10);
        push_char(&mut s, digit_to_char(n % 10));
        s
    }
}

/// A sequence of one character repeated.
pub open spec fn repeat_char(c: char, n: int) -> Seq<char>
    decreases n,
{
    if n <= 0 {
        Seq::empty()
    } else {
        repeat_char(c, n - 1).push(c)
    }
}

/// Builds the repetition of one character.
pub fn make_repeat(c: char, n: usize) -> (s: String)
    ensures
        s@ == repeat_char(c, n as int),
{
    let mut s = String::new();
    let mut k: usize = 0;
    proof {
        assert(s@ =~= repeat_char(c, 0));
    }
    while k < n
        invariant
            k <= n,
            s@ == repeat_char(c, k as int),
        decreases n - k,
    {
        push_char(&mut s, c);
        k = k + 1;
    }
    s
}

/// Whether a string's characters equal the given word.
pub fn str_matches(s: &String, w: &str) -> (b: bool)
    ensures
        b == (s@ == w@),
{
    s.eq(&w.to_owned())
}

} // verus!
